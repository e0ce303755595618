use nodepad::binding::{TaskBinding, TaskStep};

#[test]
fn binding_request_deliver_clear_cycle() {
    let mut b: TaskBinding<String, String> = TaskBinding::new();
    assert!(b.is_idle());
    assert_eq!(b.read_or_request(None), TaskStep::Requested);
    assert!(b.is_pending());
    assert_eq!(b.read_or_request(None), TaskStep::Waiting);
    assert!(b.read().is_none());
    assert_eq!(b.read_or_request(Some(Ok("x".to_string()))), TaskStep::Delivered);
    assert_eq!(b.read(), Some(&Ok("x".to_string())));
    for _ in 0..3 {
        assert_eq!(b.read_or_request(None), TaskStep::Delivered);
        assert_eq!(b.read(), Some(&Ok("x".to_string())));
    }
    assert_eq!(b.read_or_request(Some(Ok("other".to_string()))), TaskStep::Delivered);
    assert_eq!(b.read(), Some(&Ok("x".to_string())));
    b.clear();
    assert!(b.is_idle());
    assert!(b.read().is_none());
    assert_eq!(b.read_or_request(None), TaskStep::Requested);
    assert!(b.is_pending());
}

#[test]
fn binding_drops_result_arriving_while_idle() {
    let mut b: TaskBinding<u32, String> = TaskBinding::new();
    assert_eq!(b.read_or_request(Some(Ok(5))), TaskStep::Requested);
    assert!(b.is_pending());
    assert!(b.read().is_none());
}

#[test]
fn binding_clear_while_pending() {
    let mut b: TaskBinding<u32, String> = TaskBinding::new();
    b.read_or_request(None);
    b.clear();
    assert!(b.is_idle());
    assert_eq!(b.read_or_request(None), TaskStep::Requested);
}

#[test]
fn binding_take_hands_out_once() {
    let mut b: TaskBinding<u32, String> = TaskBinding::new();
    assert_eq!(b.take(), None);
    b.read_or_request(None);
    assert_eq!(b.take(), None);
    assert!(b.is_pending());
    b.read_or_request(Some(Err("failed".to_string())));
    assert_eq!(b.take(), Some(Err("failed".to_string())));
    assert!(b.is_idle());
    assert_eq!(b.take(), None);
}
