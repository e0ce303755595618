use nodepad::graph::{Edge, Graph, Node};

type Pos = (f32, f32);

fn labels(v: &[(usize, String)]) -> Vec<(usize, &str)> {
    v.iter().map(|(id, l)| (*id, l.as_str())).collect()
}

#[test]
fn empty_graph_add_edge_and_clear_scenario() {
    let mut g: Graph<Pos> = Graph::new();
    assert_eq!(g.add_node("A", "", (0.0, 0.0)), 0);
    assert_eq!(g.add_node("B", "", (10.0, 10.0)), 1);
    g.add_edge(0, 1);
    assert_eq!(g.edge_count(), 1);
    g.add_edge(0, 99);
    assert_eq!(g.edge_count(), 1);
    g.clear();
    assert_eq!(g.node_count(), 0);
    assert_eq!(g.edge_count(), 0);
    assert_eq!(g.next_id(), 0);
    assert_eq!(g.add_node("C", "", (1.0, 1.0)), 0);
}

#[test]
fn add_node_ids_strictly_increase() {
    let mut g: Graph<Pos> = Graph::new();
    let mut last: Option<usize> = None;
    for i in 0..20 {
        let id = g.add_node("n", "", (i as f32, 0.0));
        if let Some(prev) = last {
            assert!(id > prev);
        }
        last = Some(id);
    }
    assert_eq!(g.node_count(), 20);
    assert_eq!(g.next_id(), 20);
}

#[test]
fn add_node_stores_label_note_and_position() {
    let mut g: Graph<Pos> = Graph::new();
    let id = g.add_node("Label", "Body text", (3.5, -2.0));
    let n = g.get_node(id).unwrap();
    assert_eq!(n.label, "Label");
    assert_eq!(n.note, "Body text");
    assert_eq!(n.position, (3.5, -2.0));
    assert!(g.get_node(id + 1).is_none());
}

#[test]
fn add_edge_found_iff_both_ends_exist() {
    let mut g: Graph<Pos> = Graph::new();
    let a = g.add_node("A", "", (0.0, 0.0));
    let b = g.add_node("B", "", (0.0, 0.0));
    g.add_edge(a, b);
    assert_eq!(g.edge_count(), 1);
    assert_eq!(g.edge(0), Edge::new(a, b));
    g.add_edge(7, b);
    g.add_edge(a, 7);
    g.add_edge(7, 8);
    assert_eq!(g.edge_count(), 1);
}

#[test]
fn stale_ids_after_clear_are_harmless() {
    let mut g: Graph<Pos> = Graph::new();
    let a = g.add_node("A", "", (0.0, 0.0));
    let b = g.add_node("B", "", (0.0, 0.0));
    g.clear();
    g.add_edge(a, b);
    assert_eq!(g.edge_count(), 0);
}

#[test]
fn clear_twice_same_as_once() {
    let mut g: Graph<Pos> = Graph::new();
    g.add_node("A", "", (0.0, 0.0));
    g.add_node("B", "", (0.0, 0.0));
    g.add_edge(0, 1);
    g.clear();
    assert_eq!((g.node_count(), g.edge_count(), g.next_id()), (0, 0, 0));
    g.clear();
    assert_eq!((g.node_count(), g.edge_count(), g.next_id()), (0, 0, 0));
}

#[test]
fn neighbors_in_edge_order() {
    let mut g: Graph<Pos> = Graph::new();
    for name in ["zero", "one", "two", "three"] {
        g.add_node(name, "", (0.0, 0.0));
    }
    g.add_edge(1, 2);
    g.add_edge(2, 3);
    assert_eq!(labels(&g.neighbors(2)), vec![(1, "one"), (3, "three")]);
    assert!(g.neighbors(0).is_empty());
    assert_eq!(labels(&g.neighbors(1)), vec![(2, "two")]);
}

#[test]
fn neighbors_follow_label_changes() {
    let mut g: Graph<Pos> = Graph::new();
    let a = g.add_node("A", "", (0.0, 0.0));
    let b = g.add_node("B", "", (0.0, 0.0));
    g.add_edge(a, b);
    assert!(g.set_label(b, "Renamed".to_string()));
    assert_eq!(labels(&g.neighbors(a)), vec![(b, "Renamed")]);
    assert!(!g.set_label(42, "x".to_string()));
}

#[test]
fn self_edge_lists_the_node_itself() {
    let mut g: Graph<Pos> = Graph::new();
    let a = g.add_node("A", "", (0.0, 0.0));
    g.add_edge(a, a);
    assert_eq!(labels(&g.neighbors(a)), vec![(a, "A")]);
}

#[test]
fn other_node_ids_skip_the_given_one() {
    let mut g: Graph<Pos> = Graph::new();
    for _ in 0..4 {
        g.add_node("n", "", (0.0, 0.0));
    }
    assert_eq!(g.other_node_ids(2), vec![0, 1, 3]);
    assert_eq!(g.other_node_ids(9), vec![0, 1, 2, 3]);
}

#[test]
fn setters_change_one_field() {
    let mut g: Graph<Pos> = Graph::new();
    let a = g.add_node("A", "old", (1.0, 2.0));
    assert!(g.set_note(a, "new".to_string()));
    assert!(g.set_position(a, (5.0, 6.0)));
    let n = g.get_node(a).unwrap();
    assert_eq!(n.label, "A");
    assert_eq!(n.note, "new");
    assert_eq!(n.position, (5.0, 6.0));
    assert!(!g.set_note(3, "x".to_string()));
    assert!(!g.set_position(3, (0.0, 0.0)));
    assert!(g.contains_node(a));
    assert!(!g.contains_node(3));
}

#[test]
fn node_and_edge_constructors() {
    let n = Node::new("L".to_string(), "N".to_string(), (1.0f32, 2.0f32));
    assert_eq!(n.label, "L");
    assert_eq!(n.note, "N");
    assert_eq!(n.position, (1.0, 2.0));
    let e = Edge::new(4, 5);
    assert_eq!((e.from, e.to), (4, 5));
}

#[test]
fn node_ids_lists_every_node() {
    let mut g: Graph<Pos> = Graph::new();
    assert!(g.node_ids().is_empty());
    for _ in 0..3 {
        g.add_node("n", "", (0.0, 0.0));
    }
    assert_eq!(g.node_ids(), vec![0, 1, 2]);
}
