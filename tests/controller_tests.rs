use nodepad::controller::{ImportOutcome, NodePadApp, Screen};
use nodepad::graph::{Edge, Graph};

type Pos = (f32, f32);
type App = NodePadApp<Pos, String>;

fn demo() -> App {
    NodePadApp::with_demo_graph((100.0, 100.0), (300.0, 150.0), (200.0, 300.0))
}

#[test]
fn demo_graph_is_a_triangle() {
    let app = demo();
    let g = app.graph();
    assert_eq!(g.node_count(), 3);
    assert_eq!(g.edge_count(), 3);
    assert_eq!(g.edge(0), Edge::new(0, 1));
    assert_eq!(g.edge(1), Edge::new(1, 2));
    assert_eq!(g.edge(2), Edge::new(2, 0));
    assert_eq!(g.get_node(0).unwrap().label, "A");
    assert_eq!(g.get_node(2).unwrap().position, (200.0, 300.0));
    assert_eq!(app.screen(), Screen::Start);
    assert_eq!(app.selected_node(), None);
}

#[test]
fn start_button_enters_main() {
    let mut app: App = NodePadApp::new(Graph::new());
    assert_eq!(app.screen(), Screen::Start);
    app.enter_main_screen();
    assert_eq!(app.screen(), Screen::Main);
}

#[test]
fn import_success_sets_picked_file() {
    let mut app = demo();
    assert_eq!(app.import_tick(None), ImportOutcome::Closed);
    app.open_file_dialog();
    assert!(app.show_file_dialog());
    assert_eq!(app.import_tick(None), ImportOutcome::StartPicker);
    assert_eq!(app.import_tick(None), ImportOutcome::Waiting);
    assert_eq!(app.screen(), Screen::Start);
    assert_eq!(app.import_tick(Some(Ok("bg.png".to_string()))), ImportOutcome::Loaded);
    assert_eq!(app.picked_file(), Some(&"bg.png".to_string()));
    assert!(!app.show_file_dialog());
    assert_eq!(app.import_tick(None), ImportOutcome::Closed);
}

#[test]
fn import_failure_closes_without_file() {
    let mut app = demo();
    app.open_file_dialog();
    app.import_tick(None);
    let out = app.import_tick(Some(Err("Problem Picking File".to_string())));
    assert_eq!(out, ImportOutcome::Failed("Problem Picking File".to_string()));
    assert!(!app.show_file_dialog());
    assert_eq!(app.picked_file(), None);
    app.open_file_dialog();
    assert_eq!(app.import_tick(None), ImportOutcome::StartPicker);
}

#[test]
fn click_drag_and_edit_selected_node() {
    let mut app = demo();
    app.enter_main_screen();
    app.node_clicked(1);
    assert_eq!(app.selected_node(), Some(1));
    assert!(app.show_node_editor());
    app.node_clicked(50);
    assert_eq!(app.selected_node(), Some(1));
    assert!(app.node_dragged(1, (310.0, 155.0)));
    assert!(!app.node_dragged(50, (0.0, 0.0)));
    assert!(app.set_selected_label("Bee".to_string()));
    assert!(app.set_selected_note("notes".to_string()));
    let n = app.graph().get_node(1).unwrap();
    assert_eq!(n.position, (310.0, 155.0));
    assert_eq!(n.label, "Bee");
    assert_eq!(n.note, "notes");
    app.set_note_editor_open(true);
    assert!(app.show_note_editor());
    app.set_node_editor_open(false);
    assert!(!app.show_node_editor());
}

#[test]
fn link_targets_and_backlinks() {
    let mut app = demo();
    assert!(app.link_targets().is_empty());
    assert!(app.backlinks().is_empty());
    app.node_clicked(0);
    assert_eq!(app.link_targets(), vec![1, 2]);
    let links: Vec<(usize, String)> = app.backlinks();
    assert_eq!(links, vec![(1, "B".to_string()), (2, "C".to_string())]);
    let id = app.add_node_clicked((150.0, 150.0)).unwrap();
    assert_eq!(id, 3);
    assert_eq!(app.graph().get_node(3).unwrap().label, "New");
    app.link_selected_to(3);
    assert_eq!(app.graph().edge_count(), 4);
    app.link_selected_to(77);
    assert_eq!(app.graph().edge_count(), 4);
    app.follow_link(3);
    assert_eq!(app.selected_node(), Some(3));
    assert_eq!(app.backlinks(), vec![(0, "A".to_string())]);
    app.follow_link(99);
    assert_eq!(app.selected_node(), Some(3));
}

#[test]
fn clear_graph_resets_selection() {
    let mut app = demo();
    app.node_clicked(2);
    app.set_note_editor_open(true);
    app.clear_graph();
    assert_eq!(app.selected_node(), None);
    assert!(!app.show_node_editor());
    assert!(!app.show_note_editor());
    assert_eq!(app.graph().node_count(), 0);
    assert!(!app.set_selected_label("x".to_string()));
    assert_eq!(app.add_node_clicked((0.0, 0.0)), Some(0));
}

#[test]
fn demo_graph_has_empty_notes_and_idle_import() {
    let app = demo();
    for id in 0..3 {
        assert_eq!(app.graph().get_node(id).unwrap().note, "");
    }
    assert_eq!(app.graph().get_node(0).unwrap().position, (100.0, 100.0));
    assert_eq!(app.graph().get_node(1).unwrap().position, (300.0, 150.0));
    assert!(!app.show_node_editor());
    assert!(!app.show_note_editor());
    assert!(!app.show_file_dialog());
    assert!(!app.import_pending());
    assert_eq!(app.picked_file(), None);
}

#[test]
fn link_to_selected_node_is_ignored() {
    let mut app = demo();
    app.node_clicked(1);
    app.link_selected_to(1);
    assert_eq!(app.graph().edge_count(), 3);
    app.link_selected_to(0);
    assert_eq!(app.graph().edge_count(), 4);
    assert_eq!(app.graph().edge(3), Edge::new(1, 0));
}

#[test]
fn main_screen_actions_leave_import_alone() {
    let mut app = demo();
    app.open_file_dialog();
    assert_eq!(app.import_tick(None), ImportOutcome::StartPicker);
    assert!(app.import_pending());
    app.enter_main_screen();
    app.node_clicked(0);
    app.add_node_clicked((1.0, 1.0));
    app.node_dragged(0, (2.0, 2.0));
    app.set_selected_note("n".to_string());
    app.clear_graph();
    assert_eq!(app.screen(), Screen::Main);
    assert!(app.show_file_dialog());
    assert!(app.import_pending());
}
