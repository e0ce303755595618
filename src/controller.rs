use vstd::prelude::*;
use crate::binding::{TaskBinding, TaskState, TaskStep, next_state};
use crate::graph::{Graph, GraphView, node_added, edge_added, labeled_view};

verus! {

/// Which screen is shown.
#[derive(Debug, Clone, Copy, PartialEq, Eq, Structural)]
pub enum Screen {
    Start,
    Main,
}

/// What the caller has to do after one tick of the file import.
#[derive(Debug, Clone, PartialEq, Eq)]
pub enum ImportOutcome {
    /// No import is open.
    Closed,
    /// Start the file picker now and hand its result to later ticks.
    StartPicker,
    /// The picker is still open.
    Waiting,
    /// A file was picked; it is now `picked_file`.
    Loaded,
    /// The picker failed or was cancelled, with its reason; the import closed.
    Failed(String),
}

/// The abstract state of the application.
pub struct AppView<P, F> {
    pub graph: GraphView<P>,
    pub selected_node: Option<usize>,
    pub show_node_editor: bool,
    pub show_note_editor: bool,
    pub screen: Screen,
    pub file_dialog: TaskState<F, String>,
    pub picked_file: Option<F>,
    pub show_file_dialog: bool,
}

impl<P, F> AppView<P, F> {
    /// The graph is well formed and a selection names a node of it.
    pub open spec fn wf(self) -> bool {
        &&& self.graph.wf()
        &&& (self.selected_node matches Some(id) ==> self.graph.nodes.contains_key(id))
    }
}

/// The state that the interface reads and changes on each tick: the graph,
/// the screen, the selected node with its two editor panels, and the file
/// import with its request slot. `P` is the canvas position type and `F` the
/// handle of a picked file.
pub struct NodePadApp<P, F> {
    graph: Graph<P>,
    selected_node: Option<usize>,
    show_node_editor: bool,
    show_note_editor: bool,
    screen: Screen,
    file_dialog: TaskBinding<F, String>,
    picked_file: Option<F>,
    show_file_dialog: bool,
}

impl<P, F> View for NodePadApp<P, F> {
    type V = AppView<P, F>;

    closed spec fn view(&self) -> AppView<P, F> {
        AppView {
            graph: self.graph@,
            selected_node: self.selected_node,
            show_node_editor: self.show_node_editor,
            show_note_editor: self.show_note_editor,
            screen: self.screen,
            file_dialog: self.file_dialog@,
            picked_file: self.picked_file,
            show_file_dialog: self.show_file_dialog,
        }
    }
}

impl<P, F> NodePadApp<P, F> {
    pub open spec fn wf(&self) -> bool {
        self@.wf()
    }

    /// The start screen over `graph`, nothing selected, no panel open.
    pub fn new(graph: Graph<P>) -> (r: NodePadApp<P, F>)
        requires
            graph.wf(),
        ensures
            r.wf(),
            r@.graph == graph@,
            r@.selected_node is None,
            !r@.show_node_editor,
            !r@.show_note_editor,
            r@.screen == Screen::Start,
            r@.file_dialog == TaskState::<F, String>::Idle,
            r@.picked_file is None,
            !r@.show_file_dialog,
    {
        NodePadApp {
            graph,
            selected_node: None,
            show_node_editor: false,
            show_note_editor: false,
            screen: Screen::Start,
            file_dialog: TaskBinding::new(),
            picked_file: None,
            show_file_dialog: false,
        }
    }

    /// The start screen over a triangle: nodes "A", "B", "C" (ids 0, 1, 2) at
    /// the given positions, joined A-B, B-C, C-A.
    pub fn with_demo_graph(a: P, b: P, c: P) -> (r: NodePadApp<P, F>)
        ensures
            r.wf(),
            r@.screen == Screen::Start,
            r@.selected_node is None,
            r@.graph.next_id == 3,
            r@.graph.nodes[0].label@ == "A"@,
            r@.graph.nodes[1].label@ == "B"@,
            r@.graph.nodes[2].label@ == "C"@,
            r@.graph.nodes[0].note@ == ""@,
            r@.graph.nodes[1].note@ == ""@,
            r@.graph.nodes[2].note@ == ""@,
            r@.graph.nodes[0].position == a,
            r@.graph.nodes[1].position == b,
            r@.graph.nodes[2].position == c,
            r@.graph.edges == seq![
                crate::graph::Edge { from: 0, to: 1 },
                crate::graph::Edge { from: 1, to: 2 },
                crate::graph::Edge { from: 2, to: 0 },
            ],
            !r@.show_node_editor,
            !r@.show_note_editor,
            r@.file_dialog == TaskState::<F, String>::Idle,
            r@.picked_file is None,
            !r@.show_file_dialog,
    {
        let mut graph = Graph::new();
        let n1 = graph.add_node("A", "", a);
        let n2 = graph.add_node("B", "", b);
        let n3 = graph.add_node("C", "", c);
        graph.add_edge(n1, n2);
        graph.add_edge(n2, n3);
        graph.add_edge(n3, n1);
        proof {
            assert(graph@.edges =~= seq![
                crate::graph::Edge { from: 0, to: 1 },
                crate::graph::Edge { from: 1, to: 2 },
                crate::graph::Edge { from: 2, to: 0 },
            ]);
        }
        Self::new(graph)
    }

    pub fn graph(&self) -> (r: &Graph<P>)
        ensures
            r@ == self@.graph,
    {
        &self.graph
    }

    pub fn selected_node(&self) -> (r: Option<usize>)
        ensures
            r == self@.selected_node,
    {
        self.selected_node
    }

    pub fn screen(&self) -> (r: Screen)
        ensures
            r == self@.screen,
    {
        self.screen
    }

    pub fn show_node_editor(&self) -> (r: bool)
        ensures
            r == self@.show_node_editor,
    {
        self.show_node_editor
    }

    pub fn show_note_editor(&self) -> (r: bool)
        ensures
            r == self@.show_note_editor,
    {
        self.show_note_editor
    }

    pub fn show_file_dialog(&self) -> (r: bool)
        ensures
            r == self@.show_file_dialog,
    {
        self.show_file_dialog
    }

    pub fn picked_file(&self) -> (r: Option<&F>)
        ensures
            match r {
                Some(f) => self@.picked_file == Some(*f),
                None => self@.picked_file is None,
            },
    {
        match &self.picked_file {
            Some(f) => Some(f),
            None => None,
        }
    }

    /// Whether the file import waits on a running picker.
    pub fn import_pending(&self) -> (r: bool)
        ensures
            r == (self@.file_dialog is Pending),
    {
        self.file_dialog.is_pending()
    }

    /// "Start" on the start screen: show the main screen.
    pub fn enter_main_screen(&mut self)
        ensures
            final(self)@ == (AppView { screen: Screen::Main, ..old(self)@ }),
    {
        self.screen = Screen::Main;
    }

    /// "Pick File" on the start screen: open the file import.
    pub fn open_file_dialog(&mut self)
        ensures
            final(self)@ == (AppView { show_file_dialog: true, ..old(self)@ }),
    {
        self.show_file_dialog = true;
    }

    /// One tick of the file import. `arrived` is what the running picker
    /// handed back since the last tick, if anything. While the import is
    /// open the request slot is polled: from idle it asks for the picker to
    /// be started; a picked file becomes `picked_file`; a failure carries its
    /// reason out. Either result closes the import and empties the slot.
    pub fn import_tick(&mut self, arrived: Option<Result<F, String>>) -> (r: ImportOutcome)
        ensures
            final(self)@.graph == old(self)@.graph,
            final(self)@.selected_node == old(self)@.selected_node,
            final(self)@.show_node_editor == old(self)@.show_node_editor,
            final(self)@.show_note_editor == old(self)@.show_note_editor,
            final(self)@.screen == old(self)@.screen,
            !old(self)@.show_file_dialog ==> r == ImportOutcome::Closed && final(self)@ == old(
                self,
            )@,
            old(self)@.show_file_dialog ==> match next_state(old(self)@.file_dialog, arrived) {
                TaskState::Idle => false,
                TaskState::Pending => {
                    &&& r == (if old(self)@.file_dialog is Idle {
                        ImportOutcome::StartPicker
                    } else {
                        ImportOutcome::Waiting
                    })
                    &&& final(self)@.file_dialog == TaskState::<F, String>::Pending
                    &&& final(self)@.show_file_dialog
                    &&& final(self)@.picked_file == old(self)@.picked_file
                },
                TaskState::Ready(Ok(file)) => {
                    &&& r == ImportOutcome::Loaded
                    &&& final(self)@.picked_file == Some(file)
                    &&& final(self)@.file_dialog == TaskState::<F, String>::Idle
                    &&& !final(self)@.show_file_dialog
                },
                TaskState::Ready(Err(e)) => {
                    &&& r == ImportOutcome::Failed(e)
                    &&& final(self)@.picked_file == old(self)@.picked_file
                    &&& final(self)@.file_dialog == TaskState::<F, String>::Idle
                    &&& !final(self)@.show_file_dialog
                },
            },
    {
        if !self.show_file_dialog {
            return ImportOutcome::Closed;
        }
        let step = self.file_dialog.read_or_request(arrived);
        match step {
            TaskStep::Requested => ImportOutcome::StartPicker,
            TaskStep::Waiting => ImportOutcome::Waiting,
            TaskStep::Delivered => {
                let taken = self.file_dialog.take();
                self.show_file_dialog = false;
                match taken {
                    Some(Ok(file)) => {
                        self.picked_file = Some(file);
                        ImportOutcome::Loaded
                    },
                    Some(Err(e)) => ImportOutcome::Failed(e),
                    None => {
                        proof {
                            assert(false);
                        }
                        ImportOutcome::Waiting
                    },
                }
            },
        }
    }

    /// "Add Node" in the toolbar: a node labeled "New" with an empty note at
    /// `position`. Returns its id, or `None` with nothing changed when the
    /// ids are used up.
    pub fn add_node_clicked(&mut self, position: P) -> (r: Option<usize>)
        requires
            old(self).wf(),
        ensures
            final(self).wf(),
            final(self)@ == (AppView { graph: final(self)@.graph, ..old(self)@ }),
            match r {
                Some(id) => node_added(
                    old(self)@.graph,
                    final(self)@.graph,
                    id,
                    "New"@,
                    ""@,
                    position,
                ),
                None => old(self)@.graph.next_id == usize::MAX && final(self)@.graph == old(
                    self,
                )@.graph,
            },
    {
        if self.graph.next_id() == usize::MAX {
            return None;
        }
        let id = self.graph.add_node("New", "", position);
        Some(id)
    }

    /// "Clear Graph" in the toolbar: the graph is emptied, and the selection
    /// and its panels go with it, since its id no longer names a node.
    pub fn clear_graph(&mut self)
        ensures
            final(self).wf(),
            final(self)@.graph.is_empty(),
            final(self)@ == (AppView {
                graph: final(self)@.graph,
                selected_node: None,
                show_node_editor: false,
                show_note_editor: false,
                ..old(self)@
            }),
    {
        self.graph.clear();
        self.selected_node = None;
        self.show_node_editor = false;
        self.show_note_editor = false;
    }

    /// A drag moved node `id` to `position`; false when no such node.
    pub fn node_dragged(&mut self, id: usize, position: P) -> (r: bool)
        requires
            old(self).wf(),
        ensures
            final(self).wf(),
            r == old(self)@.graph.nodes.contains_key(id),
            final(self)@ == (AppView { graph: final(self)@.graph, ..old(self)@ }),
            final(self)@.graph.edges == old(self)@.graph.edges,
            final(self)@.graph.next_id == old(self)@.graph.next_id,
            final(self)@.graph.nodes == if r {
                old(self)@.graph.nodes.insert(id, crate::graph::Node { position, ..old(self)@.graph.nodes[id] })
            } else {
                old(self)@.graph.nodes
            },
    {
        self.graph.set_position(id, position)
    }

    /// A click on node `id`: it becomes the selection and its editor opens.
    /// Nothing changes when no such node.
    pub fn node_clicked(&mut self, id: usize)
        requires
            old(self).wf(),
        ensures
            final(self).wf(),
            final(self)@ == if old(self)@.graph.nodes.contains_key(id) {
                AppView { selected_node: Some(id), show_node_editor: true, ..old(self)@ }
            } else {
                old(self)@
            },
    {
        if self.graph.contains_node(id) {
            self.selected_node = Some(id);
            self.show_node_editor = true;
        }
    }

    /// Opens or closes the node editor panel.
    pub fn set_node_editor_open(&mut self, open: bool)
        ensures
            final(self)@ == (AppView { show_node_editor: open, ..old(self)@ }),
    {
        self.show_node_editor = open;
    }

    /// Opens or closes the note editor panel ("Edit Note" opens it).
    pub fn set_note_editor_open(&mut self, open: bool)
        ensures
            final(self)@ == (AppView { show_note_editor: open, ..old(self)@ }),
    {
        self.show_note_editor = open;
    }

    /// The nodes that an edge from the selection can go to: every other node,
    /// in increasing id order; empty when nothing is selected.
    pub fn link_targets(&self) -> (r: Vec<usize>)
        requires
            self.wf(),
        ensures
            self@.selected_node is None ==> r@.len() == 0,
            self@.selected_node matches Some(sel) ==> {
                &&& forall|k: usize| r@.contains(k) <==> (self@.graph.nodes.contains_key(k) && k != sel)
                &&& forall|a: int, b: int| 0 <= a < b < r@.len() ==> r@[a] < r@[b]
            },
    {
        match self.selected_node {
            Some(sel) => self.graph.other_node_ids(sel),
            None => Vec::new(),
        }
    }

    /// Joins the selection to `target`, as `Graph::add_edge` does; nothing
    /// changes when nothing is selected or `target` is the selection itself.
    pub fn link_selected_to(&mut self, target: usize)
        requires
            old(self).wf(),
        ensures
            final(self).wf(),
            final(self)@ == (AppView { graph: final(self)@.graph, ..old(self)@ }),
            match old(self)@.selected_node {
                Some(sel) => if sel != target {
                    edge_added(old(self)@.graph, final(self)@.graph, sel, target)
                } else {
                    final(self)@.graph == old(self)@.graph
                },
                None => final(self)@.graph == old(self)@.graph,
            },
    {
        if let Some(sel) = self.selected_node {
            if sel != target {
                self.graph.add_edge(sel, target);
            }
        }
    }

    /// Sets the label of the selected node; false when nothing is selected.
    pub fn set_selected_label(&mut self, label: String) -> (r: bool)
        requires
            old(self).wf(),
        ensures
            final(self).wf(),
            r == old(self)@.selected_node is Some,
            final(self)@ == (AppView { graph: final(self)@.graph, ..old(self)@ }),
            final(self)@.graph.edges == old(self)@.graph.edges,
            final(self)@.graph.next_id == old(self)@.graph.next_id,
            match old(self)@.selected_node {
                Some(sel) => final(self)@.graph.nodes == old(self)@.graph.nodes.insert(
                    sel,
                    crate::graph::Node { label, ..old(self)@.graph.nodes[sel] },
                ),
                None => final(self)@.graph == old(self)@.graph,
            },
    {
        match self.selected_node {
            Some(sel) => self.graph.set_label(sel, label),
            None => false,
        }
    }

    /// Sets the note of the selected node; false when nothing is selected.
    pub fn set_selected_note(&mut self, note: String) -> (r: bool)
        requires
            old(self).wf(),
        ensures
            final(self).wf(),
            r == old(self)@.selected_node is Some,
            final(self)@ == (AppView { graph: final(self)@.graph, ..old(self)@ }),
            final(self)@.graph.edges == old(self)@.graph.edges,
            final(self)@.graph.next_id == old(self)@.graph.next_id,
            match old(self)@.selected_node {
                Some(sel) => final(self)@.graph.nodes == old(self)@.graph.nodes.insert(
                    sel,
                    crate::graph::Node { note, ..old(self)@.graph.nodes[sel] },
                ),
                None => final(self)@.graph == old(self)@.graph,
            },
    {
        match self.selected_node {
            Some(sel) => self.graph.set_note(sel, note),
            None => false,
        }
    }

    /// The links listed under the selected note: its neighbors with their
    /// labels, in edge order; empty when nothing is selected.
    pub fn backlinks(&self) -> (r: Vec<(usize, String)>)
        requires
            self.wf(),
        ensures
            labeled_view(r@) == match self@.selected_node {
                Some(sel) => self@.graph.neighbors(sel),
                None => Seq::empty(),
            },
    {
        match self.selected_node {
            Some(sel) => self.graph.neighbors(sel),
            None => {
                let v: Vec<(usize, String)> = Vec::new();
                proof {
                    assert(labeled_view(v@) =~= Seq::empty());
                }
                v
            },
        }
    }

    /// A click on a listed link: `target` becomes the selection, the screen
    /// stays. Nothing changes when no such node.
    pub fn follow_link(&mut self, target: usize)
        requires
            old(self).wf(),
        ensures
            final(self).wf(),
            final(self)@ == if old(self)@.graph.nodes.contains_key(target) {
                AppView { selected_node: Some(target), ..old(self)@ }
            } else {
                old(self)@
            },
    {
        if self.graph.contains_node(target) {
            self.selected_node = Some(target);
        }
    }
}

} // verus!
