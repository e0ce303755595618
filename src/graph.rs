use std::collections::HashMap;
use vstd::prelude::*;
use vstd::std_specs::hash::group_hash_axioms;

verus! {

broadcast use group_hash_axioms;

/// One labeled concept on the canvas. The position type is left to the
/// caller: the graph stores it and hands it back, and never reads it.
#[derive(Debug, Clone)]
pub struct Node<P> {
    pub label: String,
    pub note: String,
    pub position: P,
}

impl<P> Node<P> {
    pub fn new(label: String, note: String, position: P) -> (r: Node<P>)
        ensures
            r.label == label,
            r.note == note,
            r.position == position,
    {
        Node { label, note, position }
    }
}

/// A connection between two node ids, traversed in both directions.
#[derive(Debug, Clone, Copy, PartialEq, Eq, Structural)]
pub struct Edge {
    pub from: usize,
    pub to: usize,
}

impl Edge {
    pub fn new(from: usize, to: usize) -> (r: Edge)
        ensures
            r.from == from,
            r.to == to,
    {
        Edge { from, to }
    }

    pub open spec fn touches(self, id: usize) -> bool {
        self.from == id || self.to == id
    }

    /// The endpoint that is not `id` (for a self-edge, `id` itself).
    pub open spec fn other(self, id: usize) -> usize {
        if self.from == id {
            self.to
        } else {
            self.from
        }
    }
}

/// The abstract state of a graph: nodes by id, edges in creation order, and
/// the id that the next node will get.
pub struct GraphView<P> {
    pub nodes: Map<usize, Node<P>>,
    pub edges: Seq<Edge>,
    pub next_id: nat,
}

impl<P> GraphView<P> {
    /// Ids are exactly those below `next_id`, and every edge joins two of them.
    pub open spec fn wf(self) -> bool {
        &&& forall|k: usize| #[trigger] self.nodes.contains_key(k) <==> k < self.next_id
        &&& forall|i: int|
            0 <= i < self.edges.len() ==> {
                &&& self.nodes.contains_key(#[trigger] self.edges[i].from)
                &&& self.nodes.contains_key(self.edges[i].to)
            }
        &&& self.next_id <= usize::MAX
    }

    pub open spec fn has_edge(self, from: usize, to: usize) -> bool {
        exists|i: int| 0 <= i < self.edges.len() && #[trigger] self.edges[i] == Edge { from, to }
    }

    /// For each of the first `n` edges that touches `id`, in order: the other
    /// endpoint and its current label.
    pub open spec fn neighbors_upto(self, id: usize, n: int) -> Seq<(usize, Seq<char>)>
        decreases n,
    {
        if n <= 0 {
            Seq::empty()
        } else {
            let prev = self.neighbors_upto(id, n - 1);
            let e = self.edges[n - 1];
            if e.touches(id) {
                prev.push((e.other(id), self.nodes[e.other(id)].label@))
            } else {
                prev
            }
        }
    }

    pub open spec fn neighbors(self, id: usize) -> Seq<(usize, Seq<char>)> {
        self.neighbors_upto(id, self.edges.len() as int)
    }

    pub open spec fn is_empty(self) -> bool {
        &&& self.nodes == Map::<usize, Node<P>>::empty()
        &&& self.edges == Seq::<Edge>::empty()
        &&& self.next_id == 0
    }
}

/// Nodes keyed by id, edges in creation order, and the next id to hand out.
#[derive(Debug, Clone)]
pub struct Graph<P> {
    nodes: HashMap<usize, Node<P>>,
    edges: Vec<Edge>,
    next_id: usize,
}

impl<P> View for Graph<P> {
    type V = GraphView<P>;

    closed spec fn view(&self) -> GraphView<P> {
        GraphView { nodes: self.nodes@, edges: self.edges@, next_id: self.next_id as nat }
    }
}

/// What `add_node` does to a graph: the node is stored under the old
/// `next_id`, which is returned and then advanced by one.
pub open spec fn node_added<P>(
    before: GraphView<P>,
    after: GraphView<P>,
    id: usize,
    label: Seq<char>,
    note: Seq<char>,
    position: P,
) -> bool {
    &&& id == before.next_id
    &&& after.next_id == before.next_id + 1
    &&& after.edges == before.edges
    &&& after.nodes.dom() == before.nodes.dom().insert(id)
    &&& forall|k: usize| k != id && before.nodes.contains_key(k) ==> after.nodes[k] == before.nodes[k]
    &&& after.nodes[id].label@ == label
    &&& after.nodes[id].note@ == note
    &&& after.nodes[id].position == position
}

/// What `add_edge` does to a graph: the edge is appended when both ends are
/// present, and nothing changes otherwise.
pub open spec fn edge_added<P>(before: GraphView<P>, after: GraphView<P>, from: usize, to: usize) -> bool {
    &&& after.nodes == before.nodes
    &&& after.next_id == before.next_id
    &&& after.edges == if before.nodes.contains_key(from) && before.nodes.contains_key(to) {
        before.edges.push(Edge { from, to })
    } else {
        before.edges
    }
}

impl<P> Graph<P> {
    pub open spec fn wf(&self) -> bool {
        self@.wf()
    }

    pub fn new() -> (r: Graph<P>)
        ensures
            r.wf(),
            r@.is_empty(),
    {
        let g = Graph { nodes: HashMap::new(), edges: Vec::new(), next_id: 0 };
        assert(g@.nodes =~= Map::<usize, Node<P>>::empty());
        assert(g@.edges =~= Seq::<Edge>::empty());
        g
    }

    /// The id that the next `add_node` returns.
    pub fn next_id(&self) -> (r: usize)
        ensures
            r == self@.next_id,
    {
        self.next_id
    }

    pub fn node_count(&self) -> (r: usize)
        requires
            self.wf(),
        ensures
            r == self@.nodes.len(),
            r == self@.next_id,
    {
        proof {
            assert(self@.nodes.dom() =~= Set::new(|k: usize| k < self.next_id));
            lemma_ids_below_len(self.next_id);
        }
        self.nodes.len()
    }

    pub fn edge_count(&self) -> (r: usize)
        ensures
            r == self@.edges.len(),
    {
        self.edges.len()
    }

    pub fn edge(&self, i: usize) -> (r: Edge)
        requires
            i < self@.edges.len(),
        ensures
            r == self@.edges[i as int],
    {
        self.edges[i]
    }

    pub fn add_node(&mut self, label: &str, note: &str, position: P) -> (id: usize)
        requires
            old(self).wf(),
            old(self)@.next_id < usize::MAX,
        ensures
            final(self).wf(),
            node_added(old(self)@, final(self)@, id, label@, note@, position),
    {
        let id = self.next_id;
        self.next_id = self.next_id + 1;
        let node = Node::new(label.to_string(), note.to_string(), position);
        self.nodes.insert(id, node);
        proof {
            assert(self@.nodes.dom() =~= old(self)@.nodes.dom().insert(id));
            assert forall|i: int| 0 <= i < self@.edges.len() implies {
                &&& self@.nodes.contains_key(#[trigger] self@.edges[i].from)
                &&& self@.nodes.contains_key(self@.edges[i].to)
            } by {
                assert(old(self)@.nodes.contains_key(old(self)@.edges[i].from));
                assert(old(self)@.nodes.contains_key(old(self)@.edges[i].to));
            }
        }
        id
    }

    pub fn contains_node(&self, id: usize) -> (r: bool)
        ensures
            r == self@.nodes.contains_key(id),
    {
        self.nodes.contains_key(&id)
    }

    pub fn add_edge(&mut self, from: usize, to: usize)
        requires
            old(self).wf(),
        ensures
            final(self).wf(),
            edge_added(old(self)@, final(self)@, from, to),
    {
        if self.nodes.contains_key(&from) && self.nodes.contains_key(&to) {
            self.edges.push(Edge::new(from, to));
            proof {
                assert forall|i: int| 0 <= i < self@.edges.len() implies {
                    &&& self@.nodes.contains_key(#[trigger] self@.edges[i].from)
                    &&& self@.nodes.contains_key(self@.edges[i].to)
                } by {
                    if i < old(self)@.edges.len() {
                        assert(self@.edges[i] == old(self)@.edges[i]);
                        assert(old(self)@.nodes.contains_key(old(self)@.edges[i].from));
                        assert(old(self)@.nodes.contains_key(old(self)@.edges[i].to));
                    } else {
                        assert(self@.edges[i] == Edge { from, to });
                    }
                }
                assert(self@.nodes == old(self)@.nodes);
            }
        }
    }

    pub fn clear(&mut self)
        ensures
            final(self).wf(),
            final(self)@.is_empty(),
    {
        self.nodes.clear();
        self.edges.clear();
        self.next_id = 0;
        proof {
            assert(self@.edges =~= Seq::<Edge>::empty());
        }
    }

    pub fn get_node(&self, id: usize) -> (r: Option<&Node<P>>)
        ensures
            match r {
                Some(n) => self@.nodes.contains_key(id) && *n == self@.nodes[id],
                None => !self@.nodes.contains_key(id),
            },
    {
        self.nodes.get(&id)
    }
    /// The other endpoint and current label of every edge touching `id`, in
    /// edge-creation order.
    pub fn neighbors(&self, id: usize) -> (r: Vec<(usize, String)>)
        requires
            self.wf(),
        ensures
            labeled_view(r@) == self@.neighbors(id),
    {
        let mut out: Vec<(usize, String)> = Vec::new();
        let mut i: usize = 0;
        while i < self.edges.len()
            invariant
                self.wf(),
                i <= self@.edges.len(),
                labeled_view(out@) == self@.neighbors_upto(id, i as int),
            decreases self@.edges.len() - i,
        {
            let e = self.edges[i];
            proof {
                assert(self@.edges[i as int] == e);
                assert(self@.nodes.contains_key(e.from));
                assert(self@.nodes.contains_key(e.to));
            }
            if e.from == id || e.to == id {
                let other = if e.from == id {
                    e.to
                } else {
                    e.from
                };
                let n = self.nodes.get(&other).unwrap();
                let pair = (other, n.label.clone());
                let ghost before = out@;
                out.push(pair);
                proof {
                    assert(labeled_view(out@) =~= labeled_view(before).push((other, n.label@)));
                }
            }
            i = i + 1;
        }
        out
    }

    /// Every node id other than `id`, in increasing order.
    pub fn other_node_ids(&self, id: usize) -> (r: Vec<usize>)
        requires
            self.wf(),
        ensures
            forall|k: usize| r@.contains(k) <==> (self@.nodes.contains_key(k) && k != id),
            forall|a: int, b: int| 0 <= a < b < r@.len() ==> r@[a] < r@[b],
    {
        let mut out: Vec<usize> = Vec::new();
        let mut k: usize = 0;
        while k < self.next_id
            invariant
                self.wf(),
                k <= self@.next_id,
                forall|j: usize| out@.contains(j) <==> (j < k && j != id),
                forall|a: int, b: int| 0 <= a < b < out@.len() ==> out@[a] < out@[b],
                forall|a: int| 0 <= a < out@.len() ==> out@[a] < k,
            decreases self@.next_id - k,
        {
            if k != id {
                let ghost before = out@;
                out.push(k);
                proof {
                    assert(out@ == before.push(k));
                    assert forall|j: usize| out@.contains(j) <==> (j < k + 1 && j != id) by {
                        if j == k {
                            assert(out@[out@.len() - 1] == k);
                        }
                        if out@.contains(j) && j != k {
                            let a = choose|a: int| 0 <= a < out@.len() && out@[a] == j;
                            if a == before.len() {
                                assert(out@[a] == k);
                            } else {
                                assert(before[a] == j);
                                assert(before.contains(j));
                            }
                        }
                        if j < k && j != id {
                            assert(before.contains(j));
                            let a = choose|a: int| 0 <= a < before.len() && before[a] == j;
                            assert(out@[a] == j);
                        }
                    }
                }
            } else {
                assert forall|j: usize| out@.contains(j) <==> (j < k + 1 && j != id) by {}
            }
            k = k + 1;
        }
        out
    }

    /// Every node id, in increasing order.
    pub fn node_ids(&self) -> (r: Vec<usize>)
        requires
            self.wf(),
        ensures
            forall|k: usize| r@.contains(k) <==> self@.nodes.contains_key(k),
            forall|a: int, b: int| 0 <= a < b < r@.len() ==> r@[a] < r@[b],
    {
        self.other_node_ids(usize::MAX)
    }

    /// Replaces the label of node `id`; false, and nothing changes, when the
    /// node is absent.
    pub fn set_label(&mut self, id: usize, label: String) -> (r: bool)
        requires
            old(self).wf(),
        ensures
            final(self).wf(),
            r == old(self)@.nodes.contains_key(id),
            final(self)@.edges == old(self)@.edges,
            final(self)@.next_id == old(self)@.next_id,
            final(self)@.nodes == if r {
                old(self)@.nodes.insert(id, Node { label, ..old(self)@.nodes[id] })
            } else {
                old(self)@.nodes
            },
    {
        match self.nodes.remove(&id) {
            Some(n) => {
                let node = Node { label, note: n.note, position: n.position };
                self.nodes.insert(id, node);
                proof {
                    assert(self@.nodes =~= old(self)@.nodes.insert(id, node));
                    assert(self@.nodes.dom() =~= old(self)@.nodes.dom());
                    lemma_same_ids_wf(old(self)@, self@);
                }
                true
            },
            None => {
                proof {
                    assert(self@.nodes =~= old(self)@.nodes);
                }
                false
            },
        }
    }

    /// Replaces the note of node `id`; false, and nothing changes, when the
    /// node is absent.
    pub fn set_note(&mut self, id: usize, note: String) -> (r: bool)
        requires
            old(self).wf(),
        ensures
            final(self).wf(),
            r == old(self)@.nodes.contains_key(id),
            final(self)@.edges == old(self)@.edges,
            final(self)@.next_id == old(self)@.next_id,
            final(self)@.nodes == if r {
                old(self)@.nodes.insert(id, Node { note, ..old(self)@.nodes[id] })
            } else {
                old(self)@.nodes
            },
    {
        match self.nodes.remove(&id) {
            Some(n) => {
                let node = Node { label: n.label, note, position: n.position };
                self.nodes.insert(id, node);
                proof {
                    assert(self@.nodes =~= old(self)@.nodes.insert(id, node));
                    assert(self@.nodes.dom() =~= old(self)@.nodes.dom());
                    lemma_same_ids_wf(old(self)@, self@);
                }
                true
            },
            None => {
                proof {
                    assert(self@.nodes =~= old(self)@.nodes);
                }
                false
            },
        }
    }

    /// Moves node `id` to `position`; false, and nothing changes, when the
    /// node is absent.
    pub fn set_position(&mut self, id: usize, position: P) -> (r: bool)
        requires
            old(self).wf(),
        ensures
            final(self).wf(),
            r == old(self)@.nodes.contains_key(id),
            final(self)@.edges == old(self)@.edges,
            final(self)@.next_id == old(self)@.next_id,
            final(self)@.nodes == if r {
                old(self)@.nodes.insert(id, Node { position, ..old(self)@.nodes[id] })
            } else {
                old(self)@.nodes
            },
    {
        match self.nodes.remove(&id) {
            Some(n) => {
                let node = Node { label: n.label, note: n.note, position };
                self.nodes.insert(id, node);
                proof {
                    assert(self@.nodes =~= old(self)@.nodes.insert(id, node));
                    assert(self@.nodes.dom() =~= old(self)@.nodes.dom());
                    lemma_same_ids_wf(old(self)@, self@);
                }
                true
            },
            None => {
                proof {
                    assert(self@.nodes =~= old(self)@.nodes);
                }
                false
            },
        }
    }
}

/// A list of (id, label) pairs with each label as its characters.
pub open spec fn labeled_view(v: Seq<(usize, String)>) -> Seq<(usize, Seq<char>)> {
    v.map_values(|p: (usize, String)| (p.0, p.1@))
}

/// A graph that keeps its ids, edges and counter stays well formed.
proof fn lemma_same_ids_wf<P>(before: GraphView<P>, after: GraphView<P>)
    requires
        before.wf(),
        after.nodes.dom() == before.nodes.dom(),
        after.edges == before.edges,
        after.next_id == before.next_id,
    ensures
        after.wf(),
{
    assert forall|k: usize| #[trigger] after.nodes.contains_key(k) <==> k < after.next_id by {
        assert(after.nodes.dom().contains(k) == before.nodes.dom().contains(k));
    }
    assert forall|i: int| 0 <= i < after.edges.len() implies {
        &&& after.nodes.contains_key(#[trigger] after.edges[i].from)
        &&& after.nodes.contains_key(after.edges[i].to)
    } by {
        assert(before.nodes.contains_key(before.edges[i].from));
        assert(before.nodes.contains_key(before.edges[i].to));
        assert(after.nodes.dom().contains(after.edges[i].from));
        assert(after.nodes.dom().contains(after.edges[i].to));
    }
}

proof fn lemma_ids_below_len(n: usize)
    ensures
        Set::new(|k: usize| k < n).len() == n,
        Set::new(|k: usize| k < n).finite(),
    decreases n,
{
    if n == 0 {
        assert(Set::new(|k: usize| k < n) =~= Set::<usize>::empty());
    } else {
        lemma_ids_below_len((n - 1) as usize);
        assert(Set::new(|k: usize| k < n) =~= Set::new(|k: usize| k < (n - 1) as usize).insert(
            (n - 1) as usize,
        ));
    }
}

/// Ids handed out by any run of `add_node` calls are strictly increasing, and
/// none of them names a node present before the run.
pub proof fn lemma_add_node_ids_increase<P>(
    gs: Seq<GraphView<P>>,
    ids: Seq<usize>,
    labels: Seq<Seq<char>>,
    notes: Seq<Seq<char>>,
    positions: Seq<P>,
)
    requires
        gs.len() == ids.len() + 1,
        labels.len() == ids.len(),
        notes.len() == ids.len(),
        positions.len() == ids.len(),
        gs[0].wf(),
        forall|i: int|
            0 <= i < ids.len() ==> #[trigger] node_added(
                gs[i],
                gs[i + 1],
                ids[i],
                labels[i],
                notes[i],
                positions[i],
            ),
    ensures
        forall|a: int, b: int| 0 <= a < b < ids.len() ==> ids[a] < ids[b],
        forall|a: int| 0 <= a < ids.len() ==> !gs[0].nodes.contains_key(#[trigger] ids[a]),
{
    assert forall|a: int| 0 <= a < ids.len() implies ids[a] == gs[0].next_id + a by {
        lemma_ids_from_start(gs, ids, labels, notes, positions, a);
    }
}

proof fn lemma_ids_from_start<P>(
    gs: Seq<GraphView<P>>,
    ids: Seq<usize>,
    labels: Seq<Seq<char>>,
    notes: Seq<Seq<char>>,
    positions: Seq<P>,
    a: int,
)
    requires
        gs.len() == ids.len() + 1,
        labels.len() == ids.len(),
        notes.len() == ids.len(),
        positions.len() == ids.len(),
        0 <= a < ids.len(),
        forall|i: int|
            0 <= i < ids.len() ==> #[trigger] node_added(
                gs[i],
                gs[i + 1],
                ids[i],
                labels[i],
                notes[i],
                positions[i],
            ),
    ensures
        ids[a] == gs[0].next_id + a,
        gs[a + 1].next_id == gs[0].next_id + a + 1,
    decreases a,
{
    assert(node_added(gs[a], gs[a + 1], ids[a], labels[a], notes[a], positions[a]));
    if a > 0 {
        lemma_ids_from_start(gs, ids, labels, notes, positions, a - 1);
    }
}

/// After `add_edge(from, to)` the edge is found exactly when both ends were
/// present; otherwise the edge count is unchanged.
pub proof fn lemma_add_edge_found<P>(before: GraphView<P>, after: GraphView<P>, from: usize, to: usize)
    requires
        before.wf(),
        edge_added(before, after, from, to),
    ensures
        after.has_edge(from, to) <==> (before.nodes.contains_key(from) && before.nodes.contains_key(
            to,
        )),
        !(before.nodes.contains_key(from) && before.nodes.contains_key(to)) ==> after.edges.len()
            == before.edges.len(),
{
    if before.nodes.contains_key(from) && before.nodes.contains_key(to) {
        assert(after.edges[before.edges.len() as int] == Edge { from, to });
    } else {
        if after.has_edge(from, to) {
            let i = choose|i: int| 0 <= i < after.edges.len() && #[trigger] after.edges[i] == Edge { from, to };
            assert(before.nodes.contains_key(before.edges[i].from));
        }
    }
}

/// Clearing a cleared graph changes nothing: `g1` is what one `clear` leaves
/// and `g2` what a second one leaves; both are the empty graph with `next_id`
/// at zero.
pub proof fn lemma_clear_idempotent<P>(g1: GraphView<P>, g2: GraphView<P>)
    requires
        g1.is_empty(),
        g2.is_empty(),
    ensures
        g2 == g1,
        g2.next_id == 0,
        g2.wf(),
{
    assert(g2.nodes == g1.nodes);
}

/// A node that no edge touches has no neighbors.
pub proof fn lemma_no_incident_edges<P>(g: GraphView<P>, id: usize)
    requires
        forall|i: int| 0 <= i < g.edges.len() ==> !(#[trigger] g.edges[i]).touches(id),
    ensures
        g.neighbors(id) == Seq::<(usize, Seq<char>)>::empty(),
{
    lemma_no_incident_upto(g, id, g.edges.len() as int);
}

proof fn lemma_no_incident_upto<P>(g: GraphView<P>, id: usize, n: int)
    requires
        n <= g.edges.len(),
        forall|i: int| 0 <= i < g.edges.len() ==> !(#[trigger] g.edges[i]).touches(id),
    ensures
        g.neighbors_upto(id, n) == Seq::<(usize, Seq<char>)>::empty(),
    decreases n,
{
    if n > 0 {
        assert(!g.edges[n - 1].touches(id));
        lemma_no_incident_upto(g, id, n - 1);
    }
}

} // verus!
