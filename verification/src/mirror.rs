//! The topology mirror: the visualization-facing copy of the engine's
//! node-and-edge graph. It is rebuilt wholesale at reset and then patched
//! by periodic reconciliation: relays the engine no longer knows are
//! removed together with their edges, and edges the engine reports are
//! added; reconciliation is idempotent.

use vstd::prelude::*;

use crate::types::NodeKind;

verus! {

broadcast use vstd::seq_lib::lemma_seq_contains_after_push;

/// One node of the mirror: its id, its category, and the stable index
/// the rendering layer addresses it by.
#[derive(Clone, Copy, Debug, PartialEq, Eq, Structural)]
pub struct MirrorNode {
    pub id: u8,
    pub kind: NodeKind,
    pub index: usize,
}

/// The mirror: a node list with stable indices and an edge list of node
/// id pairs. No edge may name an id absent from the node list.
pub struct TopologyMirror {
    nodes: Vec<MirrorNode>,
    edges: Vec<(u8, u8)>,
}

/// A snapshot of the engine's authoritative topology: the current node
/// population by category and the current adjacency, each undirected
/// edge reported once.
pub struct TopologySnapshot {
    pub drone_ids: Vec<u8>,
    pub client_ids: Vec<u8>,
    pub server_ids: Vec<u8>,
    pub edges: Vec<(u8, u8)>,
}

/// Mathematical image of [`TopologyMirror`].
#[verifier::ext_equal]
pub struct MirrorView {
    pub nodes: Seq<MirrorNode>,
    pub edges: Seq<(u8, u8)>,
}

impl View for TopologyMirror {
    type V = MirrorView;

    closed spec fn view(&self) -> MirrorView {
        MirrorView { nodes: self.nodes@, edges: self.edges@ }
    }
}

/// Mathematical image of [`TopologySnapshot`].
#[verifier::ext_equal]
pub struct SnapshotView {
    pub drone_ids: Seq<u8>,
    pub client_ids: Seq<u8>,
    pub server_ids: Seq<u8>,
    pub edges: Seq<(u8, u8)>,
}

impl View for TopologySnapshot {
    type V = SnapshotView;

    open spec fn view(&self) -> SnapshotView {
        SnapshotView {
            drone_ids: self.drone_ids@,
            client_ids: self.client_ids@,
            server_ids: self.server_ids@,
            edges: self.edges@,
        }
    }
}

/// The ids of a node list, in order.
pub open spec fn spec_node_ids(nodes: Seq<MirrorNode>) -> Seq<u8> {
    nodes.map_values(|n: MirrorNode| n.id)
}

/// The stable indices of a node list, in order.
pub open spec fn spec_node_indices(nodes: Seq<MirrorNode>) -> Seq<usize> {
    nodes.map_values(|n: MirrorNode| n.index)
}

/// Two undirected edges are the same when they pair the same ids, in
/// either orientation.
pub open spec fn spec_same_edge(a: (u8, u8), b: (u8, u8)) -> bool {
    a == b || (a.0 == b.1 && a.1 == b.0)
}

/// Whether the undirected edge `e` is already in the edge list, in
/// either orientation.
pub open spec fn spec_edge_present(edges: Seq<(u8, u8)>, e: (u8, u8)) -> bool {
    exists|i: int| 0 <= i < edges.len() && spec_same_edge(edges[i], e)
}

impl SnapshotView {
    /// All node ids of the snapshot, of every category.
    pub open spec fn all_ids(self) -> Set<u8> {
        self.drone_ids.to_set().union(self.client_ids.to_set()).union(self.server_ids.to_set())
    }

    /// Well-formedness of a snapshot: ids unique with each in exactly
    /// one category, each undirected edge reported once, and no edge
    /// naming an unknown node.
    pub open spec fn wf(self) -> bool {
        &&& self.drone_ids.no_duplicates()
        &&& self.client_ids.no_duplicates()
        &&& self.server_ids.no_duplicates()
        &&& forall|id: u8|
            self.drone_ids.contains(id) ==> !self.client_ids.contains(id)
                && !self.server_ids.contains(id)
        &&& forall|id: u8| self.client_ids.contains(id) ==> !self.server_ids.contains(id)
        &&& forall|i: int, j: int|
            0 <= i < j < self.edges.len() ==> !spec_same_edge(self.edges[i], self.edges[j])
        &&& forall|i: int| #![trigger self.edges[i]]
            0 <= i < self.edges.len() ==> self.all_ids().contains(self.edges[i].0)
                && self.all_ids().contains(self.edges[i].1)
    }
}

impl MirrorView {
    /// Well-formedness of the mirror: node ids and stable indices
    /// unique, each undirected edge held once, and no edge naming an id
    /// absent from the node list.
    pub open spec fn wf(self) -> bool {
        &&& spec_node_ids(self.nodes).no_duplicates()
        &&& spec_node_indices(self.nodes).no_duplicates()
        &&& forall|i: int, j: int|
            0 <= i < j < self.edges.len() ==> !spec_same_edge(self.edges[i], self.edges[j])
        &&& forall|i: int| #![trigger self.edges[i]]
            0 <= i < self.edges.len() ==> spec_node_ids(self.nodes).contains(self.edges[i].0)
                && spec_node_ids(self.nodes).contains(self.edges[i].1)
    }
}

/// The node list a full rebuild produces: the snapshot's relays, then
/// its clients, then its servers, with the stable index equal to the
/// position.
pub open spec fn spec_rebuilt_nodes(s: SnapshotView) -> Seq<MirrorNode> {
    let d = s.drone_ids.len() as int;
    let c = s.client_ids.len() as int;
    let v = s.server_ids.len() as int;
    Seq::new(
        (d + c + v) as nat,
        |i: int|
            if i < d {
                MirrorNode { id: s.drone_ids[i], kind: NodeKind::Drone, index: i as usize }
            } else if i < d + c {
                MirrorNode { id: s.client_ids[i - d], kind: NodeKind::Client, index: i as usize }
            } else {
                MirrorNode { id: s.server_ids[i - d - c], kind: NodeKind::Server, index: i as usize }
            },
    )
}

/// The mirror a full rebuild produces: the snapshot's nodes with stable
/// indices assigned in order, and the snapshot's edges as they are.
pub open spec fn spec_rebuild(s: SnapshotView) -> MirrorView {
    MirrorView { nodes: spec_rebuilt_nodes(s), edges: s.edges }
}

impl TopologyMirror {
    /// Well-formedness; established by `rebuild` and preserved by
    /// `reconcile`.
    pub open spec fn wf(self) -> bool {
        self@.wf()
    }

    /// An empty mirror, for an app that has not yet seen a snapshot.
    pub fn empty() -> (r: Self)
        ensures
            r.wf(),
            r@.nodes == Seq::<MirrorNode>::empty(),
            r@.edges == Seq::<(u8, u8)>::empty(),
    {
        let r = TopologyMirror { nodes: Vec::new(), edges: Vec::new() };
        proof {
            assert(spec_node_ids(r@.nodes) =~= Seq::<u8>::empty());
            assert(spec_node_indices(r@.nodes) =~= Seq::<usize>::empty());
        }
        r
    }

    /// Full reconstruction of the mirror from an engine snapshot, used
    /// at reset: every snapshot node with a fresh stable index, and
    /// every snapshot edge.
    pub fn rebuild(s: &TopologySnapshot) -> (r: Self)
        requires
            s@.wf(),
            s@.drone_ids.len() + s@.client_ids.len() + s@.server_ids.len() <= usize::MAX,
        ensures
            r.wf(),
            r@ == spec_rebuild(s@),
    {
        let ghost target = spec_rebuilt_nodes(s@);
        let mut nodes: Vec<MirrorNode> = Vec::new();
        let mut i: usize = 0;
        while i < s.drone_ids.len()
            invariant
                i <= s@.drone_ids.len(),
                target == spec_rebuilt_nodes(s@),
                s@.drone_ids.len() + s@.client_ids.len() + s@.server_ids.len() <= usize::MAX,
                nodes@ == target.take(i as int),
            decreases s@.drone_ids.len() - i,
        {
            nodes.push(MirrorNode { id: s.drone_ids[i], kind: NodeKind::Drone, index: i });
            proof {
                assert(nodes@ =~= target.take(i + 1 as int));
            }
            i = i + 1;
        }
        let d = i;
        let mut i: usize = 0;
        while i < s.client_ids.len()
            invariant
                i <= s@.client_ids.len(),
                d == s@.drone_ids.len(),
                target == spec_rebuilt_nodes(s@),
                s@.drone_ids.len() + s@.client_ids.len() + s@.server_ids.len() <= usize::MAX,
                nodes@ == target.take(d + i as int),
            decreases s@.client_ids.len() - i,
        {
            nodes.push(MirrorNode { id: s.client_ids[i], kind: NodeKind::Client, index: d + i });
            proof {
                assert(nodes@ =~= target.take(d + i + 1 as int));
            }
            i = i + 1;
        }
        let dc = d + i;
        let mut i: usize = 0;
        while i < s.server_ids.len()
            invariant
                i <= s@.server_ids.len(),
                d == s@.drone_ids.len(),
                dc == s@.drone_ids.len() + s@.client_ids.len(),
                target == spec_rebuilt_nodes(s@),
                s@.drone_ids.len() + s@.client_ids.len() + s@.server_ids.len() <= usize::MAX,
                nodes@ == target.take(dc + i as int),
            decreases s@.server_ids.len() - i,
        {
            nodes.push(MirrorNode { id: s.server_ids[i], kind: NodeKind::Server, index: dc + i });
            proof {
                assert(nodes@ =~= target.take(dc + i + 1 as int));
            }
            i = i + 1;
        }
        proof {
            assert(nodes@ =~= target);
        }
        let mut edges: Vec<(u8, u8)> = Vec::new();
        let mut i: usize = 0;
        while i < s.edges.len()
            invariant
                i <= s@.edges.len(),
                edges@ == s@.edges.take(i as int),
            decreases s@.edges.len() - i,
        {
            edges.push(s.edges[i]);
            proof {
                assert(edges@ =~= s@.edges.take(i + 1 as int));
            }
            i = i + 1;
        }
        proof {
            assert(edges@ =~= s@.edges);
        }
        let r = TopologyMirror { nodes, edges };
        proof {
            assert(r@ =~= spec_rebuild(s@));
            lemma_rebuilt_nodes_wf(s@);
            assert(r.wf());
        }
        r
    }

    /// The mirror's nodes, each with its stable index.
    pub fn get_nodes(&self) -> (r: &Vec<MirrorNode>)
        ensures
            r@ == self@.nodes,
    {
        &self.nodes
    }

    /// The mirror's undirected edges, as id pairs.
    pub fn get_edges(&self) -> (r: &Vec<(u8, u8)>)
        ensures
            r@ == self@.edges,
    {
        &self.edges
    }
}

/// A rebuilt node list is well formed: ids unique because the snapshot's
/// categories are disjoint and duplicate-free, indices unique because
/// they equal positions, and all snapshot edges name snapshot nodes.
proof fn lemma_rebuilt_nodes_wf(s: SnapshotView)
    requires
        s.wf(),
        s.drone_ids.len() + s.client_ids.len() + s.server_ids.len() <= usize::MAX,
    ensures
        spec_rebuild(s).wf(),
        spec_node_ids(spec_rebuilt_nodes(s)).to_set() == s.all_ids(),
{
    let ns = spec_rebuilt_nodes(s);
    let ids = spec_node_ids(ns);
    let d = s.drone_ids.len() as int;
    let c = s.client_ids.len() as int;
    assert forall|i: int, j: int| 0 <= i < j < ids.len() implies ids[i] != ids[j] by {
        if j < d {
            assert(s.drone_ids[i] != s.drone_ids[j]);
        } else if j < d + c {
            if i < d {
                assert(s.drone_ids.contains(s.drone_ids[i]));
                assert(s.client_ids.contains(s.client_ids[j - d]));
            } else {
                assert(s.client_ids[i - d] != s.client_ids[j - d]);
            }
        } else {
            if i < d {
                assert(s.drone_ids.contains(s.drone_ids[i]));
                assert(s.server_ids.contains(s.server_ids[j - d - c]));
            } else if i < d + c {
                assert(s.client_ids.contains(s.client_ids[i - d]));
                assert(s.server_ids.contains(s.server_ids[j - d - c]));
            } else {
                assert(s.server_ids[i - d - c] != s.server_ids[j - d - c]);
            }
        }
    }
    let idxs = spec_node_indices(ns);
    assert forall|i: int, j: int| 0 <= i < j < idxs.len() implies idxs[i] != idxs[j] by {
        assert(idxs[i] == i && idxs[j] == j);
    }
    assert forall|id: u8| ids.to_set().contains(id) implies s.all_ids().contains(id) by {
        let i = choose|i: int| 0 <= i < ids.len() && #[trigger] ids[i] == id;
        if i < d {
            assert(s.drone_ids.contains(s.drone_ids[i]));
        } else if i < d + c {
            assert(s.client_ids.contains(s.client_ids[i - d]));
        } else {
            assert(s.server_ids.contains(s.server_ids[i - d - c]));
        }
    }
    assert forall|id: u8| s.all_ids().contains(id) implies ids.to_set().contains(id) by {
        if s.drone_ids.to_set().contains(id) {
            let i = choose|i: int| 0 <= i < s.drone_ids.len() && #[trigger] s.drone_ids[i] == id;
            assert(ids[i] == id);
        } else if s.client_ids.to_set().contains(id) {
            let i = choose|i: int| 0 <= i < s.client_ids.len() && #[trigger] s.client_ids[i] == id;
            assert(ids[d + i] == id);
        } else {
            let i = choose|i: int| 0 <= i < s.server_ids.len() && #[trigger] s.server_ids[i] == id;
            assert(ids[d + c + i] == id);
        }
    }
    assert(ids.to_set() =~= s.all_ids());
    assert forall|i: int| #![trigger s.edges[i]] 0 <= i < s.edges.len() implies ids.contains(
        s.edges[i].0,
    ) && ids.contains(s.edges[i].1) by {
        assert(s.all_ids().contains(s.edges[i].0));
        assert(s.all_ids().contains(s.edges[i].1));
        assert(ids.to_set().contains(s.edges[i].0));
        assert(ids.to_set().contains(s.edges[i].1));
    }
}

/// Whether a mirror node survives reconciliation against a snapshot:
/// relays absent from the engine's current relay membership are removed
/// (crash detection: engine membership always wins), every other node
/// stays.
pub open spec fn spec_node_survives(n: MirrorNode, s: SnapshotView) -> bool {
    !(n.kind is Drone && !s.drone_ids.contains(n.id))
}

/// The node-filtering predicate of reconciliation.
pub open spec fn spec_keep_node(s: SnapshotView) -> spec_fn(MirrorNode) -> bool {
    |n: MirrorNode| spec_node_survives(n, s)
}

/// Whether some node with this id survives reconciliation.
pub open spec fn spec_survives(nodes: Seq<MirrorNode>, s: SnapshotView, id: u8) -> bool {
    exists|i: int|
        0 <= i < nodes.len() && (#[trigger] nodes[i]).id == id && spec_node_survives(nodes[i], s)
}

/// The edge-filtering predicate of reconciliation: an edge stays when
/// both its endpoints survive.
pub open spec fn spec_keep_edge(nodes: Seq<MirrorNode>, s: SnapshotView) -> spec_fn(
    (u8, u8),
) -> bool {
    |e: (u8, u8)| spec_survives(nodes, s, e.0) && spec_survives(nodes, s, e.1)
}

/// The removal half of reconciliation: crashed relays leave together
/// with their edges.
pub open spec fn spec_prune(m: MirrorView, s: SnapshotView) -> MirrorView {
    MirrorView {
        nodes: m.nodes.filter(spec_keep_node(s)),
        edges: m.edges.filter(spec_keep_edge(m.nodes, s)),
    }
}

/// The addition half of reconciliation: snapshot edges missing from the
/// mirror are appended, in snapshot order; edges are add-only outside of
/// node removal.
pub open spec fn spec_add_edges(m: MirrorView, es: Seq<(u8, u8)>) -> MirrorView
    decreases es.len(),
{
    if es.len() == 0 {
        m
    } else {
        let m1 = if spec_edge_present(m.edges, es[0]) {
            m
        } else {
            MirrorView { nodes: m.nodes, edges: m.edges.push(es[0]) }
        };
        spec_add_edges(m1, es.drop_first())
    }
}

/// Reconciliation asks that every snapshot edge name nodes that the
/// mirror will still know after removal; the engine reports edges only
/// among live nodes, and the mirror was rebuilt from an earlier
/// snapshot of the same engine.
pub open spec fn spec_reconcile_pre(m: MirrorView, s: SnapshotView) -> bool {
    forall|k: int| #![trigger s.edges[k]]
        0 <= k < s.edges.len() ==> spec_survives(m.nodes, s, s.edges[k].0) && spec_survives(
            m.nodes,
            s,
            s.edges[k].1,
        )
}

/// One reconciliation step: remove relays the engine no longer knows,
/// with their edges, then add the engine's edges that are missing.
pub open spec fn spec_reconcile(m: MirrorView, s: SnapshotView) -> MirrorView {
    spec_add_edges(spec_prune(m, s), s.edges)
}

/// Every element a filter keeps comes from the filtered sequence.
proof fn lemma_filter_subset<A>(s: Seq<A>, p: spec_fn(A) -> bool)
    ensures
        forall|i: int| 0 <= i < s.filter(p).len() ==> s.contains(#[trigger] s.filter(p)[i]),
    decreases s.len(),
{
    reveal(Seq::filter);
    if s.len() > 0 {
        let pre = s.drop_last();
        lemma_filter_subset(pre, p);
        assert forall|i: int| 0 <= i < s.filter(p).len() implies s.contains(
            #[trigger] s.filter(p)[i],
        ) by {
            if i < pre.filter(p).len() {
                assert(pre.contains(pre.filter(p)[i]));
                let k = choose|k: int| 0 <= k < pre.len() && pre[k] == pre.filter(p)[i];
                assert(s[k] == s.filter(p)[i]);
            } else {
                assert(s.filter(p)[i] == s.last());
            }
        }
    }
}

/// Filtering keeps id and index uniqueness of a node list.
proof fn lemma_filter_nodes_no_dup(ns: Seq<MirrorNode>, p: spec_fn(MirrorNode) -> bool)
    requires
        spec_node_ids(ns).no_duplicates(),
        spec_node_indices(ns).no_duplicates(),
    ensures
        spec_node_ids(ns.filter(p)).no_duplicates(),
        spec_node_indices(ns.filter(p)).no_duplicates(),
    decreases ns.len(),
{
    reveal(Seq::filter);
    ns.filter_lemma(p);
    lemma_filter_subset(ns, p);
    if ns.len() == 0 {
        assert(spec_node_ids(ns.filter(p)) =~= Seq::<u8>::empty());
        assert(spec_node_indices(ns.filter(p)) =~= Seq::<usize>::empty());
    } else {
        let pre = ns.drop_last();
        assert(spec_node_ids(pre) =~= spec_node_ids(ns).drop_last());
        assert(spec_node_indices(pre) =~= spec_node_indices(ns).drop_last());
        assert forall|i: int, j: int|
            0 <= i < j < spec_node_ids(pre).len() implies spec_node_ids(pre)[i] != spec_node_ids(
            pre,
        )[j] by {
            assert(spec_node_ids(ns)[i] != spec_node_ids(ns)[j]);
        }
        assert forall|i: int, j: int|
            0 <= i < j < spec_node_indices(pre).len() implies spec_node_indices(pre)[i]
            != spec_node_indices(pre)[j] by {
            assert(spec_node_indices(ns)[i] != spec_node_indices(ns)[j]);
        }
        lemma_filter_nodes_no_dup(pre, p);
        pre.filter_lemma(p);
        lemma_filter_subset(pre, p);
        if p(ns.last()) {
            let kept = pre.filter(p);
            assert(ns.filter(p) == kept.push(ns.last()));
            assert(spec_node_ids(ns.filter(p)) =~= spec_node_ids(kept).push(ns.last().id));
            assert(spec_node_indices(ns.filter(p)) =~= spec_node_indices(kept).push(
                ns.last().index,
            ));
            assert forall|i: int| 0 <= i < kept.len() implies spec_node_ids(kept)[i]
                != ns.last().id && spec_node_indices(kept)[i] != ns.last().index by {
                assert(pre.contains(kept[i]));
                let k = choose|k: int| 0 <= k < pre.len() && pre[k] == kept[i];
                assert(spec_node_ids(ns)[k] == kept[i].id);
                assert(spec_node_ids(ns)[ns.len() - 1] == ns.last().id);
                assert(spec_node_indices(ns)[k] == kept[i].index);
                assert(spec_node_indices(ns)[ns.len() - 1] == ns.last().index);
            }
        } else {
            assert(ns.filter(p) == pre.filter(p));
        }
    }
}

/// Filtering keeps the pairwise distinctness of an undirected edge
/// list.
proof fn lemma_filter_edges_pairwise(es: Seq<(u8, u8)>, p: spec_fn((u8, u8)) -> bool)
    requires
        forall|i: int, j: int| 0 <= i < j < es.len() ==> !spec_same_edge(es[i], es[j]),
    ensures
        forall|i: int, j: int|
            0 <= i < j < es.filter(p).len() ==> !spec_same_edge(es.filter(p)[i], es.filter(p)[j]),
    decreases es.len(),
{
    reveal(Seq::filter);
    es.filter_lemma(p);
    lemma_filter_subset(es, p);
    if es.len() > 0 {
        let pre = es.drop_last();
        assert forall|i: int, j: int| 0 <= i < j < pre.len() implies !spec_same_edge(
            pre[i],
            pre[j],
        ) by {
            assert(pre[i] == es[i] && pre[j] == es[j]);
        }
        lemma_filter_edges_pairwise(pre, p);
        pre.filter_lemma(p);
        lemma_filter_subset(pre, p);
        if p(es.last()) {
            let kept = pre.filter(p);
            assert(es.filter(p) == kept.push(es.last()));
            assert forall|i: int| 0 <= i < kept.len() implies !spec_same_edge(
                kept[i],
                es.last(),
            ) by {
                assert(pre.contains(kept[i]));
                let k = choose|k: int| 0 <= k < pre.len() && pre[k] == kept[i];
                assert(!spec_same_edge(es[k], es[es.len() - 1]));
            }
            assert forall|i: int, j: int| 0 <= i < j < es.filter(p).len() implies !spec_same_edge(
                es.filter(p)[i],
                es.filter(p)[j],
            ) by {
                if j < kept.len() {
                    assert(!spec_same_edge(kept[i], kept[j]));
                } else {
                    assert(es.filter(p)[j] == es.last());
                    assert(!spec_same_edge(kept[i], es.last()));
                }
            }
        } else {
            assert(es.filter(p) == pre.filter(p));
        }
    }
}

/// A filter that keeps every element changes nothing.
proof fn lemma_filter_all_id<A>(s: Seq<A>, p: spec_fn(A) -> bool)
    requires
        forall|i: int| 0 <= i < s.len() ==> p(#[trigger] s[i]),
    ensures
        s.filter(p) == s,
    decreases s.len(),
{
    reveal(Seq::filter);
    if s.len() > 0 {
        let pre = s.drop_last();
        lemma_filter_all_id(pre, p);
        assert(s.filter(p) =~= pre.push(s.last()));
        assert(s =~= pre.push(s.last()));
    } else {
        assert(s.filter(p) == s);
    }
}

/// What edge addition guarantees: it leaves the nodes alone, never
/// removes an edge, makes every given edge present, and adds nothing
/// but given edges.
proof fn lemma_add_edges_props(m: MirrorView, es: Seq<(u8, u8)>)
    ensures
        spec_add_edges(m, es).nodes == m.nodes,
        forall|x: (u8, u8)|
            spec_edge_present(m.edges, x) ==> spec_edge_present(spec_add_edges(m, es).edges, x),
        forall|k: int| #![trigger es[k]]
            0 <= k < es.len() ==> spec_edge_present(spec_add_edges(m, es).edges, es[k]),
        forall|i: int|
            0 <= i < spec_add_edges(m, es).edges.len() ==> m.edges.contains(
                #[trigger] spec_add_edges(m, es).edges[i],
            ) || es.contains(spec_add_edges(m, es).edges[i]),
    decreases es.len(),
{
    if es.len() > 0 {
        let e = es[0];
        let m1 = if spec_edge_present(m.edges, e) {
            m
        } else {
            MirrorView { nodes: m.nodes, edges: m.edges.push(e) }
        };
        let rest = es.drop_first();
        assert forall|x: (u8, u8)|
            spec_edge_present(m.edges, x) implies spec_edge_present(m1.edges, x) by {
            let i = choose|i: int| 0 <= i < m.edges.len() && spec_same_edge(m.edges[i], x);
            assert(spec_same_edge(m1.edges[i], x));
        }
        assert(spec_edge_present(m1.edges, e)) by {
            if !spec_edge_present(m.edges, e) {
                assert(spec_same_edge(m1.edges[m1.edges.len() - 1], e));
            }
        }
        lemma_add_edges_props(m1, rest);
        assert forall|k: int| #![trigger es[k]]
            0 <= k < es.len() implies spec_edge_present(spec_add_edges(m, es).edges, es[k]) by {
            if k == 0 {
                assert(spec_edge_present(m1.edges, es[0]));
            } else {
                assert(rest[k - 1] == es[k]);
            }
        }
        assert forall|i: int|
            0 <= i < spec_add_edges(m, es).edges.len() implies m.edges.contains(
            #[trigger] spec_add_edges(m, es).edges[i],
        ) || es.contains(spec_add_edges(m, es).edges[i]) by {
            let x = spec_add_edges(m, es).edges[i];
            assert(spec_add_edges(m1, rest) == spec_add_edges(m, es));
            if m1.edges.contains(x) {
                let j = choose|j: int| 0 <= j < m1.edges.len() && m1.edges[j] == x;
                if j < m.edges.len() {
                    assert(m.edges[j] == x);
                } else {
                    assert(x == e);
                    assert(es[0] == x);
                }
            } else {
                assert(rest.contains(x));
                let j = choose|j: int| 0 <= j < rest.len() && rest[j] == x;
                assert(es[j + 1] == x);
            }
        }
    }
}

/// Adding edges whose endpoints the mirror knows keeps it well formed.
proof fn lemma_add_edges_wf(m: MirrorView, es: Seq<(u8, u8)>)
    requires
        m.wf(),
        forall|k: int| #![trigger es[k]]
            0 <= k < es.len() ==> spec_node_ids(m.nodes).contains(es[k].0) && spec_node_ids(
                m.nodes,
            ).contains(es[k].1),
    ensures
        spec_add_edges(m, es).wf(),
    decreases es.len(),
{
    if es.len() > 0 {
        let e = es[0];
        let m1 = if spec_edge_present(m.edges, e) {
            m
        } else {
            MirrorView { nodes: m.nodes, edges: m.edges.push(e) }
        };
        assert(m1.wf()) by {
            if !spec_edge_present(m.edges, e) {
                assert forall|i: int, j: int| 0 <= i < j < m1.edges.len() implies !spec_same_edge(
                    m1.edges[i],
                    m1.edges[j],
                ) by {
                    if j == m1.edges.len() - 1 {
                        assert(!spec_same_edge(m.edges[i], e));
                    } else {
                        assert(!spec_same_edge(m.edges[i], m.edges[j]));
                    }
                }
                assert(es[0] == e);
                assert forall|i: int| #![trigger m1.edges[i]]
                    0 <= i < m1.edges.len() implies spec_node_ids(m1.nodes).contains(m1.edges[i].0)
                    && spec_node_ids(m1.nodes).contains(m1.edges[i].1) by {
                    if i < m.edges.len() {
                        assert(spec_node_ids(m.nodes).contains(m.edges[i].0));
                        assert(spec_node_ids(m.nodes).contains(m.edges[i].1));
                    }
                }
            }
        }
        let rest = es.drop_first();
        assert forall|k: int| #![trigger rest[k]]
            0 <= k < rest.len() implies spec_node_ids(m1.nodes).contains(rest[k].0)
            && spec_node_ids(m1.nodes).contains(rest[k].1) by {
            assert(es[k + 1] == rest[k]);
        }
        lemma_add_edges_wf(m1, rest);
    }
}

/// Adding edges that are all already present changes nothing.
proof fn lemma_add_edges_all_present_id(m: MirrorView, es: Seq<(u8, u8)>)
    requires
        forall|k: int| #![trigger es[k]] 0 <= k < es.len() ==> spec_edge_present(m.edges, es[k]),
    ensures
        spec_add_edges(m, es) == m,
    decreases es.len(),
{
    if es.len() > 0 {
        let rest = es.drop_first();
        assert(spec_edge_present(m.edges, es[0]));
        assert forall|k: int| #![trigger rest[k]]
            0 <= k < rest.len() implies spec_edge_present(m.edges, rest[k]) by {
            assert(es[k + 1] == rest[k]);
        }
        lemma_add_edges_all_present_id(m, rest);
    }
}

/// Reconciliation keeps the mirror well formed, keeps only surviving
/// nodes, and preserves every survivor.
proof fn lemma_reconcile_wf(m: MirrorView, s: SnapshotView)
    requires
        m.wf(),
        spec_reconcile_pre(m, s),
    ensures
        spec_reconcile(m, s).wf(),
        spec_reconcile(m, s).nodes == m.nodes.filter(spec_keep_node(s)),
        forall|id: u8|
            spec_survives(m.nodes, s, id) ==> spec_survives(spec_reconcile(m, s).nodes, s, id),
        forall|k: int| #![trigger s.edges[k]]
            0 <= k < s.edges.len() ==> spec_edge_present(spec_reconcile(m, s).edges, s.edges[k]),
{
    let pruned = spec_prune(m, s);
    let keep_n = spec_keep_node(s);
    let keep_e = spec_keep_edge(m.nodes, s);
    reveal(Seq::filter);
    m.nodes.filter_lemma(keep_n);
    m.edges.filter_lemma(keep_e);
    lemma_filter_subset(m.nodes, keep_n);
    lemma_filter_subset(m.edges, keep_e);
    lemma_filter_nodes_no_dup(m.nodes, keep_n);
    lemma_filter_edges_pairwise(m.edges, keep_e);
    assert forall|id: u8|
        spec_survives(m.nodes, s, id) implies spec_survives(pruned.nodes, s, id) by {
        let i = choose|i: int|
            0 <= i < m.nodes.len() && (#[trigger] m.nodes[i]).id == id && spec_node_survives(
                m.nodes[i],
                s,
            );
        assert(m.nodes.contains(m.nodes[i]));
        assert(keep_n(m.nodes[i]));
        m.nodes.lemma_filter_contains_rev(keep_n, m.nodes[i]);
        assert(pruned.nodes.contains(m.nodes[i]));
        let j = choose|j: int| 0 <= j < pruned.nodes.len() && pruned.nodes[j] == m.nodes[i];
        assert((#[trigger] pruned.nodes[j]).id == id && spec_node_survives(pruned.nodes[j], s));
    }
    assert forall|i: int| #![trigger pruned.edges[i]]
        0 <= i < pruned.edges.len() implies spec_node_ids(pruned.nodes).contains(pruned.edges[i].0)
        && spec_node_ids(pruned.nodes).contains(pruned.edges[i].1) by {
        assert(keep_e(pruned.edges[i]));
        assert(spec_survives(pruned.nodes, s, pruned.edges[i].0));
        assert(spec_survives(pruned.nodes, s, pruned.edges[i].1));
        let a = choose|a: int|
            0 <= a < pruned.nodes.len() && (#[trigger] pruned.nodes[a]).id == pruned.edges[i].0
                && spec_node_survives(pruned.nodes[a], s);
        assert(spec_node_ids(pruned.nodes)[a] == pruned.edges[i].0);
        let b = choose|b: int|
            0 <= b < pruned.nodes.len() && (#[trigger] pruned.nodes[b]).id == pruned.edges[i].1
                && spec_node_survives(pruned.nodes[b], s);
        assert(spec_node_ids(pruned.nodes)[b] == pruned.edges[i].1);
    }
    assert(pruned.wf());
    assert forall|k: int| #![trigger s.edges[k]]
        0 <= k < s.edges.len() implies spec_node_ids(pruned.nodes).contains(s.edges[k].0)
        && spec_node_ids(pruned.nodes).contains(s.edges[k].1) by {
        assert(spec_survives(m.nodes, s, s.edges[k].0));
        assert(spec_survives(m.nodes, s, s.edges[k].1));
        assert(spec_survives(pruned.nodes, s, s.edges[k].0));
        assert(spec_survives(pruned.nodes, s, s.edges[k].1));
        let a = choose|a: int|
            0 <= a < pruned.nodes.len() && (#[trigger] pruned.nodes[a]).id == s.edges[k].0
                && spec_node_survives(pruned.nodes[a], s);
        assert(spec_node_ids(pruned.nodes)[a] == s.edges[k].0);
        let b = choose|b: int|
            0 <= b < pruned.nodes.len() && (#[trigger] pruned.nodes[b]).id == s.edges[k].1
                && spec_node_survives(pruned.nodes[b], s);
        assert(spec_node_ids(pruned.nodes)[b] == s.edges[k].1);
    }
    lemma_add_edges_wf(pruned, s.edges);
    lemma_add_edges_props(pruned, s.edges);
}

/// Reconciliation is idempotent: applying it twice with the same
/// snapshot yields the very mirror that applying it once yields. The
/// first application removes every relay the snapshot does not know and
/// makes every snapshot edge present; the second finds nothing to
/// remove and nothing to add.
pub proof fn lemma_reconcile_idempotent(m: MirrorView, s: SnapshotView)
    requires
        m.wf(),
        spec_reconcile_pre(m, s),
    ensures
        spec_reconcile(spec_reconcile(m, s), s) == spec_reconcile(m, s),
{
    let r = spec_reconcile(m, s);
    let keep_n = spec_keep_node(s);
    lemma_reconcile_wf(m, s);
    let pruned = spec_prune(m, s);
    reveal(Seq::filter);
    m.nodes.filter_lemma(keep_n);
    m.edges.filter_lemma(spec_keep_edge(m.nodes, s));
    lemma_filter_subset(m.edges, spec_keep_edge(m.nodes, s));
    lemma_add_edges_props(pruned, s.edges);

    // the second removal keeps every node: each survived the first
    assert forall|i: int| 0 <= i < r.nodes.len() implies keep_n(#[trigger] r.nodes[i]) by {
        assert(r.nodes == pruned.nodes);
    }
    lemma_filter_all_id(r.nodes, keep_n);
    assert(spec_reconcile_pre(r, s)) by {
        assert forall|k: int| #![trigger s.edges[k]]
            0 <= k < s.edges.len() implies spec_survives(r.nodes, s, s.edges[k].0) && spec_survives(
            r.nodes,
            s,
            s.edges[k].1,
        ) by {
            assert(spec_survives(m.nodes, s, s.edges[k].0));
            assert(spec_survives(m.nodes, s, s.edges[k].1));
        }
    }

    // the second removal keeps every edge: both endpoints still survive
    let keep_e2 = spec_keep_edge(r.nodes, s);
    assert forall|i: int| 0 <= i < r.edges.len() implies keep_e2(#[trigger] r.edges[i]) by {
        let x = r.edges[i];
        if pruned.edges.contains(x) {
            let j = choose|j: int| 0 <= j < pruned.edges.len() && pruned.edges[j] == x;
            assert(spec_keep_edge(m.nodes, s)(pruned.edges[j]));
            assert(spec_survives(m.nodes, s, x.0));
            assert(spec_survives(m.nodes, s, x.1));
        } else {
            assert(s.edges.contains(x));
            let k = choose|k: int| 0 <= k < s.edges.len() && s.edges[k] == x;
            assert(spec_survives(m.nodes, s, s.edges[k].0));
            assert(spec_survives(m.nodes, s, s.edges[k].1));
        }
        assert(spec_survives(r.nodes, s, x.0));
        assert(spec_survives(r.nodes, s, x.1));
    }
    lemma_filter_all_id(r.edges, keep_e2);
    assert(spec_prune(r, s) =~= r);

    // the second addition adds nothing: every snapshot edge is present
    lemma_add_edges_all_present_id(r, s.edges);
    assert(spec_reconcile(r, s) == spec_add_edges(spec_prune(r, s), s.edges));
    assert(spec_prune(r, s) == r);
}

/// Whether a list of ids holds `x`.
fn contains_u8(v: &Vec<u8>, x: u8) -> (r: bool)
    ensures
        r == v@.contains(x),
{
    let mut i: usize = 0;
    while i < v.len()
        invariant
            i <= v@.len(),
            forall|j: int| 0 <= j < i ==> v@[j] != x,
        decreases v@.len() - i,
    {
        if v[i] == x {
            return true;
        }
        i = i + 1;
    }
    false
}

/// Whether this node survives reconciliation against the snapshot.
fn node_survives(n: MirrorNode, s: &TopologySnapshot) -> (r: bool)
    ensures
        r == spec_node_survives(n, s@),
{
    match n.kind {
        NodeKind::Drone => contains_u8(&s.drone_ids, n.id),
        NodeKind::Client => true,
        NodeKind::Server => true,
    }
}

/// Whether some node with this id survives reconciliation.
fn id_survives(nodes: &Vec<MirrorNode>, s: &TopologySnapshot, id: u8) -> (r: bool)
    ensures
        r == spec_survives(nodes@, s@, id),
{
    let mut i: usize = 0;
    while i < nodes.len()
        invariant
            i <= nodes@.len(),
            forall|j: int|
                0 <= j < i ==> !((#[trigger] nodes@[j]).id == id && spec_node_survives(
                    nodes@[j],
                    s@,
                )),
        decreases nodes@.len() - i,
    {
        let n = nodes[i];
        if n.id == id && node_survives(n, s) {
            return true;
        }
        i = i + 1;
    }
    false
}

/// Whether the undirected edge `e` is already held, in either
/// orientation.
fn edge_is_present(edges: &Vec<(u8, u8)>, e: (u8, u8)) -> (r: bool)
    ensures
        r == spec_edge_present(edges@, e),
{
    let mut i: usize = 0;
    while i < edges.len()
        invariant
            i <= edges@.len(),
            forall|j: int| 0 <= j < i ==> !spec_same_edge(edges@[j], e),
        decreases edges@.len() - i,
    {
        let c = edges[i];
        if (c.0 == e.0 && c.1 == e.1) || (c.0 == e.1 && c.1 == e.0) {
            return true;
        }
        i = i + 1;
    }
    false
}

impl TopologyMirror {
    /// Patches the mirror against the engine's current topology: relays
    /// the engine no longer knows are removed together with their
    /// edges, and engine edges the mirror is missing are added.
    /// Applying it twice with one snapshot equals applying it once.
    pub fn reconcile(&mut self, s: &TopologySnapshot)
        requires
            old(self).wf(),
            spec_reconcile_pre(old(self)@, s@),
        ensures
            final(self).wf(),
            final(self)@ == spec_reconcile(old(self)@, s@),
    {
        let ghost m0 = self@;
        let ghost keep_n = spec_keep_node(s@);
        let ghost keep_e = spec_keep_edge(m0.nodes, s@);

        let mut kept_nodes: Vec<MirrorNode> = Vec::new();
        let mut i: usize = 0;
        proof {
            reveal(Seq::filter);
            assert(m0.nodes.take(0).filter(keep_n) =~= Seq::<MirrorNode>::empty());
        }
        while i < self.nodes.len()
            invariant
                i <= m0.nodes.len(),
                self@ == m0,
                keep_n == spec_keep_node(s@),
                kept_nodes@ == m0.nodes.take(i as int).filter(keep_n),
            decreases m0.nodes.len() - i,
        {
            let n = self.nodes[i];
            proof {
                reveal(Seq::filter);
                assert(m0.nodes.take(i + 1 as int).drop_last() =~= m0.nodes.take(i as int));
                assert(m0.nodes.take(i + 1 as int).last() == n);
            }
            if node_survives(n, s) {
                kept_nodes.push(n);
            }
            i = i + 1;
        }
        proof {
            assert(m0.nodes.take(m0.nodes.len() as int) =~= m0.nodes);
        }

        let mut kept_edges: Vec<(u8, u8)> = Vec::new();
        let mut i: usize = 0;
        proof {
            reveal(Seq::filter);
            assert(m0.edges.take(0).filter(keep_e) =~= Seq::<(u8, u8)>::empty());
        }
        while i < self.edges.len()
            invariant
                i <= m0.edges.len(),
                self@ == m0,
                keep_e == spec_keep_edge(m0.nodes, s@),
                kept_edges@ == m0.edges.take(i as int).filter(keep_e),
            decreases m0.edges.len() - i,
        {
            let e = self.edges[i];
            proof {
                reveal(Seq::filter);
                assert(m0.edges.take(i + 1 as int).drop_last() =~= m0.edges.take(i as int));
                assert(m0.edges.take(i + 1 as int).last() == e);
            }
            if id_survives(&self.nodes, s, e.0) && id_survives(&self.nodes, s, e.1) {
                kept_edges.push(e);
            }
            i = i + 1;
        }
        proof {
            assert(m0.edges.take(m0.edges.len() as int) =~= m0.edges);
        }

        self.nodes = kept_nodes;
        self.edges = kept_edges;
        let ghost pruned = spec_prune(m0, s@);
        proof {
            reveal(Seq::filter);
            assert(self@ =~= pruned);
            assert(s@.edges.skip(0) =~= s@.edges);
        }

        let mut i: usize = 0;
        while i < s.edges.len()
            invariant
                i <= s@.edges.len(),
                self@.nodes == pruned.nodes,
                spec_add_edges(pruned, s@.edges) == spec_add_edges(self@, s@.edges.skip(i as int)),
            decreases s@.edges.len() - i,
        {
            let ghost before = self@;
            let e = s.edges[i];
            proof {
                assert(s@.edges.skip(i as int)[0] == e);
                assert(s@.edges.skip(i as int).drop_first() =~= s@.edges.skip(i + 1 as int));
            }
            if !edge_is_present(&self.edges, e) {
                self.edges.push(e);
                proof {
                    assert(self@ =~= (MirrorView { nodes: before.nodes, edges: before.edges.push(e) }));
                }
            }
            i = i + 1;
        }
        proof {
            assert(s@.edges.skip(s@.edges.len() as int) =~= Seq::<(u8, u8)>::empty());
            assert(final(self)@ == spec_reconcile(m0, s@));
            lemma_reconcile_wf(m0, s@);
        }
    }
}

} // verus!
