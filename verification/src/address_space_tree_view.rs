//! The lazy tree cache: a local, incrementally materialized projection of the
//! remote address space.
//!
//! Nodes live in an arena (`nodes`); a slot in the arena is the stable
//! locator handed to the presentation surface. The `index` maps a remote
//! [`NodeId`] to the slot of the last node inserted under that identity. A
//! node carries a placeholder exactly until a successful browse result for it
//! has been applied; the placeholder marks it as expandable. `pending` holds
//! the identities with a browse request in flight, so that a second expansion
//! of the same node dispatches no second request.
//!
//! The abstract state is [`CacheView`]; every operation's contract says which
//! [`CacheView`] transition it performs, and [`CacheView::wf`] is preserved
//! by all of them.

use vstd::prelude::*;

use crate::model::ModelMessage;
use crate::types::{BrowseResult, BrowseResultView, NodeId, Reference, ReferenceView};

verus! {

/// Mathematical value of one cached tree node.
#[verifier::ext_equal]
pub struct NodeView {
    pub node_id: NodeId,
    pub browse_name: Seq<char>,
    pub display_name: Seq<char>,
    pub reference_type_id: NodeId,
    /// Arena slots of the real children, in insertion (= server) order.
    pub children: Seq<int>,
    /// True until a successful browse result for this node is applied.
    pub has_placeholder: bool,
}

/// Mathematical value of the whole cache.
#[verifier::ext_equal]
pub struct CacheView {
    /// The arena: all nodes ever inserted since the last reset, in insertion
    /// order. A slot (index into this sequence) is a stable locator.
    pub nodes: Seq<NodeView>,
    /// Slots of the synthetic root's direct children, in insertion order.
    pub root_children: Seq<int>,
    /// Identity-to-slot entries, oldest first; the last entry for an
    /// identity wins, as with a map that is overwritten on insert.
    pub index: Seq<(NodeId, int)>,
    /// Identities with a browse request in flight.
    pub pending: Seq<NodeId>,
    /// Slots to which a successful browse result has been applied since the
    /// last reset.
    pub applied: Set<int>,
}

/// The slot registered for `id`: the last entry wins, matching a map that is
/// overwritten on insert.
pub open spec fn lookup(index: Seq<(NodeId, int)>, id: NodeId) -> Option<int>
    decreases index.len(),
{
    if index.len() == 0 {
        None
    } else if index.last().0 == id {
        Some(index.last().1)
    } else {
        lookup(index.drop_last(), id)
    }
}

/// The node a reference materializes as: the reported names and identity,
/// no children yet, and a fresh placeholder.
pub open spec fn node_of_reference(r: ReferenceView) -> NodeView {
    NodeView {
        node_id: r.node_id,
        browse_name: r.browse_name,
        display_name: r.display_name,
        reference_type_id: r.reference_type_id,
        children: Seq::empty(),
        has_placeholder: true,
    }
}

/// The `n` consecutive slots starting at `base`.
pub open spec fn new_slots(n: nat, base: int) -> Seq<int> {
    Seq::new(n, |i: int| base + i)
}

/// The index entries registering `refs` at consecutive slots from `base`.
pub open spec fn new_entries(refs: Seq<ReferenceView>, base: int) -> Seq<(NodeId, int)> {
    Seq::new(refs.len(), |i: int| (refs[i].node_id, base + i))
}

impl CacheView {
    /// The empty cache.
    pub open spec fn spec_new() -> CacheView {
        CacheView {
            nodes: Seq::empty(),
            root_children: Seq::empty(),
            index: Seq::empty(),
            pending: Seq::empty(),
            applied: Set::empty(),
        }
    }

    /// Where a result for `parent_id` would be inserted: `None` if it is
    /// dropped (unknown parent, or parent already resolved), `Some(None)` for
    /// the synthetic root, `Some(Some(p))` for the node at slot `p`.
    pub open spec fn spec_insert_target(self, parent_id: NodeId) -> Option<Option<int>> {
        if parent_id == NodeId::spec_root_folder() {
            Some(None)
        } else {
            match lookup(self.index, parent_id) {
                Some(p) => if self.nodes[p].has_placeholder {
                    Some(Some(p))
                } else {
                    None
                },
                None => None,
            }
        }
    }

    /// Insert `refs` under `parent` (`None` is the root), in order, each with
    /// a fresh placeholder, registering each in the index; then resolve the
    /// parent's own placeholder.
    pub open spec fn spec_apply_result(self, parent: Option<int>, refs: Seq<ReferenceView>) -> CacheView {
        let base = self.nodes.len() as int;
        let nodes1 = self.nodes + refs.map_values(|r: ReferenceView| node_of_reference(r));
        let index1 = self.index + new_entries(refs, base);
        match parent {
            None => CacheView {
                nodes: nodes1,
                root_children: self.root_children + new_slots(refs.len(), base),
                index: index1,
                ..self
            },
            Some(p) => CacheView {
                nodes: nodes1.update(
                    p,
                    NodeView {
                        children: nodes1[p].children + new_slots(refs.len(), base),
                        has_placeholder: false,
                        ..nodes1[p]
                    },
                ),
                index: index1,
                applied: self.applied.insert(p),
                ..self
            },
        }
    }

    /// Insert one reference under `parent` (`None` is the root): the new node
    /// takes the next slot, joins the parent's children behind the existing
    /// ones, and is registered in the index.
    pub open spec fn spec_insert_one(self, r: ReferenceView, parent: Option<int>) -> CacheView {
        let base = self.nodes.len() as int;
        let nodes1 = self.nodes.push(node_of_reference(r));
        let index1 = self.index.push((r.node_id, base));
        match parent {
            None => CacheView {
                nodes: nodes1,
                root_children: self.root_children.push(base),
                index: index1,
                ..self
            },
            Some(p) => CacheView {
                nodes: nodes1.update(
                    p,
                    NodeView { children: nodes1[p].children.push(base), ..nodes1[p] },
                ),
                index: index1,
                ..self
            },
        }
    }

    /// The reconciliation step for one browse result. The in-flight mark for
    /// `parent_id` is cleared; a failed result, a result for an unknown
    /// parent, and a result for a parent already resolved are dropped; an
    /// applicable result inserts the references and resolves the parent.
    pub open spec fn spec_on_browse_result(self, parent_id: NodeId, r: BrowseResultView) -> CacheView {
        let c1 = CacheView { pending: self.pending.remove_value(parent_id), ..self };
        if !r.status_good {
            c1
        } else {
            match self.spec_insert_target(parent_id) {
                Some(target) => c1.spec_apply_result(target, r.references),
                None => c1,
            }
        }
    }

    /// The expansion step: a browse for `id` is dispatched exactly when `id`
    /// is a known node that still has its placeholder and no request for it
    /// is already in flight.
    pub open spec fn spec_row_expanded(self, id: NodeId) -> (CacheView, Option<NodeId>) {
        match lookup(self.index, id) {
            Some(s) => if self.nodes[s].has_placeholder && !self.pending.contains(id) {
                (CacheView { pending: self.pending.push(id), ..self }, Some(id))
            } else {
                (self, None)
            },
            None => (self, None),
        }
    }

    /// Resetting forgets everything: the state after a reset does not depend
    /// on the state before it.
    pub open spec fn spec_reset(self) -> CacheView {
        CacheView::spec_new()
    }

    /// The children of `p`, with `-1` standing for the synthetic root.
    pub open spec fn child_list(self, p: int) -> Seq<int>
        recommends
            -1 <= p < self.nodes.len(),
    {
        if p == -1 {
            self.root_children
        } else {
            self.nodes[p].children
        }
    }

    /// No duplicate children: a slot occurs at most once as a child, over
    /// all children lists and the root's together — every node hangs at one
    /// place in the tree.
    pub open spec fn no_duplicate_children(self) -> bool {
        forall|p1: int, k1: int, p2: int, k2: int|
            (-1 <= p1 < self.nodes.len() && 0 <= k1 < self.child_list(p1).len() && -1 <= p2
                < self.nodes.len() && 0 <= k2 < self.child_list(p2).len()
                && #[trigger] self.child_list(p1)[k1] == #[trigger] self.child_list(p2)[k2]) ==> (
            p1 == p2 && k1 == k2)
    }

    /// Well-formedness: the index and the children lists point into the
    /// arena, indexed identities match, a node has its placeholder exactly
    /// until a result for its slot was applied, in-flight identities are
    /// known to the index, and no node is anyone's child twice.
    pub open spec fn wf(self) -> bool {
        &&& self.no_duplicate_children()
        &&& forall|k: int|
            0 <= k < self.index.len() ==> {
                &&& 0 <= (#[trigger] self.index[k]).1 < self.nodes.len()
                &&& self.nodes[self.index[k].1].node_id == self.index[k].0
            }
        &&& forall|k: int|
            0 <= k < self.root_children.len() ==> 0 <= #[trigger] self.root_children[k]
                < self.nodes.len()
        &&& forall|s: int, k: int|
            0 <= s < self.nodes.len() && 0 <= k < self.nodes[s].children.len() ==> 0 <= #[trigger] self.nodes[s].children[k] < self.nodes.len()
        &&& forall|s: int|
            0 <= s < self.nodes.len() ==> ((#[trigger] self.nodes[s]).has_placeholder <==> !self.applied.contains(s))
        &&& forall|s: int| #[trigger] self.applied.contains(s) ==> 0 <= s < self.nodes.len()
        &&& forall|k: int|
            0 <= k < self.pending.len() ==> lookup(self.index, #[trigger] self.pending[k]) is Some
    }
}

/// A successful lookup comes from some entry of the index.
pub proof fn lemma_lookup_in_index(index: Seq<(NodeId, int)>, id: NodeId, s: int)
    requires
        lookup(index, id) == Some(s),
    ensures
        exists|k: int| 0 <= k < index.len() && index[k] == (id, s),
    decreases index.len(),
{
    if index.len() == 0 {
    } else if index.last().0 == id {
        assert(index[index.len() - 1] == (id, s));
    } else {
        lemma_lookup_in_index(index.drop_last(), id, s);
        let k = choose|k: int|
            0 <= k < index.drop_last().len() && index.drop_last()[k] == (id, s);
        assert(index[k] == (id, s));
    }
}

/// A lookup in a grown index: entries appended behind shadow the old ones,
/// and an identity they do not mention keeps its old slot.
pub proof fn lemma_lookup_append(a: Seq<(NodeId, int)>, b: Seq<(NodeId, int)>, id: NodeId)
    ensures
        lookup(a + b, id) == (match lookup(b, id) {
            Some(s) => Some(s),
            None => lookup(a, id),
        }),
    decreases b.len(),
{
    if b.len() == 0 {
        assert(a + b =~= a);
    } else {
        assert((a + b).last() == b.last());
        if b.last().0 != id {
            assert((a + b).drop_last() =~= a + b.drop_last());
            lemma_lookup_append(a, b.drop_last(), id);
        }
    }
}

/// The slot the index would answer for `id` among the nodes a result
/// inserts at consecutive slots from `base`: the last occurrence wins, as
/// with a map overwritten on insert; `None` when the result does not
/// mention `id`.
pub open spec fn last_slot_of(refs: Seq<ReferenceView>, base: int, id: NodeId) -> Option<int>
    decreases refs.len(),
{
    if refs.len() == 0 {
        None
    } else if refs.last().node_id == id {
        Some(base + refs.len() - 1)
    } else {
        last_slot_of(refs.drop_last(), base, id)
    }
}

/// Looking an identity up among the entries a result registers answers the
/// slot of its last occurrence.
pub proof fn lemma_lookup_new_entries(refs: Seq<ReferenceView>, base: int, id: NodeId)
    ensures
        lookup(new_entries(refs, base), id) == last_slot_of(refs, base, id),
    decreases refs.len(),
{
    if refs.len() > 0 {
        assert(new_entries(refs, base).last() == (refs.last().node_id, base + refs.len() - 1));
        if refs.last().node_id != id {
            assert(new_entries(refs, base).drop_last() =~= new_entries(refs.drop_last(), base));
            lemma_lookup_new_entries(refs.drop_last(), base, id);
        }
    }
}

/// Applying a result registers the inserted children: afterwards the index
/// finds each identity the result mentions at the slot of its last
/// occurrence, and answers for every other identity as before.
pub proof fn lemma_apply_registers_children(
    c: CacheView,
    parent: Option<int>,
    refs: Seq<ReferenceView>,
    id: NodeId,
)
    ensures
        lookup(c.spec_apply_result(parent, refs).index, id) == (match last_slot_of(
            refs,
            c.nodes.len() as int,
            id,
        ) {
            Some(s) => Some(s),
            None => lookup(c.index, id),
        }),
{
    let base = c.nodes.len() as int;
    lemma_lookup_new_entries(refs, base, id);
    lemma_lookup_append(c.index, new_entries(refs, base), id);
}

/// Two caches with the same arena and the same root children have the same
/// children lists, so freedom from duplicate children carries over.
proof fn lemma_same_tree_no_duplicate_children(a: CacheView, b: CacheView)
    requires
        a.no_duplicate_children(),
        b.nodes == a.nodes,
        b.root_children == a.root_children,
    ensures
        b.no_duplicate_children(),
{
    assert forall|p1: int, k1: int, p2: int, k2: int|
        (-1 <= p1 < b.nodes.len() && 0 <= k1 < b.child_list(p1).len() && -1 <= p2 < b.nodes.len()
            && 0 <= k2 < b.child_list(p2).len() && #[trigger] b.child_list(p1)[k1]
            == #[trigger] b.child_list(p2)[k2]) implies (p1 == p2 && k1 == k2) by {
        assert(b.child_list(p1) == a.child_list(p1));
        assert(b.child_list(p2) == a.child_list(p2));
        assert(a.child_list(p1)[k1] == a.child_list(p2)[k2]);
    }
}

/// Clearing an in-flight mark preserves well-formedness: the remaining
/// in-flight identities were in flight before.
pub proof fn lemma_remove_pending_preserves_wf(c: CacheView, id: NodeId)
    requires
        c.wf(),
    ensures
        (CacheView { pending: c.pending.remove_value(id), ..c }).wf(),
{
    let p1 = c.pending.remove_value(id);
    lemma_same_tree_no_duplicate_children(c, CacheView { pending: p1, ..c });
    c.pending.index_of_first_ensures(id);
    assert forall|k: int| 0 <= k < p1.len() implies lookup(c.index, #[trigger] p1[k]) is Some by {
        match c.pending.index_of_first(id) {
            Some(idx) => {
                if k < idx {
                    assert(p1[k] == c.pending[k]);
                } else {
                    assert(p1[k] == c.pending[k + 1]);
                }
            }
            None => {
                assert(p1[k] == c.pending[k]);
            }
        }
    }
}

/// After an application, a child entry is an old entry with its old value
/// (which lies below `base`), or one of the fresh slots hung at the target.
proof fn lemma_apply_child_entry(
    c: CacheView,
    parent: Option<int>,
    refs: Seq<ReferenceView>,
    p: int,
    k: int,
)
    requires
        c.wf(),
        parent matches Some(q) ==> 0 <= q < c.nodes.len(),
        -1 <= p < c.spec_apply_result(parent, refs).nodes.len(),
        0 <= k < c.spec_apply_result(parent, refs).child_list(p).len(),
    ensures
        ({
            let c2 = c.spec_apply_result(parent, refs);
            let base = c.nodes.len() as int;
            ||| (-1 <= p < c.nodes.len() && 0 <= k < c.child_list(p).len() && c2.child_list(p)[k]
                == c.child_list(p)[k] && 0 <= c.child_list(p)[k] < base)
            ||| (match parent {
                None => p == -1 && c.root_children.len() <= k && c2.child_list(p)[k] == base + (
                k - c.root_children.len()),
                Some(q) => p == q && c.nodes[q].children.len() <= k && c2.child_list(p)[k] == base
                    + (k - c.nodes[q].children.len()),
            })
        }),
{
    let c2 = c.spec_apply_result(parent, refs);
    let base = c.nodes.len() as int;
    match parent {
        None => {
            if p == -1 {
                if k < c.root_children.len() {
                    assert(c2.child_list(p)[k] == c.root_children[k]);
                } else {
                    assert(c2.child_list(p)[k] == base + (k - c.root_children.len()));
                }
            } else if p < c.nodes.len() {
                assert(c2.child_list(p) == c.nodes[p].children);
            } else {
                assert(c2.child_list(p) == Seq::<int>::empty());
            }
        }
        Some(q) => {
            if p == -1 {
                assert(c2.child_list(p) == c.root_children);
            } else if p == q {
                if k < c.nodes[q].children.len() {
                    assert(c2.child_list(p)[k] == c.nodes[q].children[k]);
                } else {
                    assert(c2.child_list(p)[k] == base + (k - c.nodes[q].children.len()));
                }
            } else if p < c.nodes.len() {
                assert(c2.child_list(p) == c.nodes[p].children);
            } else {
                assert(c2.child_list(p) == Seq::<int>::empty());
            }
        }
    }
}

/// Applying a result at a valid target preserves well-formedness.
pub proof fn lemma_apply_result_wf(c: CacheView, parent: Option<int>, refs: Seq<ReferenceView>)
    requires
        c.wf(),
        parent matches Some(p) ==> 0 <= p < c.nodes.len(),
    ensures
        c.spec_apply_result(parent, refs).wf(),
{
    let c2 = c.spec_apply_result(parent, refs);
    let base = c.nodes.len() as int;
    assert(c2.nodes.len() == c.nodes.len() + refs.len());

    // Every node keeps its identity; slots at and beyond `base` are the new
    // nodes; the target (if any) lost its placeholder and gained children.
    assert forall|s: int| 0 <= s < c.nodes.len() implies #[trigger] c2.nodes[s].node_id
        == c.nodes[s].node_id by {}
    assert forall|j: int| 0 <= j < refs.len() implies #[trigger] c2.nodes[base + j]
        == node_of_reference(refs[j]) by {}

    assert forall|k: int| 0 <= k < c2.index.len() implies {
        &&& 0 <= (#[trigger] c2.index[k]).1 < c2.nodes.len()
        &&& c2.nodes[c2.index[k].1].node_id == c2.index[k].0
    } by {
        if k < c.index.len() {
            assert(c2.index[k] == c.index[k]);
        } else {
            let j = k - c.index.len();
            assert(c2.index[k] == (refs[j].node_id, base + j));
        }
    }

    assert forall|k: int|
        0 <= k < c2.root_children.len() implies 0 <= #[trigger] c2.root_children[k]
        < c2.nodes.len() by {
        if parent is None && k >= c.root_children.len() {
            assert(c2.root_children[k] == base + (k - c.root_children.len()));
        } else {
            assert(c2.root_children[k] == c.root_children[k]);
        }
    }

    assert forall|s: int, k: int|
        0 <= s < c2.nodes.len() && 0 <= k < c2.nodes[s].children.len() implies 0 <= #[trigger] c2.nodes[s].children[k] < c2.nodes.len() by {
        match parent {
            Some(p) => {
                if s == p {
                    if k < c.nodes[p].children.len() {
                        assert(c2.nodes[s].children[k] == c.nodes[p].children[k]);
                    } else {
                        assert(c2.nodes[s].children[k] == base + (k - c.nodes[p].children.len()));
                    }
                } else if s < c.nodes.len() {
                    assert(c2.nodes[s].children == c.nodes[s].children);
                } else {
                    assert(c2.nodes[s].children == Seq::<int>::empty());
                }
            }
            None => {
                if s < c.nodes.len() {
                    assert(c2.nodes[s].children == c.nodes[s].children);
                } else {
                    assert(c2.nodes[s].children == Seq::<int>::empty());
                }
            }
        }
    }

    assert forall|s: int|
        0 <= s < c2.nodes.len() implies ((#[trigger] c2.nodes[s]).has_placeholder
        <==> !c2.applied.contains(s)) by {
        match parent {
            Some(p) => {
                if s == p {
                } else if s < c.nodes.len() {
                    assert(c2.nodes[s] == c.nodes[s]);
                    assert(c2.applied.contains(s) == c.applied.contains(s));
                } else {
                    assert(c2.nodes[s].has_placeholder);
                    assert(!c.applied.contains(s) && s != p);
                }
            }
            None => {
                if s < c.nodes.len() {
                    assert(c2.nodes[s] == c.nodes[s]);
                } else {
                    assert(c2.nodes[s].has_placeholder);
                    assert(!c.applied.contains(s));
                }
            }
        }
    }

    assert forall|p1: int, k1: int, p2: int, k2: int|
        (-1 <= p1 < c2.nodes.len() && 0 <= k1 < c2.child_list(p1).len() && -1 <= p2
            < c2.nodes.len() && 0 <= k2 < c2.child_list(p2).len()
            && #[trigger] c2.child_list(p1)[k1] == #[trigger] c2.child_list(p2)[k2]) implies (p1
        == p2 && k1 == k2) by {
        lemma_apply_child_entry(c, parent, refs, p1, k1);
        lemma_apply_child_entry(c, parent, refs, p2, k2);
        let old1 = -1 <= p1 < c.nodes.len() && 0 <= k1 < c.child_list(p1).len()
            && c2.child_list(p1)[k1] == c.child_list(p1)[k1];
        let old2 = -1 <= p2 < c.nodes.len() && 0 <= k2 < c.child_list(p2).len()
            && c2.child_list(p2)[k2] == c.child_list(p2)[k2];
        if old1 && old2 {
            assert(c.child_list(p1)[k1] == c.child_list(p2)[k2]);
        }
    }

    assert forall|k: int|
        0 <= k < c2.pending.len() implies lookup(c2.index, #[trigger] c2.pending[k]) is Some by {
        assert(c2.pending[k] == c.pending[k]);
        assert(lookup(c.index, c.pending[k]) is Some);
        lemma_lookup_append(c.index, new_entries(refs, base), c.pending[k]);
    }
}

/// One cached tree node: the data reported for it and the slots of its
/// children.
pub struct TreeNode {
    pub node_id: NodeId,
    pub browse_name: String,
    pub display_name: String,
    pub reference_type_id: NodeId,
    pub children: Vec<usize>,
    pub has_placeholder: bool,
}

impl View for TreeNode {
    type V = NodeView;

    open spec fn view(&self) -> NodeView {
        NodeView {
            node_id: self.node_id,
            browse_name: self.browse_name@,
            display_name: self.display_name@,
            reference_type_id: self.reference_type_id,
            children: self.children@.map_values(|c: usize| c as int),
            has_placeholder: self.has_placeholder,
        }
    }
}

/// A tree-mutation command for the presentation surface, which renders the
/// cache without ever mutating it.
pub enum RenderCommand {
    /// Drop everything rendered so far.
    ClearTree,
    /// Insert a node at locator `slot` under `parent` (`None` is the root),
    /// behind the children already rendered there.
    InsertNode { parent: Option<usize>, slot: usize, reference: Reference },
    /// The node at `slot` is resolved: drop its placeholder marking.
    RemovePlaceholder { slot: usize },
}

/// Placeholder invariant: in a well-formed cache a node owns its placeholder
/// exactly until a successful browse result for its slot has been applied
/// since the last reset.
pub proof fn lemma_placeholder_invariant(c: CacheView, s: int)
    requires
        c.wf(),
        0 <= s < c.nodes.len(),
    ensures
        c.nodes[s].has_placeholder <==> !c.applied.contains(s),
{
}

/// No duplicate expansion dispatch: expanding the same node twice with no
/// result applied in between dispatches at most one browse request, and the
/// second expansion changes nothing.
pub proof fn lemma_no_duplicate_dispatch(c: CacheView, id: NodeId)
    ensures
        !(c.spec_row_expanded(id).1 is Some
            && c.spec_row_expanded(id).0.spec_row_expanded(id).1 is Some),
        c.spec_row_expanded(id).0.spec_row_expanded(id).0 == c.spec_row_expanded(id).0,
{
    let c1 = c.spec_row_expanded(id).0;
    if c.spec_row_expanded(id).1 is Some {
        assert(c1.pending == c.pending.push(id));
        assert(c1.pending.contains(id)) by {
            assert(c1.pending[c1.pending.len() - 1] == id);
        }
    }
}

/// Stale-result immunity: a result for a node already resolved (its
/// placeholder removed) leaves the tree unchanged, and when no request for it
/// is in flight the cache is wholly unchanged.
pub proof fn lemma_stale_result_immune(c: CacheView, id: NodeId, s: int, r: BrowseResultView)
    requires
        c.wf(),
        id != NodeId::spec_root_folder(),
        lookup(c.index, id) == Some(s),
        !c.nodes[s].has_placeholder,
    ensures
        c.spec_on_browse_result(id, r).nodes == c.nodes,
        c.spec_on_browse_result(id, r).root_children == c.root_children,
        c.spec_on_browse_result(id, r).index == c.index,
        c.spec_on_browse_result(id, r).applied == c.applied,
        !c.pending.contains(id) ==> c.spec_on_browse_result(id, r) == c,
{
    if !c.pending.contains(id) {
        c.pending.index_of_first_ensures(id);
        assert(c.spec_on_browse_result(id, r) =~~= c);
    }
}

/// Unknown-parent immunity: a result for an identity never inserted leaves
/// the cache wholly unchanged.
pub proof fn lemma_unknown_parent_immune(c: CacheView, id: NodeId, r: BrowseResultView)
    requires
        c.wf(),
        id != NodeId::spec_root_folder(),
        lookup(c.index, id) is None,
    ensures
        c.spec_on_browse_result(id, r) == c,
{
    assert(!c.pending.contains(id)) by {
        if c.pending.contains(id) {
            let k = choose|k: int| 0 <= k < c.pending.len() && c.pending[k] == id;
            assert(lookup(c.index, c.pending[k]) is Some);
        }
    }
    c.pending.index_of_first_ensures(id);
    assert(c.spec_on_browse_result(id, r) =~~= c);
}

/// Reset clears state: after a reset the index is empty, and every further
/// population proceeds from the one fresh state, whatever the prior history
/// of either cache was.
pub proof fn lemma_reset_converges(a: CacheView, b: CacheView, id: NodeId, r: BrowseResultView)
    ensures
        a.spec_reset() == b.spec_reset(),
        a.spec_reset().index.len() == 0,
        a.spec_reset().nodes.len() == 0,
        a.spec_reset().pending.len() == 0,
        a.spec_reset().spec_on_browse_result(id, r) == b.spec_reset().spec_on_browse_result(id, r),
{
}

/// The commands a browse result sends to the presentation surface: one
/// insertion per reference, in server order, and only after all of them the
/// removal of the parent's placeholder — a renderer following along never
/// observes a childless node already marked expanded.
pub open spec fn spec_render_commands(
    c: CacheView,
    parent_id: NodeId,
    r: BrowseResult,
) -> Seq<RenderCommand> {
    if !r.status_good {
        Seq::empty()
    } else {
        match c.spec_insert_target(parent_id) {
            Some(target) => {
                let parent_slot = match target {
                    Some(p) => Some(p as usize),
                    None => None::<usize>,
                };
                let inserts = Seq::new(
                    r.references@.len(),
                    |k: int| RenderCommand::InsertNode {
                        parent: parent_slot,
                        slot: (c.nodes.len() + k) as usize,
                        reference: r.references@[k],
                    },
                );
                match target {
                    Some(p) => inserts.push(RenderCommand::RemovePlaceholder { slot: p as usize }),
                    None => inserts,
                }
            },
            None => Seq::empty(),
        }
    }
}

/// The lazy tree cache. Owned by the render context; the only writers are
/// the poll step (browse results) and user expansion.
pub struct AddressSpaceTreeView {
    nodes: Vec<TreeNode>,
    root_children: Vec<usize>,
    index: Vec<(NodeId, usize)>,
    pending: Vec<NodeId>,
    applied: Ghost<Set<int>>,
}

impl View for AddressSpaceTreeView {
    type V = CacheView;

    closed spec fn view(&self) -> CacheView {
        CacheView {
            nodes: self.nodes@.map_values(|n: TreeNode| n@),
            root_children: self.root_children@.map_values(|c: usize| c as int),
            index: self.index@.map_values(|p: (NodeId, usize)| (p.0, p.1 as int)),
            pending: self.pending@,
            applied: self.applied@,
        }
    }
}

impl AddressSpaceTreeView {
    /// An empty cache.
    pub fn new() -> (c: AddressSpaceTreeView)
        ensures
            c@ == CacheView::spec_new(),
            c@.wf(),
    {
        let c = AddressSpaceTreeView {
            nodes: Vec::new(),
            root_children: Vec::new(),
            index: Vec::new(),
            pending: Vec::new(),
            applied: Ghost(Set::empty()),
        };
        proof {
            assert(c@ =~~= CacheView::spec_new());
        }
        c
    }

    /// Reset: clears the nodes, the index and the in-flight marks, so that no
    /// stale entry survives a reconnect.
    pub fn clear_address_space(&mut self)
        ensures
            final(self)@ == CacheView::spec_new(),
            final(self)@.wf(),
    {
        self.nodes = Vec::new();
        self.root_children = Vec::new();
        self.index = Vec::new();
        self.pending = Vec::new();
        self.applied = Ghost(Set::empty());
        proof {
            assert(self@ =~~= CacheView::spec_new());
        }
    }

    /// Begin a fresh population: reset, then request a browse of the
    /// synthetic root.
    pub fn populate(&mut self) -> (r: ModelMessage)
        ensures
            final(self)@ == CacheView::spec_new(),
            final(self)@.wf(),
            r == ModelMessage::BrowseNode(NodeId::spec_root_folder()),
    {
        self.clear_address_space();
        ModelMessage::BrowseNode(NodeId::root_folder())
    }

    /// The slot registered for `id`, scanning newest entries first so that
    /// the last insertion under an identity wins.
    pub fn lookup_slot(&self, id: NodeId) -> (r: Option<usize>)
        ensures
            match r {
                Some(s) => lookup(self@.index, id) == Some(s as int),
                None => lookup(self@.index, id) is None,
            },
    {
        let ghost iv = self@.index;
        let mut i: usize = self.index.len();
        proof {
            assert(iv.take(i as int) =~= iv);
        }
        while i > 0
            invariant
                0 <= i <= self.index.len(),
                iv == self@.index,
                lookup(iv, id) == lookup(iv.take(i as int), id),
            decreases i,
        {
            let entry = self.index[i - 1];
            if entry.0 == id {
                proof {
                    assert(iv.take(i as int).last() == (entry.0, entry.1 as int));
                }
                return Some(entry.1);
            }
            proof {
                assert(iv.take(i as int).drop_last() =~= iv.take(i as int - 1));
            }
            i = i - 1;
        }
        proof {
            assert(iv.take(0) =~= Seq::<(NodeId, int)>::empty());
        }
        None
    }

    /// Clear the in-flight mark for `id`: the request for it, if any, has
    /// come back.
    fn remove_pending(&mut self, id: NodeId)
        ensures
            final(self)@ == (CacheView { pending: old(self)@.pending.remove_value(id), ..old(self)@ }),
    {
        let ghost pv = old(self)@.pending;
        let mut i: usize = 0;
        while i < self.pending.len()
            invariant
                0 <= i <= self.pending.len(),
                self@ == old(self)@,
                pv == old(self)@.pending,
                forall|k: int| 0 <= k < i ==> pv[k] != id,
            decreases self.pending.len() - i,
        {
            if self.pending[i] == id {
                proof {
                    pv.index_of_first_ensures(id);
                    assert(pv.index_of_first(id) == Some(i as int));
                }
                self.pending.remove(i);
                proof {
                    assert(self@ =~~= (CacheView {
                        pending: old(self)@.pending.remove_value(id),
                        ..old(self)@
                    }));
                }
                return;
            }
            i = i + 1;
        }
        proof {
            assert(!pv.contains(id));
            pv.index_of_first_ensures(id);
            assert(self@ =~~= (CacheView {
                pending: old(self)@.pending.remove_value(id),
                ..old(self)@
            }));
        }
    }

    /// Resolve the node at `slot`: its placeholder is removed and the slot is
    /// recorded as applied.
    fn remove_dummy_node(&mut self, slot: usize)
        requires
            slot < old(self)@.nodes.len(),
        ensures
            final(self)@ == (CacheView {
                nodes: old(self)@.nodes.update(
                    slot as int,
                    NodeView { has_placeholder: false, ..old(self)@.nodes[slot as int] },
                ),
                applied: old(self)@.applied.insert(slot as int),
                ..old(self)@
            }),
    {
        let node = &mut self.nodes[slot];
        node.has_placeholder = false;
        self.applied = Ghost(self.applied@.insert(slot as int));
        proof {
            assert(self@ =~~= (CacheView {
                nodes: old(self)@.nodes.update(
                    slot as int,
                    NodeView { has_placeholder: false, ..old(self)@.nodes[slot as int] },
                ),
                applied: old(self)@.applied.insert(slot as int),
                ..old(self)@
            }));
        }
    }

    /// Insert the node a reference reports under `parent` (`None` is the
    /// root), with a fresh placeholder, and register it in the index. Returns
    /// the new node's slot.
    fn insert_reference(&mut self, r: &Reference, parent: Option<usize>) -> (slot: usize)
        requires
            parent matches Some(p) ==> p < old(self)@.nodes.len(),
        ensures
            slot == old(self)@.nodes.len(),
            final(self)@ == old(self)@.spec_insert_one(
                r@,
                match parent {
                    Some(p) => Some(p as int),
                    None => None,
                },
            ),
    {
        let slot = self.nodes.len();
        self.nodes.push(TreeNode {
            node_id: r.node_id,
            browse_name: r.browse_name.clone(),
            display_name: r.display_name.clone(),
            reference_type_id: r.reference_type_id,
            children: Vec::new(),
            has_placeholder: true,
        });
        self.index.push((r.node_id, slot));
        match parent {
            Some(p) => {
                let node = &mut self.nodes[p];
                node.children.push(slot);
                proof {
                    assert(self@ =~~= old(self)@.spec_insert_one(r@, Some(p as int)));
                }
            }
            None => {
                self.root_children.push(slot);
                proof {
                    assert(self@ =~~= old(self)@.spec_insert_one(r@, None));
                }
            }
        }
        slot
    }

    /// Whether the node at `slot` still has its placeholder, that is, no
    /// successful browse result for it has been applied yet.
    pub fn has_dummy_node(&self, slot: usize) -> (r: bool)
        requires
            slot < self@.nodes.len(),
        ensures
            r == self@.nodes[slot as int].has_placeholder,
    {
        self.nodes[slot].has_placeholder
    }

    /// Whether a browse request for `id` is already in flight.
    pub fn is_pending(&self, id: NodeId) -> (r: bool)
        ensures
            r == self@.pending.contains(id),
    {
        let mut i: usize = 0;
        while i < self.pending.len()
            invariant
                0 <= i <= self.pending.len(),
                forall|k: int| 0 <= k < i ==> self@.pending[k] != id,
            decreases self.pending.len() - i,
        {
            if self.pending[i] == id {
                proof {
                    assert(self@.pending.contains(id)) by {
                        assert(self@.pending[i as int] == id);
                    }
                }
                return true;
            }
            i = i + 1;
        }
        false
    }

    /// A user expanded the node known as `id`. Dispatches exactly one browse
    /// request when the node is known, still owns its placeholder and has no
    /// request in flight; in every other case this is a no-op, which absorbs
    /// duplicate expansions racing a prior result.
    pub fn row_expanded(&mut self, node_id: NodeId) -> (r: Option<ModelMessage>)
        requires
            old(self)@.wf(),
        ensures
            final(self)@ == old(self)@.spec_row_expanded(node_id).0,
            final(self)@.wf(),
            r == match old(self)@.spec_row_expanded(node_id).1 {
                Some(id) => Some(ModelMessage::BrowseNode(id)),
                None => None::<ModelMessage>,
            },
    {
        match self.lookup_slot(node_id) {
            Some(slot) => {
                proof {
                    lemma_lookup_in_index(self@.index, node_id, slot as int);
                    let k = choose|k: int|
                        0 <= k < self@.index.len() && self@.index[k] == (node_id, slot as int);
                    assert(0 <= self@.index[k].1 < self@.nodes.len());
                }
                if self.has_dummy_node(slot) && !self.is_pending(node_id) {
                    self.pending.push(node_id);
                    proof {
                        assert(self@ =~~= old(self)@.spec_row_expanded(node_id).0);
                        lemma_same_tree_no_duplicate_children(old(self)@, self@);
                    }
                    Some(ModelMessage::BrowseNode(node_id))
                } else {
                    None
                }
            }
            None => None,
        }
    }

    /// Reconcile one browse result into the tree. The in-flight mark for the
    /// parent is cleared; a failed result, a result for an unknown parent and
    /// a late duplicate for an already-resolved parent are dropped without
    /// touching the tree; an applicable result inserts the references in
    /// server order, each with a fresh placeholder, and only then removes the
    /// parent's own placeholder. Returns the commands for the renderer.
    pub fn on_browse_node_result(
        &mut self,
        parent_node_id: NodeId,
        browse_node_result: BrowseResult,
    ) -> (cmds: Vec<RenderCommand>)
        requires
            old(self)@.wf(),
        ensures
            final(self)@ == old(self)@.spec_on_browse_result(parent_node_id, browse_node_result@),
            final(self)@.wf(),
            cmds@ == spec_render_commands(old(self)@, parent_node_id, browse_node_result),
    {
        let ghost c0 = old(self)@;
        self.remove_pending(parent_node_id);
        let ghost c1 = self@;
        proof {
            lemma_remove_pending_preserves_wf(c0, parent_node_id);
        }
        let mut cmds: Vec<RenderCommand> = Vec::new();
        if !browse_node_result.status_good {
            return cmds;
        }
        let parent: Option<usize> = if parent_node_id == NodeId::root_folder() {
            None
        } else {
            match self.lookup_slot(parent_node_id) {
                Some(s) => {
                    proof {
                        lemma_lookup_in_index(c0.index, parent_node_id, s as int);
                        let k = choose|k: int|
                            0 <= k < c0.index.len() && c0.index[k] == (
                            parent_node_id,
                            s as int,
                            );
                        assert(0 <= c0.index[k].1 < c0.nodes.len());
                    }
                    if !self.has_dummy_node(s) {
                        return cmds;
                    }
                    Some(s)
                },
                None => {
                    return cmds;
                },
            }
        };
        let ghost refs = browse_node_result@.references;
        let ghost base = c1.nodes.len() as int;
        let ghost pint: Option<int> = match parent {
            Some(p) => Some(p as int),
            None => None,
        };
        let mut i: usize = 0;
        while i < browse_node_result.references.len()
            invariant
                0 <= i <= browse_node_result.references.len(),
                refs == browse_node_result@.references,
                base == c1.nodes.len(),
                c1.wf(),
                pint == (match parent {
                    Some(p) => Some(p as int),
                    None => None::<int>,
                }),
                pint matches Some(p) ==> 0 <= p < c1.nodes.len(),
                self@.pending == c1.pending,
                self@.applied == c1.applied,
                self@.index == c1.index + new_entries(refs.take(i as int), base),
                self@.root_children == (match pint {
                    Some(_) => c1.root_children,
                    None => c1.root_children + new_slots(i as nat, base),
                }),
                self@.nodes == (match pint {
                    Some(p) => (c1.nodes + refs.take(i as int).map_values(
                        |r: ReferenceView| node_of_reference(r),
                    )).update(
                        p,
                        NodeView {
                            children: c1.nodes[p].children + new_slots(i as nat, base),
                            ..c1.nodes[p]
                        },
                    ),
                    None => c1.nodes + refs.take(i as int).map_values(
                        |r: ReferenceView| node_of_reference(r),
                    ),
                }),
                cmds@ == Seq::new(
                    i as nat,
                    |k: int| RenderCommand::InsertNode {
                        parent,
                        slot: (base + k) as usize,
                        reference: browse_node_result.references@[k],
                    },
                ),
            decreases browse_node_result.references.len() - i,
        {
            let ghost s_pre = self@;
            let r = &browse_node_result.references[i];
            proof {
                assert(self@.nodes.len() == c1.nodes.len() + i);
            }
            let slot = self.insert_reference(r, parent);
            cmds.push(RenderCommand::InsertNode { parent, slot, reference: r.duplicate() });
            proof {
                let ii = i as int;
                assert(refs.take(ii + 1).map_values(|r: ReferenceView| node_of_reference(r))
                    =~= refs.take(ii).map_values(|r: ReferenceView| node_of_reference(r)).push(
                    node_of_reference(refs[ii]),
                ));
                assert(new_entries(refs.take(ii + 1), base) =~= new_entries(refs.take(ii), base)
                    .push((refs[ii].node_id, base + ii)));
                assert(new_slots((i + 1) as nat, base) =~= new_slots(i as nat, base).push(
                    base + ii,
                ));
                match pint {
                    Some(p) => {
                        assert(s_pre.nodes[p].children == c1.nodes[p].children + new_slots(
                            i as nat,
                            base,
                        ));
                        assert(self@.nodes =~= (c1.nodes + refs.take(ii + 1).map_values(
                            |r: ReferenceView| node_of_reference(r),
                        )).update(
                            p,
                            NodeView {
                                children: c1.nodes[p].children + new_slots((i + 1) as nat, base),
                                ..c1.nodes[p]
                            },
                        ));
                    }
                    None => {
                        assert(self@.nodes =~= c1.nodes + refs.take(ii + 1).map_values(
                            |r: ReferenceView| node_of_reference(r),
                        ));
                    }
                }
                assert(self@.index =~= c1.index + new_entries(refs.take(ii + 1), base));
                assert(cmds@ =~= Seq::new(
                    (i + 1) as nat,
                    |k: int| RenderCommand::InsertNode {
                        parent,
                        slot: (base + k) as usize,
                        reference: browse_node_result.references@[k],
                    },
                ));
            }
            i = i + 1;
        }
        proof {
            assert(refs.take(refs.len() as int) =~= refs);
        }
        if let Some(p) = parent {
            self.remove_dummy_node(p);
            cmds.push(RenderCommand::RemovePlaceholder { slot: p });
        }
        proof {
            assert(self@ =~~= c1.spec_apply_result(pint, refs));
            lemma_apply_result_wf(c1, pint, refs);
            assert(self@ == old(self)@.spec_on_browse_result(parent_node_id, browse_node_result@));
            assert(cmds@ =~= spec_render_commands(c0, parent_node_id, browse_node_result));
        }
        cmds
    }

    /// How many nodes the cache holds.
    pub fn node_count(&self) -> (n: usize)
        ensures
            n == self@.nodes.len(),
    {
        self.nodes.len()
    }

    /// How many direct children the synthetic root has.
    pub fn root_child_count(&self) -> (n: usize)
        ensures
            n == self@.root_children.len(),
    {
        self.root_children.len()
    }

    /// The slot of the root's `i`-th child, in insertion order.
    pub fn root_child(&self, i: usize) -> (s: usize)
        requires
            i < self@.root_children.len(),
        ensures
            s as int == self@.root_children[i as int],
    {
        self.root_children[i]
    }

    /// How many direct children the node at `slot` has.
    pub fn child_count(&self, slot: usize) -> (n: usize)
        requires
            slot < self@.nodes.len(),
        ensures
            n == self@.nodes[slot as int].children.len(),
    {
        self.nodes[slot].children.len()
    }

    /// The slot of the `k`-th child of the node at `slot`, in insertion
    /// order.
    pub fn child_of(&self, slot: usize, k: usize) -> (s: usize)
        requires
            slot < self@.nodes.len(),
            k < self@.nodes[slot as int].children.len(),
        ensures
            s as int == self@.nodes[slot as int].children[k as int],
    {
        self.nodes[slot].children[k]
    }

    /// The identity of the node at `slot`.
    pub fn node_id_of(&self, slot: usize) -> (id: NodeId)
        requires
            slot < self@.nodes.len(),
        ensures
            id == self@.nodes[slot as int].node_id,
    {
        self.nodes[slot].node_id
    }

    /// The browse name of the node at `slot`.
    pub fn browse_name_of(&self, slot: usize) -> (r: &String)
        requires
            slot < self@.nodes.len(),
        ensures
            r@ == self@.nodes[slot as int].browse_name,
    {
        &self.nodes[slot].browse_name
    }

    /// The display name of the node at `slot`.
    pub fn display_name_of(&self, slot: usize) -> (r: &String)
        requires
            slot < self@.nodes.len(),
        ensures
            r@ == self@.nodes[slot as int].display_name,
    {
        &self.nodes[slot].display_name
    }

    /// The reference type under which the node at `slot` was reported.
    pub fn reference_type_id_of(&self, slot: usize) -> (id: NodeId)
        requires
            slot < self@.nodes.len(),
        ensures
            id == self@.nodes[slot as int].reference_type_id,
    {
        self.nodes[slot].reference_type_id
    }

    /// How many browse requests are in flight.
    pub fn pending_count(&self) -> (n: usize)
        ensures
            n == self@.pending.len(),
    {
        self.pending.len()
    }

    /// How many identity entries the index holds.
    pub fn index_count(&self) -> (n: usize)
        ensures
            n == self@.index.len(),
    {
        self.index.len()
    }
}

} // verus!
