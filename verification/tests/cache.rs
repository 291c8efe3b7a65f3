use opcua_explorer::address_space_tree_view::{AddressSpaceTreeView, RenderCommand};
use opcua_explorer::model::ModelMessage;
use opcua_explorer::types::{BrowseResult, NodeId, Reference};

fn nid(i: u64) -> NodeId {
    NodeId { namespace: 0, identifier: i }
}

fn reference(i: u64, name: &str) -> Reference {
    Reference {
        node_id: nid(i),
        browse_name: name.to_string(),
        display_name: name.to_string(),
        reference_type_id: nid(35),
    }
}

fn good(references: Vec<Reference>) -> BrowseResult {
    BrowseResult { status_good: true, references }
}

fn bad() -> BrowseResult {
    BrowseResult { status_good: false, references: Vec::new() }
}

fn root() -> NodeId {
    NodeId::root_folder()
}

#[test]
fn fresh_cache_is_empty() {
    let cache = AddressSpaceTreeView::new();
    assert_eq!(cache.node_count(), 0);
    assert_eq!(cache.root_child_count(), 0);
    assert_eq!(cache.index_count(), 0);
    assert_eq!(cache.pending_count(), 0);
}

#[test]
fn root_population_inserts_children_with_placeholders() {
    let mut cache = AddressSpaceTreeView::new();
    let req = cache.populate();
    assert!(matches!(req, ModelMessage::BrowseNode(id) if id == root()));

    let cmds = cache.on_browse_node_result(root(), good(vec![reference(10, "A"), reference(11, "B")]));
    assert_eq!(cache.root_child_count(), 2);
    let a = cache.root_child(0);
    let b = cache.root_child(1);
    assert_eq!(cache.node_id_of(a), nid(10));
    assert_eq!(cache.node_id_of(b), nid(11));
    assert_eq!(cache.display_name_of(a), "A");
    assert_eq!(cache.browse_name_of(b), "B");
    assert!(cache.has_dummy_node(a));
    assert!(cache.has_dummy_node(b));
    assert_eq!(cache.child_count(a), 0);

    // the root has no placeholder of its own: only the two insertions
    assert_eq!(cmds.len(), 2);
    assert!(matches!(&cmds[0], RenderCommand::InsertNode { parent: None, .. }));
}

#[test]
fn expansion_inserts_under_parent_and_removes_placeholder() {
    let mut cache = AddressSpaceTreeView::new();
    cache.populate();
    cache.on_browse_node_result(root(), good(vec![reference(10, "A")]));
    let a = cache.root_child(0);

    let req = cache.row_expanded(nid(10));
    assert!(matches!(req, Some(ModelMessage::BrowseNode(id)) if id == nid(10)));
    assert_eq!(cache.pending_count(), 1);

    let cmds = cache.on_browse_node_result(nid(10), good(vec![reference(20, "C")]));
    assert_eq!(cache.child_count(a), 1);
    let c = cache.child_of(a, 0);
    assert_eq!(cache.node_id_of(c), nid(20));
    assert!(cache.has_dummy_node(c));
    assert!(!cache.has_dummy_node(a));
    assert_eq!(cache.pending_count(), 0);

    // all insertions come before the placeholder removal
    assert_eq!(cmds.len(), 2);
    assert!(matches!(&cmds[0], RenderCommand::InsertNode { parent: Some(p), .. } if *p == a));
    assert!(matches!(&cmds[1], RenderCommand::RemovePlaceholder { slot } if *slot == a));
}

#[test]
fn double_expansion_dispatches_one_request() {
    let mut cache = AddressSpaceTreeView::new();
    cache.populate();
    cache.on_browse_node_result(root(), good(vec![reference(10, "A")]));

    let first = cache.row_expanded(nid(10));
    let second = cache.row_expanded(nid(10));
    assert!(first.is_some());
    assert!(second.is_none());
    assert_eq!(cache.pending_count(), 1);
}

#[test]
fn expansion_of_unknown_node_is_a_no_op() {
    let mut cache = AddressSpaceTreeView::new();
    cache.populate();
    cache.on_browse_node_result(root(), good(vec![reference(10, "A")]));

    assert!(cache.row_expanded(nid(99)).is_none());
    assert_eq!(cache.pending_count(), 0);
}

#[test]
fn expansion_of_resolved_node_is_a_no_op() {
    let mut cache = AddressSpaceTreeView::new();
    cache.populate();
    cache.on_browse_node_result(root(), good(vec![reference(10, "A")]));
    cache.row_expanded(nid(10));
    cache.on_browse_node_result(nid(10), good(vec![]));

    // resolved with zero children: expanded, not expandable again
    assert!(cache.row_expanded(nid(10)).is_none());
    assert_eq!(cache.pending_count(), 0);
}

#[test]
fn failed_result_leaves_node_unchanged_and_expandable() {
    let mut cache = AddressSpaceTreeView::new();
    cache.populate();
    cache.on_browse_node_result(root(), good(vec![reference(10, "A")]));
    let a = cache.root_child(0);

    cache.row_expanded(nid(10));
    let cmds = cache.on_browse_node_result(nid(10), bad());
    assert!(cmds.is_empty());
    assert_eq!(cache.child_count(a), 0);
    assert!(cache.has_dummy_node(a));
    // the in-flight mark is cleared, so the user can retry
    assert_eq!(cache.pending_count(), 0);
    assert!(cache.row_expanded(nid(10)).is_some());
}

#[test]
fn stale_duplicate_result_is_dropped() {
    let mut cache = AddressSpaceTreeView::new();
    cache.populate();
    cache.on_browse_node_result(root(), good(vec![reference(10, "A")]));
    let a = cache.root_child(0);
    cache.row_expanded(nid(10));
    cache.on_browse_node_result(nid(10), good(vec![reference(20, "C")]));

    // a late duplicate delivery for the already-resolved node
    let cmds = cache.on_browse_node_result(nid(10), good(vec![reference(21, "D")]));
    assert!(cmds.is_empty());
    assert_eq!(cache.child_count(a), 1);
    assert_eq!(cache.node_count(), 2);
}

#[test]
fn result_for_unknown_parent_is_dropped() {
    let mut cache = AddressSpaceTreeView::new();
    cache.populate();
    cache.on_browse_node_result(root(), good(vec![reference(10, "A")]));

    let cmds = cache.on_browse_node_result(nid(99), good(vec![reference(20, "C")]));
    assert!(cmds.is_empty());
    assert_eq!(cache.node_count(), 1);
    assert_eq!(cache.root_child_count(), 1);
}

#[test]
fn reset_clears_everything() {
    let mut cache = AddressSpaceTreeView::new();
    cache.populate();
    cache.on_browse_node_result(root(), good(vec![reference(10, "A"), reference(11, "B")]));
    cache.row_expanded(nid(10));

    cache.clear_address_space();
    assert_eq!(cache.node_count(), 0);
    assert_eq!(cache.root_child_count(), 0);
    assert_eq!(cache.index_count(), 0);
    assert_eq!(cache.pending_count(), 0);

    // a fresh population after the reset looks like a first population
    cache.populate();
    cache.on_browse_node_result(root(), good(vec![reference(10, "A"), reference(11, "B")]));
    assert_eq!(cache.root_child_count(), 2);
    assert_eq!(cache.node_id_of(cache.root_child(0)), nid(10));
}

#[test]
fn late_result_after_reset_is_dropped() {
    let mut cache = AddressSpaceTreeView::new();
    cache.populate();
    cache.on_browse_node_result(root(), good(vec![reference(10, "A")]));
    cache.row_expanded(nid(10));

    // disconnect: reset while the browse for A is still in flight
    cache.clear_address_space();

    // the orphaned result arrives afterwards
    let cmds = cache.on_browse_node_result(nid(10), good(vec![reference(20, "C")]));
    assert!(cmds.is_empty());
    assert_eq!(cache.node_count(), 0);
    assert_eq!(cache.index_count(), 0);
}

#[test]
fn duplicate_ids_in_one_result_become_separate_siblings() {
    let mut cache = AddressSpaceTreeView::new();
    cache.populate();
    cache.on_browse_node_result(root(), good(vec![reference(10, "A"), reference(10, "Again")]));

    // both siblings render; the index points at the last-inserted one
    assert_eq!(cache.root_child_count(), 2);
    assert_eq!(cache.index_count(), 2);
    let last = cache.root_child(1);
    assert_eq!(cache.lookup_slot(nid(10)), Some(last));
}

#[test]
fn root_results_always_apply() {
    let mut cache = AddressSpaceTreeView::new();
    cache.populate();
    cache.on_browse_node_result(root(), good(vec![reference(10, "A")]));
    // the root keeps no placeholder bookkeeping: a second root result appends
    cache.on_browse_node_result(root(), good(vec![reference(11, "B")]));
    assert_eq!(cache.root_child_count(), 2);
}
