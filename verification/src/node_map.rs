use vstd::prelude::*;
use imbl::GenericHashMap;
use rustc_hash::FxBuildHasher;
use archery::ArcK;
use crate::tree_data::Node;

verus! {

/// The node table of a passive tree: a persistent hash map from node id to node,
/// cheap to copy. Verus does not see inside it; the wrappers below state what each
/// operation does to its entries.
#[verifier::external_body]
pub struct NodeMap {
    map: GenericHashMap<u32, Node, FxBuildHasher, ArcK>,
}

/// What a node table holds: the node stored under each id.
pub uninterp spec fn node_entries(m: NodeMap) -> Map<u32, Node>;

/// Calls `GenericHashMap::default` (with the `FxBuildHasher` hasher): the table holds
/// nothing.
#[verifier::external_body]
pub(crate) fn map_new() -> (r: NodeMap)
    ensures
        node_entries(r).dom().len() == 0,
        node_entries(r).dom().finite(),
{
    NodeMap { map: GenericHashMap::default() }
}

/// Calls `GenericHashMap::get`: the node stored under `id`, if there is one.
#[verifier::external_body]
pub(crate) fn map_get(m: &NodeMap, id: u32) -> (r: Option<&Node>)
    ensures
        node_entries(*m).contains_key(id) ==> r == Some(&node_entries(*m)[id]),
        !node_entries(*m).contains_key(id) ==> r is None,
{
    m.map.get(&id)
}

/// Calls `GenericHashMap::contains_key`: whether a node is stored under `id`.
#[verifier::external_body]
pub(crate) fn map_contains(m: &NodeMap, id: u32) -> (r: bool)
    ensures
        r == node_entries(*m).contains_key(id),
{
    m.map.contains_key(&id)
}

/// Calls `GenericHashMap::insert`: afterwards `node` is stored under `id`, the other
/// entries unchanged.
#[verifier::external_body]
pub(crate) fn map_insert(m: &mut NodeMap, id: u32, node: Node)
    ensures
        node_entries(*final(m)) == node_entries(*old(m)).insert(id, node),
{
    m.map.insert(id, node);
}

/// Calls `GenericHashMap::remove`: afterwards nothing is stored under `id`, the other
/// entries unchanged.
#[verifier::external_body]
pub(crate) fn map_remove(m: &mut NodeMap, id: u32)
    ensures
        node_entries(*final(m)) == node_entries(*old(m)).remove(id),
{
    m.map.remove(&id);
}

/// Calls `GenericHashMap::clone`: the copy shares the entries of the original.
#[verifier::external_body]
pub(crate) fn map_clone(m: &NodeMap) -> (r: NodeMap)
    ensures
        node_entries(r) == node_entries(*m),
{
    NodeMap { map: m.map.clone() }
}

/// Calls `GenericHashMap::keys`, collected: every id the table holds, each once, in the
/// table's own order, which the source leaves unspecified.
#[verifier::external_body]
pub(crate) fn map_keys(m: &NodeMap) -> (r: Vec<u32>)
    ensures
        r@.no_duplicates(),
        forall|id: u32| r@.contains(id) <==> node_entries(*m).contains_key(id),
{
    m.map.keys().copied().collect()
}

} // verus!
