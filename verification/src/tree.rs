use vstd::prelude::*;
use crate::tree_data::{Ascendancy, Class, Node, NodeType, link_ids, copy_strings};
use crate::tattoo::TattooData;
use crate::cluster::{ClusterData, JewelSize, SlotShift, socket_assignments, pick_slots, sort_slots, spec_notable_shift, spec_small_shift, spec_socket_assignments, spec_pick};
use crate::tree_data::ExpansionJewel;
use crate::text::{str_eq, starts_with};
use std::collections::HashMap;
use crate::node_map::{NodeMap, node_entries, map_get, map_contains, map_insert, map_remove, map_clone, map_keys, map_new};

verus! {

/// The id that stands for the small passives of a cluster jewel whose small passives
/// are "Nothingness".
pub const NOTHINGNESS_NODE_ID: u32 = 4294967294u32;

/// The orbit index at which a cluster jewel's nodes start, by proxy node and jewel size
/// (small, medium, large); proxies not listed start at 0.
pub open spec fn spec_orbit_offsets(proxy_node_id: u32) -> Seq<usize> {
    match proxy_node_id {
        43989u32 => seq![3usize, 5, 5],
        25134u32 => seq![0usize, 11, 11],
        30275u32 => seq![2usize, 3, 3],
        28650u32 => seq![1usize, 1, 1],
        48132u32 => seq![5usize, 9, 9],
        18756u32 => seq![4usize, 7, 7],
        55706u32 => seq![2usize, 3, 0],
        26661u32 => seq![3usize, 5, 0],
        13201u32 => seq![3usize, 7, 0],
        40114u32 => seq![1usize, 0, 0],
        18361u32 => seq![2usize, 0, 0],
        7956u32 => seq![3usize, 0, 0],
        51233u32 => seq![5usize, 9, 0],
        57194u32 => seq![5usize, 11, 0],
        35853u32 => seq![0usize, 1, 0],
        35313u32 => seq![4usize, 0, 0],
        44470u32 => seq![5usize, 0, 0],
        37147u32 => seq![0usize, 0, 0],
        25441u32 => seq![1usize, 1, 0],
        28018u32 => seq![2usize, 3, 0],
        53203u32 => seq![3usize, 5, 0],
        3854u32 => seq![0usize, 0, 0],
        49951u32 => seq![1usize, 0, 0],
        22046u32 => seq![2usize, 0, 0],
        37898u32 => seq![5usize, 11, 0],
        64166u32 => seq![1usize, 1, 0],
        58355u32 => seq![2usize, 3, 0],
        48128u32 => seq![5usize, 0, 0],
        27475u32 => seq![0usize, 0, 0],
        35070u32 => seq![1usize, 0, 0],
        35926u32 => seq![4usize, 7, 0],
        33833u32 => seq![5usize, 9, 0],
        50179u32 => seq![5usize, 11, 0],
        36414u32 => seq![3usize, 0, 0],
        10643u32 => seq![4usize, 0, 0],
        56439u32 => seq![5usize, 0, 0],
        58194u32 => seq![3usize, 5, 0],
        34013u32 => seq![4usize, 7, 0],
        24452u32 => seq![5usize, 9, 0],
        63754u32 => seq![2usize, 0, 0],
        54600u32 => seq![3usize, 0, 0],
        27819u32 => seq![4usize, 0, 0],
        _ => seq![0usize, 0, 0],
    }
}

fn get_orbit_offsets(proxy_node_id: u32) -> (r: [usize; 3])
    ensures
        r@ == spec_orbit_offsets(proxy_node_id),
{
    let r: [usize; 3] = match proxy_node_id {
        43989u32 => [3usize, 5, 5],
        25134u32 => [0usize, 11, 11],
        30275u32 => [2usize, 3, 3],
        28650u32 => [1usize, 1, 1],
        48132u32 => [5usize, 9, 9],
        18756u32 => [4usize, 7, 7],
        55706u32 => [2usize, 3, 0],
        26661u32 => [3usize, 5, 0],
        13201u32 => [3usize, 7, 0],
        40114u32 => [1usize, 0, 0],
        18361u32 => [2usize, 0, 0],
        7956u32 => [3usize, 0, 0],
        51233u32 => [5usize, 9, 0],
        57194u32 => [5usize, 11, 0],
        35853u32 => [0usize, 1, 0],
        35313u32 => [4usize, 0, 0],
        44470u32 => [5usize, 0, 0],
        37147u32 => [0usize, 0, 0],
        25441u32 => [1usize, 1, 0],
        28018u32 => [2usize, 3, 0],
        53203u32 => [3usize, 5, 0],
        3854u32 => [0usize, 0, 0],
        49951u32 => [1usize, 0, 0],
        22046u32 => [2usize, 0, 0],
        37898u32 => [5usize, 11, 0],
        64166u32 => [1usize, 1, 0],
        58355u32 => [2usize, 3, 0],
        48128u32 => [5usize, 0, 0],
        27475u32 => [0usize, 0, 0],
        35070u32 => [1usize, 0, 0],
        35926u32 => [4usize, 7, 0],
        33833u32 => [5usize, 9, 0],
        50179u32 => [5usize, 11, 0],
        36414u32 => [3usize, 0, 0],
        10643u32 => [4usize, 0, 0],
        56439u32 => [5usize, 0, 0],
        58194u32 => [3usize, 5, 0],
        34013u32 => [4usize, 7, 0],
        24452u32 => [5usize, 9, 0],
        63754u32 => [2usize, 0, 0],
        54600u32 => [3usize, 0, 0],
        27819u32 => [4usize, 0, 0],
        _ => [0usize, 0, 0],
    };
    assert(r@ =~= spec_orbit_offsets(proxy_node_id));
    r
}

/// The position on an orbit of `dest` slots of the slot `src_oidx` of an orbit of `src`
/// slots: the same position when both orbits have as many slots; fixed tables between
/// 12, 16 and 6 slots; otherwise the proportional position, rounded down.
pub open spec fn spec_translate_orbit_index(src_oidx: int, src: int, dest: int) -> int {
    if src == dest {
        src_oidx
    } else if src == 12 && dest == 16 {
        seq![0int, 1, 3, 4, 5, 7, 8, 9, 11, 12, 13, 15][src_oidx]
    } else if src == 16 && dest == 12 {
        seq![0int, 1, 1, 2, 3, 4, 4, 5, 6, 7, 7, 8, 9, 10, 10, 11][src_oidx]
    } else if src == 6 && dest == 16 {
        seq![0int, 3, 5, 8, 11, 13][src_oidx]
    } else if src == 16 && dest == 6 {
        seq![0int, 0, 0, 1, 1, 2, 2, 2, 3, 3, 3, 4, 4, 5, 5, 5][src_oidx]
    } else {
        (src_oidx * dest) / src
    }
}

/// The inputs on which the translation of an orbit index is defined: for the tables, an
/// index within the source orbit; otherwise a source orbit with slots and a product that
/// fits in a machine word.
pub open spec fn translate_ok(src_oidx: int, src: int, dest: int) -> bool {
    if src == dest {
        true
    } else if (src == 12 && dest == 16) || (src == 16 && dest == 12) || (src == 6 && dest == 16) || (src == 16 && dest == 6) {
        0 <= src_oidx < src
    } else {
        src > 0 && src_oidx * dest <= usize::MAX
    }
}

fn translate_cluster_orbit_index(src_oidx: usize, src_nodes_per_orbit: usize, dest_nodes_per_orbit: usize) -> (r: usize)
    requires
        translate_ok(src_oidx as int, src_nodes_per_orbit as int, dest_nodes_per_orbit as int),
    ensures
        r == spec_translate_orbit_index(src_oidx as int, src_nodes_per_orbit as int, dest_nodes_per_orbit as int),
{
    if src_nodes_per_orbit == dest_nodes_per_orbit {
        return src_oidx;
    }
    if src_nodes_per_orbit == 12 && dest_nodes_per_orbit == 16 {
        let t: [usize; 12] = [0, 1, 3, 4, 5, 7, 8, 9, 11, 12, 13, 15];
        assert(t@ =~= seq![0usize, 1, 3, 4, 5, 7, 8, 9, 11, 12, 13, 15]);
        t[src_oidx]
    } else if src_nodes_per_orbit == 16 && dest_nodes_per_orbit == 12 {
        let t: [usize; 16] = [0, 1, 1, 2, 3, 4, 4, 5, 6, 7, 7, 8, 9, 10, 10, 11];
        assert(t@ =~= seq![0usize, 1, 1, 2, 3, 4, 4, 5, 6, 7, 7, 8, 9, 10, 10, 11]);
        t[src_oidx]
    } else if src_nodes_per_orbit == 6 && dest_nodes_per_orbit == 16 {
        let t: [usize; 6] = [0, 3, 5, 8, 11, 13];
        assert(t@ =~= seq![0usize, 3, 5, 8, 11, 13]);
        t[src_oidx]
    } else if src_nodes_per_orbit == 16 && dest_nodes_per_orbit == 6 {
        let t: [usize; 16] = [0, 0, 0, 1, 1, 2, 2, 2, 3, 3, 3, 4, 4, 5, 5, 5];
        assert(t@ =~= seq![0usize, 0, 0, 1, 1, 2, 2, 2, 3, 3, 3, 4, 4, 5, 5, 5]);
        t[src_oidx]
    } else {
        (src_oidx * dest_nodes_per_orbit) / src_nodes_per_orbit
    }
}

/// The orbit index of a cluster jewel node on the tree: its place in the jewel's ring of
/// `cluster_total_indices`, moved on by the proxy's start offset for the jewel size,
/// wrapped, then translated onto an orbit of `tree_skills_per_orbit` slots.
pub open spec fn spec_cluster_orbit_index(base_idx: int, proxy_node_id: u32, size_index: int, total: int, per_orbit: int) -> int {
    spec_translate_orbit_index((base_idx + spec_orbit_offsets(proxy_node_id)[size_index]) % total, total, per_orbit)
}

fn apply_cluster_orbit_index_adjustment(
    base_idx: usize,
    proxy_node_id: u32,
    size_index: usize,
    cluster_total_indices: usize,
    tree_skills_per_orbit: usize,
) -> (r: usize)
    requires
        size_index < 3,
        cluster_total_indices > 0,
        base_idx + spec_orbit_offsets(proxy_node_id)[size_index as int] <= usize::MAX,
        translate_ok(
            (base_idx + spec_orbit_offsets(proxy_node_id)[size_index as int]) % (cluster_total_indices as int),
            cluster_total_indices as int,
            tree_skills_per_orbit as int,
        ),
    ensures
        r == spec_cluster_orbit_index(base_idx as int, proxy_node_id, size_index as int, cluster_total_indices as int, tree_skills_per_orbit as int),
{
    let offsets = get_orbit_offsets(proxy_node_id);
    let start_oidx = offsets[size_index];
    let corrected_idx = (base_idx + start_oidx) % cluster_total_indices;
    translate_cluster_orbit_index(corrected_idx, cluster_total_indices, tree_skills_per_orbit)
}

/// Whether `x` occurs in `v`.
pub fn ids_contain(v: &Vec<u32>, x: u32) -> (r: bool)
    ensures
        r == v@.contains(x),
{
    let mut i: usize = 0;
    while i < v.len()
        invariant
            i <= v.len(),
            forall|j: int| 0 <= j < i ==> v@[j] != x,
        decreases v.len() - i,
    {
        if v[i] == x {
            return true;
        }
        i += 1;
    }
    false
}

/// The player's passive tree: class, ascendancy and bloodline, the allocated nodes, and
/// the node table the allocation is made on, with the nodes that cluster jewels added.
pub struct PassiveTree {
    pub class: Class,
    pub ascendancy: Option<Ascendancy>,
    pub bloodline: Option<Ascendancy>,
    pub nodes: Vec<u32>,
    /// Nodes granted by "Allocates" modifiers.
    pub nodes_additional: Vec<u32>,
    /// The node table of this tree: the game's nodes, jewel sockets marked as proxies,
    /// cluster nodes added, tattoos applied.
    pub nodes_data: NodeMap,
    /// The nodes that cluster jewels added, each with the socket it belongs to.
    pub nodes_cluster: Vec<(u32, Node)>,
    /// The effect chosen for each allocated mastery.
    pub masteries: HashMap<u32, u32>,
    /// The tattoo applied to each node.
    pub tattoos: HashMap<u32, String>,
    /// The game's node table, as loaded.
    pub tree_nodes: NodeMap,
    /// The "Path of the ..." nodes of the game's tree.
    pub path_of_the: Vec<u32>,
    /// The number of node slots of each orbit of the game's tree.
    pub skills_per_orbit: Vec<u16>,
}

impl PassiveTree {
    /// The node table of this tree.
    pub open spec fn graph(&self) -> Map<u32, Node> {
        node_entries(self.nodes_data)
    }

    /// An in-link of a node is open to a path search when it is allocated, or when it is
    /// neither a "Path of the" node nor the start of an ascendancy other than this tree's.
    pub open spec fn in_link_open(&self, x: u32) -> bool {
        let m = self.graph();
        (!self.path_of_the@.contains(x) && (!m[x].is_ascendancy_start || m[x].ascendancy == self.ascendancy))
            || self.nodes@.contains(x)
    }

    /// An out-link of a node is open to a path search: from a "Path of the" node, when it
    /// is an unallocated ascendancy node; from others, when it is in the table and no
    /// mastery.
    pub open spec fn out_link_open(&self, from: u32, x: u32) -> bool {
        let m = self.graph();
        if self.path_of_the@.contains(from) {
            m[x].ascendancy is Some && !self.nodes@.contains(x)
        } else {
            m.contains_key(x) && !m[x].is_mastery
        }
    }

    /// The nodes a path search steps to from `id`: a class start only to itself; others
    /// to their open in-links, then their open out-links, in list order.
    pub open spec fn spec_successors(&self, id: u32) -> Seq<u32> {
        let node = self.graph()[id];
        if node.class_start_index is Some {
            seq![id]
        } else {
            link_ids(node.in_).filter(|x: u32| self.in_link_open(x))
                + link_ids(node.out).filter(|x: u32| self.out_link_open(id, x))
        }
    }

    /// The node `id` can be stepped from: it is in the table and, unless it is a class
    /// start, has both link lists, its in-links in the table, and, for a "Path of the"
    /// node, its out-links too.
    pub open spec fn steps_from(&self, id: u32) -> bool {
        let m = self.graph();
        &&& m.contains_key(id)
        &&& m[id].class_start_index is None ==> {
            &&& m[id].in_ is Some
            &&& m[id].out is Some
            &&& forall|j: int| 0 <= j < link_ids(m[id].in_).len() ==> m.contains_key(#[trigger] link_ids(m[id].in_)[j])
            &&& self.path_of_the@.contains(id) ==> forall|j: int| 0 <= j < link_ids(m[id].out).len()
                ==> m.contains_key(#[trigger] link_ids(m[id].out)[j])
        }
    }

    /// Every node of the table can be stepped from.
    pub open spec fn linked(&self) -> bool {
        forall|id: u32| self.graph().contains_key(id) ==> #[trigger] self.steps_from(id)
    }

    /// Whether the node table holds `id`.
    pub fn has_node(&self, id: u32) -> (r: bool)
        ensures
            r == self.graph().contains_key(id),
    {
        map_contains(&self.nodes_data, id)
    }

    /// Whether `id` is allocated.
    pub fn is_allocated(&self, id: u32) -> (r: bool)
        ensures
            r == self.nodes@.contains(id),
    {
        ids_contain(&self.nodes, id)
    }

    pub fn successors(&self, node_id: u32) -> (r: Vec<u32>)
        requires
            self.steps_from(node_id),
        ensures
            r@ == self.spec_successors(node_id),
    {
        let node = map_get(&self.nodes_data, node_id).unwrap();
        if node.class_start_index.is_some() {
            let mut v: Vec<u32> = Vec::new();
            v.push(node_id);
            assert(v@ =~= seq![node_id]);
            return v;
        }
        let ins = node.in_.as_ref().unwrap();
        let outs = node.out.as_ref().unwrap();
        let ghost pin = |x: u32| self.in_link_open(x);
        let ghost pout = |x: u32| self.out_link_open(node_id, x);
        let mut v: Vec<u32> = Vec::new();
        let mut i: usize = 0;
        while i < ins.len()
            invariant
                i <= ins.len(),
                node == self.graph()[node_id],
                ins@ == link_ids(node.in_),
                self.steps_from(node_id),
                node.class_start_index is None,
                pin == (|x: u32| self.in_link_open(x)),
                v@ == ins@.take(i as int).filter(pin),
            decreases ins.len() - i,
        {
            let x = ins[i];
            assert(self.graph().contains_key(link_ids(node.in_)[i as int]));
            let xn = map_get(&self.nodes_data, x).unwrap();
            let open = (!ids_contain(&self.path_of_the, x) && (!xn.is_ascendancy_start || xn.ascendancy == self.ascendancy))
                || ids_contain(&self.nodes, x);
            proof {
                reveal(Seq::filter);
                assert(ins@.take(i as int + 1).drop_last() =~= ins@.take(i as int));
            }
            if open {
                v.push(x);
            }
            i += 1;
        }
        assert(ins@.take(ins.len() as int) =~= ins@);
        let ghost n_in = v@.len();
        let is_pot = ids_contain(&self.path_of_the, node_id);
        let mut k: usize = 0;
        while k < outs.len()
            invariant
                k <= outs.len(),
                node == self.graph()[node_id],
                outs@ == link_ids(node.out),
                ins@ == link_ids(node.in_),
                self.steps_from(node_id),
                node.class_start_index is None,
                is_pot == self.path_of_the@.contains(node_id),
                pout == (|x: u32| self.out_link_open(node_id, x)),
                v@ == ins@.filter(pin) + outs@.take(k as int).filter(pout),
            decreases outs.len() - k,
        {
            let x = outs[k];
            let open = if is_pot {
                assert(self.graph().contains_key(link_ids(node.out)[k as int]));
                let xn = map_get(&self.nodes_data, x).unwrap();
                xn.ascendancy.is_some() && !ids_contain(&self.nodes, x)
            } else {
                match map_get(&self.nodes_data, x) {
                    Some(xn) => !xn.is_mastery,
                    None => false,
                }
            };
            proof {
                reveal(Seq::filter);
                assert(outs@.take(k as int + 1).drop_last() =~= outs@.take(k as int));
            }
            if open {
                v.push(x);
                assert(v@ =~= ins@.filter(pin) + outs@.take(k as int + 1).filter(pout));
            } else {
                assert(v@ =~= ins@.filter(pin) + outs@.take(k as int + 1).filter(pout));
            }
            k += 1;
        }
        assert(outs@.take(outs.len() as int) =~= outs@);
        v
    }
}

/// A walk in a graph given by its successor lists: one node at least, each next node
/// among the successors of the one before.
pub open spec fn is_walk(succ: spec_fn(u32) -> Seq<u32>, p: Seq<u32>) -> bool {
    &&& p.len() >= 1
    &&& forall|i: int| 0 <= i < p.len() - 1 ==> #[trigger] succ(p[i]).contains(p[i + 1])
}

/// `to` can be reached from `from` by a walk.
pub open spec fn reachable(succ: spec_fn(u32) -> Seq<u32>, from: u32, to: u32) -> bool {
    exists|p: Seq<u32>| is_walk(succ, p) && p[0] == from && #[trigger] p.last() == to
}

impl PassiveTree {
    /// The successor lists of a path search on this tree.
    pub open spec fn search_graph(&self) -> spec_fn(u32) -> Seq<u32> {
        |id: u32| self.spec_successors(id)
    }

    /// The successor lists of a path search, for the nodes of the table.
    pub open spec fn successor_table(&self) -> Map<u32, Seq<u32>> {
        Map::new(|k: u32| self.graph().contains_key(k), |k: u32| self.spec_successors(k))
    }

    /// `p` is a walk of a path search from `from` that ends on an allocated node.
    pub open spec fn links_up(&self, p: Seq<u32>, from: u32) -> bool {
        &&& is_walk(self.search_graph(), p)
        &&& p[0] == from
        &&& self.nodes@.contains(p.last())
    }

    /// Find the shortest path to link a node to the rest of the tree: a walk from `node`
    /// to an allocated node with as few nodes as any such walk; `None` when there is none.
    pub fn find_path(&self, node: u32) -> (r: Option<Vec<u32>>)
        requires
            self.linked(),
            self.graph().contains_key(node),
        ensures
            match r {
                Some(p) => self.links_up(p@, node) && forall|q: Seq<u32>| #[trigger] self.links_up(q, node) ==> p@.len() <= q.len(),
                None => forall|q: Seq<u32>| !#[trigger] self.links_up(q, node),
            },
            path_ids(r) == bfs_path(self.successor_table(), self.nodes@.to_set(), node),
    {
        bfs_to_allocated(self, node)
    }
}

/// What `pathfinding::directed::bfs::bfs` returns from `start` when the successors of a
/// node are listed by `succ` and the search stops on a node of `goal`.
pub uninterp spec fn bfs_path(succ: Map<u32, Seq<u32>>, goal: Set<u32>, start: u32) -> Option<Seq<u32>>;

/// The ids of an optional path.
pub open spec fn path_ids(r: Option<Vec<u32>>) -> Option<Seq<u32>> {
    match r {
        Some(p) => Some(p@),
        None => None,
    }
}

/// Calls `pathfinding::directed::bfs::bfs` from `start`, stepping with
/// `PassiveTree::successors` and stopping on an allocated node. Its documentation
/// promises a shortest path from the start up to a node that passes the test, both
/// included, or `None` when no path can be found.
#[verifier::external_body]
fn bfs_to_allocated(tree: &PassiveTree, start: u32) -> (r: Option<Vec<u32>>)
    requires
        tree.linked(),
        tree.graph().contains_key(start),
    ensures
        match r {
            Some(p) => tree.links_up(p@, start) && forall|q: Seq<u32>| #[trigger] tree.links_up(q, start) ==> p@.len() <= q.len(),
            None => forall|q: Seq<u32>| !#[trigger] tree.links_up(q, start),
        },
        path_ids(r) == bfs_path(tree.successor_table(), tree.nodes@.to_set(), start),
{
    pathfinding::prelude::bfs(&start, |p: &u32| tree.successors(*p), |p: &u32| tree.is_allocated(*p))
}

impl PassiveTree {
    /// Every allocated node is in the node table.
    pub open spec fn allocated_known(&self) -> bool {
        forall|i: int| 0 <= i < self.nodes@.len() ==> self.graph().contains_key(#[trigger] self.nodes@[i])
    }

    /// A node counts as a passive point when it belongs to no ascendancy and is no class
    /// start.
    pub open spec fn is_passive_point(&self, id: u32) -> bool {
        self.graph()[id].ascendancy is None && self.graph()[id].class_start_index is None
    }

    /// Adding a node to a list of nodes adds one passive point exactly when the node is
    /// in the main tree (no ascendancy) and is no class start; an ascendancy node or a class
    /// start adds none.
    pub proof fn law_passive_points_push(&self, s: Seq<u32>, id: u32)
        ensures
            s.push(id).filter(|x: u32| self.is_passive_point(x)).len() == s.filter(|x: u32| self.is_passive_point(x)).len()
                + if self.graph()[id].ascendancy is None && self.graph()[id].class_start_index is None { 1int } else { 0int },
    {
        let p = |x: u32| self.is_passive_point(x);
        reveal(Seq::filter);
        assert(s.push(id).drop_last() =~= s);
    }

    /// Passive points are main-tree nodes: there are never more of them among a list of
    /// nodes than nodes of the list that belong to no ascendancy, and a list of ascendancy
    /// nodes and class starts holds none.
    pub proof fn law_passive_points_main_tree(&self, s: Seq<u32>)
        ensures
            s.filter(|x: u32| self.is_passive_point(x)).len() <= s.filter(|x: u32| self.graph()[x].ascendancy is None).len(),
            (forall|i: int| 0 <= i < s.len() ==> self.graph()[#[trigger] s[i]].ascendancy is Some
                || self.graph()[s[i]].class_start_index is Some)
                ==> s.filter(|x: u32| self.is_passive_point(x)).len() == 0,
        decreases s.len(),
    {
        reveal(Seq::filter);
        if s.len() > 0 {
            let t = s.drop_last();
            assert(t.push(s.last()) =~= s);
            self.law_passive_points_main_tree(t);
            self.law_passive_points_push(t, s.last());
            assert((forall|i: int| 0 <= i < s.len() ==> self.graph()[#[trigger] s[i]].ascendancy is Some
                || self.graph()[s[i]].class_start_index is Some) ==> (forall|i: int| 0 <= i < t.len() ==> self.graph()[#[trigger] t[i]].ascendancy is Some
                || self.graph()[t[i]].class_start_index is Some)) by {
                assert forall|i: int| 0 <= i < t.len() implies t[i] == s[i] by {}
            }
        }
    }

    /// The number of allocated nodes that count as passive points.
    pub fn passives_count(&self) -> (r: usize)
        requires
            self.allocated_known(),
        ensures
            r == self.nodes@.filter(|id: u32| self.is_passive_point(id)).len(),
    {
        let ghost pred = |id: u32| self.is_passive_point(id);
        let mut count: usize = 0;
        let mut i: usize = 0;
        while i < self.nodes.len()
            invariant
                i <= self.nodes.len(),
                self.allocated_known(),
                pred == (|id: u32| self.is_passive_point(id)),
                count == self.nodes@.take(i as int).filter(pred).len(),
            decreases self.nodes.len() - i,
        {
            let n = map_get(&self.nodes_data, self.nodes[i]).unwrap();
            proof {
                reveal(Seq::filter);
                assert(self.nodes@.take(i as int + 1).drop_last() =~= self.nodes@.take(i as int));
                self.nodes@.take(i as int).lemma_filter_len(pred);
            }
            if n.ascendancy.is_none() && n.class_start_index.is_none() {
                count += 1;
            }
            i += 1;
        }
        assert(self.nodes@.take(self.nodes.len() as int) =~= self.nodes@);
        count
    }

    /// The allocated jewel sockets, in allocation order.
    pub fn jewel_slots(&self) -> (r: Vec<u32>)
        requires
            self.allocated_known(),
        ensures
            r@ == self.nodes@.filter(|id: u32| self.graph()[id].node_type_spec() == NodeType::JewelSocket),
    {
        let ghost pred = |id: u32| self.graph()[id].node_type_spec() == NodeType::JewelSocket;
        let mut v: Vec<u32> = Vec::new();
        let mut i: usize = 0;
        while i < self.nodes.len()
            invariant
                i <= self.nodes.len(),
                self.allocated_known(),
                pred == (|id: u32| self.graph()[id].node_type_spec() == NodeType::JewelSocket),
                v@ == self.nodes@.take(i as int).filter(pred),
            decreases self.nodes.len() - i,
        {
            let id = self.nodes[i];
            let n = map_get(&self.nodes_data, id).unwrap();
            proof {
                reveal(Seq::filter);
                assert(self.nodes@.take(i as int + 1).drop_last() =~= self.nodes@.take(i as int));
            }
            if n.node_type() == NodeType::JewelSocket {
                v.push(id);
            }
            i += 1;
        }
        assert(self.nodes@.take(self.nodes.len() as int) =~= self.nodes@);
        v
    }
}

/// The nodes a search for connected allocated nodes steps to from `id`: its out-links,
/// then, unless it is a mastery, its in-links, each kept when it is among `remaining`.
pub open spec fn spec_successors_allocated(m: Map<u32, Node>, remaining: Seq<u32>, id: u32) -> Seq<u32> {
    let outs = link_ids(m[id].out).filter(|x: u32| remaining.contains(x));
    if m[id].is_mastery {
        outs
    } else {
        outs + link_ids(m[id].in_).filter(|x: u32| remaining.contains(x))
    }
}

/// The node `id` can be stepped from in that search: it is in the table, with out-links,
/// and with in-links unless it is a mastery.
pub open spec fn steps_allocated(m: Map<u32, Node>, id: u32) -> bool {
    &&& m.contains_key(id)
    &&& m[id].out is Some
    &&& !m[id].is_mastery ==> m[id].in_ is Some
}

/// An element kept by a filter is an element of the sequence.
proof fn lemma_filter_kept(s: Seq<u32>, pred: spec_fn(u32) -> bool, i: int)
    requires
        0 <= i < s.filter(pred).len(),
    ensures
        s.contains(s.filter(pred)[i]),
    decreases s.len(),
{
    reveal(Seq::filter);
    if s.len() > 0 {
        let t = s.drop_last();
        if pred(s.last()) && i == s.filter(pred).len() - 1 {
            assert(s.filter(pred)[i] == s[s.len() - 1]);
        } else {
            assert(s.filter(pred)[i] == t.filter(pred)[i]);
            lemma_filter_kept(t, pred, i);
            let j = choose|j: int| 0 <= j < t.len() && t[j] == t.filter(pred)[i];
            assert(s[j] == t[j]);
        }
    }
}

/// Whether `x` occurs in one of the groups.
pub open spec fn in_groups(groups: Seq<Vec<u32>>, x: u32) -> bool {
    exists|i: int, j: int| 0 <= i < groups.len() && 0 <= j < groups[i]@.len() && #[trigger] groups[i]@[j] == x
}

proof fn lemma_concat_contains(a: Seq<u32>, b: Seq<u32>, x: u32)
    ensures
        (a + b).contains(x) <==> a.contains(x) || b.contains(x),
{
    if (a + b).contains(x) {
        let k = choose|k: int| 0 <= k < (a + b).len() && (a + b)[k] == x;
        if k < a.len() {
            assert(a[k] == x);
        } else {
            assert(b[k - a.len()] == x);
        }
    }
    if a.contains(x) {
        let k = choose|k: int| 0 <= k < a.len() && a[k] == x;
        assert((a + b)[k] == x);
    }
    if b.contains(x) {
        let k = choose|k: int| 0 <= k < b.len() && b[k] == x;
        assert((a + b)[a.len() + k] == x);
    }
}

/// Appends every id of every group to `col`.
fn append_groups(col: &mut Vec<u32>, groups: &Vec<Vec<u32>>)
    ensures
        forall|x: u32| #[trigger] final(col)@.contains(x) <==> old(col)@.contains(x) || in_groups(groups@, x),
{
    let mut i: usize = 0;
    while i < groups.len()
        invariant
            i <= groups.len(),
            forall|x: u32| #[trigger] col@.contains(x) <==> old(col)@.contains(x) || in_groups(groups@.take(i as int), x),
        decreases groups.len() - i,
    {
        let g = &groups[i];
        let ghost before = col@;
        let mut j: usize = 0;
        while j < g.len()
            invariant
                j <= g.len(),
                col@ == before + g@.take(j as int),
            decreases g.len() - j,
        {
            col.push(g[j]);
            assert(g@.take(j as int + 1) =~= g@.take(j as int).push(g@[j as int]));
            assert(col@ =~= before + g@.take(j as int + 1));
            j += 1;
        }
        proof {
            assert(g@.take(g@.len() as int) =~= g@);
            assert forall|x: u32| #[trigger] col@.contains(x) <==> old(col)@.contains(x) || in_groups(groups@.take(i as int + 1), x) by {
                lemma_concat_contains(before, g@, x);
                let gs = groups@.take(i as int + 1);
                if in_groups(gs, x) {
                    let (a, b) = choose|a: int, b: int| 0 <= a < gs.len() && 0 <= b < gs[a]@.len() && #[trigger] gs[a]@[b] == x;
                    if a < i {
                        assert(groups@.take(i as int)[a]@[b] == x);
                    } else {
                        assert(g@[b] == x);
                    }
                }
                if in_groups(groups@.take(i as int), x) {
                    let (a, b) = choose|a: int, b: int| 0 <= a < groups@.take(i as int).len() && 0 <= b < groups@.take(i as int)[a]@.len() && #[trigger] groups@.take(i as int)[a]@[b] == x;
                    assert(gs[a]@[b] == x);
                }
                if g@.contains(x) {
                    let b = choose|b: int| 0 <= b < g@.len() && g@[b] == x;
                    assert(gs[i as int]@[b] == x);
                }
            }
        }
        i += 1;
    }
    assert(groups@.take(groups.len() as int) =~= groups@);
}

/// `s` without the occurrences of `v`, in order.
pub open spec fn without(s: Seq<u32>, v: u32) -> Seq<u32>
    decreases s.len(),
{
    if s.len() == 0 {
        s
    } else if s.last() == v {
        without(s.drop_last(), v)
    } else {
        without(s.drop_last(), v).push(s.last())
    }
}

proof fn lemma_push_contains(t: Seq<u32>, a: u32, x: u32)
    ensures
        t.push(a).contains(x) <==> t.contains(x) || a == x,
{
    if t.push(a).contains(x) {
        let k = choose|k: int| 0 <= k < t.push(a).len() && t.push(a)[k] == x;
        if k < t.len() {
            assert(t[k] == x);
        }
    }
    if t.contains(x) {
        let k = choose|k: int| 0 <= k < t.len() && t[k] == x;
        assert(t.push(a)[k] == x);
    }
    if a == x {
        assert(t.push(a)[t.len() as int] == x);
    }
}

proof fn lemma_without_contains(s: Seq<u32>, v: u32, x: u32)
    ensures
        without(s, v).contains(x) <==> s.contains(x) && x != v,
    decreases s.len(),
{
    if s.len() > 0 {
        let dl = s.drop_last();
        lemma_without_contains(dl, v, x);
        assert(s =~= dl.push(s.last()));
        lemma_push_contains(dl, s.last(), x);
        if s.last() != v {
            lemma_push_contains(without(dl, v), s.last(), x);
        }
    }
}

/// Whether no start reaches `x`, as a test on ids.
pub open spec fn cut_off(succ: spec_fn(u32) -> Seq<u32>, starts: Seq<u32>) -> spec_fn(u32) -> bool {
    |x: u32| !exists|k: int| 0 <= k < starts.len() && reachable(succ, #[trigger] starts[k], x)
}

/// The search for the allocated nodes that stay connected to a start node once a node is
/// deallocated.
struct FindDisconnectedNodes<'a> {
    nodes_search_remove: Vec<u32>,
    start_nodes: Vec<u32>,
    nodes_data: &'a NodeMap,
}

impl<'a> FindDisconnectedNodes<'a> {
    spec fn succ(&self) -> spec_fn(u32) -> Seq<u32> {
        |id: u32| spec_successors_allocated(node_entries(*self.nodes_data), self.nodes_search_remove@, id)
    }

    /// Every node the search may reach or start from can be stepped from.
    spec fn walkable(&self) -> bool {
        &&& forall|i: int| 0 <= i < self.nodes_search_remove@.len()
            ==> steps_allocated(node_entries(*self.nodes_data), #[trigger] self.nodes_search_remove@[i])
        &&& forall|i: int| 0 <= i < self.start_nodes@.len()
            ==> steps_allocated(node_entries(*self.nodes_data), #[trigger] self.start_nodes@[i])
    }

    fn successors_allocated(&self, node: u32) -> (r: Vec<u32>)
        requires
            steps_allocated(node_entries(*self.nodes_data), node),
        ensures
            r@ == spec_successors_allocated(node_entries(*self.nodes_data), self.nodes_search_remove@, node),
    {
        let ghost m = node_entries(*self.nodes_data);
        let ghost pred = |x: u32| self.nodes_search_remove@.contains(x);
        let n = map_get(self.nodes_data, node).unwrap();
        let outs = n.out.as_ref().unwrap();
        let mut v: Vec<u32> = Vec::new();
        let mut i: usize = 0;
        while i < outs.len()
            invariant
                i <= outs.len(),
                outs@ == link_ids(m[node].out),
                pred == (|x: u32| self.nodes_search_remove@.contains(x)),
                v@ == outs@.take(i as int).filter(pred),
            decreases outs.len() - i,
        {
            let x = outs[i];
            proof {
                reveal(Seq::filter);
                assert(outs@.take(i as int + 1).drop_last() =~= outs@.take(i as int));
            }
            if ids_contain(&self.nodes_search_remove, x) {
                v.push(x);
            }
            i += 1;
        }
        assert(outs@.take(outs.len() as int) =~= outs@);
        if !n.is_mastery {
            let ins = n.in_.as_ref().unwrap();
            let ghost first = v@;
            let mut k: usize = 0;
            while k < ins.len()
                invariant
                    k <= ins.len(),
                    ins@ == link_ids(m[node].in_),
                    pred == (|x: u32| self.nodes_search_remove@.contains(x)),
                    v@ == first + ins@.take(k as int).filter(pred),
                decreases ins.len() - k,
            {
                let x = ins[k];
                proof {
                    reveal(Seq::filter);
                    assert(ins@.take(k as int + 1).drop_last() =~= ins@.take(k as int));
                }
                if ids_contain(&self.nodes_search_remove, x) {
                    v.push(x);
                    assert(v@ =~= first + ins@.take(k as int + 1).filter(pred));
                }
                k += 1;
            }
            assert(ins@.take(ins.len() as int) =~= ins@);
        }
        v
    }

    /// The searched nodes that no start node reaches.
    fn find_nodes_remove(&self) -> (r: Vec<u32>)
        requires
            self.walkable(),
        ensures
            r@ == self.nodes_search_remove@.filter(cut_off(self.succ(), self.start_nodes@)),
    {
        let ghost reached = |x: u32| exists|k: int| 0 <= k < self.start_nodes@.len() && reachable(self.succ(), #[trigger] self.start_nodes@[k], x);
        let mut col: Vec<u32> = Vec::new();
        let mut s: usize = 0;
        while s < self.start_nodes.len()
            invariant
                s <= self.start_nodes.len(),
                self.walkable(),
                forall|x: u32| #[trigger] col@.contains(x) <==> exists|k: int| 0 <= k < s && reachable(self.succ(), #[trigger] self.start_nodes@[k], x),
            decreases self.start_nodes.len() - s,
        {
            let start = self.start_nodes[s];
            let groups = reachable_groups(self, start);
            let ghost before = col@;
            append_groups(&mut col, &groups);
            proof {
                assert forall|x: u32| #[trigger] col@.contains(x) <==> exists|k: int| 0 <= k < s + 1 && reachable(self.succ(), #[trigger] self.start_nodes@[k], x) by {
                    if exists|k: int| 0 <= k < s + 1 && reachable(self.succ(), #[trigger] self.start_nodes@[k], x) {
                        let k = choose|k: int| 0 <= k < s + 1 && reachable(self.succ(), #[trigger] self.start_nodes@[k], x);
                        if k < s {
                            assert(before.contains(x));
                        } else {
                            assert(in_groups(groups@, x));
                        }
                    }
                    if in_groups(groups@, x) {
                        assert(reachable(self.succ(), self.start_nodes@[s as int], x));
                    }
                }
            }
            s += 1;
        }
        let mut ret: Vec<u32> = Vec::new();
        let mut i: usize = 0;
        while i < self.nodes_search_remove.len()
            invariant
                i <= self.nodes_search_remove.len(),
                forall|x: u32| #[trigger] col@.contains(x) <==> reached(x),
                reached == (|x: u32| exists|k: int| 0 <= k < self.start_nodes@.len() && reachable(self.succ(), #[trigger] self.start_nodes@[k], x)),
                ret@ == self.nodes_search_remove@.take(i as int).filter(|x: u32| !reached(x)),
            decreases self.nodes_search_remove.len() - i,
        {
            let x = self.nodes_search_remove[i];
            proof {
                reveal(Seq::filter);
                assert(self.nodes_search_remove@.take(i as int + 1).drop_last() =~= self.nodes_search_remove@.take(i as int));
            }
            if !ids_contain(&col, x) {
                ret.push(x);
            }
            i += 1;
        }
        assert(self.nodes_search_remove@.take(self.nodes_search_remove.len() as int) =~= self.nodes_search_remove@);
        assert((|x: u32| !reached(x)) =~= cut_off(self.succ(), self.start_nodes@));
        ret
    }
}

/// Calls `pathfinding::directed::strongly_connected_components::strongly_connected_components_from`
/// from `start`, stepping with `FindDisconnectedNodes::successors_allocated`. Its
/// documentation: it partitions the nodes reachable from the start into strongly connected
/// components. What is stated here is that the ids of the groups are exactly the reachable
/// nodes; how they are grouped and ordered is left unsaid.
#[verifier::external_body]
fn reachable_groups(fdn: &FindDisconnectedNodes, start: u32) -> (r: Vec<Vec<u32>>)
    requires
        fdn.walkable(),
        steps_allocated(node_entries(*fdn.nodes_data), start),
    ensures
        forall|x: u32| #[trigger] in_groups(r@, x) <==> reachable(fdn.succ(), start, x),
{
    pathfinding::directed::strongly_connected_components::strongly_connected_components_from(
        &start,
        |p: &u32| fdn.successors_allocated(*p),
    )
}

/// What makes a node of the game's tree the start of something.
#[derive(Clone, Copy, PartialEq, Eq, Structural, Debug)]
pub enum StartKind {
    /// The start of a class.
    Class(Class),
    /// The start of an ascendancy.
    Ascendancy(Ascendancy),
    /// The start of a bloodline.
    Bloodline(Ascendancy),
}

/// A node is the start of `kind`: a class start carries the class's index; an ascendancy
/// start is marked so and belongs to the ascendancy; a bloodline start is moreover marked
/// as a bloodline.
pub open spec fn is_start(n: Node, kind: StartKind) -> bool {
    match kind {
        StartKind::Class(c) => n.class_start_index == Some(c.spec_index() as i32),
        StartKind::Ascendancy(a) => n.is_ascendancy_start && n.ascendancy == Some(a),
        StartKind::Bloodline(a) => n.is_ascendancy_start && n.is_bloodline && n.ascendancy == Some(a),
    }
}

/// `id` is the skill of a start node of `kind` in the table.
pub open spec fn is_start_skill(m: Map<u32, Node>, kind: StartKind, id: u32) -> bool {
    exists|k: u32| m.contains_key(k) && #[trigger] is_start(m[k], kind) && m[k].skill == id
}

/// The table has a start node of `kind`.
pub open spec fn has_start(m: Map<u32, Node>, kind: StartKind) -> bool {
    exists|k: u32| m.contains_key(k) && #[trigger] is_start(m[k], kind)
}

/// The skill of a start node of `kind`, searched in the table's order.
fn find_start(m: &NodeMap, kind: StartKind) -> (r: u32)
    requires
        has_start(node_entries(*m), kind),
    ensures
        is_start_skill(node_entries(*m), kind, r),
{
    let keys = map_keys(m);
    let mut i: usize = 0;
    while i < keys.len()
        invariant
            i <= keys.len(),
            has_start(node_entries(*m), kind),
            forall|id: u32| keys@.contains(id) <==> node_entries(*m).contains_key(id),
            forall|j: int| 0 <= j < i ==> !is_start(node_entries(*m)[#[trigger] keys@[j]], kind),
        decreases keys.len() - i,
    {
        let k = keys[i];
        assert(keys@.contains(k));
        let n = map_get(m, k).unwrap();
        let found = match kind {
            StartKind::Class(c) => n.class_start_index == Some(c.as_index()),
            StartKind::Ascendancy(a) => n.is_ascendancy_start && n.ascendancy == Some(a),
            StartKind::Bloodline(a) => n.is_ascendancy_start && n.is_bloodline && n.ascendancy == Some(a),
        };
        if found {
            assert(is_start(node_entries(*m)[k], kind));
            return n.skill;
        }
        i += 1;
    }
    proof {
        let k = choose|k: u32| node_entries(*m).contains_key(k) && #[trigger] is_start(node_entries(*m)[k], kind);
        assert(keys@.contains(k));
        let j = choose|j: int| 0 <= j < keys@.len() && keys@[j] == k;
        assert(!is_start(node_entries(*m)[keys@[j]], kind));
    }
    0
}

impl PassiveTree {
    /// The table's own nodes can be stepped from, by both searches, and every allocated
    /// node is in it.
    pub open spec fn wf(&self) -> bool {
        &&& self.linked()
        &&& forall|id: u32| self.graph().contains_key(id) ==> #[trigger] steps_allocated(self.graph(), id)
        &&& self.allocated_known()
    }

    /// The start nodes that keep allocated nodes connected: one start of this tree's
    /// class and, with a bloodline, one start of the bloodline, found in the game's tree;
    /// both in this tree's table.
    pub open spec fn anchors_ok(&self, starts: Seq<u32>) -> bool {
        let tree = node_entries(self.tree_nodes);
        &&& starts.len() == if self.bloodline is Some { 2int } else { 1int }
        &&& is_start_skill(tree, StartKind::Class(self.class), starts[0])
        &&& self.bloodline matches Some(b) ==> is_start_skill(tree, StartKind::Bloodline(b), starts[1])
        &&& forall|i: int| 0 <= i < starts.len() ==> self.graph().contains_key(#[trigger] starts[i])
    }

    /// The game's tree has the starts this tree anchors on, and they are in its table.
    pub open spec fn anchors_exist(&self) -> bool {
        &&& self.start_known(StartKind::Class(self.class))
        &&& self.bloodline matches Some(b) ==> self.start_known(StartKind::Bloodline(b))
    }

    /// The game's tree has a start of `kind`, and each such start is in this tree's table.
    pub open spec fn start_known(&self, kind: StartKind) -> bool {
        &&& has_start(node_entries(self.tree_nodes), kind)
        &&& forall|id: u32| is_start_skill(node_entries(self.tree_nodes), kind, id) ==> #[trigger] self.graph().contains_key(id)
    }

    proof fn lemma_start_same_tables(a: PassiveTree, b: PassiveTree, kind: StartKind)
        requires
            a.start_known(kind),
            a.tree_nodes == b.tree_nodes,
            a.nodes_data == b.nodes_data,
        ensures
            b.start_known(kind),
    {
        assert forall|id: u32| is_start_skill(node_entries(b.tree_nodes), kind, id) implies #[trigger] b.graph().contains_key(id) by {
            assert(a.graph().contains_key(id));
        }
    }

    /// The starts of `a` that `b`, on the same tables, anchors on or owns are known to `b`.
    proof fn lemma_starts_carry(a: PassiveTree, b: PassiveTree)
        requires
            a.tree_nodes == b.tree_nodes,
            a.nodes_data == b.nodes_data,
            a.start_known(StartKind::Class(b.class)),
            b.ascendancy matches Some(x) ==> a.start_known(StartKind::Ascendancy(x)),
            b.bloodline matches Some(x) ==> a.start_known(StartKind::Bloodline(x)),
        ensures
            b.own_starts_known(),
            b.anchors_exist(),
    {
        Self::lemma_start_same_tables(a, b, StartKind::Class(b.class));
        if let Some(x) = b.ascendancy {
            Self::lemma_start_same_tables(a, b, StartKind::Ascendancy(x));
        }
        if let Some(x) = b.bloodline {
            Self::lemma_start_same_tables(a, b, StartKind::Bloodline(x));
        }
    }

    /// The successor lists of the search for nodes that stay connected once `node` is
    /// deallocated.
    pub open spec fn removal_graph(&self, node: u32) -> spec_fn(u32) -> Seq<u32> {
        |id: u32| spec_successors_allocated(self.graph(), without(self.nodes@, node), id)
    }

    /// The search for what stays connected once `node` is deallocated follows links both
    /// ways: from a node it reaches, it reaches every node still allocated that the node
    /// links out to, and, unless the node is a mastery, every one that links in to it.
    pub proof fn law_removal_follows_links(&self, node: u32, start: u32, y: u32, x: u32)
        requires
            reachable(self.removal_graph(node), start, y),
            without(self.nodes@, node).contains(x),
            link_ids(self.graph()[y].out).contains(x)
                || (!self.graph()[y].is_mastery && link_ids(self.graph()[y].in_).contains(x)),
        ensures
            reachable(self.removal_graph(node), start, x),
    {
        let g = self.removal_graph(node);
        let rem = without(self.nodes@, node);
        let p = choose|p: Seq<u32>| is_walk(g, p) && p[0] == start && #[trigger] p.last() == y;
        let outs = link_ids(self.graph()[y].out).filter(|z: u32| rem.contains(z));
        let ins = link_ids(self.graph()[y].in_).filter(|z: u32| rem.contains(z));
        if link_ids(self.graph()[y].out).contains(x) {
            let i = choose|i: int| 0 <= i < link_ids(self.graph()[y].out).len() && link_ids(self.graph()[y].out)[i] == x;
            link_ids(self.graph()[y].out).lemma_filter_contains(|z: u32| rem.contains(z), i);
            assert(outs.contains(x));
            if !self.graph()[y].is_mastery {
                assert((outs + ins)[outs.index_of(x)] == x);
            }
        } else {
            let i = choose|i: int| 0 <= i < link_ids(self.graph()[y].in_).len() && link_ids(self.graph()[y].in_)[i] == x;
            link_ids(self.graph()[y].in_).lemma_filter_contains(|z: u32| rem.contains(z), i);
            assert(ins.contains(x));
            assert((outs + ins)[outs.len() + ins.index_of(x)] == x);
        }
        assert(g(y).contains(x));
        let q = p.push(x);
        assert forall|i: int| 0 <= i < q.len() - 1 implies #[trigger] g(q[i]).contains(q[i + 1]) by {
            if i < p.len() - 1 {
                assert(q[i] == p[i] && q[i + 1] == p[i + 1]);
            } else {
                assert(q[i] == y);
            }
        }
        assert(is_walk(g, q) && q[0] == start && q.last() == x);
    }

    /// The search for what stays connected once `node` is deallocated steps only along
    /// links, to nodes still allocated: out of any node, and into a node that is no mastery
    /// (a mastery is never left through its in-links).
    pub proof fn law_removal_steps_along_links(&self, node: u32, y: u32, z: u32)
        requires
            self.removal_graph(node)(y).contains(z),
        ensures
            without(self.nodes@, node).contains(z),
            link_ids(self.graph()[y].out).contains(z)
                || (!self.graph()[y].is_mastery && link_ids(self.graph()[y].in_).contains(z)),
    {
        let rem = without(self.nodes@, node);
        let pr = |w: u32| rem.contains(w);
        let outs = link_ids(self.graph()[y].out).filter(pr);
        let ins = link_ids(self.graph()[y].in_).filter(pr);
        let succ = self.removal_graph(node)(y);
        let i = choose|i: int| 0 <= i < succ.len() && succ[i] == z;
        if i < outs.len() {
            assert(outs[i] == z);
            link_ids(self.graph()[y].out).lemma_filter_pred(pr, i);
            lemma_filter_kept(link_ids(self.graph()[y].out), pr, i);
        } else {
            assert(!self.graph()[y].is_mastery);
            assert(ins[i - outs.len()] == z);
            link_ids(self.graph()[y].in_).lemma_filter_pred(pr, i - outs.len());
            lemma_filter_kept(link_ids(self.graph()[y].in_), pr, i - outs.len());
        }
    }

    /// A node still allocated and linked (either way, through a node that is no mastery
    /// when the link comes in) to a node that stays connected to an anchor is never taken
    /// off with `node`.
    pub proof fn law_removal_keeps_linked_nodes(&self, node: u32, starts: Seq<u32>, y: u32, x: u32)
        requires
            !cut_off(self.removal_graph(node), starts)(y),
            without(self.nodes@, node).contains(x),
            x != node,
            link_ids(self.graph()[y].out).contains(x)
                || (!self.graph()[y].is_mastery && link_ids(self.graph()[y].in_).contains(x)),
        ensures
            !self.spec_path_remove(node, starts).contains(x),
    {
        let g = self.removal_graph(node);
        let k = choose|k: int| 0 <= k < starts.len() && reachable(g, #[trigger] starts[k], y);
        self.law_removal_follows_links(node, starts[k], y, x);
        assert(!cut_off(g, starts)(x));
        let f = without(self.nodes@, node).filter(cut_off(g, starts));
        if f.contains(x) {
            let i = choose|i: int| 0 <= i < f.len() && f[i] == x;
            without(self.nodes@, node).lemma_filter_pred(cut_off(g, starts), i);
        }
        assert(!f.push(node).contains(x)) by {
            if f.push(node).contains(x) {
                let i = choose|i: int| 0 <= i < f.push(node).len() && f.push(node)[i] == x;
                if i < f.len() {
                    assert(f[i] == x);
                }
            }
        }
    }

    /// The nodes to deallocate with `node`: the other allocated nodes that no anchor
    /// reaches once `node` is gone, in allocation order, then `node`.
    pub open spec fn spec_path_remove(&self, node: u32, starts: Seq<u32>) -> Seq<u32> {
        without(self.nodes@, node).filter(cut_off(self.removal_graph(node), starts)).push(node)
    }

    /// Find a group of nodes to remove when a single node gets deallocated.
    pub fn find_path_remove(&self, node: u32) -> (r: Vec<u32>)
        requires
            self.wf(),
            self.anchors_exist(),
        ensures
            exists|starts: Seq<u32>| self.anchors_ok(starts) && r@ == self.spec_path_remove(node, starts),
    {
        let mut nodes: Vec<u32> = Vec::new();
        let mut i: usize = 0;
        while i < self.nodes.len()
            invariant
                i <= self.nodes.len(),
                nodes@ == without(self.nodes@.take(i as int), node),
            decreases self.nodes.len() - i,
        {
            assert(self.nodes@.take(i as int + 1).drop_last() =~= self.nodes@.take(i as int));
            if self.nodes[i] != node {
                nodes.push(self.nodes[i]);
            }
            i += 1;
        }
        assert(self.nodes@.take(self.nodes.len() as int) =~= self.nodes@);
        let mut start_nodes: Vec<u32> = Vec::new();
        let class_node = find_start(&self.tree_nodes, StartKind::Class(self.class));
        start_nodes.push(class_node);
        if let Some(bloodline) = self.bloodline {
            let b = find_start(&self.tree_nodes, StartKind::Bloodline(bloodline));
            start_nodes.push(b);
        }
        proof {
            assert forall|j: int| 0 <= j < nodes@.len() implies steps_allocated(self.graph(), #[trigger] nodes@[j]) by {
                assert(nodes@.contains(nodes@[j]));
                lemma_without_contains(self.nodes@, node, nodes@[j]);
                let k = choose|k: int| 0 <= k < self.nodes@.len() && self.nodes@[k] == nodes@[j];
                assert(self.graph().contains_key(self.nodes@[k]));
            }
            assert forall|j: int| 0 <= j < start_nodes@.len() implies steps_allocated(self.graph(), #[trigger] start_nodes@[j]) by {
                assert(self.graph().contains_key(start_nodes@[j]));
            }
        }
        let fdn = FindDisconnectedNodes { nodes_search_remove: nodes, start_nodes, nodes_data: &self.nodes_data };
        let mut to_remove = fdn.find_nodes_remove();
        to_remove.push(node);
        proof {
            let starts = fdn.start_nodes@;
            assert(self.anchors_ok(starts));
            assert(fdn.succ() =~= self.removal_graph(node));
        }
        to_remove
    }
}

/// The test "not among `gone`".
pub open spec fn outside(gone: Seq<u32>) -> spec_fn(u32) -> bool {
    |x: u32| !gone.contains(x)
}

/// The ids among `ids` that are masteries in the table.
pub open spec fn mastery_keys(m: Map<u32, Node>, ids: Seq<u32>) -> Set<u32> {
    Set::new(|k: u32| ids.contains(k) && m.contains_key(k) && m[k].is_mastery)
}

impl PassiveTree {
    proof fn lemma_successor_known(&self, id: u32, x: u32)
        requires
            self.steps_from(id),
            self.spec_successors(id).contains(x),
        ensures
            self.graph().contains_key(x),
    {
        let m = self.graph();
        let node = m[id];
        if node.class_start_index is None {
            let pin = |y: u32| self.in_link_open(y);
            let pout = |y: u32| self.out_link_open(id, y);
            let ins = link_ids(node.in_).filter(pin);
            let outs = link_ids(node.out).filter(pout);
            lemma_concat_contains(ins, outs, x);
            if ins.contains(x) {
                link_ids(node.in_).lemma_filter_contains_rev(pin, x);
                let k = choose|k: int| 0 <= k < link_ids(node.in_).len() && link_ids(node.in_)[k] == x;
                assert(m.contains_key(link_ids(node.in_)[k]));
            } else {
                let k = choose|k: int| 0 <= k < outs.len() && outs[k] == x;
                link_ids(node.out).lemma_filter_pred(pout, k);
                if self.path_of_the@.contains(id) {
                    link_ids(node.out).lemma_filter_contains_rev(pout, x);
                    let j = choose|j: int| 0 <= j < link_ids(node.out).len() && link_ids(node.out)[j] == x;
                    assert(m.contains_key(link_ids(node.out)[j]));
                }
            }
        }
    }

    proof fn lemma_wf_same_table(a: PassiveTree, b: PassiveTree)
        requires
            a.wf(),
            a.nodes_data == b.nodes_data,
            a.path_of_the == b.path_of_the,
            b.allocated_known(),
        ensures
            b.wf(),
    {
        assert forall|id: u32| b.graph().contains_key(id) implies #[trigger] b.steps_from(id) by {
            assert(a.steps_from(id));
        }
    }

    proof fn lemma_walk_known(&self, p: Seq<u32>, i: int)
        requires
            self.linked(),
            is_walk(self.search_graph(), p),
            self.graph().contains_key(p[0]),
            0 <= i < p.len(),
        ensures
            self.graph().contains_key(p[i]),
        decreases i,
    {
        if i > 0 {
            self.lemma_walk_known(p, i - 1);
            assert(self.search_graph()(p[i - 1]).contains(p[i - 1 + 1]));
            assert(self.steps_from(p[i - 1]));
            self.lemma_successor_known(p[i - 1], p[i]);
        }
    }

    /// Flip a node status (allocated <-> non-allocated). Deallocating a node deallocates
    /// with it the nodes no anchor reaches any more, and forgets the effects of the
    /// masteries among them; allocating a node allocates the nodes of a shortest path
    /// linking it to the allocated nodes, or nothing when there is none.
    pub fn flip_node(&mut self, node: u32)
        requires
            old(self).wf(),
            old(self).anchors_exist(),
            old(self).graph().contains_key(node),
        ensures
            final(self).class == old(self).class,
            final(self).ascendancy == old(self).ascendancy,
            final(self).bloodline == old(self).bloodline,
            final(self).nodes_additional == old(self).nodes_additional,
            final(self).nodes_data == old(self).nodes_data,
            final(self).nodes_cluster == old(self).nodes_cluster,
            final(self).tattoos == old(self).tattoos,
            final(self).tree_nodes == old(self).tree_nodes,
            final(self).path_of_the == old(self).path_of_the,
            final(self).wf(),
            old(self).nodes@.contains(node) ==> exists|starts: Seq<u32>| #[trigger] old(self).anchors_ok(starts) && {
                let gone = old(self).spec_path_remove(node, starts);
                &&& final(self).nodes@ == old(self).nodes@.filter(outside(gone))
                &&& final(self).masteries@ == old(self).masteries@.remove_keys(mastery_keys(old(self).graph(), gone))
            },
            !old(self).nodes@.contains(node) ==> final(self).masteries@ == old(self).masteries@,
            !old(self).nodes@.contains(node) ==> {
                ||| exists|p: Seq<u32>| {
                    &&& #[trigger] old(self).links_up(p, node)
                    &&& forall|q: Seq<u32>| #[trigger] old(self).links_up(q, node) ==> p.len() <= q.len()
                    &&& final(self).nodes@ == old(self).nodes@ + p.drop_last()
                }
                ||| {
                    &&& forall|q: Seq<u32>| !#[trigger] old(self).links_up(q, node)
                    &&& final(self).nodes@ == old(self).nodes@
                }
            },
            !old(self).nodes@.contains(node) ==> final(self).nodes@ == old(self).nodes@
                + match bfs_path(old(self).successor_table(), old(self).nodes@.to_set(), node) {
                    Some(p) => p.drop_last(),
                    None => Seq::empty(),
                },
    {
        broadcast use vstd::std_specs::hash::group_hash_axioms;
        if self.is_allocated(node) {
            let to_remove = self.find_path_remove(node);
            let ghost starts = choose|starts: Seq<u32>| self.anchors_ok(starts) && to_remove@ == self.spec_path_remove(node, starts);
            let ghost g = self.graph();
            let ghost old_masteries = self.masteries@;
            proof {
                assert forall|j: int| 0 <= j < to_remove@.len() implies g.contains_key(#[trigger] to_remove@[j]) by {
                    let x = to_remove@[j];
                    if j < to_remove@.len() - 1 {
                        let w = without(self.nodes@, node);
                        let f = cut_off(self.removal_graph(node), starts);
                        assert(w.filter(f).contains(x)) by { assert(w.filter(f)[j] == x); }
                        w.lemma_filter_contains_rev(f, x);
                        lemma_without_contains(self.nodes@, node, x);
                        let k = choose|k: int| 0 <= k < self.nodes@.len() && self.nodes@[k] == x;
                        assert(g.contains_key(self.nodes@[k]));
                    }
                }
            }
            let mut i: usize = 0;
            while i < to_remove.len()
                invariant
                    i <= to_remove.len(),
                    self.class == old(self).class,
                    self.ascendancy == old(self).ascendancy,
                    self.bloodline == old(self).bloodline,
                    self.nodes_additional == old(self).nodes_additional,
                    self.nodes_data == old(self).nodes_data,
                    self.nodes_cluster == old(self).nodes_cluster,
                    self.tattoos == old(self).tattoos,
                    self.tree_nodes == old(self).tree_nodes,
                    self.path_of_the == old(self).path_of_the,
                    self.nodes == old(self).nodes,
                    g == self.graph(),
                    forall|j: int| 0 <= j < to_remove@.len() ==> g.contains_key(#[trigger] to_remove@[j]),
                    self.masteries@ == old_masteries.remove_keys(mastery_keys(g, to_remove@.take(i as int))),
                decreases to_remove.len() - i,
            {
                let x = to_remove[i];
                let is_m = map_get(&self.nodes_data, x).unwrap().is_mastery;
                proof {
                    assert(to_remove@.take(i as int + 1) =~= to_remove@.take(i as int).push(x));
                    assert forall|k: u32| #[trigger] to_remove@.take(i as int + 1).contains(k) <==> to_remove@.take(i as int).contains(k) || k == x by {
                        lemma_push_contains(to_remove@.take(i as int), x, k);
                    }
                }
                if is_m {
                    self.masteries.remove(&x);
                    assert(mastery_keys(g, to_remove@.take(i as int + 1)) =~= mastery_keys(g, to_remove@.take(i as int)).insert(x));
                    assert(self.masteries@ =~= old_masteries.remove_keys(mastery_keys(g, to_remove@.take(i as int + 1))));
                } else {
                    assert(mastery_keys(g, to_remove@.take(i as int + 1)) =~= mastery_keys(g, to_remove@.take(i as int)));
                }
                i += 1;
            }
            assert(to_remove@.take(to_remove.len() as int) =~= to_remove@);
            let mut kept: Vec<u32> = Vec::new();
            let mut k: usize = 0;
            while k < self.nodes.len()
                invariant
                    k <= self.nodes.len(),
                    kept@ == self.nodes@.take(k as int).filter(outside(to_remove@)),
                decreases self.nodes.len() - k,
            {
                let x = self.nodes[k];
                proof {
                    reveal(Seq::filter);
                    assert(self.nodes@.take(k as int + 1).drop_last() =~= self.nodes@.take(k as int));
                }
                if !ids_contain(&to_remove, x) {
                    kept.push(x);
                }
                k += 1;
            }
            assert(self.nodes@.take(self.nodes.len() as int) =~= self.nodes@);
            let ghost old_nodes = self.nodes@;
            self.nodes = kept;
            proof {
                assert forall|j: int| 0 <= j < self.nodes@.len() implies self.graph().contains_key(#[trigger] self.nodes@[j]) by {
                    let x = self.nodes@[j];
                    assert(old_nodes.filter(outside(to_remove@)).contains(x));
                    old_nodes.lemma_filter_contains_rev(outside(to_remove@), x);
                    let q = choose|q: int| 0 <= q < old_nodes.len() && old_nodes[q] == x;
                    assert(old_nodes == old(self).nodes@);
                    assert(old(self).allocated_known());
                    assert(old(self).graph().contains_key(old(self).nodes@[q]));
                }
                assert(old(self).anchors_ok(starts));
                Self::lemma_wf_same_table(*old(self), *self);
            }
        } else {
            match self.find_path(node) {
                Some(path) => {
                    proof {
                        assert forall|j: int| 0 <= j < path@.len() implies self.graph().contains_key(#[trigger] path@[j]) by {
                            self.lemma_walk_known(path@, j);
                        }
                    }
                    self.allocate_path(&path);
                },
                None => {
                    proof {
                        assert(self.nodes@ =~= old(self).nodes@ + Seq::<u32>::empty());
                    }
                },
            }
        }
    }

    /// Allocates the nodes of `path` but its last, which links it to the allocated nodes,
    /// appended in order.
    pub fn allocate_path(&mut self, path: &Vec<u32>)
        requires
            old(self).wf(),
            path@.len() >= 1,
            forall|j: int| 0 <= j < path@.len() ==> old(self).graph().contains_key(#[trigger] path@[j]),
        ensures
            final(self).class == old(self).class,
            final(self).ascendancy == old(self).ascendancy,
            final(self).bloodline == old(self).bloodline,
            final(self).nodes_additional == old(self).nodes_additional,
            final(self).nodes_data == old(self).nodes_data,
            final(self).nodes_cluster == old(self).nodes_cluster,
            final(self).tattoos == old(self).tattoos,
            final(self).tree_nodes == old(self).tree_nodes,
            final(self).path_of_the == old(self).path_of_the,
            final(self).masteries == old(self).masteries,
            final(self).nodes@ == old(self).nodes@ + path@.drop_last(),
            final(self).wf(),
    {
        let ghost old_nodes = self.nodes@;
        let mut i: usize = 0;
        while i + 1 < path.len()
            invariant
                i < path.len(),
                self.class == old(self).class,
                self.ascendancy == old(self).ascendancy,
                self.bloodline == old(self).bloodline,
                self.nodes_additional == old(self).nodes_additional,
                self.nodes_data == old(self).nodes_data,
                self.nodes_cluster == old(self).nodes_cluster,
                self.tattoos == old(self).tattoos,
                self.tree_nodes == old(self).tree_nodes,
                self.path_of_the == old(self).path_of_the,
                self.masteries == old(self).masteries,
                self.nodes@ == old_nodes + path@.take(i as int),
            decreases path.len() - i,
        {
            self.nodes.push(path[i]);
            assert(path@.take(i as int + 1) =~= path@.take(i as int).push(path@[i as int]));
            assert(self.nodes@ =~= old_nodes + path@.take(i as int + 1));
            i += 1;
        }
        proof {
            assert(path@.take(i as int) =~= path@.drop_last());
            assert forall|j: int| 0 <= j < self.nodes@.len() implies self.graph().contains_key(#[trigger] self.nodes@[j]) by {
                if j < old_nodes.len() {
                    assert(old_nodes[j] == self.nodes@[j]);
                } else {
                    assert(self.nodes@[j] == path@[j - old_nodes.len()]);
                }
            }
            Self::lemma_wf_same_table(*old(self), *self);
        }
    }
}

impl PassiveTree {
    /// The starts of this tree's class, ascendancy and bloodline are known.
    pub open spec fn own_starts_known(&self) -> bool {
        &&& self.start_known(StartKind::Class(self.class))
        &&& self.ascendancy matches Some(a) ==> self.start_known(StartKind::Ascendancy(a))
        &&& self.bloodline matches Some(b) ==> self.start_known(StartKind::Bloodline(b))
    }

    /// The class an ascendancy choice moves the tree to.
    pub open spec fn class_after(&self, ascendancy: Option<Ascendancy>) -> Class {
        match ascendancy {
            Some(a) => match a.spec_class() {
                Some(c) => c,
                None => self.class,
            },
            None => self.class,
        }
    }

    /// Changes the class: allocates the new class start, deallocates the old one with what
    /// hangs on it, and drops the ascendancy. Nothing changes for the current class.
    pub fn set_class(&mut self, class: Class)
        requires
            old(self).wf(),
            old(self).own_starts_known(),
            old(self).start_known(StartKind::Class(class)),
        ensures
            final(self).class == class,
            final(self).ascendancy == if class == old(self).class { old(self).ascendancy } else { None },
            final(self).bloodline == old(self).bloodline,
            final(self).nodes_data == old(self).nodes_data,
            final(self).tree_nodes == old(self).tree_nodes,
            final(self).path_of_the == old(self).path_of_the,
            final(self).wf(),
            final(self).own_starts_known(),
        decreases 1int,
    {
        if class == self.class {
            return;
        }
        let old_class = self.class;
        self.class = class;
        let start = find_start(&self.tree_nodes, StartKind::Class(class));
        assert(old(self).graph().contains_key(start));
        self.nodes.push(start);
        proof {
            assert forall|j: int| 0 <= j < self.nodes@.len() implies self.graph().contains_key(#[trigger] self.nodes@[j]) by {
                if j < self.nodes@.len() - 1 {
                    assert(old(self).nodes@[j] == self.nodes@[j]);
                }
            }
            Self::lemma_wf_same_table(*old(self), *self);
            Self::lemma_starts_carry(*old(self), *self);
        }
        let old_start = find_start(&self.tree_nodes, StartKind::Class(old_class));
        assert(old(self).graph().contains_key(old_start));
        let ghost before_flip = *self;
        self.flip_node(old_start);
        proof {
            Self::lemma_starts_carry(before_flip, *self);
        }
        self.set_ascendancy(None);
    }

    /// Changes the ascendancy: deallocates the old ascendancy start with what hangs on it,
    /// moves to the new ascendancy's class and allocates its start. Nothing changes for the
    /// current ascendancy.
    pub fn set_ascendancy(&mut self, ascendancy: Option<Ascendancy>)
        requires
            old(self).wf(),
            old(self).own_starts_known(),
            ascendancy matches Some(a) ==> old(self).start_known(StartKind::Ascendancy(a)),
            ascendancy matches Some(a) ==> (a.spec_class() matches Some(c) ==> old(self).start_known(StartKind::Class(c))),
        ensures
            final(self).ascendancy == ascendancy,
            final(self).class == old(self).class_after(if ascendancy == old(self).ascendancy { None } else { ascendancy }),
            final(self).bloodline == old(self).bloodline,
            final(self).nodes_data == old(self).nodes_data,
            final(self).tree_nodes == old(self).tree_nodes,
            final(self).path_of_the == old(self).path_of_the,
            final(self).wf(),
            final(self).own_starts_known(),
        decreases if ascendancy is Some { 2int } else { 0int },
    {
        if ascendancy == self.ascendancy {
            return;
        }
        if let Some(old_ascendancy) = self.ascendancy {
            let start = find_start(&self.tree_nodes, StartKind::Ascendancy(old_ascendancy));
            assert(old(self).graph().contains_key(start));
            let ghost before_flip = *self;
            self.flip_node(start);
            proof {
                Self::lemma_starts_carry(before_flip, *self);
            }
        }
        if let Some(a) = ascendancy {
            if let Some(class) = a.class() {
                proof {
                    Self::lemma_start_same_tables(*old(self), *self, StartKind::Class(class));
                }
                self.set_class(class);
            }
            let start = find_start(&self.tree_nodes, StartKind::Ascendancy(a));
            assert(old(self).graph().contains_key(start));
            let ghost before = *self;
            self.nodes.push(start);
            proof {
                assert forall|j: int| 0 <= j < self.nodes@.len() implies self.graph().contains_key(#[trigger] self.nodes@[j]) by {
                    if j < self.nodes@.len() - 1 {
                        assert(before.nodes@[j] == self.nodes@[j]);
                    }
                }
                Self::lemma_wf_same_table(before, *self);
            }
        }
        let ghost before_set = *self;
        self.ascendancy = ascendancy;
        proof {
            Self::lemma_wf_same_table(before_set, *self);
            if let Some(a) = ascendancy {
                Self::lemma_start_same_tables(*old(self), *self, StartKind::Ascendancy(a));
            }
            Self::lemma_starts_carry(before_set, *self);
        }
    }

    /// Changes the bloodline: allocates the new bloodline start with a path to it, and
    /// deallocates the old one with what hangs on it. Nothing changes for the current
    /// bloodline.
    pub fn set_bloodline(&mut self, bloodline: Option<Ascendancy>)
        requires
            old(self).wf(),
            old(self).own_starts_known(),
            bloodline matches Some(b) ==> old(self).start_known(StartKind::Bloodline(b)),
        ensures
            final(self).bloodline == bloodline,
            final(self).class == old(self).class,
            final(self).ascendancy == old(self).ascendancy,
            final(self).nodes_data == old(self).nodes_data,
            final(self).tree_nodes == old(self).tree_nodes,
            final(self).path_of_the == old(self).path_of_the,
            final(self).wf(),
            final(self).own_starts_known(),
    {
        if bloodline == self.bloodline {
            return;
        }
        let old_bloodline = self.bloodline;
        self.bloodline = bloodline;
        proof {
            Self::lemma_wf_same_table(*old(self), *self);
            Self::lemma_start_same_tables(*old(self), *self, StartKind::Class(self.class));
            if let Some(a) = self.ascendancy {
                Self::lemma_start_same_tables(*old(self), *self, StartKind::Ascendancy(a));
            }
            if let Some(b) = bloodline {
                Self::lemma_start_same_tables(*old(self), *self, StartKind::Bloodline(b));
            }
            Self::lemma_starts_carry(*self, *self);
        }
        if let Some(b) = bloodline {
            let start = find_start(&self.tree_nodes, StartKind::Bloodline(b));
            assert(old(self).graph().contains_key(start));
            let ghost before_flip = *self;
            self.flip_node(start);
            proof {
                Self::lemma_starts_carry(before_flip, *self);
            }
        }
        if let Some(old_b) = old_bloodline {
            let start = find_start(&self.tree_nodes, StartKind::Bloodline(old_b));
            assert(old(self).graph().contains_key(start));
            let ghost before_flip = *self;
            self.flip_node(start);
            proof {
                Self::lemma_starts_carry(before_flip, *self);
            }
        }
    }
}

/// Two nodes have the same links and the flags the searches read.
pub open spec fn same_links(a: Node, b: Node) -> bool {
    &&& (a.in_ is Some <==> b.in_ is Some)
    &&& (a.out is Some <==> b.out is Some)
    &&& link_ids(a.in_) == link_ids(b.in_)
    &&& link_ids(a.out) == link_ids(b.out)
    &&& a.class_start_index == b.class_start_index
    &&& a.is_mastery == b.is_mastery
    &&& a.is_ascendancy_start == b.is_ascendancy_start
    &&& a.ascendancy == b.ascendancy
}

/// `n` is `base` with the tattoo `data` named `name` applied: its stats, name, icons and
/// tattoo flag replaced, everything else kept.
pub open spec fn tattooed(n: Node, base: Node, data: TattooData, name: Seq<char>) -> bool {
    &&& n.stats@ == data.stats@
    &&& n.name@ == name
    &&& n.icon == data.icon
    &&& n.active_effect_image == Some(data.active_effect_image)
    &&& n.is_tattoo
    &&& same_links(n, base)
    &&& n.skill == base.skill
    &&& n.is_notable == base.is_notable
    &&& n.is_keystone == base.is_keystone
    &&& n.is_jewel_socket == base.is_jewel_socket
    &&& n.is_proxy == base.is_proxy
    &&& n.is_bloodline == base.is_bloodline
    &&& n.group == base.group
    &&& n.orbit == base.orbit
    &&& n.orbit_index == base.orbit_index
    &&& n.expansion_jewel == base.expansion_jewel
}

/// `i` is the first entry of the list named `name`.
pub open spec fn first_named(list: Seq<(String, TattooData)>, name: Seq<char>, i: int) -> bool {
    &&& 0 <= i < list.len()
    &&& list[i].0@ == name
    &&& forall|j: int| 0 <= j < i ==> (#[trigger] list[j]).0@ != name
}

/// The first entry of the list named `name`.
fn find_named(list: &Vec<(String, TattooData)>, name: &str) -> (r: Option<usize>)
    ensures
        match r {
            Some(i) => first_named(list@, name@, i as int),
            None => forall|j: int| 0 <= j < list@.len() ==> (#[trigger] list@[j]).0@ != name@,
        },
{
    let mut i: usize = 0;
    while i < list.len()
        invariant
            i <= list.len(),
            forall|j: int| 0 <= j < i ==> (#[trigger] list@[j]).0@ != name@,
        decreases list.len() - i,
    {
        if str_eq(list[i].0.as_str(), name) {
            return Some(i);
        }
        i += 1;
    }
    None
}

impl PassiveTree {
    proof fn lemma_wf_relink(a: PassiveTree, b: PassiveTree, id: u32, n: Node)
        requires
            a.wf(),
            a.graph().contains_key(id),
            b.graph() == a.graph().insert(id, n),
            same_links(n, a.graph()[id]),
            b.path_of_the == a.path_of_the,
            b.nodes == a.nodes,
        ensures
            b.wf(),
    {
        assert(b.graph().dom() =~= a.graph().dom());
        assert forall|k: u32| b.graph().contains_key(k) implies #[trigger] b.steps_from(k) by {
            assert(a.steps_from(k));
            if k != id {
                assert(b.graph()[k] == a.graph()[k]);
            }
        }
        assert forall|k: u32| b.graph().contains_key(k) implies #[trigger] steps_allocated(b.graph(), k) by {
            assert(steps_allocated(a.graph(), k));
        }
        assert forall|j: int| 0 <= j < b.nodes@.len() implies b.graph().contains_key(#[trigger] b.nodes@[j]) by {
            assert(a.graph().contains_key(a.nodes@[j]));
        }
    }

    /// Taking a tattoo off `node_id` (when `removing`) puts back the game's node, whose
    /// links are those the tree's table has for it; trivially so when the game's tree has
    /// no such node.
    pub open spec fn untattoo_keeps_links(&self, node_id: u32, removing: bool) -> bool {
        removing && node_entries(self.tree_nodes).contains_key(node_id) ==> {
            &&& self.graph().contains_key(node_id)
            &&& same_links(node_entries(self.tree_nodes)[node_id], self.graph()[node_id])
        }
    }

    /// Applies the tattoo named by `tattoo_str`, found in `tattoos_data`, to a node of
    /// this tree, or, with no name, puts the game's node back. The mastery effect chosen
    /// on the node is forgotten either way. An unknown tattoo or node changes no node.
    pub fn set_tattoo(&mut self, node_id: u32, tattoo_str: Option<&str>, tattoos_data: &Vec<(String, TattooData)>)
        ensures
            old(self).wf() && old(self).untattoo_keeps_links(node_id, tattoo_str is None) ==> final(self).wf(),
            final(self).class == old(self).class,
            final(self).ascendancy == old(self).ascendancy,
            final(self).bloodline == old(self).bloodline,
            final(self).nodes == old(self).nodes,
            final(self).tree_nodes == old(self).tree_nodes,
            final(self).path_of_the == old(self).path_of_the,
            final(self).masteries@ == old(self).masteries@.remove(node_id),
            match tattoo_str {
                Some(name) => if old(self).graph().contains_key(node_id) && exists|i: int| 0 <= i < tattoos_data@.len() && (#[trigger] tattoos_data@[i]).0@ == name@ {
                    exists|i: int| {
                        &&& #[trigger] first_named(tattoos_data@, name@, i)
                        &&& final(self).graph() == old(self).graph().insert(node_id, final(self).graph()[node_id])
                        &&& tattooed(final(self).graph()[node_id], old(self).graph()[node_id], tattoos_data@[i].1, name@)
                        &&& final(self).tattoos@ == old(self).tattoos@.insert(node_id, final(self).tattoos@[node_id])
                        &&& final(self).tattoos@[node_id]@ == name@
                    }
                } else {
                    &&& final(self).graph() == old(self).graph()
                    &&& final(self).tattoos@ == old(self).tattoos@
                },
                None => if node_entries(old(self).tree_nodes).contains_key(node_id) {
                    &&& final(self).graph() == old(self).graph().insert(node_id, final(self).graph()[node_id])
                    &&& final(self).graph()[node_id].same_as(node_entries(old(self).tree_nodes)[node_id])
                    &&& final(self).tattoos@ == old(self).tattoos@.remove(node_id)
                } else {
                    &&& final(self).graph() == old(self).graph()
                    &&& final(self).tattoos@ == old(self).tattoos@
                },
            },
    {
        broadcast use vstd::std_specs::hash::group_hash_axioms;
        match tattoo_str {
            Some(name) => {
                let found = find_named(tattoos_data, name);
                match found {
                    Some(i) => {
                        match map_get(&self.nodes_data, node_id) {
                            Some(original) => {
                                let data = &tattoos_data[i].1;
                                let mut node = original.clone();
                                node.stats = copy_strings(&data.stats);
                                node.name = name.to_owned();
                                node.icon = data.icon.clone();
                                node.active_effect_image = Some(data.active_effect_image.clone());
                                node.is_tattoo = true;
                                let ghost before = *self;
                                let ghost n = node;
                                map_insert(&mut self.nodes_data, node_id, node);
                                self.tattoos.insert(node_id, name.to_owned());
                                proof {
                                    if before.wf() {
                                        Self::lemma_wf_relink(before, *self, node_id, n);
                                    }
                                    assert(first_named(tattoos_data@, name@, i as int));
                                    assert(self.tattoos@ =~= old(self).tattoos@.insert(node_id, self.tattoos@[node_id]));
                                    assert(self.graph() =~= old(self).graph().insert(node_id, self.graph()[node_id]));
                                }
                            },
                            None => {},
                        }
                    },
                    None => {},
                }
            },
            None => {
                match map_get(&self.tree_nodes, node_id) {
                    Some(original) => {
                        let node = original.clone();
                        let ghost before = *self;
                        let ghost n = node;
                        map_insert(&mut self.nodes_data, node_id, node);
                        self.tattoos.remove(&node_id);
                        proof {
                            if before.wf() && before.untattoo_keeps_links(node_id, true) {
                                Self::lemma_wf_relink(before, *self, node_id, n);
                            }
                            assert(self.graph() =~= old(self).graph().insert(node_id, self.graph()[node_id]));
                        }
                    },
                    None => {},
                }
            },
        }
        let ghost before_m = *self;
        self.masteries.remove(&node_id);
        proof {
            if before_m.wf() {
                assert forall|j: int| 0 <= j < self.nodes@.len() implies self.graph().contains_key(#[trigger] self.nodes@[j]) by {
                    assert(before_m.graph().contains_key(before_m.nodes@[j]));
                }
                Self::lemma_wf_same_table(before_m, *self);
            }
        }
    }

    /// The node group of the proxy of a cluster jewel socket, from the game's tree.
    pub fn get_proxy_group(&self, cluster_jewel_node_id: u32) -> (r: Option<u16>)
        ensures
            r == ({
                let t = node_entries(self.tree_nodes);
                if t.contains_key(cluster_jewel_node_id) && t[cluster_jewel_node_id].expansion_jewel is Some
                    && t.contains_key(t[cluster_jewel_node_id].expansion_jewel->0.proxy) {
                    t[t[cluster_jewel_node_id].expansion_jewel->0.proxy].group
                } else {
                    None
                }
            }),
    {
        let jewel = map_get(&self.tree_nodes, cluster_jewel_node_id)?;
        let ej = jewel.expansion_jewel?;
        let proxy = map_get(&self.tree_nodes, ej.proxy)?;
        proxy.group
    }
}

/// The node table of a list of nodes: each node under its skill, a later node replacing
/// an earlier one of the same skill.
pub open spec fn table_of(nodes: Seq<Node>) -> Map<u32, Node>
    decreases nodes.len(),
{
    if nodes.len() == 0 {
        Map::empty()
    } else {
        table_of(nodes.drop_last()).insert(nodes.last().skill, nodes.last())
    }
}

/// A "Path of the ..." node of an ascendancy.
pub open spec fn is_path_of_the(n: Node) -> bool {
    &&& "Path of the"@.len() <= n.name@.len()
    &&& n.name@.take("Path of the"@.len() as int) == "Path of the"@
    &&& n.ascendancy is Some
}

/// A jewel socket that only a cluster jewel opens, by its name.
pub open spec fn is_cluster_socket_name(name: Seq<char>) -> bool {
    name == "Small Jewel Socket"@ || name == "Medium Jewel Socket"@
}

/// `n` is `base` marked as a proxy.
pub open spec fn proxied(n: Node, base: Node) -> bool {
    n.same_as(Node { is_proxy: true, ..base })
}

/// The node table of a new tree from the game's table: the cluster jewel sockets marked
/// as proxies, so that they stay hidden until a jewel opens them.
pub open spec fn init_table(tree: Map<u32, Node>, data: Map<u32, Node>) -> bool {
    &&& data.dom() == tree.dom()
    &&& forall|k: u32| #[trigger] data.contains_key(k) ==> if is_cluster_socket_name(tree[k].name@) {
        proxied(data[k], tree[k])
    } else {
        data[k] == tree[k]
    }
}

/// Builds the node table of the game's tree from its nodes.
fn build_table(game_nodes: Vec<Node>) -> (r: NodeMap)
    ensures
        node_entries(r) == table_of(game_nodes@),
{
    let mut m = map_new();
    let ghost all = game_nodes@;
    let mut rest = game_nodes;
    let mut i: usize = 0;
    let l = rest.len();
    assert(all.len() == l);
    assert(node_entries(m) =~= Map::<u32, Node>::empty());
    while rest.len() > 0
        invariant
            rest@.len() + i == all.len(),
            all.len() <= usize::MAX,
            rest@ == all.subrange(i as int, all.len() as int),
            node_entries(m) == table_of(all.take(i as int)),
        decreases rest.len(),
    {
        let n = rest.remove(0);
        proof {
            assert(n == all[i as int]);
            assert(all.take(i as int + 1).drop_last() =~= all.take(i as int));
            assert(all.take(i as int + 1).last() == n);
        }
        map_insert(&mut m, n.skill, n);
        i += 1;
        assert(rest@ =~= all.subrange(i as int, all.len() as int));
    }
    assert(all.take(all.len() as int) =~= all);
    m
}

impl PassiveTree {
    /// A tree of the first class on the game's nodes, with its class start allocated and
    /// nothing else.
    pub fn new(game_nodes: Vec<Node>, skills_per_orbit: Vec<u16>) -> (r: PassiveTree)
        requires
            has_start(table_of(game_nodes@), StartKind::Class(Class::Scion)),
        ensures
            r.class == Class::Scion,
            r.ascendancy is None,
            r.bloodline is None,
            node_entries(r.tree_nodes) == table_of(game_nodes@),
            init_table(node_entries(r.tree_nodes), r.graph()),
            r.nodes@.len() == 1,
            is_start_skill(node_entries(r.tree_nodes), StartKind::Class(Class::Scion), r.nodes@[0]),
            r.nodes_additional@.len() == 0,
            r.nodes_cluster@.len() == 0,
            r.masteries@ == Map::<u32, u32>::empty(),
            r.tattoos@ == Map::<u32, String>::empty(),
            r.skills_per_orbit@ == skills_per_orbit@,
            r.path_of_the@.no_duplicates(),
            forall|x: u32| #![trigger r.path_of_the@.contains(x)] #![trigger is_path_of_the(table_of(game_nodes@)[x])]
                r.path_of_the@.contains(x) <==> table_of(game_nodes@).contains_key(x) && is_path_of_the(table_of(game_nodes@)[x]),
    {
        let tree_nodes = build_table(game_nodes);
        let keys = map_keys(&tree_nodes);
        let mut data = map_clone(&tree_nodes);
        let mut path_of_the: Vec<u32> = Vec::new();
        let ghost t = node_entries(tree_nodes);
        let mut i: usize = 0;
        while i < keys.len()
            invariant
                i <= keys.len(),
                t == node_entries(tree_nodes),
                keys@.no_duplicates(),
                forall|id: u32| keys@.contains(id) <==> t.contains_key(id),
                node_entries(data).dom() == t.dom(),
                forall|k: u32| #[trigger] node_entries(data).contains_key(k) ==> if keys@.take(i as int).contains(k) && is_cluster_socket_name(t[k].name@) {
                    proxied(node_entries(data)[k], t[k])
                } else {
                    node_entries(data)[k] == t[k]
                },
                path_of_the@.no_duplicates(),
                forall|x: u32| #![trigger path_of_the@.contains(x)] #![trigger is_path_of_the(t[x])]
                    path_of_the@.contains(x) <==> keys@.take(i as int).contains(x) && is_path_of_the(t[x]),
            decreases keys.len() - i,
        {
            let k = keys[i];
            assert(keys@.contains(k));
            let n = map_get(&tree_nodes, k).unwrap();
            proof {
                assert(keys@.take(i as int + 1) =~= keys@.take(i as int).push(k));
                assert forall|x: u32| #[trigger] keys@.take(i as int + 1).contains(x) <==> keys@.take(i as int).contains(x) || x == k by {
                    lemma_push_contains(keys@.take(i as int), k, x);
                }
                assert(!keys@.take(i as int).contains(k)) by {
                    if keys@.take(i as int).contains(k) {
                        let j = choose|j: int| 0 <= j < i && keys@.take(i as int)[j] == k;
                        assert(keys@[j] == keys@[i as int]);
                    }
                }
            }
            if str_eq(n.name.as_str(), "Small Jewel Socket") || str_eq(n.name.as_str(), "Medium Jewel Socket") {
                let mut jewel_node = n.clone();
                jewel_node.is_proxy = true;
                let ghost before = node_entries(data);
                map_insert(&mut data, k, jewel_node);
                assert(node_entries(data).dom() =~= t.dom());
            }
            let is_pot = n.ascendancy.is_some() && starts_with(n.name.as_str(), "Path of the");
            assert(is_pot == is_path_of_the(t[k]));
            let ghost before = path_of_the@;
            if is_pot {
                path_of_the.push(k);
                proof {
                    assert(path_of_the@.no_duplicates()) by {
                        assert forall|a: int, b: int| 0 <= a < b < path_of_the@.len() implies path_of_the@[a] != path_of_the@[b] by {
                            if b == path_of_the@.len() - 1 {
                                assert(before[a] == path_of_the@[a]);
                                assert(before.contains(path_of_the@[a]));
                                assert(is_path_of_the(t[path_of_the@[a]]));
                                assert(keys@.take(i as int).contains(path_of_the@[a]));
                            } else {
                                assert(before[a] != before[b]);
                            }
                        }
                    }
                }
            }
            proof {
                assert forall|x: u32| #![trigger path_of_the@.contains(x)] #![trigger is_path_of_the(t[x])]
                    path_of_the@.contains(x) <==> keys@.take(i as int + 1).contains(x) && is_path_of_the(t[x]) by {
                    if is_pot {
                        lemma_push_contains(before, k, x);
                    }
                    if before.contains(x) {
                        assert(is_path_of_the(t[x]));
                    }
                }
            }
            i += 1;
        }
        assert(keys@.take(keys.len() as int) =~= keys@);
        let class_node = find_start(&tree_nodes, StartKind::Class(Class::Scion));
        let mut nodes: Vec<u32> = Vec::new();
        nodes.push(class_node);
        PassiveTree {
            class: Class::Scion,
            ascendancy: None,
            bloodline: None,
            nodes,
            nodes_additional: Vec::new(),
            nodes_data: data,
            nodes_cluster: Vec::new(),
            masteries: HashMap::new(),
            tattoos: HashMap::new(),
            tree_nodes,
            path_of_the,
            skills_per_orbit,
        }
    }
}

/// A node with nothing set: no id, no stats, no links, no flags.
pub fn blank_node() -> (r: Node)
    ensures
        r.skill == 0,
        r.stats@.len() == 0,
        r.out is None,
        r.in_ is None,
        r.class_start_index is None,
        r.ascendancy is None,
        !r.is_mastery,
        !r.is_ascendancy_start,
{
    Node {
        skill: 0,
        stats: Vec::new(),
        icon: String::new(),
        name: String::new(),
        active_icon: None,
        inactive_icon: None,
        active_effect_image: None,
        is_mastery: false,
        is_notable: false,
        is_keystone: false,
        is_ascendancy_start: false,
        is_jewel_socket: false,
        is_proxy: false,
        is_bloodline: false,
        is_tattoo: false,
        ascendancy: None,
        class_start_index: None,
        mastery_effects: Vec::new(),
        group: None,
        orbit: None,
        orbit_index: None,
        out: None,
        in_: None,
        expansion_jewel: None,
    }
}

/// The ids of `v` other than `x`, in order.
fn ids_without(v: &Vec<u32>, x: u32) -> (r: Vec<u32>)
    ensures
        r@ == without(v@, x),
{
    let mut r: Vec<u32> = Vec::new();
    let mut i: usize = 0;
    while i < v.len()
        invariant
            i <= v.len(),
            r@ == without(v@.take(i as int), x),
        decreases v.len() - i,
    {
        assert(v@.take(i as int + 1).drop_last() =~= v@.take(i as int));
        if v[i] != x {
            r.push(v[i]);
        }
        i += 1;
    }
    assert(v@.take(v.len() as int) =~= v@);
    r
}

/// Adds `id` to the end of a link list, creating the list when there is none.
fn link_push(links: Option<Vec<u32>>, id: u32) -> (r: Option<Vec<u32>>)
    ensures
        r is Some,
        link_ids(r) == link_ids(links).push(id),
{
    let mut v = match links {
        Some(v) => v,
        None => Vec::new(),
    };
    v.push(id);
    Some(v)
}

/// Takes the node out of a slot, leaving it empty.
fn take_slot(slots: &mut Vec<Option<Node>>, i: usize) -> (r: Option<Node>)
    requires
        i < old(slots)@.len(),
    ensures
        r == old(slots)@[i as int],
        final(slots)@ == old(slots)@.update(i as int, None),
{
    let n = slots.remove(i);
    slots.insert(i, None);
    assert(slots@ =~= old(slots)@.update(i as int, None));
    n
}

/// Which slots hold a node.
fn filled(slots: &Vec<Option<Node>>) -> (r: Vec<bool>)
    ensures
        r@.len() == slots@.len(),
        forall|i: int| 0 <= i < slots@.len() ==> r@[i] == (#[trigger] slots@[i]) is Some,
{
    let mut r: Vec<bool> = Vec::new();
    let mut i: usize = 0;
    while i < slots.len()
        invariant
            i <= slots.len(),
            r@.len() == i,
            forall|j: int| 0 <= j < i ==> r@[j] == (#[trigger] slots@[j]) is Some,
        decreases slots.len() - i,
    {
        r.push(slots[i].is_some());
        i += 1;
    }
    r
}

/// The size of a cluster jewel base item, by name.
pub open spec fn spec_cluster_size(name: Seq<char>) -> Option<JewelSize> {
    if name == "Small Cluster Jewel"@ {
        Some(JewelSize::Small)
    } else if name == "Medium Cluster Jewel"@ {
        Some(JewelSize::Medium)
    } else if name == "Large Cluster Jewel"@ {
        Some(JewelSize::Large)
    } else {
        None
    }
}

/// The size of a cluster jewel base item, by name.
pub fn cluster_size(base_item: &str) -> (r: Option<JewelSize>)
    ensures
        r == spec_cluster_size(base_item@),
{
    if str_eq(base_item, "Small Cluster Jewel") {
        Some(JewelSize::Small)
    } else if str_eq(base_item, "Medium Cluster Jewel") {
        Some(JewelSize::Medium)
    } else if str_eq(base_item, "Large Cluster Jewel") {
        Some(JewelSize::Large)
    } else {
        None
    }
}

/// A socket node of the game's tree for a cluster jewel: in the group, a jewel socket,
/// with the expansion index.
pub open spec fn is_group_socket(n: Node, group_id: u16, expansion_idx: u32) -> bool {
    &&& n.group == Some(group_id)
    &&& n.is_jewel_socket
    &&& n.expansion_jewel matches Some(ej) && ej.index == expansion_idx
}

/// A socket node of the game's tree for a cluster jewel, searched in the table's order.
fn find_group_socket(m: &NodeMap, group_id: u16, expansion_idx: u32) -> (r: Option<&Node>)
    ensures
        match r {
            Some(n) => exists|k: u32| node_entries(*m).contains_key(k) && node_entries(*m)[k] == *n && #[trigger] is_group_socket(node_entries(*m)[k], group_id, expansion_idx),
            None => forall|k: u32| node_entries(*m).contains_key(k) ==> !#[trigger] is_group_socket(node_entries(*m)[k], group_id, expansion_idx),
        },
{
    let keys = map_keys(m);
    let mut i: usize = 0;
    while i < keys.len()
        invariant
            i <= keys.len(),
            forall|id: u32| keys@.contains(id) <==> node_entries(*m).contains_key(id),
            forall|j: int| 0 <= j < i ==> !is_group_socket(node_entries(*m)[#[trigger] keys@[j]], group_id, expansion_idx),
        decreases keys.len() - i,
    {
        let k = keys[i];
        assert(keys@.contains(k));
        let n = map_get(m, k).unwrap();
        let hit = match n.expansion_jewel {
            Some(ej) => n.group == Some(group_id) && n.is_jewel_socket && ej.index == expansion_idx,
            None => false,
        };
        if hit {
            assert(is_group_socket(node_entries(*m)[k], group_id, expansion_idx));
            return Some(n);
        }
        i += 1;
    }
    proof {
        assert forall|k: u32| node_entries(*m).contains_key(k) implies !#[trigger] is_group_socket(node_entries(*m)[k], group_id, expansion_idx) by {
            assert(keys@.contains(k));
            let j = choose|j: int| 0 <= j < keys@.len() && keys@[j] == k;
            assert(!is_group_socket(node_entries(*m)[keys@[j]], group_id, expansion_idx));
        }
    }
    None
}

/// The largest id among the first `i` cluster entries (0 when there is none).
pub open spec fn max_cluster_skill(s: Seq<(u32, Node)>, i: int) -> u32
    decreases i,
{
    if i <= 0 {
        0
    } else {
        let m = max_cluster_skill(s, i - 1);
        let x = s[i - 1].1.skill;
        if i == 1 || x > m { x } else { m }
    }
}

/// The first id a cluster jewel gives its new nodes: one past the largest id of the
/// cluster entries, or 65536 when there are none.
pub open spec fn next_cluster_id_of(s: Seq<(u32, Node)>) -> u32 {
    if s.len() == 0 { 65536 } else { (max_cluster_skill(s, s.len() as int) + 1) as u32 }
}

/// The node of slot `k` of a cluster jewel's ring placed on the tree orbit.
pub open spec fn on_orbit(n: Node, k: int, proxy: u32, size: JewelSize, per_orbit: int) -> Node {
    Node {
        orbit: Some(size.spec_orbit()),
        orbit_index: Some(spec_cluster_orbit_index(k, proxy, size.spec_size_index() as int, size.spec_total_indices() as int, per_orbit) as u16),
        ..n
    }
}

/// The cluster entries of the nodes in the first `k` slots, in slot order, placed on the
/// tree orbit.
pub open spec fn orbit_entries(t: Seq<Option<Node>>, jewel: u32, k: int, proxy: u32, size: JewelSize, per_orbit: int) -> Seq<(u32, Node)>
    decreases k,
{
    if k <= 0 {
        Seq::empty()
    } else {
        let prev = orbit_entries(t, jewel, k - 1, proxy, size, per_orbit);
        if t[k - 1] is Some { prev.push((jewel, on_orbit(t[k - 1]->0, k - 1, proxy, size, per_orbit))) } else { prev }
    }
}

/// The node table `g` with the nodes of the first `k` slots stored under their ids, in
/// slot order, placed on the tree orbit.
pub open spec fn orbit_table(g: Map<u32, Node>, t: Seq<Option<Node>>, k: int, proxy: u32, size: JewelSize, per_orbit: int) -> Map<u32, Node>
    decreases k,
{
    if k <= 0 {
        g
    } else {
        let prev = orbit_table(g, t, k - 1, proxy, size, per_orbit);
        if t[k - 1] is Some { prev.insert(t[k - 1]->0.skill, on_orbit(t[k - 1]->0, k - 1, proxy, size, per_orbit)) } else { prev }
    }
}

/// Two node tables hold the same ids, with nodes alike under each.
pub open spec fn tables_alike(a: Map<u32, Node>, b: Map<u32, Node>) -> bool {
    &&& a.dom() == b.dom()
    &&& forall|k: u32| a.contains_key(k) ==> (#[trigger] a[k]).same_as(b[k])
}

/// The new ids a cluster jewel gives are above every id of the cluster entries; with no
/// entry, or one above the game's ids, they are above the game's ids too.
pub proof fn lemma_next_cluster_id_fresh(s: Seq<(u32, Node)>)
    requires
        forall|i: int| 0 <= i < s.len() ==> (#[trigger] s[i]).1.skill < u32::MAX,
    ensures
        forall|i: int| 0 <= i < s.len() ==> (#[trigger] s[i]).1.skill < next_cluster_id_of(s),
        (s.len() == 0 || exists|i: int| 0 <= i < s.len() && (#[trigger] s[i]).1.skill > 0xFFFFu32) ==> next_cluster_id_of(s) > 0xFFFFu32,
{
    lemma_max_cluster_skill(s, s.len() as int);
}

proof fn lemma_max_cluster_skill(s: Seq<(u32, Node)>, i: int)
    requires
        0 <= i <= s.len(),
    ensures
        forall|j: int| 0 <= j < i ==> (#[trigger] s[j]).1.skill <= max_cluster_skill(s, i),
        i > 0 ==> exists|j: int| 0 <= j < i && (#[trigger] s[j]).1.skill == max_cluster_skill(s, i),
    decreases i,
{
    if i > 0 {
        lemma_max_cluster_skill(s, i - 1);
        if i > 1 {
            let j = choose|j: int| 0 <= j < i - 1 && (#[trigger] s[j]).1.skill == max_cluster_skill(s, i - 1);
        }
    }
}

impl PassiveTree {
    /// Every cluster node id leaves room for the ids a jewel adds.
    pub open spec fn cluster_ids_room(&self) -> bool {
        forall|i: int| 0 <= i < self.nodes_cluster@.len() ==> (#[trigger] self.nodes_cluster@[i]).1.skill <= 0xFFFF_FF00u32
    }

    /// The id after the cluster nodes: one past the largest, or past the game's ids when
    /// there are none.
    fn next_cluster_id(&self) -> (r: u32)
        requires
            self.cluster_ids_room(),
        ensures
            r <= 0xFFFF_FF01u32,
            r == next_cluster_id_of(self.nodes_cluster@),
    {
        let mut best: u32 = 65535;
        let mut any = false;
        let mut i: usize = 0;
        while i < self.nodes_cluster.len()
            invariant
                i <= self.nodes_cluster.len(),
                self.cluster_ids_room(),
                best <= 0xFFFF_FF00u32,
                any == (i > 0),
                any ==> best == max_cluster_skill(self.nodes_cluster@, i as int),
                !any ==> best == 65535,
            decreases self.nodes_cluster.len() - i,
        {
            let s = self.nodes_cluster[i].1.skill;
            if !any || s > best {
                best = s;
                any = true;
            }
            i += 1;
        }
        proof {
            if any {
                assert(best == max_cluster_skill(self.nodes_cluster@, self.nodes_cluster@.len() as int));
                assert((best + 1) as u32 == best + 1);
            } else {
                assert(self.nodes_cluster@.len() == 0);
            }
        }
        best + 1
    }
}

/// Appends copies of the strings of `extra` to `v`.
fn append_strings(v: &mut Vec<String>, extra: &Vec<String>)
    ensures
        final(v)@ == old(v)@ + extra@,
{
    let mut i: usize = 0;
    while i < extra.len()
        invariant
            i <= extra.len(),
            v@ == old(v)@ + extra@.take(i as int),
        decreases extra.len() - i,
    {
        v.push(extra[i].clone());
        assert(extra@.take(i as int + 1) =~= extra@.take(i as int).push(extra@[i as int]));
        assert(v@ =~= old(v)@ + extra@.take(i as int + 1));
        i += 1;
    }
    assert(extra@.take(extra.len() as int) =~= extra@);
}

/// The filled slots, in ascending order.
fn filled_slots(slots: &Vec<Option<Node>>) -> (r: Vec<usize>)
    ensures
        forall|j: int| 0 <= j < r@.len() ==> (#[trigger] r@[j] as int) < slots@.len() && slots@[r@[j] as int] is Some,
        forall|a: int, b: int| 0 <= a < b < r@.len() ==> r@[a] < r@[b],
        forall|k: int| 0 <= k < slots@.len() && (#[trigger] slots@[k]) is Some ==> r@.contains(k as usize),
        r@.len() <= slots@.len(),
{
    let mut r: Vec<usize> = Vec::new();
    let mut i: usize = 0;
    while i < slots.len()
        invariant
            i <= slots.len(),
            forall|j: int| 0 <= j < r@.len() ==> (#[trigger] r@[j] as int) < i && slots@[r@[j] as int] is Some,
            forall|a: int, b: int| 0 <= a < b < r@.len() ==> r@[a] < r@[b],
            forall|k: int| 0 <= k < i && (#[trigger] slots@[k]) is Some ==> r@.contains(k as usize),
            r@.len() <= i,
        decreases slots.len() - i,
    {
        if slots[i].is_some() {
            let ghost before = r@;
            r.push(i);
            proof {
                assert forall|k: int| 0 <= k < i + 1 && (#[trigger] slots@[k]) is Some implies r@.contains(k as usize) by {
                    if k < i {
                        let q = choose|q: int| 0 <= q < before.len() && before[q] == k as usize;
                        assert(r@[q] == k as usize);
                    } else {
                        assert(r@[r@.len() - 1] == k as usize);
                    }
                }
            }
        }
        i += 1;
    }
    r
}

proof fn lemma_offsets_small(proxy_node_id: u32, i: int)
    requires
        0 <= i < 3,
    ensures
        spec_orbit_offsets(proxy_node_id)[i] <= 11,
{
}


/// What a slot of a cluster jewel's ring is planned to hold.
pub enum SlotPlan {
    /// Nothing.
    Open,
    /// A socket of the game's tree with this expansion index.
    Socket(u32),
    /// The notable of this position in the jewel's list.
    Notable(usize),
    /// The small passive of this position among those placed.
    Small(usize),
}

/// Which slots of a plan hold a node.
pub open spec fn plan_flags(p: Seq<SlotPlan>) -> Seq<bool> {
    Seq::new(p.len(), |k: int| !(p[k] is Open))
}

/// The plan `p` with the first `count` of `slots` given to notables (or small passives),
/// the i-th of them to the i-th node.
pub open spec fn place_plan(p: Seq<SlotPlan>, slots: Seq<usize>, count: int, notable: bool) -> Seq<SlotPlan>
    decreases count,
{
    if count <= 0 {
        p
    } else {
        place_plan(p, slots, count - 1, notable).update(
            slots[count - 1] as int,
            if notable { SlotPlan::Notable((count - 1) as usize) } else { SlotPlan::Small((count - 1) as usize) },
        )
    }
}

proof fn lemma_place_plan_len(p: Seq<SlotPlan>, slots: Seq<usize>, count: int, notable: bool)
    requires
        count <= slots.len(),
        forall|j: int| 0 <= j < slots.len() ==> (#[trigger] slots[j] as int) < p.len(),
    ensures
        place_plan(p, slots, count, notable).len() == p.len(),
    decreases count,
{
    if count > 0 {
        lemma_place_plan_len(p, slots, count - 1, notable);
    }
}

/// The name a cluster jewel gives the sockets it adds.
pub open spec fn socket_name(size: JewelSize) -> Seq<char> {
    match size {
        JewelSize::Large => "Medium Jewel Socket"@,
        JewelSize::Medium => "Small Jewel Socket"@,
        JewelSize::Small => "Jewel Socket"@,
    }
}

/// `n` has the given id and group, and empty link lists.
pub open spec fn fresh_links(n: Node, skill: u32, group_id: u16) -> bool {
    &&& n.skill == skill
    &&& n.group == Some(group_id)
    &&& n.in_ is Some && link_ids(n.in_).len() == 0
    &&& n.out is Some && link_ids(n.out).len() == 0
}

/// The game's tree has a socket for a cluster jewel in the group with the expansion
/// index.
pub open spec fn has_group_socket(t: Map<u32, Node>, group_id: u16, expansion_idx: u32) -> bool {
    exists|k: u32| t.contains_key(k)
        && #[trigger] is_group_socket(t[k], group_id, expansion_idx)
}

/// A ring of `total` open slots after the first `j` socket placements of `sa`: each
/// gets its socket when the game's tree has one.
pub open spec fn socket_plan(t: Map<u32, Node>, total: nat, sa: Seq<(usize, u32)>, group_id: u16, j: int) -> Seq<SlotPlan>
    decreases j,
{
    if j <= 0 {
        Seq::new(total, |k: int| SlotPlan::Open)
    } else {
        let p = socket_plan(t, total, sa, group_id, j - 1);
        if has_group_socket(t, group_id, sa[j - 1].1) {
            p.update(sa[j - 1].0 as int, SlotPlan::Socket(sa[j - 1].1))
        } else {
            p
        }
    }
}

/// A plan of sockets holds only open slots and sockets, over `total` slots.
proof fn lemma_socket_plan_kinds(t: Map<u32, Node>, total: nat, sa: Seq<(usize, u32)>, group_id: u16, j: int)
    requires
        j <= sa.len(),
        forall|i: int| 0 <= i < sa.len() ==> (#[trigger] sa[i]).0 < total,
    ensures
        socket_plan(t, total, sa, group_id, j).len() == total,
        forall|k: int| 0 <= k < total ==> !(#[trigger] socket_plan(t, total, sa, group_id, j)[k] is Small)
            && !(socket_plan(t, total, sa, group_id, j)[k] is Notable),
    decreases j,
{
    if j > 0 {
        lemma_socket_plan_kinds(t, total, sa, group_id, j - 1);
    }
}

/// The small passives of the jewel have a base node: "Nothingness", or a node of the
/// game's tree.
pub open spec fn has_small_base(t: Map<u32, Node>, cluster_data: ClusterData) -> bool {
    cluster_data.small_passives_node_id == NOTHINGNESS_NODE_ID
        || t.contains_key(cluster_data.small_passives_node_id)
}

/// The plan of a cluster jewel's ring: its sockets, then its notables on the picked
/// slots in ascending order (`ns`), then its small passives on the slots picked among
/// those left, when they have a base node.
pub open spec fn cluster_plan(t: Map<u32, Node>, plan: Seq<SlotPlan>, ns: Seq<usize>, cluster_data: ClusterData, size: JewelSize, group_id: u16, small_amount: u32) -> bool {
    let total = size.spec_total_indices() as nat;
    let sc = cluster_data.added_sockets_amount as int;
    let sa = spec_socket_assignments(size, sc);
    let ps = socket_plan(t, total, sa, group_id, sa.len() as int);
    let nl = cluster_data.notables@.len() as int;
    let picks = spec_pick(size.spec_notable_order(), size.spec_notable_order().len() as int, nl,
        plan_flags(ps), spec_notable_shift(size, sc, nl, small_amount as int));
    let nn = if nl < ns.len() { nl } else { ns.len() as int };
    let pn = place_plan(ps, ns, nn, true);
    let small_count = if small_amount as int > sc + ns.len() { small_amount as int - sc - ns.len() } else { 0 };
    let picks2 = spec_pick(size.spec_small_order(), size.spec_small_order().len() as int, small_count,
        plan_flags(pn), spec_small_shift(size, small_amount as int));
    &&& ns.to_multiset() == picks.to_multiset()
    &&& ns.len() == picks.len()
    &&& forall|a: int, b: int| 0 <= a < b < ns.len() ==> ns[a] <= ns[b]
    &&& plan == if has_small_base(t, cluster_data) { place_plan(pn, picks2, picks2.len() as int, false) } else { pn }
}

/// `ring` is the ring of a cluster jewel laid out by its plan over the game's tree `t`,
/// with new ids from `first_id` on.
#[verifier::opaque]
pub open spec fn laid_out(t: Map<u32, Node>, ring: Seq<Option<Node>>, cluster_data: ClusterData, size: JewelSize, group_id: u16, small_amount: u32, first_id: u32) -> bool {
    &&& ring.len() == size.spec_total_indices()
    &&& exists|plan: Seq<SlotPlan>, ns: Seq<usize>| {
        &&& cluster_plan(t, plan, ns, cluster_data, size, group_id, small_amount)
        &&& plan.len() == ring.len()
        &&& ns.len() <= 5
        &&& forall|k: int| 0 <= k < ring.len() ==> slot_matches(t, #[trigger] ring[k], plan[k], cluster_data, size, group_id, first_id,
            if cluster_data.notables@.len() < ns.len() { cluster_data.notables@.len() as int } else { ns.len() as int })
    }
}

/// `n` is a copy of a socket of the game's tree for a cluster jewel in the group with
/// the expansion index, renamed for the jewel's size, no proxy, with empty links.
pub open spec fn socket_copy(t: Map<u32, Node>, n: Node, group_id: u16, e: u32, size: JewelSize) -> bool {
    &&& fresh_links(n, n.skill, group_id)
    &&& !n.is_proxy
    &&& n.name@ == socket_name(size)
    &&& exists|k: u32| t.contains_key(k) && #[trigger] is_group_socket(t[k], group_id, e)
        && n.same_as(Node { group: Some(group_id), in_: n.in_, out: n.out, is_proxy: false, name: n.name, ..t[k] })
}

/// The node in a slot is what the plan gives it: a copy of a socket of the game's
/// tree, renamed and no proxy; a copy of a notable with the id after `first_id`; a
/// copy of the small passive base with the ids after the `nn` notables and the jewel's
/// stats added. Each comes with its group and empty links.
pub open spec fn slot_matches(t: Map<u32, Node>, slot: Option<Node>, p: SlotPlan, cluster_data: ClusterData, size: JewelSize, group_id: u16, first_id: u32, nn: int) -> bool {
    match p {
        SlotPlan::Open => slot is None,
        SlotPlan::Socket(e) => slot matches Some(n) && socket_copy(t, n, group_id, e, size),
        SlotPlan::Notable(i) => slot matches Some(n) && {
            &&& i < cluster_data.notables@.len()
            &&& fresh_links(n, (first_id + i) as u32, group_id)
            &&& n.same_as(Node { skill: n.skill, group: Some(group_id), in_: n.in_, out: n.out, ..cluster_data.notables@[i as int] })
        },
        SlotPlan::Small(m) => slot matches Some(n) && {
            &&& fresh_links(n, (first_id + nn + m) as u32, group_id)
            &&& if cluster_data.small_passives_node_id == NOTHINGNESS_NODE_ID {
                &&& n.name@ == "Nothingness"@
                &&& n.stats@ == cluster_data.added_stats@
            } else {
                let b = t[cluster_data.small_passives_node_id];
                &&& n.stats@ == b.stats@ + cluster_data.added_stats@
                &&& n.same_as(Node { skill: n.skill, group: Some(group_id), in_: n.in_, out: n.out, stats: n.stats, ..b })
            }
        },
    }
}

impl PassiveTree {
    /// The nodes of a cluster jewel laid out on its ring: the sockets, the notables on
    /// their slots in ascending order, then the small passives, with new ids from
    /// `first_id` on.
    #[verifier::rlimit(50)]
    #[verifier::spinoff_prover]
    fn lay_out_cluster(&self, cluster_data: &ClusterData, size: JewelSize, group_id: u16, small_amount: u32, first_id: u32) -> (r: Vec<Option<Node>>)
        requires
            first_id <= 0xFFFF_FF01u32,
            cluster_data.added_sockets_amount as int <= size.spec_socket_order().len(),
        ensures
            r@.len() == size.spec_total_indices(),
            laid_out(node_entries(self.tree_nodes), r@, *cluster_data, size, group_id, small_amount, first_id),
    {
        let ghost tt = node_entries(self.tree_nodes);
        let total_indices = size.total_indices();
        let ghost total = total_indices as nat;
        let nothingness = cluster_data.small_passives_node_id == NOTHINGNESS_NODE_ID;
        let mut id_counter = first_id;
        let mut template: Vec<Option<Node>> = Vec::new();
        while template.len() < total_indices
            invariant
                template@.len() <= total_indices,
                forall|k: int| 0 <= k < template@.len() ==> (#[trigger] template@[k]) is None,
            decreases total_indices - template@.len(),
        {
            template.push(None);
        }
        // Sockets.
        let socket_count = cluster_data.added_sockets_amount as usize;
        let assignments = socket_assignments(size, socket_count);
        let ghost sa = assignments@;
        proof {
            assert forall|j: int| 0 <= j < assignments@.len() implies (#[trigger] assignments@[j]).0 < total_indices by {
                if !(size == JewelSize::Large && socket_count == 1) {
                    assert(assignments@[j].0 == size.spec_socket_order()[j]);
                }
            }
            assert(socket_plan(tt, total, sa, group_id, 0) =~= Seq::new(total, |k: int| SlotPlan::Open));
        }
        let mut a: usize = 0;
        while a < assignments.len()
            invariant
                a <= assignments.len(),
                tt == node_entries(self.tree_nodes),
                sa == assignments@,
                template@.len() == total_indices,
                total_indices == size.spec_total_indices(),
                total == total_indices as nat,
                forall|j: int| 0 <= j < assignments@.len() ==> (#[trigger] assignments@[j]).0 < total_indices,
                socket_plan(tt, total, sa, group_id, a as int).len() == total,
                forall|k: int| 0 <= k < total_indices ==> slot_matches(tt, #[trigger] template@[k],
                    socket_plan(tt, total, sa, group_id, a as int)[k], *cluster_data, size, group_id, first_id, 0),
            decreases assignments.len() - a,
        {
            let (node_idx, expansion_idx) = assignments[a];
            let ghost before = template@;
            proof {
                lemma_socket_plan_kinds(tt, total, sa, group_id, a as int);
                lemma_socket_plan_kinds(tt, total, sa, group_id, a as int + 1);
            }
            match find_group_socket(&self.tree_nodes, group_id, expansion_idx) {
                Some(found) => {
                    let mut node = found.clone();
                    node.group = Some(group_id);
                    node.in_ = Some(Vec::new());
                    node.out = Some(Vec::new());
                    node.is_proxy = false;
                    node.name = if size == JewelSize::Large {
                        String::from_str("Medium Jewel Socket")
                    } else if size == JewelSize::Medium {
                        String::from_str("Small Jewel Socket")
                    } else {
                        String::from_str("Jewel Socket")
                    };
                    template.set(node_idx, Some(node));
                    proof {
                        let t = node_entries(self.tree_nodes);
                        let kk = choose|kk: u32| t.contains_key(kk) && t[kk] == *found && #[trigger] is_group_socket(t[kk], group_id, expansion_idx);
                        assert(has_group_socket(tt, group_id, expansion_idx));
                        let p = socket_plan(tt, total, sa, group_id, a as int + 1);
                        assert forall|k: int| 0 <= k < total_indices implies slot_matches(tt, #[trigger] template@[k],
                            p[k], *cluster_data, size, group_id, first_id, 0) by {
                            if k == node_idx as int {
                                let n = template@[k]->0;
                                assert(p[k] == SlotPlan::Socket(expansion_idx));
                                assert(is_group_socket(t[kk], group_id, expansion_idx));
                                assert(n.same_as(Node { group: Some(group_id), in_: n.in_, out: n.out, is_proxy: false, name: n.name, ..t[kk] }));
                                assert(socket_copy(tt, n, group_id, expansion_idx, size));
                                assert(slot_matches(tt, template@[k], p[k], *cluster_data, size, group_id, first_id, 0));
                            } else {
                                assert(p[k] == socket_plan(tt, total, sa, group_id, a as int)[k]);
                                assert(template@[k] == before[k]);
                            }
                        }
                    }
                },
                None => {
                    proof {
                        assert(!has_group_socket(tt, group_id, expansion_idx));
                    }
                },
            }
            a += 1;
        }
        let ghost ps = socket_plan(tt, total, sa, group_id, sa.len() as int);
        // Notables.
        let notables_len = cluster_data.notables.len();
        let notable_shift = if size != JewelSize::Medium {
            SlotShift::Keep
        } else if socket_count == 0 && notables_len == 2 {
            SlotShift::NotablesPair
        } else if small_amount == 4 {
            SlotShift::NotablesFour
        } else {
            SlotShift::Keep
        };
        let taken = filled(&template);
        proof {
            assert forall|k: int| 0 <= k < total_indices implies taken@[k] == plan_flags(ps)[k] by {
                assert(slot_matches(tt, template@[k], ps[k], *cluster_data, size, group_id, first_id, 0));
            }
            assert(taken@ =~= plan_flags(ps));
        }
        let notable_order = size.notable_order();
        proof {
            assert forall|j: int| 0 <= j < notable_order@.len() implies (crate::cluster::spec_shift(notable_shift, #[trigger] notable_order@[j]) as int) < taken@.len() by {}
            crate::cluster::lemma_pick_bounds(notable_order@, notable_order@.len() as int, notables_len as int, taken@, notable_shift);
        }
        let picked = pick_slots(&notable_order, notables_len, &taken, notable_shift);
        let active_notables = sort_slots(&picked);
        let ghost ns = active_notables@;
        proof {
            assert forall|j: int| 0 <= j < active_notables@.len() implies (#[trigger] active_notables@[j]) < total_indices by {
                assert(active_notables@.contains(active_notables@[j]));
                assert(picked@.contains(active_notables@[j]));
                let q = choose|q: int| 0 <= q < picked@.len() && picked@[q] == active_notables@[j];
                assert(picked@[q] < taken@.len());
            }
            assert(place_plan(ps, ns, 0, true) == ps);
        }
        let ghost nn0: int = if notables_len < ns.len() { notables_len as int } else { ns.len() as int };
        proof {
            lemma_socket_plan_kinds(tt, total, sa, group_id, sa.len() as int);
            assert forall|k: int| 0 <= k < total_indices implies slot_matches(tt, #[trigger] template@[k],
                place_plan(ps, ns, 0, true)[k], *cluster_data, size, group_id, first_id, nn0) by {
                assert(slot_matches(tt, template@[k], ps[k], *cluster_data, size, group_id, first_id, 0));
            }
        }
        let mut i: usize = 0;
        while i < notables_len
            invariant
                i <= notables_len,
                tt == node_entries(self.tree_nodes),
                notables_len == cluster_data.notables@.len(),
                template@.len() == total_indices,
                total_indices == size.spec_total_indices(),
                total == total_indices as nat,
                ns == active_notables@,
                ps.len() == total,
                active_notables@.len() <= 5,
                i <= active_notables@.len(),
                id_counter == first_id + i,
                first_id <= 0xFFFF_FF01u32,
                forall|j: int| 0 <= j < active_notables@.len() ==> (#[trigger] active_notables@[j]) < total_indices,
                nn0 == (if notables_len < ns.len() { notables_len as int } else { ns.len() as int }),
                forall|k: int| 0 <= k < total_indices ==> slot_matches(tt, #[trigger] template@[k],
                    place_plan(ps, ns, i as int, true)[k], *cluster_data, size, group_id, first_id, nn0),
            ensures
                i == notables_len || i == active_notables@.len(),
            decreases notables_len - i,
        {
            if i >= active_notables.len() {
                break;
            }
            let ghost before = template@;
            let mut node = cluster_data.notables[i].clone();
            node.skill = id_counter;
            node.group = Some(group_id);
            node.in_ = Some(Vec::new());
            node.out = Some(Vec::new());
            template.set(active_notables[i], Some(node));
            proof {
                lemma_place_plan_len(ps, ns, i as int, true);
                let p = place_plan(ps, ns, i as int + 1, true);
                assert forall|k: int| 0 <= k < total_indices implies slot_matches(tt, #[trigger] template@[k],
                    p[k], *cluster_data, size, group_id, first_id, nn0) by {
                    if k == ns[i as int] as int {
                        let n = template@[k]->0;
                        assert(n.same_as(Node { skill: n.skill, group: Some(group_id), in_: n.in_, out: n.out, ..cluster_data.notables@[i as int] }));
                    } else {
                        assert(template@[k] == before[k]);
                    }
                }
            }
            id_counter = id_counter + 1;
            i += 1;
        }
        let ghost nn = i as int;
        assert(nn == nn0);
        let ghost pn = place_plan(ps, ns, nn, true);
        proof {
            lemma_place_plan_len(ps, ns, nn, true);
        }
        // Small passives.
        let used = socket_count + active_notables.len();
        let small_count: usize = if (small_amount as usize) > used { small_amount as usize - used } else { 0 };
        let small_shift = if size != JewelSize::Medium {
            SlotShift::Keep
        } else if small_amount == 5 {
            SlotShift::SmallsFive
        } else if small_amount == 4 {
            SlotShift::SmallsFour
        } else {
            SlotShift::Keep
        };
        let taken2 = filled(&template);
        proof {
            assert forall|k: int| 0 <= k < total_indices implies taken2@[k] == plan_flags(pn)[k] by {
                assert(slot_matches(tt, template@[k], pn[k], *cluster_data, size, group_id, first_id, nn0));
            }
            assert(taken2@ =~= plan_flags(pn));
        }
        let small_order = size.small_order();
        proof {
            assert forall|j: int| 0 <= j < small_order@.len() implies (crate::cluster::spec_shift(small_shift, #[trigger] small_order@[j]) as int) < taken2@.len() by {}
            crate::cluster::lemma_pick_bounds(small_order@, small_order@.len() as int, small_count as int, taken2@, small_shift);
        }
        let smalls = pick_slots(&small_order, small_count, &taken2, small_shift);
        let ghost picks2 = smalls@;
        let small_base: Option<Node> = if nothingness {
            let mut n = blank_node();
            n.name = String::from_str("Nothingness");
            n.icon = String::from_str("Art/2DArt/SkillIcons/passives/flaskdex.png");
            Some(n)
        } else {
            match map_get(&self.tree_nodes, cluster_data.small_passives_node_id) {
                Some(n) => Some(n.clone()),
                None => None,
            }
        };
        proof {
            assert(place_plan(pn, picks2, 0, false) == pn);
            assert(small_base is Some <==> has_small_base(tt, *cluster_data));
        }
        let mut k: usize = 0;
        match &small_base {
            Some(sb) => {
                while k < smalls.len()
                    invariant
                        k <= smalls.len(),
                        tt == node_entries(self.tree_nodes),
                        smalls@.len() <= 12,
                        picks2 == smalls@,
                        template@.len() == total_indices,
                        pn.len() == total_indices,
                        0 <= nn <= 5,
                        id_counter == first_id + nn + k,
                        first_id <= 0xFFFF_FF01u32,
                        small_base == Some(*sb),
                        nothingness == (cluster_data.small_passives_node_id == NOTHINGNESS_NODE_ID),
                        nothingness ==> sb.name@ == "Nothingness"@ && sb.stats@.len() == 0,
                        !nothingness ==> sb.same_as(node_entries(self.tree_nodes)[cluster_data.small_passives_node_id]),
                        forall|j: int| 0 <= j < smalls@.len() ==> (#[trigger] smalls@[j] as int) < total_indices,
                        forall|q: int| 0 <= q < total_indices ==> slot_matches(tt, #[trigger] template@[q],
                            place_plan(pn, picks2, k as int, false)[q], *cluster_data, size, group_id, first_id, nn),
                    decreases smalls.len() - k,
                {
                    let ghost before = template@;
                    let mut node = sb.clone();
                    node.skill = id_counter;
                    node.group = Some(group_id);
                    node.in_ = Some(Vec::new());
                    node.out = Some(Vec::new());
                    append_strings(&mut node.stats, &cluster_data.added_stats);
                    template.set(smalls[k], Some(node));
                    proof {
                        lemma_place_plan_len(pn, picks2, k as int, false);
                        let p = place_plan(pn, picks2, k as int + 1, false);
                        assert forall|q: int| 0 <= q < total_indices implies slot_matches(tt, #[trigger] template@[q],
                            p[q], *cluster_data, size, group_id, first_id, nn) by {
                            if q == picks2[k as int] as int {
                                let n = template@[q]->0;
                                if !nothingness {
                                    let b = node_entries(self.tree_nodes)[cluster_data.small_passives_node_id];
                                    assert(n.same_as(Node { skill: n.skill, group: Some(group_id), in_: n.in_, out: n.out, stats: n.stats, ..b }));
                                }
                            } else {
                                assert(template@[q] == before[q]);
                            }
                        }
                    }
                    id_counter = id_counter + 1;
                    k += 1;
                }
            },
            None => {},
        }
        proof {
            let plan = if has_small_base(tt, *cluster_data) { place_plan(pn, picks2, picks2.len() as int, false) } else { pn };
            lemma_place_plan_len(pn, picks2, picks2.len() as int, false);
            reveal(laid_out);
            assert(cluster_plan(tt, plan, ns, *cluster_data, size, group_id, small_amount));
            assert forall|q: int| 0 <= q < template@.len() implies slot_matches(tt, #[trigger] template@[q], plan[q], *cluster_data, size, group_id, first_id,
                    if cluster_data.notables@.len() < ns.len() { cluster_data.notables@.len() as int } else { ns.len() as int }) by {
            }
        }
        template
    }
}

/// Slot `k` of the layout holds a node.
pub open spec fn holds(t: Seq<Option<Node>>, k: int) -> bool {
    0 <= k < t.len() && t[k] is Some
}

/// The first slot after `k` that holds a node.
pub open spec fn next_held(t: Seq<Option<Node>>, k: int) -> Option<int> {
    if exists|j: int| k < j && #[trigger] holds(t, j) {
        Some(choose|j: int| k < j && holds(t, j) && forall|m: int| k < m < j ==> !#[trigger] holds(t, m))
    } else {
        None
    }
}

/// The last slot before `k` that holds a node.
pub open spec fn prev_held(t: Seq<Option<Node>>, k: int) -> Option<int> {
    if exists|j: int| j < k && #[trigger] holds(t, j) {
        Some(choose|j: int| j < k && holds(t, j) && forall|m: int| j < m < k ==> !#[trigger] holds(t, m))
    } else {
        None
    }
}

/// The ring closes, from the last filled slot back to the first: on a jewel other than a
/// small one, with two filled slots or more.
pub open spec fn ring_closes(t: Seq<Option<Node>>, size: JewelSize) -> bool {
    &&& size != JewelSize::Small
    &&& next_held(t, -1) matches Some(f) && next_held(t, f) is Some
}

/// The skills the out-links of the node in slot `k` gain: that of the next filled slot,
/// or, for the last one of a ring that closes, that of the first.
pub open spec fn ring_out(t: Seq<Option<Node>>, k: int, size: JewelSize) -> Seq<u32> {
    match next_held(t, k) {
        Some(j) => seq![t[j]->0.skill],
        None => if ring_closes(t, size) {
            seq![t[next_held(t, -1)->0]->0.skill]
        } else {
            seq![]
        },
    }
}

/// The skills the in-links of the node in slot `k` gain: that of the previous filled slot,
/// or, for the first one of a ring that closes, that of the last.
pub open spec fn ring_in(t: Seq<Option<Node>>, k: int, size: JewelSize) -> Seq<u32> {
    match prev_held(t, k) {
        Some(j) => seq![t[j]->0.skill],
        None => if ring_closes(t, size) {
            seq![t[prev_held(t, t.len() as int)->0]->0.skill]
        } else {
            seq![]
        },
    }
}

/// `m` is the node `n` whose out-links gained `outs` and whose in-links gained `ins`, in
/// order, with nothing else changed.
pub open spec fn relinked(n: Node, m: Node, outs: Seq<u32>, ins: Seq<u32>) -> bool {
    &&& m == Node { out: m.out, in_: m.in_, ..n }
    &&& link_ids(m.out) == link_ids(n.out) + outs
    &&& outs.len() == 0 ==> m.out == n.out
    &&& outs.len() > 0 ==> m.out is Some
    &&& link_ids(m.in_) == link_ids(n.in_) + ins
    &&& ins.len() == 0 ==> m.in_ == n.in_
    &&& ins.len() > 0 ==> m.in_ is Some
}

/// `f` lists, in increasing order, exactly the slots that hold a node.
pub open spec fn lists_held(f: Seq<usize>, t: Seq<Option<Node>>) -> bool {
    &&& forall|j: int| 0 <= j < f.len() ==> (#[trigger] f[j] as int) < t.len() && t[f[j] as int] is Some
    &&& forall|a: int, b: int| 0 <= a < b < f.len() ==> f[a] < f[b]
    &&& forall|k: int| 0 <= k < t.len() && (#[trigger] t[k]) is Some ==> f.contains(k as usize)
}

/// The slot of a held node is listed.
proof fn lemma_listed(f: Seq<usize>, t: Seq<Option<Node>>, k: int) -> (p: int)
    requires
        lists_held(f, t),
        holds(t, k),
        t.len() <= usize::MAX,
    ensures
        0 <= p < f.len(),
        f[p] == k,
{
    assert(t[k] is Some);
    assert(f.contains(k as usize));
    let p = choose|p: int| 0 <= p < f.len() && f[p] == k as usize;
    assert(k as usize as int == k);
    p
}

/// The first held slot after `k` is `j` when `j` holds a node and none between does.
proof fn lemma_next_is(t: Seq<Option<Node>>, k: int, j: int)
    requires
        k < j,
        holds(t, j),
        forall|m: int| k < m < j ==> !#[trigger] holds(t, m),
    ensures
        next_held(t, k) == Some(j),
{
    let c = choose|c: int| k < c && holds(t, c) && forall|m: int| k < m < c ==> !#[trigger] holds(t, m);
    if c < j {
        assert(!holds(t, c));
    } else if c > j {
        assert(!holds(t, j));
    }
}

/// The last held slot before `k` is `j` when `j` holds a node and none between does.
proof fn lemma_prev_is(t: Seq<Option<Node>>, k: int, j: int)
    requires
        j < k,
        holds(t, j),
        forall|m: int| j < m < k ==> !#[trigger] holds(t, m),
    ensures
        prev_held(t, k) == Some(j),
{
    let c = choose|c: int| c < k && holds(t, c) && forall|m: int| c < m < k ==> !#[trigger] holds(t, m);
    if c < j {
        assert(!holds(t, j));
    } else if c > j {
        assert(!holds(t, c));
    }
}

/// No slot outside the list's span, and none between two neighbours of the list, holds
/// a node.
proof fn lemma_gap(f: Seq<usize>, t: Seq<Option<Node>>, lo: int, hi: int, m: int)
    requires
        lists_held(f, t),
        t.len() <= usize::MAX,
        -1 <= lo < hi <= f.len(),
        lo == -1 || m > f[lo] as int,
        hi == f.len() || m < f[hi] as int,
        hi == lo + 1,
    ensures
        !holds(t, m),
{
    if holds(t, m) {
        let q = lemma_listed(f, t, m);
        if q <= lo {
            if q < lo {
                assert(f[q] < f[lo]);
            }
        } else {
            if q > hi {
                assert(f[hi] < f[q]);
            }
        }
    }
}

/// The neighbours of a listed slot are those of the list.
proof fn lemma_neighbours(f: Seq<usize>, t: Seq<Option<Node>>, p: int)
    requires
        lists_held(f, t),
        0 <= p < f.len(),
        t.len() <= usize::MAX,
    ensures
        p + 1 < f.len() ==> next_held(t, f[p] as int) == Some(f[p + 1] as int),
        p + 1 == f.len() ==> next_held(t, f[p] as int) is None,
        p > 0 ==> prev_held(t, f[p] as int) == Some(f[p - 1] as int),
        p == 0 ==> prev_held(t, f[p] as int) is None,
{
    let k = f[p] as int;
    assert forall|m: int| k < m && (p + 1 == f.len() || m < f[p + 1] as int) implies !#[trigger] holds(t, m) by {
        lemma_gap(f, t, p, p + 1, m);
    }
    assert forall|m: int| m < k && (p == 0 || m > f[p - 1] as int) implies !#[trigger] holds(t, m) by {
        lemma_gap(f, t, p - 1, p, m);
    }
    if p + 1 < f.len() {
        assert(holds(t, f[p + 1] as int));
        lemma_next_is(t, k, f[p + 1] as int);
    }
    if p > 0 {
        assert(holds(t, f[p - 1] as int));
        lemma_prev_is(t, k, f[p - 1] as int);
    }
}

/// The ends of the list are the first and the last filled slots.
proof fn lemma_ends(f: Seq<usize>, t: Seq<Option<Node>>)
    requires
        lists_held(f, t),
        t.len() <= usize::MAX,
    ensures
        f.len() > 0 ==> next_held(t, -1) == Some(f[0] as int),
        f.len() > 0 ==> prev_held(t, t.len() as int) == Some(f[f.len() - 1] as int),
        f.len() == 0 ==> next_held(t, -1) is None,
{
    if f.len() > 0 {
        let n = f.len() - 1;
        assert forall|m: int| -1 < m < f[0] as int implies !#[trigger] holds(t, m) by {
            lemma_gap(f, t, -1, 0, m);
        }
        assert(holds(t, f[0] as int));
        lemma_next_is(t, -1, f[0] as int);
        assert forall|m: int| (f[n] as int) < m < t.len() implies !#[trigger] holds(t, m) by {
            lemma_gap(f, t, n, n + 1, m);
        }
        assert(holds(t, f[n] as int));
        lemma_prev_is(t, t.len() as int, f[n] as int);
    } else {
        assert forall|m: int| -1 < m implies !#[trigger] holds(t, m) by {
            lemma_gap(f, t, -1, 0, m);
        }
    }
}

/// The skills the out-links of the node at position `p` of the list gained after the first
/// `i` links of the chain.
pub open spec fn chain_out(f: Seq<usize>, t: Seq<Option<Node>>, i: int, p: int) -> Seq<u32> {
    if p < i {
        seq![t[f[p + 1] as int]->0.skill]
    } else {
        seq![]
    }
}

/// The skills the in-links of the node at position `p` of the list gained after the first
/// `i` links of the chain.
pub open spec fn chain_in(f: Seq<usize>, t: Seq<Option<Node>>, i: int, p: int) -> Seq<u32> {
    if 1 <= p <= i {
        seq![t[f[p - 1] as int]->0.skill]
    } else {
        seq![]
    }
}

/// Links the filled slots in ring order: each to the next, and, but on a small jewel,
/// the last back to the first.
fn link_ring(template: &mut Vec<Option<Node>>, size: JewelSize)
    requires
        old(template)@.len() == size.spec_total_indices(),
    ensures
        final(template)@.len() == old(template)@.len(),
        forall|k: int|
            0 <= k < old(template)@.len() ==> {
                &&& old(template)@[k] is None ==> final(template)@[k] is None
                &&& old(template)@[k] is Some ==> final(template)@[k] is Some && relinked(
                    old(template)@[k]->0,
                    final(template)@[k]->0,
                    ring_out(old(template)@, k, size),
                    ring_in(old(template)@, k, size),
                )
            },
{
    let ghost t0 = template@;
    let total_indices = size.total_indices();
        // Link the nodes in ring order.
        let active = filled_slots(template);
        let ghost f = active@;
        let mut i: usize = 0;
        while i + 1 < active.len()
            invariant
                i <= active@.len(),
                i == 0 || i < active@.len(),
                f == active@,
                lists_held(f, t0),
                active@.len() <= total_indices,
                total_indices <= 12,
                template@.len() == total_indices,
                t0.len() == total_indices,
                forall|k: int| 0 <= k < t0.len() && t0[k] is None ==> #[trigger] template@[k] is None,
                forall|p: int|
                    0 <= p < f.len() ==> #[trigger] template@[f[p] as int] is Some && relinked(
                        t0[f[p] as int]->0,
                        template@[f[p] as int]->0,
                        chain_out(f, t0, i as int, p),
                        chain_in(f, t0, i as int, p),
                    ),
            decreases active.len() - i,
        {
            let curr = active[i];
            let next = active[i + 1];
            assert(template@[f[i as int] as int] is Some);
            assert(template@[f[i + 1] as int] is Some);
            let ghost before = template@;
            let mut curr_node = take_slot(template, curr).unwrap();
            let mut next_node = take_slot(template, next).unwrap();
            let cs = curr_node.skill;
            let ns = next_node.skill;
            curr_node.out = link_push(curr_node.out, ns);
            next_node.in_ = link_push(next_node.in_, cs);
            template.set(curr, Some(curr_node));
            template.set(next, Some(next_node));
            proof {
                assert forall|k: int| 0 <= k < t0.len() && t0[k] is None implies #[trigger] template@[k] is None by {
                    if k == curr || k == next {
                        assert(t0[f[i as int] as int] is Some);
                        assert(t0[f[i + 1] as int] is Some);
                    } else {
                        assert(template@[k] == before[k]);
                    }
                }
                assert forall|p: int| 0 <= p < f.len() implies #[trigger] template@[f[p] as int] is Some && relinked(
                    t0[f[p] as int]->0,
                    template@[f[p] as int]->0,
                    chain_out(f, t0, i + 1, p),
                    chain_in(f, t0, i + 1, p),
                ) by {
                    if p == i {
                        assert(f[p] == curr);
                        assert(chain_out(f, t0, i as int, p) =~= Seq::<u32>::empty());
                        assert(chain_out(f, t0, i + 1, p) =~= seq![ns]);
                        assert(chain_in(f, t0, i + 1, p) == chain_in(f, t0, i as int, p));
                        assert(curr != next);
                        assert(link_ids(template@[f[p] as int]->0.out) =~= link_ids(t0[f[p] as int]->0.out) + seq![ns]);
                    } else if p == i + 1 {
                        assert(f[p] == next);
                        assert(chain_in(f, t0, i as int, p) =~= Seq::<u32>::empty());
                        assert(chain_in(f, t0, i + 1, p) =~= seq![cs]);
                        assert(chain_out(f, t0, i + 1, p) == chain_out(f, t0, i as int, p));
                        assert(link_ids(template@[f[p] as int]->0.in_) =~= link_ids(t0[f[p] as int]->0.in_) + seq![cs]);
                    } else {
                        if p < i {
                            assert(f[p] < f[i as int]);
                        } else {
                            assert(f[i + 1] < f[p]);
                        }
                        assert(template@[f[p] as int] == before[f[p] as int]);
                        assert(chain_out(f, t0, i + 1, p) == chain_out(f, t0, i as int, p));
                        assert(chain_in(f, t0, i + 1, p) == chain_in(f, t0, i as int, p));
                    }
                }
            }
            i += 1;
        }
        let n = active.len();
        let closes = n >= 2 && size != JewelSize::Small;
        proof {
            lemma_ends(f, t0);
            if n >= 2 {
                lemma_neighbours(f, t0, 0);
            } else if n == 1 {
                lemma_neighbours(f, t0, 0);
            }
            assert(closes == ring_closes(t0, size));
        }
        if closes {
            let first = active[0];
            let last = active[n - 1];
            assert(template@[f[0] as int] is Some);
            assert(template@[f[n - 1] as int] is Some);
            let ghost before = template@;
            let mut last_node = take_slot(template, last).unwrap();
            let mut first_node = take_slot(template, first).unwrap();
            let fs = first_node.skill;
            let ls = last_node.skill;
            last_node.out = link_push(last_node.out, fs);
            first_node.in_ = link_push(first_node.in_, ls);
            template.set(last, Some(last_node));
            template.set(first, Some(first_node));
            proof {
                assert(f[0] < f[n - 1]);
                assert forall|k: int| 0 <= k < t0.len() && t0[k] is None implies #[trigger] template@[k] is None by {
                    if k == first || k == last {
                        assert(t0[f[0] as int] is Some);
                        assert(t0[f[n - 1] as int] is Some);
                    } else {
                        assert(template@[k] == before[k]);
                    }
                }
            }
        }
        proof {
            assert forall|k: int| 0 <= k < t0.len() implies {
                &&& t0[k] is None ==> template@[k] is None
                &&& t0[k] is Some ==> template@[k] is Some && relinked(
                    t0[k]->0,
                    template@[k]->0,
                    ring_out(t0, k, size),
                    ring_in(t0, k, size),
                )
            } by {
                if t0[k] is Some {
                    assert(holds(t0, k));
                    let p = lemma_listed(f, t0, k);
                    lemma_neighbours(f, t0, p);
                    let io = i as int;
                    assert(n == 0 || io == n - 1);
                    if closes {
                        if p == 0 {
                            assert(f[0] != f[n - 1]);
                            assert(ring_in(t0, k, size) =~= seq![t0[f[n - 1] as int]->0.skill]);
                            assert(ring_out(t0, k, size) =~= chain_out(f, t0, io, p));
                        } else if p == n - 1 {
                            assert(ring_out(t0, k, size) =~= seq![t0[f[0] as int]->0.skill]);
                            assert(ring_in(t0, k, size) =~= chain_in(f, t0, io, p));
                        } else {
                            assert(f[0] < f[p] && f[p] < f[n - 1]);
                            assert(ring_out(t0, k, size) =~= chain_out(f, t0, io, p));
                            assert(ring_in(t0, k, size) =~= chain_in(f, t0, io, p));
                        }
                    } else {
                        assert(ring_out(t0, k, size) =~= chain_out(f, t0, io, p));
                        assert(ring_in(t0, k, size) =~= chain_in(f, t0, io, p));
                    }
                }
            }
        }
}

impl PassiveTree {
    /// The game's socket node `jewel_node_id` opens a cluster jewel: it has an expansion
    /// jewel whose proxy node is in the game's tree with a group.
    pub open spec fn opens_cluster(&self, jewel_node_id: u32) -> bool {
        let t = node_entries(self.tree_nodes);
        &&& t.contains_key(jewel_node_id)
        &&& t[jewel_node_id].expansion_jewel is Some
        &&& t.contains_key(t[jewel_node_id].expansion_jewel->0.proxy)
        &&& t[t[jewel_node_id].expansion_jewel->0.proxy].group is Some
    }

    /// The proxy node of the cluster jewel socket.
    pub open spec fn cluster_proxy(&self, jewel_node_id: u32) -> u32 {
        node_entries(self.tree_nodes)[jewel_node_id].expansion_jewel->0.proxy
    }

    /// The number of slots of the tree orbit a jewel size uses: the game's count for the
    /// orbit, or 16 when the game has none.
    pub open spec fn orbit_slots(&self, size: JewelSize) -> usize {
        let o = size.spec_orbit() as int;
        if o < self.skills_per_orbit@.len() { self.skills_per_orbit@[o] as usize } else { 16 }
    }

    /// Stores the nodes of a cluster jewel's ring in the table under their ids, in slot
    /// order, each placed on the tree orbit, and lists them with the socket.
    fn place_ring(&mut self, template: Vec<Option<Node>>, jewel_node_id: u32, proxy_node_id: u32, size: JewelSize, skills_per_orbit: usize, Ghost(g2): Ghost<Map<u32, Node>>)
        requires
            template@.len() == size.spec_total_indices(),
            skills_per_orbit <= 65536,
            tables_alike(old(self).graph(), g2),
        ensures
            final(self).class == old(self).class,
            final(self).ascendancy == old(self).ascendancy,
            final(self).bloodline == old(self).bloodline,
            final(self).nodes == old(self).nodes,
            final(self).tree_nodes == old(self).tree_nodes,
            final(self).path_of_the == old(self).path_of_the,
            final(self).masteries == old(self).masteries,
            final(self).tattoos == old(self).tattoos,
            final(self).skills_per_orbit == old(self).skills_per_orbit,
            final(self).nodes_cluster@ == old(self).nodes_cluster@ + orbit_entries(template@, jewel_node_id, template@.len() as int, proxy_node_id, size, skills_per_orbit as int),
            tables_alike(final(self).graph(), orbit_table(g2, template@, template@.len() as int, proxy_node_id, size, skills_per_orbit as int)),
    {
        let ghost t2 = template@;
        let ghost base = self.nodes_cluster@;
        let mut template = template;
        let size_index = size.size_index();
        let total_indices = size.total_indices();
        let orbit = size.orbit();
        proof {
            lemma_offsets_small(proxy_node_id, size_index as int);
            assert(orbit_entries(t2, jewel_node_id, 0, proxy_node_id, size, skills_per_orbit as int) =~= Seq::<(u32, Node)>::empty());
            assert(base =~= base + orbit_entries(t2, jewel_node_id, 0, proxy_node_id, size, skills_per_orbit as int));
        }
        // Place the nodes on the tree.
        let mut idx: usize = 0;
        while idx < total_indices
            invariant
                idx <= total_indices,
                template@.len() == total_indices,
                t2.len() == total_indices,
                total_indices == size.spec_total_indices(),
                size_index == size.spec_size_index(),
                orbit == size.spec_orbit(),
                skills_per_orbit <= 65536,
                self.class == old(self).class,
                self.ascendancy == old(self).ascendancy,
                self.bloodline == old(self).bloodline,
                self.nodes == old(self).nodes,
                self.tree_nodes == old(self).tree_nodes,
                self.path_of_the == old(self).path_of_the,
                self.masteries == old(self).masteries,
                self.tattoos == old(self).tattoos,
                self.skills_per_orbit == old(self).skills_per_orbit,
                forall|k: int| idx <= k < total_indices ==> #[trigger] template@[k] == t2[k],
                self.nodes_cluster@ == base + orbit_entries(t2, jewel_node_id, idx as int, proxy_node_id, size, skills_per_orbit as int),
                tables_alike(self.graph(), orbit_table(g2, t2, idx as int, proxy_node_id, size, skills_per_orbit as int)),
            decreases total_indices - idx,
        {
            let ghost before = template@;
            let ghost g_before = self.graph();
            match take_slot(&mut template, idx) {
                Some(mut node) => {
                    proof {
                        lemma_offsets_small(proxy_node_id, size_index as int);
                        let c = (idx + spec_orbit_offsets(proxy_node_id)[size_index as int]) % (total_indices as int);
                        assert(0 <= c < total_indices);
                        assert(c * skills_per_orbit <= 12 * 65536) by (nonlinear_arith)
                            requires 0 <= c < 12, skills_per_orbit <= 65536;
                    }
                    let place = apply_cluster_orbit_index_adjustment(idx, proxy_node_id, size_index, total_indices, skills_per_orbit);
                    node.orbit = Some(orbit);
                    node.orbit_index = Some(place as u16);
                    let skill = node.skill;
                    let copy = node.clone();
                    map_insert(&mut self.nodes_data, skill, copy);
                    let ghost cl = self.nodes_cluster@;
                    self.nodes_cluster.push((jewel_node_id, node));
                    proof {
                        let ob = on_orbit(t2[idx as int]->0, idx as int, proxy_node_id, size, skills_per_orbit as int);
                        assert(node == ob);
                        let prev = orbit_table(g2, t2, idx as int, proxy_node_id, size, skills_per_orbit as int);
                        assert(orbit_table(g2, t2, idx as int + 1, proxy_node_id, size, skills_per_orbit as int) == prev.insert(skill, ob));
                        assert(self.graph() == g_before.insert(skill, copy));
                        assert(self.graph().dom() =~= prev.insert(skill, ob).dom());
                        assert forall|key: u32| self.graph().contains_key(key) implies (#[trigger] self.graph()[key]).same_as(prev.insert(skill, ob)[key]) by {
                            if key != skill {
                                assert(g_before[key].same_as(prev[key]));
                            }
                        }
                        assert(self.nodes_cluster@ =~= base + orbit_entries(t2, jewel_node_id, idx as int + 1, proxy_node_id, size, skills_per_orbit as int));
                    }
                },
                None => {
                    proof {
                        assert(self.nodes_cluster@ =~= base + orbit_entries(t2, jewel_node_id, idx as int + 1, proxy_node_id, size, skills_per_orbit as int));
                        assert(orbit_table(g2, t2, idx as int + 1, proxy_node_id, size, skills_per_orbit as int)
                            == orbit_table(g2, t2, idx as int, proxy_node_id, size, skills_per_orbit as int));
                    }
                },
            }
            proof {
                assert forall|k: int| idx + 1 <= k < total_indices implies #[trigger] template@[k] == t2[k] by {
                    assert(template@[k] == before[k]);
                }
            }
            idx += 1;
        }
    }

    /// Links the first slot of a ring from the socket, when it holds a node: the node's
    /// in-links gain the socket, the socket's out-links gain the node, and the socket is
    /// listed with the cluster entries.
    fn link_entrance(&mut self, template: &mut Vec<Option<Node>>, jewel_node_id: u32)
        requires
            old(self).graph().contains_key(jewel_node_id),
            old(template)@.len() > 0,
        ensures
            final(self).class == old(self).class,
            final(self).ascendancy == old(self).ascendancy,
            final(self).bloodline == old(self).bloodline,
            final(self).nodes == old(self).nodes,
            final(self).tree_nodes == old(self).tree_nodes,
            final(self).path_of_the == old(self).path_of_the,
            final(self).masteries == old(self).masteries,
            final(self).tattoos == old(self).tattoos,
            final(self).skills_per_orbit == old(self).skills_per_orbit,
            final(template)@.len() == old(template)@.len(),
            forall|k: int| 1 <= k < old(template)@.len() ==> #[trigger] final(template)@[k] == old(template)@[k],
            old(template)@[0] is None ==> {
                &&& final(template)@[0] is None
                &&& final(self).graph() == old(self).graph()
                &&& final(self).nodes_cluster@ == old(self).nodes_cluster@
            },
            old(template)@[0] is Some ==> {
                &&& final(template)@[0] is Some
                &&& relinked(old(template)@[0]->0, final(template)@[0]->0, Seq::empty(), seq![jewel_node_id])
                &&& exists|j: Node| {
                    &&& j.same_as(Node { out: j.out, ..old(self).graph()[jewel_node_id] })
                    &&& link_ids(j.out) == link_ids(old(self).graph()[jewel_node_id].out).push(old(template)@[0]->0.skill)
                    &&& final(self).nodes_cluster@ == old(self).nodes_cluster@.push((jewel_node_id, j))
                    &&& tables_alike(final(self).graph(), old(self).graph().insert(jewel_node_id, j))
                }
            },
    {
        if template[0].is_some() {
            let ghost t1 = template@;
            let mut entrance = take_slot(template, 0).unwrap();
            entrance.in_ = link_push(entrance.in_, jewel_node_id);
            let es = entrance.skill;
            template.set(0, Some(entrance));
            let mut jewel_node = map_get(&self.nodes_data, jewel_node_id).unwrap().clone();
            jewel_node.out = link_push(jewel_node.out, es);
            let copy = jewel_node.clone();
            let ghost g_pre = self.graph();
            map_insert(&mut self.nodes_data, jewel_node_id, copy);
            let ghost c_pre = self.nodes_cluster@;
            self.nodes_cluster.push((jewel_node_id, jewel_node));
            proof {
                let e0 = template@[0]->0;
                assert(link_ids(e0.out) =~= link_ids(t1[0]->0.out) + Seq::<u32>::empty());
                assert(link_ids(e0.in_) =~= link_ids(t1[0]->0.in_) + seq![jewel_node_id]);
                assert(relinked(t1[0]->0, e0, Seq::empty(), seq![jewel_node_id]));
                assert(self.graph().dom() =~= g_pre.insert(jewel_node_id, jewel_node).dom());
                assert forall|key: u32| self.graph().contains_key(key) implies (#[trigger] self.graph()[key]).same_as(g_pre.insert(jewel_node_id, jewel_node)[key]) by {}
                assert(self.nodes_cluster@ == c_pre.push((jewel_node_id, jewel_node)));
            }
        }
    }

    /// Lays out, links and places the ring of a cluster jewel of `size` at the socket
    /// `jewel_node_id`, whose proxy is `proxy_node_id` in group `group_id`.
    #[verifier::rlimit(50)]
    #[verifier::spinoff_prover]
    fn add_ring(&mut self, cluster_data: &ClusterData, jewel_node_id: u32, size: JewelSize, group_id: u16, proxy_node_id: u32)
        requires
            old(self).cluster_ids_room(),
            old(self).graph().contains_key(jewel_node_id),
            group_id == old(self).cluster_group(jewel_node_id),
            proxy_node_id == old(self).cluster_proxy(jewel_node_id),
            cluster_data.small_passives_node_id == NOTHINGNESS_NODE_ID ==> cluster_data.small_passives_amount <= u32::MAX - 3,
            cluster_data.added_sockets_amount as int <= size.spec_socket_order().len(),
        ensures
            final(self).class == old(self).class,
            final(self).ascendancy == old(self).ascendancy,
            final(self).bloodline == old(self).bloodline,
            final(self).nodes == old(self).nodes,
            final(self).tree_nodes == old(self).tree_nodes,
            final(self).path_of_the == old(self).path_of_the,
            final(self).masteries == old(self).masteries,
            final(self).tattoos == old(self).tattoos,
            final(self).skills_per_orbit == old(self).skills_per_orbit,
            exists|t0: Seq<Option<Node>>, t1: Seq<Option<Node>>, t2: Seq<Option<Node>>, j: Node| {
                &&& old(self).ring_placed(*final(self), *cluster_data, jewel_node_id, size, t0, t1, t2, j)
                &&& j.same_as(Node { out: j.out, ..old(self).graph()[jewel_node_id] })
                &&& link_ids(j.out) == link_ids(old(self).graph()[jewel_node_id].out)
                    + (if t1[0] is Some { seq![t1[0]->0.skill] } else { Seq::empty() })
            },
    {
        let ghost g1 = self.graph();
        let ghost j0 = g1[jewel_node_id];
        let size_index = size.size_index();
        let total_indices = size.total_indices();
        let orbit = size.orbit();
        let skills_per_orbit: usize = if (orbit as usize) < self.skills_per_orbit.len() {
            self.skills_per_orbit[orbit as usize] as usize
        } else {
            16
        };
        let mut small_amount = cluster_data.small_passives_amount;
        if cluster_data.small_passives_node_id == NOTHINGNESS_NODE_ID {
            small_amount = small_amount + 3;
        }
        let id_counter = self.next_cluster_id();
        let template0 = self.lay_out_cluster(cluster_data, size, group_id, small_amount, id_counter);
        let ghost t0 = template0@;
        let mut template = template0;
        link_ring(&mut template, size);
        let ghost t1 = template@;
        // Link the entrance from the socket.
        let ghost g_mid = self.graph();
        let ghost c_mid = self.nodes_cluster@;
        self.link_entrance(&mut template, jewel_node_id);
        let ghost t2 = template@;
        let ghost mut j: Node = j0;
        proof {
            if t1[0] is Some {
                j = choose|j: Node| {
                    &&& j.same_as(Node { out: j.out, ..g_mid[jewel_node_id] })
                    &&& link_ids(j.out) == link_ids(g_mid[jewel_node_id].out).push(t1[0]->0.skill)
                    &&& self.nodes_cluster@ == c_mid.push((jewel_node_id, j))
                    &&& tables_alike(self.graph(), g_mid.insert(jewel_node_id, j))
                };
                assert(link_ids(j.out) =~= link_ids(j0.out) + seq![t1[0]->0.skill]);
            } else {
                assert(link_ids(j.out) =~= link_ids(j0.out) + Seq::<u32>::empty());
                assert(g1.insert(jewel_node_id, j) =~= g1);
                assert forall|key: u32| self.graph().contains_key(key) implies (#[trigger] self.graph()[key]).same_as(g1.insert(jewel_node_id, j)[key]) by {}
            }
        }
        let ghost g2 = g1.insert(jewel_node_id, j);
        // Place the nodes on the tree.
        proof {
            lemma_offsets_small(proxy_node_id, size_index as int);
        }
        self.place_ring(template, jewel_node_id, proxy_node_id, size, skills_per_orbit, Ghost(g2));
        proof {
            assert(self.nodes_cluster@ =~= old(self).nodes_cluster@
                + (if t1[0] is Some { seq![(jewel_node_id, j)] } else { Seq::empty() })
                + orbit_entries(t2, jewel_node_id, t2.len() as int, proxy_node_id, size, skills_per_orbit as int));
            assert(forall|k: int| 1 <= k < t1.len() ==> #[trigger] t2[k] == t1[k]);
            assert(old(self).ring_placed(*self, *cluster_data, jewel_node_id, size, t0, t1, t2, j));
        }
    }

    /// The group of the proxy node of the cluster jewel socket.
    pub open spec fn cluster_group(&self, jewel_node_id: u32) -> u16 {
        node_entries(self.tree_nodes)[self.cluster_proxy(jewel_node_id)].group->0
    }

    /// `after` is this tree with the ring of a cluster jewel of `size` placed at the
    /// socket `jewel_node_id`: `t0` is the ring laid out (new ids after the cluster
    /// entries), `t1` the ring linked in ring order, `t2` with the first slot linked from
    /// the socket; `j` is the socket's node as it ends up. The socket (when linked) and the
    /// ring's nodes, placed on the tree orbit, are listed with the cluster entries and
    /// stored in the table, nothing else changing.
    pub open spec fn ring_placed(&self, after: PassiveTree, cluster_data: ClusterData, jewel_node_id: u32, size: JewelSize,
        t0: Seq<Option<Node>>, t1: Seq<Option<Node>>, t2: Seq<Option<Node>>, j: Node) -> bool {
        let proxy = self.cluster_proxy(jewel_node_id);
        let per_orbit = self.orbit_slots(size) as int;
        let small_amount = if cluster_data.small_passives_node_id == NOTHINGNESS_NODE_ID {
            (cluster_data.small_passives_amount + 3) as u32
        } else {
            cluster_data.small_passives_amount
        };
        &&& laid_out(node_entries(self.tree_nodes), t0, cluster_data, size, self.cluster_group(jewel_node_id), small_amount,
            next_cluster_id_of(self.nodes_cluster@))
        &&& t1.len() == t0.len() && t2.len() == t0.len()
        &&& forall|k: int| 0 <= k < t0.len() ==> {
            &&& (#[trigger] t0[k]) is None ==> t1[k] is None
            &&& t0[k] is Some ==> t1[k] is Some && relinked(t0[k]->0, t1[k]->0, ring_out(t0, k, size), ring_in(t0, k, size))
        }
        &&& forall|k: int| 1 <= k < t1.len() ==> #[trigger] t2[k] == t1[k]
        &&& t1[0] is None ==> t2[0] is None
        &&& t1[0] is Some ==> t2[0] is Some && relinked(t1[0]->0, t2[0]->0, Seq::empty(), seq![jewel_node_id])
        &&& after.nodes_cluster@ == self.nodes_cluster@
            + (if t1[0] is Some { seq![(jewel_node_id, j)] } else { Seq::empty() })
            + orbit_entries(t2, jewel_node_id, t2.len() as int, proxy, size, per_orbit)
        &&& tables_alike(after.graph(),
            orbit_table(self.graph().insert(jewel_node_id, j), t2, t2.len() as int, proxy, size, per_orbit))
    }

    /// `after` is this tree with a cluster jewel of `size` added in the socket
    /// `jewel_node_id` (see `ring_placed`): the socket's node `j` is the old one with the
    /// proxy link cut and, when the first slot holds a node, a link to it.
    pub open spec fn cluster_added(&self, after: PassiveTree, cluster_data: ClusterData, jewel_node_id: u32, size: JewelSize,
        t0: Seq<Option<Node>>, t1: Seq<Option<Node>>, t2: Seq<Option<Node>>, j: Node) -> bool {
        let oj = self.graph()[jewel_node_id];
        &&& self.ring_placed(after, cluster_data, jewel_node_id, size, t0, t1, t2, j)
        &&& j.same_as(Node { out: j.out, ..oj })
        &&& link_ids(j.out) == without(link_ids(oj.out), self.cluster_proxy(jewel_node_id))
            + (if t1[0] is Some { seq![t1[0]->0.skill] } else { Seq::empty() })
    }

    /// Adds the nodes of a cluster jewel in the socket `jewel_node_id`: the proxy link of
    /// the socket is cut; sockets, notables and small passives are laid out on the jewel's
    /// ring (new ids from the one after the cluster entries), linked in ring order, the
    /// first slot linked from the socket; every new node gets its place on the tree orbit,
    /// is stored in the table and listed with the socket. Nothing changes when the socket
    /// opens no cluster jewel; only the proxy link is cut when the base item is no cluster
    /// jewel.
    #[verifier::rlimit(100)]
    #[verifier::spinoff_prover]
    pub fn add_cluster(&mut self, cluster_data: ClusterData, jewel_node_id: u32, base_item: &str)
        requires
            old(self).cluster_ids_room(),
            old(self).graph().contains_key(jewel_node_id),
            old(self).graph()[jewel_node_id].skill == jewel_node_id,
            cluster_data.small_passives_node_id == NOTHINGNESS_NODE_ID ==> cluster_data.small_passives_amount <= u32::MAX - 3,
            spec_cluster_size(base_item@) matches Some(size) ==> cluster_data.added_sockets_amount as int <= size.spec_socket_order().len(),
        ensures
            final(self).class == old(self).class,
            final(self).ascendancy == old(self).ascendancy,
            final(self).bloodline == old(self).bloodline,
            final(self).nodes == old(self).nodes,
            final(self).tree_nodes == old(self).tree_nodes,
            final(self).path_of_the == old(self).path_of_the,
            final(self).masteries == old(self).masteries,
            final(self).tattoos == old(self).tattoos,
            final(self).skills_per_orbit == old(self).skills_per_orbit,
            !old(self).opens_cluster(jewel_node_id) ==> {
                &&& final(self).graph() == old(self).graph()
                &&& final(self).nodes_cluster@ == old(self).nodes_cluster@
            },
            old(self).opens_cluster(jewel_node_id) && spec_cluster_size(base_item@) is None ==> {
                let proxy = old(self).cluster_proxy(jewel_node_id);
                let oj = old(self).graph()[jewel_node_id];
                &&& final(self).nodes_cluster@ == old(self).nodes_cluster@
                &&& oj.out is None ==> final(self).graph() == old(self).graph()
                &&& oj.out is Some ==> exists|j: Node| {
                    &&& final(self).graph() == old(self).graph().insert(jewel_node_id, j)
                    &&& j.same_as(Node { out: j.out, ..oj })
                    &&& j.out is Some
                    &&& link_ids(j.out) == without(link_ids(oj.out), proxy)
                }
            },
            old(self).opens_cluster(jewel_node_id) ==> (spec_cluster_size(base_item@) matches Some(size) ==> {
                exists|t0: Seq<Option<Node>>, t1: Seq<Option<Node>>, t2: Seq<Option<Node>>, j: Node|
                    #[trigger] old(self).cluster_added(*final(self), cluster_data, jewel_node_id, size, t0, t1, t2, j)
            }),
    {
        let ghost g0 = self.graph();
        let ghost oj = g0[jewel_node_id];
        let jewel = match map_get(&self.tree_nodes, jewel_node_id) {
            Some(n) => n,
            None => return,
        };
        let proxy_node_id = match jewel.expansion_jewel {
            Some(ej) => ej.proxy,
            None => return,
        };
        let group_id = match map_get(&self.tree_nodes, proxy_node_id) {
            Some(p) => match p.group {
                Some(g) => g,
                None => return,
            },
            None => return,
        };
        let parent = map_get(&self.nodes_data, jewel_node_id).unwrap();
        let ghost mut j0: Node = oj;
        if parent.out.is_some() {
            let mut relinked = parent.clone();
            relinked.out = Some(ids_without(parent.out.as_ref().unwrap(), proxy_node_id));
            proof {
                j0 = relinked;
            }
            map_insert(&mut self.nodes_data, jewel_node_id, relinked);
            proof {
                assert(self.graph() == g0.insert(jewel_node_id, j0));
            }
        } else {
            proof {
                assert(self.graph() =~= g0.insert(jewel_node_id, j0));
                assert(without(link_ids(oj.out), proxy_node_id) =~= Seq::<u32>::empty());
            }
        }
        let ghost g1 = self.graph();
        proof {
            assert(g1 == g0.insert(jewel_node_id, j0));
            assert(j0.same_as(Node { out: j0.out, ..oj }));
            assert(link_ids(j0.out) == without(link_ids(oj.out), proxy_node_id));
            assert(j0.out is Some <==> oj.out is Some);
        }
        let size = match cluster_size(base_item) {
            Some(s) => s,
            None => {
                proof {
                    if oj.out is None {
                        assert(self.graph() =~= g0);
                    }
                }
                return;
            },
        };
        let ghost mid = *self;
        self.add_ring(&cluster_data, jewel_node_id, size, group_id, proxy_node_id);
        proof {
            let (t0, t1, t2, j) = choose|t0: Seq<Option<Node>>, t1: Seq<Option<Node>>, t2: Seq<Option<Node>>, j: Node| {
                &&& mid.ring_placed(*self, cluster_data, jewel_node_id, size, t0, t1, t2, j)
                &&& j.same_as(Node { out: j.out, ..mid.graph()[jewel_node_id] })
                &&& link_ids(j.out) == link_ids(mid.graph()[jewel_node_id].out)
                    + (if t1[0] is Some { seq![t1[0]->0.skill] } else { Seq::empty() })
            };
            assert(mid.graph().insert(jewel_node_id, j) =~= g0.insert(jewel_node_id, j));
            assert(link_ids(j.out) =~= without(link_ids(oj.out), proxy_node_id)
                + (if t1[0] is Some { seq![t1[0]->0.skill] } else { Seq::empty() }));
            assert(old(self).ring_placed(*self, cluster_data, jewel_node_id, size, t0, t1, t2, j));
            assert(old(self).cluster_added(*self, cluster_data, jewel_node_id, size, t0, t1, t2, j));
        }

    }
}


/// Every id of `ids` is in the table.
fn all_in_table(m: &NodeMap, ids: &Vec<u32>) -> (r: bool)
    ensures
        r == forall|j: int| 0 <= j < ids@.len() ==> node_entries(*m).contains_key(#[trigger] ids@[j]),
{
    let mut i: usize = 0;
    while i < ids.len()
        invariant
            i <= ids.len(),
            forall|j: int| 0 <= j < i ==> node_entries(*m).contains_key(#[trigger] ids@[j]),
        decreases ids.len() - i,
    {
        if !map_contains(m, ids[i]) {
            return false;
        }
        i += 1;
    }
    true
}

/// Whether a node of the table can be stepped from by the search that removes nodes.
fn check_steps_allocated(m: &NodeMap, id: u32) -> (r: bool)
    ensures
        r == steps_allocated(node_entries(*m), id),
{
    match map_get(m, id) {
        None => false,
        Some(n) => n.out.is_some() && (n.is_mastery || n.in_.is_some()),
    }
}

/// Whether `n` is a start of `kind`.
fn check_start(n: &Node, kind: StartKind) -> (r: bool)
    ensures
        r == is_start(*n, kind),
{
    match kind {
        StartKind::Class(c) => n.class_start_index == Some(c.as_index()),
        StartKind::Ascendancy(a) => n.is_ascendancy_start && n.ascendancy == Some(a),
        StartKind::Bloodline(a) => n.is_ascendancy_start && n.is_bloodline && n.ascendancy == Some(a),
    }
}

impl PassiveTree {
    /// Whether the node `id` can be stepped from by the path search.
    fn check_steps_from(&self, id: u32) -> (r: bool)
        ensures
            r == self.steps_from(id),
    {
        let n = match map_get(&self.nodes_data, id) {
            None => { return false; },
            Some(n) => n,
        };
        if n.class_start_index.is_some() {
            return true;
        }
        match (&n.in_, &n.out) {
            (Some(ins), Some(outs)) => {
                assert(link_ids(self.graph()[id].in_) == ins@);
                assert(link_ids(self.graph()[id].out) == outs@);
                if !all_in_table(&self.nodes_data, ins) {
                    return false;
                }
                if ids_contain(&self.path_of_the, id) {
                    all_in_table(&self.nodes_data, outs)
                } else {
                    true
                }
            },
            _ => false,
        }
    }

    /// Whether the tree's table holds every start of `kind` of the game's tree, and the
    /// game's tree has one.
    fn check_start_known(&self, kind: StartKind) -> (r: bool)
        ensures
            r == self.start_known(kind),
    {
        let ghost t = node_entries(self.tree_nodes);
        let keys = map_keys(&self.tree_nodes);
        let mut found = false;
        let mut i: usize = 0;
        while i < keys.len()
            invariant
                i <= keys.len(),
                t == node_entries(self.tree_nodes),
                forall|id: u32| keys@.contains(id) <==> t.contains_key(id),
                found <==> exists|j: int| 0 <= j < i && #[trigger] is_start(t[keys@[j]], kind),
                forall|j: int| 0 <= j < i && #[trigger] is_start(t[keys@[j]], kind)
                    ==> self.graph().contains_key(t[keys@[j]].skill),
            decreases keys.len() - i,
        {
            let k = keys[i];
            assert(keys@.contains(k));
            let n = map_get(&self.tree_nodes, k).unwrap();
            if check_start(n, kind) {
                if !map_contains(&self.nodes_data, n.skill) {
                    proof {
                        assert(*n == t[k]);
                        assert(!self.graph().contains_key(n.skill));
                        assert(t.contains_key(k) && is_start(t[k], kind) && t[k].skill == n.skill);
                        assert(is_start_skill(t, kind, n.skill));
                        assert(!self.start_known(kind));
                    }
                    return false;
                }
                found = true;
            }
            i += 1;
        }
        proof {
            if found {
                let j = choose|j: int| 0 <= j < keys@.len() && #[trigger] is_start(t[keys@[j]], kind);
                assert(t.contains_key(keys@[j]));
                assert(has_start(t, kind));
            } else {
                assert forall|k: u32| t.contains_key(k) implies !#[trigger] is_start(t[k], kind) by {
                    assert(keys@.contains(k));
                    let j = choose|j: int| 0 <= j < keys@.len() && keys@[j] == k;
                    assert(!is_start(t[keys@[j]], kind));
                }
            }
            assert forall|id: u32| is_start_skill(t, kind, id) implies #[trigger] self.graph().contains_key(id) by {
                let k = choose|k: u32| t.contains_key(k) && #[trigger] is_start(t[k], kind) && t[k].skill == id;
                assert(keys@.contains(k));
                let j = choose|j: int| 0 <= j < keys@.len() && keys@[j] == k;
                assert(is_start(t[keys@[j]], kind));
            }
        }
        found
    }

    /// Whether the tree is ready for path searches and node flips: its table can be
    /// stepped from by both searches, every allocated node is in it, and it holds the
    /// starts of the tree's class and bloodline from the game's tree, which has them.
    pub fn is_ready(&self) -> (r: bool)
        ensures
            r == (self.wf() && self.anchors_exist()),
    {
        let keys = map_keys(&self.nodes_data);
        let mut i: usize = 0;
        while i < keys.len()
            invariant
                i <= keys.len(),
                forall|id: u32| keys@.contains(id) <==> self.graph().contains_key(id),
                forall|j: int| 0 <= j < i ==> #[trigger] self.steps_from(keys@[j]),
                forall|j: int| 0 <= j < i ==> #[trigger] steps_allocated(self.graph(), keys@[j]),
            decreases keys.len() - i,
        {
            let k = keys[i];
            assert(keys@.contains(k));
            if !self.check_steps_from(k) || !check_steps_allocated(&self.nodes_data, k) {
                return false;
            }
            assert(self.steps_from(keys@[i as int]) && steps_allocated(self.graph(), keys@[i as int]));
            i += 1;
        }
        proof {
            assert forall|id: u32| self.graph().contains_key(id) implies #[trigger] self.steps_from(id) by {
                assert(keys@.contains(id));
                let j = choose|j: int| 0 <= j < keys@.len() && keys@[j] == id;
                assert(self.steps_from(keys@[j]));
            }
            assert forall|id: u32| self.graph().contains_key(id) implies #[trigger] steps_allocated(self.graph(), id) by {
                assert(keys@.contains(id));
                let j = choose|j: int| 0 <= j < keys@.len() && keys@[j] == id;
                assert(steps_allocated(self.graph(), keys@[j]));
            }
        }
        if !all_in_table(&self.nodes_data, &self.nodes) {
            return false;
        }
        if !self.check_start_known(StartKind::Class(self.class)) {
            return false;
        }
        match self.bloodline {
            Some(b) => self.check_start_known(StartKind::Bloodline(b)),
            None => true,
        }
    }
}

} // verus!
