use vstd::prelude::*;
use crate::bytes::{le, read_u32_le, read_i32_le};

verus! {

/// A passive skill graph: the class start nodes, then the node groups.
#[derive(Debug)]
pub struct Graph {
    pub root_nodes: Vec<(u32, u32)>,
    pub groups: Vec<Group>,
}

/// A group of nodes of the graph, at a position given as the bits of two 32-bit floats.
#[derive(Debug)]
pub struct Group {
    pub x: u32,
    pub y: u32,
    pub nodes: Vec<Node>,
    pub flag: u32,
}

/// A node of the graph: its group (counted from 1), passive skill row, orbit radius and
/// position, and its connections (node, unknown).
#[derive(Debug)]
pub struct Node {
    pub group: u32,
    pub passive_skill: u32,
    pub radius: u32,
    pub position: u32,
    pub connections: Vec<(u32, i32)>,
}

/// Why a graph could not be read.
#[derive(Debug, Clone, Copy, PartialEq, Eq, Structural)]
pub enum PsgError {
    /// The data ends before a count or a field does.
    UnexpectedEnd,
}

/// A node as read from the data.
pub ghost struct NodeV {
    pub group: u32,
    pub passive_skill: u32,
    pub radius: u32,
    pub position: u32,
    pub connections: Seq<(u32, i32)>,
}

/// A group as read from the data.
pub ghost struct GroupV {
    pub x: u32,
    pub y: u32,
    pub nodes: Seq<NodeV>,
    pub flag: u32,
}

/// A graph as read from the data.
pub ghost struct GraphV {
    pub root_nodes: Seq<(u32, u32)>,
    pub groups: Seq<GroupV>,
}

/// What reading a part of the data gives: the value and the position after it; an error,
/// where a checked read runs out of data; or a crash, where a list the reading trusts to
/// be complete runs out.
pub ghost enum Scan<T> {
    Done(T, int),
    Fail,
    Crash,
}

/// The unsigned 32-bit word at `pos`.
pub open spec fn word(b: Seq<u8>, pos: int) -> u32 {
    le(b, pos, 4) as u32
}

/// `n` pairs of words from `pos` on.
pub open spec fn word_pairs(b: Seq<u8>, pos: int, n: nat) -> Seq<(u32, u32)> {
    Seq::new(n, |i: int| (word(b, pos + 8 * i), word(b, pos + 8 * i + 4)))
}

/// `n` connections from `pos` on: a node word and a signed word.
pub open spec fn connection_list(b: Seq<u8>, pos: int, n: nat) -> Seq<(u32, i32)> {
    Seq::new(n, |i: int| (word(b, pos + 8 * i), le(b, pos + 8 * i + 4, 4) as i32))
}

/// A node of `group` read at `pos`: four words (row, radius, position, connection count),
/// then the connections.
pub open spec fn scan_node(b: Seq<u8>, pos: int, group: u32) -> Scan<NodeV> {
    if pos + 16 > b.len() {
        Scan::Fail
    } else {
        let count = word(b, pos + 12);
        if pos + 16 + 8 * count > b.len() {
            Scan::Crash
        } else {
            Scan::Done(NodeV {
                group,
                passive_skill: word(b, pos),
                radius: word(b, pos + 4),
                position: word(b, pos + 8),
                connections: connection_list(b, pos + 16, count as nat),
            }, pos + 16 + 8 * count)
        }
    }
}

/// `count` nodes of `group` read one after the other from `pos`.
pub open spec fn scan_nodes(b: Seq<u8>, pos: int, count: nat, group: u32) -> Scan<Seq<NodeV>>
    decreases count,
{
    if count == 0 {
        Scan::Done(Seq::empty(), pos)
    } else {
        match scan_nodes(b, pos, (count - 1) as nat, group) {
            Scan::Done(ns, p) => match scan_node(b, p, group) {
                Scan::Done(n, p2) => Scan::Done(ns.push(n), p2),
                Scan::Fail => Scan::Fail,
                Scan::Crash => Scan::Crash,
            },
            Scan::Fail => Scan::Fail,
            Scan::Crash => Scan::Crash,
        }
    }
}

/// The group numbered `number` read at `pos`: x, y, flag, five skipped bytes, the node
/// count, then the nodes.
pub open spec fn scan_group(b: Seq<u8>, pos: int, number: u32) -> Scan<GroupV> {
    if pos + 12 > b.len() || pos + 21 > b.len() {
        Scan::Fail
    } else {
        match scan_nodes(b, pos + 21, word(b, pos + 17) as nat, number) {
            Scan::Done(ns, p) => Scan::Done(GroupV { x: word(b, pos), y: word(b, pos + 4), nodes: ns, flag: word(b, pos + 8) }, p),
            Scan::Fail => Scan::Fail,
            Scan::Crash => Scan::Crash,
        }
    }
}

/// `count` groups read one after the other from `pos`, numbered from 1.
pub open spec fn scan_groups(b: Seq<u8>, pos: int, count: nat) -> Scan<Seq<GroupV>>
    decreases count,
{
    if count == 0 {
        Scan::Done(Seq::empty(), pos)
    } else {
        match scan_groups(b, pos, (count - 1) as nat) {
            Scan::Done(gs, p) => match scan_group(b, p, count as u32) {
                Scan::Done(g, p2) => Scan::Done(gs.push(g), p2),
                Scan::Fail => Scan::Fail,
                Scan::Crash => Scan::Crash,
            },
            Scan::Fail => Scan::Fail,
            Scan::Crash => Scan::Crash,
        }
    }
}

/// A whole graph: 13 skipped bytes, the root count and roots, then the group count and
/// the groups.
pub open spec fn scan_graph(b: Seq<u8>) -> Scan<GraphV> {
    if 17 > b.len() {
        Scan::Fail
    } else {
        let roots = word(b, 13);
        if 17 + 8 * roots > b.len() {
            Scan::Crash
        } else if 17 + 8 * roots + 4 > b.len() {
            Scan::Fail
        } else {
            let gpos = 17 + 8 * roots + 4;
            match scan_groups(b, gpos, word(b, 17 + 8 * roots) as nat) {
                Scan::Done(gs, p) => Scan::Done(GraphV { root_nodes: word_pairs(b, 17, roots as nat), groups: gs }, p),
                Scan::Fail => Scan::Fail,
                Scan::Crash => Scan::Crash,
            }
        }
    }
}

impl Node {
    pub open spec fn view_node(self) -> NodeV {
        NodeV {
            group: self.group,
            passive_skill: self.passive_skill,
            radius: self.radius,
            position: self.position,
            connections: self.connections@,
        }
    }
}

/// The nodes as read from the data.
pub open spec fn node_views(ns: Seq<Node>) -> Seq<NodeV> {
    ns.map_values(|n: Node| n.view_node())
}

impl Group {
    pub open spec fn view_group(self) -> GroupV {
        GroupV { x: self.x, y: self.y, nodes: node_views(self.nodes@), flag: self.flag }
    }
}

/// The groups as read from the data.
pub open spec fn group_views(gs: Seq<Group>) -> Seq<GroupV> {
    gs.map_values(|g: Group| g.view_group())
}

impl Graph {
    pub open spec fn view_graph(self) -> GraphV {
        GraphV { root_nodes: self.root_nodes@, groups: group_views(self.groups@) }
    }
}

/// Whether `n` more bytes can be read at `pos`.
fn room(b: &[u8], pos: u64, n: u64) -> (r: bool)
    requires
        n <= 64,
    ensures
        r == (pos + n <= b@.len()),
        b@.len() <= usize::MAX,
{
    let l = b.len();
    assert(b@.len() == l);
    (l as u64) >= n && pos <= (l as u64) - n
}

/// Whether `count` items of `size` bytes can be read at `pos`.
fn room_for(b: &[u8], pos: u64, count: u32, size: u64) -> (r: bool)
    requires
        size <= 16,
    ensures
        r == (pos + count * size <= b@.len()),
        b@.len() <= usize::MAX,
{
    let l = b.len();
    assert(b@.len() == l);
    assert((count as u64) * size <= 0xFFFF_FFFFu64 * 16) by (nonlinear_arith)
        requires count <= 0xFFFF_FFFFu32, size <= 16;
    let need: u64 = (count as u64) * size;
    (l as u64) >= need && pos <= (l as u64) - need
}

fn read_node(b: &[u8], pos: u64, group: u32) -> (r: Result<(Node, u64), PsgError>)
    requires
        !(scan_node(b@, pos as int, group) is Crash),
    ensures
        match scan_node(b@, pos as int, group) {
            Scan::Done(v, p) => r matches Ok((n, q)) && n.view_node() == v && q == p,
            _ => r is Err,
        },
{
    if !room(b, pos, 16) {
        return Err(PsgError::UnexpectedEnd);
    }
    let p = pos as usize;
    assert(p == pos);
    let passive_skill = read_u32_le(b, p);
    let radius = read_u32_le(b, p + 4);
    let position = read_u32_le(b, p + 8);
    let count = read_u32_le(b, p + 12);
    let start = pos + 16;
    let ok = room_for(b, start, count, 8);
    let mut connections: Vec<(u32, i32)> = Vec::new();
    let mut i: u32 = 0;
    while i < count
        invariant
            ok,
            i <= count,
            start + count * 8 <= b@.len(),
            b@.len() <= usize::MAX,
            connections@ =~= connection_list(b@, start as int, i as nat),
        decreases count - i,
    {
        let off: u64 = start + (i as u64) * 8;
        let o = off as usize;
        assert(o == off);
        let node = read_u32_le(b, o);
        let unk = read_i32_le(b, o + 4);
        connections.push((node, unk));
        i += 1;
    }
    let n = Node { group, passive_skill, radius, position, connections };
    assert(n.view_node() =~= match scan_node(b@, pos as int, group) {
        Scan::Done(v, _) => v,
        _ => n.view_node(),
    });
    Ok((n, start + (count as u64) * 8))
}

/// Parses a passive skill graph from its bytes.
pub fn parse_psg(b: &[u8]) -> (r: Result<Graph, PsgError>)
    requires
        !(scan_graph(b@) is Crash),
    ensures
        match scan_graph(b@) {
            Scan::Done(v, _) => r matches Ok(g) && g.view_graph() == v,
            _ => r is Err,
        },
{
    if !room(b, 13, 4) {
        return Err(PsgError::UnexpectedEnd);
    }
    let root_length = read_u32_le(b, 13);
    let mut root_nodes: Vec<(u32, u32)> = Vec::new();
    let mut i: u32 = 0;
    let ok = room_for(b, 17, root_length, 8);
    while i < root_length
        invariant
            ok,
            i <= root_length,
            17 + root_length * 8 <= b@.len(),
            b@.len() <= usize::MAX,
            root_nodes@ =~= word_pairs(b@, 17, i as nat),
        decreases root_length - i,
    {
        let off: u64 = 17 + (i as u64) * 8;
        let o = off as usize;
        assert(o == off);
        let a = read_u32_le(b, o);
        let c = read_u32_le(b, o + 4);
        root_nodes.push((a, c));
        i += 1;
    }
    let gcount_pos: u64 = 17 + (root_length as u64) * 8;
    if !room(b, gcount_pos, 4) {
        return Err(PsgError::UnexpectedEnd);
    }
    let group_length = read_u32_le(b, gcount_pos as usize);
    let mut pos: u64 = gcount_pos + 4;
    let ghost gstart = pos as int;
    let mut groups: Vec<Group> = Vec::new();
    let mut g: u32 = 0;
    assert(group_views(groups@) =~= Seq::<GroupV>::empty());
    while g < group_length
        invariant
            g <= group_length,
            b@.len() <= usize::MAX,
            group_length as nat == word(b@, gcount_pos as int),
            gstart == gcount_pos + 4,
            root_nodes@ =~= word_pairs(b@, 17, root_length as nat),
            root_length as nat == word(b@, 13),
            gcount_pos == 17 + root_length * 8,
            17 + root_length * 8 + 4 <= b@.len(),
            !(scan_groups(b@, gstart, group_length as nat) is Crash),
            scan_groups(b@, gstart, g as nat) == Scan::<Seq<GroupV>>::Done(group_views(groups@), pos as int),
        decreases group_length - g,
    {
        proof {
            lemma_groups_settle(b@, gstart, (g + 1) as nat, group_length as nat);
        }
        if !room(b, pos, 21) {
            return Err(PsgError::UnexpectedEnd);
        }
        let p = pos as usize;
        assert(p == pos);
        let x = read_u32_le(b, p);
        let y = read_u32_le(b, p + 4);
        let flag = read_u32_le(b, p + 8);
        let passive_length = read_u32_le(b, p + 17);
        let number = g + 1;
        let ghost nstart = pos + 21;
        let mut npos: u64 = pos + 21;
        let mut nodes: Vec<Node> = Vec::new();
        let mut k: u32 = 0;
        assert(node_views(nodes@) =~= Seq::<NodeV>::empty());
        while k < passive_length
            invariant
                k <= passive_length,
                b@.len() <= usize::MAX,
                nstart == pos + 21,
                pos + 21 <= b@.len(),
                passive_length == word(b@, pos + 17),
                number == g + 1,
                g < group_length,
                group_length as nat == word(b@, gcount_pos as int),
                gstart == gcount_pos + 4,
                root_length as nat == word(b@, 13),
                gcount_pos == 17 + root_length * 8,
                17 + root_length * 8 + 4 <= b@.len(),
                scan_groups(b@, gstart, g as nat) == Scan::<Seq<GroupV>>::Done(group_views(groups@), pos as int),
                scan_groups(b@, gstart, (g + 1) as nat) is Fail ==> scan_groups(b@, gstart, group_length as nat) is Fail,
                !(scan_nodes(b@, nstart, passive_length as nat, number) is Crash),
                scan_nodes(b@, nstart, k as nat, number) == Scan::<Seq<NodeV>>::Done(node_views(nodes@), npos as int),
            decreases passive_length - k,
        {
            proof {
                lemma_nodes_settle(b@, nstart, (k + 1) as nat, passive_length as nat, number);
            }
            let (n, np) = match read_node(b, npos, number) {
                Ok(x) => x,
                Err(e) => {
                    assert(scan_node(b@, npos as int, number) is Fail);
                    assert(scan_nodes(b@, nstart, (k + 1) as nat, number) is Fail);
                    assert(scan_group(b@, pos as int, number) is Fail);
                    assert(scan_groups(b@, gstart, (g + 1) as nat) is Fail);
                    return Err(e);
                },
            };
            let ghost before = node_views(nodes@);
            nodes.push(n);
            assert(node_views(nodes@) =~= before.push(n.view_node()));
            npos = np;
            k += 1;
        }
        let ghost before = group_views(groups@);
        let grp = Group { x, y, nodes, flag };
        groups.push(grp);
        assert(group_views(groups@) =~= before.push(grp.view_group()));
        pos = npos;
        g += 1;
    }
    let graph = Graph { root_nodes, groups };
    assert(graph.view_graph().root_nodes =~= word_pairs(b@, 17, root_length as nat));
    Ok(graph)
}

/// Once the reading of the first `k` nodes fails or crashes, so does the reading of more.
proof fn lemma_nodes_settle(b: Seq<u8>, pos: int, k: nat, total: nat, group: u32)
    requires
        k <= total,
    ensures
        scan_nodes(b, pos, k, group) is Fail ==> scan_nodes(b, pos, total, group) is Fail,
        scan_nodes(b, pos, k, group) is Crash ==> scan_nodes(b, pos, total, group) is Crash,
    decreases total - k,
{
    if k < total {
        lemma_nodes_settle(b, pos, k + 1, total, group);
    }
}

/// Once the reading of the first `k` groups fails or crashes, so does the reading of more.
proof fn lemma_groups_settle(b: Seq<u8>, pos: int, k: nat, total: nat)
    requires
        k <= total,
    ensures
        scan_groups(b, pos, k) is Fail ==> scan_groups(b, pos, total) is Fail,
        scan_groups(b, pos, k) is Crash ==> scan_groups(b, pos, total) is Crash,
    decreases total - k,
{
    if k < total {
        lemma_groups_settle(b, pos, k + 1, total);
    }
}

} // verus!
