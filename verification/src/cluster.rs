use vstd::prelude::*;
use crate::tree_data::Node;

verus! {

/// What a cluster jewel adds to the tree.
pub struct ClusterData {
    pub small_passives_amount: u32,
    pub small_passives_node_id: u32,
    pub added_sockets_amount: u32,
    pub notables: Vec<Node>,
    pub added_stats: Vec<String>,
}

/// The size of a cluster jewel.
#[derive(Debug, Clone, Copy, PartialEq, Eq, Structural)]
pub enum JewelSize {
    Small,
    Medium,
    Large,
}

impl JewelSize {
    /// The size's index in the orbit offset tables.
    pub open spec fn spec_size_index(self) -> usize {
        match self {
            JewelSize::Small => 0,
            JewelSize::Medium => 1,
            JewelSize::Large => 2,
        }
    }

    /// The number of slots of the jewel's ring.
    pub open spec fn spec_total_indices(self) -> usize {
        match self {
            JewelSize::Small => 6,
            JewelSize::Medium => 12,
            JewelSize::Large => 12,
        }
    }

    /// The tree orbit the jewel's nodes are placed on.
    pub open spec fn spec_orbit(self) -> u16 {
        match self {
            JewelSize::Small => 1,
            JewelSize::Medium => 2,
            JewelSize::Large => 3,
        }
    }

    /// The slots small passives fill, in order of preference.
    pub open spec fn spec_small_order(self) -> Seq<usize> {
        match self {
            JewelSize::Small => seq![0usize, 4, 2],
            JewelSize::Medium => seq![0usize, 6, 8, 4, 10, 2],
            JewelSize::Large => seq![0usize, 4, 6, 8, 10, 2, 7, 5, 9, 3, 11, 1],
        }
    }

    /// The slots notables fill, in order of preference.
    pub open spec fn spec_notable_order(self) -> Seq<usize> {
        match self {
            JewelSize::Small => seq![4usize],
            JewelSize::Medium => seq![6usize, 10, 2, 0],
            JewelSize::Large => seq![6usize, 4, 8, 10, 2],
        }
    }

    /// The slots sockets fill, in order.
    pub open spec fn spec_socket_order(self) -> Seq<usize> {
        match self {
            JewelSize::Small => seq![4usize],
            JewelSize::Medium => seq![6usize],
            JewelSize::Large => seq![4usize, 8, 6],
        }
    }

    /// The expansion indices of the sockets, in order.
    pub open spec fn spec_expansion_order(self) -> Seq<u32> {
        match self {
            JewelSize::Large => seq![0u32, 2, 1],
            _ => seq![0u32, 1, 2],
        }
    }

    pub fn size_index(self) -> (r: usize)
        ensures
            r == self.spec_size_index(),
    {
        match self {
            JewelSize::Small => 0,
            JewelSize::Medium => 1,
            JewelSize::Large => 2,
        }
    }

    pub fn total_indices(self) -> (r: usize)
        ensures
            r == self.spec_total_indices(),
    {
        match self {
            JewelSize::Small => 6,
            JewelSize::Medium => 12,
            JewelSize::Large => 12,
        }
    }

    pub fn orbit(self) -> (r: u16)
        ensures
            r == self.spec_orbit(),
    {
        match self {
            JewelSize::Small => 1,
            JewelSize::Medium => 2,
            JewelSize::Large => 3,
        }
    }

    pub fn small_order(self) -> (r: Vec<usize>)
        ensures
            r@ == self.spec_small_order(),
    {
        let r = match self {
            JewelSize::Small => vec![0usize, 4, 2],
            JewelSize::Medium => vec![0usize, 6, 8, 4, 10, 2],
            JewelSize::Large => vec![0usize, 4, 6, 8, 10, 2, 7, 5, 9, 3, 11, 1],
        };
        assert(r@ =~= self.spec_small_order());
        r
    }

    pub fn notable_order(self) -> (r: Vec<usize>)
        ensures
            r@ == self.spec_notable_order(),
    {
        let r = match self {
            JewelSize::Small => vec![4usize],
            JewelSize::Medium => vec![6usize, 10, 2, 0],
            JewelSize::Large => vec![6usize, 4, 8, 10, 2],
        };
        assert(r@ =~= self.spec_notable_order());
        r
    }

    pub fn socket_order(self) -> (r: Vec<usize>)
        ensures
            r@ == self.spec_socket_order(),
    {
        let r = match self {
            JewelSize::Small => vec![4usize],
            JewelSize::Medium => vec![6usize],
            JewelSize::Large => vec![4usize, 8, 6],
        };
        assert(r@ =~= self.spec_socket_order());
        r
    }

    pub fn expansion_order(self) -> (r: Vec<u32>)
        ensures
            r@ == self.spec_expansion_order(),
    {
        let r = match self {
            JewelSize::Large => vec![0u32, 2, 1],
            _ => vec![0u32, 1, 2],
        };
        assert(r@ =~= self.spec_expansion_order());
        r
    }
}

/// The socket placements of a jewel with `count` sockets: a large jewel with one socket
/// puts it in slot 6 with expansion index 1; otherwise the i-th socket goes to the i-th
/// socket slot with the i-th expansion index.
pub open spec fn spec_socket_assignments(size: JewelSize, count: int) -> Seq<(usize, u32)> {
    if size == JewelSize::Large && count == 1 {
        seq![(6usize, 1u32)]
    } else {
        Seq::new(count as nat, |i: int| (size.spec_socket_order()[i], size.spec_expansion_order()[i]))
    }
}

/// The placements of the sockets of a jewel.
pub fn socket_assignments(size: JewelSize, count: usize) -> (r: Vec<(usize, u32)>)
    requires
        count <= size.spec_socket_order().len(),
    ensures
        r@ == spec_socket_assignments(size, count as int),
{
    let mut r: Vec<(usize, u32)> = Vec::new();
    if size == JewelSize::Large && count == 1 {
        r.push((6, 1));
        assert(r@ =~= spec_socket_assignments(size, count as int));
        return r;
    }
    let slots = size.socket_order();
    let exps = size.expansion_order();
    let mut i: usize = 0;
    while i < count
        invariant
            i <= count,
            count <= slots@.len(),
            slots@ == size.spec_socket_order(),
            exps@ == size.spec_expansion_order(),
            r@ =~= Seq::new(i as nat, |j: int| (size.spec_socket_order()[j], size.spec_expansion_order()[j])),
        decreases count - i,
    {
        r.push((slots[i], exps[i]));
        i += 1;
    }
    r
}

/// How the preferred slots of a medium jewel move.
#[derive(Debug, Clone, Copy, PartialEq, Eq, Structural)]
pub enum SlotShift {
    /// No slot moves.
    Keep,
    /// Notables of a medium jewel with no socket and two notables: 6 to 4, 10 to 8.
    NotablesPair,
    /// Notables of a medium jewel with four nodes: 10 to 9, 2 to 3.
    NotablesFour,
    /// Small passives of a medium jewel with five nodes: 4 to 3.
    SmallsFive,
    /// Small passives of a medium jewel with four nodes: 8 to 9, 4 to 3.
    SmallsFour,
}

/// The slot a preferred slot moves to.
pub open spec fn spec_shift(shift: SlotShift, idx: usize) -> usize {
    match shift {
        SlotShift::Keep => idx,
        SlotShift::NotablesPair => if idx == 6 { 4 } else if idx == 10 { 8 } else { idx },
        SlotShift::NotablesFour => if idx == 10 { 9 } else if idx == 2 { 3 } else { idx },
        SlotShift::SmallsFive => if idx == 4 { 3 } else { idx },
        SlotShift::SmallsFour => if idx == 8 { 9 } else if idx == 4 { 3 } else { idx },
    }
}

pub fn shift_slot(shift: SlotShift, idx: usize) -> (r: usize)
    ensures
        r == spec_shift(shift, idx),
{
    match shift {
        SlotShift::Keep => idx,
        SlotShift::NotablesPair => if idx == 6 { 4 } else if idx == 10 { 8 } else { idx },
        SlotShift::NotablesFour => if idx == 10 { 9 } else if idx == 2 { 3 } else { idx },
        SlotShift::SmallsFive => if idx == 4 { 3 } else { idx },
        SlotShift::SmallsFour => if idx == 8 { 9 } else if idx == 4 { 3 } else { idx },
    }
}

/// The shift of the notable slots of a jewel.
pub open spec fn spec_notable_shift(size: JewelSize, socket_count: int, notables: int, total_nodes: int) -> SlotShift {
    if size != JewelSize::Medium {
        SlotShift::Keep
    } else if socket_count == 0 && notables == 2 {
        SlotShift::NotablesPair
    } else if total_nodes == 4 {
        SlotShift::NotablesFour
    } else {
        SlotShift::Keep
    }
}

/// The shift of the small passive slots of a jewel.
pub open spec fn spec_small_shift(size: JewelSize, total_nodes: int) -> SlotShift {
    if size != JewelSize::Medium {
        SlotShift::Keep
    } else if total_nodes == 5 {
        SlotShift::SmallsFive
    } else if total_nodes == 4 {
        SlotShift::SmallsFour
    } else {
        SlotShift::Keep
    }
}

/// The slots picked from the first `i` preferred slots: each moved by the shift and
/// kept when no node fills it yet, until `want` are picked.
pub open spec fn spec_pick(order: Seq<usize>, i: int, want: int, taken: Seq<bool>, shift: SlotShift) -> Seq<usize>
    decreases i,
{
    if i <= 0 {
        Seq::empty()
    } else {
        let prev = spec_pick(order, i - 1, want, taken, shift);
        let a = spec_shift(shift, order[i - 1]);
        if prev.len() == want || taken[a as int] {
            prev
        } else {
            prev.push(a)
        }
    }
}

proof fn lemma_pick_saturated(order: Seq<usize>, i: int, k: int, want: int, taken: Seq<bool>, shift: SlotShift)
    requires
        0 <= i <= k,
        spec_pick(order, i, want, taken, shift).len() == want,
    ensures
        spec_pick(order, k, want, taken, shift) == spec_pick(order, i, want, taken, shift),
    decreases k - i,
{
    if k > i {
        lemma_pick_saturated(order, i, k - 1, want, taken, shift);
    }
}

/// Picks slots from the preferred ones, moved by the shift, skipping filled slots, until
/// `want` are picked.
pub fn pick_slots(order: &Vec<usize>, want: usize, taken: &Vec<bool>, shift: SlotShift) -> (r: Vec<usize>)
    requires
        forall|j: int| 0 <= j < order@.len() ==> (spec_shift(shift, #[trigger] order@[j]) as int) < taken@.len(),
    ensures
        r@ == spec_pick(order@, order@.len() as int, want as int, taken@, shift),
{
    let mut r: Vec<usize> = Vec::new();
    let mut i: usize = 0;
    while i < order.len()
        invariant
            i <= order.len(),
            forall|j: int| 0 <= j < order@.len() ==> (spec_shift(shift, #[trigger] order@[j]) as int) < taken@.len(),
            r@ == spec_pick(order@, i as int, want as int, taken@, shift),
            r@.len() <= want,
        decreases order.len() - i,
    {
        if r.len() == want {
            proof {
                lemma_pick_saturated(order@, i as int, order@.len() as int, want as int, taken@, shift);
            }
            return r;
        }
        let a = shift_slot(shift, order[i]);
        if !taken[a] {
            r.push(a);
        }
        i += 1;
    }
    r
}

/// The slots in ascending order.
pub fn sort_slots(v: &Vec<usize>) -> (r: Vec<usize>)
    ensures
        r@.to_multiset() == v@.to_multiset(),
        r@.len() == v@.len(),
        forall|x: usize| r@.contains(x) <==> v@.contains(x),
        forall|a: int, b: int| 0 <= a < b < r@.len() ==> r@[a] <= r@[b],
{
    broadcast use vstd::seq_lib::group_to_multiset_ensures;
    let mut r: Vec<usize> = Vec::new();
    let mut i: usize = 0;
    while i < v.len()
        invariant
            i <= v.len(),
            r@.to_multiset() == v@.take(i as int).to_multiset(),
            forall|a: int, b: int| 0 <= a < b < r@.len() ==> r@[a] <= r@[b],
        decreases v.len() - i,
    {
        let x = v[i];
        let mut k: usize = 0;
        while k < r.len() && r[k] <= x
            invariant
                k <= r.len(),
                forall|a: int| 0 <= a < k ==> r@[a] <= x,
            decreases r.len() - k,
        {
            k += 1;
        }
        let ghost before = r@;
        r.insert(k, x);
        proof {
            assert(v@.take(i as int + 1) =~= v@.take(i as int).push(x));
            assert(r@ == before.insert(k as int, x));
            vstd::seq_lib::to_multiset_insert(before, k as int, x);
            vstd::seq_lib::to_multiset_build(v@.take(i as int), x);
            assert forall|a: int, b: int| 0 <= a < b < r@.len() implies r@[a] <= r@[b] by {
                if b < k {
                } else if b == k {
                    assert(r@[a] == before[a]);
                } else if a < k {
                    assert(r@[b] == before[b - 1]);
                    if k < before.len() {
                        assert(before[k as int] > x);
                    }
                } else if a == k {
                    assert(r@[b] == before[b - 1]);
                    assert(before[k as int] > x);
                    assert(before[k as int] <= before[b - 1]);
                } else {
                    assert(r@[a] == before[a - 1]);
                    assert(r@[b] == before[b - 1]);
                }
            }
        }
        i += 1;
    }
    assert(v@.take(v.len() as int) =~= v@);
    proof {
        vstd::seq_lib::to_multiset_len(r@);
        vstd::seq_lib::to_multiset_len(v@);
        assert forall|x: usize| r@.contains(x) <==> v@.contains(x) by {
            vstd::seq_lib::to_multiset_contains(r@, x);
            vstd::seq_lib::to_multiset_contains(v@, x);
        }
    }
    r
}

/// What is picked is at most `want` slots, no more than were looked at, each a slot the
/// test of filled slots covers.
pub proof fn lemma_pick_bounds(order: Seq<usize>, i: int, want: int, taken: Seq<bool>, shift: SlotShift)
    requires
        0 <= i <= order.len(),
        want >= 0,
        forall|j: int| 0 <= j < order.len() ==> (spec_shift(shift, #[trigger] order[j]) as int) < taken.len(),
    ensures
        spec_pick(order, i, want, taken, shift).len() <= i,
        spec_pick(order, i, want, taken, shift).len() <= want,
        forall|k: int| 0 <= k < spec_pick(order, i, want, taken, shift).len()
            ==> (#[trigger] spec_pick(order, i, want, taken, shift)[k] as int) < taken.len(),
    decreases i,
{
    if i > 0 {
        lemma_pick_bounds(order, i - 1, want, taken, shift);
    }
}

} // verus!
