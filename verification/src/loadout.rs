use vstd::prelude::*;
use crate::base_item::ItemClass;
use crate::evaluator::{bool_pos, bool_position, clamp, int_pos, int_position, readable, stat_val};
use crate::flags::{contains, spec_contains};
use crate::gem::Gem;
use crate::item_calc::allocates_nodes;
use crate::import::CampaignChoice;
use crate::modifier::{Condition, Mod, ModEffect, ModStat, Mutation, Source, Type};
use crate::stackvec::StackVec;
use crate::tree_data::ClassData;
use crate::stat::{lemma_same_mods_push, same_mods};
use crate::property;
use crate::slot::Slot;
use crate::stat::{val100_ok, Stats};
use crate::stat_id::StatId;
use crate::tree::{ids_contain, PassiveTree};

verus! {

/// The reward taken from the bandits quest.
#[derive(Debug, Clone, Copy, PartialEq, Eq, Structural)]
pub enum BanditChoice {
    Alira,
    Kraityn,
    Oak,
    KillAll,
}

/// Gems linked together, socketed in the item of a slot (or in none).
pub struct GemLink {
    pub gems: Vec<Gem>,
    pub slot: Option<Slot>,
}

/// The gems with an active skill, in order.
pub open spec fn active_of(gems: Seq<Gem>) -> Seq<Gem>
    decreases gems.len(),
{
    if gems.len() == 0 {
        seq![]
    } else if gems.last().data.active_skill is Some {
        active_of(gems.drop_last()).push(gems.last())
    } else {
        active_of(gems.drop_last())
    }
}

/// The support gems, in order.
pub open spec fn supports_of(gems: Seq<Gem>) -> Seq<Gem>
    decreases gems.len(),
{
    if gems.len() == 0 {
        seq![]
    } else if gems.last().data.is_support {
        supports_of(gems.drop_last()).push(gems.last())
    } else {
        supports_of(gems.drop_last())
    }
}

impl GemLink {
    /// The link's gems that have an active skill.
    pub fn active_gems(&self) -> (r: Vec<&Gem>)
        ensures
            r@.len() == active_of(self.gems@).len(),
            forall|j: int| 0 <= j < r@.len() ==> *r@[j] == active_of(self.gems@)[j],
    {
        let mut r: Vec<&Gem> = Vec::new();
        let mut i: usize = 0;
        while i < self.gems.len()
            invariant
                i <= self.gems@.len(),
                r@.len() == active_of(self.gems@.take(i as int)).len(),
                forall|j: int| 0 <= j < r@.len() ==> *r@[j] == active_of(self.gems@.take(i as int))[j],
            decreases self.gems@.len() - i,
        {
            proof {
                assert(self.gems@.take(i + 1).drop_last() == self.gems@.take(i as int));
            }
            if self.gems[i].data.active_skill.is_some() {
                r.push(&self.gems[i]);
            }
            i = i + 1;
        }
        assert(self.gems@.take(self.gems@.len() as int) == self.gems@);
        r
    }

    /// The link's support gems.
    pub fn support_gems(&self) -> (r: Vec<&Gem>)
        ensures
            r@.len() == supports_of(self.gems@).len(),
            forall|j: int| 0 <= j < r@.len() ==> *r@[j] == supports_of(self.gems@)[j],
    {
        let mut r: Vec<&Gem> = Vec::new();
        let mut i: usize = 0;
        while i < self.gems.len()
            invariant
                i <= self.gems@.len(),
                r@.len() == supports_of(self.gems@.take(i as int)).len(),
                forall|j: int| 0 <= j < r@.len() ==> *r@[j] == supports_of(self.gems@.take(i as int))[j],
            decreases self.gems@.len() - i,
        {
            proof {
                assert(self.gems@.take(i + 1).drop_last() == self.gems@.take(i as int));
            }
            if self.gems[i].data.is_support {
                r.push(&self.gems[i]);
            }
            i = i + 1;
        }
        assert(self.gems@.take(self.gems@.len() as int) == self.gems@);
        r
    }
}

/// An item of the build's inventory, as the build's logic reads it: its class and the
/// modifiers it gives outside itself.
pub struct InventoryItem {
    pub item_class: ItemClass,
    pub nonlocal_mods: Vec<Mod>,
}

/// A build: the skills' gem links, the inventory and which slot holds which of its items,
/// the passive tree, the quest choices, the properties the player set, the enabled flasks.
pub struct Build {
    pub name: String,
    pub gem_links: Vec<GemLink>,
    /// Each slot with the position in `inventory` of the item it holds.
    pub equipment: Vec<(Slot, usize)>,
    pub inventory: Vec<InventoryItem>,
    pub tree: PassiveTree,
    pub bandit_choice: BanditChoice,
    pub campaign_choice: CampaignChoice,
    /// The value set for each integer property, by position (0 when not set).
    pub props_int: Vec<i64>,
    /// Whether each integer property is held at its maximum.
    pub props_int_maxed: Vec<bool>,
    /// The value set for each boolean property, by position.
    pub props_bool: Vec<bool>,
    /// The account and character the build was imported from.
    pub import_account: Option<(String, String)>,
    /// Modifier lines the player added.
    pub custom_mods: Vec<String>,
    /// The enabled flask slots.
    pub flasks_enabled: Vec<u16>,
    /// The gem link selected.
    pub gemlink_cur: usize,
    /// The active skill selected within the gem link.
    pub active_skill_cur: usize,
}

/// The slots of the equipment are distinct and each holds an item of the inventory.
pub open spec fn equipment_ok(eq: Seq<(Slot, usize)>, inventory_len: int) -> bool {
    &&& forall|i: int| 0 <= i < eq.len() ==> (#[trigger] eq[i]).1 < inventory_len
    &&& forall|a: int, b: int| 0 <= a < b < eq.len() ==> (#[trigger] eq[a]).0 != (#[trigger] eq[b]).0
}

/// The position of the entry of `slot` in the equipment.
pub open spec fn slot_pos(eq: Seq<(Slot, usize)>, slot: Slot) -> Option<int> {
    if exists|i: int| 0 <= i < eq.len() && (#[trigger] eq[i]).0 == slot {
        Some(choose|i: int| 0 <= i < eq.len() && (#[trigger] eq[i]).0 == slot)
    } else {
        None
    }
}

/// The position in the inventory of the item `slot` holds.
pub open spec fn equipped_index(eq: Seq<(Slot, usize)>, slot: Slot) -> Option<usize> {
    match slot_pos(eq, slot) {
        Some(i) => Some(eq[i].1),
        None => None,
    }
}

impl Build {
    pub open spec fn wf(&self) -> bool {
        &&& self.props_int@.len() == 5
        &&& self.props_int_maxed@.len() == 5
        &&& self.props_bool@.len() == 7
        &&& equipment_ok(self.equipment@, self.inventory@.len() as int)
        &&& self.flasks_enabled@.no_duplicates()
    }

    /// A new character at level 1 on the tree `tree`, with nothing else set.
    pub fn new_player(tree: PassiveTree) -> (r: Build)
        ensures
            r.wf(),
            r.name@ == "Untitled Build"@,
            r.gem_links@.len() == 0,
            r.equipment@.len() == 0,
            r.inventory@.len() == 0,
            r.tree == tree,
            r.bandit_choice == BanditChoice::KillAll,
            r.campaign_choice == CampaignChoice::Beach,
            r.props_int@ == seq![1i64, 0, 0, 0, 0],
            r.props_int_maxed@ == seq![false, false, false, false, false],
            r.props_bool@ == seq![false, false, false, false, false, false, false],
            r.import_account is None,
            r.custom_mods@.len() == 0,
            r.flasks_enabled@.len() == 0,
            r.gemlink_cur == 0,
            r.active_skill_cur == 0,
    {
        let r = Build {
            name: String::from_str("Untitled Build"),
            gem_links: Vec::new(),
            equipment: Vec::new(),
            inventory: Vec::new(),
            tree,
            bandit_choice: BanditChoice::KillAll,
            campaign_choice: CampaignChoice::Beach,
            props_int: vec![1, 0, 0, 0, 0],
            props_int_maxed: vec![false, false, false, false, false],
            props_bool: vec![false, false, false, false, false, false, false],
            import_account: None,
            custom_mods: Vec::new(),
            flasks_enabled: Vec::new(),
            gemlink_cur: 0,
            active_skill_cur: 0,
        };
        proof {
            reveal_strlit("Untitled Build");
        }
        r
    }

    pub fn set_custom_mods(&mut self, mods: Vec<String>)
        ensures
            *final(self) == (Build { custom_mods: mods, ..*old(self) }),
    {
        self.custom_mods = mods;
    }

    pub fn is_flask_enabled(&self, idx: u16) -> (r: bool)
        ensures
            r == self.flasks_enabled@.contains(idx),
    {
        let mut i: usize = 0;
        while i < self.flasks_enabled.len()
            invariant
                i <= self.flasks_enabled@.len(),
                forall|j: int| 0 <= j < i ==> self.flasks_enabled@[j] != idx,
            decreases self.flasks_enabled@.len() - i,
        {
            if self.flasks_enabled[i] == idx {
                return true;
            }
            i = i + 1;
        }
        false
    }

    /// Enables or disables the flask of slot `idx`; there are five flask slots, and other
    /// slots are left alone.
    pub fn set_flask_enabled(&mut self, idx: u16, enabled: bool)
        requires
            old(self).wf(),
        ensures
            final(self).wf(),
            *final(self) == (Build { flasks_enabled: final(self).flasks_enabled, ..*old(self) }),
            forall|x: u16|
                #[trigger] final(self).flasks_enabled@.contains(x) == if idx > 4 {
                    old(self).flasks_enabled@.contains(x)
                } else if enabled {
                    old(self).flasks_enabled@.contains(x) || x == idx
                } else {
                    old(self).flasks_enabled@.contains(x) && x != idx
                },
    {
        if idx > 4 {
            return;
        }
        let present = self.is_flask_enabled(idx);
        if enabled {
            if !present {
                self.flasks_enabled.push(idx);
                proof {
                    assert forall|x: u16| #[trigger] self.flasks_enabled@.contains(x) == (old(self).flasks_enabled@.contains(x) || x == idx) by {
                        if self.flasks_enabled@.contains(x) {
                            let j = choose|j: int| 0 <= j < self.flasks_enabled@.len() && self.flasks_enabled@[j] == x;
                            if j < old(self).flasks_enabled@.len() {
                                assert(old(self).flasks_enabled@[j] == x);
                            }
                        }
                        if old(self).flasks_enabled@.contains(x) {
                            let j = choose|j: int| 0 <= j < old(self).flasks_enabled@.len() && old(self).flasks_enabled@[j] == x;
                            assert(self.flasks_enabled@[j] == x);
                        }
                        if x == idx {
                            assert(self.flasks_enabled@[self.flasks_enabled@.len() - 1] == idx);
                        }
                    }
                }
            }
        } else {
            let ghost before = self.flasks_enabled@;
            let mut kept: Vec<u16> = Vec::new();
            let mut i: usize = 0;
            while i < self.flasks_enabled.len()
                invariant
                    i <= before.len(),
                    self.flasks_enabled@ == before,
                    before.no_duplicates(),
                    kept@.no_duplicates(),
                    forall|x: u16| #[trigger] kept@.contains(x) == (before.take(i as int).contains(x) && x != idx),
                decreases before.len() - i,
            {
                let f = self.flasks_enabled[i];
                proof {
                    assert(before.take(i + 1) == before.take(i as int).push(f));
                    let t1 = before.take(i + 1);
                    let t0 = before.take(i as int);
                    assert forall|x: u16| #[trigger] t1.contains(x) == (t0.contains(x) || x == f) by {
                        if t1.contains(x) {
                            let j = choose|j: int| 0 <= j < t1.len() && t1[j] == x;
                            if j < i {
                                assert(t0[j] == x);
                            }
                        }
                        if t0.contains(x) {
                            let j = choose|j: int| 0 <= j < t0.len() && t0[j] == x;
                            assert(t1[j] == x);
                        }
                        if x == f {
                            assert(t1[i as int] == f);
                        }
                    }
                    if before.take(i as int).contains(f) {
                        let j = choose|j: int| 0 <= j < i && before.take(i as int)[j] == f;
                        assert(before[j] == before[i as int]);
                    }
                }
                if f != idx {
                    let ghost k0 = kept@;
                    kept.push(f);
                    proof {
                        assert forall|x: u16| #[trigger] kept@.contains(x) == (k0.contains(x) || x == f) by {
                            if kept@.contains(x) {
                                let j = choose|j: int| 0 <= j < kept@.len() && kept@[j] == x;
                                if j < k0.len() {
                                    assert(k0[j] == x);
                                }
                            }
                            if k0.contains(x) {
                                let j = choose|j: int| 0 <= j < k0.len() && k0[j] == x;
                                assert(kept@[j] == x);
                            }
                            if x == f {
                                assert(kept@[k0.len() as int] == f);
                            }
                        }
                        assert forall|a: int, b: int| 0 <= a < b < kept@.len() implies kept@[a] != kept@[b] by {
                            if b == k0.len() {
                                assert(k0.contains(kept@[a]));
                            }
                        }
                    }
                }
                i = i + 1;
            }
            assert(before.take(before.len() as int) == before);
            self.flasks_enabled = kept;
        }
    }

    pub fn set_property_int_maxed(&mut self, p: property::Int, maxed: bool)
        requires
            old(self).wf(),
        ensures
            final(self).wf(),
            *final(self) == (Build {
                props_int_maxed: final(self).props_int_maxed,
                ..*old(self)
            }),
            final(self).props_int_maxed@ == old(self).props_int_maxed@.update(int_position(p), maxed),
    {
        self.props_int_maxed.set(int_pos(p), maxed);
    }

    pub fn is_property_int_maxed(&self, p: property::Int) -> (r: bool)
        requires
            self.wf(),
        ensures
            r == self.props_int_maxed@[int_position(p)],
    {
        self.props_int_maxed[int_pos(p)]
    }

    pub fn set_property_int(&mut self, p: property::Int, val: i64)
        requires
            old(self).wf(),
        ensures
            final(self).wf(),
            *final(self) == (Build { props_int: final(self).props_int, ..*old(self) }),
            final(self).props_int@ == old(self).props_int@.update(int_position(p), val),
    {
        self.props_int.set(int_pos(p), val);
    }

    pub fn set_property_bool(&mut self, p: property::Bool, val: bool)
        requires
            old(self).wf(),
        ensures
            final(self).wf(),
            *final(self) == (Build { props_bool: final(self).props_bool, ..*old(self) }),
            final(self).props_bool@ == old(self).props_bool@.update(bool_position(p), val),
    {
        self.props_bool.set(bool_pos(p), val);
    }

    pub fn property_bool(&self, p: property::Bool) -> (r: bool)
        requires
            self.wf(),
        ensures
            r == self.props_bool@[bool_position(p)],
    {
        self.props_bool[bool_pos(p)]
    }

    /// The value of an integer property, held within its fixed bounds.
    pub open spec fn spec_property_int(&self, p: property::Int) -> int {
        let d = property::spec_int_data(p);
        let lo = match d.min {
            property::Val::Val(i) => i as int,
            property::Val::Stat(_) => i64::MIN as int,
        };
        let hi = match d.max {
            property::Val::Val(i) => i as int,
            property::Val::Stat(_) => i64::MAX as int,
        };
        clamp(self.props_int@[int_position(p)] as int, lo, hi)
    }

    pub fn property_int(&self, p: property::Int) -> (r: i64)
        requires
            self.wf(),
        ensures
            r == self.spec_property_int(p),
    {
        let d = property::int_data(p);
        let lo = match d.min {
            property::Val::Val(i) => i,
            property::Val::Stat(_) => i64::MIN,
        };
        let hi = match d.max {
            property::Val::Val(i) => i,
            property::Val::Stat(_) => i64::MAX,
        };
        let x = self.props_int[int_pos(p)];
        if x < lo {
            lo
        } else if x > hi {
            hi
        } else {
            x
        }
    }

    /// A bound of an integer property: a number, or the value of a stat.
    pub open spec fn spec_bound(stats: Stats, v: property::Val) -> int {
        match v {
            property::Val::Val(i) => i as int,
            property::Val::Stat(s) => stat_val(stats, s),
        }
    }

    /// The value of an integer property within the bounds the stats give: the maximum
    /// when the property is held at it, else the property held between the lower of the
    /// two bounds and the upper one.
    pub open spec fn spec_property_int_stats(&self, p: property::Int, stats: Stats) -> int {
        let d = property::spec_int_data(p);
        let lo = Self::spec_bound(stats, d.min);
        let hi = Self::spec_bound(stats, d.max);
        if self.props_int_maxed@[int_position(p)] {
            hi
        } else {
            clamp(self.spec_property_int(p), if lo < hi { lo } else { hi }, hi)
        }
    }

    pub fn property_int_stats(&self, p: property::Int, stats: &Stats) -> (r: i64)
        requires
            self.wf(),
            readable(*stats),
        ensures
            r == self.spec_property_int_stats(p, *stats),
    {
        let d = property::int_data(p);
        let mut min = match d.min {
            property::Val::Val(i) => i,
            property::Val::Stat(s) => {
                assert(val100_ok(stats.spec_stat(s).nums()));
                stats.val(s)
            },
        };
        let max = match d.max {
            property::Val::Val(i) => i,
            property::Val::Stat(s) => {
                assert(val100_ok(stats.spec_stat(s).nums()));
                stats.val(s)
            },
        };
        if self.is_property_int_maxed(p) {
            return max;
        }
        if max < min {
            min = max;
        }
        let x = self.property_int(p);
        if x < min {
            min
        } else if x > max {
            max
        } else {
            x
        }
    }

    /// The slots with the position of the item each holds.
    pub fn equipment(&self) -> (r: &Vec<(Slot, usize)>)
        ensures
            r@ == self.equipment@,
    {
        &self.equipment
    }

    /// The position in the equipment of the entry of `slot`.
    fn find_slot(&self, slot: Slot) -> (r: Option<usize>)
        requires
            self.wf(),
        ensures
            r matches Some(i) ==> slot_pos(self.equipment@, slot) == Some(i as int),
            r is None ==> slot_pos(self.equipment@, slot) is None,
    {
        let mut i: usize = 0;
        while i < self.equipment.len()
            invariant
                i <= self.equipment@.len(),
                self.wf(),
                forall|j: int| 0 <= j < i ==> (#[trigger] self.equipment@[j]).0 != slot,
            decreases self.equipment@.len() - i,
        {
            if self.equipment[i].0 == slot {
                proof {
                    let k = choose|k: int| 0 <= k < self.equipment@.len() && (#[trigger] self.equipment@[k]).0 == slot;
                    if k != i {
                        if k < i {
                            assert(self.equipment@[k].0 != slot);
                        } else {
                            assert(self.equipment@[i as int].0 != self.equipment@[k].0);
                        }
                    }
                }
                return Some(i);
            }
            i = i + 1;
        }
        None
    }

    /// The item `slot` holds.
    pub fn get_equipped(&self, slot: Slot) -> (r: Option<&InventoryItem>)
        requires
            self.wf(),
        ensures
            r == match equipped_index(self.equipment@, slot) {
                Some(i) => Some(&self.inventory@[i as int]),
                None => None::<&InventoryItem>,
            },
    {
        match self.find_slot(slot) {
            Some(i) => {
                let idx = self.equipment[i].1;
                Some(&self.inventory[idx])
            },
            None => None,
        }
    }

    /// Some equipped item is of one of the classes (a set of `ItemClass` bits).
    pub open spec fn spec_is_holding(&self, classes: u64) -> bool {
        exists|i: int|
            0 <= i < self.equipment@.len() && spec_contains(
                classes,
                self.inventory@[(#[trigger] self.equipment@[i]).1 as int].item_class.spec_bit(),
            )
    }

    pub fn is_holding(&self, classes: u64) -> (r: bool)
        requires
            self.wf(),
        ensures
            r == self.spec_is_holding(classes),
    {
        let mut i: usize = 0;
        while i < self.equipment.len()
            invariant
                i <= self.equipment@.len(),
                self.wf(),
                forall|j: int|
                    0 <= j < i ==> !spec_contains(
                        classes,
                        self.inventory@[(#[trigger] self.equipment@[j]).1 as int].item_class.spec_bit(),
                    ),
            decreases self.equipment@.len() - i,
        {
            let idx = self.equipment[i].1;
            if contains(classes, self.inventory[idx].item_class.bit()) {
                return true;
            }
            i = i + 1;
        }
        false
    }
}


/// What a modifier adds to the number of abyssal sockets.
pub open spec fn socket_amount(m: Mod) -> i64 {
    match m.effect {
        ModEffect::Stat(s) => if s.stat == StatId::AbyssalSockets {
            s.amount
        } else {
            0
        },
        _ => 0,
    }
}

/// `acc` with the abyssal sockets of the modifiers added, wrapping within `i64`.
pub open spec fn add_sockets(acc: i64, mods: Seq<Mod>) -> i64
    decreases mods.len(),
{
    if mods.len() == 0 {
        acc
    } else {
        add_sockets(acc, mods.drop_last()).wrapping_add(socket_amount(mods.last()))
    }
}

/// `acc` with the nodes the modifiers allocate added, each once, in order.
pub open spec fn add_allocs(acc: Seq<u32>, mods: Seq<Mod>) -> Seq<u32>
    decreases mods.len(),
{
    if mods.len() == 0 {
        acc
    } else {
        let prev = add_allocs(acc, mods.drop_last());
        match mods.last().effect {
            ModEffect::Allocate(n) => if prev.contains(n) {
                prev
            } else {
                prev.push(n)
            },
            _ => prev,
        }
    }
}

/// The items of abyssal jewel slots give no sockets or allocations.
pub open spec fn counts_for_allocations(s: Slot) -> bool {
    !(s is AbyssalJewel)
}

/// The abyssal sockets the equipped items give.
pub open spec fn sockets_of(eq: Seq<(Slot, usize)>, inv: Seq<InventoryItem>) -> i64
    decreases eq.len(),
{
    if eq.len() == 0 {
        0
    } else {
        let prev = sockets_of(eq.drop_last(), inv);
        if counts_for_allocations(eq.last().0) {
            add_sockets(prev, inv[eq.last().1 as int].nonlocal_mods@)
        } else {
            prev
        }
    }
}

/// The nodes the equipped items allocate, each once, in order.
pub open spec fn allocs_of(eq: Seq<(Slot, usize)>, inv: Seq<InventoryItem>) -> Seq<u32>
    decreases eq.len(),
{
    if eq.len() == 0 {
        seq![]
    } else {
        let prev = allocs_of(eq.drop_last(), inv);
        if counts_for_allocations(eq.last().0) {
            add_allocs(prev, inv[eq.last().1 as int].nonlocal_mods@)
        } else {
            prev
        }
    }
}

/// A slot stays equipped with `sockets` abyssal sockets: an abyssal jewel slot only when
/// its number is below them (taken as a `u16`).
pub open spec fn keeps_slot(s: Slot, sockets: i64) -> bool {
    match s {
        Slot::AbyssalJewel(i) => i < sockets as u16,
        _ => true,
    }
}

/// The entries of the equipment whose slots stay with `sockets` abyssal sockets.
pub open spec fn kept_slots(eq: Seq<(Slot, usize)>, sockets: i64) -> Seq<(Slot, usize)>
    decreases eq.len(),
{
    if eq.len() == 0 {
        seq![]
    } else if keeps_slot(eq.last().0, sockets) {
        kept_slots(eq.drop_last(), sockets).push(eq.last())
    } else {
        kept_slots(eq.drop_last(), sockets)
    }
}

/// The entries kept are entries of the equipment.
pub proof fn lemma_kept_slots_sub(eq: Seq<(Slot, usize)>, sockets: i64)
    ensures
        forall|i: int| 0 <= i < kept_slots(eq, sockets).len() ==> eq.contains(#[trigger] kept_slots(eq, sockets)[i]),
        kept_slots(eq, sockets).len() <= eq.len(),
    decreases eq.len(),
{
    if eq.len() > 0 {
        lemma_kept_slots_sub(eq.drop_last(), sockets);
        let k = kept_slots(eq, sockets);
        let k0 = kept_slots(eq.drop_last(), sockets);
        assert forall|i: int| 0 <= i < k.len() implies eq.contains(#[trigger] k[i]) by {
            if i < k0.len() {
                assert(k[i] == k0[i]);
                let j = choose|j: int| 0 <= j < eq.drop_last().len() && eq.drop_last()[j] == k0[i];
                assert(eq[j] == k0[i]);
            } else {
                assert(k[i] == eq[eq.len() - 1]);
            }
        }
    }
}

/// A subsequence of the equipment, in order: what `kept_slots` keeps.
pub proof fn lemma_kept_slots_ok(eq: Seq<(Slot, usize)>, sockets: i64, n: int)
    requires
        equipment_ok(eq, n),
    ensures
        equipment_ok(kept_slots(eq, sockets), n),
    decreases eq.len(),
{
    if eq.len() > 0 {
        let e0 = eq.drop_last();
        assert(equipment_ok(e0, n));
        lemma_kept_slots_ok(e0, sockets, n);
        lemma_kept_slots_sub(e0, sockets);
        let k = kept_slots(eq, sockets);
        let k0 = kept_slots(e0, sockets);
        if keeps_slot(eq.last().0, sockets) {
            assert forall|a: int, b: int| 0 <= a < b < k.len() implies (#[trigger] k[a]).0 != (#[trigger] k[b]).0 by {
                if b == k.len() - 1 {
                    assert(e0.contains(k0[a]));
                    let j = choose|j: int| 0 <= j < e0.len() && e0[j] == k0[a];
                    assert(eq[j] == k[a]);
                    assert(eq[eq.len() - 1] == k[b]);
                } else {
                    assert(k[a] == k0[a] && k[b] == k0[b]);
                }
            }
            assert forall|i: int| 0 <= i < k.len() implies (#[trigger] k[i]).1 < n by {
                if i < k0.len() {
                    assert(k[i] == k0[i]);
                } else {
                    assert(k[i] == eq[eq.len() - 1]);
                }
            }
        }
    }
}

impl Build {
    /// Recounts what the equipped items allocate on the tree and the abyssal sockets they
    /// give: the tree's additional nodes become the nodes the items (those outside abyssal
    /// jewel slots) allocate, and abyssal jewel slots beyond the sockets are emptied.
    pub fn update_item_allocations(&mut self)
        requires
            old(self).wf(),
        ensures
            final(self).wf(),
            final(self).equipment@ == kept_slots(
                old(self).equipment@,
                sockets_of(old(self).equipment@, old(self).inventory@),
            ),
            final(self).tree.nodes_additional@ == allocs_of(old(self).equipment@, old(self).inventory@),
            final(self).tree == (PassiveTree { nodes_additional: final(self).tree.nodes_additional, ..old(self).tree }),
            *final(self) == (Build { equipment: final(self).equipment, tree: final(self).tree, ..*old(self) }),
    {
        let ghost eq = self.equipment@;
        let ghost inv = self.inventory@;
        let mut sockets: i64 = 0;
        let mut allocs: Vec<u32> = Vec::new();
        let mut i: usize = 0;
        while i < self.equipment.len()
            invariant
                i <= eq.len(),
                eq == self.equipment@,
                inv == self.inventory@,
                self.wf(),
                sockets == sockets_of(eq.take(i as int), inv),
                allocs@ == allocs_of(eq.take(i as int), inv),
            decreases eq.len() - i,
        {
            proof {
                assert(eq.take(i + 1).drop_last() == eq.take(i as int));
                assert(eq.take(i + 1).last() == eq[i as int]);
            }
            let slot = self.equipment[i].0;
            let idx = self.equipment[i].1;
            if !matches!(slot, Slot::AbyssalJewel(_)) {
                let mods = &self.inventory[idx].nonlocal_mods;
                let ghost s0 = sockets;
                let ghost a0 = allocs@;
                let mut j: usize = 0;
                while j < mods.len()
                    invariant
                        j <= mods@.len(),
                        sockets == add_sockets(s0, mods@.take(j as int)),
                        allocs@ == add_allocs(a0, mods@.take(j as int)),
                    decreases mods@.len() - j,
                {
                    proof {
                        assert(mods@.take(j + 1).drop_last() == mods@.take(j as int));
                        assert(mods@.take(j + 1).last() == mods@[j as int]);
                    }
                    match &mods[j].effect {
                        ModEffect::Stat(st) => {
                            if st.stat == StatId::AbyssalSockets {
                                sockets = sockets.wrapping_add(st.amount);
                            } else {
                                assert(sockets.wrapping_add(0) == sockets) by (bit_vector);
                            }
                        },
                        ModEffect::Allocate(n) => {
                            assert(sockets.wrapping_add(0) == sockets) by (bit_vector);
                            if !ids_contain(&allocs, *n) {
                                allocs.push(*n);
                            }
                        },
                        _ => {
                            assert(sockets.wrapping_add(0) == sockets) by (bit_vector);
                        },
                    }
                    j = j + 1;
                }
                assert(mods@.take(mods@.len() as int) == mods@);
            }
            i = i + 1;
        }
        assert(eq.take(eq.len() as int) == eq);
        self.tree.nodes_additional = allocs;
        let mut kept: Vec<(Slot, usize)> = Vec::new();
        let mut k: usize = 0;
        while k < self.equipment.len()
            invariant
                k <= eq.len(),
                eq == self.equipment@,
                kept@ == kept_slots(eq.take(k as int), sockets),
            decreases eq.len() - k,
        {
            proof {
                assert(eq.take(k + 1).drop_last() == eq.take(k as int));
                assert(eq.take(k + 1).last() == eq[k as int]);
            }
            let e = self.equipment[k];
            let keep = match e.0 {
                Slot::AbyssalJewel(n) => n < sockets as u16,
                _ => true,
            };
            if keep {
                kept.push(e);
            }
            k = k + 1;
        }
        assert(eq.take(eq.len() as int) == eq);
        proof {
            lemma_kept_slots_ok(eq, sockets, inv.len() as int);
        }
        self.equipment = kept;
    }
}


/// The links that hold gems, in order.
pub open spec fn nonempty_links(links: Seq<GemLink>) -> Seq<GemLink>
    decreases links.len(),
{
    if links.len() == 0 {
        seq![]
    } else if links.last().gems@.len() > 0 {
        nonempty_links(links.drop_last()).push(links.last())
    } else {
        nonempty_links(links.drop_last())
    }
}

/// An item allocates nodes when one of its modifiers does.
pub open spec fn item_allocates(item: InventoryItem) -> bool {
    exists|i: int| 0 <= i < item.nonlocal_mods@.len() && (#[trigger] item.nonlocal_mods@[i]).effect is Allocate
}

/// What equipping changes of a build: the equipment, the tree's additional nodes and the
/// gem links.
pub type Outfit = (Seq<(Slot, usize)>, Seq<u32>, Seq<GemLink>);

/// The outfit once allocations are recounted from the equipment.
pub open spec fn recounted(o: Outfit, inv: Seq<InventoryItem>) -> Outfit {
    (kept_slots(o.0, sockets_of(o.0, inv)), allocs_of(o.0, inv), o.2)
}

/// The outfit once `slot` is emptied: its entry goes, allocations are recounted when its
/// item allocates nodes, and links left without gems go; nothing changes when the slot
/// holds nothing.
pub open spec fn unequipped(o: Outfit, inv: Seq<InventoryItem>, slot: Slot) -> Outfit {
    match slot_pos(o.0, slot) {
        None => o,
        Some(p) => {
            let rest = (o.0.remove(p), o.1, nonempty_links(o.2));
            if item_allocates(inv[o.0[p].1 as int]) {
                recounted(rest, inv)
            } else {
                rest
            }
        },
    }
}

/// Removing an entry keeps the equipment sound.
pub proof fn lemma_remove_ok(eq: Seq<(Slot, usize)>, p: int, n: int)
    requires
        equipment_ok(eq, n),
        0 <= p < eq.len(),
    ensures
        equipment_ok(eq.remove(p), n),
{
    let r = eq.remove(p);
    assert forall|a: int, b: int| 0 <= a < b < r.len() implies (#[trigger] r[a]).0 != (#[trigger] r[b]).0 by {
        let a2 = if a < p { a } else { a + 1 };
        let b2 = if b < p { b } else { b + 1 };
        assert(r[a] == eq[a2] && r[b] == eq[b2]);
    }
    assert forall|i: int| 0 <= i < r.len() implies (#[trigger] r[i]).1 < n by {
        let i2 = if i < p { i } else { i + 1 };
        assert(r[i] == eq[i2]);
    }
}

impl Build {
    /// What equipping changes of the build.
    pub open spec fn outfit(&self) -> Outfit {
        (self.equipment@, self.tree.nodes_additional@, self.gem_links@)
    }

    /// Drops the gem links left without gems.
    fn drop_empty_links(&mut self)
        ensures
            final(self).gem_links@ == nonempty_links(old(self).gem_links@),
            *final(self) == (Build { gem_links: final(self).gem_links, ..*old(self) }),
    {
        let mut rest: Vec<GemLink> = Vec::new();
        std::mem::swap(&mut rest, &mut self.gem_links);
        let ghost all = rest@;
        let ghost mut k: int = 0;
        let mut kept: Vec<GemLink> = Vec::new();
        while rest.len() > 0
            invariant
                0 <= k <= all.len(),
                rest@ == all.skip(k),
                kept@ == nonempty_links(all.take(k)),
            decreases rest@.len(),
        {
            proof {
                assert(all.take(k + 1).drop_last() == all.take(k));
                assert(all.take(k + 1).last() == all[k]);
                assert(rest@[0] == all[k]);
            }
            let link = rest.remove(0);
            if link.gems.len() > 0 {
                kept.push(link);
            }
            proof {
                assert(rest@ == all.skip(k + 1));
                k = k + 1;
            }
        }
        assert(all.take(all.len() as int) == all);
        self.gem_links = kept;
    }

    /// Empties `slot`: its item stays in the inventory; allocations are recounted when the
    /// item allocates nodes, and gem links left without gems are dropped.
    pub fn unequip(&mut self, slot: Slot)
        requires
            old(self).wf(),
        ensures
            final(self).wf(),
            final(self).outfit() == unequipped(old(self).outfit(), old(self).inventory@, slot),
            final(self).tree == (PassiveTree { nodes_additional: final(self).tree.nodes_additional, ..old(self).tree }),
            *final(self) == (Build {
                equipment: final(self).equipment,
                tree: final(self).tree,
                gem_links: final(self).gem_links,
                ..*old(self)
            }),
    {
        let pos = match self.find_slot(slot) {
            Some(p) => p,
            None => {
                return;
            },
        };
        proof {
            lemma_remove_ok(self.equipment@, pos as int, self.inventory@.len() as int);
        }
        let entry = self.equipment.remove(pos);
        let idx = entry.1;
        if allocates_nodes(&self.inventory[idx].nonlocal_mods) {
            self.update_item_allocations();
        }
        self.drop_empty_links();
    }
}


/// Classes of weapons held in both hands: those that only go in the weapon slot.
pub open spec fn spec_two_handed(c: ItemClass) -> bool {
    c == ItemClass::TwoHandSword || c == ItemClass::TwoHandAxe || c == ItemClass::TwoHandMace
        || c == ItemClass::Warstaff || c == ItemClass::Staff || c == ItemClass::Bow
}

pub fn two_handed(c: ItemClass) -> (r: bool)
    ensures
        r == spec_two_handed(c),
{
    match c {
        ItemClass::TwoHandSword | ItemClass::TwoHandAxe | ItemClass::TwoHandMace | ItemClass::Warstaff
        | ItemClass::Staff | ItemClass::Bow => true,
        _ => false,
    }
}

/// The class of the item `slot` holds.
pub open spec fn class_in(o: Outfit, inv: Seq<InventoryItem>, slot: Slot) -> Option<ItemClass> {
    match equipped_index(o.0, slot) {
        Some(i) => Some(inv[i as int].item_class),
        None => None,
    }
}

/// The outfit once the item at `idx` is put in `slot`: the slot is emptied first, then
/// holds the item, and allocations are recounted when the item allocates nodes. A weapon
/// held in both hands empties the off-hand, unless it is a bow and the off-hand holds a
/// quiver; an off-hand item empties the weapon slot when that holds a weapon held in both
/// hands, unless that is a bow and the item a quiver.
pub open spec fn equipped(o: Outfit, inv: Seq<InventoryItem>, slot: Slot, idx: usize) -> Outfit {
    let o1 = unequipped(o, inv, slot);
    let o2 = (o1.0.push((slot, idx)), o1.1, o1.2);
    let o3 = if item_allocates(inv[idx as int]) {
        recounted(o2, inv)
    } else {
        o2
    };
    let class = inv[idx as int].item_class;
    let o4 = if slot == Slot::Weapon && spec_two_handed(class) && !(class == ItemClass::Bow && class_in(
        o3,
        inv,
        Slot::Offhand,
    ) == Some(ItemClass::Quiver)) {
        unequipped(o3, inv, Slot::Offhand)
    } else {
        o3
    };
    match class_in(o4, inv, Slot::Weapon) {
        Some(wc) => if slot == Slot::Offhand && spec_two_handed(wc) && !(wc == ItemClass::Bow && class
            == ItemClass::Quiver) {
            unequipped(o4, inv, Slot::Weapon)
        } else {
            o4
        },
        None => o4,
    }
}

/// An entry whose slot stays is kept.
pub proof fn lemma_kept_contains(eq: Seq<(Slot, usize)>, sockets: i64, e: (Slot, usize))
    requires
        eq.contains(e),
        keeps_slot(e.0, sockets),
    ensures
        kept_slots(eq, sockets).contains(e),
    decreases eq.len(),
{
    if eq.last() == e {
        assert(kept_slots(eq, sockets).last() == e);
    } else {
        let j = choose|j: int| 0 <= j < eq.len() && eq[j] == e;
        assert(eq.drop_last()[j] == e);
        lemma_kept_contains(eq.drop_last(), sockets, e);
        let k0 = kept_slots(eq.drop_last(), sockets);
        let i = choose|i: int| 0 <= i < k0.len() && k0[i] == e;
        if keeps_slot(eq.last().0, sockets) {
            assert(kept_slots(eq, sockets)[i] == e);
        }
    }
}

/// The entry of a slot gives the position of its item.
pub proof fn lemma_index_of_entry(eq: Seq<(Slot, usize)>, e: (Slot, usize), n: int)
    requires
        equipment_ok(eq, n),
        eq.contains(e),
    ensures
        equipped_index(eq, e.0) == Some(e.1),
{
    let j = choose|j: int| 0 <= j < eq.len() && eq[j] == e;
    assert(eq[j].0 == e.0);
    let p = slot_pos(eq, e.0)->0;
    if p != j {
        if p < j {
            assert(eq[p].0 != eq[j].0);
        } else {
            assert(eq[j].0 != eq[p].0);
        }
    }
}

/// Emptying a slot keeps the equipment sound, leaves no entry of the slot and no new
/// entry, and keeps every entry of another slot that is not an abyssal jewel slot.
pub proof fn lemma_unequipped(o: Outfit, inv: Seq<InventoryItem>, slot: Slot)
    requires
        equipment_ok(o.0, inv.len() as int),
    ensures
        equipment_ok(unequipped(o, inv, slot).0, inv.len() as int),
        slot_pos(unequipped(o, inv, slot).0, slot) is None,
        forall|e: (Slot, usize)| #[trigger] unequipped(o, inv, slot).0.contains(e) ==> o.0.contains(e),
        forall|e: (Slot, usize)|
            o.0.contains(e) && e.0 != slot && !(e.0 is AbyssalJewel) ==> #[trigger] unequipped(o, inv, slot).0.contains(e),
{
    let n = inv.len() as int;
    match slot_pos(o.0, slot) {
        None => {},
        Some(p) => {
            let eq = o.0;
            let r = eq.remove(p);
            lemma_remove_ok(eq, p, n);
            assert forall|e: (Slot, usize)| #[trigger] r.contains(e) implies eq.contains(e) && e.0 != slot by {
                let i = choose|i: int| 0 <= i < r.len() && r[i] == e;
                let i2 = if i < p { i } else { i + 1 };
                assert(eq[i2] == e);
                if e.0 == slot {
                    if i2 < p {
                        assert(eq[i2].0 != eq[p].0);
                    } else {
                        assert(eq[p].0 != eq[i2].0);
                    }
                }
            }
            assert forall|e: (Slot, usize)| eq.contains(e) && e.0 != slot implies #[trigger] r.contains(e) by {
                let i = choose|i: int| 0 <= i < eq.len() && eq[i] == e;
                assert(i != p);
                let i2 = if i < p { i } else { i - 1 };
                assert(r[i2] == e);
            }
            assert(slot_pos(r, slot) is None);
            if item_allocates(inv[eq[p].1 as int]) {
                let sk = sockets_of(r, inv);
                let k = kept_slots(r, sk);
                lemma_kept_slots_ok(r, sk, n);
                lemma_kept_slots_sub(r, sk);
                assert forall|e: (Slot, usize)| #[trigger] k.contains(e) implies eq.contains(e) && e.0 != slot by {
                    let i = choose|i: int| 0 <= i < k.len() && k[i] == e;
                    assert(r.contains(k[i]));
                }
                assert forall|e: (Slot, usize)|
                    eq.contains(e) && e.0 != slot && !(e.0 is AbyssalJewel) implies #[trigger] k.contains(e) by {
                    assert(r.contains(e));
                    lemma_kept_contains(r, sk, e);
                }
                if slot_pos(k, slot) is Some {
                    let i = choose|i: int| 0 <= i < k.len() && (#[trigger] k[i]).0 == slot;
                    assert(k.contains(k[i]));
                }
            }
        },
    }
}

/// Putting an item in a slot other than an abyssal jewel slot leaves the slot holding it.
pub proof fn law_equip_places(b: Build, slot: Slot, idx: usize)
    requires
        b.wf(),
        idx < b.inventory@.len(),
        !(slot is AbyssalJewel),
    ensures
        equipped_index(equipped(b.outfit(), b.inventory@, slot, idx).0, slot) == Some(idx),
{
    let inv = b.inventory@;
    let n = inv.len() as int;
    let o = b.outfit();
    let e = (slot, idx);
    let o1 = unequipped(o, inv, slot);
    lemma_unequipped(o, inv, slot);
    let o2 = (o1.0.push(e), o1.1, o1.2);
    assert(o2.0[o2.0.len() - 1] == e);
    assert(equipment_ok(o2.0, n)) by {
        assert forall|a: int, c: int| 0 <= a < c < o2.0.len() implies (#[trigger] o2.0[a]).0 != (#[trigger] o2.0[c]).0 by {
            if c == o2.0.len() - 1 {
                assert(o1.0[a] == o2.0[a]);
                if o1.0[a].0 == slot {
                    assert(slot_pos(o1.0, slot) is Some);
                }
            } else {
                assert(o1.0[a] == o2.0[a] && o1.0[c] == o2.0[c]);
            }
        }
        assert forall|i: int| 0 <= i < o2.0.len() implies (#[trigger] o2.0[i]).1 < n by {
            if i < o1.0.len() {
                assert(o1.0[i] == o2.0[i]);
            }
        }
    }
    let o3 = if item_allocates(inv[idx as int]) { recounted(o2, inv) } else { o2 };
    if item_allocates(inv[idx as int]) {
        lemma_kept_slots_ok(o2.0, sockets_of(o2.0, inv), n);
        lemma_kept_contains(o2.0, sockets_of(o2.0, inv), e);
    }
    assert(o3.0.contains(e));
    assert(equipment_ok(o3.0, n));
    let class = inv[idx as int].item_class;
    let o4 = if slot == Slot::Weapon && spec_two_handed(class) && !(class == ItemClass::Bow && class_in(
        o3,
        inv,
        Slot::Offhand,
    ) == Some(ItemClass::Quiver)) {
        unequipped(o3, inv, Slot::Offhand)
    } else {
        o3
    };
    lemma_unequipped(o3, inv, Slot::Offhand);
    assert(o4.0.contains(e));
    assert(equipment_ok(o4.0, n));
    lemma_unequipped(o4, inv, Slot::Weapon);
    let r = equipped(o, inv, slot, idx);
    assert(r.0.contains(e));
    assert(equipment_ok(r.0, n));
    lemma_index_of_entry(r.0, e, n);
}

/// Emptying a slot leaves it holding nothing.
pub proof fn law_unequip_empties(b: Build, slot: Slot)
    requires
        b.wf(),
    ensures
        equipped_index(unequipped(b.outfit(), b.inventory@, slot).0, slot) is None,
{
    lemma_unequipped(b.outfit(), b.inventory@, slot);
}

impl Build {
    /// Puts the item at `item_idx` of the inventory in `slot`, emptying the slot first and
    /// recounting allocations when the item allocates nodes; a weapon held in both hands
    /// and an off-hand item make room for each other, but a bow keeps its quiver.
    pub fn equip(&mut self, slot: Slot, item_idx: usize)
        requires
            old(self).wf(),
            item_idx < old(self).inventory@.len(),
        ensures
            final(self).wf(),
            final(self).outfit() == equipped(old(self).outfit(), old(self).inventory@, slot, item_idx),
            final(self).tree == (PassiveTree { nodes_additional: final(self).tree.nodes_additional, ..old(self).tree }),
            *final(self) == (Build {
                equipment: final(self).equipment,
                tree: final(self).tree,
                gem_links: final(self).gem_links,
                ..*old(self)
            }),
    {
        let ghost inv = self.inventory@;
        proof {
            lemma_unequipped(self.outfit(), inv, slot);
        }
        self.unequip(slot);
        let ghost o1 = self.outfit();
        self.equipment.push((slot, item_idx));
        proof {
            let n = inv.len() as int;
            let eq = self.equipment@;
            assert forall|a: int, c: int| 0 <= a < c < eq.len() implies (#[trigger] eq[a]).0 != (#[trigger] eq[c]).0 by {
                if c == eq.len() - 1 {
                    assert(o1.0[a] == eq[a]);
                    if o1.0[a].0 == slot {
                        assert(slot_pos(o1.0, slot) is Some);
                    }
                } else {
                    assert(o1.0[a] == eq[a] && o1.0[c] == eq[c]);
                }
            }
            assert forall|i: int| 0 <= i < eq.len() implies (#[trigger] eq[i]).1 < n by {
                if i < o1.0.len() {
                    assert(o1.0[i] == eq[i]);
                }
            }
        }
        if allocates_nodes(&self.inventory[item_idx].nonlocal_mods) {
            self.update_item_allocations();
        }
        let new_class = self.inventory[item_idx].item_class;
        if slot == Slot::Weapon && two_handed(new_class) {
            let has_quiver = match self.get_equipped(Slot::Offhand) {
                Some(offhand) => offhand.item_class == ItemClass::Quiver,
                None => false,
            };
            if !(new_class == ItemClass::Bow && has_quiver) {
                self.unequip(Slot::Offhand);
            }
        }
        if slot == Slot::Offhand {
            let weapon_class = match self.get_equipped(Slot::Weapon) {
                Some(weapon) => Some(weapon.item_class),
                None => None,
            };
            if let Some(wc) = weapon_class {
                if two_handed(wc) && !(wc == ItemClass::Bow && new_class == ItemClass::Quiver) {
                    self.unequip(Slot::Weapon);
                }
            }
        }
    }
}


/// The slots that hold the item at `k`, in order.
pub open spec fn slots_holding(eq: Seq<(Slot, usize)>, k: usize) -> Seq<Slot>
    decreases eq.len(),
{
    if eq.len() == 0 {
        seq![]
    } else if eq.last().1 == k {
        slots_holding(eq.drop_last(), k).push(eq.last().0)
    } else {
        slots_holding(eq.drop_last(), k)
    }
}

/// The outfit once each of `slots` is emptied, in order.
pub open spec fn unequipped_all(o: Outfit, inv: Seq<InventoryItem>, slots: Seq<Slot>) -> Outfit
    decreases slots.len(),
{
    if slots.len() == 0 {
        o
    } else {
        unequipped(unequipped_all(o, inv, slots.drop_last()), inv, slots.last())
    }
}

/// The outfit once the item at `idx` is put in each of `slots`, in order.
pub open spec fn equipped_all(o: Outfit, inv: Seq<InventoryItem>, slots: Seq<Slot>, idx: usize) -> Outfit
    decreases slots.len(),
{
    if slots.len() == 0 {
        o
    } else {
        equipped(equipped_all(o, inv, slots.drop_last(), idx), inv, slots.last(), idx)
    }
}

/// The equipment once the item at `k` leaves the inventory: the positions after it move
/// down by one.
pub open spec fn shifted(eq: Seq<(Slot, usize)>, k: usize) -> Seq<(Slot, usize)> {
    eq.map_values(|e: (Slot, usize)| if e.1 > k { (e.0, (e.1 - 1) as usize) } else { e })
}

/// The slots that held the item are empty once they are emptied in turn, and no entry is
/// new.
pub proof fn lemma_unequipped_all(o: Outfit, inv: Seq<InventoryItem>, slots: Seq<Slot>)
    requires
        equipment_ok(o.0, inv.len() as int),
    ensures
        equipment_ok(unequipped_all(o, inv, slots).0, inv.len() as int),
        forall|e: (Slot, usize)| #[trigger] unequipped_all(o, inv, slots).0.contains(e) ==> o.0.contains(e),
        forall|i: int| 0 <= i < slots.len() ==> slot_pos(unequipped_all(o, inv, slots).0, #[trigger] slots[i]) is None,
    decreases slots.len(),
{
    if slots.len() > 0 {
        let prev = unequipped_all(o, inv, slots.drop_last());
        lemma_unequipped_all(o, inv, slots.drop_last());
        lemma_unequipped(prev, inv, slots.last());
        let r = unequipped_all(o, inv, slots);
        assert forall|i: int| 0 <= i < slots.len() implies slot_pos(r.0, #[trigger] slots[i]) is None by {
            if i < slots.len() - 1 {
                assert(slots.drop_last()[i] == slots[i]);
                assert(slot_pos(prev.0, slots[i]) is None);
                if slot_pos(r.0, slots[i]) is Some {
                    let j = choose|j: int| 0 <= j < r.0.len() && (#[trigger] r.0[j]).0 == slots[i];
                    assert(r.0.contains(r.0[j]));
                    assert(prev.0.contains(r.0[j]));
                    let m = choose|m: int| 0 <= m < prev.0.len() && prev.0[m] == r.0[j];
                    assert(prev.0[m].0 == slots[i]);
                }
            }
        }
    }
}

/// Every slot holding the item at `k` is among `slots_holding`.
pub proof fn lemma_slots_holding(eq: Seq<(Slot, usize)>, k: usize, e: (Slot, usize))
    requires
        eq.contains(e),
        e.1 == k,
    ensures
        slots_holding(eq, k).contains(e.0),
    decreases eq.len(),
{
    if eq.last() == e {
        assert(slots_holding(eq, k).last() == e.0);
    } else {
        let j = choose|j: int| 0 <= j < eq.len() && eq[j] == e;
        assert(eq.drop_last()[j] == e);
        lemma_slots_holding(eq.drop_last(), k, e);
        let h0 = slots_holding(eq.drop_last(), k);
        let i = choose|i: int| 0 <= i < h0.len() && h0[i] == e.0;
        if eq.last().1 == k {
            assert(slots_holding(eq, k)[i] == e.0);
        }
    }
}

/// Once the slots holding the item at `k` are emptied, no entry holds it.
pub proof fn lemma_none_holds(o: Outfit, inv: Seq<InventoryItem>, k: usize)
    requires
        equipment_ok(o.0, inv.len() as int),
    ensures
        forall|e: (Slot, usize)| #[trigger] unequipped_all(o, inv, slots_holding(o.0, k)).0.contains(e) ==> e.1 != k,
{
    let slots = slots_holding(o.0, k);
    let r = unequipped_all(o, inv, slots);
    lemma_unequipped_all(o, inv, slots);
    assert forall|e: (Slot, usize)| #[trigger] r.0.contains(e) implies e.1 != k by {
        if e.1 == k {
            assert(o.0.contains(e));
            lemma_slots_holding(o.0, k, e);
            let i = choose|i: int| 0 <= i < slots.len() && slots[i] == e.0;
            assert(slot_pos(r.0, slots[i]) is None);
            let j = choose|j: int| 0 <= j < r.0.len() && r.0[j] == e;
            assert(r.0[j].0 == slots[i]);
        }
    }
}

/// Once the item at `k` leaves the inventory, each slot still equipped holds the item it
/// held before, which was another one.
pub proof fn law_remove_keeps_items(b: Build, k: usize)
    requires
        b.wf(),
        k < b.inventory@.len(),
    ensures
        ({
            let inv = b.inventory@;
            let o = unequipped_all(b.outfit(), inv, slots_holding(b.equipment@, k));
            let r = shifted(o.0, k);
            forall|i: int|
                0 <= i < r.len() ==> exists|j: int|
                    0 <= j < b.equipment@.len() && b.equipment@[j].0 == (#[trigger] r[i]).0 && b.equipment@[j].1 != k
                        && inv.remove(k as int)[r[i].1 as int] == inv[b.equipment@[j].1 as int]
        }),
{
    let inv = b.inventory@;
    let o = unequipped_all(b.outfit(), inv, slots_holding(b.equipment@, k));
    lemma_unequipped_all(b.outfit(), inv, slots_holding(b.equipment@, k));
    lemma_none_holds(b.outfit(), inv, k);
    let r = shifted(o.0, k);
    assert forall|i: int| 0 <= i < r.len() implies exists|j: int|
        0 <= j < b.equipment@.len() && b.equipment@[j].0 == (#[trigger] r[i]).0 && b.equipment@[j].1 != k
            && inv.remove(k as int)[r[i].1 as int] == inv[b.equipment@[j].1 as int] by {
        let e = o.0[i];
        assert(o.0.contains(e));
        assert(e.1 != k);
        let j = choose|j: int| 0 <= j < b.equipment@.len() && b.equipment@[j] == e;
        assert(b.equipment@[j] == e);
    }
}

impl Build {
    /// Takes the item at `idx_remove` out of the inventory: the slots holding it are emptied
    /// first, and the positions of the items after it move down by one. A position past the
    /// inventory changes nothing.
    pub fn remove_inventory(&mut self, idx_remove: usize)
        requires
            old(self).wf(),
        ensures
            final(self).wf(),
            idx_remove >= old(self).inventory@.len() ==> *final(self) == *old(self),
            idx_remove < old(self).inventory@.len() ==> {
                let o = unequipped_all(
                    old(self).outfit(),
                    old(self).inventory@,
                    slots_holding(old(self).equipment@, idx_remove),
                );
                &&& final(self).inventory@ == old(self).inventory@.remove(idx_remove as int)
                &&& final(self).equipment@ == shifted(o.0, idx_remove)
                &&& final(self).tree.nodes_additional@ == o.1
                &&& final(self).gem_links@ == o.2
            },
            final(self).tree == (PassiveTree { nodes_additional: final(self).tree.nodes_additional, ..old(self).tree }),
            *final(self) == (Build {
                equipment: final(self).equipment,
                inventory: final(self).inventory,
                tree: final(self).tree,
                gem_links: final(self).gem_links,
                ..*old(self)
            }),
    {
        if idx_remove >= self.inventory.len() {
            return;
        }
        let ghost o0 = self.outfit();
        let ghost inv = self.inventory@;
        let slots = self.slots_holding(idx_remove);
        let mut i: usize = 0;
        while i < slots.len()
            invariant
                i <= slots@.len(),
                slots@ == slots_holding(o0.0, idx_remove),
                inv == self.inventory@,
                idx_remove < inv.len(),
                self.wf(),
                self.outfit() == unequipped_all(o0, inv, slots@.take(i as int)),
                self.tree == (PassiveTree { nodes_additional: self.tree.nodes_additional, ..old(self).tree }),
                *self == (Build {
                    equipment: self.equipment,
                    tree: self.tree,
                    gem_links: self.gem_links,
                    ..*old(self)
                }),
            decreases slots@.len() - i,
        {
            proof {
                assert(slots@.take(i + 1).drop_last() == slots@.take(i as int));
                assert(slots@.take(i + 1).last() == slots@[i as int]);
            }
            self.unequip(slots[i]);
            i = i + 1;
        }
        proof {
            assert(slots@.take(slots@.len() as int) == slots@);
            lemma_none_holds(o0, inv, idx_remove);
        }
        let ghost o = self.outfit();
        let ghost mid = *self;
        assert(equipment_ok(o.0, inv.len() as int));
        let mut k: usize = 0;
        while k < self.equipment.len()
            invariant
                k <= o.0.len(),
                *self == (Build { equipment: self.equipment, ..mid }),
                self.equipment@.len() == o.0.len(),
                forall|j: int| 0 <= j < k ==> self.equipment@[j] == shifted(o.0, idx_remove)[j],
                forall|j: int| k <= j < o.0.len() ==> self.equipment@[j] == o.0[j],
            decreases o.0.len() - k,
        {
            let e = self.equipment[k];
            if e.1 > idx_remove {
                self.equipment.set(k, (e.0, e.1 - 1));
            }
            k = k + 1;
        }
        assert(self.equipment@ == shifted(o.0, idx_remove));
        self.inventory.remove(idx_remove);
        proof {
            let eq = self.equipment@;
            let n = self.inventory@.len() as int;
            assert forall|j: int| 0 <= j < eq.len() implies (#[trigger] eq[j]).1 < n by {
                assert(o.0.contains(o.0[j]));
                assert(o.0[j].1 < inv.len() && o.0[j].1 != idx_remove);
                assert(eq[j] == (if o.0[j].1 > idx_remove { (o.0[j].0, (o.0[j].1 - 1) as usize) } else { o.0[j] }));
            }
            assert forall|a: int, b: int| 0 <= a < b < eq.len() implies (#[trigger] eq[a]).0 != (#[trigger] eq[b]).0 by {
                assert(eq[a].0 == o.0[a].0 && eq[b].0 == o.0[b].0);
            }
        }
    }

    /// The slots that hold the item at `k`, in order.
    fn slots_holding(&self, k: usize) -> (r: Vec<Slot>)
        ensures
            r@ == slots_holding(self.equipment@, k),
    {
        let mut r: Vec<Slot> = Vec::new();
        let mut i: usize = 0;
        while i < self.equipment.len()
            invariant
                i <= self.equipment@.len(),
                r@ == slots_holding(self.equipment@.take(i as int), k),
            decreases self.equipment@.len() - i,
        {
            proof {
                assert(self.equipment@.take(i + 1).drop_last() == self.equipment@.take(i as int));
                assert(self.equipment@.take(i + 1).last() == self.equipment@[i as int]);
            }
            if self.equipment[i].1 == k {
                r.push(self.equipment[i].0);
            }
            i = i + 1;
        }
        assert(self.equipment@.take(self.equipment@.len() as int) == self.equipment@);
        r
    }

    /// Puts `item` in the inventory in place of the item at `item_idx`: the slots holding
    /// that item are emptied, then given the new item, in order.
    pub fn swap_item_inventory(&mut self, item_idx: usize, item: InventoryItem)
        requires
            old(self).wf(),
            item_idx < old(self).inventory@.len(),
        ensures
            final(self).wf(),
            final(self).inventory@ == old(self).inventory@.update(item_idx as int, item),
            final(self).outfit() == equipped_all(
                unequipped_all(old(self).outfit(), old(self).inventory@, slots_holding(old(self).equipment@, item_idx)),
                old(self).inventory@.update(item_idx as int, item),
                slots_holding(old(self).equipment@, item_idx),
                item_idx,
            ),
            final(self).tree == (PassiveTree { nodes_additional: final(self).tree.nodes_additional, ..old(self).tree }),
            *final(self) == (Build {
                equipment: final(self).equipment,
                inventory: final(self).inventory,
                tree: final(self).tree,
                gem_links: final(self).gem_links,
                ..*old(self)
            }),
    {
        let ghost o0 = self.outfit();
        let ghost inv = self.inventory@;
        let slots = self.slots_holding(item_idx);
        let mut i: usize = 0;
        while i < slots.len()
            invariant
                i <= slots@.len(),
                slots@ == slots_holding(o0.0, item_idx),
                inv == self.inventory@,
                item_idx < inv.len(),
                self.wf(),
                self.outfit() == unequipped_all(o0, inv, slots@.take(i as int)),
                self.tree == (PassiveTree { nodes_additional: self.tree.nodes_additional, ..old(self).tree }),
                *self == (Build {
                    equipment: self.equipment,
                    tree: self.tree,
                    gem_links: self.gem_links,
                    ..*old(self)
                }),
            decreases slots@.len() - i,
        {
            proof {
                assert(slots@.take(i + 1).drop_last() == slots@.take(i as int));
                assert(slots@.take(i + 1).last() == slots@[i as int]);
            }
            self.unequip(slots[i]);
            i = i + 1;
        }
        assert(slots@.take(slots@.len() as int) == slots@);
        let ghost o1 = self.outfit();
        self.inventory.set(item_idx, item);
        let ghost inv2 = self.inventory@;
        let mut j: usize = 0;
        while j < slots.len()
            invariant
                j <= slots@.len(),
                inv2 == self.inventory@,
                item_idx < inv2.len(),
                self.wf(),
                self.outfit() == equipped_all(o1, inv2, slots@.take(j as int), item_idx),
                self.tree == (PassiveTree { nodes_additional: self.tree.nodes_additional, ..old(self).tree }),
                *self == (Build {
                    equipment: self.equipment,
                    inventory: self.inventory,
                    tree: self.tree,
                    gem_links: self.gem_links,
                    ..*old(self)
                }),
            decreases slots@.len() - j,
        {
            proof {
                assert(slots@.take(j + 1).drop_last() == slots@.take(j as int));
                assert(slots@.take(j + 1).last() == slots@[j as int]);
            }
            self.equip(slots[j], item_idx);
            j = j + 1;
        }
        assert(slots@.take(slots@.len() as int) == slots@);
    }
}


/// The defences and life of a monster of some level, as the game's data gives them.
#[derive(Debug, Clone, Copy)]
pub struct MonsterStats {
    pub level: i64,
    pub accuracy: i64,
    pub ally_life: i64,
    pub armour: i64,
    pub evasion: i64,
    pub life: i64,
}

/// The entry of `level` in the table: the first with that level.
pub open spec fn monster_at(table: Seq<MonsterStats>, level: i64) -> MonsterStats {
    table[choose|i: int| 0 <= i < table.len() && table[i].level == level && forall|j: int| 0 <= j < i ==> #[trigger] table[j].level != level]
}

impl Build {
    /// The modifiers of a monster of `level`: its life, evasion and armour as base values.
    pub fn calc_mods_monster(level: i64, table: &Vec<MonsterStats>) -> (r: Vec<Mod>)
        requires
            exists|i: int| 0 <= i < table@.len() && #[trigger] table@[i].level == level,
        ensures
            r@.len() == 3,
            r@[0].is_plain_stat(StatId::MaximumLife, Type::Base, monster_at(table@, level).life),
            r@[1].is_plain_stat(StatId::EvasionRating, Type::Base, monster_at(table@, level).evasion),
            r@[2].is_plain_stat(StatId::Armour, Type::Base, monster_at(table@, level).armour),
    {
        let mut i: usize = 0;
        while i < table.len()
            invariant
                i <= table@.len(),
                exists|k: int| 0 <= k < table@.len() && #[trigger] table@[k].level == level,
                forall|j: int| 0 <= j < i ==> #[trigger] table@[j].level != level,
            decreases table@.len() - i,
        {
            if table[i].level == level {
                proof {
                    let c = choose|c: int|
                        0 <= c < table@.len() && table@[c].level == level && forall|j: int| 0 <= j < c ==> #[trigger] table@[j].level != level;
                    assert(table@[i as int].level == level && forall|j: int| 0 <= j < i ==> #[trigger] table@[j].level != level);
                    if c < i {
                        assert(table@[c].level != level);
                    } else if c > i {
                        assert(table@[i as int].level != level);
                    }
                }
                let stats = table[i];
                return vec![
                    Mod::stat(StatId::MaximumLife, Type::Base, stats.life),
                    Mod::stat(StatId::EvasionRating, Type::Base, stats.evasion),
                    Mod::stat(StatId::Armour, Type::Base, stats.armour),
                ];
            }
            i = i + 1;
        }
        proof {
            let k = choose|k: int| 0 <= k < table@.len() && #[trigger] table@[k].level == level;
            assert(table@[k].level != level);
        }
        Vec::new()
    }
}


/// The modifiers with their source set to the item in `slot`.
pub open spec fn from_slot(mods: Seq<Mod>, slot: Slot) -> Seq<Mod> {
    mods.map_values(|m: Mod| Mod { source: Source::Item(slot), ..m })
}

/// The item in a slot gives its modifiers: a tree jewel's come with the tree, and a
/// flask's only when the flask is enabled.
pub open spec fn slot_gives(slot: Slot, flasks: Seq<u16>) -> bool {
    match slot {
        Slot::TreeJewel(_) => false,
        Slot::Flask(i) => flasks.contains(i),
        _ => true,
    }
}

/// The modifiers the equipped items give the character, slot by slot, each from its slot.
pub open spec fn slot_mods(eq: Seq<(Slot, usize)>, inv: Seq<InventoryItem>, flasks: Seq<u16>) -> Seq<Mod>
    decreases eq.len(),
{
    if eq.len() == 0 {
        seq![]
    } else {
        let prev = slot_mods(eq.drop_last(), inv, flasks);
        let e = eq.last();
        if slot_gives(e.0, flasks) {
            prev + from_slot(inv[e.1 as int].nonlocal_mods@, e.0)
        } else {
            prev
        }
    }
}

impl Build {
    /// The modifiers the equipped items give the character, in the order of the equipment,
    /// each with its item's slot as source: tree jewels give theirs through the tree, and
    /// flasks only when enabled.
    pub fn item_mods(&self) -> (r: Vec<Mod>)
        requires
            self.wf(),
        ensures
            same_mods(r@, slot_mods(self.equipment@, self.inventory@, self.flasks_enabled@)),
    {
        let ghost eq = self.equipment@;
        let ghost inv = self.inventory@;
        let ghost fl = self.flasks_enabled@;
        let mut r: Vec<Mod> = Vec::new();
        let mut i: usize = 0;
        while i < self.equipment.len()
            invariant
                i <= eq.len(),
                eq == self.equipment@,
                inv == self.inventory@,
                fl == self.flasks_enabled@,
                self.wf(),
                same_mods(r@, slot_mods(eq.take(i as int), inv, fl)),
            decreases eq.len() - i,
        {
            proof {
                assert(eq.take(i + 1).drop_last() == eq.take(i as int));
                assert(eq.take(i + 1).last() == eq[i as int]);
            }
            let slot = self.equipment[i].0;
            let idx = self.equipment[i].1;
            let gives = match slot {
                Slot::TreeJewel(_) => false,
                Slot::Flask(f) => self.is_flask_enabled(f),
                _ => true,
            };
            if gives {
                let mods = &self.inventory[idx].nonlocal_mods;
                let ghost base = slot_mods(eq.take(i as int), inv, fl);
                let mut j: usize = 0;
                while j < mods.len()
                    invariant
                        j <= mods@.len(),
                        same_mods(r@, base + from_slot(mods@.take(j as int), slot)),
                    decreases mods@.len() - j,
                {
                    let m = mods[j].duplicate().with_source(Source::Item(slot));
                    proof {
                        let target = Mod { source: Source::Item(slot), ..mods@[j as int] };
                        assert(m.same(target));
                        lemma_same_mods_push(r@, base + from_slot(mods@.take(j as int), slot), m, target);
                        assert(base + from_slot(mods@.take(j + 1), slot) == (base + from_slot(mods@.take(j as int), slot)).push(target));
                    }
                    r.push(m);
                    j = j + 1;
                }
                assert(mods@.take(mods@.len() as int) == mods@);
            }
            i = i + 1;
        }
        assert(eq.take(eq.len() as int) == eq);
        r
    }
}

/// The modifiers of each reward of the bandits quest: resistances, movement speed, life or
/// a passive skill point.
pub fn bandit_stats(choice: BanditChoice) -> (r: Vec<Mod>)
    ensures
        bandit_mods_ok(r@, choice),
{
    match choice {
        BanditChoice::Alira => vec![
            Mod::stat(StatId::FireResistance, Type::Base, 15),
            Mod::stat(StatId::ColdResistance, Type::Base, 15),
            Mod::stat(StatId::LightningResistance, Type::Base, 15),
        ],
        BanditChoice::Kraityn => vec![Mod::stat(StatId::MovementSpeed, Type::Inc, 8)],
        BanditChoice::Oak => vec![Mod::stat(StatId::MaximumLife, Type::Base, 40)],
        BanditChoice::KillAll => vec![Mod::stat(StatId::PassiveSkillPoints, Type::Base, 1)],
    }
}

/// The resistance penalty of the campaign's progress: none on the beach, 30 after act five,
/// 60 after act ten, to each resistance.
pub open spec fn campaign_penalty(choice: CampaignChoice) -> i64 {
    match choice {
        CampaignChoice::Beach => 0i64,
        CampaignChoice::ActFive => -30i64,
        CampaignChoice::ActTen => -60i64,
    }
}

pub fn campaign_stats(choice: CampaignChoice) -> (r: Vec<Mod>)
    ensures
        campaign_mods_ok(r@, choice),
{
    let p: i64 = match choice {
        CampaignChoice::Beach => {
            return Vec::new();
        },
        CampaignChoice::ActFive => -30,
        CampaignChoice::ActTen => -60,
    };
    vec![
        Mod::stat(StatId::FireResistance, Type::Base, p),
        Mod::stat(StatId::ColdResistance, Type::Base, p),
        Mod::stat(StatId::LightningResistance, Type::Base, p),
        Mod::stat(StatId::ChaosResistance, Type::Base, p),
    ]
}


/// One of the modifiers every character has: a stat modifier, with at most one mutation,
/// perhaps only while dual wielding, and with gem tags and flags it is restricted to.
#[derive(Debug, Clone, Copy)]
pub struct BaseRow {
    pub stat: StatId,
    pub typ: Type,
    pub amount: i64,
    pub mutation: Option<Mutation>,
    pub dual_wield: bool,
    pub tags: u64,
    pub flags: u64,
}

/// The modifiers every character has: life, mana and accuracy by level and attributes,
/// charges, rage, resistances and block caps, and the bonuses of dual wielding.
pub open spec fn base_table() -> Seq<BaseRow> {
    seq![
        BaseRow { stat: StatId::MaximumLife, typ: Type::Base, amount: 12, mutation: Some(Mutation::MultiplierProperty((1, property::Int::Level))), dual_wield: false, tags: 0, flags: 0 },
        BaseRow { stat: StatId::MaximumLife, typ: Type::Base, amount: 38, mutation: None, dual_wield: false, tags: 0, flags: 0 },
        BaseRow { stat: StatId::MaximumLife, typ: Type::Base, amount: 1, mutation: Some(Mutation::MultiplierStat((2, StatId::Strength))), dual_wield: false, tags: 0, flags: 0 },
        BaseRow { stat: StatId::MaximumEnergyShield, typ: Type::Inc, amount: 1, mutation: Some(Mutation::MultiplierStat((10, StatId::Intelligence))), dual_wield: false, tags: 0, flags: 0 },
        BaseRow { stat: StatId::MaximumMana, typ: Type::Base, amount: 6, mutation: Some(Mutation::MultiplierProperty((1, property::Int::Level))), dual_wield: false, tags: 0, flags: 0 },
        BaseRow { stat: StatId::MaximumMana, typ: Type::Base, amount: 34, mutation: None, dual_wield: false, tags: 0, flags: 0 },
        BaseRow { stat: StatId::MaximumMana, typ: Type::Base, amount: 1, mutation: Some(Mutation::MultiplierStat((2, StatId::Intelligence))), dual_wield: false, tags: 0, flags: 0 },
        BaseRow { stat: StatId::ManaRegenerationPct, typ: Type::Base, amount: 180, mutation: None, dual_wield: false, tags: 0, flags: 0 },
        BaseRow { stat: StatId::MaximumFrenzyCharges, typ: Type::Base, amount: 3, mutation: None, dual_wield: false, tags: 0, flags: 0 },
        BaseRow { stat: StatId::MaximumPowerCharges, typ: Type::Base, amount: 3, mutation: None, dual_wield: false, tags: 0, flags: 0 },
        BaseRow { stat: StatId::MaximumEnduranceCharges, typ: Type::Base, amount: 3, mutation: None, dual_wield: false, tags: 0, flags: 0 },
        BaseRow { stat: StatId::MaximumRage, typ: Type::Base, amount: 30, mutation: None, dual_wield: false, tags: 0, flags: 0 },
        BaseRow { stat: StatId::Damage, typ: Type::More, amount: 1, mutation: Some(Mutation::MultiplierProperty((1, property::Int::Rage))), dual_wield: false, tags: 1, flags: 0 },
        BaseRow { stat: StatId::PassiveSkillPoints, typ: Type::Base, amount: 1, mutation: Some(Mutation::MultiplierProperty((1, property::Int::Level))), dual_wield: false, tags: 0, flags: 0 },
        BaseRow { stat: StatId::PassiveSkillPoints, typ: Type::Base, amount: 22, mutation: None, dual_wield: false, tags: 0, flags: 0 },
        BaseRow { stat: StatId::PhysicalDamage, typ: Type::Inc, amount: 1, mutation: Some(Mutation::MultiplierStat((5, StatId::Strength))), dual_wield: false, tags: 2, flags: 1 },
        BaseRow { stat: StatId::Damage, typ: Type::More, amount: 4, mutation: Some(Mutation::MultiplierProperty((1, property::Int::FrenzyCharges))), dual_wield: false, tags: 0, flags: 0 },
        BaseRow { stat: StatId::AttackSpeed, typ: Type::Inc, amount: 4, mutation: Some(Mutation::MultiplierProperty((1, property::Int::FrenzyCharges))), dual_wield: false, tags: 0, flags: 0 },
        BaseRow { stat: StatId::CastSpeed, typ: Type::Inc, amount: 4, mutation: Some(Mutation::MultiplierProperty((1, property::Int::FrenzyCharges))), dual_wield: false, tags: 0, flags: 0 },
        BaseRow { stat: StatId::CriticalStrikeChance, typ: Type::Inc, amount: 50, mutation: Some(Mutation::MultiplierProperty((1, property::Int::PowerCharges))), dual_wield: false, tags: 0, flags: 0 },
        BaseRow { stat: StatId::MaximumFireResistance, typ: Type::Base, amount: 75, mutation: None, dual_wield: false, tags: 0, flags: 0 },
        BaseRow { stat: StatId::MaximumColdResistance, typ: Type::Base, amount: 75, mutation: None, dual_wield: false, tags: 0, flags: 0 },
        BaseRow { stat: StatId::MaximumLightningResistance, typ: Type::Base, amount: 75, mutation: None, dual_wield: false, tags: 0, flags: 0 },
        BaseRow { stat: StatId::MaximumChaosResistance, typ: Type::Base, amount: 75, mutation: None, dual_wield: false, tags: 0, flags: 0 },
        BaseRow { stat: StatId::AccuracyRating, typ: Type::Base, amount: 2, mutation: Some(Mutation::MultiplierStat((1, StatId::Dexterity))), dual_wield: false, tags: 0, flags: 0 },
        BaseRow { stat: StatId::AccuracyRating, typ: Type::Base, amount: 2, mutation: None, dual_wield: false, tags: 0, flags: 0 },
        BaseRow { stat: StatId::AccuracyRating, typ: Type::Base, amount: 2, mutation: Some(Mutation::MultiplierProperty((1, property::Int::Level))), dual_wield: false, tags: 0, flags: 0 },
        BaseRow { stat: StatId::EvasionRating, typ: Type::Base, amount: 15, mutation: None, dual_wield: false, tags: 0, flags: 0 },
        BaseRow { stat: StatId::EvasionRating, typ: Type::Inc, amount: 1, mutation: Some(Mutation::MultiplierStat((5, StatId::Dexterity))), dual_wield: false, tags: 0, flags: 0 },
        BaseRow { stat: StatId::CriticalStrikeMultiplier, typ: Type::Base, amount: 150, mutation: None, dual_wield: false, tags: 0, flags: 0 },
        BaseRow { stat: StatId::MaximumFortification, typ: Type::Base, amount: 20, mutation: None, dual_wield: false, tags: 0, flags: 0 },
        BaseRow { stat: StatId::AttackSpeed, typ: Type::More, amount: 10, mutation: None, dual_wield: true, tags: 0, flags: 0 },
        BaseRow { stat: StatId::ChanceToBlockAttackDamage, typ: Type::Base, amount: 20, mutation: None, dual_wield: true, tags: 0, flags: 0 },
        BaseRow { stat: StatId::MaximumChanceToBlockAttackDamage, typ: Type::Base, amount: 75, mutation: None, dual_wield: false, tags: 0, flags: 0 },
        BaseRow { stat: StatId::MaximumChanceToBlockSpellDamage, typ: Type::Base, amount: 75, mutation: None, dual_wield: false, tags: 0, flags: 0 },
        BaseRow { stat: StatId::RingSlots, typ: Type::Base, amount: 2, mutation: None, dual_wield: false, tags: 0, flags: 0 }
    ]
}

pub fn base_rows() -> (r: Vec<BaseRow>)
    ensures
        r@ == base_table(),
{
    vec![
        BaseRow { stat: StatId::MaximumLife, typ: Type::Base, amount: 12, mutation: Some(Mutation::MultiplierProperty((1, property::Int::Level))), dual_wield: false, tags: 0, flags: 0 },
        BaseRow { stat: StatId::MaximumLife, typ: Type::Base, amount: 38, mutation: None, dual_wield: false, tags: 0, flags: 0 },
        BaseRow { stat: StatId::MaximumLife, typ: Type::Base, amount: 1, mutation: Some(Mutation::MultiplierStat((2, StatId::Strength))), dual_wield: false, tags: 0, flags: 0 },
        BaseRow { stat: StatId::MaximumEnergyShield, typ: Type::Inc, amount: 1, mutation: Some(Mutation::MultiplierStat((10, StatId::Intelligence))), dual_wield: false, tags: 0, flags: 0 },
        BaseRow { stat: StatId::MaximumMana, typ: Type::Base, amount: 6, mutation: Some(Mutation::MultiplierProperty((1, property::Int::Level))), dual_wield: false, tags: 0, flags: 0 },
        BaseRow { stat: StatId::MaximumMana, typ: Type::Base, amount: 34, mutation: None, dual_wield: false, tags: 0, flags: 0 },
        BaseRow { stat: StatId::MaximumMana, typ: Type::Base, amount: 1, mutation: Some(Mutation::MultiplierStat((2, StatId::Intelligence))), dual_wield: false, tags: 0, flags: 0 },
        BaseRow { stat: StatId::ManaRegenerationPct, typ: Type::Base, amount: 180, mutation: None, dual_wield: false, tags: 0, flags: 0 },
        BaseRow { stat: StatId::MaximumFrenzyCharges, typ: Type::Base, amount: 3, mutation: None, dual_wield: false, tags: 0, flags: 0 },
        BaseRow { stat: StatId::MaximumPowerCharges, typ: Type::Base, amount: 3, mutation: None, dual_wield: false, tags: 0, flags: 0 },
        BaseRow { stat: StatId::MaximumEnduranceCharges, typ: Type::Base, amount: 3, mutation: None, dual_wield: false, tags: 0, flags: 0 },
        BaseRow { stat: StatId::MaximumRage, typ: Type::Base, amount: 30, mutation: None, dual_wield: false, tags: 0, flags: 0 },
        BaseRow { stat: StatId::Damage, typ: Type::More, amount: 1, mutation: Some(Mutation::MultiplierProperty((1, property::Int::Rage))), dual_wield: false, tags: 1, flags: 0 },
        BaseRow { stat: StatId::PassiveSkillPoints, typ: Type::Base, amount: 1, mutation: Some(Mutation::MultiplierProperty((1, property::Int::Level))), dual_wield: false, tags: 0, flags: 0 },
        BaseRow { stat: StatId::PassiveSkillPoints, typ: Type::Base, amount: 22, mutation: None, dual_wield: false, tags: 0, flags: 0 },
        BaseRow { stat: StatId::PhysicalDamage, typ: Type::Inc, amount: 1, mutation: Some(Mutation::MultiplierStat((5, StatId::Strength))), dual_wield: false, tags: 2, flags: 1 },
        BaseRow { stat: StatId::Damage, typ: Type::More, amount: 4, mutation: Some(Mutation::MultiplierProperty((1, property::Int::FrenzyCharges))), dual_wield: false, tags: 0, flags: 0 },
        BaseRow { stat: StatId::AttackSpeed, typ: Type::Inc, amount: 4, mutation: Some(Mutation::MultiplierProperty((1, property::Int::FrenzyCharges))), dual_wield: false, tags: 0, flags: 0 },
        BaseRow { stat: StatId::CastSpeed, typ: Type::Inc, amount: 4, mutation: Some(Mutation::MultiplierProperty((1, property::Int::FrenzyCharges))), dual_wield: false, tags: 0, flags: 0 },
        BaseRow { stat: StatId::CriticalStrikeChance, typ: Type::Inc, amount: 50, mutation: Some(Mutation::MultiplierProperty((1, property::Int::PowerCharges))), dual_wield: false, tags: 0, flags: 0 },
        BaseRow { stat: StatId::MaximumFireResistance, typ: Type::Base, amount: 75, mutation: None, dual_wield: false, tags: 0, flags: 0 },
        BaseRow { stat: StatId::MaximumColdResistance, typ: Type::Base, amount: 75, mutation: None, dual_wield: false, tags: 0, flags: 0 },
        BaseRow { stat: StatId::MaximumLightningResistance, typ: Type::Base, amount: 75, mutation: None, dual_wield: false, tags: 0, flags: 0 },
        BaseRow { stat: StatId::MaximumChaosResistance, typ: Type::Base, amount: 75, mutation: None, dual_wield: false, tags: 0, flags: 0 },
        BaseRow { stat: StatId::AccuracyRating, typ: Type::Base, amount: 2, mutation: Some(Mutation::MultiplierStat((1, StatId::Dexterity))), dual_wield: false, tags: 0, flags: 0 },
        BaseRow { stat: StatId::AccuracyRating, typ: Type::Base, amount: 2, mutation: None, dual_wield: false, tags: 0, flags: 0 },
        BaseRow { stat: StatId::AccuracyRating, typ: Type::Base, amount: 2, mutation: Some(Mutation::MultiplierProperty((1, property::Int::Level))), dual_wield: false, tags: 0, flags: 0 },
        BaseRow { stat: StatId::EvasionRating, typ: Type::Base, amount: 15, mutation: None, dual_wield: false, tags: 0, flags: 0 },
        BaseRow { stat: StatId::EvasionRating, typ: Type::Inc, amount: 1, mutation: Some(Mutation::MultiplierStat((5, StatId::Dexterity))), dual_wield: false, tags: 0, flags: 0 },
        BaseRow { stat: StatId::CriticalStrikeMultiplier, typ: Type::Base, amount: 150, mutation: None, dual_wield: false, tags: 0, flags: 0 },
        BaseRow { stat: StatId::MaximumFortification, typ: Type::Base, amount: 20, mutation: None, dual_wield: false, tags: 0, flags: 0 },
        BaseRow { stat: StatId::AttackSpeed, typ: Type::More, amount: 10, mutation: None, dual_wield: true, tags: 0, flags: 0 },
        BaseRow { stat: StatId::ChanceToBlockAttackDamage, typ: Type::Base, amount: 20, mutation: None, dual_wield: true, tags: 0, flags: 0 },
        BaseRow { stat: StatId::MaximumChanceToBlockAttackDamage, typ: Type::Base, amount: 75, mutation: None, dual_wield: false, tags: 0, flags: 0 },
        BaseRow { stat: StatId::MaximumChanceToBlockSpellDamage, typ: Type::Base, amount: 75, mutation: None, dual_wield: false, tags: 0, flags: 0 },
        BaseRow { stat: StatId::RingSlots, typ: Type::Base, amount: 2, mutation: None, dual_wield: false, tags: 0, flags: 0 }
    ]
}

/// `m` is the modifier the row describes.
pub open spec fn realizes(m: Mod, row: BaseRow) -> bool {
    &&& m.effect matches ModEffect::Stat(s) && s.stat == row.stat && s.typ == row.typ && s.amount == row.amount
        && s.revised_amount is None && s.mutations@ == match row.mutation {
        Some(mu) => seq![mu],
        None => Seq::<Mutation>::empty(),
    }
    &&& m.conditions@ == if row.dual_wield {
        seq![Condition::WhileDualWielding]
    } else {
        Seq::<Condition>::empty()
    }
    &&& m.tags == row.tags
    &&& m.tags_not == 0
    &&& m.source == Source::Innate
    &&& m.weapons == 0
    &&& m.flags == row.flags
}

fn row_mod(row: BaseRow) -> (r: Mod)
    ensures
        realizes(r, row),
{
    let mut mutations: StackVec<Mutation, 2> = StackVec::new();
    if let Some(mu) = row.mutation {
        mutations.push(mu);
    }
    let mut conditions: StackVec<Condition, 2> = StackVec::new();
    if row.dual_wield {
        conditions.push(Condition::WhileDualWielding);
    }
    Mod {
        effect: ModEffect::Stat(ModStat { stat: row.stat, typ: row.typ, amount: row.amount, revised_amount: None, mutations }),
        conditions,
        tags: row.tags,
        tags_not: 0,
        source: Source::Innate,
        weapons: 0,
        flags: row.flags,
    }
}

/// The modifiers are those of the rows, in order.
pub open spec fn realizes_all(mods: Seq<Mod>, rows: Seq<BaseRow>) -> bool {
    &&& mods.len() == rows.len()
    &&& forall|i: int| 0 <= i < mods.len() ==> realizes(#[trigger] mods[i], rows[i])
}

/// The modifiers every character has.
pub fn base_mods() -> (r: Vec<Mod>)
    ensures
        realizes_all(r@, base_table()),
{
    let rows = base_rows();
    let mut r: Vec<Mod> = Vec::new();
    let mut i: usize = 0;
    while i < rows.len()
        invariant
            i <= rows@.len(),
            rows@ == base_table(),
            realizes_all(r@, rows@.take(i as int)),
        decreases rows@.len() - i,
    {
        r.push(row_mod(rows[i]));
        i = i + 1;
    }
    assert(rows@.take(rows@.len() as int) == rows@);
    r
}

/// The attributes a class starts with.
pub open spec fn class_mods_ok(mods: Seq<Mod>, class: ClassData) -> bool {
    &&& mods.len() == 3
    &&& mods[0].is_plain_stat(StatId::Strength, Type::Base, class.base_str)
    &&& mods[1].is_plain_stat(StatId::Dexterity, Type::Base, class.base_dex)
    &&& mods[2].is_plain_stat(StatId::Intelligence, Type::Base, class.base_int)
}

/// The modifiers of a reward of the bandits quest.
pub open spec fn bandit_mods_ok(r: Seq<Mod>, choice: BanditChoice) -> bool {
    match choice {
        BanditChoice::Alira => r.len() == 3 && r[0].is_plain_stat(StatId::FireResistance, Type::Base, 15)
            && r[1].is_plain_stat(StatId::ColdResistance, Type::Base, 15) && r[2].is_plain_stat(
            StatId::LightningResistance,
            Type::Base,
            15,
        ),
        BanditChoice::Kraityn => r.len() == 1 && r[0].is_plain_stat(StatId::MovementSpeed, Type::Inc, 8),
        BanditChoice::Oak => r.len() == 1 && r[0].is_plain_stat(StatId::MaximumLife, Type::Base, 40),
        BanditChoice::KillAll => r.len() == 1 && r[0].is_plain_stat(StatId::PassiveSkillPoints, Type::Base, 1),
    }
}

/// The number of modifiers of a reward of the bandits quest.
pub open spec fn bandit_len(choice: BanditChoice) -> int {
    if choice == BanditChoice::Alira {
        3
    } else {
        1
    }
}

/// The modifiers of the campaign's progress.
pub open spec fn campaign_mods_ok(r: Seq<Mod>, choice: CampaignChoice) -> bool {
    if choice == CampaignChoice::Beach {
        r.len() == 0
    } else {
        &&& r.len() == 4
        &&& r[0].is_plain_stat(StatId::FireResistance, Type::Base, campaign_penalty(choice))
        &&& r[1].is_plain_stat(StatId::ColdResistance, Type::Base, campaign_penalty(choice))
        &&& r[2].is_plain_stat(StatId::LightningResistance, Type::Base, campaign_penalty(choice))
        &&& r[3].is_plain_stat(StatId::ChaosResistance, Type::Base, campaign_penalty(choice))
    }
}

pub open spec fn campaign_len(choice: CampaignChoice) -> int {
    if choice == CampaignChoice::Beach {
        0
    } else {
        4
    }
}

/// Appends copies of `src` to `dst`.
fn extend_mods(dst: &mut Vec<Mod>, src: &Vec<Mod>)
    ensures
        final(dst)@.len() == old(dst)@.len() + src@.len(),
        final(dst)@.subrange(0, old(dst)@.len() as int) == old(dst)@,
        same_mods(final(dst)@.subrange(old(dst)@.len() as int, final(dst)@.len() as int), src@),
{
    let ghost d0 = dst@;
    let mut i: usize = 0;
    while i < src.len()
        invariant
            i <= src@.len(),
            dst@.len() == d0.len() + i,
            dst@.subrange(0, d0.len() as int) == d0,
            same_mods(dst@.subrange(d0.len() as int, dst@.len() as int), src@.take(i as int)),
        decreases src@.len() - i,
    {
        let m = src[i].duplicate();
        let ghost before = dst@;
        dst.push(m);
        proof {
            assert(dst@.subrange(0, d0.len() as int) == before.subrange(0, d0.len() as int));
            lemma_same_mods_push(before.subrange(d0.len() as int, before.len() as int), src@.take(i as int), m, src@[i as int]);
            assert(dst@.subrange(d0.len() as int, dst@.len() as int) == before.subrange(d0.len() as int, before.len() as int).push(m));
            assert(src@.take(i + 1) == src@.take(i as int).push(src@[i as int]));
        }
        i = i + 1;
    }
    assert(src@.take(src@.len() as int) == src@);
}

/// A copy of a plain stat modifier is one too.
pub proof fn lemma_plain_same(a: Mod, b: Mod, stat: StatId, typ: Type, amount: i64)
    requires
        a.same(b),
        b.is_plain_stat(stat, typ, amount),
    ensures
        a.is_plain_stat(stat, typ, amount),
{
}

/// Copies of the modifiers of a quest reward or of the campaign are those modifiers.
pub proof fn lemma_rewards_same(a: Seq<Mod>, b: Seq<Mod>, bandit: BanditChoice, campaign: CampaignChoice)
    requires
        same_mods(a, b),
    ensures
        bandit_mods_ok(b, bandit) ==> bandit_mods_ok(a, bandit),
        campaign_mods_ok(b, campaign) ==> campaign_mods_ok(a, campaign),
{
    if a.len() > 0 {
        assert(a[0].same(b[0]));
    }
    if a.len() > 1 {
        assert(a[1].same(b[1]));
    }
    if a.len() > 2 {
        assert(a[2].same(b[2]));
    }
    if a.len() > 3 {
        assert(a[3].same(b[3]));
    }
}

impl Build {
    /// The modifiers of the character: those every character has, the class's attributes,
    /// the quest rewards, the tree's (`tree_mods`), the equipped items' and the player's
    /// own (`custom_mods`), in that order.
    pub fn calc_mods(&self, class: &ClassData, tree_mods: &Vec<Mod>, custom_mods: &Vec<Mod>) -> (r: Vec<Mod>)
        requires
            self.wf(),
        ensures
            ({
                let a = 36int;
                let b = a + 3;
                let c = b + bandit_len(self.bandit_choice);
                let d = c + campaign_len(self.campaign_choice);
                let e = d + tree_mods@.len();
                let f = e + slot_mods(self.equipment@, self.inventory@, self.flasks_enabled@).len();
                &&& r@.len() == f + custom_mods@.len()
                &&& realizes_all(r@.subrange(0, a), base_table())
                &&& class_mods_ok(r@.subrange(a, b), *class)
                &&& bandit_mods_ok(r@.subrange(b, c), self.bandit_choice)
                &&& campaign_mods_ok(r@.subrange(c, d), self.campaign_choice)
                &&& same_mods(r@.subrange(d, e), tree_mods@)
                &&& same_mods(r@.subrange(e, f), slot_mods(self.equipment@, self.inventory@, self.flasks_enabled@))
                &&& same_mods(r@.subrange(f, r@.len() as int), custom_mods@)
            }),
    {
        let mut r = base_mods();
        let ghost r0 = r@;
        r.push(Mod::stat(StatId::Strength, Type::Base, class.base_str));
        r.push(Mod::stat(StatId::Dexterity, Type::Base, class.base_dex));
        r.push(Mod::stat(StatId::Intelligence, Type::Base, class.base_int));
        let ghost r1 = r@;
        let bandit = bandit_stats(self.bandit_choice);
        extend_mods(&mut r, &bandit);
        let ghost r2 = r@;
        let campaign = campaign_stats(self.campaign_choice);
        extend_mods(&mut r, &campaign);
        let ghost r3 = r@;
        extend_mods(&mut r, tree_mods);
        let ghost r4 = r@;
        let items = self.item_mods();
        extend_mods(&mut r, &items);
        let ghost r5 = r@;
        extend_mods(&mut r, custom_mods);
        proof {
            let n = r@;
            assert(base_table().len() == 36);
            assert(r1.subrange(0, 36) =~= r0);
            assert(r2.subrange(0, 36) =~= r1.subrange(0, 36));
            assert(r3.subrange(0, 36) =~= r2.subrange(0, 36));
            assert(r4.subrange(0, 36) =~= r3.subrange(0, 36));
            assert(r5.subrange(0, 36) =~= r4.subrange(0, 36));
            assert(n.subrange(0, 36) =~= r5.subrange(0, 36));
            assert(n.subrange(36, 39) =~= r1.subrange(36, 39));
            let sb = n.subrange(39, r2.len() as int);
            assert(sb =~= r2.subrange(39, r2.len() as int));
            lemma_rewards_same(sb, bandit@, self.bandit_choice, self.campaign_choice);
            let sc = n.subrange(r2.len() as int, r3.len() as int);
            assert(sc =~= r3.subrange(r2.len() as int, r3.len() as int));
            lemma_rewards_same(sc, campaign@, self.bandit_choice, self.campaign_choice);
            assert(n.subrange(r3.len() as int, r4.len() as int) =~= r4.subrange(r3.len() as int, r4.len() as int));
            let si = n.subrange(r4.len() as int, r5.len() as int);
            assert(si =~= r5.subrange(r4.len() as int, r5.len() as int));
            assert forall|i: int| 0 <= i < si.len() implies (#[trigger] si[i]).same(slot_mods(self.equipment@, self.inventory@, self.flasks_enabled@)[i]) by {
                assert(si[i].same(items@[i]));
            }
        }
        r
    }
}

} // verus!
