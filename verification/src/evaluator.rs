use vstd::prelude::*;
use crate::arith::{tdiv, fits, div_t};
use crate::base_item::{ItemClass, Rarity};
use crate::modifier::{Condition, ModStat, Mutation, Source};
use crate::property;
use crate::slot::{Defence, Slot};
use crate::stat::{Stat, Stats, spec_val, val100_ok, mult_ok, spec_mult, fold_ok, fold_mods, default_nums, for_stat, calc_stat};
use crate::stat_id::StatId;
use crate::text::str_eq;
use crate::flags::spec_contains;

verus! {

/// An equipped item, as the evaluation of modifiers reads it.
#[derive(Debug)]
pub struct EquippedItem {
    pub slot: Slot,
    pub item_class: ItemClass,
    /// The item's base has the "weapon" tag.
    pub is_weapon: bool,
    pub armour: i64,
    pub evasion: i64,
    pub energy_shield: i64,
    pub block_chance: i64,
    pub quality: i64,
    pub corrupted: bool,
    pub rarity: Rarity,
    /// The item's modifiers that apply outside the item.
    pub nonlocal_mods: Vec<crate::modifier::Mod>,
    /// The item's own effect, for flasks (see `item_calc::effect`).
    pub effect: Stat,
}

impl EquippedItem {
    /// The item's value of a defence.
    pub open spec fn spec_defence(&self, d: Defence) -> i64 {
        match d {
            Defence::Armour => self.armour,
            Defence::Evasion => self.evasion,
            Defence::EnergyShield => self.energy_shield,
            Defence::Block => self.block_chance,
        }
    }

    pub fn defence(&self, d: Defence) -> (r: i64)
        ensures
            r == self.spec_defence(d),
    {
        match d {
            Defence::Armour => self.armour,
            Defence::Evasion => self.evasion,
            Defence::EnergyShield => self.energy_shield,
            Defence::Block => self.block_chance,
        }
    }
}

/// What the evaluation of modifiers reads from a build: the properties the player set,
/// the equipped items, the allocated masteries and the enabled flasks.
#[derive(Debug)]
pub struct BuildFacts {
    /// The value set for each integer property, by position (`property_position`).
    pub props_int: Vec<i64>,
    /// Whether each integer property is held at its maximum.
    pub props_int_maxed: Vec<bool>,
    /// The value set for each boolean property, by position.
    pub props_bool: Vec<bool>,
    /// The equipped items, at most one per slot.
    pub equipped: Vec<EquippedItem>,
    /// The node names of the allocated masteries.
    pub masteries: Vec<String>,
    /// The enabled flask slots.
    pub flasks_enabled: Vec<u16>,
}

/// The position of an integer property.
pub open spec fn int_position(p: property::Int) -> int {
    match p {
        property::Int::Level => 0,
        property::Int::PowerCharges => 1,
        property::Int::FrenzyCharges => 2,
        property::Int::EnduranceCharges => 3,
        property::Int::Rage => 4,
    }
}

pub fn int_pos(p: property::Int) -> (r: usize)
    ensures
        r == int_position(p),
{
    match p {
        property::Int::Level => 0,
        property::Int::PowerCharges => 1,
        property::Int::FrenzyCharges => 2,
        property::Int::EnduranceCharges => 3,
        property::Int::Rage => 4,
    }
}

/// The position of a boolean property.
pub open spec fn bool_position(p: property::Bool) -> int {
    match p {
        property::Bool::Blinded => 0,
        property::Bool::Onslaught => 1,
        property::Bool::Fortified => 2,
        property::Bool::DealtCritRecently => 3,
        property::Bool::Leeching => 4,
        property::Bool::OnFullLife => 5,
        property::Bool::OnLowLife => 6,
    }
}

pub fn bool_pos(p: property::Bool) -> (r: usize)
    ensures
        r == bool_position(p),
{
    match p {
        property::Bool::Blinded => 0,
        property::Bool::Onslaught => 1,
        property::Bool::Fortified => 2,
        property::Bool::DealtCritRecently => 3,
        property::Bool::Leeching => 4,
        property::Bool::OnFullLife => 5,
        property::Bool::OnLowLife => 6,
    }
}

/// `x` held within `lo` and `hi`.
pub open spec fn clamp(x: int, lo: int, hi: int) -> int {
    if x < lo {
        lo
    } else if x > hi {
        hi
    } else {
        x
    }
}

/// The value of a stat of the table, truncated.
pub open spec fn stat_val(stats: Stats, s: StatId) -> int {
    spec_val(stats.spec_stat(s).nums())
}

/// Every stat of the table can be read: its value and multiplier fit.
pub open spec fn readable(stats: Stats) -> bool {
    &&& stats.wf()
    &&& forall|s: StatId| #[trigger] val100_ok(stats.spec_stat(s).nums()) && mult_ok(stats.spec_stat(s).nums())
}

impl BuildFacts {
    pub open spec fn wf(&self) -> bool {
        &&& self.props_int@.len() == 5
        &&& self.props_int_maxed@.len() == 5
        &&& self.props_bool@.len() == 7
        &&& forall|a: int, b: int| 0 <= a < b < self.equipped@.len() ==> self.equipped@[a].slot != self.equipped@[b].slot
    }

    /// The item equipped in `slot`.
    pub open spec fn spec_equipped(&self, slot: Slot) -> Option<EquippedItem> {
        if exists|i: int| 0 <= i < self.equipped@.len() && (#[trigger] self.equipped@[i]).slot == slot {
            Some(self.equipped@[choose|i: int| 0 <= i < self.equipped@.len() && (#[trigger] self.equipped@[i]).slot == slot])
        } else {
            None
        }
    }

    pub fn get_equipped(&self, slot: Slot) -> (r: Option<&EquippedItem>)
        requires
            self.wf(),
        ensures
            match r {
                Some(item) => self.spec_equipped(slot) == Some(*item),
                None => self.spec_equipped(slot) is None,
            },
    {
        let mut i: usize = 0;
        while i < self.equipped.len()
            invariant
                i <= self.equipped.len(),
                self.wf(),
                forall|j: int| 0 <= j < i ==> (#[trigger] self.equipped@[j]).slot != slot,
            decreases self.equipped.len() - i,
        {
            if self.equipped[i].slot == slot {
                proof {
                    let k = choose|k: int| 0 <= k < self.equipped@.len() && (#[trigger] self.equipped@[k]).slot == slot;
                    if k != i {
                        if k < i {
                            assert(self.equipped@[k].slot != self.equipped@[i as int].slot);
                        } else {
                            assert(self.equipped@[i as int].slot != self.equipped@[k].slot);
                        }
                    }
                }
                return Some(&self.equipped[i]);
            }
            i += 1;
        }
        None
    }

    /// Some equipped item is of one of the classes.
    pub open spec fn spec_is_holding(&self, classes: u64) -> bool {
        exists|i: int| 0 <= i < self.equipped@.len() && spec_contains(classes, (#[trigger] self.equipped@[i]).item_class.spec_bit())
    }

    pub fn is_holding(&self, classes: u64) -> (r: bool)
        ensures
            r == self.spec_is_holding(classes),
    {
        let mut i: usize = 0;
        while i < self.equipped.len()
            invariant
                i <= self.equipped.len(),
                forall|j: int| 0 <= j < i ==> !spec_contains(classes, (#[trigger] self.equipped@[j]).item_class.spec_bit()),
            decreases self.equipped.len() - i,
        {
            if crate::flags::contains(classes, self.equipped[i].item_class.bit()) {
                return true;
            }
            i += 1;
        }
        false
    }

    /// The value of an integer property, held within its fixed bounds.
    pub open spec fn spec_property_int(&self, p: property::Int) -> int {
        let d = property::spec_int_data(p);
        let lo = match d.min {
            property::Val::Val(i) => i as int,
            property::Val::Stat(_) => i64::MIN as int,
        };
        let hi = match d.max {
            property::Val::Val(i) => i as int,
            property::Val::Stat(_) => i64::MAX as int,
        };
        clamp(self.props_int@[int_position(p)] as int, lo, hi)
    }

    pub fn property_int(&self, p: property::Int) -> (r: i64)
        requires
            self.wf(),
        ensures
            r == self.spec_property_int(p),
    {
        let d = property::int_data(p);
        let lo = match d.min {
            property::Val::Val(i) => i,
            property::Val::Stat(_) => i64::MIN,
        };
        let hi = match d.max {
            property::Val::Val(i) => i,
            property::Val::Stat(_) => i64::MAX,
        };
        let x = self.props_int[int_pos(p)];
        if x < lo {
            lo
        } else if x > hi {
            hi
        } else {
            x
        }
    }

    /// A bound of an integer property: a number, or the value of a stat.
    pub open spec fn spec_bound(stats: Stats, v: property::Val) -> int {
        match v {
            property::Val::Val(i) => i as int,
            property::Val::Stat(s) => stat_val(stats, s),
        }
    }

    /// The value of an integer property within the bounds the stats give: the maximum
    /// when the property is held at it, else the property held between the lower of the
    /// two bounds and the upper one.
    pub open spec fn spec_property_int_stats(&self, stats: Stats, p: property::Int) -> int {
        let d = property::spec_int_data(p);
        let lo = Self::spec_bound(stats, d.min);
        let hi = Self::spec_bound(stats, d.max);
        if self.props_int_maxed@[int_position(p)] {
            hi
        } else {
            clamp(self.spec_property_int(p), if lo < hi { lo } else { hi }, hi)
        }
    }

    pub fn property_int_stats(&self, stats: &Stats, p: property::Int) -> (r: i64)
        requires
            self.wf(),
            readable(*stats),
        ensures
            r == self.spec_property_int_stats(*stats, p),
    {
        let d = property::int_data(p);
        let mut min = match d.min {
            property::Val::Val(i) => i,
            property::Val::Stat(s) => {
                assert(val100_ok(stats.spec_stat(s).nums()));
                stats.val(s)
            },
        };
        let max = match d.max {
            property::Val::Val(i) => i,
            property::Val::Stat(s) => {
                assert(val100_ok(stats.spec_stat(s).nums()));
                stats.val(s)
            },
        };
        if self.props_int_maxed[int_pos(p)] {
            return max;
        }
        if max < min {
            min = max;
        }
        let x = self.property_int(p);
        if x < min {
            min
        } else if x > max {
            max
        } else {
            x
        }
    }

    /// The number of allocated masteries whose node is named `name`.
    pub open spec fn spec_mastery_count(&self, name: Seq<char>) -> int {
        self.masteries@.filter(|m: String| m@ == name).len() as int
    }

    pub fn mastery_count(&self, name: &str) -> (r: usize)
        ensures
            r == self.spec_mastery_count(name@),
    {
        let ghost pred = |m: String| m@ == name@;
        let mut count: usize = 0;
        let mut i: usize = 0;
        while i < self.masteries.len()
            invariant
                i <= self.masteries.len(),
                pred == (|m: String| m@ == name@),
                count == self.masteries@.take(i as int).filter(pred).len(),
            decreases self.masteries.len() - i,
        {
            proof {
                reveal(Seq::filter);
                assert(self.masteries@.take(i as int + 1).drop_last() =~= self.masteries@.take(i as int));
                self.masteries@.take(i as int).lemma_filter_len(pred);
            }
            if str_eq(self.masteries[i].as_str(), name) {
                count = count + 1;
            }
            i += 1;
        }
        assert(self.masteries@.take(self.masteries.len() as int) =~= self.masteries@);
        count
    }

    /// Some enabled flask is equipped.
    pub open spec fn spec_flask_active(&self) -> bool {
        exists|i: int| 0 <= i < self.flasks_enabled@.len() && self.spec_equipped(Slot::Flask(#[trigger] self.flasks_enabled@[i])) is Some
    }

    pub fn flask_active(&self) -> (r: bool)
        requires
            self.wf(),
        ensures
            r == self.spec_flask_active(),
    {
        let mut i: usize = 0;
        while i < self.flasks_enabled.len()
            invariant
                i <= self.flasks_enabled.len(),
                self.wf(),
                forall|j: int| 0 <= j < i ==> self.spec_equipped(Slot::Flask(#[trigger] self.flasks_enabled@[j])) is None,
            decreases self.flasks_enabled.len() - i,
        {
            if self.get_equipped(Slot::Flask(self.flasks_enabled[i])).is_some() {
                return true;
            }
            i += 1;
        }
        false
    }
}

/// The value of a stat built from an item's own outside modifiers.
pub open spec fn item_stat_val(item: EquippedItem, s: StatId) -> int {
    spec_val(fold_mods(default_nums(), item.nonlocal_mods@, for_stat(s)))
}

/// Every stat built from an equipped item's outside modifiers can be built and read.
pub open spec fn items_readable(facts: BuildFacts) -> bool {
    forall|i: int, s: StatId| 0 <= i < facts.equipped@.len() ==> {
        &&& fold_ok(default_nums(), (#[trigger] facts.equipped@[i]).nonlocal_mods@, #[trigger] for_stat(s))
        &&& val100_ok(fold_mods(default_nums(), facts.equipped@[i].nonlocal_mods@, for_stat(s)))
    }
}

/// Whether a modifier's condition holds: properties and stats compare with the bound;
/// a boolean property must have the value; wielding needs an item of the classes;
/// defences need every slot filled with an item that has the defence; slot stats need
/// each stat of the item in the slot, if any, to be at most the amount; masteries need
/// enough allocated masteries of the name; dual wielding needs weapons, or items of the
/// classes, in both hands; "with this weapon" needs the modifier to come from the item
/// the skill attacks with; "no flask active" needs no enabled flask to be equipped.
pub open spec fn spec_check_condition(facts: BuildFacts, stats: Stats, weapon: Option<Slot>, c: Condition, source: Source) -> bool {
    match c {
        Condition::GreaterEqualProperty(m) => facts.spec_property_int_stats(stats, m.1) >= m.0,
        Condition::LesserEqualProperty(m) => facts.spec_property_int_stats(stats, m.1) <= m.0,
        Condition::GreaterEqualStat(m) => stat_val(stats, m.1) >= m.0,
        Condition::LesserEqualStat(m) => stat_val(stats, m.1) <= m.0,
        Condition::PropertyBool(m) => facts.props_bool@[bool_position(m.1)] == m.0,
        Condition::WhileWielding(w) => facts.spec_is_holding(w),
        Condition::SlotsHaveDefence(m) => forall|i: int| 0 <= i < m.1@.len()
            ==> (facts.spec_equipped(#[trigger] m.1@[i]) matches Some(item) && item.spec_defence(m.0) != 0),
        Condition::SlotLesserEqualStats(m) => match facts.spec_equipped(m.0) {
            Some(item) => forall|i: int| 0 <= i < m.2@.len() ==> item_stat_val(item, #[trigger] m.2@[i]) <= m.1,
            None => true,
        },
        Condition::GreaterEqualMasteryAllocated(m) => facts.spec_mastery_count(m.0@) as u32 >= m.1,
        Condition::WhileDualWielding => {
            &&& facts.spec_equipped(Slot::Weapon) matches Some(main) && main.is_weapon
            &&& facts.spec_equipped(Slot::Offhand) matches Some(off) && off.is_weapon
        },
        Condition::WhileDualWieldingItems(w) => {
            &&& facts.spec_equipped(Slot::Weapon) matches Some(main) && spec_contains(w, main.item_class.spec_bit())
            &&& facts.spec_equipped(Slot::Offhand) matches Some(off) && spec_contains(w, off.item_class.spec_bit())
        },
        Condition::WithThisWeapon => weapon is Some && source == Source::Item(weapon->0),
        Condition::NoFlaskActive => !facts.spec_flask_active(),
    }
}

/// Whether a modifier's condition holds for a skill that attacks with `weapon`, the
/// stats read from `stats`.
pub fn check_condition(facts: &BuildFacts, stats: &Stats, weapon: Option<Slot>, c: &Condition, source: Source) -> (r: bool)
    requires
        facts.wf(),
        readable(*stats),
        items_readable(*facts),
    ensures
        r == spec_check_condition(*facts, *stats, weapon, *c, source),
{
    match c {
        Condition::GreaterEqualProperty(m) => {
            if facts.property_int_stats(stats, m.1) < m.0 {
                return false;
            }
        },
        Condition::LesserEqualProperty(m) => {
            if facts.property_int_stats(stats, m.1) > m.0 {
                return false;
            }
        },
        Condition::GreaterEqualStat(m) => {
            assert(val100_ok(stats.spec_stat(m.1).nums()));
            if stats.val(m.1) < m.0 {
                return false;
            }
        },
        Condition::LesserEqualStat(m) => {
            assert(val100_ok(stats.spec_stat(m.1).nums()));
            if stats.val(m.1) > m.0 {
                return false;
            }
        },
        Condition::PropertyBool(m) => {
            if facts.props_bool[bool_pos(m.1)] != m.0 {
                return false;
            }
        },
        Condition::WhileWielding(w) => {
            if !facts.is_holding(*w) {
                return false;
            }
        },
        Condition::SlotsHaveDefence(m) => {
            let slots = m.1;
            let mut i: usize = 0;
            while i < slots.len()
                invariant
                    i <= slots@.len(),
                    slots == m.1,
                    *c == Condition::SlotsHaveDefence(*m),
                    facts.wf(),
                    forall|j: int| 0 <= j < i ==> match facts.spec_equipped(#[trigger] slots@[j]) {
                        Some(item) => item.spec_defence(m.0) != 0,
                        None => false,
                    },
                decreases slots@.len() - i,
            {
                match facts.get_equipped(slots[i]) {
                    Some(item) => {
                        if item.defence(m.0) == 0 {
                            assert(!(match facts.spec_equipped(m.1@[i as int]) {
                                Some(item) => item.spec_defence(m.0) != 0,
                                None => false,
                            }));
                            return false;
                        }
                    },
                    None => {
                        assert(!(match facts.spec_equipped(m.1@[i as int]) {
                            Some(item) => item.spec_defence(m.0) != 0,
                            None => false,
                        }));
                        return false;
                    },
                }
                i += 1;
            }
        },
        Condition::SlotLesserEqualStats(m) => {
            match facts.get_equipped(m.0) {
                Some(item) => {
                    let ids = m.2;
                    let ghost k = choose|k: int| 0 <= k < facts.equipped@.len() && (#[trigger] facts.equipped@[k]).slot == m.0;
                    let mut i: usize = 0;
                    while i < ids.len()
                        invariant
                            i <= ids@.len(),
                            ids == m.2,
                            *c == Condition::SlotLesserEqualStats(*m),
                            facts.spec_equipped(m.0) == Some(*item),
                            0 <= k < facts.equipped@.len(),
                            facts.equipped@[k] == *item,
                            items_readable(*facts),
                            forall|j: int| 0 <= j < i ==> item_stat_val(*item, #[trigger] ids@[j]) <= m.1,
                        decreases ids@.len() - i,
                    {
                        let id = ids[i];
                        assert(fold_ok(default_nums(), facts.equipped@[k].nonlocal_mods@, for_stat(id)));
                        let stat = calc_stat(id, item.nonlocal_mods.as_slice());
                        if stat.val() > m.1 {
                            assert(item_stat_val(*item, ids@[i as int]) > m.1);
                            return false;
                        }
                        i += 1;
                    }
                },
                None => {},
            }
        },
        Condition::GreaterEqualMasteryAllocated(m) => {
            let count = #[verifier::truncate] (facts.mastery_count(m.0) as u32);
            if count < m.1 {
                return false;
            }
        },
        Condition::WhileDualWielding => {
            match (facts.get_equipped(Slot::Weapon), facts.get_equipped(Slot::Offhand)) {
                (Some(main), Some(off)) => {
                    if !main.is_weapon || !off.is_weapon {
                        return false;
                    }
                },
                _ => {
                    return false;
                },
            }
        },
        Condition::WhileDualWieldingItems(w) => {
            match (facts.get_equipped(Slot::Weapon), facts.get_equipped(Slot::Offhand)) {
                (Some(main), Some(off)) => {
                    if !crate::flags::contains(*w, main.item_class.bit()) || !crate::flags::contains(*w, off.item_class.bit()) {
                        return false;
                    }
                },
                _ => {
                    return false;
                },
            }
        },
        Condition::WithThisWeapon => {
            if weapon.is_none() {
                return false;
            }
            let same = match source {
                Source::Item(s) => Some(s) == weapon,
                _ => false,
            };
            if !same {
                return false;
            }
        },
        Condition::NoFlaskActive => {
            if facts.flask_active() {
                return false;
            }
        },
    }
    true
}

/// The lowest value among the first `n` stats of the list, `None` for none.
pub open spec fn lowest_val(stats: Stats, ids: Seq<StatId>, n: int) -> Option<int>
    decreases n,
{
    if n <= 0 {
        None
    } else {
        let v = stat_val(stats, ids[n - 1]);
        match lowest_val(stats, ids, n - 1) {
            Some(l) => if v < l { Some(v) } else { Some(l) },
            None => Some(v),
        }
    }
}

/// The defence `d` of the item in `slot`, 0 when the slot is empty.
pub open spec fn slot_defence(facts: BuildFacts, slot: Slot, d: Defence) -> int {
    match facts.spec_equipped(slot) {
        Some(item) => item.spec_defence(d) as int,
        None => 0,
    }
}

/// `x` divided by `per`, truncated, and the division defined on machine words.
pub open spec fn div_ok(x: int, per: int) -> bool {
    &&& fits(x)
    &&& per != 0
    &&& !(x == i64::MIN && per == -1)
    &&& i64::MIN <= per <= i64::MAX
}

/// The amount and the upper bound after one mutation: multipliers scale the amount by
/// what they read and divide by their divisor; percentages of a stat replace it; "up to"
/// sets the bound; increased effect and custom multipliers scale it; quality multiplies
/// by the quality of the item the modifier comes from.
pub open spec fn spec_mutate(facts: BuildFacts, stats: Stats, source: Source, amount: int, up_to: int, mu: Mutation) -> (int, int) {
    match mu {
        Mutation::MultiplierProperty(m) => (tdiv(amount * facts.spec_property_int_stats(stats, m.1), m.0 as int), up_to),
        Mutation::MultiplierStat(m) => (tdiv(amount * stat_val(stats, m.1), m.0 as int), up_to),
        Mutation::MultiplierStatLowest(m) => (match lowest_val(stats, m.1@, m.1@.len() as int) {
            Some(l) => tdiv(amount * l, m.0 as int),
            None => 0,
        }, up_to),
        Mutation::MultiplierSlotDefence(m) => (tdiv(amount * slot_defence(facts, m.1, m.2), m.0 as int), up_to),
        Mutation::StatPct(m) => (tdiv(stat_val(stats, m.1) * m.0, 100), up_to),
        Mutation::UpTo(v) => (amount, v as int),
        Mutation::IncreasedEffect(e) => (tdiv(amount * (100 + e), 100), up_to),
        Mutation::MultiplierQuality(per) => match source {
            Source::Item(slot) => (tdiv(amount * facts.spec_equipped(slot)->0.quality, per as int), up_to),
            _ => (amount, up_to),
        },
        Mutation::StatIncPct(pct, s) => (tdiv(stats.spec_stat(s).inc * pct, 100), up_to),
        Mutation::MultiplierOvercap(per, a, b) => {
            let d = stat_val(stats, a) - stat_val(stats, b);
            (tdiv(amount * (if d > 0 { d } else { 0 }), per as int), up_to)
        },
        Mutation::StatMultExtra(s, extra) => {
            let st = stats.spec_stat(s);
            (tdiv(amount * ((100 + st.inc + extra) * st.more), 10000), up_to)
        },
        Mutation::CustomMult(mult) => (tdiv(amount * mult, 10000), up_to),
    }
}

/// One mutation stays within machine words, divides by no zero, and finds the item its
/// quality comes from.
pub open spec fn mutate_ok(facts: BuildFacts, stats: Stats, source: Source, amount: int, mu: Mutation) -> bool {
    &&& fits(amount)
    &&& match mu {
        Mutation::MultiplierProperty(m) => div_ok(amount * facts.spec_property_int_stats(stats, m.1), m.0 as int),
        Mutation::MultiplierStat(m) => div_ok(amount * stat_val(stats, m.1), m.0 as int),
        Mutation::MultiplierStatLowest(m) => match lowest_val(stats, m.1@, m.1@.len() as int) {
            Some(l) => div_ok(amount * l, m.0 as int),
            None => true,
        },
        Mutation::MultiplierSlotDefence(m) => div_ok(amount * slot_defence(facts, m.1, m.2), m.0 as int),
        Mutation::StatPct(m) => fits(stat_val(stats, m.1) * m.0),
        Mutation::UpTo(_) => true,
        Mutation::IncreasedEffect(e) => fits(100 + e) && fits(amount * (100 + e)),
        Mutation::MultiplierQuality(per) => match source {
            Source::Item(slot) => facts.spec_equipped(slot) is Some
                && div_ok(amount * facts.spec_equipped(slot)->0.quality, per as int),
            _ => true,
        },
        Mutation::StatIncPct(pct, s) => fits(stats.spec_stat(s).inc * pct),
        Mutation::MultiplierOvercap(per, a, b) => {
            let d = stat_val(stats, a) - stat_val(stats, b);
            &&& fits(d)
            &&& div_ok(amount * (if d > 0 { d } else { 0 }), per as int)
        },
        Mutation::StatMultExtra(s, extra) => {
            let st = stats.spec_stat(s);
            &&& fits(st.inc + extra)
            &&& fits(100 + st.inc + extra)
            &&& fits((100 + st.inc + extra) * st.more)
            &&& fits(amount * ((100 + st.inc + extra) * st.more))
        },
        Mutation::CustomMult(mult) => fits(amount * mult),
    }
}

/// The amount and bound after the first `n` mutations, from the modifier's amount and no
/// bound.
pub open spec fn spec_mutations(facts: BuildFacts, stats: Stats, source: Source, muts: Seq<Mutation>, amount: int, n: int) -> (int, int)
    decreases n,
{
    if n <= 0 {
        (amount, i64::MAX as int)
    } else {
        let prev = spec_mutations(facts, stats, source, muts, amount, n - 1);
        spec_mutate(facts, stats, source, prev.0, prev.1, muts[n - 1])
    }
}

/// The first `n` mutations stay within machine words.
pub open spec fn mutations_ok(facts: BuildFacts, stats: Stats, source: Source, muts: Seq<Mutation>, amount: int, n: int) -> bool
    decreases n,
{
    if n <= 0 {
        true
    } else {
        &&& mutations_ok(facts, stats, source, muts, amount, n - 1)
        &&& mutate_ok(facts, stats, source, spec_mutations(facts, stats, source, muts, amount, n - 1).0, muts[n - 1])
    }
}

/// The revised amount of a stat modifier: its mutations applied in order, held under the
/// last "up to" bound.
pub open spec fn spec_revised(facts: BuildFacts, stats: Stats, source: Source, m: ModStat) -> int {
    revised_amount(facts, stats, source, m.mutations@, m.amount as int)
}

/// The amount after the mutations, at most the bound they set.
pub open spec fn revised_amount(facts: BuildFacts, stats: Stats, source: Source, muts: Seq<Mutation>, amount: int) -> int {
    let r = spec_mutations(facts, stats, source, muts, amount, muts.len() as int);
    if r.0 < r.1 { r.0 } else { r.1 }
}

/// The lowest value among the stats.
fn lowest_of(stats: &Stats, ids: &[StatId]) -> (r: Option<i64>)
    requires
        readable(*stats),
    ensures
        match lowest_val(*stats, ids@, ids@.len() as int) {
            Some(l) => r == Some(l as i64) && fits(l),
            None => r is None,
        },
{
    let mut lowest: Option<i64> = None;
    let mut i: usize = 0;
    while i < ids.len()
        invariant
            i <= ids@.len(),
            readable(*stats),
            match lowest_val(*stats, ids@, i as int) {
                Some(l) => lowest == Some(l as i64) && fits(l),
                None => lowest is None,
            },
        decreases ids@.len() - i,
    {
        assert(val100_ok(stats.spec_stat(ids@[i as int]).nums()));
        let v = stats.val(ids[i]);
        match lowest {
            Some(l) => {
                if v < l {
                    lowest = Some(v);
                }
            },
            None => {
                lowest = Some(v);
            },
        }
        i += 1;
    }
    lowest
}

/// Applies a stat modifier's mutations, the values they read taken from the build and
/// the stats, and records the revised amount.
pub fn apply_mutations(facts: &BuildFacts, stats: &Stats, m: &mut ModStat, source: Source)
    requires
        facts.wf(),
        readable(*stats),
        mutations_ok(*facts, *stats, source, old(m).mutations@, old(m).amount as int, old(m).mutations@.len() as int),
    ensures
        final(m).stat == old(m).stat,
        final(m).typ == old(m).typ,
        final(m).amount == old(m).amount,
        final(m).mutations@ == old(m).mutations@,
        final(m).revised_amount == Some(spec_revised(*facts, *stats, source, *old(m)) as i64),
{
    let ghost muts = m.mutations@;
    let mut amount: i64 = m.amount;
    let mut up_to: i64 = i64::MAX;
    let n = m.mutations.len();
    let mut i: usize = 0;
    proof {
        lemma_mutations_ok_prefix(*facts, *stats, source, muts, m.amount as int, n as int);
    }
    while i < n
        invariant
            i <= n,
            n == muts.len(),
            muts == m.mutations@,
            facts.wf(),
            readable(*stats),
            forall|k: int| 0 <= k <= n ==> #[trigger] mutations_ok(*facts, *stats, source, muts, m.amount as int, k),
            (amount as int, up_to as int) == spec_mutations(*facts, *stats, source, muts, m.amount as int, i as int),
        decreases n - i,
    {
        let mu = *m.mutations.index(i);
        assert(mutations_ok(*facts, *stats, source, muts, m.amount as int, i as int + 1));
        match mu {
            Mutation::MultiplierProperty(x) => {
                let v = facts.property_int_stats(stats, x.1);
                amount = div_t(amount * v, x.0);
            },
            Mutation::MultiplierStat(x) => {
                assert(val100_ok(stats.spec_stat(x.1).nums()));
                let v = stats.val(x.1);
                amount = div_t(amount * v, x.0);
            },
            Mutation::MultiplierStatLowest(x) => {
                amount = match lowest_of(stats, x.1) {
                    Some(l) => div_t(amount * l, x.0),
                    None => 0,
                };
            },
            Mutation::MultiplierSlotDefence(x) => {
                let def: i64 = match facts.get_equipped(x.1) {
                    Some(item) => item.defence(x.2),
                    None => 0,
                };
                amount = div_t(amount * def, x.0);
            },
            Mutation::StatPct(x) => {
                assert(val100_ok(stats.spec_stat(x.1).nums()));
                let v = stats.val(x.1);
                amount = div_t(v * x.0, 100);
            },
            Mutation::UpTo(v) => {
                up_to = v;
            },
            Mutation::IncreasedEffect(e) => {
                amount = div_t(amount * (100 + e), 100);
            },
            Mutation::MultiplierQuality(per) => {
                match source {
                    Source::Item(slot) => {
                        let item = facts.get_equipped(slot).unwrap();
                        amount = div_t(amount * item.quality, per);
                    },
                    _ => {},
                }
            },
            Mutation::StatIncPct(pct, s) => {
                let inc = stats.stat(s).inc;
                amount = div_t(inc * pct, 100);
            },
            Mutation::MultiplierOvercap(per, a, b) => {
                assert(val100_ok(stats.spec_stat(a).nums()));
                assert(val100_ok(stats.spec_stat(b).nums()));
                let d = stats.val(a) - stats.val(b);
                let delta = if d > 0 { d } else { 0 };
                amount = div_t(amount * delta, per);
            },
            Mutation::StatMultExtra(s, extra) => {
                let st = stats.stat(s);
                assert(val100_ok(stats.spec_stat(s).nums()));
                assert(mult_ok(stats.spec_stat(s).nums()));
                let mult = (100 + st.inc + extra) * st.more;
                amount = div_t(amount * mult, 10000);
            },
            Mutation::CustomMult(mult) => {
                amount = div_t(amount * mult, 10000);
            },
        }
        i += 1;
    }
    let r = if amount < up_to { amount } else { up_to };
    m.revised_amount = Some(r);
}

proof fn lemma_mutations_ok_prefix(facts: BuildFacts, stats: Stats, source: Source, muts: Seq<Mutation>, amount: int, n: int)
    requires
        mutations_ok(facts, stats, source, muts, amount, n),
    ensures
        forall|k: int| 0 <= k <= n ==> #[trigger] mutations_ok(facts, stats, source, muts, amount, k),
    decreases n,
{
    if n > 0 {
        lemma_mutations_ok_prefix(facts, stats, source, muts, amount, n - 1);
    }
}

} // verus!
