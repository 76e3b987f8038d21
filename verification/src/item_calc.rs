use vstd::prelude::*;
use crate::arith::{div_pos, div_t, fits, tdiv};
use crate::base_item::BaseItem;
use crate::damage::{damage_group, spec_damage_group, DamageType};
use crate::item::{JewelRadius, JewelRadiusData};
use crate::item_text::{ParsedItem, RawItem};
use crate::modifier::{BuildFlag, Mod, ModEffect, Type};
use crate::calc::{assim, assim_ok};
use crate::stat::{
    adjust_nums, adjust_ok, calc_stat, default_nums, filter_mods, fold_mods, fold_ok, for_stat, mult_ok, same_mods,
    spec_mult, spec_val, spec_val100, val100_ok, Stat, StatNums,
};
use crate::stat_id::StatId;

verus! {

/// What decides that a modifier of an item applies to the item itself.
#[derive(Debug, Clone, Copy, PartialEq, Eq, Structural)]
pub enum LocalModMatch {
    /// A plain modifier of this stat and type.
    Stat(StatId, Type),
    Flag(BuildFlag),
}

impl LocalModMatch {
    /// The modifier has no condition and is a plain modifier of the stat and type (no
    /// mutation), or sets the flag.
    pub open spec fn spec_matches(self, m: Mod) -> bool {
        &&& m.conditions@.len() == 0
        &&& match self {
            LocalModMatch::Stat(stat, typ) => m.effect matches ModEffect::Stat(ms) && ms.stat == stat && ms.typ == typ
                && ms.mutations@.len() == 0,
            LocalModMatch::Flag(flag) => m.effect matches ModEffect::BuildFlag(f) && f == flag,
        }
    }

    pub fn matches(&self, m: &Mod) -> (r: bool)
        ensures
            r == self.spec_matches(*m),
    {
        if m.conditions.len() != 0 {
            return false;
        }
        match self {
            LocalModMatch::Stat(stat, typ) => match &m.effect {
                ModEffect::Stat(ms) => ms.stat == *stat && ms.typ == *typ && ms.mutations.len() == 0,
                _ => false,
            },
            LocalModMatch::Flag(flag) => match &m.effect {
                ModEffect::BuildFlag(f) => *f == *flag,
                _ => false,
            },
        }
    }
}

/// The kind of item whose local modifiers a table lists.
#[derive(Debug, Clone, Copy, PartialEq, Eq, Structural)]
pub enum LocalKind {
    Weapon,
    Armour,
    Flask,
    Other,
}

/// The local modifiers of each kind of item: weapons keep their added physical damage,
/// physical damage, attack speed, accuracy and critical chance; armour its defences and
/// block; flasks their effect.
pub open spec fn local_table(kind: LocalKind) -> Seq<LocalModMatch> {
    match kind {
        LocalKind::Weapon => seq![
            LocalModMatch::Stat(StatId::AddedMinPhysicalDamage, Type::Base),
            LocalModMatch::Stat(StatId::AddedMaxPhysicalDamage, Type::Base),
            LocalModMatch::Stat(StatId::PhysicalDamage, Type::Inc),
            LocalModMatch::Stat(StatId::AttackSpeed, Type::Inc),
            LocalModMatch::Stat(StatId::AccuracyRating, Type::Base),
            LocalModMatch::Stat(StatId::AccuracyRating, Type::Override),
            LocalModMatch::Stat(StatId::CriticalStrikeChance, Type::Inc),
        ],
        LocalKind::Armour => seq![
            LocalModMatch::Stat(StatId::EvasionRating, Type::Base),
            LocalModMatch::Stat(StatId::EvasionRating, Type::Inc),
            LocalModMatch::Stat(StatId::Armour, Type::Base),
            LocalModMatch::Stat(StatId::Armour, Type::Inc),
            LocalModMatch::Stat(StatId::MaximumEnergyShield, Type::Base),
            LocalModMatch::Stat(StatId::MaximumEnergyShield, Type::Inc),
            LocalModMatch::Stat(StatId::ChanceToBlockAttackDamage, Type::Inc),
            LocalModMatch::Flag(BuildFlag::QualityNoDefences),
        ],
        LocalKind::Flask => seq![LocalModMatch::Stat(StatId::Effect, Type::Inc)],
        LocalKind::Other => seq![],
    }
}

/// The table of local modifiers of a kind of item.
pub fn local_mods(kind: LocalKind) -> (r: Vec<LocalModMatch>)
    ensures
        r@ == local_table(kind),
{
    match kind {
        LocalKind::Weapon => vec![
            LocalModMatch::Stat(StatId::AddedMinPhysicalDamage, Type::Base),
            LocalModMatch::Stat(StatId::AddedMaxPhysicalDamage, Type::Base),
            LocalModMatch::Stat(StatId::PhysicalDamage, Type::Inc),
            LocalModMatch::Stat(StatId::AttackSpeed, Type::Inc),
            LocalModMatch::Stat(StatId::AccuracyRating, Type::Base),
            LocalModMatch::Stat(StatId::AccuracyRating, Type::Override),
            LocalModMatch::Stat(StatId::CriticalStrikeChance, Type::Inc),
        ],
        LocalKind::Armour => vec![
            LocalModMatch::Stat(StatId::EvasionRating, Type::Base),
            LocalModMatch::Stat(StatId::EvasionRating, Type::Inc),
            LocalModMatch::Stat(StatId::Armour, Type::Base),
            LocalModMatch::Stat(StatId::Armour, Type::Inc),
            LocalModMatch::Stat(StatId::MaximumEnergyShield, Type::Base),
            LocalModMatch::Stat(StatId::MaximumEnergyShield, Type::Inc),
            LocalModMatch::Stat(StatId::ChanceToBlockAttackDamage, Type::Inc),
            LocalModMatch::Flag(BuildFlag::QualityNoDefences),
        ],
        LocalKind::Flask => vec![LocalModMatch::Stat(StatId::Effect, Type::Inc)],
        LocalKind::Other => vec![],
    }
}

/// One entry of the table matches the modifier.
pub open spec fn spec_match_local(m: Mod, table: Seq<LocalModMatch>) -> bool {
    exists|i: int| 0 <= i < table.len() && #[trigger] table[i].spec_matches(m)
}

/// Whether the modifier is one the table keeps local.
pub fn match_local(m: &Mod, table: &Vec<LocalModMatch>) -> (r: bool)
    ensures
        r == spec_match_local(*m, table@),
{
    let mut i: usize = 0;
    while i < table.len()
        invariant
            i <= table@.len(),
            forall|j: int| 0 <= j < i ==> !(#[trigger] table@[j].spec_matches(*m)),
        decreases table@.len() - i,
    {
        if table[i].matches(m) {
            return true;
        }
        i = i + 1;
    }
    false
}

/// The kind of an item base by its tags: weapon, else armour, else flask or tincture.
pub open spec fn kind_of(base: BaseItem) -> LocalKind {
    if base.spec_has_tag("weapon"@) {
        LocalKind::Weapon
    } else if base.spec_has_tag("armour"@) {
        LocalKind::Armour
    } else if base.spec_has_tag("flask"@) || base.spec_has_tag("tincture"@) {
        LocalKind::Flask
    } else {
        LocalKind::Other
    }
}

/// The kind of an item base.
pub fn item_kind(base: &BaseItem) -> (r: LocalKind)
    ensures
        r == kind_of(*base),
{
    if base.has_tag("weapon") {
        LocalKind::Weapon
    } else if base.has_tag("armour") {
        LocalKind::Armour
    } else if base.has_tag("flask") || base.has_tag("tincture") {
        LocalKind::Flask
    } else {
        LocalKind::Other
    }
}

/// Selects the modifiers that apply to the item itself (`local`) or those that apply to the
/// character, by the item's kind.
pub open spec fn local_pred(kind: LocalKind, local: bool) -> spec_fn(Mod) -> bool {
    |m: Mod| spec_match_local(m, local_table(kind)) == local
}

/// The item's modifiers that apply to the item itself (`local`), or the others; `mods` holds
/// the modifiers its implicit, explicit and enchant lines give, in that order.
pub fn calc_mods(base: &BaseItem, mods: &Vec<Mod>, local: bool) -> (r: Vec<Mod>)
    ensures
        same_mods(r@, filter_mods(mods@, local_pred(kind_of(*base), local))),
{
    let table = local_mods(item_kind(base));
    let ghost pred = local_pred(kind_of(*base), local);
    let mut r: Vec<Mod> = Vec::new();
    let mut i: usize = 0;
    while i < mods.len()
        invariant
            i <= mods@.len(),
            table@ == local_table(kind_of(*base)),
            pred == local_pred(kind_of(*base), local),
            same_mods(r@, filter_mods(mods@.take(i as int), pred)),
        decreases mods@.len() - i,
    {
        proof {
            assert(mods@.take(i + 1).drop_last() == mods@.take(i as int));
            assert(mods@.take(i + 1).last() == mods@[i as int]);
        }
        let m = &mods[i];
        if match_local(m, &table) == local {
            let ghost prev = r@;
            r.push(m.duplicate());
            proof {
                crate::stat::lemma_same_mods_push(prev, filter_mods(mods@.take(i as int), pred), r@.last(), *m);
                assert(r@ == prev.push(r@.last()));
            }
        }
        i = i + 1;
    }
    assert(mods@.take(mods@.len() as int) == mods@);
    r
}

/// The numbers of stat `id` built from the modifiers.
pub open spec fn local_nums(mods: Seq<Mod>, id: StatId) -> StatNums {
    fold_mods(default_nums(), mods, for_stat(id))
}

/// Building any stat from the modifiers stays within `i64`.
pub open spec fn mods_fit(mods: Seq<Mod>) -> bool {
    forall|s: StatId| fold_ok(default_nums(), mods, #[trigger] for_stat(s))
}

/// The minimum and maximum damage numbers of a weapon for a damage type: its added damage
/// of that type, with the base's physical damage as base and quality as more physical
/// damage, each taking in the type's damage.
pub open spec fn dmg_bounds(item: RawItem, base: BaseItem, local: Seq<Mod>, dt: DamageType) -> (StatNums, StatNums) {
    let g = spec_damage_group(dt.spec_index());
    let mn = local_nums(local, g.added_min_id);
    let mx = local_nums(local, g.added_max_id);
    let d = local_nums(local, g.stat_id);
    let phys = dt == DamageType::Physical && base.properties.physical_damage_min is Some
        && base.properties.physical_damage_max is Some;
    let mn2 = if phys { adjust_nums(mn, Type::Base, base.properties.physical_damage_min->0 as int) } else { mn };
    let mx2 = if phys { adjust_nums(mx, Type::Base, base.properties.physical_damage_max->0 as int) } else { mx };
    let d2 = if phys { adjust_nums(d, Type::More, item.quality as int) } else { d };
    (assim(mn2, d2), assim(mx2, d2))
}

/// The damage range of a weapon for a damage type; none for other items or a range of
/// nothing.
pub open spec fn spec_calc_dmg(item: RawItem, base: BaseItem, local: Seq<Mod>, dt: DamageType) -> Option<(i64, i64)> {
    if !base.spec_has_tag("weapon"@) {
        None
    } else {
        let (a, b) = dmg_bounds(item, base, local, dt);
        if spec_val(a) == 0 && spec_val(b) == 0 {
            None
        } else {
            Some((spec_val(a) as i64, spec_val(b) as i64))
        }
    }
}

/// Computing the damage range stays within `i64`.
pub open spec fn dmg_ok(item: RawItem, base: BaseItem, local: Seq<Mod>, dt: DamageType) -> bool {
    let g = spec_damage_group(dt.spec_index());
    let mn = local_nums(local, g.added_min_id);
    let mx = local_nums(local, g.added_max_id);
    let d = local_nums(local, g.stat_id);
    let phys = dt == DamageType::Physical && base.properties.physical_damage_min is Some
        && base.properties.physical_damage_max is Some;
    let mn2 = if phys { adjust_nums(mn, Type::Base, base.properties.physical_damage_min->0 as int) } else { mn };
    let mx2 = if phys { adjust_nums(mx, Type::Base, base.properties.physical_damage_max->0 as int) } else { mx };
    let d2 = if phys { adjust_nums(d, Type::More, item.quality as int) } else { d };
    &&& mods_fit(local)
    &&& phys ==> adjust_ok(mn, Type::Base, base.properties.physical_damage_min->0 as int) && adjust_ok(
        mx,
        Type::Base,
        base.properties.physical_damage_max->0 as int,
    ) && adjust_ok(d, Type::More, item.quality as int)
    &&& assim_ok(mn2, d2)
    &&& assim_ok(mx2, d2)
    &&& val100_ok(assim(mn2, d2))
    &&& val100_ok(assim(mx2, d2))
}

/// The damage range of a weapon for a damage type; `local` holds the item's local
/// modifiers (see `calc_mods`).
pub fn calc_dmg(item: &RawItem, base: &BaseItem, local: &Vec<Mod>, dt: DamageType) -> (r: Option<(i64, i64)>)
    requires
        base.spec_has_tag("weapon"@) ==> dmg_ok(*item, *base, local@, dt),
    ensures
        r == spec_calc_dmg(*item, *base, local@, dt),
{
    if !base.has_tag("weapon") {
        return None;
    }
    let group = damage_group(dt.as_index());
    assert(fold_ok(default_nums(), local@, for_stat(group.added_min_id)));
    assert(fold_ok(default_nums(), local@, for_stat(group.added_max_id)));
    assert(fold_ok(default_nums(), local@, for_stat(group.stat_id)));
    let mut min_stat = calc_stat(group.added_min_id, local.as_slice());
    let mut max_stat = calc_stat(group.added_max_id, local.as_slice());
    let mut dmg = calc_stat(group.stat_id, local.as_slice());
    if dt == DamageType::Physical {
        if let Some(min) = base.properties.physical_damage_min {
            if let Some(max) = base.properties.physical_damage_max {
                min_stat.adjust(Type::Base, min);
                max_stat.adjust(Type::Base, max);
                dmg.adjust(Type::More, item.quality);
            }
        }
    }
    min_stat.assimilate(&dmg);
    max_stat.assimilate(&dmg);
    let ret = (min_stat.val(), max_stat.val());
    if ret.0 != 0 || ret.1 != 0 {
        return Some(ret);
    }
    None
}

/// The accuracy of a weapon from its local modifiers.
pub fn accuracy(local: &Vec<Mod>) -> (r: Stat)
    requires
        mods_fit(local@),
    ensures
        r.nums() == local_nums(local@, StatId::AccuracyRating),
{
    assert(fold_ok(default_nums(), local@, for_stat(StatId::AccuracyRating)));
    calc_stat(StatId::AccuracyRating, local.as_slice())
}

/// The attack time of a weapon: its base attack time divided by its local attack speed.
pub open spec fn spec_attack_speed(base: BaseItem, local: Seq<Mod>) -> Option<i64> {
    match base.properties.attack_time {
        Some(t) => Some(tdiv(t * 10000, spec_mult(local_nums(local, StatId::AttackSpeed))) as i64),
        None => None,
    }
}

pub fn attack_speed(base: &BaseItem, local: &Vec<Mod>) -> (r: Option<i64>)
    requires
        mods_fit(local@),
        base.properties.attack_time matches Some(t) ==> {
            let n = local_nums(local@, StatId::AttackSpeed);
            mult_ok(n) && spec_mult(n) != 0 && fits(t * 10000) && !(t * 10000 == i64::MIN && spec_mult(n) == -1)
        },
    ensures
        r == spec_attack_speed(*base, local@),
{
    match base.properties.attack_time {
        Some(attack_time) => {
            assert(fold_ok(default_nums(), local@, for_stat(StatId::AttackSpeed)));
            let stat_attack_speed = calc_stat(StatId::AttackSpeed, local.as_slice());
            Some(stat_attack_speed.val_custom_inv(attack_time))
        },
        None => None,
    }
}

/// A base property taken as base of a stat with the local modifiers, as a value.
pub open spec fn with_base(local: Seq<Mod>, id: StatId, prop: Option<i64>) -> Option<i64> {
    match prop {
        Some(b) => Some(spec_val(adjust_nums(local_nums(local, id), Type::Base, b as int)) as i64),
        None => None,
    }
}

pub open spec fn with_base_ok(local: Seq<Mod>, id: StatId, prop: Option<i64>) -> bool {
    &&& mods_fit(local)
    &&& prop matches Some(b) ==> adjust_ok(local_nums(local, id), Type::Base, b as int) && val100_ok(
        adjust_nums(local_nums(local, id), Type::Base, b as int),
    )
}

/// A base property with the local modifiers of its stat.
fn base_with_local(local: &Vec<Mod>, id: StatId, prop: Option<i64>) -> (r: Option<i64>)
    requires
        with_base_ok(local@, id, prop),
    ensures
        r == with_base(local@, id, prop),
{
    match prop {
        Some(b) => {
            assert(fold_ok(default_nums(), local@, for_stat(id)));
            let mut stat = calc_stat(id, local.as_slice());
            stat.adjust_mod(&Mod::stat(id, Type::Base, b));
            Some(stat.val())
        },
        None => None,
    }
}

/// The critical strike chance of a weapon: its base chance with the local modifiers.
pub fn crit_chance(base: &BaseItem, local: &Vec<Mod>) -> (r: Option<i64>)
    requires
        with_base_ok(local@, StatId::CriticalStrikeChance, base.properties.critical_strike_chance),
    ensures
        r == with_base(local@, StatId::CriticalStrikeChance, base.properties.critical_strike_chance),
{
    base_with_local(local, StatId::CriticalStrikeChance, base.properties.critical_strike_chance)
}

/// The block chance of a shield: its base chance with the local modifiers.
pub fn block_chance(base: &BaseItem, local: &Vec<Mod>) -> (r: Option<i64>)
    requires
        with_base_ok(local@, StatId::ChanceToBlockAttackDamage, base.properties.block),
    ensures
        r == with_base(local@, StatId::ChanceToBlockAttackDamage, base.properties.block),
{
    base_with_local(local, StatId::ChanceToBlockAttackDamage, base.properties.block)
}

/// The effect of a flask or tincture: its local effect, with quality as more effect for a
/// tincture.
pub open spec fn effect_nums(item: RawItem, base: BaseItem, local: Seq<Mod>) -> StatNums {
    let n = local_nums(local, StatId::Effect);
    if base.spec_has_tag("tincture"@) {
        adjust_nums(n, Type::More, item.quality as int)
    } else {
        n
    }
}

pub fn effect(item: &RawItem, base: &BaseItem, local: &Vec<Mod>) -> (r: Stat)
    requires
        mods_fit(local@),
        base.spec_has_tag("tincture"@) ==> adjust_ok(local_nums(local@, StatId::Effect), Type::More, item.quality as int),
    ensures
        r.nums() == effect_nums(*item, *base, local@),
{
    assert(fold_ok(default_nums(), local@, for_stat(StatId::Effect)));
    let mut effect_stat = calc_stat(StatId::Effect, local.as_slice());
    if base.has_tag("tincture") {
        effect_stat.adjust(Type::More, item.quality);
    }
    effect_stat
}

/// The distance class of a jewel's effect, from its other modifiers; none when it is 0.
pub open spec fn spec_distance_class(nonlocal: Seq<Mod>) -> Option<i64> {
    let v = spec_val(local_nums(nonlocal, StatId::ItemEffectDistanceClass));
    if v == 0 {
        None
    } else {
        Some(v as i64)
    }
}

pub fn jewel_effect_distance_class(nonlocal: &Vec<Mod>) -> (r: Option<i64>)
    requires
        mods_fit(nonlocal@),
        val100_ok(local_nums(nonlocal@, StatId::ItemEffectDistanceClass)),
    ensures
        r == spec_distance_class(nonlocal@),
{
    assert(fold_ok(default_nums(), nonlocal@, for_stat(StatId::ItemEffectDistanceClass)));
    let effect = calc_stat(StatId::ItemEffectDistanceClass, nonlocal.as_slice()).val();
    if effect == 0 {
        return None;
    }
    Some(effect)
}

/// Whether one of the modifiers allocates a node.
pub fn allocates_nodes(nonlocal: &Vec<Mod>) -> (r: bool)
    ensures
        r == exists|i: int| 0 <= i < nonlocal@.len() && (#[trigger] nonlocal@[i]).effect is Allocate,
{
    let mut i: usize = 0;
    while i < nonlocal.len()
        invariant
            i <= nonlocal@.len(),
            forall|j: int| 0 <= j < i ==> !((#[trigger] nonlocal@[j]).effect is Allocate),
        decreases nonlocal@.len() - i,
    {
        if nonlocal[i].as_allocate().is_some() {
            return true;
        }
        i = i + 1;
    }
    false
}

/// The name of an item: its own, or its base's when it has none.
pub fn name<'a>(item: &'a RawItem, base: &'a BaseItem) -> (r: &'a str)
    ensures
        r@ == if item.name@.len() > 0 { item.name@ } else { base.name@ },
{
    if !item.name.as_str().is_empty() {
        item.name.as_str()
    } else {
        base.name.as_str()
    }
}

/// The area of a ring of a jewel of variable radius, by ring size.
pub open spec fn ring_area(size: JewelRadius) -> Option<JewelRadiusData> {
    match size {
        JewelRadius::Small => Some(JewelRadiusData { inner: 960, outer: 1320 }),
        JewelRadius::Medium => Some(JewelRadiusData { inner: 1320, outer: 1680 }),
        JewelRadius::Large => Some(JewelRadiusData { inner: 1680, outer: 2040 }),
        JewelRadius::VeryLarge => Some(JewelRadiusData { inner: 2040, outer: 2400 }),
        JewelRadius::Massive => Some(JewelRadiusData { inner: 2400, outer: 2880 }),
        JewelRadius::Variable => None,
    }
}

/// The first ring size the modifiers set.
pub open spec fn first_ring(mods: Seq<Mod>) -> Option<JewelRadius> {
    if exists|i: int| 0 <= i < mods.len() && #[trigger] mods[i].effect is RingSize {
        let i = choose|i: int| 0 <= i < mods.len() && mods[i].effect is RingSize && forall|j: int| 0 <= j < i ==> !(#[trigger] mods[j].effect is RingSize);
        Some(mods[i].effect->RingSize_0)
    } else {
        None
    }
}

/// The area a jewel affects: fixed by its radius, or for a variable radius the ring its
/// modifiers choose.
pub open spec fn spec_radius_data(item: RawItem, nonlocal: Seq<Mod>) -> Option<JewelRadiusData> {
    match item.radius {
        Some(JewelRadius::Small) => Some(JewelRadiusData { inner: 0, outer: 960 }),
        Some(JewelRadius::Medium) => Some(JewelRadiusData { inner: 0, outer: 1440 }),
        Some(JewelRadius::Large) => Some(JewelRadiusData { inner: 0, outer: 1800 }),
        Some(JewelRadius::VeryLarge) => Some(JewelRadiusData { inner: 0, outer: 2400 }),
        Some(JewelRadius::Massive) => Some(JewelRadiusData { inner: 0, outer: 2880 }),
        Some(JewelRadius::Variable) => match first_ring(nonlocal) {
            Some(size) => ring_area(size),
            None => None,
        },
        None => None,
    }
}

pub fn radius_data(item: &RawItem, nonlocal: &Vec<Mod>) -> (r: Option<JewelRadiusData>)
    ensures
        r == spec_radius_data(*item, nonlocal@),
{
    match item.radius {
        Some(JewelRadius::Small) => Some(JewelRadiusData { inner: 0, outer: 960 }),
        Some(JewelRadius::Medium) => Some(JewelRadiusData { inner: 0, outer: 1440 }),
        Some(JewelRadius::Large) => Some(JewelRadiusData { inner: 0, outer: 1800 }),
        Some(JewelRadius::VeryLarge) => Some(JewelRadiusData { inner: 0, outer: 2400 }),
        Some(JewelRadius::Massive) => Some(JewelRadiusData { inner: 0, outer: 2880 }),
        Some(JewelRadius::Variable) => {
            let mut i: usize = 0;
            while i < nonlocal.len()
                invariant
                    i <= nonlocal@.len(),
                    item.radius == Some(JewelRadius::Variable),
                    forall|j: int| 0 <= j < i ==> !((#[trigger] nonlocal@[j]).effect is RingSize),
                decreases nonlocal@.len() - i,
            {
                if let Some(size) = nonlocal[i].as_ring_size() {
                    proof {
                        let m = nonlocal@;
                        assert(m[i as int].effect is RingSize);
                        let k = choose|k: int| 0 <= k < m.len() && m[k].effect is RingSize && forall|j: int| 0 <= j < k ==> !(#[trigger] m[j].effect is RingSize);
                        if k < i {
                        } else if k > i {
                            assert(!(m[i as int].effect is RingSize));
                        }
                    }
                    return match size {
                        JewelRadius::Small => Some(JewelRadiusData { inner: 960, outer: 1320 }),
                        JewelRadius::Medium => Some(JewelRadiusData { inner: 1320, outer: 1680 }),
                        JewelRadius::Large => Some(JewelRadiusData { inner: 1680, outer: 2040 }),
                        JewelRadius::VeryLarge => Some(JewelRadiusData { inner: 2040, outer: 2400 }),
                        JewelRadius::Massive => Some(JewelRadiusData { inner: 2400, outer: 2880 }),
                        JewelRadius::Variable => None,
                    };
                }
                i = i + 1;
            }
            None
        },
        None => None,
    }
}

/// The defences of an item: armour, evasion, energy shield and block chance, as stats.
#[derive(Debug)]
pub struct DefenceCalc {
    pub armour: Stat,
    pub evasion: Stat,
    pub energy_shield: Stat,
    pub block_chance: Stat,
}

/// A base defence at the item's base percentile between the property's minimum and maximum.
pub open spec fn defence_val(item: RawItem, min: u32, max: u32) -> int {
    min + tdiv((max - min) * item.base_percentile, 100)
}

/// Quality raises the item's defences unless one of its local modifiers says it does not.
pub open spec fn quality_applies(local: Seq<Mod>) -> bool {
    !exists|i: int| 0 <= i < local.len() && #[trigger] local[i].effect == ModEffect::BuildFlag(BuildFlag::QualityNoDefences)
}

/// The numbers of a defence of an armour piece: its base value, with its local modifiers,
/// and quality as more.
pub open spec fn defence_nums(item: RawItem, prop: Option<crate::base_item::PropertyMinMax>, local: Seq<Mod>, id: StatId) -> StatNums {
    let b = match prop {
        Some(p) => adjust_nums(default_nums(), Type::Base, defence_val(item, p.min, p.max)),
        None => default_nums(),
    };
    let a = assim(b, local_nums(local, id));
    if quality_applies(local) {
        adjust_nums(a, Type::More, item.quality as int)
    } else {
        a
    }
}

pub open spec fn defence_nums_ok(item: RawItem, prop: Option<crate::base_item::PropertyMinMax>, local: Seq<Mod>, id: StatId) -> bool {
    let b = match prop {
        Some(p) => adjust_nums(default_nums(), Type::Base, defence_val(item, p.min, p.max)),
        None => default_nums(),
    };
    let a = assim(b, local_nums(local, id));
    &&& prop matches Some(p) ==> fits((p.max - p.min) * item.base_percentile) && fits(defence_val(item, p.min, p.max))
    &&& assim_ok(b, local_nums(local, id))
    &&& quality_applies(local) ==> adjust_ok(a, Type::More, item.quality as int)
}

/// The block chance of an armour piece, as the base of its block stat.
pub open spec fn block_nums(base: BaseItem, local: Seq<Mod>) -> StatNums {
    adjust_nums(
        default_nums(),
        Type::Base,
        match with_base(local, StatId::ChanceToBlockAttackDamage, base.properties.block) {
            Some(b) => b as int,
            None => 0,
        },
    )
}

/// Computing the defences stays within `i64`.
pub open spec fn item_defence_ok(item: RawItem, base: BaseItem, local: Seq<Mod>) -> bool {
    base.spec_has_tag("armour"@) ==> {
        &&& mods_fit(local)
        &&& defence_nums_ok(item, base.properties.armour, local, StatId::Armour)
        &&& defence_nums_ok(item, base.properties.energy_shield, local, StatId::MaximumEnergyShield)
        &&& defence_nums_ok(item, base.properties.evasion, local, StatId::EvasionRating)
        &&& with_base_ok(local, StatId::ChanceToBlockAttackDamage, base.properties.block)
    }
}

/// A base defence with its local modifiers and quality.
fn defence_stat(item: &RawItem, prop: Option<crate::base_item::PropertyMinMax>, local: &Vec<Mod>, id: StatId, quality: bool) -> (r: Stat)
    requires
        mods_fit(local@),
        defence_nums_ok(*item, prop, local@, id),
        quality == quality_applies(local@),
    ensures
        r.nums() == defence_nums(*item, prop, local@, id),
{
    let mut st = Stat::new();
    if let Some(p) = prop {
        let min = p.min as i64;
        let max = p.max as i64;
        let v = min + div_pos((max - min) * item.base_percentile, 100);
        st.adjust_mod(&Mod::stat(id, Type::Base, v));
    }
    assert(fold_ok(default_nums(), local@, for_stat(id)));
    st.assimilate(&calc_stat(id, local.as_slice()));
    if quality {
        st.adjust_mod(&Mod::stat(id, Type::More, item.quality));
    }
    st
}

/// The defences of an item: for an armour piece, each base defence at its base percentile
/// with its local modifiers and quality (unless a modifier says quality adds none), and its
/// block chance; for any other item, nothing.
pub fn calc_defence(item: &RawItem, base: &BaseItem, local: &Vec<Mod>) -> (r: DefenceCalc)
    requires
        item_defence_ok(*item, *base, local@),
    ensures
        base.spec_has_tag("armour"@) ==> {
            &&& r.armour.nums() == defence_nums(*item, base.properties.armour, local@, StatId::Armour)
            &&& r.energy_shield.nums() == defence_nums(*item, base.properties.energy_shield, local@, StatId::MaximumEnergyShield)
            &&& r.evasion.nums() == defence_nums(*item, base.properties.evasion, local@, StatId::EvasionRating)
            &&& r.block_chance.nums() == block_nums(*base, local@)
        },
        !base.spec_has_tag("armour"@) ==> {
            &&& r.armour.nums() == default_nums()
            &&& r.energy_shield.nums() == default_nums()
            &&& r.evasion.nums() == default_nums()
            &&& r.block_chance.nums() == default_nums()
        },
{
    if !base.has_tag("armour") {
        return DefenceCalc { armour: Stat::new(), evasion: Stat::new(), energy_shield: Stat::new(), block_chance: Stat::new() };
    }
    let mut quality = true;
    let mut i: usize = 0;
    while i < local.len()
        invariant
            i <= local@.len(),
            quality == !exists|j: int| 0 <= j < i && #[trigger] local@[j].effect == ModEffect::BuildFlag(BuildFlag::QualityNoDefences),
        decreases local@.len() - i,
    {
        if let Some(flag) = local[i].as_build_flag() {
            if flag == BuildFlag::QualityNoDefences {
                quality = false;
            }
        }
        i = i + 1;
    }
    let armour = defence_stat(item, base.properties.armour, local, StatId::Armour, quality);
    let energy_shield = defence_stat(item, base.properties.energy_shield, local, StatId::MaximumEnergyShield, quality);
    let evasion = defence_stat(item, base.properties.evasion, local, StatId::EvasionRating, quality);
    let mut block = Stat::new();
    let b = match block_chance(base, local) {
        Some(b) => b,
        None => 0,
    };
    block.adjust_mod(&Mod::stat(StatId::ChanceToBlockAttackDamage, Type::Base, b));
    DefenceCalc { armour, evasion, energy_shield, block_chance: block }
}

/// The base percentile that gives a defence shown as `target`: the value before local
/// multipliers (rounded up), less the flat base and the property's minimum, as a share of the
/// property's range (rounded up, within 0..=100); none where the multiplier is 0.
pub open spec fn percentile_for(n: StatNums, target: int, min: int, max: int) -> Option<int> {
    let m = spec_mult(n);
    if m == 0 {
        None
    } else {
        let value = tdiv(target * 10000 + (m - 1), m) - n.base - min;
        let range = max - min;
        Some(crate::calc::clamp(tdiv(value * 100 + (range - 1), range), 0, 100))
    }
}

/// The numbers of a defence for the reverse computation: local modifiers with quality as
/// more.
pub open spec fn reverse_nums(item: RawItem, local: Seq<Mod>, id: StatId) -> StatNums {
    adjust_nums(local_nums(local, id), Type::More, item.quality as int)
}

/// The defence the reverse computation reads: armour if shown and the base has some, else
/// evasion, else energy shield.
pub open spec fn reverse_source(base: BaseItem, armour: i64, evasion: i64, energy_shield: i64) -> Option<(i64, StatId, crate::base_item::PropertyMinMax)> {
    if armour > 0 && base.properties.armour is Some {
        Some((armour, StatId::Armour, base.properties.armour->0))
    } else if evasion > 0 && base.properties.evasion is Some {
        Some((evasion, StatId::EvasionRating, base.properties.evasion->0))
    } else if energy_shield > 0 && base.properties.energy_shield is Some {
        Some((energy_shield, StatId::MaximumEnergyShield, base.properties.energy_shield->0))
    } else {
        None
    }
}

/// The base percentile after the reverse computation.
pub open spec fn reversed_percentile(item: RawItem, base: BaseItem, local: Seq<Mod>, armour: i64, evasion: i64, energy_shield: i64) -> i64 {
    match reverse_source(base, armour, evasion, energy_shield) {
        Some((target, id, p)) => match percentile_for(reverse_nums(item, local, id), target as int, p.min as int, p.max as int) {
            Some(v) => v as i64,
            None => item.base_percentile,
        },
        None => item.base_percentile,
    }
}

/// The reverse computation stays within `i64` and divides by no 0.
pub open spec fn reverse_ok(item: RawItem, base: BaseItem, local: Seq<Mod>, armour: i64, evasion: i64, energy_shield: i64) -> bool {
    match reverse_source(base, armour, evasion, energy_shield) {
        Some((target, id, p)) => {
            let n = reverse_nums(item, local, id);
            let m = spec_mult(n);
            let value = tdiv(target * 10000 + (m - 1), m) - n.base - p.min;
            let range = p.max - p.min;
            &&& mods_fit(local)
            &&& adjust_ok(local_nums(local, id), Type::More, item.quality as int)
            &&& mult_ok(n)
            &&& m != 0 ==> {
                &&& fits(target * 10000)
                &&& fits(m - 1)
                &&& fits(target * 10000 + (m - 1))
                &&& !(target * 10000 + (m - 1) == i64::MIN && m == -1)
                &&& fits(tdiv(target * 10000 + (m - 1), m) - n.base)
                &&& fits(value)
                &&& p.min < p.max
                &&& fits(value * 100)
                &&& fits(value * 100 + (range - 1))
            }
        },
        None => true,
    }
}

/// Finds the base percentile of an armour piece from a defence its text shows: armour, else
/// evasion, else energy shield, whichever is shown and the base has. The value may differ
/// a little from the true one, most with small defences.
pub fn reverse_base_percentile(item: &mut RawItem, base: &BaseItem, local: &Vec<Mod>, armour: i64, evasion: i64, energy_shield: i64)
    requires
        reverse_ok(*old(item), *base, local@, armour, evasion, energy_shield),
    ensures
        *final(item) == (RawItem {
            base_percentile: reversed_percentile(*old(item), *base, local@, armour, evasion, energy_shield),
            ..*old(item)
        }),
{
    let source = if armour > 0 && base.properties.armour.is_some() {
        Some((armour, StatId::Armour, base.properties.armour))
    } else if evasion > 0 && base.properties.evasion.is_some() {
        Some((evasion, StatId::EvasionRating, base.properties.evasion))
    } else if energy_shield > 0 && base.properties.energy_shield.is_some() {
        Some((energy_shield, StatId::MaximumEnergyShield, base.properties.energy_shield))
    } else {
        None
    };
    if let Some((target, id, Some(p))) = source {
        assert(fold_ok(default_nums(), local@, for_stat(id)));
        let mut stat = calc_stat(id, local.as_slice());
        stat.adjust_mod(&Mod::stat(id, Type::More, item.quality));
        let m = stat.mult();
        if m == 0 {
            return;
        }
        let value = div_t(target * 10000 + (m - 1), m) - stat.base - p.min as i64;
        let range = p.max as i64 - p.min as i64;
        let pct = div_pos(value * 100 + (range - 1), range);
        item.base_percentile = if pct < 0 { 0 } else if pct > 100 { 100 } else { pct };
    }
}

/// A defence the text showed, 0 when it showed none.
pub open spec fn shown_or_zero(v: Option<i64>) -> i64 {
    match v {
        Some(x) => x,
        None => 0,
    }
}

impl ParsedItem {
    /// The text showed a defence.
    pub open spec fn shows_defence(self) -> bool {
        self.armour is Some || self.evasion is Some || self.energy_shield is Some
    }

    /// The item the text gives: when the text showed a defence, its base percentile is
    /// reversed from the defences shown (0 for those not shown), by its base `base` and the
    /// modifiers of its lines that apply to the item itself (`local`).
    pub fn to_item(self, base: &BaseItem, local: &Vec<Mod>) -> (r: RawItem)
        requires
            self.shows_defence() ==> reverse_ok(self.item, *base, local@, shown_or_zero(self.armour),
                shown_or_zero(self.evasion), shown_or_zero(self.energy_shield)),
        ensures
            r == if self.shows_defence() {
                RawItem {
                    base_percentile: reversed_percentile(self.item, *base, local@, shown_or_zero(self.armour),
                        shown_or_zero(self.evasion), shown_or_zero(self.energy_shield)),
                    ..self.item
                }
            } else {
                self.item
            },
    {
        let shows = self.armour.is_some() || self.evasion.is_some() || self.energy_shield.is_some();
        let a = match self.armour { Some(x) => x, None => 0 };
        let e = match self.evasion { Some(x) => x, None => 0 };
        let es = match self.energy_shield { Some(x) => x, None => 0 };
        let mut item = self.item;
        if shows {
            reverse_base_percentile(&mut item, base, local, a, e, es);
        }
        item
    }
}

} // verus!
