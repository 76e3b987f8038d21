use vstd::prelude::*;
use crate::arith::{div_pos, div_t, fits, tdiv};
use crate::base_item::ItemClass;
use crate::damage::{group_type, spec_damage_group, damage_group, pv, DamageGroup, DamagePortion, DamageType, ev, vals_ok};
use crate::modifier::{Mod, Source, Type};
use crate::stat::{
    adjust_nums, default_nums, fold_mods, fold_ok, for_weapon, spec_val, val100_ok, Stat, StatNums,
    Stats,
};
use crate::stat_id::StatId;

verus! {

/// Average damage per use, counting hits that miss and critical strikes:
/// `crit_chance` is in hundredths of a percent, `chance_to_hit` and `crit_multi` in percent.
pub open spec fn spec_dmg_crit_accuracy(damage: int, crit_chance: int, crit_multi: int, chance_to_hit: int) -> int {
    let ecc = tdiv(crit_chance * chance_to_hit, 100);
    tdiv(damage * chance_to_hit * ecc * crit_multi, 100000000) + tdiv(
        damage * chance_to_hit * (10000 - ecc),
        1000000,
    )
}

pub open spec fn dmg_crit_accuracy_ok(damage: int, crit_chance: int, crit_multi: int, chance_to_hit: int) -> bool {
    let ecc = tdiv(crit_chance * chance_to_hit, 100);
    &&& fits(crit_chance * chance_to_hit)
    &&& fits(damage * chance_to_hit)
    &&& fits(damage * chance_to_hit * ecc)
    &&& fits(damage * chance_to_hit * ecc * crit_multi)
    &&& fits(10000 - ecc)
    &&& fits(damage * chance_to_hit * (10000 - ecc))
    &&& fits(spec_dmg_crit_accuracy(damage, crit_chance, crit_multi, chance_to_hit))
}

pub fn calc_dmg_crit_accuracy(damage: i64, crit_chance: i64, crit_multi: i64, chance_to_hit: i64) -> (r: i64)
    requires
        dmg_crit_accuracy_ok(damage as int, crit_chance as int, crit_multi as int, chance_to_hit as int),
    ensures
        r == spec_dmg_crit_accuracy(damage as int, crit_chance as int, crit_multi as int, chance_to_hit as int),
{
    let effective_crit_chance = div_pos(crit_chance * chance_to_hit, 100);
    let damage_crit = div_pos(damage * chance_to_hit * effective_crit_chance * crit_multi, 100000000);
    let damage_noncrit = div_pos(damage * chance_to_hit * (10000 - effective_crit_chance), 1000000);
    damage_crit + damage_noncrit
}

/// Ailment damage averaged over critical and non-critical hits: critical ones get an extra
/// 50% damage-over-time multiplier; `crit_chance` is in hundredths of a percent.
pub open spec fn spec_avg_ailment_dmg_crit(base: int, dot_multi: int, crit_chance: int) -> int {
    let noncrit = tdiv(base * (100 + dot_multi), 100);
    let crit = tdiv(base * (100 + dot_multi + 50), 100);
    tdiv(noncrit * (10000 - crit_chance) + crit * crit_chance, 10000)
}

pub open spec fn avg_ailment_ok(base: int, dot_multi: int, crit_chance: int) -> bool {
    let noncrit = tdiv(base * (100 + dot_multi), 100);
    let crit = tdiv(base * (100 + dot_multi + 50), 100);
    &&& fits(100 + dot_multi + 50)
    &&& fits(base * (100 + dot_multi))
    &&& fits(base * (100 + dot_multi + 50))
    &&& fits(10000 - crit_chance)
    &&& fits(noncrit * (10000 - crit_chance))
    &&& fits(crit * crit_chance)
    &&& fits(noncrit * (10000 - crit_chance) + crit * crit_chance)
}

pub fn avg_ailment_dmg_crit(base: i64, dot_multi: i64, crit_chance: i64) -> (r: i64)
    requires
        avg_ailment_ok(base as int, dot_multi as int, crit_chance as int),
    ensures
        r == spec_avg_ailment_dmg_crit(base as int, dot_multi as int, crit_chance as int),
{
    let noncrit = div_pos(base * (100 + dot_multi), 100);
    let crit = div_pos(base * (100 + dot_multi + 50), 100);
    div_pos(noncrit * (10000 - crit_chance) + crit * crit_chance, 10000)
}

/// The physical damage reduction against a hit of `amount`: `pdr` plus what armour gives.
pub open spec fn spec_pdr_armour(amount: int, armour: int, pdr: int) -> int {
    pdr + tdiv(armour * 100, armour + 5 * amount)
}

pub fn physical_damage_reduction_armour(amount: i64, armour: i64, pdr: i64) -> (r: i64)
    requires
        fits(5 * amount),
        fits(armour + 5 * amount),
        armour + 5 * amount != 0,
        fits(armour * 100),
        !(armour * 100 == i64::MIN && armour + 5 * amount == -1),
        fits(spec_pdr_armour(amount as int, armour as int, pdr as int)),
    ensures
        r == spec_pdr_armour(amount as int, armour as int, pdr as int),
{
    let pdr_from_armour = div_t(armour * 100, armour + 5 * amount);
    pdr + pdr_from_armour
}

/// `x` kept within `lo..=hi`.
pub open spec fn clamp(x: int, lo: int, hi: int) -> int {
    if x < lo {
        lo
    } else if x > hi {
        hi
    } else {
        x
    }
}

/// The damage multiplier, in ten-thousandths, of the chances to deal double and triple
/// damage: each chance is taken within 0..=100, and double damage only counts where triple
/// does not apply.
pub open spec fn spec_double_damage_effect(triple: int, double: int) -> int {
    let t = clamp(triple, 0, 100);
    let d = clamp(double, 0, 100);
    let eff = if d < 100 - t { d } else { 100 - t };
    10000 + (2 * t + eff) * 100
}

/// Double damage only counts on hits that do not already deal triple damage: with the
/// chances taken within 0..=100, every hit deals at least its triple share twice over,
/// the double share never exceeds what triple leaves, so the multiplier stays within
/// 300%; below a combined 100% both shares count in full, above it the double share is
/// exactly the rest.
pub proof fn law_double_damage_shares(triple: int, double: int)
    ensures
        ({
            let t = clamp(triple, 0, 100);
            let d = clamp(double, 0, 100);
            let r = spec_double_damage_effect(triple, double);
            &&& 10000 + 200 * t <= r
            &&& r <= 10000 + 100 * (2 * t + (100 - t))
            &&& r <= 30000
            &&& r <= 10000 + 100 * (2 * t + d)
            &&& t + d <= 100 ==> r == 10000 + 100 * (2 * t + d)
            &&& t + d >= 100 ==> r == 10000 + 100 * (100 + t)
        }),
{
}

/// More chance of double damage never lowers the multiplier, and more chance of triple
/// damage never lowers it either.
pub proof fn law_double_damage_monotone(t1: int, d1: int, t2: int, d2: int)
    requires
        t1 <= t2,
        d1 <= d2,
    ensures
        spec_double_damage_effect(t1, d1) <= spec_double_damage_effect(t2, d2),
{
}

pub fn double_damage_effect(stats: &Stats) -> (r: i64)
    requires
        vals_ok(*stats),
    ensures
        r == spec_double_damage_effect(
            ev(*stats, StatId::ChanceToDealTripleDamage),
            ev(*stats, StatId::ChanceToDealDoubleDamage),
        ),
{
    assert(val100_ok(stats.spec_stat(StatId::ChanceToDealTripleDamage).nums()));
    assert(val100_ok(stats.spec_stat(StatId::ChanceToDealDoubleDamage).nums()));
    let triple = clamp_i64(stats.val(StatId::ChanceToDealTripleDamage), 0, 100);
    let double = clamp_i64(stats.val(StatId::ChanceToDealDoubleDamage), 0, 100);
    let effective_double = if double < 100 - triple { double } else { 100 - triple };
    10000 + (2 * triple + effective_double) * 100
}

/// `x` kept within `lo..=hi` (`lo <= hi`).
pub fn clamp_i64(x: i64, lo: i64, hi: i64) -> (r: i64)
    requires
        lo <= hi,
    ensures
        r == clamp(x as int, lo as int, hi as int),
{
    if x < lo {
        lo
    } else if x > hi {
        hi
    } else {
        x
    }
}

/// The critical strike chance, in hundredths of a percent: the evaluated chance with the
/// base `crit_chance` added, at most 100%.
pub open spec fn spec_crit_chance(n: StatNums, crit_chance: Option<i64>) -> int {
    let m = match crit_chance {
        Some(c) => adjust_nums(n, Type::Base, c as int),
        None => n,
    };
    if spec_val(m) < 10000 {
        spec_val(m)
    } else {
        10000
    }
}

pub fn calc_crit_chance(stats: &Stats, crit_chance: Option<i64>) -> (r: i64)
    requires
        stats.wf(),
        crit_chance matches Some(c) ==> fits(stats.spec_stat(StatId::CriticalStrikeChance).base + c),
        val100_ok(
            match crit_chance {
                Some(c) => adjust_nums(stats.spec_stat(StatId::CriticalStrikeChance).nums(), Type::Base, c as int),
                None => stats.spec_stat(StatId::CriticalStrikeChance).nums(),
            },
        ),
    ensures
        r == spec_crit_chance(stats.spec_stat(StatId::CriticalStrikeChance).nums(), crit_chance),
{
    let mut crit_chance_stat = stats.stat(StatId::CriticalStrikeChance).duplicate();
    if let Some(crit_chance) = crit_chance {
        crit_chance_stat.adjust(Type::Base, crit_chance);
    }
    let v = crit_chance_stat.val();
    if v < 10000 {
        v
    } else {
        10000
    }
}

/// The average damage an impale stores per stack: 10% of the physical hit, times the
/// impale chance (in percent), scaled by the impale effect.
pub open spec fn spec_impale_stored(n: StatNums, phys_damage: int, impale_chance: int) -> int {
    tdiv(tdiv(phys_damage * 10 * impale_chance, 10000) * crate::stat::spec_mult(n), 10000)
}

pub fn calc_impale_stored_dmg(stats: &Stats, phys_damage: i64, impale_chance: i64) -> (r: i64)
    requires
        stats.wf(),
        fits(phys_damage * 10),
        fits(phys_damage * 10 * impale_chance),
        crate::stat::mult_ok(stats.spec_stat(StatId::ImpaleEffect).nums()),
        fits(
            tdiv(phys_damage * 10 * impale_chance, 10000) * crate::stat::spec_mult(
                stats.spec_stat(StatId::ImpaleEffect).nums(),
            ),
        ),
    ensures
        r == spec_impale_stored(stats.spec_stat(StatId::ImpaleEffect).nums(), phys_damage as int, impale_chance as int),
{
    let stored = div_pos(phys_damage * 10 * impale_chance, 10000);
    stats.stat(StatId::ImpaleEffect).val_custom(stored)
}


/// The numbers of stat `id` recomputed for `weapon` (see `Stat::with_weapon`).
pub open spec fn wn(stats: Stats, id: StatId, weapon: Option<ItemClass>) -> StatNums {
    fold_mods(default_nums(), stats.spec_stat(id).mods@, for_weapon(weapon))
}

/// Recomputing any stat of the table for `weapon` stays within `i64`.
pub open spec fn weapon_ok(stats: Stats, weapon: Option<ItemClass>) -> bool {
    forall|id: StatId| fold_ok(default_nums(), (#[trigger] stats.spec_stat(id)).mods@, for_weapon(weapon))
}

/// The increased and more amounts after adding those of the damage groups (positions below
/// `k`) whose type is in `types`, starting from `(inc, more)`.
pub open spec fn acc_types(inc: int, more: int, stats: Stats, weapon: Option<ItemClass>, types: u64, k: int) -> (int, int)
    decreases k,
{
    if k <= 0 {
        (inc, more)
    } else {
        let (i, m) = acc_types(inc, more, stats, weapon, types, k - 1);
        if types & group_type(k - 1).spec_bit() == group_type(k - 1).spec_bit() {
            let t = wn(stats, spec_damage_group(k - 1).stat_id, weapon);
            (i + t.inc, tdiv(m * t.more, 100))
        } else {
            (i, m)
        }
    }
}

pub open spec fn acc_types_ok(inc: int, more: int, stats: Stats, weapon: Option<ItemClass>, types: u64, k: int) -> bool
    decreases k,
{
    if k <= 0 {
        true
    } else {
        let (i, m) = acc_types(inc, more, stats, weapon, types, k - 1);
        let t = wn(stats, spec_damage_group(k - 1).stat_id, weapon);
        acc_types_ok(inc, more, stats, weapon, types, k - 1) && (types & group_type(k - 1).spec_bit()
            == group_type(k - 1).spec_bit() ==> fits(i + t.inc) && fits(m * t.more))
    }
}

/// Adds the increased and more amounts of the damage groups whose type is in `types`.
fn accumulate_types(
    inc: i64,
    more: i64,
    stats: &Stats,
    weapon: Option<ItemClass>,
    types: u64,
) -> (r: (i64, i64))
    requires
        stats.wf(),
        weapon_ok(*stats, weapon),
        acc_types_ok(inc as int, more as int, *stats, weapon, types, 5),
    ensures
        (r.0 as int, r.1 as int) == acc_types(inc as int, more as int, *stats, weapon, types, 5),
{
    let mut i: i64 = inc;
    let mut m: i64 = more;
    let mut k: usize = 0;
    while k < 5
        invariant
            k <= 5,
            stats.wf(),
            weapon_ok(*stats, weapon),
            acc_types_ok(inc as int, more as int, *stats, weapon, types, 5),
            (i as int, m as int) == acc_types(inc as int, more as int, *stats, weapon, types, k as int),
        decreases 5 - k,
    {
        proof {
            lemma_acc_types_ok_prefix(inc as int, more as int, *stats, weapon, types, 5, k + 1);
        }
        let dg = damage_group(k);
        let bit = dg.damage_type.bit();
        if types & bit == bit {
            assert(fold_ok(default_nums(), stats.spec_stat(dg.stat_id).mods@, for_weapon(weapon)));
            let type_stat = stats.stat(dg.stat_id).with_weapon(weapon);
            i = i + type_stat.inc;
            m = div_pos(m * type_stat.more, 100);
        }
        k = k + 1;
    }
    (i, m)
}

pub proof fn lemma_acc_types_ok_prefix(
    inc: int,
    more: int,
    stats: Stats,
    weapon: Option<ItemClass>,
    types: u64,
    k: int,
    j: int,
)
    requires
        acc_types_ok(inc, more, stats, weapon, types, k),
        0 <= j <= k,
    ensures
        acc_types_ok(inc, more, stats, weapon, types, j),
    decreases k,
{
    if j < k {
        lemma_acc_types_ok_prefix(inc, more, stats, weapon, types, k - 1, j);
    }
}

/// The increased and more amounts every damage group starts from: generic damage recomputed
/// for the weapon, plus spell damage for spells.
pub open spec fn generic_mods(stats: Stats, weapon: Option<ItemClass>, is_spell: bool) -> (int, int) {
    let g = wn(stats, StatId::Damage, weapon);
    if is_spell {
        let sp = stats.spec_stat(StatId::SpellDamage).nums();
        (g.inc + sp.inc, tdiv(g.more * sp.more, 100))
    } else {
        (g.inc, g.more)
    }
}

/// A portion's damage with the increased and more amounts of every type it passed through.
pub open spec fn portion_value(p: DamagePortion, stats: Stats, weapon: Option<ItemClass>, is_spell: bool) -> int {
    let (gi, gm) = generic_mods(stats, weapon, is_spell);
    let (i, m) = acc_types(gi, gm, stats, weapon, p.source_types, 5);
    tdiv(p.amount * (100 + i) * m, 10000)
}

pub open spec fn portion_value_ok(p: DamagePortion, stats: Stats, weapon: Option<ItemClass>, is_spell: bool) -> bool {
    let (gi, gm) = generic_mods(stats, weapon, is_spell);
    let (i, m) = acc_types(gi, gm, stats, weapon, p.source_types, 5);
    &&& acc_types_ok(gi, gm, stats, weapon, p.source_types, 5)
    &&& fits(100 + i)
    &&& fits(p.amount * (100 + i))
    &&& fits(p.amount * (100 + i) * m)
}

/// The sum of the values of the portions.
pub open spec fn sum_values(ps: Seq<DamagePortion>, stats: Stats, weapon: Option<ItemClass>, is_spell: bool) -> int
    decreases ps.len(),
{
    if ps.len() == 0 {
        0
    } else {
        sum_values(ps.drop_last(), stats, weapon, is_spell) + portion_value(ps.last(), stats, weapon, is_spell)
    }
}

pub open spec fn sum_values_ok(ps: Seq<DamagePortion>, stats: Stats, weapon: Option<ItemClass>, is_spell: bool) -> bool
    decreases ps.len(),
{
    if ps.len() == 0 {
        true
    } else {
        sum_values_ok(ps.drop_last(), stats, weapon, is_spell) && portion_value_ok(ps.last(), stats, weapon, is_spell)
            && fits(sum_values(ps, stats, weapon, is_spell))
    }
}

pub proof fn lemma_sum_values_ok_prefix(ps: Seq<DamagePortion>, stats: Stats, weapon: Option<ItemClass>, is_spell: bool, k: int)
    requires
        sum_values_ok(ps, stats, weapon, is_spell),
        0 <= k <= ps.len(),
    ensures
        sum_values_ok(ps.take(k), stats, weapon, is_spell),
    decreases ps.len(),
{
    if ps.len() > 0 {
        if k == ps.len() {
            assert(ps.take(k) == ps);
        } else {
            assert(ps.take(k) == ps.drop_last().take(k));
            lemma_sum_values_ok_prefix(ps.drop_last(), stats, weapon, is_spell, k);
        }
    }
}

/// Everything `apply_damage_mods_portions` computes stays within `i64`.
pub open spec fn damage_mods_ok(p: Seq<Seq<DamagePortion>>, stats: Stats, weapon: Option<ItemClass>, is_spell: bool) -> bool {
    let g = wn(stats, StatId::Damage, weapon);
    let sp = stats.spec_stat(StatId::SpellDamage).nums();
    &&& weapon_ok(stats, weapon)
    &&& is_spell ==> fits(g.base + sp.base) && fits(g.inc + sp.inc) && fits(g.more * sp.more)
    &&& forall|j: int| 0 <= j < 5 ==> sum_values_ok(#[trigger] p[j], stats, weapon, is_spell)
}

/// Applies increased and more damage to converted portions: each portion gets the generic
/// modifiers and those of every damage type in its conversion path; the result is the
/// total per damage group.
pub fn apply_damage_mods_portions(
    portions: &[Vec<DamagePortion>; 5],
    stats: &Stats,
    weapon: Option<ItemClass>,
    is_spell: bool,
) -> (r: [i64; 5])
    requires
        stats.wf(),
        damage_mods_ok(pv(*portions), *stats, weapon, is_spell),
    ensures
        forall|j: int| 0 <= j < 5 ==> #[trigger] r@[j] == sum_values(pv(*portions)[j], *stats, weapon, is_spell),
{
    let mut result: [i64; 5] = [0, 0, 0, 0, 0];
    assert(fold_ok(default_nums(), stats.spec_stat(StatId::Damage).mods@, for_weapon(weapon)));
    let mut generic = stats.stat(StatId::Damage).with_weapon(weapon);
    if is_spell {
        generic.assimilate(stats.stat(StatId::SpellDamage));
    }
    let mut dg_idx: usize = 0;
    while dg_idx < 5
        invariant
            dg_idx <= 5,
            stats.wf(),
            damage_mods_ok(pv(*portions), *stats, weapon, is_spell),
            (generic.inc as int, generic.more as int) == generic_mods(*stats, weapon, is_spell),
            forall|j: int| 0 <= j < dg_idx ==> #[trigger] result@[j] == sum_values(pv(*portions)[j], *stats, weapon, is_spell),
        decreases 5 - dg_idx,
    {
        let ps = &portions[dg_idx];
        let ghost psv = pv(*portions)[dg_idx as int];
        assert(psv == ps@);
        assert(sum_values_ok(psv, *stats, weapon, is_spell));
        let mut total: i64 = 0;
        let mut k: usize = 0;
        while k < ps.len()
            invariant
                k <= ps@.len(),
                psv == ps@,
                stats.wf(),
                weapon_ok(*stats, weapon),
                sum_values_ok(psv, *stats, weapon, is_spell),
                (generic.inc as int, generic.more as int) == generic_mods(*stats, weapon, is_spell),
                total == sum_values(psv.take(k as int), *stats, weapon, is_spell),
            decreases ps@.len() - k,
        {
            proof {
                lemma_sum_values_ok_prefix(psv, *stats, weapon, is_spell, k + 1);
                assert(psv.take(k + 1).drop_last() == psv.take(k as int));
            }
            let portion = ps[k];
            let (inc, more) = accumulate_types(generic.inc, generic.more, stats, weapon, portion.source_types);
            total = total + div_pos(portion.amount * (100 + inc) * more, 10000);
            k = k + 1;
        }
        assert(psv.take(psv.len() as int) == psv);
        result[dg_idx] = total;
        dg_idx = dg_idx + 1;
    }
    result
}


/// The numbers of `a` after taking in the base, increased and more amounts of `b`
/// (see `Stat::assimilate`).
pub open spec fn assim(a: StatNums, b: StatNums) -> StatNums {
    StatNums { base: a.base + b.base, inc: a.inc + b.inc, more: tdiv(a.more * b.more, 100), ..a }
}

pub open spec fn assim_ok(a: StatNums, b: StatNums) -> bool {
    fits(a.base + b.base) && fits(a.inc + b.inc) && fits(a.more * b.more)
}

/// A damage bound scaled by the gem: base damage by its damage multiplier (in ten-thousandths)
/// and added damage by its added effectiveness (in percent).
pub open spec fn gem_scaled(v: int, scale: Option<i64>, unit: int) -> int {
    match scale {
        Some(s) => tdiv(v * (unit + s), unit),
        None => v,
    }
}

pub open spec fn gem_scaled_ok(v: int, scale: Option<i64>, unit: int) -> bool {
    match scale {
        Some(s) => fits(unit + s) && fits(v * (unit + s)),
        None => true,
    }
}

/// The numbers of the minimum (or maximum) damage of a group: its own stat, plus the
/// generic minimum (or maximum) damage stat, plus the scaled base and added damage as base.
pub open spec fn min_max_nums(own: StatNums, generic: StatNums, base: int, added: int, dm: Option<i64>, ae: Option<i64>) -> StatNums {
    adjust_nums(assim(own, generic), Type::Base, gem_scaled(base, dm, 10000) + gem_scaled(added, ae, 100))
}

pub open spec fn min_max_ok(own: StatNums, generic: StatNums, base: int, added: int, dm: Option<i64>, ae: Option<i64>) -> bool {
    &&& gem_scaled_ok(base, dm, 10000)
    &&& gem_scaled_ok(added, ae, 100)
    &&& fits(gem_scaled(base, dm, 10000) + gem_scaled(added, ae, 100))
    &&& assim_ok(own, generic)
    &&& fits(assim(own, generic).base + gem_scaled(base, dm, 10000) + gem_scaled(added, ae, 100))
    &&& val100_ok(min_max_nums(own, generic, base, added, dm, ae))
}

/// Scales a damage bound by the gem.
fn gem_scale(v: i64, scale: Option<i64>, unit: i64) -> (r: i64)
    requires
        unit > 0,
        gem_scaled_ok(v as int, scale, unit as int),
    ensures
        r == gem_scaled(v as int, scale, unit as int),
{
    match scale {
        Some(s) => div_pos(v * (unit + s), unit),
        None => v,
    }
}

/// The minimum and maximum damage of the damage group `dg`, given base and added damage;
/// `damage_multiplier` and `added_effectiveness` are the active gem's at its level.
pub fn calc_min_max_dmg(
    stats: &Stats,
    damage_multiplier: Option<i64>,
    added_effectiveness: Option<i64>,
    base_min: i64,
    base_max: i64,
    added_min: i64,
    added_max: i64,
    dg: &DamageGroup,
) -> (r: (i64, i64))
    requires
        stats.wf(),
        min_max_ok(stats.spec_stat(dg.min_id).nums(), stats.spec_stat(StatId::MinDamage).nums(), base_min as int,
            added_min as int, damage_multiplier, added_effectiveness),
        min_max_ok(stats.spec_stat(dg.max_id).nums(), stats.spec_stat(StatId::MaxDamage).nums(), base_max as int,
            added_max as int, damage_multiplier, added_effectiveness),
    ensures
        r.0 == spec_val(min_max_nums(stats.spec_stat(dg.min_id).nums(), stats.spec_stat(StatId::MinDamage).nums(),
            base_min as int, added_min as int, damage_multiplier, added_effectiveness)),
        r.1 == spec_val(min_max_nums(stats.spec_stat(dg.max_id).nums(), stats.spec_stat(StatId::MaxDamage).nums(),
            base_max as int, added_max as int, damage_multiplier, added_effectiveness)),
{
    let base_min = gem_scale(base_min, damage_multiplier, 10000);
    let base_max = gem_scale(base_max, damage_multiplier, 10000);
    let added_min = gem_scale(added_min, added_effectiveness, 100);
    let added_max = gem_scale(added_max, added_effectiveness, 100);

    // These stats are like "10% more maximum physical attack damage"
    let mut stat_min_dt = stats.stat(dg.min_id).duplicate();
    let mut stat_max_dt = stats.stat(dg.max_id).duplicate();
    stat_min_dt.assimilate(stats.stat(StatId::MinDamage));
    stat_max_dt.assimilate(stats.stat(StatId::MaxDamage));
    stat_min_dt.adjust(Type::Base, base_min + added_min);
    stat_max_dt.adjust(Type::Base, base_max + added_max);

    (stat_min_dt.val(), stat_max_dt.val())
}

/// The average of the minimum and maximum damage of the group.
pub fn calc_average_dmg(
    stats: &Stats,
    damage_multiplier: Option<i64>,
    added_effectiveness: Option<i64>,
    base_min: i64,
    base_max: i64,
    added_min: i64,
    added_max: i64,
    dg: &DamageGroup,
) -> (r: i64)
    requires
        stats.wf(),
        min_max_ok(stats.spec_stat(dg.min_id).nums(), stats.spec_stat(StatId::MinDamage).nums(), base_min as int,
            added_min as int, damage_multiplier, added_effectiveness),
        min_max_ok(stats.spec_stat(dg.max_id).nums(), stats.spec_stat(StatId::MaxDamage).nums(), base_max as int,
            added_max as int, damage_multiplier, added_effectiveness),
        fits(spec_val(min_max_nums(stats.spec_stat(dg.min_id).nums(), stats.spec_stat(StatId::MinDamage).nums(),
            base_min as int, added_min as int, damage_multiplier, added_effectiveness)) + spec_val(min_max_nums(
            stats.spec_stat(dg.max_id).nums(), stats.spec_stat(StatId::MaxDamage).nums(), base_max as int,
            added_max as int, damage_multiplier, added_effectiveness))),
    ensures
        r == tdiv(spec_val(min_max_nums(stats.spec_stat(dg.min_id).nums(), stats.spec_stat(StatId::MinDamage).nums(),
            base_min as int, added_min as int, damage_multiplier, added_effectiveness)) + spec_val(min_max_nums(
            stats.spec_stat(dg.max_id).nums(), stats.spec_stat(StatId::MaxDamage).nums(), base_max as int,
            added_max as int, damage_multiplier, added_effectiveness)), 2),
{
    let (min, max) = calc_min_max_dmg(stats, damage_multiplier, added_effectiveness, base_min, base_max, added_min,
        added_max, dg);
    div_pos(min + max, 2)
}

/// The generic increased and more amounts of poison: damage recomputed for the weapon,
/// plus damage over time and chaos damage over time.
pub open spec fn poison_generic(stats: Stats, weapon: Option<ItemClass>) -> StatNums {
    assim(
        assim(wn(stats, StatId::Damage, weapon), stats.spec_stat(StatId::DamageOverTime).nums()),
        stats.spec_stat(StatId::ChaosDamageOverTime).nums(),
    )
}

/// A portion's poison damage per second: 30% of it, with the modifiers of every type in its
/// path and of chaos.
pub open spec fn poison_value(p: DamagePortion, stats: Stats, weapon: Option<ItemClass>) -> int {
    let g = poison_generic(stats, weapon);
    let (i, m) = acc_types(g.inc, g.more, stats, weapon, p.source_types | DamageType::Chaos.spec_bit(), 5);
    tdiv(tdiv(p.amount * 30, 100) * (100 + i) * m, 10000)
}

pub open spec fn poison_value_ok(p: DamagePortion, stats: Stats, weapon: Option<ItemClass>) -> bool {
    let g = poison_generic(stats, weapon);
    let (i, m) = acc_types(g.inc, g.more, stats, weapon, p.source_types | DamageType::Chaos.spec_bit(), 5);
    &&& acc_types_ok(g.inc, g.more, stats, weapon, p.source_types | DamageType::Chaos.spec_bit(), 5)
    &&& fits(p.amount * 30)
    &&& fits(100 + i)
    &&& fits(tdiv(p.amount * 30, 100) * (100 + i))
    &&& fits(tdiv(p.amount * 30, 100) * (100 + i) * m)
}

pub open spec fn poison_sum(ps: Seq<DamagePortion>, stats: Stats, weapon: Option<ItemClass>) -> int
    decreases ps.len(),
{
    if ps.len() == 0 {
        0
    } else {
        poison_sum(ps.drop_last(), stats, weapon) + poison_value(ps.last(), stats, weapon)
    }
}

pub open spec fn poison_sum_ok(ps: Seq<DamagePortion>, stats: Stats, weapon: Option<ItemClass>) -> bool
    decreases ps.len(),
{
    if ps.len() == 0 {
        true
    } else {
        poison_sum_ok(ps.drop_last(), stats, weapon) && poison_value_ok(ps.last(), stats, weapon) && fits(
            poison_sum(ps, stats, weapon),
        )
    }
}

pub proof fn lemma_poison_sum_ok_prefix(ps: Seq<DamagePortion>, stats: Stats, weapon: Option<ItemClass>, k: int)
    requires
        poison_sum_ok(ps, stats, weapon),
        0 <= k <= ps.len(),
    ensures
        poison_sum_ok(ps.take(k), stats, weapon),
    decreases ps.len(),
{
    if ps.len() > 0 {
        if k == ps.len() {
            assert(ps.take(k) == ps);
        } else {
            assert(ps.take(k) == ps.drop_last().take(k));
            lemma_poison_sum_ok_prefix(ps.drop_last(), stats, weapon, k);
        }
    }
}

/// The damage-over-time multiplier of poison: generic plus chaos.
pub open spec fn poison_dot_multi(stats: Stats) -> StatNums {
    assim(stats.spec_stat(StatId::DotMultiplier).nums(), stats.spec_stat(StatId::ChaosDotMultiplier).nums())
}

/// Poison damage per second: 30% of the hit's physical and chaos portions (after conversion,
/// before hit modifiers), with damage-over-time modifiers, averaged over critical strikes.
pub open spec fn spec_poison_dps(p: Seq<Seq<DamagePortion>>, stats: Stats, weapon: Option<ItemClass>, crit_chance: int) -> int {
    spec_avg_ailment_dmg_crit(
        poison_sum(p[0] + p[4], stats, weapon),
        spec_val(poison_dot_multi(stats)),
        crit_chance,
    )
}

pub open spec fn poison_dps_ok(p: Seq<Seq<DamagePortion>>, stats: Stats, weapon: Option<ItemClass>, crit_chance: int) -> bool {
    let g = wn(stats, StatId::Damage, weapon);
    &&& weapon_ok(stats, weapon)
    &&& assim_ok(g, stats.spec_stat(StatId::DamageOverTime).nums())
    &&& assim_ok(assim(g, stats.spec_stat(StatId::DamageOverTime).nums()), stats.spec_stat(StatId::ChaosDamageOverTime).nums())
    &&& assim_ok(stats.spec_stat(StatId::DotMultiplier).nums(), stats.spec_stat(StatId::ChaosDotMultiplier).nums())
    &&& val100_ok(poison_dot_multi(stats))
    &&& poison_sum_ok(p[0] + p[4], stats, weapon)
    &&& avg_ailment_ok(poison_sum(p[0] + p[4], stats, weapon), spec_val(poison_dot_multi(stats)), crit_chance)
}

pub fn calc_poison_dps(stats: &Stats, portions: &[Vec<DamagePortion>; 5], weapon: Option<ItemClass>, crit_chance: i64) -> (r: i64)
    requires
        stats.wf(),
        poison_dps_ok(pv(*portions), *stats, weapon, crit_chance as int),
    ensures
        r == spec_poison_dps(pv(*portions), *stats, weapon, crit_chance as int),
{
    assert(fold_ok(default_nums(), stats.spec_stat(StatId::Damage).mods@, for_weapon(weapon)));
    let mut generic = stats.stat(StatId::Damage).with_weapon(weapon);
    generic.assimilate(stats.stat(StatId::DamageOverTime));
    generic.assimilate(stats.stat(StatId::ChaosDamageOverTime));
    assert(generic.nums() == poison_generic(*stats, weapon));

    let mut dot_multi = stats.stat(StatId::DotMultiplier).duplicate();
    dot_multi.assimilate(stats.stat(StatId::ChaosDotMultiplier));

    let ghost all = pv(*portions)[0] + pv(*portions)[4];
    let phys = &portions[0];
    let chaos = &portions[4];
    assert(all == phys@ + chaos@);
    let n1 = phys.len();
    let mut dps: i64 = 0;
    let mut k: usize = 0;
    while k < n1
        invariant
            n1 == phys@.len(),
            all == phys@ + chaos@,
            k <= n1,
            stats.wf(),
            weapon_ok(*stats, weapon),
            poison_sum_ok(all, *stats, weapon),
            generic.nums() == poison_generic(*stats, weapon),
            dps == poison_sum(all.take(k as int), *stats, weapon),
        decreases n1 - k,
    {
        proof {
            lemma_poison_sum_ok_prefix(all, *stats, weapon, k + 1);
            assert(all.take(k + 1).drop_last() == all.take(k as int));
            assert(all[k as int] == phys@[k as int]);
        }
        let portion = phys[k];
        let source_types = portion.source_types | DamageType::Chaos.bit();
        let (inc, more) = accumulate_types(generic.inc, generic.more, stats, weapon, source_types);
        dps = dps + div_pos(div_pos(portion.amount * 30, 100) * (100 + inc) * more, 10000);
        k = k + 1;
    }
    let mut k: usize = 0;
    while k < chaos.len()
        invariant
            n1 == phys@.len(),
            all == phys@ + chaos@,
            k <= chaos@.len(),
            stats.wf(),
            weapon_ok(*stats, weapon),
            poison_sum_ok(all, *stats, weapon),
            generic.nums() == poison_generic(*stats, weapon),
            dps == poison_sum(all.take(n1 + k), *stats, weapon),
        decreases chaos@.len() - k,
    {
        proof {
            lemma_poison_sum_ok_prefix(all, *stats, weapon, n1 + k + 1);
            assert(all.take(n1 + k + 1).drop_last() == all.take(n1 + k));
            assert(all[n1 + k] == chaos@[k as int]);
        }
        let portion = chaos[k];
        let source_types = portion.source_types | DamageType::Chaos.bit();
        let (inc, more) = accumulate_types(generic.inc, generic.more, stats, weapon, source_types);
        dps = dps + div_pos(div_pos(portion.amount * 30, 100) * (100 + inc) * more, 10000);
        k = k + 1;
    }
    assert(all.take(all.len() as int) == all);
    avg_ailment_dmg_crit(dps, dot_multi.val(), crit_chance)
}


/// The maximum hit of the group as a stat (generic and typed damage recomputed for the
/// item class, with the maximum damage as base), when there is base damage.
pub open spec fn spec_max_base(
    stats: Stats,
    dm: Option<i64>,
    ae: Option<i64>,
    base_max: int,
    item_class: Option<ItemClass>,
    dg: DamageGroup,
) -> Option<StatNums> {
    if base_max <= 0 {
        None
    } else {
        let added = spec_val(wn(stats, dg.added_max_id, item_class));
        let max = spec_val(min_max_nums(stats.spec_stat(dg.max_id).nums(), stats.spec_stat(StatId::MaxDamage).nums(),
            base_max, added, dm, ae));
        Some(adjust_nums(assim(wn(stats, StatId::Damage, item_class), wn(stats, dg.stat_id, item_class)), Type::Base, max))
    }
}

pub open spec fn max_base_ok(
    stats: Stats,
    dm: Option<i64>,
    ae: Option<i64>,
    base_max: int,
    item_class: Option<ItemClass>,
    dg: DamageGroup,
) -> bool {
    let added = spec_val(wn(stats, dg.added_max_id, item_class));
    let max = spec_val(min_max_nums(stats.spec_stat(dg.max_id).nums(), stats.spec_stat(StatId::MaxDamage).nums(),
        base_max, added, dm, ae));
    let d = assim(wn(stats, StatId::Damage, item_class), wn(stats, dg.stat_id, item_class));
    base_max > 0 ==> {
        &&& weapon_ok(stats, item_class)
        &&& val100_ok(wn(stats, dg.added_max_id, item_class))
        &&& fits(added)
        &&& min_max_ok(stats.spec_stat(dg.min_id).nums(), stats.spec_stat(StatId::MinDamage).nums(), 0, 0, dm, ae)
        &&& min_max_ok(stats.spec_stat(dg.max_id).nums(), stats.spec_stat(StatId::MaxDamage).nums(), base_max, added, dm, ae)
        &&& assim_ok(wn(stats, StatId::Damage, item_class), wn(stats, dg.stat_id, item_class))
        &&& fits(d.base + max)
    }
}

/// The maximum hit of the group, as a stat, when `base_max` is positive.
pub fn calc_max_base_dmg(
    stats: &Stats,
    damage_multiplier: Option<i64>,
    added_effectiveness: Option<i64>,
    base_max: i64,
    item_class: Option<ItemClass>,
    dg: &DamageGroup,
) -> (r: Option<Stat>)
    requires
        stats.wf(),
        max_base_ok(*stats, damage_multiplier, added_effectiveness, base_max as int, item_class, *dg),
    ensures
        match spec_max_base(*stats, damage_multiplier, added_effectiveness, base_max as int, item_class, *dg) {
            Some(n) => r matches Some(st) && st.nums() == n,
            None => r is None,
        },
{
    if base_max <= 0 {
        return None;
    }
    assert(fold_ok(default_nums(), stats.spec_stat(dg.added_max_id).mods@, for_weapon(item_class)));
    let added_max_stat = stats.stat(dg.added_max_id).with_weapon(item_class);
    let (_, max) = calc_min_max_dmg(stats, damage_multiplier, added_effectiveness, 0, base_max, 0,
        added_max_stat.val(), dg);
    assert(fold_ok(default_nums(), stats.spec_stat(dg.stat_id).mods@, for_weapon(item_class)));
    assert(fold_ok(default_nums(), stats.spec_stat(StatId::Damage).mods@, for_weapon(item_class)));
    let dmg_stat_dt = stats.stat(dg.stat_id).with_weapon(item_class);
    let mut dmg_stat = stats.stat(StatId::Damage).with_weapon(item_class);
    dmg_stat.assimilate(&dmg_stat_dt);
    dmg_stat.adjust(Type::Base, max);
    Some(dmg_stat)
}

/// The damage-over-time multiplier of bleeding: generic plus physical.
pub open spec fn bleed_dot_multi(stats: Stats) -> StatNums {
    assim(stats.spec_stat(StatId::DotMultiplier).nums(), stats.spec_stat(StatId::PhysicalDotMultiplier).nums())
}

/// Bleed damage: the maximum hit, 30% less (bleeds deal 70%), with damage-over-time
/// multipliers, averaged over critical strikes; nothing without base damage.
pub open spec fn spec_bleed_dmg(
    stats: Stats,
    dm: Option<i64>,
    ae: Option<i64>,
    base_max: int,
    item_class: Option<ItemClass>,
    dg: DamageGroup,
    crit_chance: int,
) -> int {
    match spec_max_base(stats, dm, ae, base_max, item_class, dg) {
        Some(n) => spec_avg_ailment_dmg_crit(
            spec_val(adjust_nums(n, Type::More, -30)),
            spec_val(bleed_dot_multi(stats)),
            crit_chance,
        ),
        None => 0,
    }
}

pub open spec fn bleed_ok(
    stats: Stats,
    dm: Option<i64>,
    ae: Option<i64>,
    base_max: int,
    item_class: Option<ItemClass>,
    dg: DamageGroup,
    crit_chance: int,
) -> bool {
    &&& max_base_ok(stats, dm, ae, base_max, item_class, dg)
    &&& spec_max_base(stats, dm, ae, base_max, item_class, dg) matches Some(n) ==> {
        &&& fits(n.more * 70)
        &&& val100_ok(adjust_nums(n, Type::More, -30))
        &&& assim_ok(stats.spec_stat(StatId::DotMultiplier).nums(), stats.spec_stat(StatId::PhysicalDotMultiplier).nums())
        &&& val100_ok(bleed_dot_multi(stats))
        &&& avg_ailment_ok(spec_val(adjust_nums(n, Type::More, -30)), spec_val(bleed_dot_multi(stats)), crit_chance)
    }
}

pub fn calc_bleed_dmg(
    stats: &Stats,
    damage_multiplier: Option<i64>,
    added_effectiveness: Option<i64>,
    base_max: i64,
    item_class: Option<ItemClass>,
    dg: &DamageGroup,
    crit_chance: i64,
) -> (r: i64)
    requires
        stats.wf(),
        bleed_ok(*stats, damage_multiplier, added_effectiveness, base_max as int, item_class, *dg, crit_chance as int),
    ensures
        r == spec_bleed_dmg(*stats, damage_multiplier, added_effectiveness, base_max as int, item_class, *dg,
            crit_chance as int),
{
    if let Some(mut max_dmg) = calc_max_base_dmg(stats, damage_multiplier, added_effectiveness, base_max, item_class,
        dg) {
        let mut dot_multi = stats.stat(StatId::DotMultiplier).duplicate();
        dot_multi.assimilate(stats.stat(StatId::PhysicalDotMultiplier));
        max_dmg.adjust_mod(&Mod::stat(StatId::Damage, Type::More, -30).with_source(Source::Custom("Bleeds deal 70%")));
        return avg_ailment_dmg_crit(max_dmg.val(), dot_multi.val(), crit_chance);
    }
    0
}

} // verus!
