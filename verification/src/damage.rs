use vstd::prelude::*;
use crate::arith::{div_pos, fits, tdiv};
use crate::stat::{spec_val, val100_ok, Stats};
use crate::stat_id::StatId;

verus! {

/// A type of damage.
#[derive(Debug, Clone, Copy, PartialEq, Eq, Structural, Hash)]
pub enum DamageType {
    Physical,
    Cold,
    Fire,
    Lightning,
    Chaos,
}

impl DamageType {
    /// The position of the type's damage group.
    pub open spec fn spec_index(self) -> int {
        match self {
            DamageType::Physical => 0,
            DamageType::Fire => 1,
            DamageType::Cold => 2,
            DamageType::Lightning => 3,
            DamageType::Chaos => 4,
        }
    }

    pub fn as_index(self) -> (r: usize)
        ensures
            r == self.spec_index(),
    {
        match self {
            DamageType::Physical => 0,
            DamageType::Fire => 1,
            DamageType::Cold => 2,
            DamageType::Lightning => 3,
            DamageType::Chaos => 4,
        }
    }

    /// The one-type set of damage types of this type.
    pub open spec fn spec_bit(self) -> u64 {
        match self {
            DamageType::Physical => 1u64,
            DamageType::Cold => 2u64,
            DamageType::Fire => 4u64,
            DamageType::Lightning => 8u64,
            DamageType::Chaos => 16u64,
        }
    }

    pub fn bit(self) -> (r: u64)
        ensures
            r == self.spec_bit(),
    {
        match self {
            DamageType::Physical => 1u64,
            DamageType::Cold => 2u64,
            DamageType::Fire => 4u64,
            DamageType::Lightning => 8u64,
            DamageType::Chaos => 16u64,
        }
    }
}

/// The damage type of the damage group at position `i`.
pub open spec fn group_type(i: int) -> DamageType {
    if i == 0 {
        DamageType::Physical
    } else if i == 1 {
        DamageType::Fire
    } else if i == 2 {
        DamageType::Cold
    } else if i == 3 {
        DamageType::Lightning
    } else {
        DamageType::Chaos
    }
}

/// The stats that make up one type of damage.
#[derive(Debug, Clone, Copy, PartialEq, Eq, Structural)]
pub struct DamageGroup {
    pub stat_id: StatId,
    pub added_min_id: StatId,
    pub added_max_id: StatId,
    pub base_min_id: StatId,
    pub base_max_id: StatId,
    pub min_id: StatId,
    pub max_id: StatId,
    pub damage_type: DamageType,
}

impl DamageGroup {
    pub fn new(
        stat_id: StatId,
        added_min_id: StatId,
        added_max_id: StatId,
        base_min_id: StatId,
        base_max_id: StatId,
        min_id: StatId,
        max_id: StatId,
        damage_type: DamageType,
    ) -> (r: Self)
        ensures
            r == (DamageGroup {
                stat_id,
                added_min_id,
                added_max_id,
                base_min_id,
                base_max_id,
                min_id,
                max_id,
                damage_type,
            }),
    {
        DamageGroup { stat_id, added_min_id, added_max_id, base_min_id, base_max_id, min_id, max_id, damage_type }
    }
}

/// The damage group at position `i`: physical, fire, cold, lightning, chaos.
pub open spec fn spec_damage_group(i: int) -> DamageGroup {
    if i == 0 {
        DamageGroup {
            stat_id: StatId::PhysicalDamage,
            added_min_id: StatId::AddedMinPhysicalDamage,
            added_max_id: StatId::AddedMaxPhysicalDamage,
            base_min_id: StatId::BaseMinPhysicalDamage,
            base_max_id: StatId::BaseMaxPhysicalDamage,
            min_id: StatId::MinPhysicalDamage,
            max_id: StatId::MaxPhysicalDamage,
            damage_type: DamageType::Physical,
        }
    } else if i == 1 {
        DamageGroup {
            stat_id: StatId::FireDamage,
            added_min_id: StatId::AddedMinFireDamage,
            added_max_id: StatId::AddedMaxFireDamage,
            base_min_id: StatId::BaseMinFireDamage,
            base_max_id: StatId::BaseMaxFireDamage,
            min_id: StatId::MinFireDamage,
            max_id: StatId::MaxFireDamage,
            damage_type: DamageType::Fire,
        }
    } else if i == 2 {
        DamageGroup {
            stat_id: StatId::ColdDamage,
            added_min_id: StatId::AddedMinColdDamage,
            added_max_id: StatId::AddedMaxColdDamage,
            base_min_id: StatId::BaseMinColdDamage,
            base_max_id: StatId::BaseMaxColdDamage,
            min_id: StatId::MinColdDamage,
            max_id: StatId::MaxColdDamage,
            damage_type: DamageType::Cold,
        }
    } else if i == 3 {
        DamageGroup {
            stat_id: StatId::LightningDamage,
            added_min_id: StatId::AddedMinLightningDamage,
            added_max_id: StatId::AddedMaxLightningDamage,
            base_min_id: StatId::BaseMinLightningDamage,
            base_max_id: StatId::BaseMaxLightningDamage,
            min_id: StatId::MinLightningDamage,
            max_id: StatId::MaxLightningDamage,
            damage_type: DamageType::Lightning,
        }
    } else {
        DamageGroup {
            stat_id: StatId::ChaosDamage,
            added_min_id: StatId::AddedMinChaosDamage,
            added_max_id: StatId::AddedMaxChaosDamage,
            base_min_id: StatId::BaseMinChaosDamage,
            base_max_id: StatId::BaseMaxChaosDamage,
            min_id: StatId::MinChaosDamage,
            max_id: StatId::MaxChaosDamage,
            damage_type: DamageType::Chaos,
        }
    }
}

/// The damage group at position `i`, which must be below 5.
pub fn damage_group(i: usize) -> (r: DamageGroup)
    requires
        i < 5,
    ensures
        r == spec_damage_group(i as int),
{
    if i == 0 {
        DamageGroup::new(
            StatId::PhysicalDamage,
            StatId::AddedMinPhysicalDamage,
            StatId::AddedMaxPhysicalDamage,
            StatId::BaseMinPhysicalDamage,
            StatId::BaseMaxPhysicalDamage,
            StatId::MinPhysicalDamage,
            StatId::MaxPhysicalDamage,
            DamageType::Physical,
        )
    } else if i == 1 {
        DamageGroup::new(
            StatId::FireDamage,
            StatId::AddedMinFireDamage,
            StatId::AddedMaxFireDamage,
            StatId::BaseMinFireDamage,
            StatId::BaseMaxFireDamage,
            StatId::MinFireDamage,
            StatId::MaxFireDamage,
            DamageType::Fire,
        )
    } else if i == 2 {
        DamageGroup::new(
            StatId::ColdDamage,
            StatId::AddedMinColdDamage,
            StatId::AddedMaxColdDamage,
            StatId::BaseMinColdDamage,
            StatId::BaseMaxColdDamage,
            StatId::MinColdDamage,
            StatId::MaxColdDamage,
            DamageType::Cold,
        )
    } else if i == 3 {
        DamageGroup::new(
            StatId::LightningDamage,
            StatId::AddedMinLightningDamage,
            StatId::AddedMaxLightningDamage,
            StatId::BaseMinLightningDamage,
            StatId::BaseMaxLightningDamage,
            StatId::MinLightningDamage,
            StatId::MaxLightningDamage,
            DamageType::Lightning,
        )
    } else {
        DamageGroup::new(
            StatId::ChaosDamage,
            StatId::AddedMinChaosDamage,
            StatId::AddedMaxChaosDamage,
            StatId::BaseMinChaosDamage,
            StatId::BaseMaxChaosDamage,
            StatId::MinChaosDamage,
            StatId::MaxChaosDamage,
            DamageType::Chaos,
        )
    }
}

/// The stat holding how much of `from` damage converts to `to` damage.
pub open spec fn spec_conversion_stat_id(from: DamageType, to: DamageType) -> Option<StatId> {
    match (from, to) {
        (DamageType::Physical, DamageType::Lightning) => Some(StatId::PhysicalToLightningConversion),
        (DamageType::Physical, DamageType::Cold) => Some(StatId::PhysicalToColdConversion),
        (DamageType::Physical, DamageType::Fire) => Some(StatId::PhysicalToFireConversion),
        (DamageType::Physical, DamageType::Chaos) => Some(StatId::PhysicalToChaosConversion),
        (DamageType::Lightning, DamageType::Cold) => Some(StatId::LightningToColdConversion),
        (DamageType::Lightning, DamageType::Fire) => Some(StatId::LightningToFireConversion),
        (DamageType::Lightning, DamageType::Chaos) => Some(StatId::LightningToChaosConversion),
        (DamageType::Cold, DamageType::Fire) => Some(StatId::ColdToFireConversion),
        (DamageType::Cold, DamageType::Chaos) => Some(StatId::ColdToChaosConversion),
        (DamageType::Fire, DamageType::Chaos) => Some(StatId::FireToChaosConversion),
        _ => None,
    }
}

pub fn conversion_stat_id(from_dt: DamageType, to_dt: DamageType) -> (r: Option<StatId>)
    ensures
        r == spec_conversion_stat_id(from_dt, to_dt),
{
    match (from_dt, to_dt) {
        (DamageType::Physical, DamageType::Lightning) => Some(StatId::PhysicalToLightningConversion),
        (DamageType::Physical, DamageType::Cold) => Some(StatId::PhysicalToColdConversion),
        (DamageType::Physical, DamageType::Fire) => Some(StatId::PhysicalToFireConversion),
        (DamageType::Physical, DamageType::Chaos) => Some(StatId::PhysicalToChaosConversion),
        (DamageType::Lightning, DamageType::Cold) => Some(StatId::LightningToColdConversion),
        (DamageType::Lightning, DamageType::Fire) => Some(StatId::LightningToFireConversion),
        (DamageType::Lightning, DamageType::Chaos) => Some(StatId::LightningToChaosConversion),
        (DamageType::Cold, DamageType::Fire) => Some(StatId::ColdToFireConversion),
        (DamageType::Cold, DamageType::Chaos) => Some(StatId::ColdToChaosConversion),
        (DamageType::Fire, DamageType::Chaos) => Some(StatId::FireToChaosConversion),
        _ => None,
    }
}

/// The stat holding how much of `from` damage is gained as extra `to` damage.
pub open spec fn spec_extra_damage_stat_id(from: DamageType, to: DamageType) -> Option<StatId> {
    match (from, to) {
        (DamageType::Physical, DamageType::Lightning) => Some(StatId::PhysicalAsLightningExtra),
        (DamageType::Physical, DamageType::Cold) => Some(StatId::PhysicalAsColdExtra),
        (DamageType::Physical, DamageType::Fire) => Some(StatId::PhysicalAsFireExtra),
        (DamageType::Physical, DamageType::Chaos) => Some(StatId::PhysicalAsChaosExtra),
        (DamageType::Lightning, DamageType::Cold) => Some(StatId::LightningAsColdExtra),
        (DamageType::Lightning, DamageType::Fire) => Some(StatId::LightningAsFireExtra),
        (DamageType::Lightning, DamageType::Chaos) => Some(StatId::LightningAsChaosExtra),
        (DamageType::Cold, DamageType::Fire) => Some(StatId::ColdAsFireExtra),
        (DamageType::Cold, DamageType::Chaos) => Some(StatId::ColdAsChaosExtra),
        (DamageType::Fire, DamageType::Chaos) => Some(StatId::FireAsChaosExtra),
        _ => None,
    }
}

pub fn extra_damage_stat_id(from_dt: DamageType, to_dt: DamageType) -> (r: Option<StatId>)
    ensures
        r == spec_extra_damage_stat_id(from_dt, to_dt),
{
    match (from_dt, to_dt) {
        (DamageType::Physical, DamageType::Lightning) => Some(StatId::PhysicalAsLightningExtra),
        (DamageType::Physical, DamageType::Cold) => Some(StatId::PhysicalAsColdExtra),
        (DamageType::Physical, DamageType::Fire) => Some(StatId::PhysicalAsFireExtra),
        (DamageType::Physical, DamageType::Chaos) => Some(StatId::PhysicalAsChaosExtra),
        (DamageType::Lightning, DamageType::Cold) => Some(StatId::LightningAsColdExtra),
        (DamageType::Lightning, DamageType::Fire) => Some(StatId::LightningAsFireExtra),
        (DamageType::Lightning, DamageType::Chaos) => Some(StatId::LightningAsChaosExtra),
        (DamageType::Cold, DamageType::Fire) => Some(StatId::ColdAsFireExtra),
        (DamageType::Cold, DamageType::Chaos) => Some(StatId::ColdAsChaosExtra),
        (DamageType::Fire, DamageType::Chaos) => Some(StatId::FireAsChaosExtra),
        _ => None,
    }
}

/// The types `from` damage can convert to, in the order conversion visits them.
pub open spec fn spec_conversion_targets(from: DamageType) -> Seq<DamageType> {
    match from {
        DamageType::Physical => seq![
            DamageType::Lightning,
            DamageType::Cold,
            DamageType::Fire,
            DamageType::Chaos,
        ],
        DamageType::Lightning => seq![DamageType::Cold, DamageType::Fire, DamageType::Chaos],
        DamageType::Cold => seq![DamageType::Fire, DamageType::Chaos],
        DamageType::Fire => seq![DamageType::Chaos],
        _ => seq![],
    }
}

pub fn conversion_targets(from_dt: DamageType) -> (r: Vec<DamageType>)
    ensures
        r@ == spec_conversion_targets(from_dt),
{
    match from_dt {
        DamageType::Physical => vec![
            DamageType::Lightning,
            DamageType::Cold,
            DamageType::Fire,
            DamageType::Chaos,
        ],
        DamageType::Lightning => vec![DamageType::Cold, DamageType::Fire, DamageType::Chaos],
        DamageType::Cold => vec![DamageType::Fire, DamageType::Chaos],
        DamageType::Fire => vec![DamageType::Chaos],
        _ => vec![],
    }
}

/// A share of damage, with the set of damage types it passed through (see `DamageType::bit`).
#[derive(Debug, Clone, Copy, PartialEq, Eq, Structural)]
pub struct DamagePortion {
    pub amount: i64,
    pub source_types: u64,
}

/// The value of stat `id` in an evaluated table.
pub open spec fn ev(stats: Stats, id: StatId) -> int {
    spec_val(stats.spec_stat(id).nums())
}

/// Every stat of the table has a value that stays within `i64`.
pub open spec fn vals_ok(stats: Stats) -> bool {
    &&& stats.wf()
    &&& forall|s: StatId| val100_ok(#[trigger] stats.spec_stat(s).nums())
}

/// Each portion scaled by `pct` percent, and marked as having passed through the types `bit`.
pub open spec fn scale(ps: Seq<DamagePortion>, pct: int, bit: u64) -> Seq<DamagePortion> {
    ps.map_values(
        |p: DamagePortion|
            DamagePortion { amount: tdiv(p.amount * pct, 100) as i64, source_types: p.source_types | bit },
    )
}

/// Each portion scaled by `pct` percent, its types kept.
pub open spec fn shrink(ps: Seq<DamagePortion>, pct: int) -> Seq<DamagePortion> {
    ps.map_values(
        |p: DamagePortion| DamagePortion { amount: tdiv(p.amount * pct, 100) as i64, source_types: p.source_types },
    )
}

/// Scaling the portions by `pct` stays within `i64`.
pub open spec fn scale_ok(ps: Seq<DamagePortion>, pct: int) -> bool {
    forall|i: int| 0 <= i < ps.len() ==> fits((#[trigger] ps[i]).amount * pct)
}

/// `ps` scaled by `pct` percent and marked with `bit`.
pub fn scale_portions(ps: &Vec<DamagePortion>, pct: i64, bit: u64) -> (r: Vec<DamagePortion>)
    requires
        scale_ok(ps@, pct as int),
    ensures
        r@ == scale(ps@, pct as int, bit),
{
    let mut r: Vec<DamagePortion> = Vec::new();
    let mut i: usize = 0;
    while i < ps.len()
        invariant
            i <= ps@.len(),
            scale_ok(ps@, pct as int),
            r@ == scale(ps@.take(i as int), pct as int, bit),
        decreases ps@.len() - i,
    {
        let p = ps[i];
        assert(fits(ps@[i as int].amount * pct));
        r.push(DamagePortion { amount: div_pos(p.amount * pct, 100), source_types: p.source_types | bit });
        proof {
            assert(ps@.take(i + 1) == ps@.take(i as int).push(p));
            assert(scale(ps@.take(i + 1), pct as int, bit) =~= scale(ps@.take(i as int), pct as int, bit).push(
                DamagePortion { amount: tdiv(p.amount * pct, 100) as i64, source_types: p.source_types | bit },
            ));
        }
        i = i + 1;
    }
    assert(ps@.take(ps@.len() as int) == ps@);
    r
}

/// `ps` scaled by `pct` percent, types kept.
pub fn shrink_portions(ps: &Vec<DamagePortion>, pct: i64) -> (r: Vec<DamagePortion>)
    requires
        scale_ok(ps@, pct as int),
    ensures
        r@ == shrink(ps@, pct as int),
{
    let mut r: Vec<DamagePortion> = Vec::new();
    let mut i: usize = 0;
    while i < ps.len()
        invariant
            i <= ps@.len(),
            scale_ok(ps@, pct as int),
            r@ == shrink(ps@.take(i as int), pct as int),
        decreases ps@.len() - i,
    {
        let p = ps[i];
        assert(fits(ps@[i as int].amount * pct));
        r.push(DamagePortion { amount: div_pos(p.amount * pct, 100), source_types: p.source_types });
        proof {
            assert(ps@.take(i + 1) == ps@.take(i as int).push(p));
            assert(shrink(ps@.take(i + 1), pct as int) =~= shrink(ps@.take(i as int), pct as int).push(
                DamagePortion { amount: tdiv(p.amount * pct, 100) as i64, source_types: p.source_types },
            ));
        }
        i = i + 1;
    }
    assert(ps@.take(ps@.len() as int) == ps@);
    r
}


/// The portions of each damage group, by group position.
pub open spec fn pv(a: [Vec<DamagePortion>; 5]) -> Seq<Seq<DamagePortion>> {
    a@.map_values(|v: Vec<DamagePortion>| v@)
}

/// Damage gained as extra `to` damage: each `from` portion, scaled by the extra percentage,
/// is added to `to` when that percentage is positive.
pub open spec fn extra_step(p: Seq<Seq<DamagePortion>>, stats: Stats, from: DamageType, to: DamageType) -> Seq<
    Seq<DamagePortion>,
> {
    match spec_extra_damage_stat_id(from, to) {
        Some(id) => if ev(stats, id) > 0 {
            p.update(
                to.spec_index(),
                p[to.spec_index()] + scale(p[from.spec_index()], ev(stats, id), to.spec_bit()),
            )
        } else {
            p
        },
        None => p,
    }
}

pub open spec fn extra_step_ok(p: Seq<Seq<DamagePortion>>, stats: Stats, from: DamageType, to: DamageType) -> bool {
    match spec_extra_damage_stat_id(from, to) {
        Some(id) => ev(stats, id) > 0 ==> scale_ok(p[from.spec_index()], ev(stats, id)),
        None => true,
    }
}

/// The extra-damage steps for the targets `ts`, in order.
pub open spec fn extras(p: Seq<Seq<DamagePortion>>, stats: Stats, from: DamageType, ts: Seq<DamageType>) -> Seq<
    Seq<DamagePortion>,
>
    decreases ts.len(),
{
    if ts.len() == 0 {
        p
    } else {
        extra_step(extras(p, stats, from, ts.drop_last()), stats, from, ts.last())
    }
}

pub open spec fn extras_ok(p: Seq<Seq<DamagePortion>>, stats: Stats, from: DamageType, ts: Seq<DamageType>) -> bool
    decreases ts.len(),
{
    if ts.len() == 0 {
        true
    } else {
        extras_ok(p, stats, from, ts.drop_last()) && extra_step_ok(
            extras(p, stats, from, ts.drop_last()),
            stats,
            from,
            ts.last(),
        )
    }
}

/// The conversion percentage from `from` to `to`.
pub open spec fn conv_value(stats: Stats, from: DamageType, to: DamageType) -> int {
    match spec_conversion_stat_id(from, to) {
        Some(id) => ev(stats, id),
        None => 0,
    }
}

/// The sum of the conversion percentages to the targets `ts`.
pub open spec fn conv_total(stats: Stats, from: DamageType, ts: Seq<DamageType>) -> int
    decreases ts.len(),
{
    if ts.len() == 0 {
        0
    } else {
        conv_total(stats, from, ts.drop_last()) + conv_value(stats, from, ts.last())
    }
}

pub open spec fn conv_total_ok(stats: Stats, from: DamageType, ts: Seq<DamageType>) -> bool
    decreases ts.len(),
{
    if ts.len() == 0 {
        true
    } else {
        conv_total_ok(stats, from, ts.drop_last()) && fits(conv_total(stats, from, ts))
    }
}

/// The share converted to `to`: scaled down so that the shares add up to 100% when they
/// add up to more.
pub open spec fn conv_pct(stats: Stats, from: DamageType, to: DamageType, total: int) -> int {
    if total > 100 {
        tdiv(conv_value(stats, from, to) * 100, total)
    } else {
        conv_value(stats, from, to)
    }
}

/// Damage converted to `to`: each portion of `cur`, scaled by its share, is added to `to`
/// when that share is positive.
pub open spec fn conv_step(
    q: Seq<Seq<DamagePortion>>,
    cur: Seq<DamagePortion>,
    stats: Stats,
    from: DamageType,
    to: DamageType,
    total: int,
) -> Seq<Seq<DamagePortion>> {
    match spec_conversion_stat_id(from, to) {
        Some(_) => if conv_pct(stats, from, to, total) > 0 {
            q.update(
                to.spec_index(),
                q[to.spec_index()] + scale(cur, conv_pct(stats, from, to, total), to.spec_bit()),
            )
        } else {
            q
        },
        None => q,
    }
}

pub open spec fn conv_step_ok(cur: Seq<DamagePortion>, stats: Stats, from: DamageType, to: DamageType, total: int) -> bool {
    match spec_conversion_stat_id(from, to) {
        Some(_) => (total > 100 ==> fits(conv_value(stats, from, to) * 100)) && (conv_pct(stats, from, to, total)
            > 0 ==> scale_ok(cur, conv_pct(stats, from, to, total))),
        None => true,
    }
}

/// The conversion steps for the targets `ts`, in order.
pub open spec fn convs(
    q: Seq<Seq<DamagePortion>>,
    cur: Seq<DamagePortion>,
    stats: Stats,
    from: DamageType,
    total: int,
    ts: Seq<DamageType>,
) -> Seq<Seq<DamagePortion>>
    decreases ts.len(),
{
    if ts.len() == 0 {
        q
    } else {
        conv_step(convs(q, cur, stats, from, total, ts.drop_last()), cur, stats, from, ts.last(), total)
    }
}

pub open spec fn convs_ok(cur: Seq<DamagePortion>, stats: Stats, from: DamageType, total: int, ts: Seq<DamageType>) -> bool {
    forall|k: int| 0 <= k < ts.len() ==> #[trigger] conv_step_ok(cur, stats, from, ts[k], total)
}

/// The share of `from` damage left unconverted.
pub open spec fn remaining(total: int) -> int {
    let r = 100 - (if total < 100 { total } else { 100 });
    if r > 0 { r } else { 0 }
}

/// One stage of the conversion chain: extra damage gained from `from`, then the
/// conversion of `from` damage to its targets.
pub open spec fn stage(p: Seq<Seq<DamagePortion>>, stats: Stats, from: DamageType) -> Seq<Seq<DamagePortion>> {
    let ts = spec_conversion_targets(from);
    let p1 = extras(p, stats, from, ts);
    let total = conv_total(stats, from, ts);
    if total > 0 {
        let cur = p1[from.spec_index()];
        let rem = remaining(total);
        let q0 = p1.update(from.spec_index(), if rem > 0 { shrink(cur, rem) } else { seq![] });
        convs(q0, cur, stats, from, total, ts)
    } else {
        p1
    }
}

pub open spec fn stage_ok(p: Seq<Seq<DamagePortion>>, stats: Stats, from: DamageType) -> bool {
    let ts = spec_conversion_targets(from);
    let p1 = extras(p, stats, from, ts);
    let total = conv_total(stats, from, ts);
    &&& extras_ok(p, stats, from, ts)
    &&& conv_total_ok(stats, from, ts)
    &&& total > 0 ==> {
        &&& remaining(total) > 0 ==> scale_ok(p1[from.spec_index()], remaining(total))
        &&& convs_ok(p1[from.spec_index()], stats, from, total, ts)
    }
}

/// No target of `from` is `from` itself.
pub proof fn lemma_targets_differ(from: DamageType, k: int)
    requires
        0 <= k < spec_conversion_targets(from).len(),
    ensures
        spec_conversion_targets(from)[k] != from,
        spec_conversion_targets(from)[k].spec_index() != from.spec_index(),
{
}

/// A prefix of extra steps that stay within `i64` stays within it too.
pub proof fn lemma_extras_ok_prefix(p: Seq<Seq<DamagePortion>>, stats: Stats, from: DamageType, ts: Seq<DamageType>, k: int)
    requires
        extras_ok(p, stats, from, ts),
        0 <= k <= ts.len(),
    ensures
        extras_ok(p, stats, from, ts.take(k)),
    decreases ts.len(),
{
    if ts.len() > 0 {
        if k == ts.len() {
            assert(ts.take(k) == ts);
        } else {
            assert(ts.take(k) == ts.drop_last().take(k));
            lemma_extras_ok_prefix(p, stats, from, ts.drop_last(), k);
        }
    }
}

pub proof fn lemma_conv_total_ok_prefix(stats: Stats, from: DamageType, ts: Seq<DamageType>, k: int)
    requires
        conv_total_ok(stats, from, ts),
        0 <= k <= ts.len(),
    ensures
        conv_total_ok(stats, from, ts.take(k)),
    decreases ts.len(),
{
    if ts.len() > 0 {
        if k == ts.len() {
            assert(ts.take(k) == ts);
        } else {
            assert(ts.take(k) == ts.drop_last().take(k));
            lemma_conv_total_ok_prefix(stats, from, ts.drop_last(), k);
        }
    }
}

/// Adds the extra `to` damage gained from `from` damage.
fn extra_into(stats: &Stats, p: &mut [Vec<DamagePortion>; 5], from: DamageType, to: DamageType)
    requires
        vals_ok(*stats),
        from != to,
        extra_step_ok(pv(*old(p)), *stats, from, to),
    ensures
        pv(*final(p)) == extra_step(pv(*old(p)), *stats, from, to),
{
    if let Some(stat_id) = extra_damage_stat_id(from, to) {
        assert(val100_ok(stats.spec_stat(stat_id).nums()));
        let extra_pct = stats.val(stat_id);
        if extra_pct > 0 {
            let from_idx = from.as_index();
            let to_idx = to.as_index();
            let mut added = scale_portions(&p[from_idx], extra_pct, to.bit());
            p[to_idx].append(&mut added);
            assert(pv(*p) =~= extra_step(pv(*old(p)), *stats, from, to));
        }
    }
}

/// Adds the share of `cur` that converts to `to`.
fn conv_into(
    stats: &Stats,
    q: &mut [Vec<DamagePortion>; 5],
    cur: &Vec<DamagePortion>,
    from: DamageType,
    to: DamageType,
    total: i64,
)
    requires
        vals_ok(*stats),
        total > 0,
        conv_step_ok(cur@, *stats, from, to, total as int),
    ensures
        pv(*final(q)) == conv_step(pv(*old(q)), cur@, *stats, from, to, total as int),
{
    if let Some(stat_id) = conversion_stat_id(from, to) {
        assert(val100_ok(stats.spec_stat(stat_id).nums()));
        let mut conv_pct = stats.val(stat_id);
        if total > 100 {
            conv_pct = div_pos(conv_pct * 100, total);
        }
        if conv_pct > 0 {
            let to_idx = to.as_index();
            let mut added = scale_portions(cur, conv_pct, to.bit());
            q[to_idx].append(&mut added);
            assert(pv(*q) =~= conv_step(pv(*old(q)), cur@, *stats, from, to, total as int));
        }
    }
}

/// One stage of the conversion chain, for damage of type `from`.
fn convert_stage(stats: &Stats, p: &mut [Vec<DamagePortion>; 5], from: DamageType)
    requires
        vals_ok(*stats),
        stage_ok(pv(*old(p)), *stats, from),
    ensures
        pv(*final(p)) == stage(pv(*old(p)), *stats, from),
{
    let targets = conversion_targets(from);
    let ghost ts = spec_conversion_targets(from);
    let ghost p0 = pv(*p);
    let from_idx = from.as_index();
    let mut k: usize = 0;
    while k < targets.len()
        invariant
            targets@ == ts,
            ts == spec_conversion_targets(from),
            k <= ts.len(),
            vals_ok(*stats),
            extras_ok(p0, *stats, from, ts),
            pv(*p) == extras(p0, *stats, from, ts.take(k as int)),
        decreases ts.len() - k,
    {
        proof {
            lemma_extras_ok_prefix(p0, *stats, from, ts, k + 1);
            assert(ts.take(k + 1).drop_last() == ts.take(k as int));
            lemma_targets_differ(from, k as int);
        }
        extra_into(stats, p, from, targets[k]);
        k = k + 1;
    }
    assert(ts.take(ts.len() as int) == ts);
    let ghost p1 = pv(*p);
    let mut total_conv: i64 = 0;
    let mut k: usize = 0;
    while k < targets.len()
        invariant
            targets@ == ts,
            ts == spec_conversion_targets(from),
            k <= ts.len(),
            vals_ok(*stats),
            conv_total_ok(*stats, from, ts),
            total_conv == conv_total(*stats, from, ts.take(k as int)),
        decreases ts.len() - k,
    {
        proof {
            lemma_conv_total_ok_prefix(*stats, from, ts, k + 1);
            assert(ts.take(k + 1).drop_last() == ts.take(k as int));
        }
        if let Some(stat_id) = conversion_stat_id(from, targets[k]) {
            assert(val100_ok(stats.spec_stat(stat_id).nums()));
            total_conv = total_conv + stats.val(stat_id);
        }
        k = k + 1;
    }
    assert(ts.take(ts.len() as int) == ts);
    if total_conv > 0 {
        let capped = if total_conv < 100 { total_conv } else { 100 };
        let remaining_pct = if 100 - capped > 0 { 100 - capped } else { 0 };
        let mut current: Vec<DamagePortion> = Vec::new();
        std::mem::swap(&mut current, &mut p[from_idx]);
        assert(current@ == p1[from_idx as int]);
        if remaining_pct > 0 {
            p[from_idx] = shrink_portions(&current, remaining_pct);
        }
        let ghost q0 = pv(*p);
        assert(q0 =~= p1.update(
            from_idx as int,
            if remaining_pct > 0 { shrink(current@, remaining_pct as int) } else { seq![] },
        ));
        let mut k: usize = 0;
        while k < targets.len()
            invariant
                targets@ == ts,
                ts == spec_conversion_targets(from),
                k <= ts.len(),
                vals_ok(*stats),
                total_conv > 0,
                convs_ok(current@, *stats, from, total_conv as int, ts),
                pv(*p) == convs(q0, current@, *stats, from, total_conv as int, ts.take(k as int)),
            decreases ts.len() - k,
        {
            proof {
                assert(ts.take(k + 1).drop_last() == ts.take(k as int));
                assert(conv_step_ok(current@, *stats, from, ts[k as int], total_conv as int));
            }
            conv_into(stats, p, &current, from, targets[k], total_conv);
            k = k + 1;
        }
        assert(ts.take(ts.len() as int) == ts);
    }
}

/// The portions the base damages start as: one per damage group with positive damage.
pub open spec fn init_portions(base: Seq<i64>) -> Seq<Seq<DamagePortion>> {
    Seq::new(
        5,
        |i: int|
            if base[i] > 0 {
                seq![DamagePortion { amount: base[i], source_types: group_type(i).spec_bit() }]
            } else {
                seq![]
            },
    )
}

/// The portions after the whole chain: physical, then lightning, cold and fire damage.
pub open spec fn conversion(stats: Stats, base: Seq<i64>) -> Seq<Seq<DamagePortion>> {
    stage(
        stage(stage(stage(init_portions(base), stats, DamageType::Physical), stats, DamageType::Lightning), stats, DamageType::Cold),
        stats,
        DamageType::Fire,
    )
}

pub open spec fn conversion_ok(stats: Stats, base: Seq<i64>) -> bool {
    let s0 = init_portions(base);
    let s1 = stage(s0, stats, DamageType::Physical);
    let s2 = stage(s1, stats, DamageType::Lightning);
    let s3 = stage(s2, stats, DamageType::Cold);
    &&& stage_ok(s0, stats, DamageType::Physical)
    &&& stage_ok(s1, stats, DamageType::Lightning)
    &&& stage_ok(s2, stats, DamageType::Cold)
    &&& stage_ok(s3, stats, DamageType::Fire)
}

/// Applies the damage conversion chain to the base damages (by group position), tracking
/// which damage types each portion passed through.
pub fn apply_conversion(stats: &Stats, base_damages: &[i64; 5]) -> (r: [Vec<DamagePortion>; 5])
    requires
        vals_ok(*stats),
        conversion_ok(*stats, base_damages@),
    ensures
        pv(r) == conversion(*stats, base_damages@),
{
    let mut portions: [Vec<DamagePortion>; 5] = [Vec::new(), Vec::new(), Vec::new(), Vec::new(), Vec::new()];
    if base_damages[0] > 0 {
        portions[0].push(DamagePortion { amount: base_damages[0], source_types: DamageType::Physical.bit() });
    }
    if base_damages[1] > 0 {
        portions[1].push(DamagePortion { amount: base_damages[1], source_types: DamageType::Fire.bit() });
    }
    if base_damages[2] > 0 {
        portions[2].push(DamagePortion { amount: base_damages[2], source_types: DamageType::Cold.bit() });
    }
    if base_damages[3] > 0 {
        portions[3].push(DamagePortion { amount: base_damages[3], source_types: DamageType::Lightning.bit() });
    }
    if base_damages[4] > 0 {
        portions[4].push(DamagePortion { amount: base_damages[4], source_types: DamageType::Chaos.bit() });
    }
    assert(pv(portions) =~= init_portions(base_damages@));
    convert_stage(stats, &mut portions, DamageType::Physical);
    convert_stage(stats, &mut portions, DamageType::Lightning);
    convert_stage(stats, &mut portions, DamageType::Cold);
    convert_stage(stats, &mut portions, DamageType::Fire);
    portions
}


/// The percentage of `from` damage gained as extra `to` damage.
pub open spec fn extra_pct(stats: Stats, from: DamageType, to: DamageType) -> int {
    match spec_extra_damage_stat_id(from, to) {
        Some(id) => ev(stats, id),
        None => 0,
    }
}

/// No extra damage is gained from `from`: the extra-damage steps leave the portions alone.
pub proof fn lemma_extras_noop(p: Seq<Seq<DamagePortion>>, stats: Stats, from: DamageType, ts: Seq<DamageType>)
    requires
        forall|k: int| 0 <= k < ts.len() ==> #[trigger] extra_pct(stats, from, ts[k]) <= 0,
    ensures
        extras(p, stats, from, ts) == p,
    decreases ts.len(),
{
    if ts.len() > 0 {
        assert forall|k: int| 0 <= k < ts.drop_last().len() implies #[trigger] extra_pct(stats, from, ts.drop_last()[k]) <= 0 by {
            assert(ts.drop_last()[k] == ts[k]);
        }
        lemma_extras_noop(p, stats, from, ts.drop_last());
        assert(extra_pct(stats, from, ts[ts.len() - 1]) <= 0);
    }
}

/// With no positive conversion percentage, the total is not positive.
pub proof fn lemma_conv_total_nonpositive(stats: Stats, from: DamageType, ts: Seq<DamageType>)
    requires
        forall|k: int| 0 <= k < ts.len() ==> #[trigger] conv_value(stats, from, ts[k]) <= 0,
    ensures
        conv_total(stats, from, ts) <= 0,
    decreases ts.len(),
{
    if ts.len() > 0 {
        assert forall|k: int| 0 <= k < ts.drop_last().len() implies #[trigger] conv_value(stats, from, ts.drop_last()[k]) <= 0 by {
            assert(ts.drop_last()[k] == ts[k]);
        }
        lemma_conv_total_nonpositive(stats, from, ts.drop_last());
        assert(conv_value(stats, from, ts[ts.len() - 1]) <= 0);
    }
}

/// Without positive conversion or extra-damage percentages, the damage stays as it was:
/// one portion per group with positive base damage, of that amount.
pub proof fn law_no_conversion_keeps_damage(stats: Stats, base: Seq<i64>)
    requires
        forall|from: DamageType, to: DamageType| #[trigger] conv_value(stats, from, to) <= 0,
        forall|from: DamageType, to: DamageType| #[trigger] extra_pct(stats, from, to) <= 0,
    ensures
        conversion(stats, base) == init_portions(base),
{
    let p0 = init_portions(base);
    assert forall|p: Seq<Seq<DamagePortion>>, from: DamageType| #[trigger] stage(p, stats, from) == p by {
        let ts = spec_conversion_targets(from);
        assert forall|k: int| 0 <= k < ts.len() implies #[trigger] conv_value(stats, from, ts[k]) <= 0 by {
            assert(conv_value(stats, from, ts[k]) <= 0);
        }
        assert forall|k: int| 0 <= k < ts.len() implies #[trigger] extra_pct(stats, from, ts[k]) <= 0 by {
            assert(extra_pct(stats, from, ts[k]) <= 0);
        }
        lemma_extras_noop(p, stats, from, ts);
        lemma_conv_total_nonpositive(stats, from, ts);
    }
    assert(stage(p0, stats, DamageType::Physical) == p0);
}

/// The conversion steps never touch the group of the converted type.
pub proof fn lemma_convs_keep_source(
    q: Seq<Seq<DamagePortion>>,
    cur: Seq<DamagePortion>,
    stats: Stats,
    from: DamageType,
    total: int,
    ts: Seq<DamageType>,
)
    requires
        q.len() == 5,
        forall|k: int| 0 <= k < ts.len() ==> (#[trigger] ts[k]) != from,
    ensures
        convs(q, cur, stats, from, total, ts).len() == 5,
        convs(q, cur, stats, from, total, ts)[from.spec_index()] == q[from.spec_index()],
    decreases ts.len(),
{
    if ts.len() > 0 {
        assert forall|k: int| 0 <= k < ts.drop_last().len() implies (#[trigger] ts.drop_last()[k]) != from by {
            assert(ts.drop_last()[k] == ts[k]);
        }
        lemma_convs_keep_source(q, cur, stats, from, total, ts.drop_last());
        assert(ts[ts.len() - 1] != from);
    }
}

/// The extra-damage steps keep five groups.
pub proof fn lemma_extras_len(p: Seq<Seq<DamagePortion>>, stats: Stats, from: DamageType, ts: Seq<DamageType>)
    requires
        p.len() == 5,
    ensures
        extras(p, stats, from, ts).len() == 5,
    decreases ts.len(),
{
    if ts.len() > 0 {
        lemma_extras_len(p, stats, from, ts.drop_last());
    }
}

/// When the conversion percentages of a type add up to 100% or more, a stage leaves no
/// damage of that type.
pub proof fn law_full_conversion_empties(p: Seq<Seq<DamagePortion>>, stats: Stats, from: DamageType)
    requires
        p.len() == 5,
        conv_total(stats, from, spec_conversion_targets(from)) >= 100,
    ensures
        stage(p, stats, from)[from.spec_index()] == Seq::<DamagePortion>::empty(),
{
    let ts = spec_conversion_targets(from);
    let p1 = extras(p, stats, from, ts);
    lemma_extras_len(p, stats, from, ts);
    let total = conv_total(stats, from, ts);
    let cur = p1[from.spec_index()];
    assert(remaining(total) == 0);
    let q0 = p1.update(from.spec_index(), seq![]);
    assert forall|k: int| 0 <= k < ts.len() implies (#[trigger] ts[k]) != from by {
        lemma_targets_differ(from, k);
    }
    lemma_convs_keep_source(q0, cur, stats, from, total, ts);
}

} // verus!
