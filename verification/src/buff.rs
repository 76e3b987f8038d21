use vstd::prelude::*;
use crate::modifier::{Mod, Type};
use crate::stat_id::StatId;

verus! {

/// A temporary effect on the player.
#[derive(Debug, Clone, Copy, PartialEq, Eq, Structural, Hash)]
pub enum Buff {
    Onslaught,
    DiamondShrine,
    MassiveShrine,
    ResistanceShrine,
    EchoingShrine,
    AccelerationShrine,
    Malediction,
}

/// The (stat, type, amount) triples a buff grants.
pub open spec fn spec_buff_stats(b: Buff) -> Seq<(StatId, Type, i64)> {
    match b {
        Buff::Onslaught => seq![
            (StatId::AttackSpeed, Type::Inc, 20i64),
            (StatId::CastSpeed, Type::Inc, 20i64),
            (StatId::MovementSpeed, Type::Inc, 20i64),
        ],
        Buff::DiamondShrine => seq![(StatId::CriticalStrikeChance, Type::Override, 100i64)],
        Buff::MassiveShrine => seq![
            (StatId::AreaOfEffect, Type::Inc, 40i64),
            (StatId::MaximumLife, Type::Inc, 40i64),
        ],
        Buff::ResistanceShrine => seq![
            (StatId::FireResistance, Type::Base, 50i64),
            (StatId::ColdResistance, Type::Base, 50i64),
            (StatId::LightningResistance, Type::Base, 50i64),
            (StatId::MaximumFireResistance, Type::Base, 10i64),
            (StatId::MaximumColdResistance, Type::Base, 10i64),
            (StatId::MaximumLightningResistance, Type::Base, 10i64),
        ],
        Buff::EchoingShrine => seq![
            (StatId::AttackSpeed, Type::More, 100i64),
            (StatId::CastSpeed, Type::More, 100i64),
        ],
        Buff::AccelerationShrine => seq![(StatId::ActionSpeed, Type::Inc, 50i64)],
        Buff::Malediction => seq![
            (StatId::DamageTaken, Type::Inc, 10i64),
            (StatId::Damage, Type::More, -10i64),
        ],
    }
}

/// The triples of a buff as a table.
pub fn buff_stats(b: Buff) -> (r: Vec<(StatId, Type, i64)>)
    ensures
        r@ == spec_buff_stats(b),
{
    match b {
        Buff::Onslaught => vec![
            (StatId::AttackSpeed, Type::Inc, 20i64),
            (StatId::CastSpeed, Type::Inc, 20i64),
            (StatId::MovementSpeed, Type::Inc, 20i64),
        ],
        Buff::DiamondShrine => vec![(StatId::CriticalStrikeChance, Type::Override, 100i64)],
        Buff::MassiveShrine => vec![
            (StatId::AreaOfEffect, Type::Inc, 40i64),
            (StatId::MaximumLife, Type::Inc, 40i64),
        ],
        Buff::ResistanceShrine => vec![
            (StatId::FireResistance, Type::Base, 50i64),
            (StatId::ColdResistance, Type::Base, 50i64),
            (StatId::LightningResistance, Type::Base, 50i64),
            (StatId::MaximumFireResistance, Type::Base, 10i64),
            (StatId::MaximumColdResistance, Type::Base, 10i64),
            (StatId::MaximumLightningResistance, Type::Base, 10i64),
        ],
        Buff::EchoingShrine => vec![
            (StatId::AttackSpeed, Type::More, 100i64),
            (StatId::CastSpeed, Type::More, 100i64),
        ],
        Buff::AccelerationShrine => vec![(StatId::ActionSpeed, Type::Inc, 50i64)],
        Buff::Malediction => vec![
            (StatId::DamageTaken, Type::Inc, 10i64),
            (StatId::Damage, Type::More, -10i64),
        ],
    }
}

/// The modifiers a buff grants: one plain stat modifier per triple.
pub fn buff_mods(b: Buff) -> (r: Vec<Mod>)
    ensures
        r@.len() == spec_buff_stats(b).len(),
        forall|i: int|
            0 <= i < r@.len() ==> (#[trigger] r@[i]).is_plain_stat(
                spec_buff_stats(b)[i].0,
                spec_buff_stats(b)[i].1,
                spec_buff_stats(b)[i].2,
            ),
{
    let stats = buff_stats(b);
    let mut r: Vec<Mod> = Vec::new();
    let mut i: usize = 0;
    while i < stats.len()
        invariant
            i <= stats@.len(),
            stats@ == spec_buff_stats(b),
            r@.len() == i,
            forall|j: int|
                0 <= j < i ==> (#[trigger] r@[j]).is_plain_stat(
                    spec_buff_stats(b)[j].0,
                    spec_buff_stats(b)[j].1,
                    spec_buff_stats(b)[j].2,
                ),
        decreases stats@.len() - i,
    {
        let (stat, typ, amount) = stats[i];
        r.push(Mod::stat(stat, typ, amount));
        i = i + 1;
    }
    r
}

} // verus!
