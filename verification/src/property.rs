use vstd::prelude::*;
use crate::stat_id::StatId;

verus! {

/// An integer property the player sets on the build.
#[derive(Debug, Clone, Copy, PartialEq, Eq, Structural, Hash)]
pub enum Int {
    Level,
    PowerCharges,
    FrenzyCharges,
    EnduranceCharges,
    Rage,
}

/// A bound of an integer property: a number, or the value of a stat.
#[derive(Debug, Clone, Copy, PartialEq, Eq, Structural)]
pub enum Val {
    Val(i64),
    Stat(StatId),
}

/// The range an integer property may take.
#[derive(Debug, Clone, Copy, PartialEq, Eq, Structural)]
pub struct IntData {
    pub min: Val,
    pub max: Val,
}

/// A boolean property the player sets on the build.
#[derive(Debug, Clone, Copy, PartialEq, Eq, Structural, Hash)]
pub enum Bool {
    Blinded,
    Onslaught,
    Fortified,
    DealtCritRecently,
    Leeching,
    OnFullLife,
    OnLowLife,
}

pub open spec fn spec_int_data(p: Int) -> IntData {
    match p {
        Int::Level => IntData { min: Val::Val(1), max: Val::Val(100) },
        Int::FrenzyCharges => IntData {
            min: Val::Stat(StatId::MinimumFrenzyCharges),
            max: Val::Stat(StatId::MaximumFrenzyCharges),
        },
        Int::PowerCharges => IntData {
            min: Val::Stat(StatId::MinimumPowerCharges),
            max: Val::Stat(StatId::MaximumPowerCharges),
        },
        Int::EnduranceCharges => IntData {
            min: Val::Stat(StatId::MinimumEnduranceCharges),
            max: Val::Stat(StatId::MaximumEnduranceCharges),
        },
        Int::Rage => IntData { min: Val::Stat(StatId::MinimumRage), max: Val::Stat(StatId::MaximumRage) },
    }
}

/// The range of the integer property `p`.
pub fn int_data(p: Int) -> (r: IntData)
    ensures
        r == spec_int_data(p),
{
    match p {
        Int::Level => IntData { min: Val::Val(1), max: Val::Val(100) },
        Int::FrenzyCharges => IntData {
            min: Val::Stat(StatId::MinimumFrenzyCharges),
            max: Val::Stat(StatId::MaximumFrenzyCharges),
        },
        Int::PowerCharges => IntData {
            min: Val::Stat(StatId::MinimumPowerCharges),
            max: Val::Stat(StatId::MaximumPowerCharges),
        },
        Int::EnduranceCharges => IntData {
            min: Val::Stat(StatId::MinimumEnduranceCharges),
            max: Val::Stat(StatId::MaximumEnduranceCharges),
        },
        Int::Rage => IntData { min: Val::Stat(StatId::MinimumRage), max: Val::Stat(StatId::MaximumRage) },
    }
}

} // verus!
