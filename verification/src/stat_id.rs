use vstd::prelude::*;

verus! {

/// Every stat the calculator knows of.
#[derive(Debug, Clone, Copy, PartialEq, Eq, Structural, Hash)]
pub enum StatId {
    Strength,
    Dexterity,
    Intelligence,
    Attributes,
    ActionSpeed,
    AttackSpeed,
    CastSpeed,
    WarcrySpeed,
    CooldownRecoverySpeed,
    ProjectileSpeed,
    TrapThrowingSpeed,
    MaximumChanceToBlockAttackDamage,
    MaximumChanceToBlockSpellDamage,
    ChanceToBlockAttackDamage,
    ChanceToBlockSpellDamage,
    ChanceToSuppressSpellDamage,
    FireDotMultiplier,
    ColdDotMultiplier,
    ChaosDotMultiplier,
    PhysicalDotMultiplier,
    DotMultiplier,
    FireDamageOverTime,
    ColdDamageOverTime,
    ChaosDamageOverTime,
    PhysicalDamageOverTime,
    DamageOverTime,
    BaseMinFireDamage,
    BaseMaxFireDamage,
    AddedMinFireDamage,
    AddedMaxFireDamage,
    MinFireDamage,
    MaxFireDamage,
    FireDamage,
    BaseMinColdDamage,
    BaseMaxColdDamage,
    AddedMinColdDamage,
    AddedMaxColdDamage,
    MinColdDamage,
    MaxColdDamage,
    ColdDamage,
    BaseMinLightningDamage,
    BaseMaxLightningDamage,
    AddedMinLightningDamage,
    AddedMaxLightningDamage,
    MinLightningDamage,
    MaxLightningDamage,
    LightningDamage,
    BaseMinChaosDamage,
    BaseMaxChaosDamage,
    AddedMinChaosDamage,
    AddedMaxChaosDamage,
    MinChaosDamage,
    MaxChaosDamage,
    ChaosDamage,
    BaseMinPhysicalDamage,
    BaseMaxPhysicalDamage,
    AddedMinPhysicalDamage,
    AddedMaxPhysicalDamage,
    MinPhysicalDamage,
    MaxPhysicalDamage,
    MinDamage,
    MaxDamage,
    PhysicalDamage,
    Damage,
    SpellDamage,
    AreaOfEffect,
    AccuracyRating,
    MovementSpeed,
    SkillEffectDuration,
    Duration,
    ImpaleEffect,
    MinimumFrenzyCharges,
    MinimumPowerCharges,
    MinimumEnduranceCharges,
    MaximumFrenzyCharges,
    MaximumPowerCharges,
    MaximumEnduranceCharges,
    MaximumLife,
    MaximumMana,
    MinimumRage,
    MaximumRage,
    MaximumEnergyShield,
    EnergyShieldRechargeRate,
    LifeRegeneration,
    LifeRegenerationPct,
    LifeRegenerationRate,
    ManaRegeneration,
    ManaRegenerationPct,
    ManaRegenerationRate,
    ManaReservationEfficiency,
    CriticalStrikeChance,
    CriticalStrikeMultiplier,
    Armour,
    EvasionRating,
    StunThreshold,
    ChanceToAvoidBeingStunned,
    MaximumFireResistance,
    MaximumColdResistance,
    MaximumLightningResistance,
    MaximumChaosResistance,
    FireResistance,
    ColdResistance,
    LightningResistance,
    ChaosResistance,
    FlaskChargesGained,
    FlaskEffectDuration,
    FlaskRecoveryRate,
    FlaskChargesUsed,
    ManaCost,
    LifeCost,
    Cost,
    PassiveSkillPoints,
    FireDamagePen,
    LightningDamagePen,
    ChaosDamagePen,
    ColdDamagePen,
    ChanceToHit,
    ChanceToEvade,
    ChanceToDealDoubleDamage,
    PhysicalDamageReduction,
    ShockAsThoughDamage,
    AddedAttackTime,
    AllocatesPassiveSkills,
    AddedPassiveSkillsGrantNode,
    AddedPassivesAreJewelSockets,
    AbyssalSockets,
    MaximumFortification,
    ChanceToPoison,
    ChanceToBleed,
    ChanceToShock,
    ChanceToIgnite,
    ChanceToFreeze,
    PoisonDuration,
    AuraEffect,
    SmallPassiveIncreasedEffect,
    PhysicalToLightningConversion,
    PhysicalToColdConversion,
    PhysicalToFireConversion,
    PhysicalToChaosConversion,
    LightningToColdConversion,
    LightningToFireConversion,
    LightningToChaosConversion,
    ColdToFireConversion,
    ColdToChaosConversion,
    FireToChaosConversion,
    FasterIgnite,
    ItemEffectDistanceClass,
    Effect,
    FlaskEffect,
    PhysicalAsFireExtra,
    PhysicalAsColdExtra,
    PhysicalAsLightningExtra,
    PhysicalAsChaosExtra,
    LightningAsColdExtra,
    LightningAsFireExtra,
    LightningAsChaosExtra,
    ColdAsFireExtra,
    ColdAsChaosExtra,
    FireAsChaosExtra,
    BuffEffect,
    ChanceToDealTripleDamage,
    ChanceToImpale,
    CorruptedMagicJewelEffect,
    CurseEffect,
    DamageTaken,
    ElementalResistances,
    MaxElementalResistances,
    MaxImpaleStacks,
    RingSlots,
}

/// The number of stats.
pub const STAT_COUNT: usize = 169;

impl StatId {
    /// The position of the stat in the declaration order.
    pub open spec fn index(self) -> nat {
        match self {
            StatId::Strength => 0,
            StatId::Dexterity => 1,
            StatId::Intelligence => 2,
            StatId::Attributes => 3,
            StatId::ActionSpeed => 4,
            StatId::AttackSpeed => 5,
            StatId::CastSpeed => 6,
            StatId::WarcrySpeed => 7,
            StatId::CooldownRecoverySpeed => 8,
            StatId::ProjectileSpeed => 9,
            StatId::TrapThrowingSpeed => 10,
            StatId::MaximumChanceToBlockAttackDamage => 11,
            StatId::MaximumChanceToBlockSpellDamage => 12,
            StatId::ChanceToBlockAttackDamage => 13,
            StatId::ChanceToBlockSpellDamage => 14,
            StatId::ChanceToSuppressSpellDamage => 15,
            StatId::FireDotMultiplier => 16,
            StatId::ColdDotMultiplier => 17,
            StatId::ChaosDotMultiplier => 18,
            StatId::PhysicalDotMultiplier => 19,
            StatId::DotMultiplier => 20,
            StatId::FireDamageOverTime => 21,
            StatId::ColdDamageOverTime => 22,
            StatId::ChaosDamageOverTime => 23,
            StatId::PhysicalDamageOverTime => 24,
            StatId::DamageOverTime => 25,
            StatId::BaseMinFireDamage => 26,
            StatId::BaseMaxFireDamage => 27,
            StatId::AddedMinFireDamage => 28,
            StatId::AddedMaxFireDamage => 29,
            StatId::MinFireDamage => 30,
            StatId::MaxFireDamage => 31,
            StatId::FireDamage => 32,
            StatId::BaseMinColdDamage => 33,
            StatId::BaseMaxColdDamage => 34,
            StatId::AddedMinColdDamage => 35,
            StatId::AddedMaxColdDamage => 36,
            StatId::MinColdDamage => 37,
            StatId::MaxColdDamage => 38,
            StatId::ColdDamage => 39,
            StatId::BaseMinLightningDamage => 40,
            StatId::BaseMaxLightningDamage => 41,
            StatId::AddedMinLightningDamage => 42,
            StatId::AddedMaxLightningDamage => 43,
            StatId::MinLightningDamage => 44,
            StatId::MaxLightningDamage => 45,
            StatId::LightningDamage => 46,
            StatId::BaseMinChaosDamage => 47,
            StatId::BaseMaxChaosDamage => 48,
            StatId::AddedMinChaosDamage => 49,
            StatId::AddedMaxChaosDamage => 50,
            StatId::MinChaosDamage => 51,
            StatId::MaxChaosDamage => 52,
            StatId::ChaosDamage => 53,
            StatId::BaseMinPhysicalDamage => 54,
            StatId::BaseMaxPhysicalDamage => 55,
            StatId::AddedMinPhysicalDamage => 56,
            StatId::AddedMaxPhysicalDamage => 57,
            StatId::MinPhysicalDamage => 58,
            StatId::MaxPhysicalDamage => 59,
            StatId::MinDamage => 60,
            StatId::MaxDamage => 61,
            StatId::PhysicalDamage => 62,
            StatId::Damage => 63,
            StatId::SpellDamage => 64,
            StatId::AreaOfEffect => 65,
            StatId::AccuracyRating => 66,
            StatId::MovementSpeed => 67,
            StatId::SkillEffectDuration => 68,
            StatId::Duration => 69,
            StatId::ImpaleEffect => 70,
            StatId::MinimumFrenzyCharges => 71,
            StatId::MinimumPowerCharges => 72,
            StatId::MinimumEnduranceCharges => 73,
            StatId::MaximumFrenzyCharges => 74,
            StatId::MaximumPowerCharges => 75,
            StatId::MaximumEnduranceCharges => 76,
            StatId::MaximumLife => 77,
            StatId::MaximumMana => 78,
            StatId::MinimumRage => 79,
            StatId::MaximumRage => 80,
            StatId::MaximumEnergyShield => 81,
            StatId::EnergyShieldRechargeRate => 82,
            StatId::LifeRegeneration => 83,
            StatId::LifeRegenerationPct => 84,
            StatId::LifeRegenerationRate => 85,
            StatId::ManaRegeneration => 86,
            StatId::ManaRegenerationPct => 87,
            StatId::ManaRegenerationRate => 88,
            StatId::ManaReservationEfficiency => 89,
            StatId::CriticalStrikeChance => 90,
            StatId::CriticalStrikeMultiplier => 91,
            StatId::Armour => 92,
            StatId::EvasionRating => 93,
            StatId::StunThreshold => 94,
            StatId::ChanceToAvoidBeingStunned => 95,
            StatId::MaximumFireResistance => 96,
            StatId::MaximumColdResistance => 97,
            StatId::MaximumLightningResistance => 98,
            StatId::MaximumChaosResistance => 99,
            StatId::FireResistance => 100,
            StatId::ColdResistance => 101,
            StatId::LightningResistance => 102,
            StatId::ChaosResistance => 103,
            StatId::FlaskChargesGained => 104,
            StatId::FlaskEffectDuration => 105,
            StatId::FlaskRecoveryRate => 106,
            StatId::FlaskChargesUsed => 107,
            StatId::ManaCost => 108,
            StatId::LifeCost => 109,
            StatId::Cost => 110,
            StatId::PassiveSkillPoints => 111,
            StatId::FireDamagePen => 112,
            StatId::LightningDamagePen => 113,
            StatId::ChaosDamagePen => 114,
            StatId::ColdDamagePen => 115,
            StatId::ChanceToHit => 116,
            StatId::ChanceToEvade => 117,
            StatId::ChanceToDealDoubleDamage => 118,
            StatId::PhysicalDamageReduction => 119,
            StatId::ShockAsThoughDamage => 120,
            StatId::AddedAttackTime => 121,
            StatId::AllocatesPassiveSkills => 122,
            StatId::AddedPassiveSkillsGrantNode => 123,
            StatId::AddedPassivesAreJewelSockets => 124,
            StatId::AbyssalSockets => 125,
            StatId::MaximumFortification => 126,
            StatId::ChanceToPoison => 127,
            StatId::ChanceToBleed => 128,
            StatId::ChanceToShock => 129,
            StatId::ChanceToIgnite => 130,
            StatId::ChanceToFreeze => 131,
            StatId::PoisonDuration => 132,
            StatId::AuraEffect => 133,
            StatId::SmallPassiveIncreasedEffect => 134,
            StatId::PhysicalToLightningConversion => 135,
            StatId::PhysicalToColdConversion => 136,
            StatId::PhysicalToFireConversion => 137,
            StatId::PhysicalToChaosConversion => 138,
            StatId::LightningToColdConversion => 139,
            StatId::LightningToFireConversion => 140,
            StatId::LightningToChaosConversion => 141,
            StatId::ColdToFireConversion => 142,
            StatId::ColdToChaosConversion => 143,
            StatId::FireToChaosConversion => 144,
            StatId::FasterIgnite => 145,
            StatId::ItemEffectDistanceClass => 146,
            StatId::Effect => 147,
            StatId::FlaskEffect => 148,
            StatId::PhysicalAsFireExtra => 149,
            StatId::PhysicalAsColdExtra => 150,
            StatId::PhysicalAsLightningExtra => 151,
            StatId::PhysicalAsChaosExtra => 152,
            StatId::LightningAsColdExtra => 153,
            StatId::LightningAsFireExtra => 154,
            StatId::LightningAsChaosExtra => 155,
            StatId::ColdAsFireExtra => 156,
            StatId::ColdAsChaosExtra => 157,
            StatId::FireAsChaosExtra => 158,
            StatId::BuffEffect => 159,
            StatId::ChanceToDealTripleDamage => 160,
            StatId::ChanceToImpale => 161,
            StatId::CorruptedMagicJewelEffect => 162,
            StatId::CurseEffect => 163,
            StatId::DamageTaken => 164,
            StatId::ElementalResistances => 165,
            StatId::MaxElementalResistances => 166,
            StatId::MaxImpaleStacks => 167,
            StatId::RingSlots => 168,
        }
    }

    pub fn as_usize(self) -> (r: usize)
        ensures
            r == self.index(),
            r < STAT_COUNT,
    {
        match self {
            StatId::Strength => 0,
            StatId::Dexterity => 1,
            StatId::Intelligence => 2,
            StatId::Attributes => 3,
            StatId::ActionSpeed => 4,
            StatId::AttackSpeed => 5,
            StatId::CastSpeed => 6,
            StatId::WarcrySpeed => 7,
            StatId::CooldownRecoverySpeed => 8,
            StatId::ProjectileSpeed => 9,
            StatId::TrapThrowingSpeed => 10,
            StatId::MaximumChanceToBlockAttackDamage => 11,
            StatId::MaximumChanceToBlockSpellDamage => 12,
            StatId::ChanceToBlockAttackDamage => 13,
            StatId::ChanceToBlockSpellDamage => 14,
            StatId::ChanceToSuppressSpellDamage => 15,
            StatId::FireDotMultiplier => 16,
            StatId::ColdDotMultiplier => 17,
            StatId::ChaosDotMultiplier => 18,
            StatId::PhysicalDotMultiplier => 19,
            StatId::DotMultiplier => 20,
            StatId::FireDamageOverTime => 21,
            StatId::ColdDamageOverTime => 22,
            StatId::ChaosDamageOverTime => 23,
            StatId::PhysicalDamageOverTime => 24,
            StatId::DamageOverTime => 25,
            StatId::BaseMinFireDamage => 26,
            StatId::BaseMaxFireDamage => 27,
            StatId::AddedMinFireDamage => 28,
            StatId::AddedMaxFireDamage => 29,
            StatId::MinFireDamage => 30,
            StatId::MaxFireDamage => 31,
            StatId::FireDamage => 32,
            StatId::BaseMinColdDamage => 33,
            StatId::BaseMaxColdDamage => 34,
            StatId::AddedMinColdDamage => 35,
            StatId::AddedMaxColdDamage => 36,
            StatId::MinColdDamage => 37,
            StatId::MaxColdDamage => 38,
            StatId::ColdDamage => 39,
            StatId::BaseMinLightningDamage => 40,
            StatId::BaseMaxLightningDamage => 41,
            StatId::AddedMinLightningDamage => 42,
            StatId::AddedMaxLightningDamage => 43,
            StatId::MinLightningDamage => 44,
            StatId::MaxLightningDamage => 45,
            StatId::LightningDamage => 46,
            StatId::BaseMinChaosDamage => 47,
            StatId::BaseMaxChaosDamage => 48,
            StatId::AddedMinChaosDamage => 49,
            StatId::AddedMaxChaosDamage => 50,
            StatId::MinChaosDamage => 51,
            StatId::MaxChaosDamage => 52,
            StatId::ChaosDamage => 53,
            StatId::BaseMinPhysicalDamage => 54,
            StatId::BaseMaxPhysicalDamage => 55,
            StatId::AddedMinPhysicalDamage => 56,
            StatId::AddedMaxPhysicalDamage => 57,
            StatId::MinPhysicalDamage => 58,
            StatId::MaxPhysicalDamage => 59,
            StatId::MinDamage => 60,
            StatId::MaxDamage => 61,
            StatId::PhysicalDamage => 62,
            StatId::Damage => 63,
            StatId::SpellDamage => 64,
            StatId::AreaOfEffect => 65,
            StatId::AccuracyRating => 66,
            StatId::MovementSpeed => 67,
            StatId::SkillEffectDuration => 68,
            StatId::Duration => 69,
            StatId::ImpaleEffect => 70,
            StatId::MinimumFrenzyCharges => 71,
            StatId::MinimumPowerCharges => 72,
            StatId::MinimumEnduranceCharges => 73,
            StatId::MaximumFrenzyCharges => 74,
            StatId::MaximumPowerCharges => 75,
            StatId::MaximumEnduranceCharges => 76,
            StatId::MaximumLife => 77,
            StatId::MaximumMana => 78,
            StatId::MinimumRage => 79,
            StatId::MaximumRage => 80,
            StatId::MaximumEnergyShield => 81,
            StatId::EnergyShieldRechargeRate => 82,
            StatId::LifeRegeneration => 83,
            StatId::LifeRegenerationPct => 84,
            StatId::LifeRegenerationRate => 85,
            StatId::ManaRegeneration => 86,
            StatId::ManaRegenerationPct => 87,
            StatId::ManaRegenerationRate => 88,
            StatId::ManaReservationEfficiency => 89,
            StatId::CriticalStrikeChance => 90,
            StatId::CriticalStrikeMultiplier => 91,
            StatId::Armour => 92,
            StatId::EvasionRating => 93,
            StatId::StunThreshold => 94,
            StatId::ChanceToAvoidBeingStunned => 95,
            StatId::MaximumFireResistance => 96,
            StatId::MaximumColdResistance => 97,
            StatId::MaximumLightningResistance => 98,
            StatId::MaximumChaosResistance => 99,
            StatId::FireResistance => 100,
            StatId::ColdResistance => 101,
            StatId::LightningResistance => 102,
            StatId::ChaosResistance => 103,
            StatId::FlaskChargesGained => 104,
            StatId::FlaskEffectDuration => 105,
            StatId::FlaskRecoveryRate => 106,
            StatId::FlaskChargesUsed => 107,
            StatId::ManaCost => 108,
            StatId::LifeCost => 109,
            StatId::Cost => 110,
            StatId::PassiveSkillPoints => 111,
            StatId::FireDamagePen => 112,
            StatId::LightningDamagePen => 113,
            StatId::ChaosDamagePen => 114,
            StatId::ColdDamagePen => 115,
            StatId::ChanceToHit => 116,
            StatId::ChanceToEvade => 117,
            StatId::ChanceToDealDoubleDamage => 118,
            StatId::PhysicalDamageReduction => 119,
            StatId::ShockAsThoughDamage => 120,
            StatId::AddedAttackTime => 121,
            StatId::AllocatesPassiveSkills => 122,
            StatId::AddedPassiveSkillsGrantNode => 123,
            StatId::AddedPassivesAreJewelSockets => 124,
            StatId::AbyssalSockets => 125,
            StatId::MaximumFortification => 126,
            StatId::ChanceToPoison => 127,
            StatId::ChanceToBleed => 128,
            StatId::ChanceToShock => 129,
            StatId::ChanceToIgnite => 130,
            StatId::ChanceToFreeze => 131,
            StatId::PoisonDuration => 132,
            StatId::AuraEffect => 133,
            StatId::SmallPassiveIncreasedEffect => 134,
            StatId::PhysicalToLightningConversion => 135,
            StatId::PhysicalToColdConversion => 136,
            StatId::PhysicalToFireConversion => 137,
            StatId::PhysicalToChaosConversion => 138,
            StatId::LightningToColdConversion => 139,
            StatId::LightningToFireConversion => 140,
            StatId::LightningToChaosConversion => 141,
            StatId::ColdToFireConversion => 142,
            StatId::ColdToChaosConversion => 143,
            StatId::FireToChaosConversion => 144,
            StatId::FasterIgnite => 145,
            StatId::ItemEffectDistanceClass => 146,
            StatId::Effect => 147,
            StatId::FlaskEffect => 148,
            StatId::PhysicalAsFireExtra => 149,
            StatId::PhysicalAsColdExtra => 150,
            StatId::PhysicalAsLightningExtra => 151,
            StatId::PhysicalAsChaosExtra => 152,
            StatId::LightningAsColdExtra => 153,
            StatId::LightningAsFireExtra => 154,
            StatId::LightningAsChaosExtra => 155,
            StatId::ColdAsFireExtra => 156,
            StatId::ColdAsChaosExtra => 157,
            StatId::FireAsChaosExtra => 158,
            StatId::BuffEffect => 159,
            StatId::ChanceToDealTripleDamage => 160,
            StatId::ChanceToImpale => 161,
            StatId::CorruptedMagicJewelEffect => 162,
            StatId::CurseEffect => 163,
            StatId::DamageTaken => 164,
            StatId::ElementalResistances => 165,
            StatId::MaxElementalResistances => 166,
            StatId::MaxImpaleStacks => 167,
            StatId::RingSlots => 168,
        }
    }

    /// The stat at position `i`, if there is one.
    pub fn from_index(i: usize) -> (r: Option<StatId>)
        ensures
            i < STAT_COUNT ==> r == Some(stat_at(i as int)),
            i >= STAT_COUNT ==> r is None,
    {
        match i {
            0 => Some(StatId::Strength),
            1 => Some(StatId::Dexterity),
            2 => Some(StatId::Intelligence),
            3 => Some(StatId::Attributes),
            4 => Some(StatId::ActionSpeed),
            5 => Some(StatId::AttackSpeed),
            6 => Some(StatId::CastSpeed),
            7 => Some(StatId::WarcrySpeed),
            8 => Some(StatId::CooldownRecoverySpeed),
            9 => Some(StatId::ProjectileSpeed),
            10 => Some(StatId::TrapThrowingSpeed),
            11 => Some(StatId::MaximumChanceToBlockAttackDamage),
            12 => Some(StatId::MaximumChanceToBlockSpellDamage),
            13 => Some(StatId::ChanceToBlockAttackDamage),
            14 => Some(StatId::ChanceToBlockSpellDamage),
            15 => Some(StatId::ChanceToSuppressSpellDamage),
            16 => Some(StatId::FireDotMultiplier),
            17 => Some(StatId::ColdDotMultiplier),
            18 => Some(StatId::ChaosDotMultiplier),
            19 => Some(StatId::PhysicalDotMultiplier),
            20 => Some(StatId::DotMultiplier),
            21 => Some(StatId::FireDamageOverTime),
            22 => Some(StatId::ColdDamageOverTime),
            23 => Some(StatId::ChaosDamageOverTime),
            24 => Some(StatId::PhysicalDamageOverTime),
            25 => Some(StatId::DamageOverTime),
            26 => Some(StatId::BaseMinFireDamage),
            27 => Some(StatId::BaseMaxFireDamage),
            28 => Some(StatId::AddedMinFireDamage),
            29 => Some(StatId::AddedMaxFireDamage),
            30 => Some(StatId::MinFireDamage),
            31 => Some(StatId::MaxFireDamage),
            32 => Some(StatId::FireDamage),
            33 => Some(StatId::BaseMinColdDamage),
            34 => Some(StatId::BaseMaxColdDamage),
            35 => Some(StatId::AddedMinColdDamage),
            36 => Some(StatId::AddedMaxColdDamage),
            37 => Some(StatId::MinColdDamage),
            38 => Some(StatId::MaxColdDamage),
            39 => Some(StatId::ColdDamage),
            40 => Some(StatId::BaseMinLightningDamage),
            41 => Some(StatId::BaseMaxLightningDamage),
            42 => Some(StatId::AddedMinLightningDamage),
            43 => Some(StatId::AddedMaxLightningDamage),
            44 => Some(StatId::MinLightningDamage),
            45 => Some(StatId::MaxLightningDamage),
            46 => Some(StatId::LightningDamage),
            47 => Some(StatId::BaseMinChaosDamage),
            48 => Some(StatId::BaseMaxChaosDamage),
            49 => Some(StatId::AddedMinChaosDamage),
            50 => Some(StatId::AddedMaxChaosDamage),
            51 => Some(StatId::MinChaosDamage),
            52 => Some(StatId::MaxChaosDamage),
            53 => Some(StatId::ChaosDamage),
            54 => Some(StatId::BaseMinPhysicalDamage),
            55 => Some(StatId::BaseMaxPhysicalDamage),
            56 => Some(StatId::AddedMinPhysicalDamage),
            57 => Some(StatId::AddedMaxPhysicalDamage),
            58 => Some(StatId::MinPhysicalDamage),
            59 => Some(StatId::MaxPhysicalDamage),
            60 => Some(StatId::MinDamage),
            61 => Some(StatId::MaxDamage),
            62 => Some(StatId::PhysicalDamage),
            63 => Some(StatId::Damage),
            64 => Some(StatId::SpellDamage),
            65 => Some(StatId::AreaOfEffect),
            66 => Some(StatId::AccuracyRating),
            67 => Some(StatId::MovementSpeed),
            68 => Some(StatId::SkillEffectDuration),
            69 => Some(StatId::Duration),
            70 => Some(StatId::ImpaleEffect),
            71 => Some(StatId::MinimumFrenzyCharges),
            72 => Some(StatId::MinimumPowerCharges),
            73 => Some(StatId::MinimumEnduranceCharges),
            74 => Some(StatId::MaximumFrenzyCharges),
            75 => Some(StatId::MaximumPowerCharges),
            76 => Some(StatId::MaximumEnduranceCharges),
            77 => Some(StatId::MaximumLife),
            78 => Some(StatId::MaximumMana),
            79 => Some(StatId::MinimumRage),
            80 => Some(StatId::MaximumRage),
            81 => Some(StatId::MaximumEnergyShield),
            82 => Some(StatId::EnergyShieldRechargeRate),
            83 => Some(StatId::LifeRegeneration),
            84 => Some(StatId::LifeRegenerationPct),
            85 => Some(StatId::LifeRegenerationRate),
            86 => Some(StatId::ManaRegeneration),
            87 => Some(StatId::ManaRegenerationPct),
            88 => Some(StatId::ManaRegenerationRate),
            89 => Some(StatId::ManaReservationEfficiency),
            90 => Some(StatId::CriticalStrikeChance),
            91 => Some(StatId::CriticalStrikeMultiplier),
            92 => Some(StatId::Armour),
            93 => Some(StatId::EvasionRating),
            94 => Some(StatId::StunThreshold),
            95 => Some(StatId::ChanceToAvoidBeingStunned),
            96 => Some(StatId::MaximumFireResistance),
            97 => Some(StatId::MaximumColdResistance),
            98 => Some(StatId::MaximumLightningResistance),
            99 => Some(StatId::MaximumChaosResistance),
            100 => Some(StatId::FireResistance),
            101 => Some(StatId::ColdResistance),
            102 => Some(StatId::LightningResistance),
            103 => Some(StatId::ChaosResistance),
            104 => Some(StatId::FlaskChargesGained),
            105 => Some(StatId::FlaskEffectDuration),
            106 => Some(StatId::FlaskRecoveryRate),
            107 => Some(StatId::FlaskChargesUsed),
            108 => Some(StatId::ManaCost),
            109 => Some(StatId::LifeCost),
            110 => Some(StatId::Cost),
            111 => Some(StatId::PassiveSkillPoints),
            112 => Some(StatId::FireDamagePen),
            113 => Some(StatId::LightningDamagePen),
            114 => Some(StatId::ChaosDamagePen),
            115 => Some(StatId::ColdDamagePen),
            116 => Some(StatId::ChanceToHit),
            117 => Some(StatId::ChanceToEvade),
            118 => Some(StatId::ChanceToDealDoubleDamage),
            119 => Some(StatId::PhysicalDamageReduction),
            120 => Some(StatId::ShockAsThoughDamage),
            121 => Some(StatId::AddedAttackTime),
            122 => Some(StatId::AllocatesPassiveSkills),
            123 => Some(StatId::AddedPassiveSkillsGrantNode),
            124 => Some(StatId::AddedPassivesAreJewelSockets),
            125 => Some(StatId::AbyssalSockets),
            126 => Some(StatId::MaximumFortification),
            127 => Some(StatId::ChanceToPoison),
            128 => Some(StatId::ChanceToBleed),
            129 => Some(StatId::ChanceToShock),
            130 => Some(StatId::ChanceToIgnite),
            131 => Some(StatId::ChanceToFreeze),
            132 => Some(StatId::PoisonDuration),
            133 => Some(StatId::AuraEffect),
            134 => Some(StatId::SmallPassiveIncreasedEffect),
            135 => Some(StatId::PhysicalToLightningConversion),
            136 => Some(StatId::PhysicalToColdConversion),
            137 => Some(StatId::PhysicalToFireConversion),
            138 => Some(StatId::PhysicalToChaosConversion),
            139 => Some(StatId::LightningToColdConversion),
            140 => Some(StatId::LightningToFireConversion),
            141 => Some(StatId::LightningToChaosConversion),
            142 => Some(StatId::ColdToFireConversion),
            143 => Some(StatId::ColdToChaosConversion),
            144 => Some(StatId::FireToChaosConversion),
            145 => Some(StatId::FasterIgnite),
            146 => Some(StatId::ItemEffectDistanceClass),
            147 => Some(StatId::Effect),
            148 => Some(StatId::FlaskEffect),
            149 => Some(StatId::PhysicalAsFireExtra),
            150 => Some(StatId::PhysicalAsColdExtra),
            151 => Some(StatId::PhysicalAsLightningExtra),
            152 => Some(StatId::PhysicalAsChaosExtra),
            153 => Some(StatId::LightningAsColdExtra),
            154 => Some(StatId::LightningAsFireExtra),
            155 => Some(StatId::LightningAsChaosExtra),
            156 => Some(StatId::ColdAsFireExtra),
            157 => Some(StatId::ColdAsChaosExtra),
            158 => Some(StatId::FireAsChaosExtra),
            159 => Some(StatId::BuffEffect),
            160 => Some(StatId::ChanceToDealTripleDamage),
            161 => Some(StatId::ChanceToImpale),
            162 => Some(StatId::CorruptedMagicJewelEffect),
            163 => Some(StatId::CurseEffect),
            164 => Some(StatId::DamageTaken),
            165 => Some(StatId::ElementalResistances),
            166 => Some(StatId::MaxElementalResistances),
            167 => Some(StatId::MaxImpaleStacks),
            168 => Some(StatId::RingSlots),
            _ => None,
        }
    }
}

/// The stat at position `i` (the first one when `i` is out of range).
pub open spec fn stat_at(i: int) -> StatId {
    if i == 0 { StatId::Strength } else
    if i == 1 { StatId::Dexterity } else
    if i == 2 { StatId::Intelligence } else
    if i == 3 { StatId::Attributes } else
    if i == 4 { StatId::ActionSpeed } else
    if i == 5 { StatId::AttackSpeed } else
    if i == 6 { StatId::CastSpeed } else
    if i == 7 { StatId::WarcrySpeed } else
    if i == 8 { StatId::CooldownRecoverySpeed } else
    if i == 9 { StatId::ProjectileSpeed } else
    if i == 10 { StatId::TrapThrowingSpeed } else
    if i == 11 { StatId::MaximumChanceToBlockAttackDamage } else
    if i == 12 { StatId::MaximumChanceToBlockSpellDamage } else
    if i == 13 { StatId::ChanceToBlockAttackDamage } else
    if i == 14 { StatId::ChanceToBlockSpellDamage } else
    if i == 15 { StatId::ChanceToSuppressSpellDamage } else
    if i == 16 { StatId::FireDotMultiplier } else
    if i == 17 { StatId::ColdDotMultiplier } else
    if i == 18 { StatId::ChaosDotMultiplier } else
    if i == 19 { StatId::PhysicalDotMultiplier } else
    if i == 20 { StatId::DotMultiplier } else
    if i == 21 { StatId::FireDamageOverTime } else
    if i == 22 { StatId::ColdDamageOverTime } else
    if i == 23 { StatId::ChaosDamageOverTime } else
    if i == 24 { StatId::PhysicalDamageOverTime } else
    if i == 25 { StatId::DamageOverTime } else
    if i == 26 { StatId::BaseMinFireDamage } else
    if i == 27 { StatId::BaseMaxFireDamage } else
    if i == 28 { StatId::AddedMinFireDamage } else
    if i == 29 { StatId::AddedMaxFireDamage } else
    if i == 30 { StatId::MinFireDamage } else
    if i == 31 { StatId::MaxFireDamage } else
    if i == 32 { StatId::FireDamage } else
    if i == 33 { StatId::BaseMinColdDamage } else
    if i == 34 { StatId::BaseMaxColdDamage } else
    if i == 35 { StatId::AddedMinColdDamage } else
    if i == 36 { StatId::AddedMaxColdDamage } else
    if i == 37 { StatId::MinColdDamage } else
    if i == 38 { StatId::MaxColdDamage } else
    if i == 39 { StatId::ColdDamage } else
    if i == 40 { StatId::BaseMinLightningDamage } else
    if i == 41 { StatId::BaseMaxLightningDamage } else
    if i == 42 { StatId::AddedMinLightningDamage } else
    if i == 43 { StatId::AddedMaxLightningDamage } else
    if i == 44 { StatId::MinLightningDamage } else
    if i == 45 { StatId::MaxLightningDamage } else
    if i == 46 { StatId::LightningDamage } else
    if i == 47 { StatId::BaseMinChaosDamage } else
    if i == 48 { StatId::BaseMaxChaosDamage } else
    if i == 49 { StatId::AddedMinChaosDamage } else
    if i == 50 { StatId::AddedMaxChaosDamage } else
    if i == 51 { StatId::MinChaosDamage } else
    if i == 52 { StatId::MaxChaosDamage } else
    if i == 53 { StatId::ChaosDamage } else
    if i == 54 { StatId::BaseMinPhysicalDamage } else
    if i == 55 { StatId::BaseMaxPhysicalDamage } else
    if i == 56 { StatId::AddedMinPhysicalDamage } else
    if i == 57 { StatId::AddedMaxPhysicalDamage } else
    if i == 58 { StatId::MinPhysicalDamage } else
    if i == 59 { StatId::MaxPhysicalDamage } else
    if i == 60 { StatId::MinDamage } else
    if i == 61 { StatId::MaxDamage } else
    if i == 62 { StatId::PhysicalDamage } else
    if i == 63 { StatId::Damage } else
    if i == 64 { StatId::SpellDamage } else
    if i == 65 { StatId::AreaOfEffect } else
    if i == 66 { StatId::AccuracyRating } else
    if i == 67 { StatId::MovementSpeed } else
    if i == 68 { StatId::SkillEffectDuration } else
    if i == 69 { StatId::Duration } else
    if i == 70 { StatId::ImpaleEffect } else
    if i == 71 { StatId::MinimumFrenzyCharges } else
    if i == 72 { StatId::MinimumPowerCharges } else
    if i == 73 { StatId::MinimumEnduranceCharges } else
    if i == 74 { StatId::MaximumFrenzyCharges } else
    if i == 75 { StatId::MaximumPowerCharges } else
    if i == 76 { StatId::MaximumEnduranceCharges } else
    if i == 77 { StatId::MaximumLife } else
    if i == 78 { StatId::MaximumMana } else
    if i == 79 { StatId::MinimumRage } else
    if i == 80 { StatId::MaximumRage } else
    if i == 81 { StatId::MaximumEnergyShield } else
    if i == 82 { StatId::EnergyShieldRechargeRate } else
    if i == 83 { StatId::LifeRegeneration } else
    if i == 84 { StatId::LifeRegenerationPct } else
    if i == 85 { StatId::LifeRegenerationRate } else
    if i == 86 { StatId::ManaRegeneration } else
    if i == 87 { StatId::ManaRegenerationPct } else
    if i == 88 { StatId::ManaRegenerationRate } else
    if i == 89 { StatId::ManaReservationEfficiency } else
    if i == 90 { StatId::CriticalStrikeChance } else
    if i == 91 { StatId::CriticalStrikeMultiplier } else
    if i == 92 { StatId::Armour } else
    if i == 93 { StatId::EvasionRating } else
    if i == 94 { StatId::StunThreshold } else
    if i == 95 { StatId::ChanceToAvoidBeingStunned } else
    if i == 96 { StatId::MaximumFireResistance } else
    if i == 97 { StatId::MaximumColdResistance } else
    if i == 98 { StatId::MaximumLightningResistance } else
    if i == 99 { StatId::MaximumChaosResistance } else
    if i == 100 { StatId::FireResistance } else
    if i == 101 { StatId::ColdResistance } else
    if i == 102 { StatId::LightningResistance } else
    if i == 103 { StatId::ChaosResistance } else
    if i == 104 { StatId::FlaskChargesGained } else
    if i == 105 { StatId::FlaskEffectDuration } else
    if i == 106 { StatId::FlaskRecoveryRate } else
    if i == 107 { StatId::FlaskChargesUsed } else
    if i == 108 { StatId::ManaCost } else
    if i == 109 { StatId::LifeCost } else
    if i == 110 { StatId::Cost } else
    if i == 111 { StatId::PassiveSkillPoints } else
    if i == 112 { StatId::FireDamagePen } else
    if i == 113 { StatId::LightningDamagePen } else
    if i == 114 { StatId::ChaosDamagePen } else
    if i == 115 { StatId::ColdDamagePen } else
    if i == 116 { StatId::ChanceToHit } else
    if i == 117 { StatId::ChanceToEvade } else
    if i == 118 { StatId::ChanceToDealDoubleDamage } else
    if i == 119 { StatId::PhysicalDamageReduction } else
    if i == 120 { StatId::ShockAsThoughDamage } else
    if i == 121 { StatId::AddedAttackTime } else
    if i == 122 { StatId::AllocatesPassiveSkills } else
    if i == 123 { StatId::AddedPassiveSkillsGrantNode } else
    if i == 124 { StatId::AddedPassivesAreJewelSockets } else
    if i == 125 { StatId::AbyssalSockets } else
    if i == 126 { StatId::MaximumFortification } else
    if i == 127 { StatId::ChanceToPoison } else
    if i == 128 { StatId::ChanceToBleed } else
    if i == 129 { StatId::ChanceToShock } else
    if i == 130 { StatId::ChanceToIgnite } else
    if i == 131 { StatId::ChanceToFreeze } else
    if i == 132 { StatId::PoisonDuration } else
    if i == 133 { StatId::AuraEffect } else
    if i == 134 { StatId::SmallPassiveIncreasedEffect } else
    if i == 135 { StatId::PhysicalToLightningConversion } else
    if i == 136 { StatId::PhysicalToColdConversion } else
    if i == 137 { StatId::PhysicalToFireConversion } else
    if i == 138 { StatId::PhysicalToChaosConversion } else
    if i == 139 { StatId::LightningToColdConversion } else
    if i == 140 { StatId::LightningToFireConversion } else
    if i == 141 { StatId::LightningToChaosConversion } else
    if i == 142 { StatId::ColdToFireConversion } else
    if i == 143 { StatId::ColdToChaosConversion } else
    if i == 144 { StatId::FireToChaosConversion } else
    if i == 145 { StatId::FasterIgnite } else
    if i == 146 { StatId::ItemEffectDistanceClass } else
    if i == 147 { StatId::Effect } else
    if i == 148 { StatId::FlaskEffect } else
    if i == 149 { StatId::PhysicalAsFireExtra } else
    if i == 150 { StatId::PhysicalAsColdExtra } else
    if i == 151 { StatId::PhysicalAsLightningExtra } else
    if i == 152 { StatId::PhysicalAsChaosExtra } else
    if i == 153 { StatId::LightningAsColdExtra } else
    if i == 154 { StatId::LightningAsFireExtra } else
    if i == 155 { StatId::LightningAsChaosExtra } else
    if i == 156 { StatId::ColdAsFireExtra } else
    if i == 157 { StatId::ColdAsChaosExtra } else
    if i == 158 { StatId::FireAsChaosExtra } else
    if i == 159 { StatId::BuffEffect } else
    if i == 160 { StatId::ChanceToDealTripleDamage } else
    if i == 161 { StatId::ChanceToImpale } else
    if i == 162 { StatId::CorruptedMagicJewelEffect } else
    if i == 163 { StatId::CurseEffect } else
    if i == 164 { StatId::DamageTaken } else
    if i == 165 { StatId::ElementalResistances } else
    if i == 166 { StatId::MaxElementalResistances } else
    if i == 167 { StatId::MaxImpaleStacks } else
    if i == 168 { StatId::RingSlots } else { StatId::Strength }
}

/// Positions identify stats: the position of a stat leads back to it, and stays below the count.
pub proof fn law_index_roundtrip(s: StatId)
    ensures
        stat_at(s.index() as int) == s,
        s.index() < STAT_COUNT,
{
}

/// Two stats with the same position are the same stat.
pub proof fn law_index_injective(a: StatId, b: StatId)
    requires
        a.index() == b.index(),
    ensures
        a == b,
{
    law_index_roundtrip(a);
    law_index_roundtrip(b);
}

impl Default for StatId {
    fn default() -> (r: Self)
        ensures
            r == StatId::Strength,
    {
        StatId::Strength
    }
}

} // verus!
