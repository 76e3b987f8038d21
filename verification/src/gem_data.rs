use vstd::prelude::*;

verus! {

/// A tag of a skill gem.
#[allow(non_camel_case_types)]
#[derive(Debug, Clone, Copy, PartialEq, Eq, Structural, Hash)]
pub enum GemTag {
    Attack,
    Melee,
    Spell,
    Projectile,
    Fire,
    Cold,
    Lightning,
    Random_Element,
    Chaos,
    Physical,
    Minion,
    Golem,
    Duration,
    Area,
    Warcry,
    Trigger,
    Aura,
    Critical,
    Curse,
    Hex,
    Mark,
    Movement,
    Travel,
    Totem,
    Slam,
    Intelligence,
    Strength,
    Dexterity,
    Chaining,
    Guard,
    Arcane,
    Bow,
    Strike,
    Trap,
    Mine,
    Orb,
    Channelling,
    Stance,
    Low_Max_Level,
    Banner,
    Brand,
    Vaal,
    Nova,
    Link,
    Blink,
    Herald,
    Exceptional,
    Blessing,
    Active_Skill,
    Grants_Active_Skill,
    Awakened,
    Support,
    Retaliation,
}

impl GemTag {
    /// The one-variant flag set of this variant: one bit, at the variant's position.
    pub open spec fn spec_bit(self) -> u64 {
        match self {
            GemTag::Attack => 0x1u64,
            GemTag::Melee => 0x2u64,
            GemTag::Spell => 0x4u64,
            GemTag::Projectile => 0x8u64,
            GemTag::Fire => 0x10u64,
            GemTag::Cold => 0x20u64,
            GemTag::Lightning => 0x40u64,
            GemTag::Random_Element => 0x80u64,
            GemTag::Chaos => 0x100u64,
            GemTag::Physical => 0x200u64,
            GemTag::Minion => 0x400u64,
            GemTag::Golem => 0x800u64,
            GemTag::Duration => 0x1000u64,
            GemTag::Area => 0x2000u64,
            GemTag::Warcry => 0x4000u64,
            GemTag::Trigger => 0x8000u64,
            GemTag::Aura => 0x10000u64,
            GemTag::Critical => 0x20000u64,
            GemTag::Curse => 0x40000u64,
            GemTag::Hex => 0x80000u64,
            GemTag::Mark => 0x100000u64,
            GemTag::Movement => 0x200000u64,
            GemTag::Travel => 0x400000u64,
            GemTag::Totem => 0x800000u64,
            GemTag::Slam => 0x1000000u64,
            GemTag::Intelligence => 0x2000000u64,
            GemTag::Strength => 0x4000000u64,
            GemTag::Dexterity => 0x8000000u64,
            GemTag::Chaining => 0x10000000u64,
            GemTag::Guard => 0x20000000u64,
            GemTag::Arcane => 0x40000000u64,
            GemTag::Bow => 0x80000000u64,
            GemTag::Strike => 0x100000000u64,
            GemTag::Trap => 0x200000000u64,
            GemTag::Mine => 0x400000000u64,
            GemTag::Orb => 0x800000000u64,
            GemTag::Channelling => 0x1000000000u64,
            GemTag::Stance => 0x2000000000u64,
            GemTag::Low_Max_Level => 0x4000000000u64,
            GemTag::Banner => 0x8000000000u64,
            GemTag::Brand => 0x10000000000u64,
            GemTag::Vaal => 0x20000000000u64,
            GemTag::Nova => 0x40000000000u64,
            GemTag::Link => 0x80000000000u64,
            GemTag::Blink => 0x100000000000u64,
            GemTag::Herald => 0x200000000000u64,
            GemTag::Exceptional => 0x400000000000u64,
            GemTag::Blessing => 0x800000000000u64,
            GemTag::Active_Skill => 0x1000000000000u64,
            GemTag::Grants_Active_Skill => 0x2000000000000u64,
            GemTag::Awakened => 0x4000000000000u64,
            GemTag::Support => 0x8000000000000u64,
            GemTag::Retaliation => 0x10000000000000u64,
        }
    }

    pub fn bit(self) -> (r: u64)
        ensures
            r == self.spec_bit(),
    {
        match self {
            GemTag::Attack => 0x1u64,
            GemTag::Melee => 0x2u64,
            GemTag::Spell => 0x4u64,
            GemTag::Projectile => 0x8u64,
            GemTag::Fire => 0x10u64,
            GemTag::Cold => 0x20u64,
            GemTag::Lightning => 0x40u64,
            GemTag::Random_Element => 0x80u64,
            GemTag::Chaos => 0x100u64,
            GemTag::Physical => 0x200u64,
            GemTag::Minion => 0x400u64,
            GemTag::Golem => 0x800u64,
            GemTag::Duration => 0x1000u64,
            GemTag::Area => 0x2000u64,
            GemTag::Warcry => 0x4000u64,
            GemTag::Trigger => 0x8000u64,
            GemTag::Aura => 0x10000u64,
            GemTag::Critical => 0x20000u64,
            GemTag::Curse => 0x40000u64,
            GemTag::Hex => 0x80000u64,
            GemTag::Mark => 0x100000u64,
            GemTag::Movement => 0x200000u64,
            GemTag::Travel => 0x400000u64,
            GemTag::Totem => 0x800000u64,
            GemTag::Slam => 0x1000000u64,
            GemTag::Intelligence => 0x2000000u64,
            GemTag::Strength => 0x4000000u64,
            GemTag::Dexterity => 0x8000000u64,
            GemTag::Chaining => 0x10000000u64,
            GemTag::Guard => 0x20000000u64,
            GemTag::Arcane => 0x40000000u64,
            GemTag::Bow => 0x80000000u64,
            GemTag::Strike => 0x100000000u64,
            GemTag::Trap => 0x200000000u64,
            GemTag::Mine => 0x400000000u64,
            GemTag::Orb => 0x800000000u64,
            GemTag::Channelling => 0x1000000000u64,
            GemTag::Stance => 0x2000000000u64,
            GemTag::Low_Max_Level => 0x4000000000u64,
            GemTag::Banner => 0x8000000000u64,
            GemTag::Brand => 0x10000000000u64,
            GemTag::Vaal => 0x20000000000u64,
            GemTag::Nova => 0x40000000000u64,
            GemTag::Link => 0x80000000000u64,
            GemTag::Blink => 0x100000000000u64,
            GemTag::Herald => 0x200000000000u64,
            GemTag::Exceptional => 0x400000000000u64,
            GemTag::Blessing => 0x800000000000u64,
            GemTag::Active_Skill => 0x1000000000000u64,
            GemTag::Grants_Active_Skill => 0x2000000000000u64,
            GemTag::Awakened => 0x4000000000000u64,
            GemTag::Support => 0x8000000000000u64,
            GemTag::Retaliation => 0x10000000000000u64,
        }
    }
}
/// The mana and life a gem costs.
#[derive(Debug, Clone, Copy, PartialEq, Eq, Structural)]
pub struct Costs {
    pub mana: Option<i32>,
    pub life: Option<i32>,
}

/// The attributes a gem requires.
#[derive(Debug, Clone, Copy, PartialEq, Eq, Structural)]
pub struct StatRequirements {
    pub str: Option<i32>,
    pub dex: Option<i32>,
    pub int: Option<i32>,
}

/// The value of a gem stat at a level.
#[derive(Debug, Clone, Copy, PartialEq, Eq, Structural)]
pub struct LevelStat {
    pub value: Option<i64>,
}

/// A gem stat: its id and static value.
#[derive(Debug)]
pub struct GemStat {
    pub value: Option<i64>,
    pub id: Option<String>,
}

/// A type of active skill, which supports are matched against.
#[derive(Debug, Clone, Copy, PartialEq, Eq, Structural, Hash)]
pub enum ActiveSkillType {
    AND,
    AppliesCurse,
    AppliesMaim,
    Arcane,
    Area,
    AreaSpell,
    Attack,
    AttackInPlaceIsDefault,
    Aura,
    AuraAffectsEnemies,
    AuraDuration,
}

} // verus!
