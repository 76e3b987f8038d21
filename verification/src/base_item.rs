use vstd::prelude::*;
use crate::slot::Slot;
use crate::text::{ascii_lower, is_ascii_text, str_eq, to_lowercase, lowercase};

verus! {

/// The class of an item base.
#[derive(Debug, Clone, Copy, PartialEq, Eq, Structural, Hash)]
pub enum ItemClass {
    Unarmed,
    Ring,
    Amulet,
    Claw,
    Dagger,
    Wand,
    Bow,
    Staff,
    Warstaff,
    Shield,
    Sceptre,
    FishingRod,
    Quiver,
    Boots,
    Belt,
    Helmet,
    Gloves,
    LifeFlask,
    ManaFlask,
    HybridFlask,
    UtilityFlask,
    AbyssJewel,
    Jewel,
    BodyArmour,
    RuneDagger,
    OneHandSword,
    ThrustingOneHandSword,
    OneHandAxe,
    OneHandMace,
    TwoHandSword,
    TwoHandAxe,
    TwoHandMace,
}

impl ItemClass {
    /// The one-variant flag set of this variant: one bit, at the variant's position.
    pub open spec fn spec_bit(self) -> u64 {
        match self {
            ItemClass::Unarmed => 0x1u64,
            ItemClass::Ring => 0x2u64,
            ItemClass::Amulet => 0x4u64,
            ItemClass::Claw => 0x8u64,
            ItemClass::Dagger => 0x10u64,
            ItemClass::Wand => 0x20u64,
            ItemClass::Bow => 0x40u64,
            ItemClass::Staff => 0x80u64,
            ItemClass::Warstaff => 0x100u64,
            ItemClass::Shield => 0x200u64,
            ItemClass::Sceptre => 0x400u64,
            ItemClass::FishingRod => 0x800u64,
            ItemClass::Quiver => 0x1000u64,
            ItemClass::Boots => 0x2000u64,
            ItemClass::Belt => 0x4000u64,
            ItemClass::Helmet => 0x8000u64,
            ItemClass::Gloves => 0x10000u64,
            ItemClass::LifeFlask => 0x20000u64,
            ItemClass::ManaFlask => 0x40000u64,
            ItemClass::HybridFlask => 0x80000u64,
            ItemClass::UtilityFlask => 0x100000u64,
            ItemClass::AbyssJewel => 0x200000u64,
            ItemClass::Jewel => 0x400000u64,
            ItemClass::BodyArmour => 0x800000u64,
            ItemClass::RuneDagger => 0x1000000u64,
            ItemClass::OneHandSword => 0x2000000u64,
            ItemClass::ThrustingOneHandSword => 0x4000000u64,
            ItemClass::OneHandAxe => 0x8000000u64,
            ItemClass::OneHandMace => 0x10000000u64,
            ItemClass::TwoHandSword => 0x20000000u64,
            ItemClass::TwoHandAxe => 0x40000000u64,
            ItemClass::TwoHandMace => 0x80000000u64,
        }
    }

    pub fn bit(self) -> (r: u64)
        ensures
            r == self.spec_bit(),
    {
        match self {
            ItemClass::Unarmed => 0x1u64,
            ItemClass::Ring => 0x2u64,
            ItemClass::Amulet => 0x4u64,
            ItemClass::Claw => 0x8u64,
            ItemClass::Dagger => 0x10u64,
            ItemClass::Wand => 0x20u64,
            ItemClass::Bow => 0x40u64,
            ItemClass::Staff => 0x80u64,
            ItemClass::Warstaff => 0x100u64,
            ItemClass::Shield => 0x200u64,
            ItemClass::Sceptre => 0x400u64,
            ItemClass::FishingRod => 0x800u64,
            ItemClass::Quiver => 0x1000u64,
            ItemClass::Boots => 0x2000u64,
            ItemClass::Belt => 0x4000u64,
            ItemClass::Helmet => 0x8000u64,
            ItemClass::Gloves => 0x10000u64,
            ItemClass::LifeFlask => 0x20000u64,
            ItemClass::ManaFlask => 0x40000u64,
            ItemClass::HybridFlask => 0x80000u64,
            ItemClass::UtilityFlask => 0x100000u64,
            ItemClass::AbyssJewel => 0x200000u64,
            ItemClass::Jewel => 0x400000u64,
            ItemClass::BodyArmour => 0x800000u64,
            ItemClass::RuneDagger => 0x1000000u64,
            ItemClass::OneHandSword => 0x2000000u64,
            ItemClass::ThrustingOneHandSword => 0x4000000u64,
            ItemClass::OneHandAxe => 0x8000000u64,
            ItemClass::OneHandMace => 0x10000000u64,
            ItemClass::TwoHandSword => 0x20000000u64,
            ItemClass::TwoHandAxe => 0x40000000u64,
            ItemClass::TwoHandMace => 0x80000000u64,
        }
    }
}
impl ItemClass {
    /// The equipment slots an item of this class may go in.
    pub open spec fn spec_allowed_slots(self) -> Seq<Slot> {
        match self {
            ItemClass::TwoHandSword | ItemClass::TwoHandAxe | ItemClass::TwoHandMace
            | ItemClass::Warstaff | ItemClass::Staff | ItemClass::Bow => seq![Slot::Weapon],
            ItemClass::OneHandAxe | ItemClass::OneHandMace | ItemClass::OneHandSword
            | ItemClass::RuneDagger | ItemClass::Sceptre | ItemClass::ThrustingOneHandSword
            | ItemClass::Wand => seq![Slot::Weapon, Slot::Offhand],
            ItemClass::Quiver | ItemClass::Shield => seq![Slot::Offhand],
            ItemClass::Helmet => seq![Slot::Helm],
            ItemClass::Amulet => seq![Slot::Amulet],
            ItemClass::BodyArmour => seq![Slot::BodyArmour],
            ItemClass::Belt => seq![Slot::Belt],
            ItemClass::Gloves => seq![Slot::Gloves],
            ItemClass::Boots => seq![Slot::Boots],
            ItemClass::Ring => seq![Slot::Ring(0), Slot::Ring(1)],
            ItemClass::Jewel | ItemClass::AbyssJewel => seq![Slot::TreeJewel(0)],
            ItemClass::LifeFlask | ItemClass::ManaFlask | ItemClass::HybridFlask
            | ItemClass::UtilityFlask => seq![Slot::Flask(0)],
            _ => seq![],
        }
    }

    pub fn allowed_slots(&self) -> (r: Vec<Slot>)
        ensures
            r@ == self.spec_allowed_slots(),
    {
        match self {
            ItemClass::TwoHandSword | ItemClass::TwoHandAxe | ItemClass::TwoHandMace
            | ItemClass::Warstaff | ItemClass::Staff | ItemClass::Bow => vec![Slot::Weapon],
            ItemClass::OneHandAxe | ItemClass::OneHandMace | ItemClass::OneHandSword
            | ItemClass::RuneDagger | ItemClass::Sceptre | ItemClass::ThrustingOneHandSword
            | ItemClass::Wand => vec![Slot::Weapon, Slot::Offhand],
            ItemClass::Quiver | ItemClass::Shield => vec![Slot::Offhand],
            ItemClass::Helmet => vec![Slot::Helm],
            ItemClass::Amulet => vec![Slot::Amulet],
            ItemClass::BodyArmour => vec![Slot::BodyArmour],
            ItemClass::Belt => vec![Slot::Belt],
            ItemClass::Gloves => vec![Slot::Gloves],
            ItemClass::Boots => vec![Slot::Boots],
            ItemClass::Ring => vec![Slot::Ring(0), Slot::Ring(1)],
            ItemClass::Jewel | ItemClass::AbyssJewel => vec![Slot::TreeJewel(0)],
            ItemClass::LifeFlask | ItemClass::ManaFlask | ItemClass::HybridFlask
            | ItemClass::UtilityFlask => vec![Slot::Flask(0)],
            _ => vec![],
        }
    }
}

/// Minimum and maximum of a rolled base property.
#[derive(Debug, Clone, Copy, PartialEq, Eq, Structural)]
pub struct PropertyMinMax {
    pub min: u32,
    pub max: u32,
}

/// The base properties of an item base.
#[derive(Debug, Clone, Copy, PartialEq, Eq, Structural)]
pub struct Properties {
    pub armour: Option<PropertyMinMax>,
    pub physical_damage_max: Option<i64>,
    pub physical_damage_min: Option<i64>,
    pub attack_time: Option<i64>,
    pub evasion: Option<PropertyMinMax>,
    pub energy_shield: Option<PropertyMinMax>,
    pub critical_strike_chance: Option<i64>,
    pub block: Option<i64>,
}

/// What a character needs to wear an item base.
#[derive(Debug, Clone, Copy, PartialEq, Eq, Structural)]
pub struct Requirements {
    pub level: u32,
    pub strength: u32,
    pub dexterity: u32,
    pub intelligence: u32,
}

/// An item base, such as "Glorious Plate".
#[derive(Debug)]
pub struct BaseItem {
    pub name: String,
    pub tags: Vec<String>,
    pub implicits: Vec<String>,
    pub item_class: ItemClass,
    pub properties: Properties,
    pub requirements: Option<Requirements>,
}

impl BaseItem {
    /// The base carries the tag `tag`.
    pub open spec fn spec_has_tag(&self, tag: Seq<char>) -> bool {
        exists|i: int| 0 <= i < self.tags@.len() && #[trigger] self.tags@[i]@ == tag
    }

    pub fn has_tag(&self, tag: &str) -> (r: bool)
        ensures
            r == self.spec_has_tag(tag@),
    {
        let mut i: usize = 0;
        while i < self.tags.len()
            invariant
                i <= self.tags@.len(),
                forall|j: int| 0 <= j < i ==> #[trigger] self.tags@[j]@ != tag@,
            decreases self.tags@.len() - i,
        {
            if str_eq(self.tags[i].as_str(), tag) {
                return true;
            }
            i = i + 1;
        }
        false
    }
}

/// How rare an item is.
#[derive(Debug, Clone, Copy, PartialEq, Eq, Structural)]
pub enum Rarity {
    Normal,
    Magic,
    Rare,
    Unique,
}

impl Default for Rarity {
    fn default() -> (r: Self)
        ensures
            r == Rarity::Normal,
    {
        Rarity::Normal
    }
}

/// The rarity named by a lower-case word.
pub open spec fn spec_rarity_named(s: Seq<char>) -> Option<Rarity> {
    if s == "normal"@ {
        Some(Rarity::Normal)
    } else if s == "magic"@ {
        Some(Rarity::Magic)
    } else if s == "rare"@ {
        Some(Rarity::Rare)
    } else if s == "unique"@ {
        Some(Rarity::Unique)
    } else {
        None
    }
}

impl Rarity {
    /// The rarity a lower-cased name stands for.
    pub fn from_lowercase(s: &str) -> (r: Option<Rarity>)
        ensures
            r == spec_rarity_named(s@),
    {
        if str_eq(s, "normal") {
            Some(Rarity::Normal)
        } else if str_eq(s, "magic") {
            Some(Rarity::Magic)
        } else if str_eq(s, "rare") {
            Some(Rarity::Rare)
        } else if str_eq(s, "unique") {
            Some(Rarity::Unique)
        } else {
            None
        }
    }

    /// The rarity named by `s`, whatever its case.
    pub fn from_str(s: &str) -> (r: Option<Rarity>)
        ensures
            r == spec_rarity_named(lowercase(s@)),
            is_ascii_text(s@) ==> r == spec_rarity_named(ascii_lower(s@)),
    {
        let lower = to_lowercase(s);
        Rarity::from_lowercase(lower.as_str())
    }
}

} // verus!
