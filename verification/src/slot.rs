use vstd::prelude::*;
use crate::text::str_eq;

verus! {

/// Where an item is equipped.
#[derive(Debug, Clone, Copy, PartialEq, Eq, Structural, Hash)]
pub enum Slot {
    Helm,
    BodyArmour,
    Gloves,
    Boots,
    Belt,
    Amulet,
    Weapon,
    Offhand,
    Ring(u16),
    /// The flask slot number.
    Flask(u16),
    /// The tree node holding the jewel.
    TreeJewel(u32),
    /// The number of the abyssal socket.
    AbyssalJewel(u16),
}

impl Default for Slot {
    fn default() -> (r: Self)
        ensures
            r == Slot::Helm,
    {
        Slot::Helm
    }
}

/// Two slots take the same kind of item: the same slot, or two numbered slots of one kind.
pub open spec fn spec_compatible(a: Slot, b: Slot) -> bool {
    match (a, b) {
        (Slot::Ring(_), Slot::Ring(_)) => true,
        (Slot::Flask(_), Slot::Flask(_)) => true,
        (Slot::TreeJewel(_), Slot::TreeJewel(_)) => true,
        (Slot::AbyssalJewel(_), Slot::AbyssalJewel(_)) => true,
        _ => a == b,
    }
}

/// The slot an inventory id of the account import names, if any.
pub open spec fn spec_slot_from_inventory(id: Seq<char>, x: u16, jewel_slots: Seq<u32>) -> Option<Slot> {
    if id == "Helm"@ {
        Some(Slot::Helm)
    } else if id == "BodyArmour"@ {
        Some(Slot::BodyArmour)
    } else if id == "Gloves"@ {
        Some(Slot::Gloves)
    } else if id == "Boots"@ {
        Some(Slot::Boots)
    } else if id == "Belt"@ {
        Some(Slot::Belt)
    } else if id == "Amulet"@ {
        Some(Slot::Amulet)
    } else if id == "Weapon"@ {
        Some(Slot::Weapon)
    } else if id == "Offhand"@ {
        Some(Slot::Offhand)
    } else if id == "Ring"@ {
        Some(Slot::Ring(0))
    } else if id == "Ring2"@ {
        Some(Slot::Ring(1))
    } else if id == "Ring3"@ {
        Some(Slot::Ring(2))
    } else if id == "Flask"@ {
        if x <= 4 {
            Some(Slot::Flask(x))
        } else {
            None
        }
    } else if id == "PassiveJewels"@ {
        if (x as int) < jewel_slots.len() {
            Some(Slot::TreeJewel(jewel_slots[x as int]))
        } else {
            None
        }
    } else if id == "AbyssalJewel"@ {
        Some(Slot::AbyssalJewel(x))
    } else {
        None
    }
}

impl Slot {
    pub fn compatible(&self, other: Slot) -> (r: bool)
        ensures
            r == spec_compatible(*self, other),
    {
        match (self, other) {
            (Slot::Ring(_), Slot::Ring(_)) => true,
            (Slot::Flask(_), Slot::Flask(_)) => true,
            (Slot::TreeJewel(_), Slot::TreeJewel(_)) => true,
            (Slot::AbyssalJewel(_), Slot::AbyssalJewel(_)) => true,
            _ => *self == other,
        }
    }

    /// The slot an inventory id names; `x` is the position within the inventory, and
    /// `jewel_slots` the tree's jewel socket nodes, in order.
    pub fn try_from_inventory(inventory_id: &str, x: u16, jewel_slots: &[u32]) -> (r: Result<Slot, ()>)
        ensures
            r matches Ok(s) ==> spec_slot_from_inventory(inventory_id@, x, jewel_slots@) == Some(s),
            r is Err ==> spec_slot_from_inventory(inventory_id@, x, jewel_slots@) is None,
    {
        if str_eq(inventory_id, "Helm") {
            Ok(Slot::Helm)
        } else if str_eq(inventory_id, "BodyArmour") {
            Ok(Slot::BodyArmour)
        } else if str_eq(inventory_id, "Gloves") {
            Ok(Slot::Gloves)
        } else if str_eq(inventory_id, "Boots") {
            Ok(Slot::Boots)
        } else if str_eq(inventory_id, "Belt") {
            Ok(Slot::Belt)
        } else if str_eq(inventory_id, "Amulet") {
            Ok(Slot::Amulet)
        } else if str_eq(inventory_id, "Weapon") {
            Ok(Slot::Weapon)
        } else if str_eq(inventory_id, "Offhand") {
            Ok(Slot::Offhand)
        } else if str_eq(inventory_id, "Ring") {
            Ok(Slot::Ring(0))
        } else if str_eq(inventory_id, "Ring2") {
            Ok(Slot::Ring(1))
        } else if str_eq(inventory_id, "Ring3") {
            Ok(Slot::Ring(2))
        } else if str_eq(inventory_id, "Flask") {
            if x <= 4 {
                Ok(Slot::Flask(x))
            } else {
                Err(())
            }
        } else if str_eq(inventory_id, "PassiveJewels") {
            if (x as usize) < jewel_slots.len() {
                Ok(Slot::TreeJewel(jewel_slots[x as usize]))
            } else {
                Err(())
            }
        } else if str_eq(inventory_id, "AbyssalJewel") {
            Ok(Slot::AbyssalJewel(x))
        } else {
            Err(())
        }
    }
}

/// A kind of defence an item grants.
#[derive(Debug, Clone, Copy, PartialEq, Eq, Structural)]
pub enum Defence {
    Armour,
    Evasion,
    EnergyShield,
    Block,
}

} // verus!
