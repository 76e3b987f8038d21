use vstd::prelude::*;
use crate::text::str_eq;

verus! {

/// A character class of the second game.
#[derive(Debug, Clone, Copy, PartialEq, Eq, Structural, Hash)]
pub enum Class {
    Ranger,
    Witch,
    Warrior,
    Mercenary,
    Monk,
    Sorceress,
}

impl Default for Class {
    fn default() -> (r: Self)
        ensures
            r == Class::Ranger,
    {
        Class::Ranger
    }
}

impl Class {
    /// The ascendancies of the class.
    pub open spec fn spec_ascendancies(self) -> Seq<Ascendancy> {
        match self {
            Class::Ranger => seq![Ascendancy::Deadeye, Ascendancy::Pathfinder],
            Class::Witch => seq![Ascendancy::BloodMage, Ascendancy::Infernalist],
            Class::Warrior => seq![Ascendancy::Titan, Ascendancy::Warbringer],
            Class::Mercenary => seq![Ascendancy::Witchhunter, Ascendancy::GemlingLegionnaire],
            Class::Monk => seq![Ascendancy::Invoker, Ascendancy::AcolyteOfChayula],
            Class::Sorceress => seq![Ascendancy::Stormweaver, Ascendancy::Chronomancer],
        }
    }

    pub fn ascendancies(&self) -> (r: Vec<Ascendancy>)
        ensures
            r@ == self.spec_ascendancies(),
    {
        match self {
            Class::Ranger => vec![Ascendancy::Deadeye, Ascendancy::Pathfinder],
            Class::Witch => vec![Ascendancy::BloodMage, Ascendancy::Infernalist],
            Class::Warrior => vec![Ascendancy::Titan, Ascendancy::Warbringer],
            Class::Mercenary => vec![Ascendancy::Witchhunter, Ascendancy::GemlingLegionnaire],
            Class::Monk => vec![Ascendancy::Invoker, Ascendancy::AcolyteOfChayula],
            Class::Sorceress => vec![Ascendancy::Stormweaver, Ascendancy::Chronomancer],
        }
    }
}

/// An ascendancy class of the second game.
#[derive(Debug, Clone, Copy, PartialEq, Eq, Structural, Hash)]
pub enum Ascendancy {
    Deadeye,
    Pathfinder,
    BloodMage,
    Infernalist,
    Titan,
    Warbringer,
    Witchhunter,
    GemlingLegionnaire,
    Invoker,
    AcolyteOfChayula,
    Stormweaver,
    Chronomancer,
}

impl Ascendancy {
    pub open spec fn spec_class(self) -> Class {
        match self {
            Ascendancy::Deadeye => Class::Ranger,
            Ascendancy::Pathfinder => Class::Ranger,
            Ascendancy::BloodMage => Class::Witch,
            Ascendancy::Infernalist => Class::Witch,
            Ascendancy::Titan => Class::Warrior,
            Ascendancy::Warbringer => Class::Warrior,
            Ascendancy::Witchhunter => Class::Mercenary,
            Ascendancy::GemlingLegionnaire => Class::Mercenary,
            Ascendancy::Invoker => Class::Monk,
            Ascendancy::AcolyteOfChayula => Class::Monk,
            Ascendancy::Stormweaver => Class::Sorceress,
            Ascendancy::Chronomancer => Class::Sorceress,
        }
    }

    /// The class the ascendancy belongs to.
    pub fn class(&self) -> (r: Class)
        ensures
            r == self.spec_class(),
    {
        match self {
            Ascendancy::Deadeye => Class::Ranger,
            Ascendancy::Pathfinder => Class::Ranger,
            Ascendancy::BloodMage => Class::Witch,
            Ascendancy::Infernalist => Class::Witch,
            Ascendancy::Titan => Class::Warrior,
            Ascendancy::Warbringer => Class::Warrior,
            Ascendancy::Witchhunter => Class::Mercenary,
            Ascendancy::GemlingLegionnaire => Class::Mercenary,
            Ascendancy::Invoker => Class::Monk,
            Ascendancy::AcolyteOfChayula => Class::Monk,
            Ascendancy::Stormweaver => Class::Sorceress,
            Ascendancy::Chronomancer => Class::Sorceress,
        }
    }
}

/// Every ascendancy of a class belongs to that class, and every ascendancy is listed by its class.
pub proof fn law_ascendancy_class_roundtrip(c: Class, a: Ascendancy)
    ensures
        c.spec_ascendancies().contains(a) <==> a.spec_class() == c,
{
    let s = c.spec_ascendancies();
    if a.spec_class() == c {
        assert(exists|i: int| 0 <= i < s.len() && s[i] == a) by {
            match a {
                Ascendancy::Deadeye => assert(s[0] == a),
                Ascendancy::Pathfinder => assert(s[1] == a),
                Ascendancy::BloodMage => assert(s[0] == a),
                Ascendancy::Infernalist => assert(s[1] == a),
                Ascendancy::Titan => assert(s[0] == a),
                Ascendancy::Warbringer => assert(s[1] == a),
                Ascendancy::Witchhunter => assert(s[0] == a),
                Ascendancy::GemlingLegionnaire => assert(s[1] == a),
                Ascendancy::Invoker => assert(s[0] == a),
                Ascendancy::AcolyteOfChayula => assert(s[1] == a),
                Ascendancy::Stormweaver => assert(s[0] == a),
                Ascendancy::Chronomancer => assert(s[1] == a),
            }
        }
    }
}

/// A sprite rectangle.
#[derive(Debug, Clone, Copy, PartialEq, Eq, Structural)]
pub struct Rect {
    pub x: u16,
    pub y: u16,
    pub w: u16,
    pub h: u16,
}

/// The starting attributes of a class.
#[derive(Debug, Clone, Copy, PartialEq, Eq, Structural)]
pub struct ClassData {
    pub base_str: i64,
    pub base_dex: i64,
    pub base_int: i64,
}

/// The kind of a passive tree node.
#[derive(Debug, Clone, Copy, PartialEq, Eq, Structural)]
pub enum NodeType {
    Normal,
    Notable,
    Keystone,
    AscendancyNormal,
    AscendancyNotable,
    JewelSocket,
}

/// A node of the passive tree of the second game.
#[derive(Debug)]
pub struct Node {
    pub skill: u16,
    pub stats: Vec<String>,
    pub icon: String,
    pub name: String,
    pub is_notable: bool,
    pub is_keystone: bool,
    pub is_ascendancy_start: bool,
    pub is_jewel_socket: bool,
    pub is_just_icon: bool,
    pub ascendancy: Option<Ascendancy>,
    pub class_start_index: Option<i32>,
    pub group: Option<u16>,
    pub orbit: Option<u16>,
    pub orbit_index: Option<u16>,
    pub out: Option<Vec<u16>>,
    pub in_: Option<Vec<u16>>,
}

/// The kind of a node from its flags: ascendancy nodes are notable or normal; others are,
/// by priority, notable, keystone, jewel socket, or normal.
pub open spec fn spec_node_type(has_ascendancy: bool, is_notable: bool, is_keystone: bool, is_jewel_socket: bool) -> NodeType {
    if has_ascendancy {
        if is_notable {
            NodeType::AscendancyNotable
        } else {
            NodeType::AscendancyNormal
        }
    } else if is_notable {
        NodeType::Notable
    } else if is_keystone {
        NodeType::Keystone
    } else if is_jewel_socket {
        NodeType::JewelSocket
    } else {
        NodeType::Normal
    }
}

impl Node {
    pub fn node_type(&self) -> (r: NodeType)
        ensures
            r == spec_node_type(self.ascendancy is Some, self.is_notable, self.is_keystone, self.is_jewel_socket),
    {
        if self.ascendancy.is_some() {
            if self.is_notable {
                return NodeType::AscendancyNotable;
            } else {
                return NodeType::AscendancyNormal;
            }
        }
        if self.is_notable {
            NodeType::Notable
        } else if self.is_keystone {
            NodeType::Keystone
        } else if self.is_jewel_socket {
            NodeType::JewelSocket
        } else {
            NodeType::Normal
        }
    }

    /// Two nodes are equal when they are the same skill.
    pub fn eq(&self, other: &Node) -> (r: bool)
        ensures
            r == (self.skill == other.skill),
    {
        self.skill == other.skill
    }
}

/// The background image of a node group.
#[derive(Debug)]
pub struct Background {
    pub image: String,
    pub is_half_image: Option<bool>,
}

/// The layout constants of the tree.
#[derive(Debug)]
pub struct Constants {
    pub skills_per_orbit: Vec<u16>,
    pub orbit_radii: Vec<u16>,
}


impl Ascendancy {
    /// The ascendancy a name stands for: the variant's own name.
    pub open spec fn named(s: Seq<char>) -> Option<Ascendancy> {
        if s == "Deadeye"@ {
            Some(Ascendancy::Deadeye)
        } else if s == "Pathfinder"@ {
            Some(Ascendancy::Pathfinder)
        } else if s == "BloodMage"@ {
            Some(Ascendancy::BloodMage)
        } else if s == "Infernalist"@ {
            Some(Ascendancy::Infernalist)
        } else if s == "Titan"@ {
            Some(Ascendancy::Titan)
        } else if s == "Warbringer"@ {
            Some(Ascendancy::Warbringer)
        } else if s == "Witchhunter"@ {
            Some(Ascendancy::Witchhunter)
        } else if s == "GemlingLegionnaire"@ {
            Some(Ascendancy::GemlingLegionnaire)
        } else if s == "Invoker"@ {
            Some(Ascendancy::Invoker)
        } else if s == "AcolyteOfChayula"@ {
            Some(Ascendancy::AcolyteOfChayula)
        } else if s == "Stormweaver"@ {
            Some(Ascendancy::Stormweaver)
        } else if s == "Chronomancer"@ {
            Some(Ascendancy::Chronomancer)
        } else {
            None
        }
    }

    /// The ascendancy a name stands for, if any.
    pub fn from_str(s: &str) -> (r: Option<Ascendancy>)
        ensures
            r == Ascendancy::named(s@),
    {
        if str_eq(s, "Deadeye") {
            Some(Ascendancy::Deadeye)
        } else if str_eq(s, "Pathfinder") {
            Some(Ascendancy::Pathfinder)
        } else if str_eq(s, "BloodMage") {
            Some(Ascendancy::BloodMage)
        } else if str_eq(s, "Infernalist") {
            Some(Ascendancy::Infernalist)
        } else if str_eq(s, "Titan") {
            Some(Ascendancy::Titan)
        } else if str_eq(s, "Warbringer") {
            Some(Ascendancy::Warbringer)
        } else if str_eq(s, "Witchhunter") {
            Some(Ascendancy::Witchhunter)
        } else if str_eq(s, "GemlingLegionnaire") {
            Some(Ascendancy::GemlingLegionnaire)
        } else if str_eq(s, "Invoker") {
            Some(Ascendancy::Invoker)
        } else if str_eq(s, "AcolyteOfChayula") {
            Some(Ascendancy::AcolyteOfChayula)
        } else if str_eq(s, "Stormweaver") {
            Some(Ascendancy::Stormweaver)
        } else if str_eq(s, "Chronomancer") {
            Some(Ascendancy::Chronomancer)
        } else {
            None
        }
    }
}

/// A group of nodes of the tree; its position is held as the bits of its coordinates.
#[derive(Debug)]
pub struct Group {
    pub x: u32,
    pub y: u32,
    pub orbits: Vec<u8>,
    pub nodes: Vec<u16>,
    pub background: Option<Background>,
    pub is_proxy: bool,
}

} // verus!
