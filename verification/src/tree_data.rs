use vstd::prelude::*;
use crate::text::str_eq;

verus! {

/// A character class.
#[derive(Debug, Clone, Copy, PartialEq, Eq, Structural, Hash)]
pub enum Class {
    Scion,
    Marauder,
    Ranger,
    Witch,
    Duelist,
    Templar,
    Shadow,
}

impl Default for Class {
    fn default() -> (r: Self)
        ensures
            r == Class::Scion,
    {
        Class::Scion
    }
}

impl Class {
    /// The position of the class in the declaration order (its class start index).
    pub open spec fn spec_index(self) -> int {
        match self {
            Class::Scion => 0,
            Class::Marauder => 1,
            Class::Ranger => 2,
            Class::Witch => 3,
            Class::Duelist => 4,
            Class::Templar => 5,
            Class::Shadow => 6,
        }
    }

    pub fn as_index(self) -> (r: i32)
        ensures
            r == self.spec_index(),
    {
        match self {
            Class::Scion => 0,
            Class::Marauder => 1,
            Class::Ranger => 2,
            Class::Witch => 3,
            Class::Duelist => 4,
            Class::Templar => 5,
            Class::Shadow => 6,
        }
    }

    /// The ascendancies of the class.
    pub open spec fn spec_ascendancies(self) -> Seq<Ascendancy> {
        match self {
            Class::Scion => seq![Ascendancy::Ascendant, Ascendancy::Reliquarian],
            Class::Marauder => seq![Ascendancy::Berserker, Ascendancy::Chieftain, Ascendancy::Juggernaut],
            Class::Ranger => seq![Ascendancy::Deadeye, Ascendancy::Raider, Ascendancy::Pathfinder],
            Class::Witch => seq![Ascendancy::Necromancer, Ascendancy::Occultist, Ascendancy::Elementalist],
            Class::Duelist => seq![Ascendancy::Slayer, Ascendancy::Gladiator, Ascendancy::Champion],
            Class::Templar => seq![Ascendancy::Inquisitor, Ascendancy::Hierophant, Ascendancy::Guardian],
            Class::Shadow => seq![Ascendancy::Assassin, Ascendancy::Saboteur, Ascendancy::Trickster],
        }
    }

    pub fn ascendancies(&self) -> (r: Vec<Ascendancy>)
        ensures
            r@ == self.spec_ascendancies(),
    {
        match self {
            Class::Scion => vec![Ascendancy::Ascendant, Ascendancy::Reliquarian],
            Class::Marauder => vec![Ascendancy::Berserker, Ascendancy::Chieftain, Ascendancy::Juggernaut],
            Class::Ranger => vec![Ascendancy::Deadeye, Ascendancy::Raider, Ascendancy::Pathfinder],
            Class::Witch => vec![Ascendancy::Necromancer, Ascendancy::Occultist, Ascendancy::Elementalist],
            Class::Duelist => vec![Ascendancy::Slayer, Ascendancy::Gladiator, Ascendancy::Champion],
            Class::Templar => vec![Ascendancy::Inquisitor, Ascendancy::Hierophant, Ascendancy::Guardian],
            Class::Shadow => vec![Ascendancy::Assassin, Ascendancy::Saboteur, Ascendancy::Trickster],
        }
    }
}

/// An ascendancy class, or a bloodline.
#[derive(Debug, Clone, Copy, PartialEq, Eq, Structural, Hash)]
pub enum Ascendancy {
    Inquisitor,
    Hierophant,
    Guardian,
    Slayer,
    Gladiator,
    Champion,
    Assassin,
    Saboteur,
    Trickster,
    Juggernaut,
    Berserker,
    Chieftain,
    Necromancer,
    Occultist,
    Elementalist,
    Deadeye,
    Raider,
    Pathfinder,
    Ascendant,
    Reliquarian,
    Aul,
    Farrul,
    Catarina,
    Oshabi,
    Olroth,
    KingInTheMists,
    Delirious,
    Lycia,
    Trialmaster,
    Necromantic,
    Breachlord,
    Warlock,
    Primalist,
    Warden,
}

impl Ascendancy {
    /// The name shown for the ascendancy: the bloodlines have names of their own, the others
    /// are shown by their variant name.
    pub open spec fn spec_display_name(self) -> Seq<char> {
        match self {
            Ascendancy::Inquisitor => "Inquisitor"@,
            Ascendancy::Hierophant => "Hierophant"@,
            Ascendancy::Guardian => "Guardian"@,
            Ascendancy::Slayer => "Slayer"@,
            Ascendancy::Gladiator => "Gladiator"@,
            Ascendancy::Champion => "Champion"@,
            Ascendancy::Assassin => "Assassin"@,
            Ascendancy::Saboteur => "Saboteur"@,
            Ascendancy::Trickster => "Trickster"@,
            Ascendancy::Juggernaut => "Juggernaut"@,
            Ascendancy::Berserker => "Berserker"@,
            Ascendancy::Chieftain => "Chieftain"@,
            Ascendancy::Necromancer => "Necromancer"@,
            Ascendancy::Occultist => "Occultist"@,
            Ascendancy::Elementalist => "Elementalist"@,
            Ascendancy::Deadeye => "Deadeye"@,
            Ascendancy::Raider => "Raider"@,
            Ascendancy::Pathfinder => "Pathfinder"@,
            Ascendancy::Ascendant => "Ascendant"@,
            Ascendancy::Reliquarian => "Reliquarian"@,
            Ascendancy::Aul => "Aul Bloodline"@,
            Ascendancy::Farrul => "Farrul Bloodline"@,
            Ascendancy::Catarina => "Catarina Bloodline"@,
            Ascendancy::Oshabi => "Oshabi Bloodline"@,
            Ascendancy::Olroth => "Olroth Bloodline"@,
            Ascendancy::KingInTheMists => "Nameless Bloodline"@,
            Ascendancy::Delirious => "Delirious Bloodline"@,
            Ascendancy::Lycia => "Lycia Bloodline"@,
            Ascendancy::Trialmaster => "Chaos Bloodline"@,
            Ascendancy::Necromantic => "Necromantic Bloodline"@,
            Ascendancy::Breachlord => "Breachlord Bloodline"@,
            Ascendancy::Warlock => "Warlock of the Mists"@,
            Ascendancy::Primalist => "Wildwood Primalist"@,
            Ascendancy::Warden => "Warden of the Maji"@,
        }
    }

    pub fn display_name(&self) -> (r: &'static str)
        ensures
            r@ == self.spec_display_name(),
    {
        match self {
            Ascendancy::Inquisitor => "Inquisitor",
            Ascendancy::Hierophant => "Hierophant",
            Ascendancy::Guardian => "Guardian",
            Ascendancy::Slayer => "Slayer",
            Ascendancy::Gladiator => "Gladiator",
            Ascendancy::Champion => "Champion",
            Ascendancy::Assassin => "Assassin",
            Ascendancy::Saboteur => "Saboteur",
            Ascendancy::Trickster => "Trickster",
            Ascendancy::Juggernaut => "Juggernaut",
            Ascendancy::Berserker => "Berserker",
            Ascendancy::Chieftain => "Chieftain",
            Ascendancy::Necromancer => "Necromancer",
            Ascendancy::Occultist => "Occultist",
            Ascendancy::Elementalist => "Elementalist",
            Ascendancy::Deadeye => "Deadeye",
            Ascendancy::Raider => "Raider",
            Ascendancy::Pathfinder => "Pathfinder",
            Ascendancy::Ascendant => "Ascendant",
            Ascendancy::Reliquarian => "Reliquarian",
            Ascendancy::Aul => "Aul Bloodline",
            Ascendancy::Farrul => "Farrul Bloodline",
            Ascendancy::Catarina => "Catarina Bloodline",
            Ascendancy::Oshabi => "Oshabi Bloodline",
            Ascendancy::Olroth => "Olroth Bloodline",
            Ascendancy::KingInTheMists => "Nameless Bloodline",
            Ascendancy::Delirious => "Delirious Bloodline",
            Ascendancy::Lycia => "Lycia Bloodline",
            Ascendancy::Trialmaster => "Chaos Bloodline",
            Ascendancy::Necromantic => "Necromantic Bloodline",
            Ascendancy::Breachlord => "Breachlord Bloodline",
            Ascendancy::Warlock => "Warlock of the Mists",
            Ascendancy::Primalist => "Wildwood Primalist",
            Ascendancy::Warden => "Warden of the Maji",
        }
    }

    /// The class of the ascendancy; bloodlines have none.
    pub open spec fn spec_class(self) -> Option<Class> {
        match self {
            Ascendancy::Inquisitor => Some(Class::Templar),
            Ascendancy::Hierophant => Some(Class::Templar),
            Ascendancy::Guardian => Some(Class::Templar),
            Ascendancy::Slayer => Some(Class::Duelist),
            Ascendancy::Gladiator => Some(Class::Duelist),
            Ascendancy::Champion => Some(Class::Duelist),
            Ascendancy::Assassin => Some(Class::Shadow),
            Ascendancy::Saboteur => Some(Class::Shadow),
            Ascendancy::Trickster => Some(Class::Shadow),
            Ascendancy::Juggernaut => Some(Class::Marauder),
            Ascendancy::Berserker => Some(Class::Marauder),
            Ascendancy::Chieftain => Some(Class::Marauder),
            Ascendancy::Necromancer => Some(Class::Witch),
            Ascendancy::Occultist => Some(Class::Witch),
            Ascendancy::Elementalist => Some(Class::Witch),
            Ascendancy::Deadeye => Some(Class::Ranger),
            Ascendancy::Raider => Some(Class::Ranger),
            Ascendancy::Pathfinder => Some(Class::Ranger),
            Ascendancy::Ascendant => Some(Class::Scion),
            Ascendancy::Reliquarian => Some(Class::Scion),
            Ascendancy::Aul => None,
            Ascendancy::Farrul => None,
            Ascendancy::Catarina => None,
            Ascendancy::Oshabi => None,
            Ascendancy::Olroth => None,
            Ascendancy::KingInTheMists => None,
            Ascendancy::Delirious => None,
            Ascendancy::Lycia => None,
            Ascendancy::Trialmaster => None,
            Ascendancy::Necromantic => None,
            Ascendancy::Breachlord => None,
            Ascendancy::Warlock => None,
            Ascendancy::Primalist => None,
            Ascendancy::Warden => None,
        }
    }

    pub fn class(&self) -> (r: Option<Class>)
        ensures
            r == self.spec_class(),
    {
        match self {
            Ascendancy::Inquisitor => Some(Class::Templar),
            Ascendancy::Hierophant => Some(Class::Templar),
            Ascendancy::Guardian => Some(Class::Templar),
            Ascendancy::Slayer => Some(Class::Duelist),
            Ascendancy::Gladiator => Some(Class::Duelist),
            Ascendancy::Champion => Some(Class::Duelist),
            Ascendancy::Assassin => Some(Class::Shadow),
            Ascendancy::Saboteur => Some(Class::Shadow),
            Ascendancy::Trickster => Some(Class::Shadow),
            Ascendancy::Juggernaut => Some(Class::Marauder),
            Ascendancy::Berserker => Some(Class::Marauder),
            Ascendancy::Chieftain => Some(Class::Marauder),
            Ascendancy::Necromancer => Some(Class::Witch),
            Ascendancy::Occultist => Some(Class::Witch),
            Ascendancy::Elementalist => Some(Class::Witch),
            Ascendancy::Deadeye => Some(Class::Ranger),
            Ascendancy::Raider => Some(Class::Ranger),
            Ascendancy::Pathfinder => Some(Class::Ranger),
            Ascendancy::Ascendant => Some(Class::Scion),
            Ascendancy::Reliquarian => Some(Class::Scion),
            Ascendancy::Aul => None,
            Ascendancy::Farrul => None,
            Ascendancy::Catarina => None,
            Ascendancy::Oshabi => None,
            Ascendancy::Olroth => None,
            Ascendancy::KingInTheMists => None,
            Ascendancy::Delirious => None,
            Ascendancy::Lycia => None,
            Ascendancy::Trialmaster => None,
            Ascendancy::Necromantic => None,
            Ascendancy::Breachlord => None,
            Ascendancy::Warlock => None,
            Ascendancy::Primalist => None,
            Ascendancy::Warden => None,
        }
    }
}

/// Every ascendancy of a class belongs to that class.
pub proof fn law_ascendancies_belong(c: Class, i: int)
    requires
        0 <= i < c.spec_ascendancies().len(),
    ensures
        c.spec_ascendancies()[i].spec_class() == Some(c),
{
}

/// Every ascendancy that has a class is one of that class's ascendancies.
pub proof fn law_class_lists_ascendancy(a: Ascendancy)
    requires
        a.spec_class() is Some,
    ensures
        a.spec_class().unwrap().spec_ascendancies().contains(a),
{
    let c = a.spec_class().unwrap();
    let s = c.spec_ascendancies();
    assert(exists|i: int| 0 <= i < s.len() && s[i] == a) by {
        match a {
            Ascendancy::Inquisitor => assert(s[0] == a),
            Ascendancy::Hierophant => assert(s[1] == a),
            Ascendancy::Guardian => assert(s[2] == a),
            Ascendancy::Slayer => assert(s[0] == a),
            Ascendancy::Gladiator => assert(s[1] == a),
            Ascendancy::Champion => assert(s[2] == a),
            Ascendancy::Assassin => assert(s[0] == a),
            Ascendancy::Saboteur => assert(s[1] == a),
            Ascendancy::Trickster => assert(s[2] == a),
            Ascendancy::Juggernaut => assert(s[2] == a),
            Ascendancy::Berserker => assert(s[0] == a),
            Ascendancy::Chieftain => assert(s[1] == a),
            Ascendancy::Necromancer => assert(s[0] == a),
            Ascendancy::Occultist => assert(s[1] == a),
            Ascendancy::Elementalist => assert(s[2] == a),
            Ascendancy::Deadeye => assert(s[0] == a),
            Ascendancy::Raider => assert(s[1] == a),
            Ascendancy::Pathfinder => assert(s[2] == a),
            Ascendancy::Ascendant => assert(s[0] == a),
            Ascendancy::Reliquarian => assert(s[1] == a),
            Ascendancy::Aul => {},
            Ascendancy::Farrul => {},
            Ascendancy::Catarina => {},
            Ascendancy::Oshabi => {},
            Ascendancy::Olroth => {},
            Ascendancy::KingInTheMists => {},
            Ascendancy::Delirious => {},
            Ascendancy::Lycia => {},
            Ascendancy::Trialmaster => {},
            Ascendancy::Necromantic => {},
            Ascendancy::Breachlord => {},
            Ascendancy::Warlock => {},
            Ascendancy::Primalist => {},
            Ascendancy::Warden => {},
        }
    }
}

/// A sprite rectangle.
#[derive(Debug, Clone, Copy, PartialEq, Eq, Structural)]
pub struct Rect {
    pub x: u16,
    pub y: u16,
    pub w: u16,
    pub h: u16,
}

/// The starting attributes of a class.
#[derive(Debug, Clone, Copy, PartialEq, Eq, Structural)]
pub struct ClassData {
    pub base_str: i64,
    pub base_dex: i64,
    pub base_int: i64,
}

/// An effect a mastery node may take.
#[derive(Debug)]
pub struct MasteryEffect {
    pub effect: u32,
    pub stats: Vec<String>,
}

/// A copy of a list of strings, element by element.
pub fn copy_strings(v: &Vec<String>) -> (r: Vec<String>)
    ensures
        r@ == v@,
{
    let mut r: Vec<String> = Vec::new();
    let mut i: usize = 0;
    while i < v.len()
        invariant
            i <= v.len(),
            r@ == v@.take(i as int),
        decreases v.len() - i,
    {
        r.push(v[i].clone());
        assert(v@.take(i as int + 1) == v@.take(i as int).push(v@[i as int]));
        i += 1;
    }
    assert(v@.take(v.len() as int) == v@);
    r
}

/// A copy of an optional string.
pub fn copy_opt_string(o: &Option<String>) -> (r: Option<String>)
    ensures
        r == *o,
{
    match o {
        Some(s) => Some(s.clone()),
        None => None,
    }
}

/// A copy of an optional list of node ids.
pub fn copy_links(o: &Option<Vec<u32>>) -> (r: Option<Vec<u32>>)
    ensures
        r is Some == o is Some,
        link_ids(r) == link_ids(*o),
{
    match o {
        Some(v) => {
            let c = v.clone();
            assert(c@ == v@);
            Some(c)
        },
        None => None,
    }
}

/// The ids a node link list holds; an absent list holds none.
pub open spec fn link_ids(links: Option<Vec<u32>>) -> Seq<u32> {
    match links {
        Some(v) => v@,
        None => Seq::empty(),
    }
}

impl Clone for MasteryEffect {
    fn clone(&self) -> (r: Self)
        ensures
            r.effect == self.effect,
            r.stats@ == self.stats@,
    {
        MasteryEffect { effect: self.effect, stats: copy_strings(&self.stats) }
    }
}

/// A copy of a list of mastery effects.
pub fn copy_effects(v: &Vec<MasteryEffect>) -> (r: Vec<MasteryEffect>)
    ensures
        r@.len() == v@.len(),
        forall|i: int| 0 <= i < v@.len() ==> #[trigger] r@[i].effect == v@[i].effect && r@[i].stats@ == v@[i].stats@,
{
    let mut r: Vec<MasteryEffect> = Vec::new();
    let mut i: usize = 0;
    while i < v.len()
        invariant
            i <= v.len(),
            r@.len() == i,
            forall|j: int| 0 <= j < i ==> #[trigger] r@[j].effect == v@[j].effect && r@[j].stats@ == v@[j].stats@,
        decreases v.len() - i,
    {
        r.push(v[i].clone());
        i += 1;
    }
    r
}

/// The kind of a passive tree node.
#[derive(Debug, Clone, Copy, PartialEq, Eq, Structural, Hash)]
pub enum NodeType {
    Normal,
    Notable,
    Keystone,
    Mastery,
    AscendancyNormal,
    AscendancyNotable,
    JewelSocket,
}

impl NodeType {
    /// The one-variant flag set of this variant: one bit, at the variant's position.
    pub open spec fn spec_bit(self) -> u64 {
        match self {
            NodeType::Normal => 0x1u64,
            NodeType::Notable => 0x2u64,
            NodeType::Keystone => 0x4u64,
            NodeType::Mastery => 0x8u64,
            NodeType::AscendancyNormal => 0x10u64,
            NodeType::AscendancyNotable => 0x20u64,
            NodeType::JewelSocket => 0x40u64,
        }
    }

    pub fn bit(self) -> (r: u64)
        ensures
            r == self.spec_bit(),
    {
        match self {
            NodeType::Normal => 0x1u64,
            NodeType::Notable => 0x2u64,
            NodeType::Keystone => 0x4u64,
            NodeType::Mastery => 0x8u64,
            NodeType::AscendancyNormal => 0x10u64,
            NodeType::AscendancyNotable => 0x20u64,
            NodeType::JewelSocket => 0x40u64,
        }
    }
}

/// The socket data of a cluster jewel socket.
#[derive(Debug, Clone, Copy, PartialEq, Eq, Structural)]
pub struct ExpansionJewel {
    pub size: u32,
    pub index: u32,
    pub proxy: u32,
    pub parent: u32,
}

/// A node of the passive tree.
#[derive(Debug)]
pub struct Node {
    pub skill: u32,
    pub stats: Vec<String>,
    pub icon: String,
    pub name: String,
    pub active_icon: Option<String>,
    pub inactive_icon: Option<String>,
    pub active_effect_image: Option<String>,
    pub is_mastery: bool,
    pub is_notable: bool,
    pub is_keystone: bool,
    pub is_ascendancy_start: bool,
    pub is_jewel_socket: bool,
    pub is_proxy: bool,
    pub is_bloodline: bool,
    pub is_tattoo: bool,
    pub ascendancy: Option<Ascendancy>,
    pub class_start_index: Option<i32>,
    pub mastery_effects: Vec<MasteryEffect>,
    pub group: Option<u16>,
    pub orbit: Option<u16>,
    pub orbit_index: Option<u16>,
    pub out: Option<Vec<u32>>,
    pub in_: Option<Vec<u32>>,
    pub expansion_jewel: Option<ExpansionJewel>,
}

impl Node {
    /// The facts of a node that do not change when it is copied: everything but the
    /// mastery effects' strings and the stat lines, whose count is kept.
    pub open spec fn same_as(self, other: Node) -> bool {
        &&& self.skill == other.skill
        &&& self.stats@ == other.stats@
        &&& self.icon == other.icon
        &&& self.name == other.name
        &&& self.active_icon == other.active_icon
        &&& self.inactive_icon == other.inactive_icon
        &&& self.active_effect_image == other.active_effect_image
        &&& self.is_mastery == other.is_mastery
        &&& self.is_notable == other.is_notable
        &&& self.is_keystone == other.is_keystone
        &&& self.is_ascendancy_start == other.is_ascendancy_start
        &&& self.is_jewel_socket == other.is_jewel_socket
        &&& self.is_proxy == other.is_proxy
        &&& self.is_bloodline == other.is_bloodline
        &&& self.is_tattoo == other.is_tattoo
        &&& self.ascendancy == other.ascendancy
        &&& self.class_start_index == other.class_start_index
        &&& self.mastery_effects@.len() == other.mastery_effects@.len()
        &&& self.group == other.group
        &&& self.orbit == other.orbit
        &&& self.orbit_index == other.orbit_index
        &&& (self.out is Some <==> other.out is Some)
        &&& link_ids(self.out) == link_ids(other.out)
        &&& (self.in_ is Some <==> other.in_ is Some)
        &&& link_ids(self.in_) == link_ids(other.in_)
        &&& self.expansion_jewel == other.expansion_jewel
    }
}

impl Clone for Node {
    fn clone(&self) -> (r: Self)
        ensures
            r.same_as(*self),
    {
        Node {
            skill: self.skill,
            stats: copy_strings(&self.stats),
            icon: self.icon.clone(),
            name: self.name.clone(),
            active_icon: copy_opt_string(&self.active_icon),
            inactive_icon: copy_opt_string(&self.inactive_icon),
            active_effect_image: copy_opt_string(&self.active_effect_image),
            is_mastery: self.is_mastery,
            is_notable: self.is_notable,
            is_keystone: self.is_keystone,
            is_ascendancy_start: self.is_ascendancy_start,
            is_jewel_socket: self.is_jewel_socket,
            is_proxy: self.is_proxy,
            is_bloodline: self.is_bloodline,
            is_tattoo: self.is_tattoo,
            ascendancy: self.ascendancy,
            class_start_index: self.class_start_index,
            mastery_effects: copy_effects(&self.mastery_effects),
            group: self.group,
            orbit: self.orbit,
            orbit_index: self.orbit_index,
            out: copy_links(&self.out),
            in_: copy_links(&self.in_),
            expansion_jewel: self.expansion_jewel,
        }
    }
}

/// The kind of a node from its flags: ascendancy nodes are notable or normal; others are,
/// by priority, notable, keystone, mastery, jewel socket, or normal.
pub open spec fn spec_node_type(
    has_ascendancy: bool,
    is_notable: bool,
    is_keystone: bool,
    is_mastery: bool,
    is_jewel_socket: bool,
) -> NodeType {
    if has_ascendancy {
        if is_notable {
            NodeType::AscendancyNotable
        } else {
            NodeType::AscendancyNormal
        }
    } else if is_notable {
        NodeType::Notable
    } else if is_keystone {
        NodeType::Keystone
    } else if is_mastery {
        NodeType::Mastery
    } else if is_jewel_socket {
        NodeType::JewelSocket
    } else {
        NodeType::Normal
    }
}

impl Node {
    pub fn node_type(&self) -> (r: NodeType)
        ensures
            r == spec_node_type(self.ascendancy is Some, self.is_notable, self.is_keystone, self.is_mastery,
                self.is_jewel_socket),
    {
        if self.ascendancy.is_some() {
            if self.is_notable {
                return NodeType::AscendancyNotable;
            } else {
                return NodeType::AscendancyNormal;
            }
        }
        if self.is_notable {
            NodeType::Notable
        } else if self.is_keystone {
            NodeType::Keystone
        } else if self.is_mastery {
            NodeType::Mastery
        } else if self.is_jewel_socket {
            NodeType::JewelSocket
        } else {
            NodeType::Normal
        }
    }

    /// Two nodes are equal when they are the same skill.
    pub fn eq(&self, other: &Node) -> (r: bool)
        ensures
            r == (self.skill == other.skill),
    {
        self.skill == other.skill
    }
}

/// The sprite key and icon a node is drawn with when inactive: normal, notable, keystone
/// nodes use their icon, masteries their inactive icon.
pub fn node_sprite(node: &Node) -> (r: Option<(&'static str, &String)>)
    ensures
        match node.node_type_spec() {
            NodeType::Mastery => match &node.inactive_icon {
                Some(i) => r == Some(("masteryConnected", i)),
                None => r is None,
            },
            NodeType::Notable | NodeType::AscendancyNotable => r == Some(("notableInactive", &node.icon)),
            NodeType::Keystone => r == Some(("keystoneInactive", &node.icon)),
            _ => r == Some(("normalInactive", &node.icon)),
        },
{
    match node.node_type() {
        NodeType::Normal | NodeType::AscendancyNormal | NodeType::JewelSocket => Some(("normalInactive", &node.icon)),
        NodeType::Notable | NodeType::AscendancyNotable => Some(("notableInactive", &node.icon)),
        NodeType::Keystone => Some(("keystoneInactive", &node.icon)),
        NodeType::Mastery => match &node.inactive_icon {
            Some(icon) => Some(("masteryConnected", icon)),
            None => None,
        },
    }
}

impl Node {
    pub open spec fn node_type_spec(&self) -> NodeType {
        spec_node_type(self.ascendancy is Some, self.is_notable, self.is_keystone, self.is_mastery, self.is_jewel_socket)
    }
}

/// The background image of a node group.
#[derive(Debug)]
pub struct Background {
    pub image: String,
    pub is_half_image: Option<bool>,
}

/// The layout constants of the tree.
#[derive(Debug)]
pub struct Constants {
    pub skills_per_orbit: Vec<u16>,
    pub orbit_radii: Vec<u16>,
}

/// An alternate ascendancy of the tree data.
#[derive(Debug)]
pub struct AlternateAscendancy {
    pub id: String,
}

/// The orbit data of a cluster jewel size.
#[derive(Debug, Clone, Copy)]
pub struct ClusterOrbitData {
    pub passives: &'static [u16],
    pub notable: &'static [u16],
    pub orbit: u16,
}


impl Class {
    /// The class a name stands for: the variant's own name.
    pub open spec fn named(s: Seq<char>) -> Option<Class> {
        if s == "Scion"@ {
            Some(Class::Scion)
        } else if s == "Marauder"@ {
            Some(Class::Marauder)
        } else if s == "Ranger"@ {
            Some(Class::Ranger)
        } else if s == "Witch"@ {
            Some(Class::Witch)
        } else if s == "Duelist"@ {
            Some(Class::Duelist)
        } else if s == "Templar"@ {
            Some(Class::Templar)
        } else if s == "Shadow"@ {
            Some(Class::Shadow)
        } else {
            None
        }
    }

    /// The class a name stands for, if any.
    pub fn from_str(s: &str) -> (r: Option<Class>)
        ensures
            r == Class::named(s@),
    {
        if str_eq(s, "Scion") {
            Some(Class::Scion)
        } else if str_eq(s, "Marauder") {
            Some(Class::Marauder)
        } else if str_eq(s, "Ranger") {
            Some(Class::Ranger)
        } else if str_eq(s, "Witch") {
            Some(Class::Witch)
        } else if str_eq(s, "Duelist") {
            Some(Class::Duelist)
        } else if str_eq(s, "Templar") {
            Some(Class::Templar)
        } else if str_eq(s, "Shadow") {
            Some(Class::Shadow)
        } else {
            None
        }
    }
}

impl Ascendancy {
    /// The ascendancy a name stands for: the variant's own name.
    pub open spec fn named(s: Seq<char>) -> Option<Ascendancy> {
        if s == "Inquisitor"@ {
            Some(Ascendancy::Inquisitor)
        } else if s == "Hierophant"@ {
            Some(Ascendancy::Hierophant)
        } else if s == "Guardian"@ {
            Some(Ascendancy::Guardian)
        } else if s == "Slayer"@ {
            Some(Ascendancy::Slayer)
        } else if s == "Gladiator"@ {
            Some(Ascendancy::Gladiator)
        } else if s == "Champion"@ {
            Some(Ascendancy::Champion)
        } else if s == "Assassin"@ {
            Some(Ascendancy::Assassin)
        } else if s == "Saboteur"@ {
            Some(Ascendancy::Saboteur)
        } else if s == "Trickster"@ {
            Some(Ascendancy::Trickster)
        } else if s == "Juggernaut"@ {
            Some(Ascendancy::Juggernaut)
        } else if s == "Berserker"@ {
            Some(Ascendancy::Berserker)
        } else if s == "Chieftain"@ {
            Some(Ascendancy::Chieftain)
        } else if s == "Necromancer"@ {
            Some(Ascendancy::Necromancer)
        } else if s == "Occultist"@ {
            Some(Ascendancy::Occultist)
        } else if s == "Elementalist"@ {
            Some(Ascendancy::Elementalist)
        } else if s == "Deadeye"@ {
            Some(Ascendancy::Deadeye)
        } else if s == "Raider"@ {
            Some(Ascendancy::Raider)
        } else if s == "Pathfinder"@ {
            Some(Ascendancy::Pathfinder)
        } else if s == "Ascendant"@ {
            Some(Ascendancy::Ascendant)
        } else if s == "Reliquarian"@ {
            Some(Ascendancy::Reliquarian)
        } else if s == "Aul"@ {
            Some(Ascendancy::Aul)
        } else if s == "Farrul"@ {
            Some(Ascendancy::Farrul)
        } else if s == "Catarina"@ {
            Some(Ascendancy::Catarina)
        } else if s == "Oshabi"@ {
            Some(Ascendancy::Oshabi)
        } else if s == "Olroth"@ {
            Some(Ascendancy::Olroth)
        } else if s == "KingInTheMists"@ {
            Some(Ascendancy::KingInTheMists)
        } else if s == "Delirious"@ {
            Some(Ascendancy::Delirious)
        } else if s == "Lycia"@ {
            Some(Ascendancy::Lycia)
        } else if s == "Trialmaster"@ {
            Some(Ascendancy::Trialmaster)
        } else if s == "Necromantic"@ {
            Some(Ascendancy::Necromantic)
        } else if s == "Breachlord"@ {
            Some(Ascendancy::Breachlord)
        } else if s == "Warlock"@ {
            Some(Ascendancy::Warlock)
        } else if s == "Primalist"@ {
            Some(Ascendancy::Primalist)
        } else if s == "Warden"@ {
            Some(Ascendancy::Warden)
        } else {
            None
        }
    }

    /// The ascendancy a name stands for, if any.
    pub fn from_str(s: &str) -> (r: Option<Ascendancy>)
        ensures
            r == Ascendancy::named(s@),
    {
        if str_eq(s, "Inquisitor") {
            Some(Ascendancy::Inquisitor)
        } else if str_eq(s, "Hierophant") {
            Some(Ascendancy::Hierophant)
        } else if str_eq(s, "Guardian") {
            Some(Ascendancy::Guardian)
        } else if str_eq(s, "Slayer") {
            Some(Ascendancy::Slayer)
        } else if str_eq(s, "Gladiator") {
            Some(Ascendancy::Gladiator)
        } else if str_eq(s, "Champion") {
            Some(Ascendancy::Champion)
        } else if str_eq(s, "Assassin") {
            Some(Ascendancy::Assassin)
        } else if str_eq(s, "Saboteur") {
            Some(Ascendancy::Saboteur)
        } else if str_eq(s, "Trickster") {
            Some(Ascendancy::Trickster)
        } else if str_eq(s, "Juggernaut") {
            Some(Ascendancy::Juggernaut)
        } else if str_eq(s, "Berserker") {
            Some(Ascendancy::Berserker)
        } else if str_eq(s, "Chieftain") {
            Some(Ascendancy::Chieftain)
        } else if str_eq(s, "Necromancer") {
            Some(Ascendancy::Necromancer)
        } else if str_eq(s, "Occultist") {
            Some(Ascendancy::Occultist)
        } else if str_eq(s, "Elementalist") {
            Some(Ascendancy::Elementalist)
        } else if str_eq(s, "Deadeye") {
            Some(Ascendancy::Deadeye)
        } else if str_eq(s, "Raider") {
            Some(Ascendancy::Raider)
        } else if str_eq(s, "Pathfinder") {
            Some(Ascendancy::Pathfinder)
        } else if str_eq(s, "Ascendant") {
            Some(Ascendancy::Ascendant)
        } else if str_eq(s, "Reliquarian") {
            Some(Ascendancy::Reliquarian)
        } else if str_eq(s, "Aul") {
            Some(Ascendancy::Aul)
        } else if str_eq(s, "Farrul") {
            Some(Ascendancy::Farrul)
        } else if str_eq(s, "Catarina") {
            Some(Ascendancy::Catarina)
        } else if str_eq(s, "Oshabi") {
            Some(Ascendancy::Oshabi)
        } else if str_eq(s, "Olroth") {
            Some(Ascendancy::Olroth)
        } else if str_eq(s, "KingInTheMists") {
            Some(Ascendancy::KingInTheMists)
        } else if str_eq(s, "Delirious") {
            Some(Ascendancy::Delirious)
        } else if str_eq(s, "Lycia") {
            Some(Ascendancy::Lycia)
        } else if str_eq(s, "Trialmaster") {
            Some(Ascendancy::Trialmaster)
        } else if str_eq(s, "Necromantic") {
            Some(Ascendancy::Necromantic)
        } else if str_eq(s, "Breachlord") {
            Some(Ascendancy::Breachlord)
        } else if str_eq(s, "Warlock") {
            Some(Ascendancy::Warlock)
        } else if str_eq(s, "Primalist") {
            Some(Ascendancy::Primalist)
        } else if str_eq(s, "Warden") {
            Some(Ascendancy::Warden)
        } else {
            None
        }
    }
}

/// A sprite sheet: its file, its size, and the rectangle of each icon on it.
pub struct Sprite {
    pub filename: String,
    pub w: u16,
    pub h: u16,
    pub coords: Vec<(String, Rect)>,
}

/// The position of the first entry named `k`.
pub open spec fn first_named<V>(v: Seq<(String, V)>, k: Seq<char>) -> Option<int> {
    if exists|i: int| 0 <= i < v.len() && (#[trigger] v[i]).0@ == k {
        Some(choose|i: int| 0 <= i < v.len() && (#[trigger] v[i]).0@ == k && forall|j: int| 0 <= j < i ==> (#[trigger] v[j]).0@ != k)
    } else {
        None
    }
}

/// The first entry named `k`.
pub fn find_named<'a, V>(v: &'a Vec<(String, V)>, k: &str) -> (r: Option<&'a V>)
    ensures
        match first_named(v@, k@) {
            Some(i) => r == Some(&v@[i].1),
            None => r is None,
        },
{
    let mut i: usize = 0;
    while i < v.len()
        invariant
            i <= v@.len(),
            forall|j: int| 0 <= j < i ==> (#[trigger] v@[j]).0@ != k@,
        decreases v.len() - i,
    {
        if str_eq(v[i].0.as_str(), k) {
            proof {
                let c = choose|c: int| 0 <= c < v@.len() && (#[trigger] v@[c]).0@ == k@ && forall|j: int| 0 <= j < c ==> (#[trigger] v@[j]).0@ != k@;
                assert(v@[i as int].0@ == k@);
                if c < i {
                    assert(v@[c].0@ != k@);
                } else if c > i {
                    assert(v@[i as int].0@ != k@);
                }
            }
            return Some(&v[i].1);
        }
        i += 1;
    }
    None
}

/// The sheet a node's icon is drawn from, by its kind.
pub open spec fn rect_sheet(t: NodeType) -> Seq<char> {
    match t {
        NodeType::Normal | NodeType::AscendancyNormal | NodeType::JewelSocket => "normalInactive"@,
        NodeType::Notable | NodeType::AscendancyNotable => "notableInactive"@,
        NodeType::Keystone => "keystoneInactive"@,
        NodeType::Mastery => "masteryConnected"@,
    }
}

impl Node {
    /// The kind of the node.
    pub open spec fn kind(self) -> NodeType {
        spec_node_type(self.ascendancy is Some, self.is_notable, self.is_keystone, self.is_mastery, self.is_jewel_socket)
    }

    /// The icon a node is drawn with: its inactive icon for a mastery, else its icon.
    pub open spec fn drawn_icon(self) -> Seq<char> {
        if self.kind() == NodeType::Mastery { self.inactive_icon->0@ } else { self.icon@ }
    }
}

/// The rectangle of a node's icon and the sheet it lies on: the sheet of the node's kind,
/// and on it the rectangle of the icon it is drawn with; `None` when the sheet has none.
pub fn get_rect<'a>(node: &Node, sprites: &'a Vec<(String, Sprite)>) -> (r: Option<(&'a Rect, &'a Sprite)>)
    requires
        node.kind() == NodeType::Mastery ==> node.inactive_icon is Some,
        first_named(sprites@, rect_sheet(node.kind())) is Some,
    ensures
        ({
            let sprite = sprites@[first_named(sprites@, rect_sheet(node.kind()))->0].1;
            match first_named(sprite.coords@, node.drawn_icon()) {
                Some(k) => r matches Some((rect, sp)) && *rect == sprite.coords@[k].1 && *sp == sprite,
                None => r is None,
            }
        }),
{
    let kind = node.node_type();
    let (key, icon): (&str, &str) = match kind {
        NodeType::Normal | NodeType::AscendancyNormal | NodeType::JewelSocket => ("normalInactive", node.icon.as_str()),
        NodeType::Notable | NodeType::AscendancyNotable => ("notableInactive", node.icon.as_str()),
        NodeType::Keystone => ("keystoneInactive", node.icon.as_str()),
        NodeType::Mastery => ("masteryConnected", node.inactive_icon.as_ref().unwrap().as_str()),
    };
    let sprite = find_named(sprites, key).unwrap();
    let rect = find_named(&sprite.coords, icon)?;
    Some((rect, sprite))
}

} // verus!
