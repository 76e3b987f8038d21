use vstd::prelude::*;
use crate::base_item::Rarity;
use crate::item_text::{ParsedItem, RawItem};
use crate::text::{
    before_space, first_word, parse_i32, parse_i64, parse_u32, parsed_i32, parsed_i64, parsed_u32, remove_chars,
    str_eq, without_chars,
};
use crate::slot::{spec_slot_from_inventory, Slot};
use crate::node_map::{map_get, node_entries};
use crate::tree::PassiveTree;
use crate::tree_data::{copy_strings, Ascendancy, Class, Node};

verus! {

/// A property of an item, as the account import lists it: a name and its values.
#[derive(Debug)]
pub struct ImportedProperty {
    pub name: String,
    pub values: Vec<(String, i32)>,
}

/// An item as the account import lists it.
#[derive(Debug)]
pub struct ImportedItem {
    pub base_type: String,
    pub name: String,
    pub rarity: Rarity,
    pub implicit_mods: Vec<String>,
    pub explicit_mods: Vec<String>,
    pub fractured_mods: Vec<String>,
    pub enchant_mods: Vec<String>,
    pub crafted_mods: Vec<String>,
    pub mutated_mods: Vec<String>,
    pub socketed_items: Option<Vec<ImportedItem>>,
    pub inventory_id: Option<String>,
    pub corrupted: bool,
    pub properties: Vec<ImportedProperty>,
    pub ilvl: Option<i64>,
    pub x: Option<u16>,
}

/// One of the properties has the name `name`.
pub open spec fn has_prop(props: Seq<ImportedProperty>, name: Seq<char>) -> bool {
    exists|i: int| 0 <= i < props.len() && #[trigger] props[i].name@ == name
}

/// The position of the first property named `name`.
pub open spec fn first_prop(props: Seq<ImportedProperty>, name: Seq<char>) -> int {
    choose|i: int| 0 <= i < props.len() && props[i].name@ == name && forall|j: int| 0 <= j < i ==> #[trigger] props[j].name@ != name
}

/// The first value of the first property named `name`, if there are such a property and value.
pub open spec fn first_value(props: Seq<ImportedProperty>, name: Seq<char>) -> Option<Seq<char>> {
    if has_prop(props, name) && props[first_prop(props, name)].values@.len() > 0 {
        Some(props[first_prop(props, name)].values@[0].0@)
    } else {
        None
    }
}

/// The number a property shows: its first value without `+` and `%`, read as an integer.
pub open spec fn spec_prop(item: ImportedItem, name: Seq<char>) -> Option<i64> {
    match first_value(item.properties@, name) {
        Some(v) => parsed_i64(without_chars(v, '+', '%')),
        None => None,
    }
}

/// The position of the first property named `name`.
fn find_prop(props: &Vec<ImportedProperty>, name: &str) -> (r: Option<usize>)
    ensures
        match r {
            Some(i) => has_prop(props@, name@) && i == first_prop(props@, name@) && i < props@.len(),
            None => !has_prop(props@, name@),
        },
{
    let mut i: usize = 0;
    while i < props.len()
        invariant
            i <= props@.len(),
            forall|j: int| 0 <= j < i ==> #[trigger] props@[j].name@ != name@,
        decreases props@.len() - i,
    {
        if str_eq(props[i].name.as_str(), name) {
            proof {
                let k = first_prop(props@, name@);
                assert(props@[i as int].name@ == name@);
                assert(0 <= k < props@.len() && props@[k].name@ == name@ && forall|j: int| 0 <= j < k ==> #[trigger] props@[j].name@ != name@);
                if k < i {
                } else if k > i {
                    assert(props@[i as int].name@ != name@);
                }
            }
            return Some(i);
        }
        i = i + 1;
    }
    None
}

/// The first value of the first property named `name`.
fn first_value_of<'a>(props: &'a Vec<ImportedProperty>, name: &str) -> (r: Option<&'a str>)
    ensures
        match r {
            Some(v) => first_value(props@, name@) == Some(v@),
            None => first_value(props@, name@) is None,
        },
{
    match find_prop(props, name) {
        Some(i) => {
            if props[i].values.len() == 0 {
                None
            } else {
                Some(props[i].values[0].0.as_str())
            }
        },
        None => None,
    }
}

impl ImportedItem {
    /// The number the property `name` shows, if it shows one.
    pub fn prop(&self, name: &str) -> (r: Option<i64>)
        ensures
            r == spec_prop(*self, name@),
    {
        match first_value_of(&self.properties, name) {
            Some(v) => {
                let cleaned = remove_chars(v, '+', '%');
                parse_i64(cleaned.as_str())
            },
            None => None,
        }
    }
}

/// A gem of a link as the import found it.
#[derive(Debug)]
pub struct ImportedGem {
    pub id: String,
    pub level: u32,
    pub qual: i32,
}

/// A socketed gem has a level: its "Level" property has a value.
pub open spec fn level_shown(item: ImportedItem) -> bool {
    first_value(item.properties@, "Level"@) is Some
}

/// A socketed gem's quality property, where it has one, has a value.
pub open spec fn quality_shown(item: ImportedItem) -> bool {
    has_prop(item.properties@, "Quality"@) ==> first_value(item.properties@, "Quality"@) is Some
}

/// The level a socketed gem shows: the first word of its level, 1 where that is no number.
pub open spec fn gem_level(item: ImportedItem) -> u32 {
    match parsed_u32(before_space(first_value(item.properties@, "Level"@)->0)) {
        Some(l) => l,
        None => 1,
    }
}

/// The quality a socketed gem shows: 0 without a quality or where it is no number.
pub open spec fn gem_quality(item: ImportedItem) -> i32 {
    match first_value(item.properties@, "Quality"@) {
        Some(q) => match parsed_i32(without_chars(q, '+', '%')) {
            Some(v) => v,
            None => 0,
        },
        None => 0,
    }
}

/// The level of a socketed gem.
fn read_gem_level(item: &ImportedItem) -> (r: u32)
    requires
        level_shown(*item),
    ensures
        r == gem_level(*item),
{
    let v = match first_value_of(&item.properties, "Level") {
        Some(v) => v,
        None => {
            return 1;
        },
    };
    match parse_u32(first_word(v)) {
        Some(l) => l,
        None => 1,
    }
}

/// The quality of a socketed gem.
fn read_gem_quality(item: &ImportedItem) -> (r: i32)
    requires
        quality_shown(*item),
    ensures
        r == gem_quality(*item),
{
    match first_value_of(&item.properties, "Quality") {
        Some(q) => {
            let cleaned = remove_chars(q, '+', '%');
            match parse_i32(cleaned.as_str()) {
                Some(v) => v,
                None => 0,
            }
        },
        None => 0,
    }
}

/// The position of the first gem whose display name is `name`, among (id, display name) pairs.
pub open spec fn gem_named(gems: Seq<(String, String)>, name: Seq<char>) -> Option<int> {
    if exists|i: int| 0 <= i < gems.len() && #[trigger] gems[i].1@ == name {
        Some(choose|i: int| 0 <= i < gems.len() && gems[i].1@ == name && forall|j: int| 0 <= j < i ==> #[trigger] gems[j].1@ != name)
    } else {
        None
    }
}

/// The position of the first gem displayed as `name`.
pub fn find_gem(gems: &Vec<(String, String)>, name: &str) -> (r: Option<usize>)
    ensures
        match r {
            Some(i) => gem_named(gems@, name@) == Some(i as int) && i < gems@.len(),
            None => gem_named(gems@, name@) is None,
        },
{
    let mut i: usize = 0;
    while i < gems.len()
        invariant
            i <= gems@.len(),
            forall|j: int| 0 <= j < i ==> #[trigger] gems@[j].1@ != name@,
        decreases gems@.len() - i,
    {
        if str_eq(gems[i].1.as_str(), name) {
            proof {
                assert(gems@[i as int].1@ == name@);
                let k = choose|k: int| 0 <= k < gems@.len() && gems@[k].1@ == name@ && forall|j: int| 0 <= j < k ==> #[trigger] gems@[j].1@ != name@;
                if k < i {
                } else if k > i {
                    assert(gems@[i as int].1@ != name@);
                }
            }
            return Some(i);
        }
        i = i + 1;
    }
    None
}

/// The base is one of the known item bases.
pub open spec fn known_base(bases: Seq<String>, base: Seq<char>) -> bool {
    exists|i: int| 0 <= i < bases.len() && #[trigger] bases[i]@ == base
}

/// The item base is known.
fn is_known_base(bases: &Vec<String>, base: &str) -> (r: bool)
    ensures
        r == known_base(bases@, base@),
{
    let mut i: usize = 0;
    while i < bases.len()
        invariant
            i <= bases@.len(),
            forall|j: int| 0 <= j < i ==> #[trigger] bases@[j]@ != base@,
        decreases bases@.len() - i,
    {
        if str_eq(bases[i].as_str(), base) {
            return true;
        }
        i = i + 1;
    }
    false
}

/// `p` is the library's item for the imported `item`: its base, name, rarity and modifiers
/// (explicit ones followed by crafted, fractured and mutated ones), its quality and item
/// level (0 where not shown), and the defences it shows.
pub open spec fn converted(item: ImportedItem, p: ParsedItem) -> bool {
    &&& p.item.base_item@ == item.base_type@
    &&& p.item.name@ == item.name@
    &&& p.item.rarity == item.rarity
    &&& p.item.mods_impl@ == item.implicit_mods@
    &&& p.item.mods_expl@ == item.explicit_mods@ + item.crafted_mods@ + item.fractured_mods@ + item.mutated_mods@
    &&& p.item.mods_enchant@ == item.enchant_mods@
    &&& p.item.quality == match spec_prop(item, "Quality"@) {
        Some(q) => q,
        None => 0,
    }
    &&& p.item.corrupted == item.corrupted
    &&& p.item.item_level == match item.ilvl {
        Some(l) => l,
        None => 0,
    }
    &&& p.item.base_percentile == 0
    &&& p.item.radius is None
    &&& p.armour == spec_prop(item, "Armour"@)
    &&& p.evasion == spec_prop(item, "Evasion Rating"@)
    &&& p.energy_shield == spec_prop(item, "Energy Shield"@)
}

/// Appends copies of the strings.
fn extend_strings(r: &mut Vec<String>, v: &Vec<String>)
    ensures
        final(r)@ == old(r)@ + v@,
{
    let mut i: usize = 0;
    while i < v.len()
        invariant
            i <= v@.len(),
            r@ == old(r)@ + v@.take(i as int),
        decreases v@.len() - i,
    {
        r.push(v[i].clone());
        assert(v@.take(i + 1) == v@.take(i as int).push(v@[i as int]));
        i = i + 1;
    }
    assert(v@.take(v@.len() as int) == v@);
}

/// The library's item for an imported one, when its base is known.
pub fn conv_item(item: &ImportedItem, bases: &Vec<String>) -> (r: Option<ParsedItem>)
    ensures
        r is Some <==> known_base(bases@, item.base_type@),
        r matches Some(p) ==> converted(*item, p),
{
    if !is_known_base(bases, item.base_type.as_str()) {
        return None;
    }
    let mut mods_expl = copy_strings(&item.explicit_mods);
    extend_strings(&mut mods_expl, &item.crafted_mods);
    extend_strings(&mut mods_expl, &item.fractured_mods);
    extend_strings(&mut mods_expl, &item.mutated_mods);
    let quality = match item.prop("Quality") {
        Some(q) => q,
        None => 0,
    };
    let item_level = match item.ilvl {
        Some(l) => l,
        None => 0,
    };
    let raw = RawItem {
        base_item: item.base_type.clone(),
        name: item.name.clone(),
        rarity: item.rarity,
        mods_impl: copy_strings(&item.implicit_mods),
        mods_expl,
        mods_enchant: copy_strings(&item.enchant_mods),
        quality,
        corrupted: item.corrupted,
        item_level,
        base_percentile: 0,
        radius: None,
    };
    Some(ParsedItem {
        item: raw,
        armour: item.prop("Armour"),
        evasion: item.prop("Evasion Rating"),
        energy_shield: item.prop("Energy Shield"),
    })
}

/// The gems among the socketed items, in order: each item whose base is a gem's display
/// name, as (gem id, level, quality).
pub open spec fn socketed_gems(items: Seq<ImportedItem>, names: Seq<(String, String)>) -> Seq<(Seq<char>, u32, i32)>
    decreases items.len(),
{
    if items.len() == 0 {
        Seq::empty()
    } else {
        let prev = socketed_gems(items.drop_last(), names);
        let it = items.last();
        match gem_named(names, it.base_type@) {
            Some(k) => prev.push((names[k].0@, gem_level(it), gem_quality(it))),
            None => prev,
        }
    }
}

/// The jewels among the socketed items, in order: the items that are no gem and whose base
/// is known.
pub open spec fn socketed_jewels(items: Seq<ImportedItem>, names: Seq<(String, String)>, bases: Seq<String>) -> Seq<
    ImportedItem,
>
    decreases items.len(),
{
    if items.len() == 0 {
        Seq::empty()
    } else {
        let prev = socketed_jewels(items.drop_last(), names, bases);
        let it = items.last();
        if gem_named(names, it.base_type@) is None && known_base(bases, it.base_type@) {
            prev.push(it)
        } else {
            prev
        }
    }
}

/// The socketed gems can be read: each shows a level, and its quality where it has one.
pub open spec fn socketed_readable(items: Seq<ImportedItem>, names: Seq<(String, String)>) -> bool {
    forall|i: int|
        0 <= i < items.len() && gem_named(names, (#[trigger] items[i]).base_type@) is Some ==> level_shown(items[i])
            && quality_shown(items[i])
}

/// The (id, level, quality) of each gem.
pub open spec fn gem_views(v: Seq<ImportedGem>) -> Seq<(Seq<char>, u32, i32)> {
    v.map_values(|g: ImportedGem| (g.id@, g.level, g.qual))
}

/// Each converted item is the library's item for its source.
pub open spec fn all_converted(sources: Seq<ImportedItem>, items: Seq<ParsedItem>) -> bool {
    &&& sources.len() == items.len()
    &&& forall|j: int| 0 <= j < items.len() ==> converted(#[trigger] sources[j], items[j])
}

/// The gems and the jewels socketed in an item: `gem_names` pairs gem ids with display
/// names, `bases` lists the known item bases.
pub fn extract_socketed(gems: &Vec<ImportedItem>, gem_names: &Vec<(String, String)>, bases: &Vec<String>) -> (r: (
    Vec<ImportedGem>,
    Vec<ParsedItem>,
))
    requires
        socketed_readable(gems@, gem_names@),
    ensures
        gem_views(r.0@) == socketed_gems(gems@, gem_names@),
        all_converted(socketed_jewels(gems@, gem_names@, bases@), r.1@),
{
    let mut link: Vec<ImportedGem> = Vec::new();
    let mut jewels: Vec<ParsedItem> = Vec::new();
    let mut i: usize = 0;
    while i < gems.len()
        invariant
            i <= gems@.len(),
            socketed_readable(gems@, gem_names@),
            gem_views(link@) == socketed_gems(gems@.take(i as int), gem_names@),
            all_converted(socketed_jewels(gems@.take(i as int), gem_names@, bases@), jewels@),
        decreases gems@.len() - i,
    {
        let gem = &gems[i];
        proof {
            assert(gems@.take(i + 1).drop_last() == gems@.take(i as int));
            assert(gems@.take(i + 1).last() == gems@[i as int]);
        }
        match find_gem(gem_names, gem.base_type.as_str()) {
            Some(k) => {
                let level = read_gem_level(gem);
                let qual = read_gem_quality(gem);
                link.push(ImportedGem { id: gem_names[k].0.clone(), level, qual });
                assert(gem_views(link@) =~= socketed_gems(gems@.take(i + 1), gem_names@));
            },
            None => {
                match conv_item(gem, bases) {
                    Some(jewel) => {
                        jewels.push(jewel);
                    },
                    None => {},
                }
                assert(gem_views(link@) =~= socketed_gems(gems@.take(i + 1), gem_names@));
            },
        }
        i = i + 1;
    }
    assert(gems@.take(gems@.len() as int) == gems@);
    (link, jewels)
}

/// The mastery choices whose node id is a number, in order, as (node, effect).
pub open spec fn parsed_masteries(effects: Seq<(String, u32)>) -> Seq<(u32, u32)>
    decreases effects.len(),
{
    if effects.len() == 0 {
        Seq::empty()
    } else {
        let prev = parsed_masteries(effects.drop_last());
        match parsed_u32(effects.last().0@) {
            Some(id) => prev.push((id, effects.last().1)),
            None => prev,
        }
    }
}

/// The mastery choices of an import, keyed by node id; those whose id is no number are left out.
pub fn parse_masteries(effects: &Vec<(String, u32)>) -> (r: Vec<(u32, u32)>)
    ensures
        r@ == parsed_masteries(effects@),
{
    let mut r: Vec<(u32, u32)> = Vec::new();
    let mut i: usize = 0;
    while i < effects.len()
        invariant
            i <= effects@.len(),
            r@ == parsed_masteries(effects@.take(i as int)),
        decreases effects@.len() - i,
    {
        proof {
            assert(effects@.take(i + 1).drop_last() == effects@.take(i as int));
            assert(effects@.take(i + 1).last() == effects@[i as int]);
        }
        match parse_u32(effects[i].0.as_str()) {
            Some(id) => r.push((id, effects[i].1)),
            None => {},
        }
        i = i + 1;
    }
    assert(effects@.take(effects@.len() as int) == effects@);
    r
}

/// What the character's class name names: a class, or an ascendancy.
#[derive(Debug, Clone, Copy, PartialEq, Eq, Structural)]
pub enum ClassChoice {
    Class(Class),
    Ascendancy(Ascendancy),
}

pub open spec fn spec_class_choice(s: Seq<char>) -> Option<ClassChoice> {
    match Class::named(s) {
        Some(c) => Some(ClassChoice::Class(c)),
        None => match Ascendancy::named(s) {
            Some(a) => Some(ClassChoice::Ascendancy(a)),
            None => None,
        },
    }
}

/// The class or ascendancy a character's class name stands for.
pub fn class_choice(s: &str) -> (r: Option<ClassChoice>)
    ensures
        r == spec_class_choice(s@),
{
    match Class::from_str(s) {
        Some(c) => Some(ClassChoice::Class(c)),
        None => match Ascendancy::from_str(s) {
            Some(a) => Some(ClassChoice::Ascendancy(a)),
            None => None,
        },
    }
}

/// The bloodline an import's alternate ascendancy number stands for: the number counts
/// from 1 in the game's list of alternate ascendancy ids, and the id names the bloodline.
pub open spec fn spec_bloodline(alternate: Option<i32>, ids: Seq<String>) -> Option<Ascendancy> {
    match alternate {
        Some(aa) => if 1 <= aa && aa - 1 < ids.len() {
            Ascendancy::named(ids[aa - 1]@)
        } else {
            None
        },
        None => None,
    }
}

/// The bloodline of an import.
pub fn bloodline_of(alternate: Option<i32>, ids: &Vec<String>) -> (r: Option<Ascendancy>)
    ensures
        r == spec_bloodline(alternate, ids@),
{
    match alternate {
        Some(aa) => {
            if 1 <= aa && ((aa - 1) as usize) < ids.len() {
                Ascendancy::from_str(ids[(aa - 1) as usize].as_str())
            } else {
                None
            }
        },
        None => None,
    }
}

/// How far the campaign has gone, for its rewards.
#[derive(Debug, Clone, Copy, PartialEq, Eq, Structural)]
pub enum CampaignChoice {
    Beach,
    ActFive,
    ActTen,
}

pub open spec fn spec_campaign_choice(level: i64) -> CampaignChoice {
    if level >= 67 {
        CampaignChoice::ActTen
    } else if level >= 45 {
        CampaignChoice::ActFive
    } else {
        CampaignChoice::Beach
    }
}

/// The campaign progress a character of `level` has made: act ten from level 67, act five
/// from level 45, else the beach.
pub fn campaign_choice(level: i64) -> (r: CampaignChoice)
    ensures
        r == spec_campaign_choice(level),
{
    if level >= 67 {
        CampaignChoice::ActTen
    } else if level >= 45 {
        CampaignChoice::ActFive
    } else {
        CampaignChoice::Beach
    }
}

/// The order in which items of a base are equipped: large cluster jewels first, then
/// medium ones, then the rest.
pub open spec fn cluster_rank(base: Seq<char>) -> int {
    if base == "Large Cluster Jewel"@ {
        0
    } else if base == "Medium Cluster Jewel"@ {
        1
    } else {
        2
    }
}

/// The entries of rank `k`, in order; `names[idx]` is the base of inventory item `idx`.
pub open spec fn with_rank(s: Seq<(Slot, usize)>, names: Seq<Seq<char>>, k: int) -> Seq<(Slot, usize)>
    decreases s.len(),
{
    if s.len() == 0 {
        Seq::empty()
    } else if cluster_rank(names[s.last().1 as int]) == k {
        with_rank(s.drop_last(), names, k).push(s.last())
    } else {
        with_rank(s.drop_last(), names, k)
    }
}

/// The equip order: by rank, keeping the import's order within a rank.
pub open spec fn equip_order(s: Seq<(Slot, usize)>, names: Seq<Seq<char>>) -> Seq<(Slot, usize)> {
    with_rank(s, names, 0) + with_rank(s, names, 1) + with_rank(s, names, 2)
}

/// The rank of an item base.
fn rank_of(base: &str) -> (r: u8)
    ensures
        r == cluster_rank(base@),
{
    if str_eq(base, "Large Cluster Jewel") {
        0
    } else if str_eq(base, "Medium Cluster Jewel") {
        1
    } else {
        2
    }
}

/// The entries of one rank, in order.
fn collect_rank(s: &Vec<(Slot, usize)>, inventory: &Vec<ParsedItem>, k: u8, out: &mut Vec<(Slot, usize)>)
    requires
        forall|j: int| 0 <= j < s@.len() ==> (#[trigger] s@[j]).1 < inventory@.len(),
    ensures
        final(out)@ == old(out)@ + with_rank(s@, base_names(inventory@), k as int),
{
    let mut i: usize = 0;
    while i < s.len()
        invariant
            i <= s@.len(),
            forall|j: int| 0 <= j < s@.len() ==> (#[trigger] s@[j]).1 < inventory@.len(),
            out@ == old(out)@ + with_rank(s@.take(i as int), base_names(inventory@), k as int),
        decreases s@.len() - i,
    {
        proof {
            assert(s@.take(i + 1).drop_last() == s@.take(i as int));
            assert(s@.take(i + 1).last() == s@[i as int]);
        }
        let e = s[i];
        if rank_of(inventory[e.1].item.base_item.as_str()) == k {
            out.push(e);
        }
        i = i + 1;
    }
    assert(s@.take(s@.len() as int) == s@);
}

/// The base of each item.
pub open spec fn base_names(inventory: Seq<ParsedItem>) -> Seq<Seq<char>> {
    inventory.map_values(|p: ParsedItem| p.item.base_item@)
}

/// Orders the items to equip so that cluster jewels go in large, then medium, then small,
/// which the nodes they add need.
pub fn order_for_equip(to_equip: &Vec<(Slot, usize)>, inventory: &Vec<ParsedItem>) -> (r: Vec<(Slot, usize)>)
    requires
        forall|j: int| 0 <= j < to_equip@.len() ==> (#[trigger] to_equip@[j]).1 < inventory@.len(),
    ensures
        r@ == equip_order(to_equip@, base_names(inventory@)),
{
    let mut r: Vec<(Slot, usize)> = Vec::new();
    collect_rank(to_equip, inventory, 0, &mut r);
    collect_rank(to_equip, inventory, 1, &mut r);
    collect_rank(to_equip, inventory, 2, &mut r);
    r
}

/// The data of the game an import is read against.
#[derive(Debug)]
pub struct ImportData {
    /// Gem ids with their display names.
    pub gems: Vec<(String, String)>,
    /// The known item bases.
    pub bases: Vec<String>,
    /// The tree's jewel sockets, in the order the import numbers them.
    pub jewel_slots: Vec<u32>,
    /// The ids of the alternate ascendancies, in the game's order.
    pub alternate_ascendancies: Vec<String>,
}

/// What the import gathered from the items so far: the gem links, the items of the
/// inventory (by their imported form), the jewels of abyssal sockets (equipped as they
/// come) and the items to equip afterwards, with their inventory positions.
pub ghost struct PlanState {
    pub links: Seq<Seq<(Seq<char>, u32, i32)>>,
    pub sources: Seq<ImportedItem>,
    pub abyssal: Seq<(Slot, usize)>,
    pub to_equip: Seq<(Slot, usize)>,
}

/// The import before any item.
pub open spec fn empty_plan() -> PlanState {
    PlanState { links: Seq::empty(), sources: Seq::empty(), abyssal: Seq::empty(), to_equip: Seq::empty() }
}

/// What one item adds: its socketed gems as a link and its socketed jewels, each equipped
/// in the next abyssal socket; then, for an item of the inventory whose base is known, the
/// item, to be equipped in the slot its inventory id names, if any.
pub open spec fn plan_step(st: PlanState, item: ImportedItem, data: ImportData) -> PlanState {
    let bases = data.bases@;
    let st1 = socketed_step(st, item, data);
    match item.inventory_id {
        Some(id) => if known_base(bases, item.base_type@) {
            let idx = st1.sources.len();
            let x = match item.x {
                Some(x) => x,
                None => 0,
            };
            PlanState {
                sources: st1.sources.push(item),
                to_equip: match spec_slot_from_inventory(id@, x, data.jewel_slots@) {
                    Some(sl) => st1.to_equip.push((sl, idx as usize)),
                    None => st1.to_equip,
                },
                ..st1
            }
        } else {
            st1
        },
        None => st1,
    }
}

/// What the items socketed in `item` add: their gems as a link, their jewels to the
/// inventory, each equipped in the next abyssal socket.
pub open spec fn socketed_step(st: PlanState, item: ImportedItem, data: ImportData) -> PlanState {
    match item.socketed_items {
        Some(list) => {
            let js = socketed_jewels(list@, data.gems@, data.bases@);
            PlanState {
                links: st.links.push(socketed_gems(list@, data.gems@)),
                sources: st.sources + js,
                abyssal: st.abyssal + abyssal_run(st, js.len()),
                to_equip: st.to_equip,
            }
        },
        None => st,
    }
}

/// `n` jewels equipped in the abyssal sockets after those of `st`, at the inventory
/// positions after those of `st`.
pub open spec fn abyssal_run(st: PlanState, n: nat) -> Seq<(Slot, usize)> {
    Seq::new(n, |j: int| (Slot::AbyssalJewel((st.abyssal.len() + j) as u16), (st.sources.len() + j) as usize))
}

/// What the items add, in order, to `st`.
pub open spec fn plan_from(st: PlanState, items: Seq<ImportedItem>, data: ImportData) -> PlanState
    decreases items.len(),
{
    if items.len() == 0 {
        st
    } else {
        plan_step(plan_from(st, items.drop_last(), data), items.last(), data)
    }
}

/// The items' socketed gems can be read.
pub open spec fn items_readable(items: Seq<ImportedItem>, names: Seq<(String, String)>) -> bool {
    forall|i: int|
        0 <= i < items.len() ==> ((#[trigger] items[i]).socketed_items matches Some(l) ==> socketed_readable(
            l@,
            names,
        ))
}

/// Whether the socketed gems of an item's sockets can be read: each gem shows a level, and
/// its quality where it has one.
pub fn socketed_readable_check(items: &Vec<ImportedItem>, names: &Vec<(String, String)>) -> (r: bool)
    ensures
        r == socketed_readable(items@, names@),
{
    let mut i: usize = 0;
    while i < items.len()
        invariant
            i <= items@.len(),
            forall|j: int| 0 <= j < i && gem_named(names@, (#[trigger] items@[j]).base_type@) is Some
                ==> level_shown(items@[j]) && quality_shown(items@[j]),
        decreases items.len() - i,
    {
        let item = &items[i];
        if find_gem(names, item.base_type.as_str()).is_some() {
            let level = first_value_of(&item.properties, "Level").is_some();
            let quality = match find_prop(&item.properties, "Quality") {
                Some(_) => first_value_of(&item.properties, "Quality").is_some(),
                None => true,
            };
            if !(level && quality) {
                return false;
            }
        }
        i += 1;
    }
    true
}

/// Whether the socketed gems of the items can be read (see `socketed_readable_check`).
pub fn items_readable_check(items: &Vec<ImportedItem>, names: &Vec<(String, String)>) -> (r: bool)
    ensures
        r == items_readable(items@, names@),
{
    let mut i: usize = 0;
    while i < items.len()
        invariant
            i <= items@.len(),
            forall|j: int| 0 <= j < i ==> ((#[trigger] items@[j]).socketed_items matches Some(l) ==> socketed_readable(l@, names@)),
        decreases items.len() - i,
    {
        match &items[i].socketed_items {
            Some(l) => {
                if !socketed_readable_check(l, names) {
                    return false;
                }
            },
            None => {},
        }
        i += 1;
    }
    true
}

proof fn lemma_plan_grows(st: PlanState, items: Seq<ImportedItem>, data: ImportData, j: int)
    requires
        0 <= j <= items.len(),
    ensures
        plan_from(st, items.take(j), data).abyssal.len() <= plan_from(st, items, data).abyssal.len(),
        st.abyssal.len() <= plan_from(st, items, data).abyssal.len(),
    decreases items.len(),
{
    if items.len() > 0 {
        if j == items.len() {
            assert(items.take(j) == items);
        } else {
            assert(items.take(j) == items.drop_last().take(j));
        }
        lemma_plan_grows(st, items.drop_last(), data, if j == items.len() { j - 1 } else { j });
    }
}

/// The (id, level, quality) of the gems of each link.
pub open spec fn link_views(links: Seq<Vec<ImportedGem>>) -> Seq<Seq<(Seq<char>, u32, i32)>> {
    links.map_values(|l: Vec<ImportedGem>| gem_views(l@))
}

/// What the import has built so far.
struct PlanBuilder {
    links: Vec<Vec<ImportedGem>>,
    inventory: Vec<ParsedItem>,
    abyssal: Vec<(Slot, usize)>,
    to_equip: Vec<(Slot, usize)>,
}

/// The builder holds what the state gathered.
spec fn holds(b: PlanBuilder, st: PlanState) -> bool {
    &&& link_views(b.links@) == st.links
    &&& all_converted(st.sources, b.inventory@)
    &&& b.abyssal@ == st.abyssal
    &&& b.to_equip@ == st.to_equip
    &&& forall|j: int| 0 <= j < st.to_equip.len() ==> (#[trigger] st.to_equip[j]).1 < st.sources.len()
}

/// Adds what the items give to the builder.
fn add_items(b: &mut PlanBuilder, items: &Vec<ImportedItem>, data: &ImportData, Ghost(st): Ghost<PlanState>)
    requires
        holds(*old(b), st),
        items_readable(items@, data.gems@),
        plan_from(st, items@, *data).abyssal.len() <= 65535,
    ensures
        holds(*final(b), plan_from(st, items@, *data)),
{
    let mut i: usize = 0;
    while i < items.len()
        invariant
            i <= items@.len(),
            items_readable(items@, data.gems@),
            plan_from(st, items@, *data).abyssal.len() <= 65535,
            holds(*b, plan_from(st, items@.take(i as int), *data)),
        decreases items@.len() - i,
    {
        let item = &items[i];
        let ghost before = plan_from(st, items@.take(i as int), *data);
        proof {
            assert(items@.take(i + 1).drop_last() == items@.take(i as int));
            assert(items@.take(i + 1).last() == items@[i as int]);
            lemma_plan_grows(st, items@, *data, i + 1);
        }
        let ghost after = plan_from(st, items@.take(i + 1), *data);
        let ghost mid = socketed_step(before, *item, *data);
        if let Some(socketed) = &item.socketed_items {
            assert(items@[i as int].socketed_items matches Some(l) ==> socketed_readable(l@, data.gems@));
            let (link, jewels) = extract_socketed(socketed, &data.gems, &data.bases);
            b.links.push(link);
            let ghost js = socketed_jewels(socketed@, data.gems@, data.bases@);
            let ghost inv0 = b.inventory@;
            let ghost aby0 = b.abyssal@;
            assert(link_views(b.links@) =~= mid.links);
            let mut jewels = jewels;
            let base = b.inventory.len();
            let n = jewels.len();
            b.inventory.append(&mut jewels);
            let total = b.inventory.len();
            proof {
                assert forall|j: int| 0 <= j < b.inventory@.len() implies converted(#[trigger] mid.sources[j], b.inventory@[j]) by {
                    if j < inv0.len() {
                        assert(b.inventory@[j] == inv0[j]);
                    } else {
                        assert(mid.sources[j] == js[j - inv0.len()]);
                    }
                }
            }
            // Each jewel is equipped in the next abyssal socket
            let mut k: usize = 0;
            while k < n
                invariant
                    n == js.len(),
                    k <= n,
                    base == before.sources.len(),
                    aby0 == before.abyssal,
                    b.abyssal@ == aby0 + abyssal_run(before, k as nat),
                    mid.abyssal.len() <= 65535,
                    mid.abyssal == before.abyssal + abyssal_run(before, n as nat),
                    total == base + n,
                    b.to_equip@ == before.to_equip,
                    link_views(b.links@) == mid.links,
                    all_converted(mid.sources, b.inventory@),
                    mid.to_equip == before.to_equip,
                    mid.sources.len() == before.sources.len() + n,
                decreases n - k,
            {
                let slot_idx: u16 = b.abyssal.len() as u16;
                b.abyssal.push((Slot::AbyssalJewel(slot_idx), base + k));
                k = k + 1;
                assert(b.abyssal@ =~= aby0 + abyssal_run(before, k as nat));
            }
        }
        assert(holds(*b, mid));
        if let Some(inventory_id) = &item.inventory_id {
            if let Some(item_inv) = conv_item(item, &data.bases) {
                b.inventory.push(item_inv);
                let x = match item.x {
                    Some(x) => x,
                    None => 0,
                };
                if let Ok(slot) = Slot::try_from_inventory(inventory_id.as_str(), x, data.jewel_slots.as_slice()) {
                    b.to_equip.push((slot, b.inventory.len() - 1));
                }
                proof {
                    assert forall|j: int| 0 <= j < b.inventory@.len() implies converted(#[trigger] after.sources[j], b.inventory@[j]) by {
                        if j < b.inventory@.len() - 1 {
                            assert(converted(mid.sources[j], b.inventory@[j]));
                        }
                    }
                }
            }
        }
        assert(holds(*b, after));
        i = i + 1;
    }
    assert(items@.take(items@.len() as int) == items@);
}

/// The character part of an import.
#[derive(Debug)]
pub struct CharacterImport {
    pub level: i64,
    /// The name of the character's class or ascendancy.
    pub class_or_ascendancy: String,
}

/// The items part of an import, with the character.
#[derive(Debug)]
pub struct ItemsSkillsChar {
    pub items: Vec<ImportedItem>,
    pub character: CharacterImport,
}

/// A node a cluster jewel added, as the import places it.
#[derive(Debug)]
pub struct NodeImport {
    pub group: String,
    pub orbit: u16,
    pub orbit_index: u16,
}

/// A group of nodes a cluster jewel added, with the node standing for its socket.
#[derive(Debug)]
pub struct GroupImport {
    pub proxy: String,
    pub nodes: Vec<String>,
    pub orbits: Vec<u16>,
}

/// The nodes and groups a cluster jewel added, keyed by their ids.
#[derive(Debug)]
pub struct SubgraphImport {
    pub groups: Vec<(String, GroupImport)>,
    pub nodes: Vec<(String, NodeImport)>,
}

/// What the import says of a jewel.
#[derive(Debug)]
pub struct JewelDataImport {
    pub subgraph: Option<SubgraphImport>,
}

/// The passive tree part of an import.
#[derive(Debug)]
pub struct PassiveTreeImport {
    pub hashes: Vec<u32>,
    /// The allocated nodes that cluster jewels added, by the import's ids.
    pub hashes_ex: Vec<u32>,
    pub items: Vec<ImportedItem>,
    pub mastery_effects: Vec<(String, u32)>,
    pub alternate_ascendancy: Option<i32>,
    /// The tattoo names applied to nodes.
    pub skill_overrides: Vec<(u32, String)>,
    pub jewel_data: Vec<(String, JewelDataImport)>,
}

/// The position of the first group with the key `key`.
pub open spec fn group_keyed(groups: Seq<(String, GroupImport)>, key: Seq<char>) -> Option<int> {
    if exists|i: int| 0 <= i < groups.len() && #[trigger] groups[i].0@ == key {
        Some(choose|i: int| 0 <= i < groups.len() && groups[i].0@ == key && forall|j: int| 0 <= j < i ==> #[trigger] groups[j].0@ != key)
    } else {
        None
    }
}

fn find_group(groups: &Vec<(String, GroupImport)>, key: &str) -> (r: Option<usize>)
    ensures
        match r {
            Some(i) => group_keyed(groups@, key@) == Some(i as int) && i < groups@.len(),
            None => group_keyed(groups@, key@) is None,
        },
{
    let mut i: usize = 0;
    while i < groups.len()
        invariant
            i <= groups@.len(),
            forall|j: int| 0 <= j < i ==> #[trigger] groups@[j].0@ != key@,
        decreases groups@.len() - i,
    {
        if str_eq(groups[i].0.as_str(), key) {
            proof {
                assert(groups@[i as int].0@ == key@);
                let k = choose|k: int| 0 <= k < groups@.len() && groups@[k].0@ == key@ && forall|j: int| 0 <= j < k ==> #[trigger] groups@[j].0@ != key@;
                if k < i {
                } else if k > i {
                    assert(groups@[i as int].0@ != key@);
                }
            }
            return Some(i);
        }
        i = i + 1;
    }
    None
}

/// The placements a subgraph gives, in order, as (node id, socket node, orbit, orbit index):
/// those of nodes whose id is a number and whose group has a socket node that is a number.
pub open spec fn subgraph_entries(sg: SubgraphImport, n: int) -> Seq<(u32, u32, u16, u16)>
    decreases n,
{
    if n <= 0 {
        Seq::empty()
    } else {
        let prev = subgraph_entries(sg, n - 1);
        match node_entry(sg, n - 1) {
            Some(e) => prev.push(e),
            None => prev,
        }
    }
}

/// The placement the node at `k` of a subgraph gives, if its id and its group's socket
/// node are numbers.
pub open spec fn node_entry(sg: SubgraphImport, k: int) -> Option<(u32, u32, u16, u16)> {
    let node = sg.nodes@[k].1;
    match parsed_u32(sg.nodes@[k].0@) {
        Some(node_id) => match group_keyed(sg.groups@, node.group@) {
            Some(g) => match parsed_u32(sg.groups@[g].1.proxy@) {
                Some(proxy) => Some((node_id, proxy, node.orbit, node.orbit_index)),
                None => None,
            },
            None => None,
        },
        None => None,
    }
}

/// The placement of the node at `k`.
fn read_node_entry(sg: &SubgraphImport, k: usize) -> (r: Option<(u32, u32, u16, u16)>)
    requires
        k < sg.nodes@.len(),
    ensures
        r == node_entry(*sg, k as int),
{
    let node = &sg.nodes[k].1;
    match parse_u32(sg.nodes[k].0.as_str()) {
        Some(node_id) => match find_group(&sg.groups, node.group.as_str()) {
            Some(g) => match parse_u32(sg.groups[g].1.proxy.as_str()) {
                Some(proxy) => Some((node_id, proxy, node.orbit, node.orbit_index)),
                None => None,
            },
            None => None,
        },
        None => None,
    }
}

/// Appends the placements of a subgraph.
fn add_subgraph(r: &mut Vec<(u32, u32, u16, u16)>, sg: &SubgraphImport)
    ensures
        final(r)@ == old(r)@ + subgraph_entries(*sg, sg.nodes@.len() as int),
{
    let mut k: usize = 0;
    while k < sg.nodes.len()
        invariant
            k <= sg.nodes@.len(),
            r@ == old(r)@ + subgraph_entries(*sg, k as int),
        decreases sg.nodes@.len() - k,
    {
        match read_node_entry(sg, k) {
            Some(e) => {
                r.push(e);
                assert(r@ =~= old(r)@ + subgraph_entries(*sg, k + 1));
            },
            None => {},
        }
        k = k + 1;
    }
}

/// The placements all the jewels give, in order.
pub open spec fn lookup_entries(jd: Seq<(String, JewelDataImport)>) -> Seq<(u32, u32, u16, u16)>
    decreases jd.len(),
{
    if jd.len() == 0 {
        Seq::empty()
    } else {
        lookup_entries(jd.drop_last()) + match jd.last().1.subgraph {
            Some(sg) => subgraph_entries(sg, sg.nodes@.len() as int),
            None => Seq::empty(),
        }
    }
}

/// The placements of the nodes cluster jewels added, from the import's jewel data.
pub fn cluster_lookup(jd: &Vec<(String, JewelDataImport)>) -> (r: Vec<(u32, u32, u16, u16)>)
    ensures
        r@ == lookup_entries(jd@),
{
    let mut r: Vec<(u32, u32, u16, u16)> = Vec::new();
    let mut i: usize = 0;
    while i < jd.len()
        invariant
            i <= jd@.len(),
            r@ == lookup_entries(jd@.take(i as int)),
        decreases jd@.len() - i,
    {
        proof {
            assert(jd@.take(i + 1).drop_last() == jd@.take(i as int));
            assert(jd@.take(i + 1).last() == jd@[i as int]);
        }
        if let Some(sg) = &jd[i].1.subgraph {
            add_subgraph(&mut r, sg);
        }
        i = i + 1;
    }
    assert(jd@.take(jd@.len() as int) == jd@);
    r
}

/// The tattoos of an import, copied.
fn copy_overrides(v: &Vec<(u32, String)>) -> (r: Vec<(u32, String)>)
    ensures
        r@ == v@,
{
    let mut r: Vec<(u32, String)> = Vec::new();
    let mut i: usize = 0;
    while i < v.len()
        invariant
            i <= v@.len(),
            r@ == v@.take(i as int),
        decreases v@.len() - i,
    {
        r.push((v[i].0, v[i].1.clone()));
        assert(v@.take(i + 1) == v@.take(i as int).push(v@[i as int]));
        i = i + 1;
    }
    assert(v@.take(v@.len() as int) == v@);
    r
}

/// The class name of the import names neither a class nor an ascendancy.
#[derive(Debug, Clone, Copy, PartialEq, Eq, Structural)]
pub struct ParseError;

/// A character as the account import gives it, ready to become a build.
#[derive(Debug)]
pub struct CharacterPlan {
    pub name: String,
    pub level: i64,
    pub class: ClassChoice,
    pub nodes: Vec<u32>,
    pub masteries: Vec<(u32, u32)>,
    pub tattoos: Vec<(u32, String)>,
    pub bloodline: Option<Ascendancy>,
    pub gem_links: Vec<Vec<ImportedGem>>,
    pub inventory: Vec<ParsedItem>,
    /// Jewels of abyssal sockets, equipped as they are found, with their inventory positions.
    pub abyssal: Vec<(Slot, usize)>,
    /// The other items to equip, in the order to equip them, with their inventory positions.
    pub to_equip: Vec<(Slot, usize)>,
    /// Where the nodes cluster jewels added sit, for `hashes_ex`.
    pub cluster_lookup: Vec<(u32, u32, u16, u16)>,
    pub hashes_ex: Vec<u32>,
    pub import_account: (String, String),
    pub campaign_choice: CampaignChoice,
}

/// The base of each imported item.
pub open spec fn source_bases(s: Seq<ImportedItem>) -> Seq<Seq<char>> {
    s.map_values(|it: ImportedItem| it.base_type@)
}

/// What the import gathered from the tree's items, then from the character's items.
pub open spec fn import_plan(tree: PassiveTreeImport, items: ItemsSkillsChar, data: ImportData) -> PlanState {
    plan_from(plan_from(empty_plan(), tree.items@, data), items.items@, data)
}

/// The import can be read without failing: the socketed gems show their levels, and there
/// are abyssal sockets enough.
pub open spec fn import_ok(tree: PassiveTreeImport, items: ItemsSkillsChar, data: ImportData) -> bool {
    &&& items_readable(tree.items@, data.gems@)
    &&& items_readable(items.items@, data.gems@)
    &&& import_plan(tree, items, data).abyssal.len() <= 65535
}

/// A character of an account, from what the passive tree and items requests returned: its
/// class or ascendancy, allocated nodes, masteries, tattoos and bloodline, its gem links
/// and items, where to equip them (cluster jewels large first), and its campaign progress.
/// Fails when the class name names neither a class nor an ascendancy.
pub fn character(
    account: &str,
    character_name: &str,
    tree_import: &PassiveTreeImport,
    items_import: &ItemsSkillsChar,
    data: &ImportData,
) -> (r: Result<CharacterPlan, ParseError>)
    requires
        import_ok(*tree_import, *items_import, *data),
    ensures
        r is Err <==> spec_class_choice(items_import.character.class_or_ascendancy@) is None,
        r matches Ok(p) ==> {
            let st = import_plan(*tree_import, *items_import, *data);
            &&& p.name@ == character_name@
            &&& p.level == items_import.character.level
            &&& spec_class_choice(items_import.character.class_or_ascendancy@) == Some(p.class)
            &&& p.nodes@ == tree_import.hashes@
            &&& p.masteries@ == parsed_masteries(tree_import.mastery_effects@)
            &&& p.tattoos@ == tree_import.skill_overrides@
            &&& p.bloodline == spec_bloodline(tree_import.alternate_ascendancy, data.alternate_ascendancies@)
            &&& link_views(p.gem_links@) == st.links
            &&& all_converted(st.sources, p.inventory@)
            &&& p.abyssal@ == st.abyssal
            &&& p.to_equip@ == equip_order(st.to_equip, source_bases(st.sources))
            &&& p.cluster_lookup@ == lookup_entries(tree_import.jewel_data@)
            &&& p.hashes_ex@ == tree_import.hashes_ex@
            &&& p.import_account.0@ == account@
            &&& p.import_account.1@ == character_name@
            &&& p.campaign_choice == spec_campaign_choice(items_import.character.level)
        },
{
    let class = match class_choice(items_import.character.class_or_ascendancy.as_str()) {
        Some(c) => c,
        None => {
            return Err(ParseError);
        },
    };
    let masteries = parse_masteries(&tree_import.mastery_effects);
    let tattoos = copy_overrides(&tree_import.skill_overrides);
    let bloodline = bloodline_of(tree_import.alternate_ascendancy, &data.alternate_ascendancies);

    let mut b = PlanBuilder { links: Vec::new(), inventory: Vec::new(), abyssal: Vec::new(), to_equip: Vec::new() };
    proof {
        assert(link_views(b.links@) =~= empty_plan().links);
        let s1 = plan_from(empty_plan(), tree_import.items@, *data);
        lemma_plan_grows(s1, items_import.items@, *data, 0);
    }
    add_items(&mut b, &tree_import.items, data, Ghost(empty_plan()));
    add_items(&mut b, &items_import.items, data, Ghost(plan_from(empty_plan(), tree_import.items@, *data)));
    let ghost st = import_plan(*tree_import, *items_import, *data);

    // Cluster jewels go in large first, then medium, then small, so that the nodes they
    // add connect
    let to_equip = order_for_equip(&b.to_equip, &b.inventory);
    proof {
        assert(base_names(b.inventory@) =~= source_bases(st.sources)) by {
            assert forall|j: int| 0 <= j < b.inventory@.len() implies base_names(b.inventory@)[j] == source_bases(st.sources)[j] by {
                assert(converted(st.sources[j], b.inventory@[j]));
            }
        }
    }
    let level = items_import.character.level;
    Ok(CharacterPlan {
        name: String::from_str(character_name),
        level,
        class,
        nodes: tree_import.hashes.clone(),
        masteries,
        tattoos,
        bloodline,
        gem_links: b.links,
        inventory: b.inventory,
        abyssal: b.abyssal,
        to_equip,
        cluster_lookup: cluster_lookup(&tree_import.jewel_data),
        hashes_ex: tree_import.hashes_ex.clone(),
        import_account: (String::from_str(account), String::from_str(character_name)),
        campaign_choice: campaign_choice(level),
    })
}

/// The placement the import gives the node `h`: that of the last entry for it.
pub open spec fn placement(lookup: Seq<(u32, u32, u16, u16)>, h: u32) -> Option<(u32, u16, u16)>
    decreases lookup.len(),
{
    if lookup.len() == 0 {
        None
    } else if lookup.last().0 == h {
        Some((lookup.last().1, lookup.last().2, lookup.last().3))
    } else {
        placement(lookup.drop_last(), h)
    }
}

/// The first node cluster jewels added in group `g`, orbit `o`, at orbit index `oi`.
pub open spec fn cluster_node_at(nc: Seq<(u32, Node)>, g: u16, o: u16, oi: u16) -> Option<u32> {
    if exists|i: int| 0 <= i < nc.len() && #[trigger] at_place(nc[i].1, g, o, oi) {
        Some(nc[choose|i: int| 0 <= i < nc.len() && at_place(nc[i].1, g, o, oi) && forall|j: int| 0 <= j < i ==> !#[trigger] at_place(nc[j].1, g, o, oi)].1.skill)
    } else {
        None
    }
}

/// The node sits in group `g`, orbit `o`, at orbit index `oi`.
pub open spec fn at_place(n: Node, g: u16, o: u16, oi: u16) -> bool {
    n.group == Some(g) && n.orbit == Some(o) && n.orbit_index == Some(oi)
}

/// The node of this tree the import's cluster node `h` stands for: the added node at the
/// place the import gives it, in the group of its socket node.
pub open spec fn imported_cluster_node(tree: Map<u32, Node>, nc: Seq<(u32, Node)>, lookup: Seq<(u32, u32, u16, u16)>, h: u32) -> Option<u32> {
    match placement(lookup, h) {
        Some((proxy, o, oi)) => if tree.contains_key(proxy) && tree[proxy].group is Some {
            cluster_node_at(nc, tree[proxy].group->0, o, oi)
        } else {
            None
        },
        None => None,
    }
}

/// The nodes the import's cluster nodes stand for, in order, leaving out those it cannot place.
pub open spec fn imported_cluster_nodes(tree: Map<u32, Node>, nc: Seq<(u32, Node)>, lookup: Seq<(u32, u32, u16, u16)>, hs: Seq<u32>) -> Seq<u32>
    decreases hs.len(),
{
    if hs.len() == 0 {
        Seq::empty()
    } else {
        let prev = imported_cluster_nodes(tree, nc, lookup, hs.drop_last());
        match imported_cluster_node(tree, nc, lookup, hs.last()) {
            Some(id) => prev.push(id),
            None => prev,
        }
    }
}

/// The placement of `h`.
fn find_placement(lookup: &Vec<(u32, u32, u16, u16)>, h: u32) -> (r: Option<(u32, u16, u16)>)
    ensures
        r == placement(lookup@, h),
{
    let mut i: usize = lookup.len();
    assert(lookup@.take(lookup@.len() as int) == lookup@);
    while i > 0
        invariant
            i <= lookup@.len(),
            placement(lookup@, h) == placement(lookup@.take(i as int), h),
        decreases i,
    {
        proof {
            assert(lookup@.take(i as int).drop_last() == lookup@.take(i - 1));
            assert(lookup@.take(i as int).last() == lookup@[i - 1]);
        }
        let e = lookup[i - 1];
        if e.0 == h {
            return Some((e.1, e.2, e.3));
        }
        i = i - 1;
    }
    None
}

impl PassiveTree {
    /// The added node at a place.
    fn cluster_node_at(&self, g: u16, o: u16, oi: u16) -> (r: Option<u32>)
        ensures
            r == cluster_node_at(self.nodes_cluster@, g, o, oi),
    {
        let mut i: usize = 0;
        while i < self.nodes_cluster.len()
            invariant
                i <= self.nodes_cluster@.len(),
                forall|j: int| 0 <= j < i ==> !#[trigger] at_place(self.nodes_cluster@[j].1, g, o, oi),
            decreases self.nodes_cluster@.len() - i,
        {
            let n = &self.nodes_cluster[i].1;
            if n.group == Some(g) && n.orbit == Some(o) && n.orbit_index == Some(oi) {
                proof {
                    let nc = self.nodes_cluster@;
                    assert(at_place(nc[i as int].1, g, o, oi));
                    let k = choose|k: int| 0 <= k < nc.len() && at_place(nc[k].1, g, o, oi) && forall|j: int| 0 <= j < k ==> !#[trigger] at_place(nc[j].1, g, o, oi);
                    if k < i {
                    } else if k > i {
                        assert(!at_place(nc[i as int].1, g, o, oi));
                    }
                }
                return Some(n.skill);
            }
            i = i + 1;
        }
        None
    }

    /// Allocates the nodes cluster jewels added that an import lists by its own ids
    /// (`hashes_ex`), placing each by `lookup` (see `cluster_lookup`).
    pub fn allocate_imported_cluster_nodes(&mut self, lookup: &Vec<(u32, u32, u16, u16)>, hashes_ex: &Vec<u32>)
        ensures
            final(self).nodes@ == old(self).nodes@ + imported_cluster_nodes(
                node_entries(old(self).tree_nodes),
                old(self).nodes_cluster@,
                lookup@,
                hashes_ex@,
            ),
            final(self).nodes_cluster == old(self).nodes_cluster,
            final(self).nodes_data == old(self).nodes_data,
            final(self).tree_nodes == old(self).tree_nodes,
            final(self).class == old(self).class,
            final(self).ascendancy == old(self).ascendancy,
            final(self).bloodline == old(self).bloodline,
            final(self).nodes_additional == old(self).nodes_additional,
            final(self).masteries == old(self).masteries,
            final(self).tattoos == old(self).tattoos,
    {
        let ghost tree = node_entries(self.tree_nodes);
        let mut i: usize = 0;
        while i < hashes_ex.len()
            invariant
                i <= hashes_ex@.len(),
                tree == node_entries(self.tree_nodes),
                self.nodes@ == old(self).nodes@ + imported_cluster_nodes(tree, self.nodes_cluster@, lookup@, hashes_ex@.take(i as int)),
                self.nodes_cluster == old(self).nodes_cluster,
                self.nodes_data == old(self).nodes_data,
                self.tree_nodes == old(self).tree_nodes,
                self.class == old(self).class,
                self.ascendancy == old(self).ascendancy,
                self.bloodline == old(self).bloodline,
                self.nodes_additional == old(self).nodes_additional,
                self.masteries == old(self).masteries,
                self.tattoos == old(self).tattoos,
            decreases hashes_ex@.len() - i,
        {
            proof {
                assert(hashes_ex@.take(i + 1).drop_last() == hashes_ex@.take(i as int));
                assert(hashes_ex@.take(i + 1).last() == hashes_ex@[i as int]);
            }
            let h = hashes_ex[i];
            if let Some((proxy_id, orbit, orbit_index)) = find_placement(lookup, h) {
                if let Some(proxy_node) = map_get(&self.tree_nodes, proxy_id) {
                    if let Some(group_id) = proxy_node.group {
                        if let Some(skill) = self.cluster_node_at(group_id, orbit, orbit_index) {
                            self.nodes.push(skill);
                        }
                    }
                }
            }
            i = i + 1;
        }
        assert(hashes_ex@.take(hashes_ex@.len() as int) == hashes_ex@);
    }
}

} // verus!
