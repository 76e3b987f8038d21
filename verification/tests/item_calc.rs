use lightning::base_item::{BaseItem, ItemClass, Properties, PropertyMinMax, Rarity};
use lightning::damage::DamageType;
use lightning::item::{JewelRadius, JewelRadiusData};
use lightning::item_calc::{
    accuracy, allocates_nodes, attack_speed, block_chance, calc_defence, calc_dmg, calc_mods, crit_chance, effect,
    item_kind, jewel_effect_distance_class, local_mods, match_local, name, radius_data, reverse_base_percentile,
    LocalKind,
};
use lightning::item_text::RawItem;
use lightning::modifier::{BuildFlag, Mod, Type};
use lightning::stat_id::StatId;

fn props() -> Properties {
    Properties {
        armour: None,
        physical_damage_max: None,
        physical_damage_min: None,
        attack_time: None,
        evasion: None,
        energy_shield: None,
        critical_strike_chance: None,
        block: None,
    }
}

fn base(name: &str, tags: &[&str], class: ItemClass, properties: Properties) -> BaseItem {
    BaseItem {
        name: name.to_string(),
        tags: tags.iter().map(|t| t.to_string()).collect(),
        implicits: vec![],
        item_class: class,
        properties,
        requirements: None,
    }
}

fn raw(name: &str, quality: i64, base_percentile: i64, radius: Option<JewelRadius>) -> RawItem {
    RawItem {
        base_item: String::new(),
        name: name.to_string(),
        rarity: Rarity::Rare,
        mods_impl: vec![],
        mods_expl: vec![],
        mods_enchant: vec![],
        quality,
        corrupted: false,
        item_level: 84,
        base_percentile,
        radius,
    }
}

fn sword() -> BaseItem {
    let mut p = props();
    p.physical_damage_min = Some(10);
    p.physical_damage_max = Some(20);
    p.attack_time = Some(800);
    p.critical_strike_chance = Some(500);
    base("Corsair Sword", &["weapon", "sword"], ItemClass::OneHandSword, p)
}

fn plate() -> BaseItem {
    let mut p = props();
    p.armour = Some(PropertyMinMax { min: 100, max: 200 });
    base("Plate Vest", &["armour", "body_armour"], ItemClass::BodyArmour, p)
}

fn stat_of(m: &Mod) -> StatId {
    m.as_stat().unwrap().stat
}

#[test]
fn item_kinds_follow_tags() {
    assert_eq!(item_kind(&sword()), LocalKind::Weapon);
    assert_eq!(item_kind(&plate()), LocalKind::Armour);
    assert_eq!(item_kind(&base("Life Flask", &["flask"], ItemClass::LifeFlask, props())), LocalKind::Flask);
    assert_eq!(item_kind(&base("Ruby Ring", &["ring"], ItemClass::Ring, props())), LocalKind::Other);
}

#[test]
fn local_table_matches_plain_modifiers_only() {
    let table = local_mods(LocalKind::Weapon);
    assert!(match_local(&Mod::stat(StatId::PhysicalDamage, Type::Inc, 50), &table));
    assert!(!match_local(&Mod::stat(StatId::PhysicalDamage, Type::More, 50), &table));
    assert!(!match_local(&Mod::stat(StatId::Strength, Type::Base, 10), &table));
    let armour = local_mods(LocalKind::Armour);
    assert!(match_local(&Mod::build_flag(BuildFlag::QualityNoDefences), &armour));
    assert!(local_mods(LocalKind::Other).is_empty());
}

#[test]
fn modifiers_split_into_local_and_global() {
    let mods = vec![
        Mod::stat(StatId::PhysicalDamage, Type::Inc, 50),
        Mod::stat(StatId::Strength, Type::Base, 10),
        Mod::stat(StatId::AttackSpeed, Type::Inc, 10),
    ];
    let local = calc_mods(&sword(), &mods, true);
    assert_eq!(local.len(), 2);
    assert_eq!(stat_of(&local[0]), StatId::PhysicalDamage);
    assert_eq!(stat_of(&local[1]), StatId::AttackSpeed);
    let global = calc_mods(&sword(), &mods, false);
    assert_eq!(global.len(), 1);
    assert_eq!(stat_of(&global[0]), StatId::Strength);
    // On a ring nothing is local.
    let ring = base("Ruby Ring", &["ring"], ItemClass::Ring, props());
    assert_eq!(calc_mods(&ring, &mods, true).len(), 0);
    assert_eq!(calc_mods(&ring, &mods, false).len(), 3);
}

#[test]
fn weapon_damage_takes_quality_and_local_increase() {
    let local = vec![Mod::stat(StatId::PhysicalDamage, Type::Inc, 50)];
    let item = raw("", 20, 0, None);
    // 10-20 physical, 50% increased, 20% quality: 18-36.
    assert_eq!(calc_dmg(&item, &sword(), &local, DamageType::Physical), Some((18, 36)));
    // No fire damage on the sword.
    assert_eq!(calc_dmg(&item, &sword(), &local, DamageType::Fire), None);
    let added = vec![
        Mod::stat(StatId::AddedMinFireDamage, Type::Base, 5),
        Mod::stat(StatId::AddedMaxFireDamage, Type::Base, 9),
    ];
    assert_eq!(calc_dmg(&item, &sword(), &added, DamageType::Fire), Some((5, 9)));
    // Armour has no damage.
    assert_eq!(calc_dmg(&item, &plate(), &local, DamageType::Physical), None);
}

#[test]
fn attack_time_divides_by_attack_speed() {
    let local = vec![Mod::stat(StatId::AttackSpeed, Type::Inc, 25)];
    // 800 ms at 25% increased attack speed: 640 ms.
    assert_eq!(attack_speed(&sword(), &local), Some(640));
    assert_eq!(attack_speed(&sword(), &vec![]), Some(800));
    assert_eq!(attack_speed(&plate(), &local), None);
}

#[test]
fn base_chances_take_local_modifiers() {
    let local = vec![Mod::stat(StatId::CriticalStrikeChance, Type::Inc, 20)];
    assert_eq!(crit_chance(&sword(), &local), Some(600));
    assert_eq!(crit_chance(&plate(), &local), None);
    let mut p = props();
    p.block = Some(25);
    let shield = base("Tower Shield", &["armour", "shield"], ItemClass::Shield, p);
    let local = vec![Mod::stat(StatId::ChanceToBlockAttackDamage, Type::Inc, 20)];
    assert_eq!(block_chance(&shield, &local), Some(30));
    let acc = accuracy(&vec![Mod::stat(StatId::AccuracyRating, Type::Base, 120)]);
    assert_eq!(acc.val(), 120);
}

#[test]
fn armour_defence_at_percentile_with_quality() {
    let item = raw("", 20, 50, None);
    let local = vec![Mod::stat(StatId::Armour, Type::Inc, 100)];
    // 100..200 at 50%: 150; doubled, then 20% quality: 360.
    let d = calc_defence(&item, &plate(), &local);
    assert_eq!(d.armour.val(), 360);
    assert_eq!(d.evasion.val(), 0);
    assert_eq!(d.energy_shield.val(), 0);
    assert_eq!(d.block_chance.val(), 0);
    // A modifier that takes quality off the defences.
    let local = vec![Mod::stat(StatId::Armour, Type::Inc, 100), Mod::build_flag(BuildFlag::QualityNoDefences)];
    let d = calc_defence(&item, &plate(), &local);
    assert_eq!(d.armour.val(), 300);
    // A weapon has no defences.
    let d = calc_defence(&item, &sword(), &vec![]);
    assert_eq!(d.armour.val(), 0);
}

#[test]
fn percentile_is_found_back_from_shown_armour() {
    let local = vec![Mod::stat(StatId::Armour, Type::Inc, 100)];
    let mut item = raw("", 20, 0, None);
    reverse_base_percentile(&mut item, &plate(), &local, 360, 0, 0);
    assert_eq!(item.base_percentile, 50);
    // Shown armour on a base without armour changes nothing.
    let mut item = raw("", 20, 7, None);
    let ring = base("Ruby Ring", &["ring"], ItemClass::Ring, props());
    reverse_base_percentile(&mut item, &ring, &vec![], 360, 0, 0);
    assert_eq!(item.base_percentile, 7);
    // The top of the range.
    let mut item = raw("", 0, 0, None);
    reverse_base_percentile(&mut item, &plate(), &vec![], 200, 0, 0);
    assert_eq!(item.base_percentile, 100);
}

#[test]
fn flask_effect_and_tincture_quality() {
    let local = vec![Mod::stat(StatId::Effect, Type::Inc, 30)];
    let item = raw("", 20, 0, None);
    let flask = base("Life Flask", &["flask"], ItemClass::LifeFlask, props());
    let e = effect(&item, &flask, &local);
    assert_eq!(e.mult(), 13000);
    let tincture = base("Rosethorn Tincture", &["tincture"], ItemClass::UtilityFlask, props());
    let e = effect(&item, &tincture, &local);
    assert_eq!(e.mult(), 15600);
}

#[test]
fn jewels_radius_and_allocations() {
    let item = raw("", 0, 0, Some(JewelRadius::Medium));
    assert_eq!(radius_data(&item, &vec![]), Some(JewelRadiusData { inner: 0, outer: 1440 }));
    let item = raw("", 0, 0, Some(JewelRadius::Variable));
    assert_eq!(radius_data(&item, &vec![]), None);
    let mods = vec![Mod::ring_size(JewelRadius::Large), Mod::ring_size(JewelRadius::Small)];
    assert_eq!(radius_data(&item, &mods), Some(JewelRadiusData { inner: 1680, outer: 2040 }));
    assert_eq!(radius_data(&raw("", 0, 0, None), &mods), None);
    assert!(allocates_nodes(&vec![Mod::stat(StatId::Strength, Type::Base, 1), Mod::allocate(12345)]));
    assert!(!allocates_nodes(&vec![Mod::stat(StatId::Strength, Type::Base, 1)]));
    assert_eq!(jewel_effect_distance_class(&vec![]), None);
    assert_eq!(jewel_effect_distance_class(&vec![Mod::stat(StatId::ItemEffectDistanceClass, Type::Base, 2)]), Some(2));
}

#[test]
fn item_name_falls_back_to_base() {
    let named = raw("Kaom's Heart", 0, 0, None);
    assert_eq!(name(&named, &plate()), "Kaom's Heart");
    let unnamed = raw("", 0, 0, None);
    assert_eq!(name(&unnamed, &plate()), "Plate Vest");
}

use lightning::cluster_jewel::{get_cluster, small_passive_grant};
use lightning::tree::blank_node;

fn tree_node(skill: u32, name: &str, stat: &str, group: Option<u16>) -> lightning::tree_data::Node {
    let mut n = blank_node();
    n.skill = skill;
    n.name = name.to_string();
    n.stats = vec![stat.to_string()];
    n.group = group;
    n
}

#[test]
fn cluster_jewel_is_read_from_its_lines() {
    let nodes = vec![
        tree_node(4000, "Fire", "12% increased Fire Damage", Some(3)),
        tree_node(5000, "Fire", "12% increased Fire Damage", None),
        tree_node(6000, "Burning Bright", "Ignites deal more", None),
    ];
    let mut item = raw("", 0, 0, None);
    item.mods_enchant = vec!["Added Small Passive Skills grant: 12% increased FIRE Damage".to_string()];
    item.mods_expl = vec![
        "1 Added Passive Skill is Burning Bright".to_string(),
        "Added Small Passive Skills also grant: +5 to Strength".to_string(),
        "1 Added Passive Skill is Nothing Known".to_string(),
    ];
    assert_eq!(small_passive_grant(&item, &nodes), Some(5000));
    let jewel = base("Large Cluster Jewel", &["jewel"], ItemClass::Jewel, props());
    let mods = vec![Mod::stat(StatId::AllocatesPassiveSkills, Type::Base, 8), Mod::stat(StatId::AddedPassivesAreJewelSockets, Type::Base, 1)];
    let c = get_cluster(&item, &jewel, &mods, &nodes).unwrap();
    assert_eq!(c.small_passives_amount, 8);
    assert_eq!(c.small_passives_node_id, 5000);
    assert_eq!(c.added_sockets_amount, 1);
    assert_eq!(c.notables.len(), 1);
    assert_eq!(c.notables[0].skill, 6000);
    assert_eq!(c.added_stats, vec!["+5 to Strength".to_string()]);
    // Not a cluster jewel, or no small passives: nothing.
    let ring = base("Ruby Ring", &["ring"], ItemClass::Ring, props());
    assert!(get_cluster(&item, &ring, &mods, &nodes).is_none());
    assert!(get_cluster(&item, &jewel, &vec![], &nodes).is_none());
    // Without a line naming a node, the modifiers give it.
    let plain = raw("", 0, 0, None);
    assert_eq!(small_passive_grant(&plain, &nodes), None);
    let mods = vec![Mod::stat(StatId::AllocatesPassiveSkills, Type::Base, 4), Mod::stat(StatId::AddedPassiveSkillsGrantNode, Type::Base, 777)];
    assert_eq!(get_cluster(&plain, &jewel, &mods, &nodes).unwrap().small_passives_node_id, 777);
}
