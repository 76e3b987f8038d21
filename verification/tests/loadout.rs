use lightning::base_item::ItemClass;
use lightning::eval::{eval_stat, EvalContext};
use lightning::evaluator::BuildFacts;
use lightning::import::CampaignChoice;
use lightning::loadout::{
    bandit_stats, base_mods, campaign_stats, two_handed, BanditChoice, Build, InventoryItem, MonsterStats,
};
use lightning::modifier::{Mod, Source, Type};
use lightning::property;
use lightning::slot::Slot;
use lightning::stat::calc_stats;
use lightning::stat_id::StatId;
use lightning::tree::{blank_node, PassiveTree};
use lightning::tree_data::{ClassData, Node};

fn node(id: u32, ins: &[u32], outs: &[u32]) -> Node {
    let mut n = blank_node();
    n.skill = id;
    n.in_ = Some(ins.to_vec());
    n.out = Some(outs.to_vec());
    n
}

fn tree() -> PassiveTree {
    let mut start = node(1, &[], &[2]);
    start.class_start_index = Some(0);
    let n2 = node(2, &[1], &[]);
    PassiveTree::new(vec![start, n2], vec![1, 6, 16, 16])
}

fn item(class: ItemClass, mods: Vec<Mod>) -> InventoryItem {
    InventoryItem { item_class: class, nonlocal_mods: mods }
}

fn slot_of(b: &Build, slot: Slot) -> Option<usize> {
    b.equipment().iter().find(|e| e.0 == slot).map(|e| e.1)
}

#[test]
fn new_player_is_level_one() {
    let b = Build::new_player(tree());
    assert_eq!(b.name, "Untitled Build");
    assert_eq!(b.property_int(property::Int::Level), 1);
    assert_eq!(b.property_int(property::Int::Rage), 0);
    assert!(!b.property_bool(property::Bool::Onslaught));
    assert_eq!(b.bandit_choice, BanditChoice::KillAll);
    assert_eq!(b.campaign_choice, CampaignChoice::Beach);
    assert!(b.equipment().is_empty());
    assert!(b.get_equipped(Slot::Helm).is_none());
}

// The life of a new character: 12 per level, 38, and one per two strength of the
// Scion's 20.
#[test]
fn build_test_build() {
    let player = Build::new_player(tree());
    let scion = ClassData { base_str: 20, base_dex: 20, base_int: 20 };
    let mods = player.calc_mods(&scion, &vec![], &vec![]);
    let stats = calc_stats(&mods);
    let facts = BuildFacts {
        props_int: player.props_int.clone(),
        props_int_maxed: player.props_int_maxed.clone(),
        props_bool: player.props_bool.clone(),
        equipped: vec![],
        masteries: vec![],
        flasks_enabled: vec![],
    };
    let ctx = EvalContext { weapon: None, tags: 0, flags: 0 };
    let life = eval_stat(&facts, &stats, &ctx, &mods, &vec![], StatId::MaximumLife);
    assert_eq!(life.val(), 60);
}

#[test]
fn character_modifiers_in_order() {
    let mut b = Build::new_player(tree());
    b.bandit_choice = BanditChoice::Alira;
    b.campaign_choice = CampaignChoice::ActTen;
    b.inventory.push(item(ItemClass::Ring, vec![Mod::stat(StatId::Strength, Type::Base, 10)]));
    b.equip(Slot::Ring(0), 0);
    let class = ClassData { base_str: 32, base_dex: 14, base_int: 14 };
    let tree_mods = vec![Mod::stat(StatId::MaximumLife, Type::Inc, 8)];
    let custom = vec![Mod::stat(StatId::Dexterity, Type::Base, 5)];
    let mods = b.calc_mods(&class, &tree_mods, &custom);
    assert_eq!(mods.len(), base_mods().len() + 3 + 3 + 4 + 1 + 1 + 1);
    assert_eq!(mods[36].as_stat().unwrap().amount, 32);
    assert_eq!(mods[39].as_stat().unwrap().stat, StatId::FireResistance);
    assert_eq!(mods[42].as_stat().unwrap().amount, -60);
    assert_eq!(mods[46].as_stat().unwrap().stat, StatId::MaximumLife);
    assert_eq!(mods[47].as_stat().unwrap().stat, StatId::Strength);
    assert!(matches!(mods[47].source, Source::Item(Slot::Ring(0))));
    assert_eq!(mods[48].as_stat().unwrap().stat, StatId::Dexterity);
    let stats = calc_stats(&mods);
    assert_eq!(stats.val(StatId::Strength), 42);
    assert_eq!(stats.val(StatId::FireResistance), -45);
}

#[test]
fn quest_rewards() {
    assert_eq!(bandit_stats(BanditChoice::Alira).len(), 3);
    assert_eq!(bandit_stats(BanditChoice::Oak)[0].as_stat().unwrap().amount, 40);
    assert_eq!(bandit_stats(BanditChoice::Kraityn)[0].as_stat().unwrap().typ, Type::Inc);
    assert!(campaign_stats(CampaignChoice::Beach).is_empty());
    assert_eq!(campaign_stats(CampaignChoice::ActFive)[3].as_stat().unwrap().amount, -30);
    assert_eq!(campaign_stats(CampaignChoice::ActFive)[3].as_stat().unwrap().stat, StatId::ChaosResistance);
}

#[test]
fn flasks_enable_and_disable() {
    let mut b = Build::new_player(tree());
    b.set_flask_enabled(2, true);
    b.set_flask_enabled(2, true);
    b.set_flask_enabled(4, true);
    b.set_flask_enabled(5, true);
    assert!(b.is_flask_enabled(2));
    assert!(b.is_flask_enabled(4));
    assert!(!b.is_flask_enabled(5));
    assert_eq!(b.flasks_enabled.len(), 2);
    b.set_flask_enabled(2, false);
    assert!(!b.is_flask_enabled(2));
    assert!(b.is_flask_enabled(4));
}

#[test]
fn properties_set_and_held() {
    let mut b = Build::new_player(tree());
    b.set_property_int(property::Int::Level, 250);
    assert_eq!(b.property_int(property::Int::Level), 100);
    b.set_property_int(property::Int::FrenzyCharges, 5);
    let stats = calc_stats(&[Mod::stat(StatId::MaximumFrenzyCharges, Type::Base, 3)]);
    assert_eq!(b.property_int_stats(property::Int::FrenzyCharges, &stats), 3);
    b.set_property_int(property::Int::FrenzyCharges, 1);
    assert_eq!(b.property_int_stats(property::Int::FrenzyCharges, &stats), 1);
    b.set_property_int_maxed(property::Int::FrenzyCharges, true);
    assert!(b.is_property_int_maxed(property::Int::FrenzyCharges));
    assert_eq!(b.property_int_stats(property::Int::FrenzyCharges, &stats), 3);
    b.set_property_bool(property::Bool::Onslaught, true);
    assert!(b.property_bool(property::Bool::Onslaught));
}

#[test]
fn equip_and_unequip() {
    let mut b = Build::new_player(tree());
    b.inventory.push(item(ItemClass::Helmet, vec![]));
    b.inventory.push(item(ItemClass::Helmet, vec![]));
    b.equip(Slot::Helm, 0);
    assert_eq!(slot_of(&b, Slot::Helm), Some(0));
    b.equip(Slot::Helm, 1);
    assert_eq!(slot_of(&b, Slot::Helm), Some(1));
    assert_eq!(b.equipment().len(), 1);
    assert_eq!(b.get_equipped(Slot::Helm).unwrap().item_class, ItemClass::Helmet);
    assert!(b.is_holding(ItemClass::Helmet.bit()));
    assert!(!b.is_holding(ItemClass::Bow.bit()));
    b.unequip(Slot::Helm);
    assert!(b.get_equipped(Slot::Helm).is_none());
    b.unequip(Slot::Helm);
    assert!(b.equipment().is_empty());
}

#[test]
fn two_handed_weapons_and_off_hands() {
    assert!(two_handed(ItemClass::Staff));
    assert!(!two_handed(ItemClass::OneHandSword));
    let mut b = Build::new_player(tree());
    b.inventory.push(item(ItemClass::Shield, vec![]));
    b.inventory.push(item(ItemClass::Staff, vec![]));
    b.inventory.push(item(ItemClass::Quiver, vec![]));
    b.inventory.push(item(ItemClass::Bow, vec![]));
    b.inventory.push(item(ItemClass::OneHandSword, vec![]));
    // A staff empties the off-hand.
    b.equip(Slot::Offhand, 0);
    b.equip(Slot::Weapon, 1);
    assert_eq!(slot_of(&b, Slot::Weapon), Some(1));
    assert_eq!(slot_of(&b, Slot::Offhand), None);
    // A shield empties the staff's slot.
    b.equip(Slot::Offhand, 0);
    assert_eq!(slot_of(&b, Slot::Weapon), None);
    assert_eq!(slot_of(&b, Slot::Offhand), Some(0));
    // A bow keeps a quiver, and a quiver a bow.
    b.equip(Slot::Offhand, 2);
    b.equip(Slot::Weapon, 3);
    assert_eq!(slot_of(&b, Slot::Offhand), Some(2));
    b.equip(Slot::Offhand, 2);
    assert_eq!(slot_of(&b, Slot::Weapon), Some(3));
    // A one-handed sword leaves the off-hand alone.
    b.equip(Slot::Weapon, 4);
    assert_eq!(slot_of(&b, Slot::Offhand), Some(2));
}

#[test]
fn allocations_and_abyssal_sockets() {
    let mut b = Build::new_player(tree());
    b.inventory.push(item(
        ItemClass::Belt,
        vec![Mod::allocate(700), Mod::stat(StatId::AbyssalSockets, Type::Base, 1), Mod::allocate(700)],
    ));
    b.inventory.push(item(ItemClass::AbyssJewel, vec![Mod::allocate(800)]));
    b.equip(Slot::Belt, 0);
    assert_eq!(b.tree.nodes_additional, vec![700]);
    b.equip(Slot::AbyssalJewel(0), 1);
    b.equip(Slot::AbyssalJewel(1), 1);
    // The jewels allocate nothing; only one socket.
    b.update_item_allocations();
    assert_eq!(b.tree.nodes_additional, vec![700]);
    assert_eq!(slot_of(&b, Slot::AbyssalJewel(0)), Some(1));
    assert_eq!(slot_of(&b, Slot::AbyssalJewel(1)), None);
    // Without the belt the socket goes.
    b.unequip(Slot::Belt);
    assert!(b.tree.nodes_additional.is_empty());
    assert_eq!(slot_of(&b, Slot::AbyssalJewel(0)), None);
}

#[test]
fn removing_an_item_shifts_positions() {
    let mut b = Build::new_player(tree());
    b.inventory.push(item(ItemClass::Ring, vec![]));
    b.inventory.push(item(ItemClass::Amulet, vec![]));
    b.inventory.push(item(ItemClass::Belt, vec![]));
    b.equip(Slot::Ring(0), 0);
    b.equip(Slot::Ring(1), 0);
    b.equip(Slot::Amulet, 1);
    b.equip(Slot::Belt, 2);
    b.remove_inventory(0);
    assert_eq!(b.inventory.len(), 2);
    assert_eq!(slot_of(&b, Slot::Ring(0)), None);
    assert_eq!(slot_of(&b, Slot::Ring(1)), None);
    assert_eq!(slot_of(&b, Slot::Amulet), Some(0));
    assert_eq!(slot_of(&b, Slot::Belt), Some(1));
    assert_eq!(b.get_equipped(Slot::Belt).unwrap().item_class, ItemClass::Belt);
    // Past the end nothing changes.
    b.remove_inventory(7);
    assert_eq!(b.inventory.len(), 2);
}

#[test]
fn swapping_an_item_keeps_its_slots() {
    let mut b = Build::new_player(tree());
    b.inventory.push(item(ItemClass::Ring, vec![]));
    b.equip(Slot::Ring(0), 0);
    b.equip(Slot::Ring(1), 0);
    b.swap_item_inventory(0, item(ItemClass::Ring, vec![Mod::stat(StatId::Strength, Type::Base, 3)]));
    assert_eq!(slot_of(&b, Slot::Ring(0)), Some(0));
    assert_eq!(slot_of(&b, Slot::Ring(1)), Some(0));
    assert_eq!(b.inventory[0].nonlocal_mods.len(), 1);
}

#[test]
fn item_modifiers_come_from_their_slots() {
    let mut b = Build::new_player(tree());
    b.inventory.push(item(ItemClass::LifeFlask, vec![Mod::stat(StatId::MovementSpeed, Type::Inc, 10)]));
    b.inventory.push(item(ItemClass::Jewel, vec![Mod::stat(StatId::Strength, Type::Base, 10)]));
    b.inventory.push(item(ItemClass::Gloves, vec![Mod::stat(StatId::Dexterity, Type::Base, 10)]));
    b.equip(Slot::Flask(1), 0);
    b.equip(Slot::TreeJewel(2), 1);
    b.equip(Slot::Gloves, 2);
    let mods = b.item_mods();
    assert_eq!(mods.len(), 1);
    assert!(matches!(mods[0].source, Source::Item(Slot::Gloves)));
    b.set_flask_enabled(1, true);
    let mods = b.item_mods();
    assert_eq!(mods.len(), 2);
    assert!(matches!(mods[0].source, Source::Item(Slot::Flask(1))));
}

#[test]
fn monster_modifiers_by_level() {
    let table = vec![
        MonsterStats { level: 1, accuracy: 18, ally_life: 15, armour: 22, evasion: 42, life: 22 },
        MonsterStats { level: 84, accuracy: 1500, ally_life: 2000, armour: 40000, evasion: 6000, life: 100000 },
    ];
    let mods = Build::calc_mods_monster(84, &table);
    assert_eq!(mods.len(), 3);
    assert_eq!(mods[0].as_stat().unwrap().stat, StatId::MaximumLife);
    assert_eq!(mods[0].as_stat().unwrap().amount, 100000);
    assert_eq!(mods[1].as_stat().unwrap().amount, 6000);
    assert_eq!(mods[2].as_stat().unwrap().amount, 40000);
}
