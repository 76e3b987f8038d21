use lightning::base_item::{BaseItem, ItemClass, Properties, PropertyMinMax, Rarity, Requirements};
use lightning::item::JewelRadius;
use lightning::item_text::{ParsedItem, RawItem};
use lightning::modifier::{Mod, Type};
use lightning::stat_id::StatId;

fn plate() -> BaseItem {
    BaseItem {
        name: "Plate Vest".to_string(),
        tags: vec!["armour".to_string(), "body_armour".to_string()],
        implicits: vec![],
        item_class: ItemClass::BodyArmour,
        properties: Properties {
            armour: Some(PropertyMinMax { min: 100, max: 200 }),
            physical_damage_max: None,
            physical_damage_min: None,
            attack_time: None,
            evasion: None,
            energy_shield: None,
            critical_strike_chance: None,
            block: None,
        },
        requirements: Some(Requirements { level: 20, strength: 35, dexterity: 0, intelligence: 0 }),
    }
}

fn bases() -> Vec<String> {
    vec!["Plate Vest".to_string(), "Cobalt Jewel".to_string()]
}

fn vest() -> RawItem {
    RawItem {
        base_item: "Plate Vest".to_string(),
        name: "Grim Shell".to_string(),
        rarity: Rarity::Rare,
        mods_impl: vec!["+10 to Strength".to_string()],
        mods_expl: vec!["+50 to maximum Life".to_string(), "12% increased Armour".to_string()],
        mods_enchant: vec!["Trigger a Socketed Spell".to_string()],
        quality: 20,
        corrupted: true,
        item_level: 84,
        base_percentile: 0,
        radius: None,
    }
}

#[test]
fn item_text_is_written_as_the_game_copies_it() {
    let text = vest().to_str(&plate());
    assert_eq!(
        text,
        "Rarity: Rare\nGrim Shell\nPlate Vest\n--------\nQuality: +20%\n--------\nRequirements:\nLevel: 20\nStr: 35\n--------\nItem Level: 84\n--------\nTrigger a Socketed Spell (enchant)\n--------\n+10 to Strength (implicit)\n--------\n+50 to maximum Life\n12% increased Armour\n--------\nCorrupted\n"
    );
}

#[test]
fn item_text_reads_back() {
    let item = vest();
    let text = item.to_str(&plate());
    let p = ParsedItem::from_str(&text, &bases()).unwrap();
    assert_eq!(p.item.base_item, item.base_item);
    assert_eq!(p.item.name, item.name);
    assert_eq!(p.item.rarity, item.rarity);
    assert_eq!(p.item.mods_impl, item.mods_impl);
    assert_eq!(p.item.mods_expl, item.mods_expl);
    assert_eq!(p.item.mods_enchant, item.mods_enchant);
    assert_eq!(p.item.quality, item.quality);
    assert_eq!(p.item.item_level, item.item_level);
    assert_eq!(p.item.corrupted, item.corrupted);
    assert_eq!(p.item.radius, item.radius);
    assert_eq!(p.armour, None);
}

#[test]
fn jewel_text_reads_back_with_radius() {
    let mut item = vest();
    item.base_item = "Cobalt Jewel".to_string();
    item.name = String::new();
    item.rarity = Rarity::Magic;
    item.quality = 0;
    item.corrupted = false;
    item.mods_enchant = vec![];
    item.radius = Some(JewelRadius::Large);
    let mut jewel = plate();
    jewel.name = "Cobalt Jewel".to_string();
    jewel.requirements = None;
    let text = item.to_str(&jewel);
    let p = ParsedItem::from_str(&text, &bases()).unwrap();
    assert_eq!(p.item.base_item, "Cobalt Jewel");
    assert_eq!(p.item.name, "");
    assert_eq!(p.item.rarity, Rarity::Magic);
    assert_eq!(p.item.radius, Some(JewelRadius::Large));
    assert_eq!(p.item.mods_impl, item.mods_impl);
    assert_eq!(p.item.mods_expl, item.mods_expl);
    assert_eq!(p.item.quality, 0);
}

#[test]
fn copied_text_is_parsed() {
    let text = "Item Class: Body Armours\r\nRarity: RARE\r\nDoom Coat\r\nSynthesised Plate Vest\r\n--------\r\nArmour: 360 (augmented)\r\n--------\r\n  Radius: Small  \r\nItem Level: 70\r\n--------\r\n+1 to Level of Socketed Gems (enchant)\r\n+20 to Armour (crafted)\r\nCorrupted\r\n";
    let p = ParsedItem::from_str(text, &bases()).unwrap();
    assert_eq!(p.item.rarity, Rarity::Rare);
    assert_eq!(p.item.name, "Doom Coat");
    assert_eq!(p.item.base_item, "Plate Vest");
    assert_eq!(p.armour, Some(360));
    assert_eq!(p.evasion, None);
    assert_eq!(p.item.radius, Some(JewelRadius::Small));
    assert_eq!(p.item.item_level, 70);
    assert_eq!(p.item.mods_enchant, vec!["+1 to Level of Socketed Gems".to_string()]);
    assert_eq!(p.item.mods_expl, vec!["+20 to Armour".to_string()]);
    assert!(p.item.corrupted);
    assert_eq!(p.item.base_percentile, 0);
}

#[test]
fn text_without_a_known_base_is_no_item() {
    assert!(ParsedItem::from_str("Rarity: Rare\nSome Name\nUnknown Base\n", &bases()).is_none());
    assert!(ParsedItem::from_str("", &bases()).is_none());
}

#[test]
fn parsed_item_takes_its_percentile_from_shown_armour() {
    let text = "Rarity: Normal\nPlate Vest\n--------\nQuality: +20%\nArmour: 360\n--------\nItem Level: 1\n";
    let p = ParsedItem::from_str(text, &bases()).unwrap();
    assert_eq!(p.armour, Some(360));
    let local = vec![Mod::stat(StatId::Armour, Type::Inc, 100)];
    let item = p.to_item(&plate(), &local);
    assert_eq!(item.base_percentile, 50);
    assert_eq!(item.quality, 20);
    // No defence shown: the percentile stays as read.
    let p = ParsedItem::from_str("Rarity: Normal\nPlate Vest\n", &bases()).unwrap();
    let item = p.to_item(&plate(), &local);
    assert_eq!(item.base_percentile, 0);
}
