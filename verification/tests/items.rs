use lightning::base_item::Rarity;
use lightning::item::JewelRadius;
use lightning::slot::Slot;
use lightning::text::starts_with;

#[test]
fn rarity_names_any_case() {
    assert_eq!(Rarity::from_str("Rare"), Some(Rarity::Rare));
    assert_eq!(Rarity::from_str("UNIQUE"), Some(Rarity::Unique));
    assert_eq!(Rarity::from_str("legendary"), None);
}

#[test]
fn jewel_radius_round_trip() {
    assert_eq!(JewelRadius::from_str("Very Large"), Some(JewelRadius::VeryLarge));
    assert_eq!(JewelRadius::from_str("massive"), Some(JewelRadius::Massive));
    assert_eq!(JewelRadius::VeryLarge.to_string(), "Very Large");
    assert_eq!(JewelRadius::from_str("tiny"), None);
}

#[test]
fn jewel_radius_names_ignore_case() {
    assert_eq!(JewelRadius::from_str("VERY LARGE"), Some(JewelRadius::VeryLarge));
    assert_eq!(JewelRadius::from_str("sMaLl"), Some(JewelRadius::Small));
    assert_eq!(JewelRadius::from_str("verylarge"), None);
    assert_eq!(JewelRadius::from_str(" small"), None);
    assert_eq!(JewelRadius::from_str("Huge"), None);
}

#[test]
fn inventory_slots() {
    assert_eq!(Slot::try_from_inventory("Ring2", 0, &[]), Ok(Slot::Ring(1)));
    assert_eq!(Slot::try_from_inventory("Flask", 3, &[]), Ok(Slot::Flask(3)));
    assert_eq!(Slot::try_from_inventory("Flask", 5, &[]), Err(()));
    assert_eq!(Slot::try_from_inventory("PassiveJewels", 1, &[100, 200]), Ok(Slot::TreeJewel(200)));
    assert_eq!(Slot::try_from_inventory("PassiveJewels", 2, &[100, 200]), Err(()));
    assert_eq!(Slot::try_from_inventory("Cape", 0, &[]), Err(()));
}

#[test]
fn prefixes() {
    assert!(starts_with("Path of the Warrior", "Path of the"));
    assert!(!starts_with("Path", "Path of the"));
}
