use lightning::base_item::{ItemClass, Rarity};
use lightning::evaluator::{apply_mutations, check_condition, BuildFacts, EquippedItem};
use lightning::modifier::{Condition, ModStat, Mutation, Source, Type};
use lightning::property;
use lightning::slot::{Defence, Slot};
use lightning::stackvec::StackVec;
use lightning::stat::{calc_stats, Stat, Stats};
use lightning::modifier::Mod;
use lightning::stat_id::StatId;

fn item(slot: Slot, class: ItemClass, armour: i64, quality: i64) -> EquippedItem {
    EquippedItem {
        slot,
        item_class: class,
        is_weapon: matches!(class, ItemClass::OneHandSword | ItemClass::Dagger),
        armour,
        evasion: 0,
        energy_shield: 0,
        block_chance: 0,
        quality,
        corrupted: false,
        rarity: Rarity::Rare,
        nonlocal_mods: vec![],
        effect: Stat::new(),
    }
}

fn facts(equipped: Vec<EquippedItem>) -> BuildFacts {
    BuildFacts {
        props_int: vec![90, 2, 0, 0, 0],
        props_int_maxed: vec![false; 5],
        props_bool: vec![false, true, false, false, false, false, false],
        equipped,
        masteries: vec!["Life Mastery".to_string(), "Life Mastery".to_string()],
        flasks_enabled: vec![0],
    }
}

fn mod_stat(amount: i64, muts: &[Mutation]) -> ModStat {
    let mut m = StackVec::new();
    for x in muts {
        m.push(*x);
    }
    ModStat { stat: StatId::Strength, typ: Type::Base, amount, revised_amount: None, mutations: m }
}

#[test]
fn conditions_on_properties_and_items() {
    let stats = Stats::new();
    let f = facts(vec![
        item(Slot::Weapon, ItemClass::OneHandSword, 0, 0),
        item(Slot::Offhand, ItemClass::Dagger, 0, 0),
        item(Slot::Helm, ItemClass::Helmet, 100, 20),
    ]);
    assert!(check_condition(&f, &stats, None, &Condition::PropertyBool((true, property::Bool::Onslaught)), Source::Innate));
    assert!(!check_condition(&f, &stats, None, &Condition::PropertyBool((true, property::Bool::Blinded)), Source::Innate));
    assert!(check_condition(&f, &stats, None, &Condition::GreaterEqualProperty((50, property::Int::Level)), Source::Innate));
    assert!(!check_condition(&f, &stats, None, &Condition::LesserEqualProperty((50, property::Int::Level)), Source::Innate));
    assert!(check_condition(&f, &stats, None, &Condition::WhileDualWielding, Source::Innate));
    assert!(check_condition(&f, &stats, None, &Condition::SlotsHaveDefence((Defence::Armour, &[Slot::Helm])), Source::Innate));
    assert!(!check_condition(&f, &stats, None, &Condition::SlotsHaveDefence((Defence::Armour, &[Slot::Helm, Slot::Gloves])), Source::Innate));
    assert!(check_condition(&f, &stats, None, &Condition::GreaterEqualMasteryAllocated(("Life Mastery", 2)), Source::Innate));
    assert!(!check_condition(&f, &stats, None, &Condition::GreaterEqualMasteryAllocated(("Life Mastery", 3)), Source::Innate));
    assert!(check_condition(&f, &stats, Some(Slot::Weapon), &Condition::WithThisWeapon, Source::Item(Slot::Weapon)));
    assert!(!check_condition(&f, &stats, Some(Slot::Offhand), &Condition::WithThisWeapon, Source::Item(Slot::Weapon)));
    assert!(check_condition(&f, &stats, None, &Condition::NoFlaskActive, Source::Innate));
}

#[test]
fn frenzy_charges_are_held_within_stats() {
    // No maximum frenzy charges: the property is held to 0.
    let stats = Stats::new();
    let f = facts(vec![]);
    assert_eq!(f.property_int_stats(&stats, property::Int::PowerCharges), 0);
    let stats = calc_stats(&[Mod::stat(StatId::MaximumPowerCharges, Type::Base, 3)]);
    assert_eq!(f.property_int_stats(&stats, property::Int::PowerCharges), 2);
}

#[test]
fn mutations_scale_and_cap() {
    let stats = calc_stats(&[Mod::stat(StatId::Strength, Type::Base, 250)]);
    let f = facts(vec![item(Slot::Helm, ItemClass::Helmet, 100, 20)]);
    // 1 per 10 strength: 250 / 10 = 25, capped at 20.
    let mut m = mod_stat(1, &[Mutation::MultiplierStat((10, StatId::Strength)), Mutation::UpTo(20)]);
    apply_mutations(&f, &stats, &mut m, Source::Innate);
    assert_eq!(m.revised_amount, Some(20));
    // 50% increased effect.
    let mut m = mod_stat(10, &[Mutation::IncreasedEffect(50)]);
    apply_mutations(&f, &stats, &mut m, Source::Innate);
    assert_eq!(m.revised_amount, Some(15));
    // Per 5 quality of the helmet.
    let mut m = mod_stat(3, &[Mutation::MultiplierQuality(5)]);
    apply_mutations(&f, &stats, &mut m, Source::Item(Slot::Helm));
    assert_eq!(m.revised_amount, Some(12));
    // Armour of the helmet, per 50.
    let mut m = mod_stat(1, &[Mutation::MultiplierSlotDefence((50, Slot::Helm, Defence::Armour))]);
    apply_mutations(&f, &stats, &mut m, Source::Innate);
    assert_eq!(m.revised_amount, Some(2));
}

fn fractional(base: i64, inc: i64) -> Stat {
    let mut s = Stat::new();
    s.adjust(Type::Base, base);
    s.adjust(Type::Inc, inc);
    s
}

#[test]
fn rounding_up_and_to_nearest() {
    // 1.5
    let s = fractional(3, -50);
    assert_eq!((s.val(), s.val_ceil(), s.val_rounded()), (1, 2, 2));
    // 1.49
    let s = fractional(149, -99);
    assert_eq!((s.val(), s.val_ceil(), s.val_rounded()), (1, 2, 1));
    // -1.5
    let s = fractional(-3, -50);
    assert_eq!((s.val(), s.val_ceil(), s.val_rounded()), (-1, -1, -1));
    // -0.7
    let s = fractional(-7, -90);
    assert_eq!((s.val(), s.val_ceil(), s.val_rounded()), (0, 0, -1));
    // 2
    let s = fractional(2, 0);
    assert_eq!((s.val(), s.val_ceil(), s.val_rounded()), (2, 2, 2));
}

#[test]
fn revert_gives_back_what_was_scaled() {
    // 50% increased: 10 scales to 15, and 15 reverts to 10.
    let s = fractional(0, 50);
    assert_eq!(s.val_custom(10), 15);
    assert_eq!(s.revert(15), 10);
    for x in 0..40 {
        assert_eq!(s.revert(s.val_custom(x)), x);
    }
    // 50% reduced: 7 and 6 both scale to 3; reverting 3 gives the least, 6.
    let r = fractional(0, -50);
    assert_eq!(r.val_custom(7), 3);
    assert_eq!(r.val_custom(6), 3);
    assert_eq!(r.revert(3), 6);
    assert_eq!(r.revert(0), 0);
}
