use lightning::base_item::{ItemClass, Rarity};
use lightning::evaluator::EquippedItem;
use lightning::modifier::{Mod, Type};
use lightning::outcome::{
    attack_item, best_supports, calc_defence, skill_time, summarize_skill, SkillOutcome, SupportCandidate,
};
use lightning::report::{compare, report_insert, report_value};
use lightning::slot::Slot;
use lightning::stat::{calc_stats, Stat, Stats};
use lightning::stat_id::StatId;

fn weapon(class: ItemClass, is_weapon: bool) -> EquippedItem {
    EquippedItem {
        slot: Slot::Weapon,
        item_class: class,
        is_weapon,
        armour: 0,
        evasion: 0,
        energy_shield: 0,
        block_chance: 0,
        quality: 0,
        corrupted: false,
        rarity: Rarity::Normal,
        nonlocal_mods: vec![],
        effect: Stat::new(),
    }
}

fn value(r: &Vec<(&'static str, i64)>, key: &str) -> Option<i64> {
    report_value(r, key)
}

#[test]
fn compare_reports_changes_only() {
    let a = vec![("DPS", 100), ("Speed", 500), ("Mana Cost", 10)];
    let b = vec![("DPS", 150), ("Speed", 500), ("Bleed DPS", 7)];
    let d = compare(&a, &b);
    assert_eq!(value(&d, "DPS"), Some(50));
    assert_eq!(value(&d, "Speed"), None);
    assert_eq!(value(&d, "Mana Cost"), Some(-10));
    assert_eq!(value(&d, "Bleed DPS"), Some(7));
    assert_eq!(d.len(), 3);
}

#[test]
fn compare_of_equal_reports_is_empty() {
    let a = vec![("DPS", 100), ("Speed", 500)];
    assert!(compare(&a, &a).is_empty());
}

#[test]
fn report_insert_replaces() {
    let mut r = vec![];
    report_insert(&mut r, "DPS", 1);
    report_insert(&mut r, "Speed", 2);
    report_insert(&mut r, "DPS", 3);
    assert_eq!(r, vec![("DPS", 3), ("Speed", 2)]);
}

#[test]
fn attack_items_by_restriction() {
    let sword = weapon(ItemClass::OneHandSword, true);
    let shield = weapon(ItemClass::Shield, false);
    // No restriction: any weapon.
    assert!(attack_item(Some(&sword), Some(&vec![])).is_some());
    assert!(attack_item(Some(&shield), Some(&vec![])).is_none());
    // Restricted to shields (e.g. Shield Charge).
    assert!(attack_item(Some(&shield), Some(&vec![ItemClass::Shield])).is_some());
    assert!(attack_item(Some(&sword), Some(&vec![ItemClass::Shield])).is_none());
    // Not an active skill, or nothing equipped.
    assert!(attack_item(Some(&sword), None).is_none());
    assert!(attack_item(None, Some(&vec![])).is_none());
}

#[test]
fn best_supports_keep_highest_level_first() {
    let c = vec![
        SupportCandidate { id: "added_fire".to_string(), level: 10, usable: true },
        SupportCandidate { id: "melee_phys".to_string(), level: 20, usable: true },
        SupportCandidate { id: "added_fire".to_string(), level: 15, usable: true },
        SupportCandidate { id: "added_fire".to_string(), level: 15, usable: true },
        SupportCandidate { id: "melee_phys".to_string(), level: 21, usable: false },
    ];
    let mut r = best_supports(&c);
    r.sort();
    assert_eq!(r, vec![1, 2]);
}

#[test]
fn spell_time_uses_cast_speed() {
    let stats = calc_stats(&vec![Mod::stat(StatId::CastSpeed, Type::Inc, 25)]);
    // 1000 ms cast at 125% speed.
    assert_eq!(skill_time(&stats, true, false, Some(1000), &vec![]), 800);
    assert_eq!(skill_time(&stats, true, false, None, &vec![]), 0);
}

#[test]
fn attack_time_averages_weapons() {
    let stats = calc_stats(&vec![
        Mod::stat(StatId::AttackSpeed, Type::Inc, 100),
        Mod::stat(StatId::AddedAttackTime, Type::Base, 100),
    ]);
    // Two weapons of 600 and 800 ms: mean 700, plus 100, at double speed.
    let slots = vec![(Some(600), true), (Some(800), true)];
    assert_eq!(skill_time(&stats, false, true, None, &slots), 400);
    // A weaponless attack takes the cast time.
    let slots = vec![(None, false)];
    assert_eq!(skill_time(&stats, false, true, Some(700), &slots), 400);
    // Nothing usable: no time.
    assert_eq!(skill_time(&stats, false, true, None, &vec![(None, true)]), 0);
    assert_eq!(skill_time(&stats, false, false, Some(700), &slots), 0);
}

#[test]
fn summary_of_a_spell() {
    let stats = calc_stats(&vec![
        Mod::stat(StatId::ManaCost, Type::Base, 10),
        Mod::stat(StatId::PoisonDuration, Type::Base, 2),
    ]);
    let o = SkillOutcome {
        damage: vec![100, 50],
        impale_sources: vec![],
        bleed_dps: 0,
        poison_dps: 30,
        poison_hit_chance: 100,
        poison_chance: 50,
        crit_multi: 150,
    };
    let mut r = vec![("Crit Chance", 500)];
    summarize_skill(&mut r, &stats, &o, 500, 0);
    assert_eq!(value(&r, "Average Damage"), Some(150));
    assert_eq!(value(&r, "DPS"), Some(300));
    assert_eq!(value(&r, "Speed"), Some(500));
    assert_eq!(value(&r, "Crit Multi"), Some(150));
    assert_eq!(value(&r, "Mana Cost"), Some(10));
    assert_eq!(value(&r, "Poison Duration"), Some(200));
    // 30 * 200 * 100 * 50 / (500 * 1000)
    assert_eq!(value(&r, "Poison DPS"), Some(60));
    assert_eq!(value(&r, "Bleed DPS"), Some(0));
    assert_eq!(value(&r, "Crit Chance"), Some(500));
    assert_eq!(value(&r, "Impale DPS"), None);
}

#[test]
fn summary_without_time_has_no_dps() {
    let stats = Stats::new();
    let o = SkillOutcome {
        damage: vec![100],
        impale_sources: vec![],
        bleed_dps: 5,
        poison_dps: 0,
        poison_hit_chance: 100,
        poison_chance: 0,
        crit_multi: 150,
    };
    let mut r = vec![];
    summarize_skill(&mut r, &stats, &o, 0, 0);
    assert_eq!(value(&r, "DPS"), None);
    assert_eq!(value(&r, "Crit Multi"), None);
    assert_eq!(value(&r, "Bleed DPS"), Some(5));
    assert_eq!(value(&r, "Average Damage"), Some(100));
}

#[test]
fn summary_adds_impale() {
    let stats = calc_stats(&vec![Mod::stat(StatId::MaxImpaleStacks, Type::Base, 5)]);
    let o = SkillOutcome {
        damage: vec![1000],
        impale_sources: vec![(100, 0, 100)],
        bleed_dps: 0,
        poison_dps: 0,
        poison_hit_chance: 100,
        poison_chance: 0,
        crit_multi: 150,
    };
    let mut r = vec![];
    summarize_skill(&mut r, &stats, &o, 1000, 0);
    // 5 stacks of 100, no armour: 500 per second on top of 1000.
    assert_eq!(value(&r, "Impale DPS"), Some(500));
    assert_eq!(value(&r, "DPS"), Some(1500));
}

#[test]
fn defence_report() {
    let stats = calc_stats(&vec![
        Mod::stat(StatId::MaximumLife, Type::Base, 1000),
        Mod::stat(StatId::MaximumMana, Type::Base, 200),
        Mod::stat(StatId::FireResistance, Type::Base, 75),
        Mod::stat(StatId::LifeRegenerationPct, Type::Base, 500),
        Mod::stat(StatId::ManaRegenerationPct, Type::Base, 180),
    ]);
    let r = calc_defence(&stats);
    assert_eq!(value(&r, "Maximum Life"), Some(1000));
    assert_eq!(value(&r, "Maximum Mana"), Some(200));
    assert_eq!(value(&r, "Fire Resistance"), Some(75));
    assert_eq!(value(&r, "Cold Resistance"), Some(0));
    // 500 hundredths of a percent of 1000 life.
    assert_eq!(value(&r, "Life Regeneration"), Some(50));
    // 1.8% of 200 mana.
    assert_eq!(value(&r, "Mana Regeneration"), Some(3));
    assert_eq!(r.len(), 23);
}
