use lightning::calc::{avg_ailment_dmg_crit, calc_dmg_crit_accuracy, physical_damage_reduction_armour};
use lightning::modifier::{Mod, Type};
use lightning::stat::{calc_stats, Stat, Stats};
use lightning::stat_id::StatId;

#[test]
fn crit_and_accuracy_average() {
    // 50% crit (in hundredths of a percent), 150% multiplier, always hits.
    assert_eq!(calc_dmg_crit_accuracy(1000, 5000, 150, 100), 1250);
    // No crit: only hit chance scales.
    assert_eq!(calc_dmg_crit_accuracy(1000, 0, 150, 50), 500);
}

#[test]
fn ailment_average_with_crits() {
    assert_eq!(avg_ailment_dmg_crit(100, 0, 0), 100);
    // Every hit crits: +50% damage over time multiplier.
    assert_eq!(avg_ailment_dmg_crit(100, 0, 10000), 150);
}

#[test]
fn armour_reduction() {
    assert_eq!(physical_damage_reduction_armour(100, 1000, 0), 66);
    assert_eq!(physical_damage_reduction_armour(100, 0, 10), 10);
}

#[test]
fn stat_value_combines_types() {
    let mut s = Stat::new();
    s.adjust(Type::Base, 100);
    s.adjust(Type::Inc, 50);
    s.adjust(Type::More, 20);
    assert_eq!(s.mult(), 18000);
    assert_eq!(s.val(), 180);
    s.adjust(Type::Flat, 5);
    assert_eq!(s.val(), 185);
    s.adjust(Type::Override, 7);
    s.adjust(Type::Override, 9);
    assert_eq!(s.val(), 7);
}

#[test]
fn stats_table_from_mods() {
    let mods = vec![
        Mod::stat(StatId::Strength, Type::Base, 10),
        Mod::stat(StatId::Strength, Type::Base, 5),
        Mod::stat(StatId::Dexterity, Type::Base, 3),
    ];
    let stats = calc_stats(&mods);
    assert_eq!(stats.val(StatId::Strength), 15);
    assert_eq!(stats.val(StatId::Dexterity), 3);
    assert_eq!(stats.val(StatId::Intelligence), 0);
    let empty = Stats::new();
    assert_eq!(empty.val(StatId::Strength), 0);
}
