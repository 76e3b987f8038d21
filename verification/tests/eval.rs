use lightning::base_item::{ItemClass, Rarity};
use lightning::buff::Buff;
use lightning::eval::{eval_stat, resolve_armour, resolve_buffs, resolve_flags_post, stat_sources_of, EvalContext};
use lightning::evaluator::{BuildFacts, EquippedItem};
use lightning::item_calc::DefenceCalc;
use lightning::modifier::{BuildFlag, Condition, Mod, Source, Type};
use lightning::property;
use lightning::slot::Slot;
use lightning::stackvec::StackVec;
use lightning::stat::{calc_stats, Stat, Stats};
use lightning::stat_id::StatId;

fn flask(idx: u16, effect_inc: i64) -> EquippedItem {
    let mut effect = Stat::new();
    effect.adjust(Type::Inc, effect_inc);
    EquippedItem {
        slot: Slot::Flask(idx),
        item_class: ItemClass::UtilityFlask,
        is_weapon: false,
        armour: 0,
        evasion: 0,
        energy_shield: 0,
        block_chance: 0,
        quality: 0,
        corrupted: false,
        rarity: Rarity::Magic,
        nonlocal_mods: vec![],
        effect,
    }
}

fn facts(onslaught: bool, equipped: Vec<EquippedItem>) -> BuildFacts {
    BuildFacts {
        props_int: vec![90, 0, 0, 0, 0],
        props_int_maxed: vec![false; 5],
        props_bool: vec![false, onslaught, false, false, false, false, false],
        equipped,
        masteries: vec![],
        flasks_enabled: vec![0],
    }
}

fn ctx(tags: u64) -> EvalContext {
    EvalContext { weapon: None, tags, flags: 0 }
}

#[test]
fn resistances_take_elemental_sources() {
    assert_eq!(stat_sources_of(StatId::FireResistance), vec![StatId::FireResistance, StatId::ElementalResistances]);
    assert_eq!(stat_sources_of(StatId::Strength), vec![StatId::Strength]);
    let f = facts(false, vec![]);
    let stats = Stats::new();
    let mods = vec![
        Mod::stat(StatId::FireResistance, Type::Base, 30),
        Mod::stat(StatId::ElementalResistances, Type::Base, 10),
        Mod::stat(StatId::Strength, Type::Base, 50),
    ];
    let r = eval_stat(&f, &stats, &ctx(0), &mods, &vec![], StatId::FireResistance);
    assert_eq!(r.val(), 40);
    let r = eval_stat(&f, &stats, &ctx(0), &mods, &vec![], StatId::ColdResistance);
    assert_eq!(r.val(), 10);
    let extra = vec![Mod::stat(StatId::Strength, Type::Inc, 50)];
    let r = eval_stat(&f, &stats, &ctx(0), &mods, &extra, StatId::Strength);
    assert_eq!(r.val(), 75);
}

#[test]
fn tags_and_conditions_select_modifiers() {
    let stats = Stats::new();
    let mods = vec![
        Mod::stat(StatId::Damage, Type::Inc, 20).with_tags(0b10),
        Mod::stat(StatId::Damage, Type::Inc, 30),
    ];
    let f = facts(false, vec![]);
    let r = eval_stat(&f, &stats, &ctx(0), &mods, &vec![], StatId::Damage);
    assert_eq!(r.mult(), 13000);
    let r = eval_stat(&f, &stats, &ctx(0b10), &mods, &vec![], StatId::Damage);
    assert_eq!(r.mult(), 15000);

    let mut cond = StackVec::new();
    cond.push(Condition::PropertyBool((true, property::Bool::Onslaught)));
    let mods = vec![Mod::stat(StatId::MovementSpeed, Type::Inc, 20).with_conditions(cond)];
    let r = eval_stat(&facts(false, vec![]), &stats, &ctx(0), &mods, &vec![], StatId::MovementSpeed);
    assert_eq!(r.mult(), 10000);
    let r = eval_stat(&facts(true, vec![]), &stats, &ctx(0), &mods, &vec![], StatId::MovementSpeed);
    assert_eq!(r.mult(), 12000);
}

#[test]
fn flask_modifiers_scale_with_flask_effect() {
    let stats = Stats::new();
    let f = facts(false, vec![flask(0, 50)]);
    let mods = vec![Mod::stat(StatId::MovementSpeed, Type::Inc, 10).with_source(Source::Item(Slot::Flask(0)))];
    let r = eval_stat(&f, &stats, &ctx(0), &mods, &vec![], StatId::MovementSpeed);
    // 10% scaled by 50% increased flask effect.
    assert_eq!(r.mult(), 11500);
}

#[test]
fn highest_maximum_resistance_applies_to_all() {
    let base = vec![
        Mod::stat(StatId::MaximumFireResistance, Type::Base, 75),
        Mod::stat(StatId::MaximumColdResistance, Type::Base, 80),
        Mod::stat(StatId::MaximumLightningResistance, Type::Base, 70),
    ];
    let mut stats = calc_stats(&base);
    resolve_flags_post(&mut stats, &vec![BuildFlag::EleMaxResHighest]);
    assert_eq!(stats.val(StatId::MaximumFireResistance), 80);
    assert_eq!(stats.val(StatId::MaximumColdResistance), 80);
    assert_eq!(stats.val(StatId::MaximumLightningResistance), 80);

    let mut stats = calc_stats(&base);
    resolve_flags_post(&mut stats, &vec![BuildFlag::QualityNoDefences]);
    assert_eq!(stats.val(StatId::MaximumFireResistance), 75);
    assert_eq!(stats.val(StatId::MaximumLightningResistance), 70);
}

fn defences(armour: i64, energy_shield: i64) -> DefenceCalc {
    let mut a = Stat::new();
    a.adjust(Type::Base, armour);
    let mut es = Stat::new();
    es.adjust(Type::Base, energy_shield);
    DefenceCalc { armour: a, evasion: Stat::new(), energy_shield: es, block_chance: Stat::new() }
}

#[test]
fn item_defences_add_to_the_table() {
    let mut stats = calc_stats(&[
        Mod::stat(StatId::Armour, Type::Inc, 100),
        Mod::stat(StatId::MaximumEnergyShield, Type::Inc, 50),
    ]);
    let items = vec![(Slot::BodyArmour, defences(100, 40)), (Slot::Helm, defences(50, 0))];
    let extra = resolve_armour(&mut stats, &items, false);
    assert!(extra.is_empty());
    // (100 + 50) armour doubled, as flat.
    assert_eq!(stats.val(StatId::Armour), 300);
    assert_eq!(stats.val(StatId::MaximumEnergyShield), 60);
    assert_eq!(stats.val(StatId::EvasionRating), 0);
}

#[test]
fn energy_shield_can_grant_life_instead() {
    let mut stats = calc_stats(&[Mod::stat(StatId::MaximumEnergyShield, Type::Inc, 50)]);
    let items = vec![(Slot::BodyArmour, defences(0, 40)), (Slot::Helm, defences(0, 0))];
    let extra = resolve_armour(&mut stats, &items, true);
    assert_eq!(stats.val(StatId::MaximumEnergyShield), 0);
    assert_eq!(extra.len(), 1);
    let s = extra[0].as_stat().unwrap();
    assert_eq!(s.stat, StatId::MaximumLife);
    assert_eq!(s.typ, Type::Base);
    assert_eq!(s.amount, 40);
    assert!(matches!(extra[0].source, Source::Item(Slot::BodyArmour)));
}

#[test]
fn buffs_grant_their_modifiers_when_their_conditions_hold() {
    let stats = Stats::new();
    let mut cond = StackVec::new();
    cond.push(Condition::PropertyBool((true, property::Bool::Onslaught)));
    let buffs = vec![Mod::buff(Buff::Onslaught).with_conditions(cond), Mod::buff(Buff::DiamondShrine)];
    let granted = resolve_buffs(&facts(false, vec![]), &stats, &ctx(0), &buffs);
    assert_eq!(granted.len(), 1);
    assert_eq!(granted[0].as_stat().unwrap().stat, StatId::CriticalStrikeChance);
    assert_eq!(granted[0].as_stat().unwrap().typ, Type::Override);
    let granted = resolve_buffs(&facts(true, vec![]), &stats, &ctx(0), &buffs);
    assert_eq!(granted.len(), 4);
    assert_eq!(granted[0].as_stat().unwrap().stat, StatId::AttackSpeed);
    assert_eq!(granted[2].as_stat().unwrap().amount, 20);
}
