use lightning::gem::{ActiveSkill, Gem, GemBase, GemData, Level, Static, SupportGemData};
use lightning::gem_data::{ActiveSkillType, Costs, GemStat, LevelStat};
use lightning::history::History;

fn s(x: &str) -> String {
    x.to_string()
}

fn level(mana: Option<i32>, dm: Option<i64>, stat: Option<i64>) -> Level {
    Level {
        costs: Some(Costs { mana, life: None }),
        stat_requirements: None,
        stats: Some(vec![Some(LevelStat { value: stat }), None]),
        damage_effectiveness: None,
        damage_multiplier: dm,
        cost_multiplier: Some(110),
        stat_text: Some(vec![(s("damage"), s("Deals {0} damage"))]),
    }
}

fn gem_data(active: Option<Vec<ActiveSkillType>>, support: Option<SupportGemData>, max_level: Option<i32>) -> GemData {
    GemData {
        active_skill: active.map(|types| ActiveSkill {
            description: s("Hurls a ball"),
            display_name: s("Fireball"),
            id: s("fireball"),
            stat_conversions: None,
            weapon_restrictions: vec![],
            types,
        }),
        base_item: GemBase { display_name: s("Fireball Gem"), id: s("fb"), max_level, release_state: s("released") },
        cast_time: Some(750),
        is_support: support.is_some(),
        per_level: vec![(1, level(Some(5), None, Some(10))), (21, level(Some(9), Some(500), Some(30))), (20, level(None, None, None))],
        static_data: Static {
            crit_chance: Some(600),
            cooldown: None,
            damage_effectiveness: Some(240),
            damage_multiplier: Some(100),
            attack_speed_multiplier: None,
            stats: Some(vec![
                Some(GemStat { value: Some(7), id: Some(s("damage")) }),
                Some(GemStat { value: Some(3), id: Some(s("radius")) }),
            ]),
            quality_stats: vec![],
            stat_text: Some(vec![(s("radius"), s("Radius {0}"))]),
        },
        tags: 0,
        weapon_restrictions: vec![],
        tooltip_order: vec![],
        support_gem: support,
        color: s("b"),
    }
}

fn gem(data: GemData, lvl: u32) -> Gem {
    Gem { id: s("x"), data, enabled: true, level: lvl, qual: 0, alt_qual: 0 }
}

#[test]
fn gem_data_lookups() {
    let d = gem_data(Some(vec![ActiveSkillType::Area]), None, None);
    assert_eq!(d.display_name(), "Fireball");
    assert_eq!(d.description(), Some("Hurls a ball"));
    // Highest level with data, at most 20.
    assert_eq!(d.max_level(), 20);
    assert_eq!(gem_data(None, None, Some(3)).max_level(), 3);
    assert_eq!(d.mana_cost(1), Some(5));
    assert_eq!(d.mana_cost(20), None);
    assert_eq!(d.mana_cost(2), None);
    assert_eq!(d.cost_multiplier(21), Some(110));
    assert_eq!(d.static_data.stat_idx("radius"), Some(1));
    assert_eq!(d.static_data.stat_idx("nope"), None);
    assert_eq!(d.stat_value_level("damage", 21), Some(30));
    assert_eq!(d.stat_value("damage", 20), Some(7));
    assert_eq!(d.stat_value("radius", 1), Some(3));
    assert_eq!(d.stat_text("damage", 1), Some("Deals {0} damage"));
    assert_eq!(d.stat_text("radius", 1), Some("Radius {0}"));
    assert_eq!(d.stat_text("other", 1), None);
}

#[test]
fn gem_level_values() {
    let g = gem(gem_data(Some(vec![]), None, None), 20);
    assert_eq!(g.damage_multiplier(1), Some(500));
    assert_eq!(g.damage_multiplier(0), Some(100));
    assert_eq!(g.added_effectiveness(1), Some(240));
    assert_eq!(g.mana_cost_level(1), Some(9));
    assert_eq!(g.crit_chance(), Some(600));
    assert_eq!(g.stat_value("damage"), Some(7));
}

#[test]
fn supports_match_skill_types() {
    let active = gem(gem_data(Some(vec![ActiveSkillType::Attack, ActiveSkillType::Area]), None, None), 20);
    let needs_area = gem(
        gem_data(None, Some(SupportGemData { allowed_types: Some(vec![ActiveSkillType::Area]), excluded_types: None, support_text: s("") }), None),
        20,
    );
    let refuses_attack = gem(
        gem_data(None, Some(SupportGemData { allowed_types: None, excluded_types: Some(vec![ActiveSkillType::Attack]), support_text: s("") }), None),
        20,
    );
    let needs_aura = gem(
        gem_data(None, Some(SupportGemData { allowed_types: Some(vec![ActiveSkillType::Aura]), excluded_types: None, support_text: s("") }), None),
        20,
    );
    let any = gem(
        gem_data(None, Some(SupportGemData { allowed_types: Some(vec![]), excluded_types: None, support_text: s("") }), None),
        20,
    );
    assert!(needs_area.can_support(&active));
    assert!(!refuses_attack.can_support(&active));
    assert!(!needs_aura.can_support(&active));
    assert!(any.can_support(&active));
}

#[test]
fn undo_and_redo() {
    let mut h: History<i32> = History::new();
    h.snapshot(1);
    h.snapshot(2);
    h.snapshot(3);
    assert_eq!(h.undo(), Some(&2));
    assert_eq!(h.undo(), Some(&1));
    assert_eq!(h.undo(), None);
    assert_eq!(h.redo(), Some(&2));
    // A snapshot after an undo drops what could be redone.
    h.snapshot(4);
    assert_eq!(h.redo(), None);
    assert_eq!(h.undo(), Some(&2));
    assert_eq!(h.undo(), Some(&1));
    assert_eq!(h.undo(), None);
}

#[test]
fn history_keeps_a_bounded_number_of_states() {
    let mut h: History<i32> = History::new();
    for i in 0..100 {
        h.snapshot(i);
    }
    assert_eq!(h.states.len(), 39);
    let mut n = 0;
    while h.undo().is_some() {
        n += 1;
    }
    assert_eq!(n, 38);
}
