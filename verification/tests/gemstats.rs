use lightning::gem::{ActiveSkill, GemBase, GemData, Level, QualityStat, Static};
use lightning::gem_data::{Costs, GemStat, LevelStat};
use lightning::gemstats::{match_gemstat, GemStatTables};
use lightning::modifier::{Mod, ModEffect, Source, Type};
use lightning::stat_id::StatId;

fn tables() -> GemStatTables {
    GemStatTables {
        per_gem: vec![(
            "Fireball".to_string(),
            vec![("base_fire_damage".to_string(), vec![Mod::stat(StatId::AttackSpeed, Type::Base, 0)])],
        )],
        generic: vec![
            ("damage".to_string(), vec![Mod::stat(StatId::Damage, Type::Base, 0), Mod::stat(StatId::ManaCost, Type::Base, 5)]),
            ("fire_damage".to_string(), vec![Mod::stat(StatId::ManaCost, Type::Base, 0)]),
        ],
    }
}

fn stat_of(m: &Mod) -> (StatId, Type, i64) {
    match &m.effect {
        ModEffect::Stat(s) => (s.stat, s.typ, s.amount),
        _ => panic!("not a stat modifier"),
    }
}

#[test]
fn gem_stats_find_their_modifiers() {
    let t = tables();
    // The gem's own table first, the type from the suffix, the source suffix dropped.
    let r = match_gemstat(&t, "Fireball", "base_fire_damage_+%_granted_from_skill").unwrap();
    assert_eq!(r.len(), 1);
    assert_eq!(stat_of(&r[0]), (StatId::AttackSpeed, Type::Inc, 0));
    // Other gems use the first generic entry that ends the name.
    let r = match_gemstat(&t, "Arc", "base_fire_damage_+%_final").unwrap();
    assert_eq!(r.len(), 2);
    assert_eq!(stat_of(&r[0]), (StatId::Damage, Type::More, 0));
    assert_eq!(stat_of(&r[1]), (StatId::ManaCost, Type::More, 5));
    // No suffix of type keeps the modifiers' own types.
    let r = match_gemstat(&t, "Arc", "cold_damage").unwrap();
    assert_eq!(stat_of(&r[0]), (StatId::Damage, Type::Base, 0));
    assert!(match_gemstat(&t, "Arc", "accuracy_rating_+").is_none());
}

fn fireball() -> GemData {
    let s = |x: &str| x.to_string();
    GemData {
        active_skill: Some(ActiveSkill {
            description: s("Hurls a ball"),
            display_name: s("Fireball"),
            id: s("fireball"),
            stat_conversions: None,
            weapon_restrictions: vec![],
            types: vec![],
        }),
        base_item: GemBase { display_name: s("Fireball Gem"), id: s("fb"), max_level: None, release_state: s("released") },
        cast_time: Some(750),
        is_support: false,
        per_level: vec![(
            1,
            Level {
                costs: Some(Costs { mana: Some(5), life: None }),
                stat_requirements: None,
                stats: Some(vec![Some(LevelStat { value: Some(10) }), None]),
                damage_effectiveness: None,
                damage_multiplier: None,
                cost_multiplier: Some(110),
                stat_text: None,
            },
        )],
        static_data: Static {
            crit_chance: Some(600),
            cooldown: None,
            damage_effectiveness: None,
            damage_multiplier: None,
            attack_speed_multiplier: None,
            stats: Some(vec![
                Some(GemStat { value: Some(7), id: Some(s("damage")) }),
                Some(GemStat { value: Some(3), id: Some(s("radius")) }),
            ]),
            quality_stats: vec![QualityStat { stat: s("quality"), stats: vec![(s("damage_+%"), 50)] }],
            stat_text: None,
        },
        tags: 0,
        weapon_restrictions: vec![],
        tooltip_order: vec![],
        support_gem: None,
        color: s("b"),
    }
}

#[test]
fn gem_modifiers_come_from_stats_quality_and_costs() {
    let tables = GemStatTables {
        per_gem: vec![],
        generic: vec![
            ("damage".to_string(), vec![Mod::stat(StatId::Damage, Type::Base, 0)]),
            ("radius".to_string(), vec![Mod::stat(StatId::AreaOfEffect, Type::Base, 0).with_flags(0x20)]),
        ],
    };
    let gem: &'static GemData = Box::leak(Box::new(fireball()));
    let mods = gem.calc_mods(&tables, false, 1, 20);
    let got: Vec<(StatId, Type, i64)> = mods.iter().map(stat_of).collect();
    assert_eq!(
        got,
        vec![
            (StatId::Damage, Type::Base, 10),
            (StatId::Damage, Type::Inc, 1),
            (StatId::ManaCost, Type::Base, 5),
            (StatId::Cost, Type::More, 110),
        ]
    );
    assert!(mods.iter().all(|m| matches!(m.source, Source::Gem("Fireball"))));
    // Those of auras alone: the radius, with the stat's value.
    let auras = gem.calc_mods(&tables, true, 1, 20);
    assert_eq!(auras.iter().map(stat_of).collect::<Vec<_>>(), vec![(StatId::AreaOfEffect, Type::Base, 3)]);
}
