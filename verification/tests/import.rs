use lightning::base_item::Rarity;
use lightning::import::{
    campaign_choice, character, class_choice, cluster_lookup, conv_item, extract_socketed, order_for_equip,
    parse_masteries, bloodline_of, CampaignChoice, CharacterImport, ClassChoice, GroupImport, ImportData,
    ImportedItem, ImportedProperty, ItemsSkillsChar, JewelDataImport, NodeImport, PassiveTreeImport, SubgraphImport,
};
use lightning::slot::Slot;
use lightning::tree_data::{Ascendancy, Class};

fn prop(name: &str, v: &str) -> ImportedProperty {
    ImportedProperty { name: name.to_string(), values: vec![(v.to_string(), 0)] }
}

fn item(base: &str) -> ImportedItem {
    ImportedItem {
        base_type: base.to_string(),
        name: String::new(),
        rarity: Rarity::Rare,
        implicit_mods: vec![],
        explicit_mods: vec![],
        fractured_mods: vec![],
        enchant_mods: vec![],
        crafted_mods: vec![],
        mutated_mods: vec![],
        socketed_items: None,
        inventory_id: None,
        corrupted: false,
        properties: vec![],
        ilvl: None,
        x: None,
    }
}

fn data() -> ImportData {
    ImportData {
        gems: vec![
            ("Fireball".to_string(), "Fireball".to_string()),
            ("SupportFasterCasting".to_string(), "Faster Casting Support".to_string()),
        ],
        bases: vec![
            "Vaal Regalia".to_string(),
            "Large Cluster Jewel".to_string(),
            "Medium Cluster Jewel".to_string(),
            "Small Cluster Jewel".to_string(),
            "Murderous Eye Jewel".to_string(),
        ],
        jewel_slots: vec![26725, 36634],
        alternate_ascendancies: vec!["Aul".to_string(), "Farrul".to_string()],
    }
}

#[test]
fn property_numbers() {
    let mut it = item("Vaal Regalia");
    it.properties = vec![prop("Quality", "+20%"), prop("Energy Shield", "350"), prop("Quality", "+5%")];
    assert_eq!(it.prop("Quality"), Some(20));
    assert_eq!(it.prop("Energy Shield"), Some(350));
    assert_eq!(it.prop("Armour"), None);
    it.properties.push(ImportedProperty { name: "Armour".to_string(), values: vec![] });
    assert_eq!(it.prop("Armour"), None);
}

#[test]
fn conv_item_keeps_mods_in_order() {
    let mut it = item("Vaal Regalia");
    it.name = "Doom Shell".to_string();
    it.explicit_mods = vec!["a".to_string()];
    it.crafted_mods = vec!["b".to_string()];
    it.fractured_mods = vec!["c".to_string()];
    it.mutated_mods = vec!["d".to_string()];
    it.ilvl = Some(84);
    it.properties = vec![prop("Quality", "+20%"), prop("Energy Shield", "350")];
    let p = conv_item(&it, &data().bases).unwrap();
    assert_eq!(p.item.base_item, "Vaal Regalia");
    assert_eq!(p.item.name, "Doom Shell");
    assert_eq!(p.item.mods_expl, vec!["a", "b", "c", "d"]);
    assert_eq!(p.item.quality, 20);
    assert_eq!(p.item.item_level, 84);
    assert_eq!(p.energy_shield, Some(350));
    assert_eq!(p.armour, None);
    assert!(conv_item(&item("Unknown Base"), &data().bases).is_none());
}

#[test]
fn socketed_gems_and_jewels() {
    let mut fireball = item("Fireball");
    fireball.properties = vec![prop("Level", "20 (Max)"), prop("Quality", "+23%")];
    let mut fc = item("Faster Casting Support");
    fc.properties = vec![prop("Level", "18")];
    let eye = item("Murderous Eye Jewel");
    let unknown = item("Nothing Known");
    let (link, jewels) = extract_socketed(&vec![fireball, eye, fc, unknown], &data().gems, &data().bases);
    assert_eq!(link.len(), 2);
    assert_eq!(link[0].id, "Fireball");
    assert_eq!(link[0].level, 20);
    assert_eq!(link[0].qual, 23);
    assert_eq!(link[1].id, "SupportFasterCasting");
    assert_eq!(link[1].level, 18);
    assert_eq!(link[1].qual, 0);
    assert_eq!(jewels.len(), 1);
    assert_eq!(jewels[0].item.base_item, "Murderous Eye Jewel");
}

#[test]
fn unreadable_gem_level_defaults_to_one() {
    let mut g = item("Fireball");
    g.properties = vec![prop("Level", "twenty")];
    let (link, _) = extract_socketed(&vec![g], &data().gems, &data().bases);
    assert_eq!(link[0].level, 1);
}

#[test]
fn masteries_with_numeric_ids() {
    let m = parse_masteries(&vec![("123".to_string(), 4), ("x".to_string(), 5), ("77".to_string(), 1)]);
    assert_eq!(m, vec![(123, 4), (77, 1)]);
}

#[test]
fn class_names() {
    assert_eq!(class_choice("Witch"), Some(ClassChoice::Class(Class::Witch)));
    assert_eq!(class_choice("Necromancer"), Some(ClassChoice::Ascendancy(Ascendancy::Necromancer)));
    assert_eq!(class_choice("Wizard"), None);
}

#[test]
fn bloodlines_count_from_one() {
    let ids = data().alternate_ascendancies;
    assert_eq!(bloodline_of(Some(1), &ids), Some(Ascendancy::Aul));
    assert_eq!(bloodline_of(Some(2), &ids), Some(Ascendancy::Farrul));
    assert_eq!(bloodline_of(Some(0), &ids), None);
    assert_eq!(bloodline_of(Some(3), &ids), None);
    assert_eq!(bloodline_of(None, &ids), None);
}

#[test]
fn campaign_by_level() {
    assert_eq!(campaign_choice(90), CampaignChoice::ActTen);
    assert_eq!(campaign_choice(67), CampaignChoice::ActTen);
    assert_eq!(campaign_choice(66), CampaignChoice::ActFive);
    assert_eq!(campaign_choice(45), CampaignChoice::ActFive);
    assert_eq!(campaign_choice(44), CampaignChoice::Beach);
}

#[test]
fn cluster_jewels_equip_large_first() {
    let inv: Vec<_> = ["Small Cluster Jewel", "Vaal Regalia", "Large Cluster Jewel", "Medium Cluster Jewel"]
        .iter()
        .map(|b| conv_item(&item(b), &data().bases).unwrap())
        .collect();
    let to_equip = vec![
        (Slot::TreeJewel(1), 0),
        (Slot::BodyArmour, 1),
        (Slot::TreeJewel(2), 2),
        (Slot::TreeJewel(3), 3),
    ];
    let ordered = order_for_equip(&to_equip, &inv);
    assert_eq!(
        ordered,
        vec![(Slot::TreeJewel(2), 2), (Slot::TreeJewel(3), 3), (Slot::TreeJewel(1), 0), (Slot::BodyArmour, 1)]
    );
}

#[test]
fn cluster_node_placements() {
    let sg = SubgraphImport {
        groups: vec![("g1".to_string(), GroupImport { proxy: "7960".to_string(), nodes: vec![], orbits: vec![] })],
        nodes: vec![
            ("65600".to_string(), NodeImport { group: "g1".to_string(), orbit: 2, orbit_index: 4 }),
            ("bad".to_string(), NodeImport { group: "g1".to_string(), orbit: 2, orbit_index: 5 }),
            ("65601".to_string(), NodeImport { group: "missing".to_string(), orbit: 2, orbit_index: 6 }),
        ],
    };
    let jd = vec![
        ("a".to_string(), JewelDataImport { subgraph: Some(sg) }),
        ("b".to_string(), JewelDataImport { subgraph: None }),
    ];
    assert_eq!(cluster_lookup(&jd), vec![(65600, 7960, 2, 4)]);
}

#[test]
fn character_import_plan() {
    let mut body = item("Vaal Regalia");
    body.inventory_id = Some("BodyArmour".to_string());
    let mut fireball = item("Fireball");
    fireball.properties = vec![prop("Level", "20")];
    let mut abyss = item("Murderous Eye Jewel");
    abyss.inventory_id = None;
    body.socketed_items = Some(vec![fireball, abyss]);
    let mut large = item("Large Cluster Jewel");
    large.inventory_id = Some("PassiveJewels".to_string());
    large.x = Some(1);
    let tree = PassiveTreeImport {
        hashes: vec![1, 2, 3],
        hashes_ex: vec![65600],
        items: vec![large],
        mastery_effects: vec![("10".to_string(), 3)],
        alternate_ascendancy: Some(2),
        skill_overrides: vec![(5, "Tattoo".to_string())],
        jewel_data: vec![],
    };
    let items = ItemsSkillsChar {
        items: vec![body],
        character: CharacterImport { level: 70, class_or_ascendancy: "Occultist".to_string() },
    };
    let p = character("acc", "Hero", &tree, &items, &data()).unwrap();
    assert_eq!(p.name, "Hero");
    assert_eq!(p.level, 70);
    assert_eq!(p.class, ClassChoice::Ascendancy(Ascendancy::Occultist));
    assert_eq!(p.nodes, vec![1, 2, 3]);
    assert_eq!(p.masteries, vec![(10, 3)]);
    assert_eq!(p.tattoos, vec![(5, "Tattoo".to_string())]);
    assert_eq!(p.bloodline, Some(Ascendancy::Farrul));
    assert_eq!(p.gem_links.len(), 1);
    assert_eq!(p.gem_links[0][0].id, "Fireball");
    // The large cluster jewel first (tree items), then the abyss jewel, then the body.
    assert_eq!(p.inventory.len(), 3);
    assert_eq!(p.abyssal, vec![(Slot::AbyssalJewel(0), 1)]);
    assert_eq!(p.to_equip, vec![(Slot::TreeJewel(36634), 0), (Slot::BodyArmour, 2)]);
    assert_eq!(p.campaign_choice, CampaignChoice::ActTen);
    assert_eq!(p.import_account, ("acc".to_string(), "Hero".to_string()));
    let mut bad = items;
    bad.character.class_or_ascendancy = "Nobody".to_string();
    assert!(character("acc", "Hero", &tree, &bad, &data()).is_err());
}
