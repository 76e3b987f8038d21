use lightning::csd::{Argument, Translation, Translations};
use lightning::datc64::{ForeignRow, RowData, Val};
use lightning::extract::{
    extract_nodes, fill_in_links, find_node_row, get_foreign_val, jewel_slots, keeps_row, node_ascendancy,
    node_from_row, node_stat_params, row_value, set_class_starts, tree_groups,
};
use lightning::poe2_tree::Ascendancy;
use lightning::psg::{Graph, Group, Node as GraphNode};

fn s(x: &str) -> String {
    x.to_string()
}

fn fr(dat: &str, rowid: u64, key: Option<&str>) -> Val {
    Val::ForeignRow(ForeignRow { dat_file: s(dat), rowid, key: key.map(s) })
}

fn skill_row(graph_id: i64, name: &str, socket: bool) -> RowData {
    vec![
        (s("PassiveSkillGraphId"), Val::Integer(graph_id)),
        (s("Icon_DDSFile"), Val::String(s("art/icon.dds"))),
        (s("Name"), Val::String(s(name))),
        (s("IsNotable"), Val::Bool(false)),
        (s("IsKeystone"), Val::Bool(false)),
        (s("IsAscendancyStartingNode"), Val::Bool(false)),
        (s("IsJewelSocket"), Val::Bool(socket)),
        (s("IsJustIcon"), Val::Bool(false)),
    ]
}

fn gnode(skill: u32, group: u32, links: &[u32]) -> GraphNode {
    GraphNode {
        group,
        passive_skill: skill,
        radius: 1,
        position: 3,
        connections: links.iter().map(|l| (*l, 0)).collect(),
    }
}

fn dats() -> Vec<(String, Vec<RowData>)> {
    vec![
        (s("Stats"), vec![vec![(s("Id"), Val::String(s("base_maximum_life")))], vec![(s("Id"), Val::String(s("unknown_stat")))]]),
        (s("Ascendancy"), vec![vec![(s("Name"), Val::String(s("Titan")))]]),
    ]
}

fn translations() -> Translations {
    Translations {
        entries: vec![(
            s("base_maximum_life"),
            vec![Translation { args: vec![Argument::MinMax(i64::MIN, i64::MAX)], mutations: vec![], text: s("{0} to maximum Life") }],
        )],
    }
}

#[test]
fn row_values_and_references() {
    let row = skill_row(5, "Strength", false);
    assert!(matches!(row_value(&row, "PassiveSkillGraphId"), Some(Val::Integer(5))));
    assert!(row_value(&row, "Missing").is_none());
    let d = dats();
    assert!(matches!(get_foreign_val(&d, &ForeignRow { dat_file: s("Ascendancy"), rowid: 0, key: None }, Some("Name")), Some(Val::String(n)) if n == "Titan"));
    assert!(get_foreign_val(&d, &ForeignRow { dat_file: s("Ascendancy"), rowid: 3, key: None }, Some("Name")).is_none());
    assert!(get_foreign_val(&d, &ForeignRow { dat_file: s("Nope"), rowid: 0, key: None }, Some("Name")).is_none());
    // Without a key on either side there is nothing to read.
    assert!(get_foreign_val(&d, &ForeignRow { dat_file: s("Ascendancy"), rowid: 0, key: None }, None).is_none());
    assert!(get_foreign_val(&d, &ForeignRow { dat_file: s("Ascendancy"), rowid: 0, key: Some(s("Name")) }, None).is_some());
}

#[test]
fn groups_number_from_one() {
    let graph = Graph {
        root_nodes: vec![],
        groups: vec![
            Group { x: 1, y: 2, nodes: vec![gnode(10, 1, &[])], flag: 0 },
            Group { x: 3, y: 4, nodes: vec![gnode(11, 2, &[]), gnode(70000, 2, &[])], flag: 0 },
        ],
    };
    let g = tree_groups(&graph);
    assert_eq!(g.len(), 2);
    assert_eq!(g[0].0, 1);
    assert_eq!(g[1].0, 2);
    assert_eq!(g[1].1.nodes, vec![11, (70000u32 as u16)]);
    assert_eq!(g[1].1.x, 3);
}

#[test]
fn rows_and_kept_nodes() {
    let rows = vec![skill_row(5, "Strength", false), skill_row(6, "[DNT] Hidden", false)];
    assert_eq!(find_node_row(&rows, 6), Some(1));
    assert_eq!(find_node_row(&rows, 7), None);
    assert!(keeps_row(&rows[0]));
    assert!(!keeps_row(&rows[1]));
    let n = node_from_row(&rows[0], &gnode(5, 2, &[6, 7]), vec![s("+10 to Strength")], None);
    assert_eq!(n.skill, 5);
    assert_eq!(n.name, "Strength");
    assert_eq!(n.group, Some(2));
    assert_eq!(n.orbit, Some(1));
    assert_eq!(n.orbit_index, Some(3));
    assert_eq!(n.out, Some(vec![6, 7]));
    assert_eq!(n.in_, None);
    assert_eq!(n.stats, vec![s("+10 to Strength")]);
}

#[test]
fn stat_parameters_of_a_row() {
    let mut row = skill_row(5, "Life", false);
    row.push((s("Stats"), Val::Array(vec![fr("Stats", 1, None), fr("Stats", 0, None)])));
    row.push((s("Stat1Value"), Val::Integer(40)));
    row.push((s("Stat2Value"), Val::Integer(99)));
    let p = node_stat_params(&row, &dats(), &translations());
    // The unknown stat takes no value; the life stat takes the first.
    assert_eq!(p, vec![(s("base_maximum_life"), vec![40])]);
}

#[test]
fn ascendancy_of_a_row() {
    let mut row = skill_row(5, "Titan start", false);
    assert_eq!(node_ascendancy(&row, &dats()), None);
    row.push((s("AscendancyKey"), fr("Ascendancy", 0, None)));
    assert_eq!(node_ascendancy(&row, &dats()), Some(Ascendancy::Titan));
}

#[test]
fn node_table_with_links_and_starts() {
    let graph = Graph {
        root_nodes: vec![(5, 0)],
        groups: vec![
            Group { x: 0, y: 0, nodes: vec![gnode(5, 1, &[6]), gnode(6, 1, &[7])], flag: 0 },
            Group { x: 0, y: 0, nodes: vec![gnode(7, 2, &[]), gnode(8, 2, &[])], flag: 0 },
        ],
    };
    let rows = vec![
        skill_row(5, "Start", false),
        skill_row(6, "Middle", false),
        skill_row(7, "Socket", true),
        skill_row(8, "[DNT] x", false),
    ];
    let row_stats = vec![vec![], vec![s("a")], vec![], vec![]];
    let mut t = extract_nodes(&graph, &rows, &dats(), &row_stats);
    assert_eq!(t.iter().map(|e| e.0).collect::<Vec<_>>(), vec![5, 6, 7]);
    assert_eq!(t[1].1.stats, vec![s("a")]);
    set_class_starts(&mut t, &graph.root_nodes);
    assert_eq!(t[0].1.class_start_index, Some(0));
    assert_eq!(t[1].1.class_start_index, None);
    assert_eq!(jewel_slots(&t), vec![7]);
    let t = fill_in_links(t);
    assert_eq!(t[0].1.in_, None);
    assert_eq!(t[1].1.in_, Some(vec![5]));
    assert_eq!(t[2].1.in_, Some(vec![6]));
}
