use lightning::cluster::{pick_slots, socket_assignments, sort_slots, ClusterData, JewelSize, SlotShift};
use lightning::tattoo::{TattooData, TattooType};
use lightning::tree::{blank_node, PassiveTree, NOTHINGNESS_NODE_ID};
use lightning::tree_data::{get_rect, Class, ExpansionJewel, Node, Rect, Sprite};

fn node(id: u32, ins: &[u32], outs: &[u32]) -> Node {
    let mut n = blank_node();
    n.skill = id;
    n.in_ = Some(ins.to_vec());
    n.out = Some(outs.to_vec());
    n
}

/// A small tree: the Scion start 1, a line 1 - 2 - 3 - 4, a jewel socket 5 off 2 and a
/// mastery 6 off 3.
fn small_tree() -> PassiveTree {
    let mut start = node(1, &[], &[2]);
    start.class_start_index = Some(0);
    let n2 = node(2, &[1], &[3, 5]);
    let n3 = node(3, &[2], &[4, 6]);
    let n4 = node(4, &[3], &[]);
    let mut n5 = node(5, &[2], &[]);
    n5.is_jewel_socket = true;
    let mut n6 = node(6, &[3], &[]);
    n6.is_mastery = true;
    PassiveTree::new(vec![start, n2, n3, n4, n5, n6], vec![1, 6, 16, 16])
}

#[test]
fn new_tree_allocates_class_start() {
    let t = small_tree();
    assert_eq!(t.class, Class::Scion);
    assert_eq!(t.nodes, vec![1]);
    assert_eq!(t.passives_count(), 0);
}

#[test]
fn tree_readiness_is_checked() {
    assert!(small_tree().is_ready());
    // A link to a node the table does not have.
    let mut start = node(1, &[], &[2]);
    start.class_start_index = Some(0);
    let n2 = node(2, &[1, 9], &[]);
    assert!(!PassiveTree::new(vec![start.clone(), n2], vec![1]).is_ready());
    // A node with no links at all cannot be stepped from.
    let mut n3 = blank_node();
    n3.skill = 3;
    assert!(!PassiveTree::new(vec![start, n3], vec![1]).is_ready());
}

#[test]
fn find_path_is_shortest() {
    let t = small_tree();
    assert_eq!(t.find_path(4), Some(vec![4, 3, 2, 1]));
    assert_eq!(t.find_path(1), Some(vec![1]));
}

#[test]
fn flip_allocates_path_then_removes_dependents() {
    let mut t = small_tree();
    t.flip_node(4);
    assert_eq!(t.nodes, vec![1, 4, 3, 2]);
    assert_eq!(t.passives_count(), 3);
    t.flip_node(5);
    assert_eq!(t.jewel_slots(), vec![5]);
    // Deallocating 2 cuts 3, 4 and 5 off the class start.
    t.flip_node(2);
    assert_eq!(t.nodes, vec![1]);
    assert!(t.jewel_slots().is_empty());
}

#[test]
fn masteries_are_not_stepped_into() {
    let t = small_tree();
    // 6 is a mastery: it is no successor of 3, and 6 itself steps back through its in-link.
    assert_eq!(t.successors(3), vec![2, 4]);
    assert_eq!(t.successors(6), vec![3]);
}

#[test]
fn tattoo_applies_and_reverts() {
    let mut t = small_tree();
    let data = vec![(
        "Honoured Tattoo".to_string(),
        TattooData {
            stats: vec!["+10 to Strength".to_string()],
            tattoo_type: TattooType::Node,
            icon: "icon.png".to_string(),
            active_effect_image: "effect.png".to_string(),
        },
    )];
    t.masteries.insert(3, 7);
    t.set_tattoo(3, Some("Honoured Tattoo"), &data);
    assert_eq!(t.tattoos.get(&3).map(|s| s.as_str()), Some("Honoured Tattoo"));
    assert!(t.masteries.get(&3).is_none());
    t.set_tattoo(3, None, &data);
    assert!(t.tattoos.get(&3).is_none());
    // An unknown tattoo changes nothing.
    t.set_tattoo(3, Some("Unknown"), &data);
    assert!(t.tattoos.is_empty());
}

#[test]
fn proxy_group_lookup() {
    let t = small_tree();
    assert_eq!(t.get_proxy_group(1), None);
    assert_eq!(NOTHINGNESS_NODE_ID, u32::MAX - 1);
}

#[test]
fn cluster_layout_helpers() {
    assert_eq!(socket_assignments(JewelSize::Large, 1), vec![(6, 1)]);
    assert_eq!(socket_assignments(JewelSize::Large, 2), vec![(4, 0), (8, 2)]);
    assert_eq!(socket_assignments(JewelSize::Medium, 1), vec![(6, 0)]);
    let taken = vec![false, false, false, false, false, false, true, false, false, false, false, false];
    // Medium notables with a socket in slot 6: 10, 2, 0, up to two.
    assert_eq!(pick_slots(&vec![6, 10, 2, 0], 2, &taken, SlotShift::Keep), vec![10, 2]);
    // With four nodes, 10 moves to 9 and 2 to 3.
    assert_eq!(pick_slots(&vec![6, 10, 2, 0], 3, &taken, SlotShift::NotablesFour), vec![9, 3, 0]);
    assert_eq!(sort_slots(&vec![9, 3, 0]), vec![0, 3, 9]);
}

#[test]
fn allocate_path_appends_all_but_the_last() {
    let mut t = small_tree();
    t.allocate_path(&vec![4, 3, 2, 1]);
    assert_eq!(t.nodes, vec![1, 4, 3, 2]);
}

/// The small tree with a cluster jewel socket 5 whose proxy 7 lies in group 3.
fn cluster_tree() -> PassiveTree {
    let mut start = node(1, &[], &[2]);
    start.class_start_index = Some(0);
    let n2 = node(2, &[1], &[5]);
    let mut n5 = node(5, &[2], &[7]);
    n5.is_jewel_socket = true;
    n5.expansion_jewel = Some(ExpansionJewel { size: 0, index: 0, proxy: 7, parent: 0 });
    let mut n7 = node(7, &[5], &[]);
    n7.is_proxy = true;
    n7.group = Some(3);
    PassiveTree::new(vec![start, n2, n5, n7], vec![1, 6, 16, 16])
}

#[test]
fn small_cluster_jewel_adds_its_ring() {
    let mut t = cluster_tree();
    let mut notable = blank_node();
    notable.name = "Notable".to_string();
    let data = ClusterData {
        small_passives_amount: 3,
        small_passives_node_id: NOTHINGNESS_NODE_ID,
        added_sockets_amount: 0,
        notables: vec![notable],
        added_stats: vec!["1% increased Damage".to_string()],
    };
    t.add_cluster(data, 5, "Small Cluster Jewel");
    // The socket, then slots 0 and 2 (small passives) and 4 (the notable).
    assert_eq!(t.nodes_cluster.len(), 4);
    assert_eq!(t.nodes_cluster[0].1.skill, 5);
    assert_eq!(t.nodes_cluster[0].1.out, Some(vec![65537]));
    let ids: Vec<u32> = t.nodes_cluster[1..].iter().map(|(j, n)| { assert_eq!(*j, 5); n.skill }).collect();
    assert_eq!(ids, vec![65537, 65538, 65536]);
    let first = &t.nodes_cluster[1].1;
    assert_eq!(first.name, "Nothingness");
    assert_eq!(first.stats, vec!["1% increased Damage".to_string()]);
    assert_eq!(first.in_, Some(vec![5]));
    assert_eq!(first.out, Some(vec![65538]));
    assert_eq!(first.orbit, Some(1));
    let last = &t.nodes_cluster[3].1;
    assert_eq!(last.name, "Notable");
    assert_eq!(last.in_, Some(vec![65538]));
    assert_eq!(last.out, Some(vec![]));
    assert!(t.has_node(65536) && t.has_node(65537) && t.has_node(65538));
}

#[test]
fn node_icons_come_from_the_sheet_of_their_kind() {
    let sheet = |name: &str, icons: &[(&str, u16)]| {
        (
            name.to_string(),
            Sprite {
                filename: format!("{name}.png"),
                w: 100,
                h: 100,
                coords: icons.iter().map(|(i, x)| (i.to_string(), Rect { x: *x, y: 0, w: 10, h: 10 })).collect(),
            },
        )
    };
    let sprites = vec![
        sheet("normalInactive", &[("a.png", 1), ("b.png", 2)]),
        sheet("notableInactive", &[("a.png", 3)]),
        sheet("keystoneInactive", &[]),
        sheet("masteryConnected", &[("m.png", 4)]),
    ];
    let mut n = blank_node();
    n.icon = "b.png".to_string();
    let (rect, sprite) = get_rect(&n, &sprites).unwrap();
    assert_eq!((rect.x, sprite.filename.as_str()), (2, "normalInactive.png"));
    n.icon = "a.png".to_string();
    n.is_notable = true;
    assert_eq!(get_rect(&n, &sprites).unwrap().0.x, 3);
    n.is_notable = false;
    n.is_keystone = true;
    assert!(get_rect(&n, &sprites).is_none());
    n.is_keystone = false;
    n.is_mastery = true;
    n.inactive_icon = Some("m.png".to_string());
    assert_eq!(get_rect(&n, &sprites).unwrap().0.x, 4);
}
