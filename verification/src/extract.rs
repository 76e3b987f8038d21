use vstd::prelude::*;
use crate::datc64::{ForeignRow, RowData, Val};
use crate::poe2_tree::{Ascendancy, Group, Node};
use crate::psg::Graph;
use crate::arith::fits;
use crate::csd::{stat_arity, Translation, Translations};
use crate::tree_data::copy_strings;
use crate::text::{decimal, decimal_text, has_prefix, starts_with, str_eq};

verus! {

/// The position of the first column of a row named `key`.
pub open spec fn column_at(row: Seq<(String, Val)>, key: Seq<char>) -> Option<int> {
    if exists|i: int| 0 <= i < row.len() && #[trigger] row[i].0@ == key {
        Some(choose|i: int| 0 <= i < row.len() && row[i].0@ == key && forall|j: int| 0 <= j < i ==> #[trigger] row[j].0@ != key)
    } else {
        None
    }
}

/// The value of the column `key` of a row.
pub open spec fn row_get(row: Seq<(String, Val)>, key: Seq<char>) -> Option<Val> {
    match column_at(row, key) {
        Some(i) => Some(row[i].1),
        None => None,
    }
}

/// The value of the column `key` of a row.
pub fn row_value<'a>(row: &'a RowData, key: &str) -> (r: Option<&'a Val>)
    ensures
        match r {
            Some(v) => row_get(row@, key@) == Some(*v),
            None => row_get(row@, key@) is None,
        },
{
    let mut i: usize = 0;
    while i < row.len()
        invariant
            i <= row@.len(),
            forall|j: int| 0 <= j < i ==> #[trigger] row@[j].0@ != key@,
        decreases row@.len() - i,
    {
        if str_eq(row[i].0.as_str(), key) {
            proof {
                assert(row@[i as int].0@ == key@);
                let k = choose|k: int| 0 <= k < row@.len() && row@[k].0@ == key@ && forall|j: int| 0 <= j < k ==> #[trigger] row@[j].0@ != key@;
                if k < i {
                } else if k > i {
                    assert(row@[i as int].0@ != key@);
                }
            }
            return Some(&row[i].1);
        }
        i = i + 1;
    }
    None
}

/// The position of the first table named `name`.
pub open spec fn table_at(dats: Seq<(String, Vec<RowData>)>, name: Seq<char>) -> Option<int> {
    if exists|i: int| 0 <= i < dats.len() && #[trigger] dats[i].0@ == name {
        Some(choose|i: int| 0 <= i < dats.len() && dats[i].0@ == name && forall|j: int| 0 <= j < i ==> #[trigger] dats[j].0@ != name)
    } else {
        None
    }
}

fn find_table(dats: &Vec<(String, Vec<RowData>)>, name: &str) -> (r: Option<usize>)
    ensures
        match r {
            Some(i) => table_at(dats@, name@) == Some(i as int) && i < dats@.len(),
            None => table_at(dats@, name@) is None,
        },
{
    let mut i: usize = 0;
    while i < dats.len()
        invariant
            i <= dats@.len(),
            forall|j: int| 0 <= j < i ==> #[trigger] dats@[j].0@ != name@,
        decreases dats@.len() - i,
    {
        if str_eq(dats[i].0.as_str(), name) {
            proof {
                assert(dats@[i as int].0@ == name@);
                let k = choose|k: int| 0 <= k < dats@.len() && dats@[k].0@ == name@ && forall|j: int| 0 <= j < k ==> #[trigger] dats@[j].0@ != name@;
                if k < i {
                } else if k > i {
                    assert(dats@[i as int].0@ != name@);
                }
            }
            return Some(i);
        }
        i = i + 1;
    }
    None
}

/// The value a reference to a row of another table leads to: the column `key` (the
/// reference's own key when none is given) of the referred row, when the table, the row
/// and the column exist.
pub open spec fn foreign_val(dats: Seq<(String, Vec<RowData>)>, fr: ForeignRow, key: Option<Seq<char>>) -> Option<Val> {
    if key is None && fr.key is None {
        None
    } else {
        match table_at(dats, fr.dat_file@) {
            Some(t) => {
                let rows = dats[t].1@;
                if fr.rowid < rows.len() {
                    let k = match key {
                        Some(k) => k,
                        None => fr.key->0@,
                    };
                    row_get(rows[fr.rowid as int]@, k)
                } else {
                    None
                }
            },
            None => None,
        }
    }
}

/// The value a reference to a row of another table leads to; `dats` holds the tables
/// read, by name.
pub fn get_foreign_val<'a>(dats: &'a Vec<(String, Vec<RowData>)>, foreign_row: &ForeignRow, key: Option<&str>) -> (r: Option<&'a Val>)
    ensures
        match r {
            Some(v) => foreign_val(dats@, *foreign_row, match key { Some(k) => Some(k@), None => None }) == Some(*v),
            None => foreign_val(dats@, *foreign_row, match key { Some(k) => Some(k@), None => None }) is None,
        },
{
    if key.is_none() && foreign_row.key.is_none() {
        return None;
    }
    if let Some(t) = find_table(dats, foreign_row.dat_file.as_str()) {
        let rows = &dats[t].1;
        if foreign_row.rowid < rows.len() as u64 {
            let row = &rows[foreign_row.rowid as usize];
            let k: &str = match key {
                Some(k) => k,
                None => match &foreign_row.key {
                    Some(k) => k.as_str(),
                    None => "",
                },
            };
            return row_value(row, k);
        }
    }
    None
}

/// The groups of the tree from the skill graph: numbered from 1 in the graph's order, at
/// the graph's positions, with the graph's nodes.
pub fn tree_groups(graph: &Graph) -> (r: Vec<(u16, Group)>)
    requires
        graph.groups@.len() < 65535,
    ensures
        r@.len() == graph.groups@.len(),
        forall|i: int|
            0 <= i < r@.len() ==> {
                let (id, g) = #[trigger] r@[i];
                let src = graph.groups@[i];
                &&& id == i + 1
                &&& g.x == src.x
                &&& g.y == src.y
                &&& g.orbits@.len() == 0
                &&& g.nodes@.len() == src.nodes@.len()
                &&& forall|k: int| 0 <= k < g.nodes@.len() ==> #[trigger] g.nodes@[k] == src.nodes@[k].passive_skill as u16
                &&& g.background is None
                &&& !g.is_proxy
            },
{
    let mut r: Vec<(u16, Group)> = Vec::new();
    let mut i: usize = 0;
    while i < graph.groups.len()
        invariant
            i <= graph.groups@.len(),
            graph.groups@.len() < 65535,
            r@.len() == i,
            forall|j: int|
                0 <= j < i ==> {
                    let (id, g) = #[trigger] r@[j];
                    let src = graph.groups@[j];
                    &&& id == j + 1
                    &&& g.x == src.x
                    &&& g.y == src.y
                    &&& g.orbits@.len() == 0
                    &&& g.nodes@.len() == src.nodes@.len()
                    &&& forall|k: int| 0 <= k < g.nodes@.len() ==> #[trigger] g.nodes@[k] == src.nodes@[k].passive_skill as u16
                    &&& g.background is None
                    &&& !g.is_proxy
                },
        decreases graph.groups@.len() - i,
    {
        let group = &graph.groups[i];
        let mut nodes: Vec<u16> = Vec::new();
        let mut k: usize = 0;
        while k < group.nodes.len()
            invariant
                k <= group.nodes@.len(),
                nodes@.len() == k,
                forall|k2: int| 0 <= k2 < k ==> #[trigger] nodes@[k2] == group.nodes@[k2].passive_skill as u16,
            decreases group.nodes@.len() - k,
        {
            nodes.push(group.nodes[k].passive_skill as u16);
            k = k + 1;
        }
        r.push(((i as u16) + 1, Group { x: group.x, y: group.y, orbits: Vec::new(), nodes, background: None, is_proxy: false }));
        i = i + 1;
    }
    r
}

/// Every row names its graph node by an integer.
pub open spec fn rows_have_graph_ids(rows: Seq<RowData>) -> bool {
    forall|i: int| 0 <= i < rows.len() ==> (row_get((#[trigger] rows[i])@, "PassiveSkillGraphId"@) matches Some(v) && v is Integer)
}

/// The graph node a row describes, as the tree numbers skills.
pub open spec fn graph_id(row: RowData) -> u16 {
    (row_get(row@, "PassiveSkillGraphId"@)->0->Integer_0) as u16
}

/// The position of the first row describing the graph node `skill`.
pub open spec fn row_for(rows: Seq<RowData>, skill: u16) -> Option<int> {
    if exists|i: int| 0 <= i < rows.len() && #[trigger] graph_id(rows[i]) == skill {
        Some(choose|i: int| 0 <= i < rows.len() && graph_id(rows[i]) == skill && forall|j: int| 0 <= j < i ==> #[trigger] graph_id(rows[j]) != skill)
    } else {
        None
    }
}

/// The first row describing the graph node `skill`.
pub fn find_node_row(rows: &Vec<RowData>, skill: u16) -> (r: Option<usize>)
    requires
        rows_have_graph_ids(rows@),
    ensures
        match r {
            Some(i) => row_for(rows@, skill) == Some(i as int) && i < rows@.len(),
            None => row_for(rows@, skill) is None,
        },
{
    let mut i: usize = 0;
    while i < rows.len()
        invariant
            i <= rows@.len(),
            rows_have_graph_ids(rows@),
            forall|j: int| 0 <= j < i ==> #[trigger] graph_id(rows@[j]) != skill,
        decreases rows@.len() - i,
    {
        assert(row_get(rows@[i as int]@, "PassiveSkillGraphId"@) matches Some(v) && v is Integer);
        let id = match row_value(&rows[i], "PassiveSkillGraphId") {
            Some(v) => v.integer(),
            None => 0,
        };
        if id as u16 == skill {
            proof {
                assert(graph_id(rows@[i as int]) == skill);
                let k = choose|k: int| 0 <= k < rows@.len() && graph_id(rows@[k]) == skill && forall|j: int| 0 <= j < k ==> #[trigger] graph_id(rows@[j]) != skill;
                if k < i {
                } else if k > i {
                    assert(graph_id(rows@[i as int]) != skill);
                }
            }
            return Some(i);
        }
        i = i + 1;
    }
    None
}

/// The row describes a node the tree keeps: it has an icon and a name, and the name is not
/// marked "[DNT]" (do not translate).
pub open spec fn keeps_node(row: RowData) -> bool {
    &&& row_get(row@, "Icon_DDSFile"@) is Some
    &&& row_get(row@, "Name"@) is Some
    &&& !has_prefix(row_get(row@, "Name"@)->0->String_0@, "[DNT]"@)
}

/// The row's value of `key` is a boolean; its truth.
pub open spec fn row_bool(row: RowData, key: Seq<char>) -> bool {
    row_get(row@, key)->0->Bool_0
}

/// The row's name, if it has one, is a string.
pub open spec fn name_ok(row: RowData) -> bool {
    row_get(row@, "Name"@) matches Some(v) ==> v is String
}

/// A kept row has what a node is built from: an icon as a string, and its flags as booleans.
pub open spec fn fields_ok(row: RowData) -> bool {
    &&& row_get(row@, "Icon_DDSFile"@) matches Some(v) ==> v is String
    &&& row_get(row@, "IsNotable"@) matches Some(v) && v is Bool
    &&& row_get(row@, "IsKeystone"@) matches Some(v) && v is Bool
    &&& row_get(row@, "IsAscendancyStartingNode"@) matches Some(v) && v is Bool
    &&& row_get(row@, "IsJewelSocket"@) matches Some(v) && v is Bool
    &&& row_get(row@, "IsJustIcon"@) matches Some(v) && v is Bool
}

/// The boolean of a column.
fn read_bool(row: &RowData, key: &str) -> (r: bool)
    requires
        row_get(row@, key@) matches Some(v) && v is Bool,
    ensures
        r == row_bool(*row, key@),
{
    match row_value(row, key) {
        Some(v) => v.bool(),
        None => false,
    }
}

/// Whether the row describes a node the tree keeps.
pub fn keeps_row(row: &RowData) -> (r: bool)
    requires
        name_ok(*row),
    ensures
        r == keeps_node(*row),
{
    if row_value(row, "Icon_DDSFile").is_none() {
        return false;
    }
    match row_value(row, "Name") {
        Some(name) => !starts_with(name.string(), "[DNT]"),
        None => false,
    }
}

/// `n` is the node built from a kept row and its graph node: the graph gives its skill,
/// group, orbit, orbit index and outgoing links (as the tree numbers skills), the row its
/// icon, name and flags; `stats` and `ascendancy` are given.
pub open spec fn node_built(n: Node, row: RowData, gn: crate::psg::Node, stats: Seq<String>, ascendancy: Option<Ascendancy>) -> bool {
    &&& n.skill == gn.passive_skill as u16
    &&& n.stats@ == stats
    &&& n.icon@ == row_get(row@, "Icon_DDSFile"@)->0->String_0@
    &&& n.name@ == row_get(row@, "Name"@)->0->String_0@
    &&& n.is_notable == row_bool(row, "IsNotable"@)
    &&& n.is_keystone == row_bool(row, "IsKeystone"@)
    &&& n.is_ascendancy_start == row_bool(row, "IsAscendancyStartingNode"@)
    &&& n.is_jewel_socket == row_bool(row, "IsJewelSocket"@)
    &&& n.is_just_icon == row_bool(row, "IsJustIcon"@)
    &&& n.ascendancy == ascendancy
    &&& n.class_start_index is None
    &&& n.group == Some(gn.group as u16)
    &&& n.orbit == Some(gn.radius as u16)
    &&& n.orbit_index == Some(gn.position as u16)
    &&& (n.out matches Some(out) && out@.len() == gn.connections@.len() && forall|k: int|
        0 <= k < out@.len() ==> #[trigger] out@[k] == gn.connections@[k].0 as u16)
    &&& n.in_ is None
}

/// The string of a column.
fn read_string(row: &RowData, key: &str) -> (r: String)
    requires
        row_get(row@, key@) matches Some(v) && v is String,
    ensures
        r@ == row_get(row@, key@)->0->String_0@,
{
    match row_value(row, key) {
        Some(v) => String::from_str(v.string()),
        None => String::new(),
    }
}

/// The outgoing links of a graph node, as the tree numbers skills.
fn out_links(gn: &crate::psg::Node) -> (r: Vec<u16>)
    ensures
        r@.len() == gn.connections@.len(),
        forall|k: int| 0 <= k < r@.len() ==> #[trigger] r@[k] == gn.connections@[k].0 as u16,
{
    let mut out: Vec<u16> = Vec::new();
    let mut k: usize = 0;
    while k < gn.connections.len()
        invariant
            k <= gn.connections@.len(),
            out@.len() == k,
            forall|k2: int| 0 <= k2 < k ==> #[trigger] out@[k2] == gn.connections@[k2].0 as u16,
        decreases gn.connections@.len() - k,
    {
        out.push(gn.connections[k].0 as u16);
        k = k + 1;
    }
    out
}

/// The node a kept row and its graph node describe.
pub fn node_from_row(row: &RowData, gn: &crate::psg::Node, stats: Vec<String>, ascendancy: Option<Ascendancy>) -> (r: Node)
    requires
        name_ok(*row),
        fields_ok(*row),
        keeps_node(*row),
    ensures
        node_built(r, *row, *gn, stats@, ascendancy),
{
    let out = out_links(gn);
    let icon = read_string(row, "Icon_DDSFile");
    let name = read_string(row, "Name");
    let is_notable = read_bool(row, "IsNotable");
    let is_keystone = read_bool(row, "IsKeystone");
    let is_ascendancy_start = read_bool(row, "IsAscendancyStartingNode");
    let is_jewel_socket = read_bool(row, "IsJewelSocket");
    let is_just_icon = read_bool(row, "IsJustIcon");
    Node {
        skill: gn.passive_skill as u16,
        stats,
        icon,
        name,
        is_notable,
        is_keystone,
        is_ascendancy_start,
        is_jewel_socket,
        is_just_icon,
        ascendancy,
        class_start_index: None,
        group: Some(gn.group as u16),
        orbit: Some(gn.radius as u16),
        orbit_index: Some(gn.position as u16),
        out: Some(out),
        in_: None,
    }
}

/// The column of the `k`-th stat value of a row: "Stat{k}Value".
pub open spec fn stat_value_key(k: i64) -> Seq<char> {
    "Stat"@ + decimal_text(k) + "Value"@
}

/// The `n` stat values of a row from the `start`-th on, if each column holds an integer.
pub open spec fn values_at(row: RowData, start: int, n: nat) -> Option<Seq<i64>>
    decreases n,
{
    if n == 0 {
        Some(Seq::empty())
    } else {
        match values_at(row, start, (n - 1) as nat) {
            Some(vals) => if fits(start + n - 1) {
                match row_get(row@, stat_value_key((start + n - 1) as i64)) {
                    Some(v) => if v is Integer {
                        Some(vals.push(v->Integer_0))
                    } else {
                        None
                    },
                    None => None,
                }
            } else {
                None
            },
            None => None,
        }
    }
}

/// The stats of a node row with their parameters, as (stat id, values), and the position
/// of the next stat value: each stat of the row whose id the tables give and whose number
/// of parameters the translations know takes that many values, in order. `None` where a
/// value the row should hold is missing or of another kind.
pub open spec fn stat_params_from(
    row: RowData,
    dats: Seq<(String, Vec<RowData>)>,
    tr: Seq<(String, Vec<Translation>)>,
    stats: Seq<Val>,
) -> Option<(Seq<(Seq<char>, Seq<i64>)>, int)>
    decreases stats.len(),
{
    if stats.len() == 0 {
        Some((Seq::empty(), 1))
    } else {
        match stat_params_from(row, dats, tr, stats.drop_last()) {
            Some(acc) => param_step(acc, row, dats, tr, stats.last()),
            None => None,
        }
    }
}

/// What one stat of the row adds to the stats read so far and the next value position.
pub open spec fn param_step(
    acc: (Seq<(Seq<char>, Seq<i64>)>, int),
    row: RowData,
    dats: Seq<(String, Vec<RowData>)>,
    tr: Seq<(String, Vec<Translation>)>,
    st: Val,
) -> Option<(Seq<(Seq<char>, Seq<i64>)>, int)> {
    let (ps, idx) = acc;
    if st is ForeignRow {
        match foreign_val(dats, st->ForeignRow_0, Some("Id"@)) {
            Some(v) => if v is String {
                match stat_arity(tr, v->String_0@) {
                    Some(n) => match values_at(row, idx, n) {
                        Some(vals) => if fits(idx + n) {
                            Some((ps.push((v->String_0@, vals)), idx + n))
                        } else {
                            None
                        },
                        None => None,
                    },
                    None => Some((ps, idx)),
                }
            } else {
                None
            },
            None => Some((ps, idx)),
        }
    } else {
        None
    }
}

/// The stats of a node row with their parameters; nothing when the row has no stat list.
pub open spec fn stat_params(row: RowData, dats: Seq<(String, Vec<RowData>)>, tr: Seq<(String, Vec<Translation>)>) -> Option<
    Seq<(Seq<char>, Seq<i64>)>,
> {
    match row_get(row@, "Stats"@) {
        Some(v) => if v is Array {
            match stat_params_from(row, dats, tr, v->Array_0@) {
                Some((ps, _)) => Some(ps),
                None => None,
            }
        } else {
            Some(Seq::empty())
        },
        None => Some(Seq::empty()),
    }
}

/// The (id, values) of each stat.
pub open spec fn param_views(v: Seq<(String, Vec<i64>)>) -> Seq<(Seq<char>, Seq<i64>)> {
    v.map_values(|e: (String, Vec<i64>)| (e.0@, e.1@))
}

/// The column name of the `k`-th stat value.
fn stat_value_column(k: i64) -> (r: String)
    ensures
        r@ == stat_value_key(k),
{
    let mut r = String::from_str("Stat");
    let d = decimal(k);
    r.append(d.as_str());
    r.append("Value");
    r
}

/// The `k`-th stat value of a row.
fn read_value_at(row: &RowData, k: i64) -> (r: i64)
    requires
        row_get(row@, stat_value_key(k)) matches Some(v) && v is Integer,
    ensures
        r == row_get(row@, stat_value_key(k))->0->Integer_0,
{
    let key = stat_value_column(k);
    match row_value(row, key.as_str()) {
        Some(v) => v.integer(),
        None => 0,
    }
}

/// The `n` stat values from the `start`-th on.
#[verifier::rlimit(40)]
fn read_values(row: &RowData, start: i64, n: usize) -> (r: Vec<i64>)
    requires
        start >= 0,
        values_at(*row, start as int, n as nat) is Some,
    ensures
        values_at(*row, start as int, n as nat) == Some(r@),
{
    let mut vals: Vec<i64> = Vec::new();
    let mut k: usize = 0;
    while k < n
        invariant
            k <= n,
            start >= 0,
            values_at(*row, start as int, n as nat) is Some,
            values_at(*row, start as int, k as nat) == Some(vals@),
        decreases n - k,
    {
        proof {
            lemma_values_prefix(*row, start as int, n as nat, (k + 1) as nat);
            lemma_values_step(*row, start as int, k as nat);
        }
        let v = read_value_at(row, start + k as i64);
        vals.push(v);
        k = k + 1;
    }
    vals
}

/// One more value: the column after the others holds an integer, which comes last.
proof fn lemma_values_step(row: RowData, start: int, k: nat)
    requires
        values_at(row, start, k + 1) is Some,
    ensures
        fits(start + k),
        row_get(row@, stat_value_key((start + k) as i64)) matches Some(v) && v is Integer,
        values_at(row, start, k) is Some,
        values_at(row, start, k + 1) == Some(values_at(row, start, k)->0.push(row_get(row@, stat_value_key((start + k) as i64))->0->Integer_0)),
{
}

proof fn lemma_values_prefix(row: RowData, start: int, n: nat, j: nat)
    requires
        values_at(row, start, n) is Some,
        j <= n,
    ensures
        values_at(row, start, j) is Some,
    decreases n,
{
    if j < n {
        lemma_values_prefix(row, start, (n - 1) as nat, j);
    }
}

proof fn lemma_params_prefix(
    row: RowData,
    dats: Seq<(String, Vec<RowData>)>,
    tr: Seq<(String, Vec<Translation>)>,
    stats: Seq<Val>,
    j: int,
)
    requires
        stat_params_from(row, dats, tr, stats) is Some,
        0 <= j <= stats.len(),
    ensures
        stat_params_from(row, dats, tr, stats.take(j)) is Some,
    decreases stats.len(),
{
    if j < stats.len() {
        assert(stats.take(j) == stats.drop_last().take(j));
        lemma_params_prefix(row, dats, tr, stats.drop_last(), j);
    } else {
        assert(stats.take(j) == stats);
    }
}

/// Adds what one stat of the row gives.
fn add_stat_params(
    r: &mut Vec<(String, Vec<i64>)>,
    idx: &mut i64,
    row: &RowData,
    dats: &Vec<(String, Vec<RowData>)>,
    translations: &Translations,
    stat: &Val,
)
    requires
        *old(idx) >= 1,
        param_step((param_views(old(r)@), *old(idx) as int), *row, dats@, translations.entries@, *stat) is Some,
    ensures
        param_step((param_views(old(r)@), *old(idx) as int), *row, dats@, translations.entries@, *stat) == Some(
            (param_views(final(r)@), *final(idx) as int),
        ),
        *final(idx) >= 1,
{
    if let Some(stat_id) = get_foreign_val(dats, stat.foreign_row(), Some("Id")) {
        if let Some(nb_args) = translations.nb_args(stat_id.string()) {
            let vals = read_values(row, *idx, nb_args);
            let ghost vv = vals@;
            r.push((String::from_str(stat_id.string()), vals));
            *idx = *idx + nb_args as i64;
            assert(param_views(r@) =~= param_views(old(r)@).push((stat_id->String_0@, vv)));
        }
    }
}

/// The stats of a node row with their parameters, which the stat translations turn into
/// text.
#[verifier::rlimit(40)]
pub fn node_stat_params(row: &RowData, dats: &Vec<(String, Vec<RowData>)>, translations: &Translations) -> (r: Vec<(String, Vec<i64>)>)
    requires
        stat_params(*row, dats@, translations.entries@) is Some,
    ensures
        stat_params(*row, dats@, translations.entries@) == Some(param_views(r@)),
{
    let mut r: Vec<(String, Vec<i64>)> = Vec::new();
    let stats = match row_value(row, "Stats") {
        Some(Val::Array(stats)) => stats,
        _ => {
            return r;
        },
    };
    let ghost tr = translations.entries@;
    let mut stat_val_idx: i64 = 1;
    let mut i: usize = 0;
    while i < stats.len()
        invariant
            i <= stats@.len(),
            stat_params_from(*row, dats@, tr, stats@) is Some,
            tr == translations.entries@,
            stat_val_idx >= 1,
            stat_params_from(*row, dats@, tr, stats@.take(i as int)) == Some((param_views(r@), stat_val_idx as int)),
        decreases stats@.len() - i,
    {
        proof {
            lemma_params_prefix(*row, dats@, tr, stats@, i + 1);
            assert(stats@.take(i + 1).drop_last() == stats@.take(i as int));
            assert(stats@.take(i + 1).last() == stats@[i as int]);
        }
        add_stat_params(&mut r, &mut stat_val_idx, row, dats, translations, &stats[i]);
        i = i + 1;
    }
    assert(stats@.take(stats@.len() as int) == stats@);
    r
}

/// The ascendancy of a node row: the one its ascendancy reference names, if any.
pub open spec fn row_ascendancy(row: RowData, dats: Seq<(String, Vec<RowData>)>) -> Option<Ascendancy> {
    match row_get(row@, "AscendancyKey"@) {
        Some(v) => match foreign_val(dats, v->ForeignRow_0, Some("Name"@)) {
            Some(n) => Ascendancy::named(n->String_0@),
            None => None,
        },
        None => None,
    }
}

/// The row's ascendancy reference, if any, is a reference, and the name it leads to, if
/// any, a string.
pub open spec fn ascendancy_readable(row: RowData, dats: Seq<(String, Vec<RowData>)>) -> bool {
    row_get(row@, "AscendancyKey"@) matches Some(v) ==> (v is ForeignRow && (foreign_val(
        dats,
        v->ForeignRow_0,
        Some("Name"@),
    ) matches Some(n) ==> n is String))
}

/// The ascendancy of a node row.
pub fn node_ascendancy(row: &RowData, dats: &Vec<(String, Vec<RowData>)>) -> (r: Option<Ascendancy>)
    requires
        ascendancy_readable(*row, dats@),
    ensures
        r == row_ascendancy(*row, dats@),
{
    match row_value(row, "AscendancyKey") {
        Some(val) => match get_foreign_val(dats, val.foreign_row(), Some("Name")) {
            Some(name) => Ascendancy::from_str(name.string()),
            None => None,
        },
        None => None,
    }
}

/// The nodes of the skill graph, group after group.
pub open spec fn graph_nodes(groups: Seq<crate::psg::Group>) -> Seq<crate::psg::Node>
    decreases groups.len(),
{
    if groups.len() == 0 {
        Seq::empty()
    } else {
        graph_nodes(groups.drop_last()) + groups.last().nodes@
    }
}

/// The skill of a graph node, as the tree numbers skills.
pub open spec fn skill_of(gn: crate::psg::Node) -> u16 {
    gn.passive_skill as u16
}

/// A row describes the skill and the tree keeps it.
pub open spec fn kept_skill(rows: Seq<RowData>, s: u16) -> bool {
    row_for(rows, s) matches Some(r) && keeps_node(rows[r])
}

/// The position of the last graph node with the skill `s`.
pub open spec fn last_with(p: Seq<crate::psg::Node>, s: u16) -> int
    decreases p.len(),
{
    if p.len() == 0 {
        -1
    } else if skill_of(p.last()) == s {
        p.len() - 1
    } else {
        last_with(p.drop_last(), s)
    }
}

/// The row a graph node leads to can be read: its name, and when the tree keeps the node,
/// its fields and ascendancy.
pub open spec fn node_usable(gn: crate::psg::Node, rows: Seq<RowData>, dats: Seq<(String, Vec<RowData>)>) -> bool {
    row_for(rows, skill_of(gn)) matches Some(r) ==> name_ok(rows[r]) && (keeps_node(rows[r]) ==> fields_ok(rows[r])
        && ascendancy_readable(rows[r], dats))
}

/// The node table built from the graph nodes `p`: one entry per kept skill, built from the
/// last graph node with that skill, its row, the row's stat lines and its ascendancy.
#[verifier::opaque]
pub open spec fn table_ok(
    t: Seq<(u16, Node)>,
    p: Seq<crate::psg::Node>,
    rows: Seq<RowData>,
    dats: Seq<(String, Vec<RowData>)>,
    stats: Seq<Vec<String>>,
) -> bool {
    &&& forall|a: int, b: int| 0 <= a < b < t.len() ==> (#[trigger] t[a]).0 != (#[trigger] t[b]).0
    &&& forall|s: u16|
        (exists|q: int| 0 <= q < t.len() && #[trigger] t[q].0 == s) <==> (exists|j: int|
            0 <= j < p.len() && #[trigger] skill_of(p[j]) == s) && kept_skill(rows, s)
    &&& forall|q: int|
        0 <= q < t.len() ==> {
            let s = (#[trigger] t[q]).0;
            let r = row_for(rows, s)->0;
            &&& kept_skill(rows, s)
            &&& 0 <= last_with(p, s) < p.len()
            &&& node_built(t[q].1, rows[r], p[last_with(p, s)], stats[r]@, row_ascendancy(rows[r], dats))
        }
}

proof fn lemma_last_with_push(p: Seq<crate::psg::Node>, gn: crate::psg::Node, s: u16)
    ensures
        last_with(p.push(gn), s) == if skill_of(gn) == s { p.len() as int } else { last_with(p, s) },
        last_with(p, s) < p.len(),
        last_with(p, s) >= 0 ==> skill_of(p[last_with(p, s)]) == s,
        (exists|j: int| 0 <= j < p.len() && #[trigger] skill_of(p[j]) == s) ==> last_with(p, s) >= 0,
    decreases p.len(),
{
    assert(p.push(gn).drop_last() == p);
    if p.len() > 0 {
        lemma_last_with_push(p.drop_last(), p.last(), s);
        assert(p.drop_last().push(p.last()) == p);
        if exists|j: int| 0 <= j < p.len() && #[trigger] skill_of(p[j]) == s {
            let j = choose|j: int| 0 <= j < p.len() && #[trigger] skill_of(p[j]) == s;
            if j < p.len() - 1 {
                assert(skill_of(p.drop_last()[j]) == s);
            }
        }
    }
}

/// The position of the entry of skill `s`.
fn table_find(t: &Vec<(u16, Node)>, s: u16) -> (r: Option<usize>)
    ensures
        match r {
            Some(q) => q < t@.len() && t@[q as int].0 == s,
            None => forall|q: int| 0 <= q < t@.len() ==> #[trigger] t@[q].0 != s,
        },
{
    let mut q: usize = 0;
    while q < t.len()
        invariant
            q <= t@.len(),
            forall|q2: int| 0 <= q2 < q ==> #[trigger] t@[q2].0 != s,
        decreases t@.len() - q,
    {
        if t[q].0 == s {
            return Some(q);
        }
        q = q + 1;
    }
    None
}

/// The last graph node of each entry is the same one after a node of another skill, and
/// every skill the graph nodes had is still there.
proof fn lemma_push_other(p: Seq<crate::psg::Node>, gn: crate::psg::Node, s2: u16)
    requires
        skill_of(gn) != s2,
    ensures
        last_with(p.push(gn), s2) == last_with(p, s2),
        (exists|j: int| 0 <= j < p.push(gn).len() && #[trigger] skill_of(p.push(gn)[j]) == s2) == (exists|j: int|
            0 <= j < p.len() && #[trigger] skill_of(p[j]) == s2),
        0 <= last_with(p, s2) ==> p.push(gn)[last_with(p, s2)] == p[last_with(p, s2)],
{
    lemma_last_with_push(p, gn, s2);
    let p2 = p.push(gn);
    if exists|j: int| 0 <= j < p2.len() && #[trigger] skill_of(p2[j]) == s2 {
        let j = choose|j: int| 0 <= j < p2.len() && #[trigger] skill_of(p2[j]) == s2;
        assert(j < p.len());
        assert(skill_of(p[j]) == s2);
    }
    if exists|j: int| 0 <= j < p.len() && #[trigger] skill_of(p[j]) == s2 {
        let j = choose|j: int| 0 <= j < p.len() && #[trigger] skill_of(p[j]) == s2;
        assert(skill_of(p2[j]) == s2);
    }
}

/// A graph node whose skill the tree does not keep changes nothing.
proof fn lemma_table_skip(
    t: Seq<(u16, Node)>,
    p: Seq<crate::psg::Node>,
    gn: crate::psg::Node,
    rows: Seq<RowData>,
    dats: Seq<(String, Vec<RowData>)>,
    stats: Seq<Vec<String>>,
)
    requires
        table_ok(t, p, rows, dats, stats),
        !kept_skill(rows, skill_of(gn)),
    ensures
        table_ok(t, p.push(gn), rows, dats, stats),
{
    reveal(table_ok);
    let p2 = p.push(gn);
    assert forall|s2: u16| (exists|q: int| 0 <= q < t.len() && #[trigger] t[q].0 == s2) <==> (exists|j: int|
        0 <= j < p2.len() && #[trigger] skill_of(p2[j]) == s2) && kept_skill(rows, s2) by {
        if s2 != skill_of(gn) {
            lemma_push_other(p, gn, s2);
        }
    }
    assert forall|q: int| 0 <= q < t.len() implies {
        let s3 = (#[trigger] t[q]).0;
        let r = row_for(rows, s3)->0;
        &&& kept_skill(rows, s3)
        &&& 0 <= last_with(p2, s3) < p2.len()
        &&& node_built(t[q].1, rows[r], p2[last_with(p2, s3)], stats[r]@, row_ascendancy(rows[r], dats))
    } by {
        lemma_push_other(p, gn, t[q].0);
    }
}

/// The table with the entry of a kept skill set to the node built from `gn`.
#[verifier::rlimit(60)]
proof fn lemma_table_set(
    t0: Seq<(u16, Node)>,
    t1: Seq<(u16, Node)>,
    p: Seq<crate::psg::Node>,
    gn: crate::psg::Node,
    rows: Seq<RowData>,
    dats: Seq<(String, Vec<RowData>)>,
    stats: Seq<Vec<String>>,
    node: Node,
)
    requires
        table_ok(t0, p, rows, dats, stats),
        kept_skill(rows, skill_of(gn)),
        node_built(node, rows[row_for(rows, skill_of(gn))->0], gn, stats[row_for(rows, skill_of(gn))->0]@, row_ascendancy(rows[row_for(rows, skill_of(gn))->0], dats)),
        (exists|q: int| 0 <= q < t0.len() && t0[q].0 == skill_of(gn) && t1 == t0.update(q, (skill_of(gn), node)))
            || ((forall|q: int| 0 <= q < t0.len() ==> #[trigger] t0[q].0 != skill_of(gn)) && t1 == t0.push((skill_of(gn), node))),
    ensures
        table_ok(t1, p.push(gn), rows, dats, stats),
{
    reveal(table_ok);
    let p2 = p.push(gn);
    let s = skill_of(gn);
    lemma_last_with_push(p, gn, s);
    assert(p2[p.len() as int] == gn);
    assert forall|a: int, b: int| 0 <= a < b < t1.len() implies (#[trigger] t1[a]).0 != (#[trigger] t1[b]).0 by {
        if b < t0.len() {
            assert(t0[a].0 != t0[b].0);
        } else {
            assert(t0[a].0 != s);
        }
    }
    assert forall|s2: u16| (exists|q: int| 0 <= q < t1.len() && #[trigger] t1[q].0 == s2) <==> (exists|j: int|
        0 <= j < p2.len() && #[trigger] skill_of(p2[j]) == s2) && kept_skill(rows, s2) by {
        if s2 == s {
            assert(skill_of(p2[p.len() as int]) == s2);
            if t1.len() > t0.len() {
                assert(t1[t0.len() as int].0 == s2);
            } else {
                let q = choose|q: int| 0 <= q < t0.len() && t0[q].0 == skill_of(gn) && t1 == t0.update(q, (skill_of(gn), node));
                assert(t1[q].0 == s2);
            }
        } else {
            lemma_push_other(p, gn, s2);
            if exists|q: int| 0 <= q < t1.len() && #[trigger] t1[q].0 == s2 {
                let q = choose|q: int| 0 <= q < t1.len() && #[trigger] t1[q].0 == s2;
                assert(t0[q].0 == s2);
            }
            if exists|q: int| 0 <= q < t0.len() && #[trigger] t0[q].0 == s2 {
                let q = choose|q: int| 0 <= q < t0.len() && #[trigger] t0[q].0 == s2;
                assert(t1[q].0 == s2);
            }
        }
    }
    assert forall|q: int| 0 <= q < t1.len() implies {
        let s3 = (#[trigger] t1[q]).0;
        let r = row_for(rows, s3)->0;
        &&& kept_skill(rows, s3)
        &&& 0 <= last_with(p2, s3) < p2.len()
        &&& node_built(t1[q].1, rows[r], p2[last_with(p2, s3)], stats[r]@, row_ascendancy(rows[r], dats))
    } by {
        if t1[q].0 != s {
            assert(t1[q] == t0[q]);
            lemma_push_other(p, gn, t1[q].0);
        }
    }
}

/// Adds to the table what one graph node gives.
fn add_graph_node(
    t: &mut Vec<(u16, Node)>,
    gn: &crate::psg::Node,
    rows: &Vec<RowData>,
    dats: &Vec<(String, Vec<RowData>)>,
    row_stats: &Vec<Vec<String>>,
    Ghost(p): Ghost<Seq<crate::psg::Node>>,
)
    requires
        table_ok(old(t)@, p, rows@, dats@, row_stats@),
        rows_have_graph_ids(rows@),
        row_stats@.len() == rows@.len(),
        node_usable(*gn, rows@, dats@),
    ensures
        table_ok(final(t)@, p.push(*gn), rows@, dats@, row_stats@),
{
    let s = gn.passive_skill as u16;
    let ri = match find_node_row(rows, s) {
        Some(ri) => ri,
        None => {
            proof {
                lemma_table_skip(t@, p, *gn, rows@, dats@, row_stats@);
            }
            return;
        },
    };
    if !keeps_row(&rows[ri]) {
        proof {
            lemma_table_skip(t@, p, *gn, rows@, dats@, row_stats@);
        }
        return;
    }
    let stats = copy_strings(&row_stats[ri]);
    let ascendancy = node_ascendancy(&rows[ri], dats);
    let node = node_from_row(&rows[ri], gn, stats, ascendancy);
    let ghost t0 = t@;
    let ghost nd = node;
    match table_find(t, s) {
        Some(q) => {
            t.set(q, (s, node));
        },
        None => {
            t.push((s, node));
        },
    }
    proof {
        lemma_table_set(t0, t@, p, *gn, rows@, dats@, row_stats@, nd);
    }
}

/// Adds to the table what the nodes of one group give.
fn add_group_nodes(
    t: &mut Vec<(u16, Node)>,
    group: &crate::psg::Group,
    rows: &Vec<RowData>,
    dats: &Vec<(String, Vec<RowData>)>,
    row_stats: &Vec<Vec<String>>,
    Ghost(before): Ghost<Seq<crate::psg::Node>>,
)
    requires
        table_ok(old(t)@, before, rows@, dats@, row_stats@),
        rows_have_graph_ids(rows@),
        row_stats@.len() == rows@.len(),
        forall|k: int| 0 <= k < group.nodes@.len() ==> node_usable(#[trigger] group.nodes@[k], rows@, dats@),
    ensures
        table_ok(final(t)@, before + group.nodes@, rows@, dats@, row_stats@),
{
    assert(before + group.nodes@.take(0) == before);
    let mut k: usize = 0;
    while k < group.nodes.len()
        invariant
            k <= group.nodes@.len(),
            rows_have_graph_ids(rows@),
            row_stats@.len() == rows@.len(),
            forall|k2: int| 0 <= k2 < group.nodes@.len() ==> node_usable(#[trigger] group.nodes@[k2], rows@, dats@),
            table_ok(t@, before + group.nodes@.take(k as int), rows@, dats@, row_stats@),
        decreases group.nodes@.len() - k,
    {
        add_graph_node(t, &group.nodes[k], rows, dats, row_stats, Ghost(before + group.nodes@.take(k as int)));
        assert((before + group.nodes@.take(k as int)).push(group.nodes@[k as int]) == before + group.nodes@.take(k + 1));
        k = k + 1;
    }
    assert(group.nodes@.take(group.nodes@.len() as int) == group.nodes@);
}

/// The node table of the tree from the skill graph and the rows of the passive skill table:
/// `dats` holds the tables read, by name, and `row_stats` the stat lines of each row.
pub fn extract_nodes(
    graph: &Graph,
    rows: &Vec<RowData>,
    dats: &Vec<(String, Vec<RowData>)>,
    row_stats: &Vec<Vec<String>>,
) -> (r: Vec<(u16, Node)>)
    requires
        rows_have_graph_ids(rows@),
        row_stats@.len() == rows@.len(),
        forall|i: int, k: int|
            0 <= i < graph.groups@.len() && 0 <= k < graph.groups@[i].nodes@.len() ==> node_usable(
                #[trigger] graph.groups@[i].nodes@[k],
                rows@,
                dats@,
            ),
    ensures
        table_ok(r@, graph_nodes(graph.groups@), rows@, dats@, row_stats@),
{
    let mut t: Vec<(u16, Node)> = Vec::new();
    let mut gi: usize = 0;
    assert(table_ok(t@, graph_nodes(graph.groups@.take(0)), rows@, dats@, row_stats@)) by {
        reveal(table_ok);
        assert(graph_nodes(graph.groups@.take(0)) =~= Seq::<crate::psg::Node>::empty());
    }
    while gi < graph.groups.len()
        invariant
            gi <= graph.groups@.len(),
            rows_have_graph_ids(rows@),
            row_stats@.len() == rows@.len(),
            forall|i: int, k: int|
                0 <= i < graph.groups@.len() && 0 <= k < graph.groups@[i].nodes@.len() ==> node_usable(
                    #[trigger] graph.groups@[i].nodes@[k],
                    rows@,
                    dats@,
                ),
            table_ok(t@, graph_nodes(graph.groups@.take(gi as int)), rows@, dats@, row_stats@),
        decreases graph.groups@.len() - gi,
    {
        let group = &graph.groups[gi];
        proof {
            assert forall|k: int| 0 <= k < group.nodes@.len() implies node_usable(#[trigger] group.nodes@[k], rows@, dats@) by {
                assert(node_usable(graph.groups@[gi as int].nodes@[k], rows@, dats@));
            }
        }
        add_group_nodes(&mut t, group, rows, dats, row_stats, Ghost(graph_nodes(graph.groups@.take(gi as int))));
        proof {
            assert(graph.groups@.take(gi + 1).drop_last() == graph.groups@.take(gi as int));
            assert(graph.groups@.take(gi + 1).last() == graph.groups@[gi as int]);
        }
        gi = gi + 1;
    }
    assert(graph.groups@.take(graph.groups@.len() as int) == graph.groups@);
    t
}

/// The class a root of the graph starts, for the node `s`: the position of the last root
/// that is `s`.
pub open spec fn class_start_of(roots: Seq<(u32, u32)>, s: u16) -> Option<i32>
    decreases roots.len(),
{
    if roots.len() == 0 {
        None
    } else if roots.last().0 as u16 == s {
        Some((roots.len() - 1) as i32)
    } else {
        class_start_of(roots.drop_last(), s)
    }
}

/// The node with its class start set where a root of the graph is it.
pub open spec fn with_class_start(n: Node, roots: Seq<(u32, u32)>, s: u16) -> Node {
    Node {
        class_start_index: match class_start_of(roots, s) {
            Some(i) => Some(i),
            None => n.class_start_index,
        },
        ..n
    }
}

/// No id occurs twice in the table.
pub open spec fn ids_unique(t: Seq<(u16, Node)>) -> bool {
    forall|a: int, b: int| 0 <= a < b < t.len() ==> (#[trigger] t[a]).0 != (#[trigger] t[b]).0
}

/// The table has an entry for `s`.
pub open spec fn table_has(t: Seq<(u16, Node)>, s: u16) -> bool {
    exists|q: int| 0 <= q < t.len() && #[trigger] t[q].0 == s
}

/// Marks the class starts: each root of the graph, by its position, in its node.
pub fn set_class_starts(t: &mut Vec<(u16, Node)>, roots: &Vec<(u32, u32)>)
    requires
        roots@.len() <= i32::MAX,
        ids_unique(old(t)@),
        forall|i: int| 0 <= i < roots@.len() ==> table_has(old(t)@, (#[trigger] roots@[i]).0 as u16),
    ensures
        final(t)@.len() == old(t)@.len(),
        forall|q: int|
            0 <= q < final(t)@.len() ==> (#[trigger] final(t)@[q]).0 == old(t)@[q].0 && final(t)@[q].1 == with_class_start(
                old(t)@[q].1,
                roots@,
                old(t)@[q].0,
            ),
{
    let mut i: usize = 0;
    proof {
        assert(roots@.take(0) =~= Seq::<(u32, u32)>::empty());
        assert forall|q: int| 0 <= q < t@.len() implies with_class_start(t@[q].1, roots@.take(0), t@[q].0) == t@[q].1 by {
            assert(class_start_of(roots@.take(0), t@[q].0) is None);
        }
    }
    while i < roots.len()
        invariant
            i <= roots@.len(),
            roots@.len() <= i32::MAX,
            t@.len() == old(t)@.len(),
            ids_unique(old(t)@),
            forall|j: int| 0 <= j < roots@.len() ==> table_has(old(t)@, (#[trigger] roots@[j]).0 as u16),
            forall|q: int|
                0 <= q < t@.len() ==> (#[trigger] t@[q]).0 == old(t)@[q].0 && t@[q].1 == with_class_start(
                    old(t)@[q].1,
                    roots@.take(i as int),
                    old(t)@[q].0,
                ),
        decreases roots@.len() - i,
    {
        let id = roots[i].0 as u16;
        let ghost t0 = t@;
        proof {
            assert(roots@.take(i + 1).drop_last() == roots@.take(i as int));
            assert(roots@.take(i + 1).last() == roots@[i as int]);
        }
        match table_find(t, id) {
            Some(q) => {
                let (sk, mut node) = t.remove(q);
                let ghost n0 = node;
                node.class_start_index = Some(i as i32);
                let ghost n1 = node;
                t.insert(q, (sk, node));
                proof {
                    assert(t@ =~= t0.update(q as int, (sk, n1)));
                    assert(t0[q as int] == (sk, n0));
                    assert(n1 == (Node { class_start_index: Some(i as i32), ..n0 }));
                    assert forall|q2: int| 0 <= q2 < t@.len() implies (#[trigger] t@[q2]).0 == old(t)@[q2].0 && t@[q2].1 == with_class_start(
                        old(t)@[q2].1,
                        roots@.take(i + 1),
                        old(t)@[q2].0,
                    ) by {
                        if q2 != q {
                            assert(t@[q2] == t0[q2]);
                            assert(old(t)@[q2].0 != old(t)@[q as int].0);
                            assert(class_start_of(roots@.take(i + 1), old(t)@[q2].0) == class_start_of(roots@.take(i as int), old(t)@[q2].0));
                        } else {
                            assert(class_start_of(roots@.take(i + 1), sk) == Some(i as i32));
                        }
                    }
                }
            },
            None => {
                proof {
                    assert(table_has(old(t)@, (roots@[i as int]).0 as u16));
                    let w = choose|q: int| 0 <= q < old(t)@.len() && #[trigger] old(t)@[q].0 == id;
                    assert(t@[w].0 == id);
                }
            },
        }
        i = i + 1;
    }
    assert(roots@.take(roots@.len() as int) == roots@);
}

/// The jewel sockets of the table, in order.
pub open spec fn socket_ids(t: Seq<(u16, Node)>) -> Seq<u16>
    decreases t.len(),
{
    if t.len() == 0 {
        Seq::empty()
    } else if t.last().1.is_jewel_socket {
        socket_ids(t.drop_last()).push(t.last().0)
    } else {
        socket_ids(t.drop_last())
    }
}

/// The jewel sockets of the node table.
pub fn jewel_slots(t: &Vec<(u16, Node)>) -> (r: Vec<u16>)
    ensures
        r@ == socket_ids(t@),
{
    let mut r: Vec<u16> = Vec::new();
    let mut i: usize = 0;
    while i < t.len()
        invariant
            i <= t@.len(),
            r@ == socket_ids(t@.take(i as int)),
        decreases t@.len() - i,
    {
        proof {
            assert(t@.take(i + 1).drop_last() == t@.take(i as int));
            assert(t@.take(i + 1).last() == t@[i as int]);
        }
        if t[i].1.is_jewel_socket {
            r.push(t[i].0);
        }
        i = i + 1;
    }
    assert(t@.take(t@.len() as int) == t@);
    r
}

/// The nodes of the table whose outgoing links reach `s`, in order.
pub open spec fn in_ids(t: Seq<(u16, Node)>, s: u16) -> Seq<u16>
    decreases t.len(),
{
    if t.len() == 0 {
        Seq::empty()
    } else if t.last().1.out matches Some(o) && o@.contains(s) {
        in_ids(t.drop_last(), s).push(t.last().0)
    } else {
        in_ids(t.drop_last(), s)
    }
}

/// `new` is `old` with its incoming links set to those of the table, where it has any.
pub open spec fn in_filled(new: Node, old: Node, t: Seq<(u16, Node)>, s: u16) -> bool {
    if in_ids(t, s).len() > 0 {
        new == (Node { in_: new.in_, ..old }) && (new.in_ matches Some(v) && v@ == in_ids(t, s))
    } else {
        new == old
    }
}

/// Whether one of the links is `s`.
fn links_to(out: &Vec<u16>, s: u16) -> (r: bool)
    ensures
        r == out@.contains(s),
{
    let mut i: usize = 0;
    while i < out.len()
        invariant
            i <= out@.len(),
            forall|j: int| 0 <= j < i ==> out@[j] != s,
        decreases out@.len() - i,
    {
        if out[i] == s {
            assert(out@[i as int] == s);
            return true;
        }
        i = i + 1;
    }
    false
}

/// The nodes of the table that link to `s`.
fn incoming(t: &Vec<(u16, Node)>, s: u16) -> (r: Vec<u16>)
    ensures
        r@ == in_ids(t@, s),
{
    let mut r: Vec<u16> = Vec::new();
    let mut i: usize = 0;
    while i < t.len()
        invariant
            i <= t@.len(),
            r@ == in_ids(t@.take(i as int), s),
        decreases t@.len() - i,
    {
        proof {
            assert(t@.take(i + 1).drop_last() == t@.take(i as int));
            assert(t@.take(i + 1).last() == t@[i as int]);
        }
        if let Some(out) = &t[i].1.out {
            if links_to(out, s) {
                r.push(t[i].0);
            }
        }
        i = i + 1;
    }
    assert(t@.take(t@.len() as int) == t@);
    r
}

/// Sets the incoming links of every node of the table: the nodes whose outgoing links
/// reach it, in the table's order; a node nothing links to keeps none.
pub fn fill_in_links(t: Vec<(u16, Node)>) -> (r: Vec<(u16, Node)>)
    ensures
        r@.len() == t@.len(),
        forall|q: int| 0 <= q < r@.len() ==> (#[trigger] r@[q]).0 == t@[q].0 && in_filled(r@[q].1, t@[q].1, t@, t@[q].0),
{
    let n = t.len();
    let mut ins: Vec<Vec<u16>> = Vec::new();
    let mut p: usize = 0;
    while p < n
        invariant
            n == t@.len(),
            p <= n,
            ins@.len() == p,
            forall|q: int| 0 <= q < p ==> (#[trigger] ins@[q])@ == in_ids(t@, t@[q].0),
        decreases n - p,
    {
        ins.push(incoming(&t, t[p].0));
        p = p + 1;
    }
    let ghost orig = t@;
    let mut rest = t;
    // Taken from the back, each node gets its links; then the order is put back
    let mut rev: Vec<(u16, Node)> = Vec::new();
    while rest.len() > 0
        invariant
            n == orig.len(),
            rest@ == orig.take(rest@.len() as int),
            ins@.len() == rest@.len(),
            forall|q: int| 0 <= q < ins@.len() ==> (#[trigger] ins@[q])@ == in_ids(orig, orig[q].0),
            rev@.len() == n - rest@.len(),
            forall|k: int|
                0 <= k < rev@.len() ==> (#[trigger] rev@[k]).0 == orig[n - 1 - k].0 && in_filled(
                    rev@[k].1,
                    orig[n - 1 - k].1,
                    orig,
                    orig[n - 1 - k].0,
                ),
        decreases rest@.len(),
    {
        let ghost m = rest@.len();
        let (id, mut node) = rest.pop().unwrap();
        let links = ins.pop().unwrap();
        proof {
            assert(orig.take(m as int)[m - 1] == orig[m - 1]);
            assert(rest@ =~= orig.take(rest@.len() as int));
        }
        if links.len() > 0 {
            node.in_ = Some(links);
        }
        rev.push((id, node));
    }
    let mut r: Vec<(u16, Node)> = Vec::new();
    while rev.len() > 0
        invariant
            n == orig.len(),
            rev@.len() + r@.len() == n,
            forall|k: int|
                0 <= k < rev@.len() ==> (#[trigger] rev@[k]).0 == orig[n - 1 - k].0 && in_filled(
                    rev@[k].1,
                    orig[n - 1 - k].1,
                    orig,
                    orig[n - 1 - k].0,
                ),
            forall|q: int|
                0 <= q < r@.len() ==> (#[trigger] r@[q]).0 == orig[q].0 && in_filled(r@[q].1, orig[q].1, orig, orig[q].0),
        decreases rev@.len(),
    {
        let e = rev.pop().unwrap();
        r.push(e);
    }
    r
}

} // verus!
