use vstd::prelude::*;
use crate::base_item::BaseItem;
use crate::cluster::ClusterData;
use crate::item_calc::{local_nums, mods_fit};
use crate::item_text::RawItem;
use crate::modifier::Mod;
use crate::stat::{calc_stat, default_nums, for_stat, fold_ok, spec_val, val100_ok};
use crate::stat_id::StatId;
use crate::text::{chars_of, has_prefix, has_suffix, lowercase, str_eq, strip_prefix, ends_with, to_lowercase};
use crate::tree_data::Node;

verus! {

/// The text of `s` before its first line break.
pub open spec fn before_newline(s: Seq<char>) -> Seq<char> {
    if exists|i: int| 0 <= i < s.len() && s[i] == '\n' {
        s.take(choose|i: int| 0 <= i < s.len() && s[i] == '\n' && forall|j: int| 0 <= j < i ==> #[trigger] s[j] != '\n')
    } else {
        s
    }
}

fn text_before_newline(s: &str) -> (r: &str)
    ensures
        r@ == before_newline(s@),
{
    let cs = chars_of(s);
    let mut i: usize = 0;
    while i < cs.len()
        invariant
            i <= cs@.len(),
            cs@ == s@,
            forall|j: int| 0 <= j < i ==> #[trigger] cs@[j] != '\n',
        decreases cs@.len() - i,
    {
        if cs[i] == '\n' {
            proof {
                let k = choose|k: int| 0 <= k < s@.len() && s@[k] == '\n' && forall|j: int| 0 <= j < k ==> #[trigger] s@[j] != '\n';
                if k < i {
                    assert(cs@[k] != '\n');
                } else if k > i {
                    assert(s@[i as int] != '\n');
                }
            }
            let r = s.substring_char(0, i);
            assert(r@ =~= s@.take(i as int));
            return r;
        }
        i = i + 1;
    }
    proof {
        if exists|k: int| 0 <= k < s@.len() && s@[k] == '\n' {
            let k = choose|k: int| 0 <= k < s@.len() && s@[k] == '\n';
            assert(cs@[k] != '\n');
        }
    }
    s
}

/// What a lower-cased modifier line says added small passives grant, when it says so.
pub open spec fn grant_text(lower: Seq<char>) -> Option<Seq<char>> {
    let p = "added small passive skills grant: "@;
    if has_prefix(lower, p) {
        Some(before_newline(lower.skip(p.len() as int)))
    } else {
        None
    }
}

/// The node grants `g`: a node outside any group whose first stat line, lower-cased, is `g`.
pub open spec fn grants(n: Node, g: Seq<char>) -> bool {
    n.group is None && n.stats@.len() > 0 && lowercase(n.stats@[0]@) == g
}

/// The first node of the table that grants `g`.
pub open spec fn first_granting(nodes: Seq<Node>, g: Seq<char>) -> Option<int> {
    if exists|i: int| 0 <= i < nodes.len() && #[trigger] grants(nodes[i], g) {
        Some(choose|i: int| 0 <= i < nodes.len() && grants(nodes[i], g) && forall|j: int| 0 <= j < i ==> !#[trigger] grants(nodes[j], g))
    } else {
        None
    }
}

/// The node a modifier line makes added small passives grant.
pub open spec fn node_for_line(line: Seq<char>, nodes: Seq<Node>) -> Option<u32> {
    match grant_text(lowercase(line)) {
        Some(g) => match first_granting(nodes, g) {
            Some(i) => Some(nodes[i].skill),
            None => None,
        },
        None => None,
    }
}

/// The lines of an item's modifiers: enchantments, implicits, explicits.
pub open spec fn item_lines(item: RawItem) -> Seq<String> {
    item.mods_enchant@ + item.mods_impl@ + item.mods_expl@
}

/// The node the first line that names one makes added small passives grant.
pub open spec fn spec_small_passive_grant(lines: Seq<String>, nodes: Seq<Node>) -> Option<u32> {
    if exists|i: int| 0 <= i < lines.len() && (#[trigger] node_for_line(lines[i]@, nodes)) is Some {
        node_for_line(
            lines[choose|i: int|
                0 <= i < lines.len() && node_for_line(lines[i]@, nodes) is Some && forall|j: int|
                    0 <= j < i ==> (#[trigger] node_for_line(lines[j]@, nodes)) is None]@,
            nodes,
        )
    } else {
        None
    }
}

fn line_node(line: &str, nodes: &Vec<Node>) -> (r: Option<u32>)
    ensures
        r == node_for_line(line@, nodes@),
{
    let lower = to_lowercase(line);
    let rest = match strip_prefix(lower.as_str(), "added small passive skills grant: ") {
        Some(rest) => rest,
        None => {
            proof {
                reveal_strlit("added small passive skills grant: ");
            }
            return None;
        },
    };
    proof {
        reveal_strlit("added small passive skills grant: ");
    }
    let g = text_before_newline(rest);
    assert(grant_text(lowercase(line@)) == Some(g@));
    let mut i: usize = 0;
    while i < nodes.len()
        invariant
            i <= nodes@.len(),
            grant_text(lowercase(line@)) == Some(g@),
            forall|j: int| 0 <= j < i ==> !#[trigger] grants(nodes@[j], g@),
        decreases nodes@.len() - i,
    {
        let n = &nodes[i];
        if n.group.is_none() && n.stats.len() > 0 {
            let l = to_lowercase(n.stats[0].as_str());
            if str_eq(l.as_str(), g) {
                proof {
                    assert(grants(nodes@[i as int], g@));
                    let k = choose|k: int| 0 <= k < nodes@.len() && grants(nodes@[k], g@) && forall|j: int| 0 <= j < k ==> !#[trigger] grants(nodes@[j], g@);
                    if k < i {
                        assert(!grants(nodes@[k], g@));
                    } else if k > i {
                        assert(!grants(nodes@[i as int], g@));
                    }
                }
                return Some(n.skill);
            }
        }
        i = i + 1;
    }
    None
}

/// The node the item's added small passives grant: the first of its modifier lines
/// (enchantments, implicits, explicits) that says "Added Small Passive Skills grant: ",
/// in any case, followed by the first stat line of a node outside any group, names it.
pub fn small_passive_grant(item: &RawItem, nodes: &Vec<Node>) -> (r: Option<u32>)
    ensures
        r == spec_small_passive_grant(item_lines(*item), nodes@),
{
    let ghost lines = item_lines(*item);
    let mut k: usize = 0;
    while k < 3
        invariant
            k <= 3,
            lines == item_lines(*item),
            forall|j: int| 0 <= j < part_start(*item, k as int) ==> (#[trigger] node_for_line(lines[j]@, nodes@)) is None,
        decreases 3 - k,
    {
        let part = if k == 0 {
            &item.mods_enchant
        } else if k == 1 {
            &item.mods_impl
        } else {
            &item.mods_expl
        };
        let ghost off = part_start(*item, k as int);
        proof {
            lemma_part(*item, k as int);
        }
        let mut i: usize = 0;
        while i < part.len()
            invariant
                i <= part@.len(),
                lines == item_lines(*item),
                part_start(*item, k as int + 1) == off + part@.len(),
                off + part@.len() <= lines.len(),
                0 <= off,
                forall|j: int| 0 <= j < part@.len() ==> lines[off + j] == #[trigger] part@[j],
                forall|j: int| 0 <= j < off + i ==> (#[trigger] node_for_line(lines[j]@, nodes@)) is None,
            decreases part@.len() - i,
        {
            let found = line_node(part[i].as_str(), nodes);
            proof {
                assert(lines[off + i] == part@[i as int]);
            }
            if let Some(id) = found {
                proof {
                    lemma_first_line(lines, nodes@, off + i);
                }
                return Some(id);
            }
            i = i + 1;
        }
        k = k + 1;
    }
    assert(part_start(*item, 3) == lines.len());
    None
}

/// Where the lines of part `k` (enchantments, implicits, explicits, then the end) begin.
pub open spec fn part_start(item: RawItem, k: int) -> int {
    if k <= 0 {
        0
    } else if k == 1 {
        item.mods_enchant@.len() as int
    } else if k == 2 {
        (item.mods_enchant@.len() + item.mods_impl@.len()) as int
    } else {
        (item.mods_enchant@.len() + item.mods_impl@.len() + item.mods_expl@.len()) as int
    }
}

proof fn lemma_part(item: RawItem, k: int)
    requires
        0 <= k < 3,
    ensures
        ({
            let part = if k == 0 { item.mods_enchant@ } else if k == 1 { item.mods_impl@ } else { item.mods_expl@ };
            &&& part_start(item, k + 1) == part_start(item, k) + part.len()
            &&& part_start(item, k + 1) <= item_lines(item).len()
            &&& forall|j: int| 0 <= j < part.len() ==> item_lines(item)[part_start(item, k) + j] == #[trigger] part[j]
        }),
{
}

/// The first line that names a node decides.
proof fn lemma_first_line(lines: Seq<String>, nodes: Seq<Node>, p: int)
    requires
        0 <= p < lines.len(),
        node_for_line(lines[p]@, nodes) is Some,
        forall|j: int| 0 <= j < p ==> (#[trigger] node_for_line(lines[j]@, nodes)) is None,
    ensures
        spec_small_passive_grant(lines, nodes) == node_for_line(lines[p]@, nodes),
{
    let c = choose|c: int|
        0 <= c < lines.len() && node_for_line(lines[c]@, nodes) is Some && forall|j: int|
            0 <= j < c ==> (#[trigger] node_for_line(lines[j]@, nodes)) is None;
    if c < p {
        assert(node_for_line(lines[c]@, nodes) is None);
    } else if c > p {
        assert(node_for_line(lines[p]@, nodes) is None);
    }
}

/// The notable a line of the form "1 Added Passive Skill is <name>" names: the first node
/// of the table with that name.
pub open spec fn named_notable(line: Seq<char>, nodes: Seq<Node>) -> Option<int> {
    let p = "1 Added Passive Skill is "@;
    if has_prefix(line, p) && exists|i: int| 0 <= i < nodes.len() && #[trigger] nodes[i].name@ == line.skip(p.len() as int) {
        Some(choose|i: int|
            0 <= i < nodes.len() && nodes[i].name@ == line.skip(p.len() as int) && forall|j: int|
                0 <= j < i ==> #[trigger] nodes[j].name@ != line.skip(p.len() as int))
    } else {
        None
    }
}

/// The notables the lines name, in order.
pub open spec fn notables_of(lines: Seq<String>, nodes: Seq<Node>) -> Seq<Node>
    decreases lines.len(),
{
    if lines.len() == 0 {
        seq![]
    } else {
        let prev = notables_of(lines.drop_last(), nodes);
        match named_notable(lines.last()@, nodes) {
            Some(i) => prev.push(nodes[i]),
            None => prev,
        }
    }
}

/// The stats the lines say added small passives also grant, in order.
pub open spec fn added_stats_of(lines: Seq<String>) -> Seq<Seq<char>>
    decreases lines.len(),
{
    let p = "Added Small Passive Skills also grant: "@;
    if lines.len() == 0 {
        seq![]
    } else if has_prefix(lines.last()@, p) {
        added_stats_of(lines.drop_last()).push(lines.last()@.skip(p.len() as int))
    } else {
        added_stats_of(lines.drop_last())
    }
}

fn notable_named(line: &str, nodes: &Vec<Node>) -> (r: Option<usize>)
    ensures
        match r {
            Some(i) => i < nodes@.len() && named_notable(line@, nodes@) == Some(i as int),
            None => named_notable(line@, nodes@) is None,
        },
{
    proof {
        reveal_strlit("1 Added Passive Skill is ");
    }
    let name = match strip_prefix(line, "1 Added Passive Skill is ") {
        Some(n) => n,
        None => {
            return None;
        },
    };
    let mut i: usize = 0;
    while i < nodes.len()
        invariant
            i <= nodes@.len(),
            has_prefix(line@, "1 Added Passive Skill is "@),
            name@ == line@.skip("1 Added Passive Skill is "@.len() as int),
            forall|j: int| 0 <= j < i ==> #[trigger] nodes@[j].name@ != name@,
        decreases nodes@.len() - i,
    {
        if str_eq(nodes[i].name.as_str(), name) {
            proof {
                let k = choose|k: int|
                    0 <= k < nodes@.len() && nodes@[k].name@ == name@ && forall|j: int| 0 <= j < k ==> #[trigger] nodes@[j].name@ != name@;
                if k < i {
                    assert(nodes@[k].name@ != name@);
                } else if k > i {
                    assert(nodes@[i as int].name@ != name@);
                }
            }
            return Some(i);
        }
        i = i + 1;
    }
    None
}

/// A cluster jewel's numbers, from its modifiers, as whole values taken as `u32`.
pub open spec fn cluster_count(nonlocal: Seq<Mod>, id: StatId) -> u32 {
    spec_val(local_nums(nonlocal, id)) as u32
}

/// Reading the cluster jewel's numbers stays within `i64`.
pub open spec fn cluster_ok(nonlocal: Seq<Mod>) -> bool {
    &&& mods_fit(nonlocal)
    &&& val100_ok(local_nums(nonlocal, StatId::AllocatesPassiveSkills))
    &&& val100_ok(local_nums(nonlocal, StatId::AddedPassiveSkillsGrantNode))
    &&& val100_ok(local_nums(nonlocal, StatId::AddedPassivesAreJewelSockets))
}

/// The node the small passives of a cluster jewel grant: named by a modifier line, else
/// given by its modifiers.
pub open spec fn cluster_node(item: RawItem, nonlocal: Seq<Mod>, nodes: Seq<Node>) -> u32 {
    match spec_small_passive_grant(item_lines(item), nodes) {
        Some(id) => id,
        None => cluster_count(nonlocal, StatId::AddedPassiveSkillsGrantNode),
    }
}

/// The notables and the added stats the explicit lines name.
fn expl_parts(expl: &Vec<String>, nodes: &Vec<Node>) -> (r: (Vec<Node>, Vec<String>))
    ensures
        r.0@.len() == notables_of(expl@, nodes@).len(),
        forall|i: int| 0 <= i < r.0@.len() ==> (#[trigger] r.0@[i]).same_as(notables_of(expl@, nodes@)[i]),
        r.1@.len() == added_stats_of(expl@).len(),
        forall|i: int| 0 <= i < r.1@.len() ==> (#[trigger] r.1@[i])@ == added_stats_of(expl@)[i],
{
    let mut notables: Vec<Node> = Vec::new();
    let mut added: Vec<String> = Vec::new();
    let mut i: usize = 0;
    while i < expl.len()
        invariant
            i <= expl@.len(),
            notables@.len() == notables_of(expl@.take(i as int), nodes@).len(),
            forall|j: int| 0 <= j < notables@.len() ==> (#[trigger] notables@[j]).same_as(notables_of(expl@.take(i as int), nodes@)[j]),
            added@.len() == added_stats_of(expl@.take(i as int)).len(),
            forall|j: int| 0 <= j < added@.len() ==> (#[trigger] added@[j])@ == added_stats_of(expl@.take(i as int))[j],
        decreases expl@.len() - i,
    {
        proof {
            assert(expl@.take(i + 1).drop_last() == expl@.take(i as int));
            assert(expl@.take(i + 1).last() == expl@[i as int]);
            reveal_strlit("Added Small Passive Skills also grant: ");
        }
        let line = expl[i].as_str();
        if let Some(k) = notable_named(line, nodes) {
            notables.push(nodes[k].clone());
        }
        if let Some(rest) = strip_prefix(line, "Added Small Passive Skills also grant: ") {
            added.push(rest.to_string());
        }
        i = i + 1;
    }
    assert(expl@.take(expl@.len() as int) == expl@);
    (notables, added)
}

/// Reads a cluster jewel: an item whose base is a "Cluster Jewel" and that adds small
/// passives granting a node. `nonlocal` holds its modifiers that apply outside it, and
/// `nodes` the game's node table, where names and stat lines are looked up in order.
pub fn get_cluster(item: &RawItem, base: &BaseItem, nonlocal: &Vec<Mod>, nodes: &Vec<Node>) -> (r: Option<ClusterData>)
    requires
        cluster_ok(nonlocal@),
    ensures
        r is Some <==> (has_suffix(base.name@, "Cluster Jewel"@) && cluster_count(nonlocal@, StatId::AllocatesPassiveSkills) != 0
            && cluster_node(*item, nonlocal@, nodes@) != 0),
        r matches Some(c) ==> {
            &&& c.small_passives_amount == cluster_count(nonlocal@, StatId::AllocatesPassiveSkills)
            &&& c.small_passives_node_id == cluster_node(*item, nonlocal@, nodes@)
            &&& c.added_sockets_amount == cluster_count(nonlocal@, StatId::AddedPassivesAreJewelSockets)
            &&& c.notables@.len() == notables_of(item.mods_expl@, nodes@).len()
            &&& forall|i: int| 0 <= i < c.notables@.len() ==> (#[trigger] c.notables@[i]).same_as(notables_of(item.mods_expl@, nodes@)[i])
            &&& c.added_stats@.len() == added_stats_of(item.mods_expl@).len()
            &&& forall|i: int| 0 <= i < c.added_stats@.len() ==> (#[trigger] c.added_stats@[i])@ == added_stats_of(item.mods_expl@)[i]
        },
{
    if !ends_with(base.name.as_str(), "Cluster Jewel") {
        return None;
    }
    assert(fold_ok(default_nums(), nonlocal@, for_stat(StatId::AllocatesPassiveSkills)));
    assert(fold_ok(default_nums(), nonlocal@, for_stat(StatId::AddedPassiveSkillsGrantNode)));
    assert(fold_ok(default_nums(), nonlocal@, for_stat(StatId::AddedPassivesAreJewelSockets)));
    let small = calc_stat(StatId::AllocatesPassiveSkills, nonlocal.as_slice()).val() as u32;
    if small == 0 {
        return None;
    }
    let node_id = match small_passive_grant(item, nodes) {
        Some(id) => id,
        None => calc_stat(StatId::AddedPassiveSkillsGrantNode, nonlocal.as_slice()).val() as u32,
    };
    if node_id == 0 {
        return None;
    }
    let sockets = calc_stat(StatId::AddedPassivesAreJewelSockets, nonlocal.as_slice()).val() as u32;
    let (notables, added) = expl_parts(&item.mods_expl, nodes);
    proof {
        reveal_strlit("Cluster Jewel");
    }
    Some(ClusterData { small_passives_amount: small, small_passives_node_id: node_id, added_sockets_amount: sockets, notables, added_stats: added })
}

} // verus!
