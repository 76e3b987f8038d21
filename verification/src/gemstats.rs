use vstd::prelude::*;
use crate::modifier::{Mod, ModEffect, ModStat, Source, Type};
use crate::stat::{duplicate_mods, same_mods};
use crate::text::{ends_with, has_suffix, strip_suffix};
use crate::tree_data::{find_named, first_named};
use crate::gem::{GemData, QualityStat};
use crate::gem_data::GemStat;
use crate::stat_id::StatId;
use crate::arith::tdiv;

verus! {

/// The modifiers gem stats give: for some gems, by gem name and stat name; for the others,
/// generic ones found, in order, by the end of the stat's name.
pub struct GemStatTables {
    pub per_gem: Vec<(String, Vec<(String, Vec<Mod>)>)>,
    pub generic: Vec<(String, Vec<Mod>)>,
}

/// `s` without the suffix `p` (which it ends with).
pub open spec fn cut(s: Seq<char>, p: Seq<char>) -> Seq<char> {
    s.take(s.len() - p.len())
}

/// A stat name without the first of the suffixes that only say where it comes from.
pub open spec fn without_source(s: Seq<char>) -> Seq<char> {
    if has_suffix(s, "_granted_from_skill"@) {
        cut(s, "_granted_from_skill"@)
    } else if has_suffix(s, "_from_volatility_support"@) {
        cut(s, "_from_volatility_support"@)
    } else if has_suffix(s, "_per_power_charge"@) {
        cut(s, "_per_power_charge"@)
    } else if has_suffix(s, "_from_melee_hits"@) {
        cut(s, "_from_melee_hits"@)
    } else {
        s
    }
}

/// The name a stat is looked up by, and the type its suffix gives the modifiers: "more"
/// for `_+%_final`, "increased" for `_+%`, "base" for `_%` and `_+`.
pub open spec fn typed_name(s: Seq<char>) -> (Seq<char>, Option<Type>) {
    if has_suffix(s, "_+%_final"@) {
        (cut(s, "_+%_final"@), Some(Type::More))
    } else if has_suffix(s, "_+%"@) {
        (cut(s, "_+%"@), Some(Type::Inc))
    } else if has_suffix(s, "_%"@) {
        (cut(s, "_%"@), Some(Type::Base))
    } else if has_suffix(s, "_+"@) {
        (cut(s, "_+"@), Some(Type::Base))
    } else {
        (s, None)
    }
}

/// The position of the first generic entry whose name ends `s`.
pub open spec fn first_suffix_entry(g: Seq<(String, Vec<Mod>)>, s: Seq<char>) -> Option<int> {
    if exists|i: int| 0 <= i < g.len() && has_suffix(s, (#[trigger] g[i]).0@) {
        Some(choose|i: int| 0 <= i < g.len() && has_suffix(s, (#[trigger] g[i]).0@)
            && forall|j: int| 0 <= j < i ==> !has_suffix(s, (#[trigger] g[j]).0@))
    } else {
        None
    }
}

impl GemStatTables {
    /// The modifiers of the tables for a stat looked up by `key` on the gem `gem`: those
    /// of the gem's own table when it lists the stat, else those of the first generic
    /// entry that ends the name, else none.
    pub open spec fn mods_for(&self, gem: Seq<char>, key: Seq<char>) -> Seq<Mod> {
        let own = match first_named(self.per_gem@, gem) {
            Some(i) => first_named(self.per_gem@[i].1@, key),
            None => None,
        };
        if own is Some {
            self.per_gem@[first_named(self.per_gem@, gem)->0].1@[own->0].1@
        } else {
            match first_suffix_entry(self.generic@, key) {
                Some(j) => self.generic@[j].1@,
                None => Seq::empty(),
            }
        }
    }
}

/// `m` with the type `t` for its stat, when it adds to a stat and `t` is given.
pub open spec fn typed(m: Mod, t: Option<Type>) -> Mod {
    match (t, m.effect) {
        (Some(t), ModEffect::Stat(s)) => Mod { effect: ModEffect::Stat(ModStat { typ: t, ..s }), ..m },
        _ => m,
    }
}

/// The first generic entry whose name ends `s`.
fn find_suffix_entry<'a>(g: &'a Vec<(String, Vec<Mod>)>, s: &str) -> (r: Option<&'a Vec<Mod>>)
    ensures
        match first_suffix_entry(g@, s@) {
            Some(j) => r == Some(&g@[j].1),
            None => r is None,
        },
{
    let mut i: usize = 0;
    while i < g.len()
        invariant
            i <= g@.len(),
            forall|j: int| 0 <= j < i ==> !has_suffix(s@, (#[trigger] g@[j]).0@),
        decreases g.len() - i,
    {
        if ends_with(s, g[i].0.as_str()) {
            proof {
                let c = choose|c: int| 0 <= c < g@.len() && has_suffix(s@, (#[trigger] g@[c]).0@)
                    && forall|j: int| 0 <= j < c ==> !has_suffix(s@, (#[trigger] g@[j]).0@);
                assert(has_suffix(s@, g@[i as int].0@));
                if c < i {
                    assert(!has_suffix(s@, g@[c].0@));
                } else if c > i {
                    assert(!has_suffix(s@, g@[i as int].0@));
                }
            }
            return Some(&g[i].1);
        }
        i += 1;
    }
    None
}

/// The stat name without the first source suffix it ends with.
fn strip_first<'a>(s: &'a str) -> (r: &'a str)
    ensures
        r@ == without_source(s@),
{
    match strip_suffix(s, "_granted_from_skill") {
        Some(rest) => return rest,
        None => {},
    }
    match strip_suffix(s, "_from_volatility_support") {
        Some(rest) => return rest,
        None => {},
    }
    match strip_suffix(s, "_per_power_charge") {
        Some(rest) => return rest,
        None => {},
    }
    match strip_suffix(s, "_from_melee_hits") {
        Some(rest) => return rest,
        None => {},
    }
    s
}

/// The lookup name of a stat and the type its suffix gives.
fn type_of_name<'a>(s: &'a str) -> (r: (&'a str, Option<Type>))
    ensures
        (r.0@, r.1) == typed_name(s@),
{
    match strip_suffix(s, "_+%_final") {
        Some(rest) => return (rest, Some(Type::More)),
        None => {},
    }
    match strip_suffix(s, "_+%") {
        Some(rest) => return (rest, Some(Type::Inc)),
        None => {},
    }
    match strip_suffix(s, "_%") {
        Some(rest) => return (rest, Some(Type::Base)),
        None => {},
    }
    match strip_suffix(s, "_+") {
        Some(rest) => return (rest, Some(Type::Base)),
        None => {},
    }
    (s, None)
}

/// The modifiers a stat of a gem gives: the stat is looked up without its source suffix
/// and its type suffix, first in the gem's own table, then among the generic entries by
/// the end of its name; the type suffix sets the type of the stat modifiers. `None` when
/// no entry gives any modifier.
pub fn match_gemstat(tables: &GemStatTables, gem_basename: &str, stat: &str) -> (r: Option<Vec<Mod>>)
    ensures
        ({
            let (key, t) = typed_name(without_source(stat@));
            let found = tables.mods_for(gem_basename@, key);
            match r {
                Some(v) => found.len() > 0 && v@.len() == found.len()
                    && forall|i: int| 0 <= i < found.len() ==> (#[trigger] v@[i]).same(typed(found[i], t)),
                None => found.len() == 0,
            }
        }),
{
    let stat = strip_first(stat);
    let (search_in, typ_override) = type_of_name(stat);
    let own = match find_named(&tables.per_gem, gem_basename) {
        Some(gemstats) => find_named(gemstats, search_in),
        None => None,
    };
    let mods = match own {
        Some(gem_mods) => duplicate_mods(gem_mods),
        None => match find_suffix_entry(&tables.generic, search_in) {
            Some(generic) => duplicate_mods(generic),
            None => Vec::new(),
        },
    };
    if mods.len() == 0 {
        return None;
    }
    let ghost found = mods@;
    let mut out: Vec<Mod> = Vec::new();
    let mut i: usize = 0;
    while i < mods.len()
        invariant
            i <= mods@.len(),
            out@.len() == i,
            forall|j: int| 0 <= j < i ==> (#[trigger] out@[j]).same(typed(mods@[j], typ_override)),
        decreases mods.len() - i,
    {
        let m = &mods[i];
        let copy = m.duplicate();
        let typed_mod = match (typ_override, &m.effect) {
            (Some(t), ModEffect::Stat(s)) => Mod {
                effect: ModEffect::Stat(ModStat {
                    stat: s.stat,
                    typ: t,
                    amount: s.amount,
                    revised_amount: s.revised_amount,
                    mutations: s.mutations.copied(),
                }),
                ..copy
            },
            _ => copy,
        };
        out.push(typed_mod);
        i += 1;
    }
    Some(out)
}

/// A modifier is an aura's, a buff's or a curse's.
pub open spec fn marks_aura(m: Mod) -> bool {
    m.flags & 0xE0u64 != 0u64
}

/// `m` from `src`, the amount of its stat set to `amount` when it is 0, and, with
/// `levels`, the levels it gives gems set to `amount`.
pub open spec fn with_amount(m: Mod, amount: i64, levels: bool, src: Source) -> Mod {
    match m.effect {
        ModEffect::Stat(s) => Mod {
            effect: ModEffect::Stat(if s.amount == 0 { ModStat { amount: amount, ..s } } else { s }),
            source: src,
            ..m
        },
        ModEffect::LevelOfGems(l) => Mod {
            effect: ModEffect::LevelOfGems(if levels { amount as u32 } else { l }),
            source: src,
            ..m
        },
        _ => Mod { source: src, ..m },
    }
}

/// The modifiers of `ms` whose aura mark is `aura`, in order, each given its amount and
/// source.
pub open spec fn kept_mods(ms: Seq<Mod>, aura: bool, amount: i64, levels: bool, src: Source) -> Seq<Mod>
    decreases ms.len(),
{
    if ms.len() == 0 {
        Seq::empty()
    } else {
        let prev = kept_mods(ms.drop_last(), aura, amount, levels, src);
        if marks_aura(ms.last()) == aura { prev.push(with_amount(ms.last(), amount, levels, src)) } else { prev }
    }
}

/// `b` is `a` followed by modifiers alike to those of `add`.
pub open spec fn extended(b: Seq<Mod>, a: Seq<Mod>, add: Seq<Mod>) -> bool {
    &&& b.len() == a.len() + add.len()
    &&& forall|i: int| 0 <= i < a.len() ==> #[trigger] b[i] == a[i]
    &&& forall|j: int| 0 <= j < add.len() ==> (#[trigger] b[a.len() + j]).same(add[j])
}

/// Alike modifiers keep alike modifiers.
proof fn lemma_kept_alike(a: Seq<Mod>, b: Seq<Mod>, aura: bool, amount: i64, levels: bool, src: Source)
    requires
        same_mods(a, b),
    ensures
        same_mods(kept_mods(a, aura, amount, levels, src), kept_mods(b, aura, amount, levels, src)),
    decreases a.len(),
{
    if a.len() > 0 {
        assert(same_mods(a.drop_last(), b.drop_last()));
        lemma_kept_alike(a.drop_last(), b.drop_last(), aura, amount, levels, src);
    }
}

/// Appends to `out` the modifiers of `v` whose aura mark is `aura`, each given its amount
/// and source.
fn push_kept(out: &mut Vec<Mod>, v: &Vec<Mod>, aura: bool, amount: i64, levels: bool, src: Source)
    ensures
        extended(final(out)@, old(out)@, kept_mods(v@, aura, amount, levels, src)),
{
    let ghost start = out@;
    let mut i: usize = 0;
    proof {
        assert(v@.take(0) =~= Seq::<Mod>::empty());
    }
    while i < v.len()
        invariant
            i <= v@.len(),
            extended(out@, start, kept_mods(v@.take(i as int), aura, amount, levels, src)),
        decreases v.len() - i,
    {
        let m = &v[i];
        let ghost before = out@;
        proof {
            assert(v@.take(i as int + 1).drop_last() =~= v@.take(i as int));
            assert(v@.take(i as int + 1).last() == v@[i as int]);
        }
        if ((m.flags & 0xE0u64) != 0u64) == aura {
            let c = m.duplicate();
            let e = match &m.effect {
                ModEffect::Stat(st) => {
                    if st.amount == 0 {
                        ModEffect::Stat(ModStat {
                            stat: st.stat,
                            typ: st.typ,
                            amount: amount,
                            revised_amount: st.revised_amount,
                            mutations: st.mutations.copied(),
                        })
                    } else {
                        ModEffect::Stat(st.duplicate())
                    }
                },
                ModEffect::LevelOfGems(l) => {
                    if levels {
                        ModEffect::LevelOfGems(amount as u32)
                    } else {
                        ModEffect::LevelOfGems(*l)
                    }
                },
                _ => c.effect.duplicate(),
            };
            out.push(Mod { effect: e, source: src, ..c });
            proof {
                let k = kept_mods(v@.take(i as int + 1), aura, amount, levels, src);
                assert(k == kept_mods(v@.take(i as int), aura, amount, levels, src).push(with_amount(v@[i as int], amount, levels, src)));
                assert forall|j: int| 0 <= j < k.len() implies (#[trigger] out@[start.len() + j]).same(k[j]) by {
                    if j < k.len() - 1 {
                        assert(out@[start.len() + j] == before[start.len() + j]);
                    }
                }
            }
        } else {
            proof {
                assert(kept_mods(v@.take(i as int + 1), aura, amount, levels, src) == kept_mods(v@.take(i as int), aura, amount, levels, src));
            }
        }
        i += 1;
    }
    proof {
        assert(v@.take(v@.len() as int) =~= v@);
    }
}

/// The modifiers the tables give a stat named `id` of the gem named `g`, typed by the
/// stat's suffix.
pub open spec fn stat_found(tables: GemStatTables, g: Seq<char>, id: Seq<char>) -> Seq<Mod> {
    let (key, t) = typed_name(without_source(id));
    tables.mods_for(g, key).map_values(|m: Mod| typed(m, t))
}

/// The modifiers the first `k` stats of a gem give at `level`: for each stat with an id,
/// those the tables give it, with the stat's value (0 when it has none) for their amount.
pub open spec fn static_mods(tables: GemStatTables, gem: GemData, stats: Seq<Option<GemStat>>, aura: bool, level: u32, src: Source, k: int) -> Seq<Mod>
    decreases k,
{
    if k <= 0 {
        Seq::empty()
    } else {
        static_mods(tables, gem, stats, aura, level, src, k - 1) + static_entry(tables, gem, stats[k - 1], aura, level, src)
    }
}

/// The modifiers one stat of a gem gives at `level`.
pub open spec fn static_entry(tables: GemStatTables, gem: GemData, stat: Option<GemStat>, aura: bool, level: u32, src: Source) -> Seq<Mod> {
    match stat {
        Some(gs) => match gs.id {
            Some(id) => kept_mods(stat_found(tables, gem.base_item.display_name@, id@), aura,
                match gem.spec_stat_value(id@, level) { Some(v) => v, None => 0 }, true, src),
            None => Seq::empty(),
        },
        None => Seq::empty(),
    }
}

/// The modifiers the first `k` stats of a quality stat give at quality `qual`: the value
/// per stat times the quality, in thousandths, for their amount.
pub open spec fn quality_stat_mods(tables: GemStatTables, g: Seq<char>, st: Seq<(String, i32)>, aura: bool, qual: i32, src: Source, k: int) -> Seq<Mod>
    decreases k,
{
    if k <= 0 {
        Seq::empty()
    } else {
        quality_stat_mods(tables, g, st, aura, qual, src, k - 1)
            + kept_mods(stat_found(tables, g, st[k - 1].0@), aura, tdiv(st[k - 1].1 * qual, 1000) as i64, false, src)
    }
}

/// The modifiers the first `k` quality stats give at quality `qual`.
pub open spec fn quality_mods(tables: GemStatTables, g: Seq<char>, qs: Seq<QualityStat>, aura: bool, qual: i32, src: Source, k: int) -> Seq<Mod>
    decreases k,
{
    if k <= 0 {
        Seq::empty()
    } else {
        quality_mods(tables, g, qs, aura, qual, src, k - 1)
            + quality_stat_mods(tables, g, qs[k - 1].stats@, aura, qual, src, qs[k - 1].stats@.len() as int)
    }
}

/// The stat modifiers of a gem's own at `level`: its attack speed multiplier ("more"), its
/// mana cost (base) and its cost multiplier ("more"), where it has them.
pub open spec fn gem_extras(gem: GemData, level: u32) -> Seq<(StatId, Type, i64)> {
    (match gem.static_data.attack_speed_multiplier {
        Some(m) => seq![(StatId::AttackSpeed, Type::More, m as i64)],
        None => Seq::empty(),
    }) + (match gem.spec_mana_cost(level) {
        Some(c) => seq![(StatId::ManaCost, Type::Base, c)],
        None => Seq::empty(),
    }) + (match gem.spec_cost_multiplier(level) {
        Some(c) => seq![(StatId::Cost, Type::More, c)],
        None => Seq::empty(),
    })
}

/// `m` adds the amount of the triple to its stat, with that type, from `src`, with nothing
/// else set.
pub open spec fn plain_from(m: Mod, x: (StatId, Type, i64), src: Source) -> bool {
    &&& Mod { source: Source::Innate, ..m }.is_plain_stat(x.0, x.1, x.2)
    &&& m.source == src
}

/// The modifiers a gem gives, at `level` and quality `qual`, from `src`: those of its
/// stats, then those of its quality stats, then, unless those of auras, buffs and curses
/// are asked for, its own.
pub open spec fn gem_mods_ok(r: Seq<Mod>, tables: GemStatTables, gem: GemData, aura: bool, level: u32, qual: i32, src: Source) -> bool {
    let a = match gem.static_data.stats {
        Some(stats) => static_mods(tables, gem, stats@, aura, level, src, stats@.len() as int),
        None => Seq::empty(),
    };
    let b = quality_mods(tables, gem.base_item.display_name@, gem.static_data.quality_stats@, aura, qual, src,
        gem.static_data.quality_stats@.len() as int);
    let x = if aura { Seq::empty() } else { gem_extras(gem, level) };
    &&& r.len() == a.len() + b.len() + x.len()
    &&& forall|i: int| 0 <= i < a.len() ==> (#[trigger] r[i]).same(a[i])
    &&& forall|j: int| 0 <= j < b.len() ==> (#[trigger] r[a.len() + j]).same(b[j])
    &&& forall|j: int| 0 <= j < x.len() ==> plain_from(#[trigger] r[a.len() + b.len() + j], x[j], src)
}

/// Modifiers alike to alike modifiers are alike.
proof fn lemma_same_trans(a: Mod, b: Mod, c: Mod)
    requires
        a.same(b),
        b.same(c),
    ensures
        a.same(c),
{
}

/// Appends what the tables give a stat, kept for `aura`, to `mods`, which held `before`.
fn push_stat(mods: &mut Vec<Mod>, tables: &GemStatTables, gem_name: &str, stat: &str, aura: bool, amount: i64, levels: bool, src: Source)
    ensures
        same_mods(final(mods)@.take(old(mods)@.len() as int), old(mods)@),
        final(mods)@.len() == old(mods)@.len() + kept_mods(stat_found(*tables, gem_name@, stat@), aura, amount, levels, src).len(),
        forall|j: int| 0 <= j < kept_mods(stat_found(*tables, gem_name@, stat@), aura, amount, levels, src).len()
            ==> (#[trigger] final(mods)@[old(mods)@.len() + j]).same(kept_mods(stat_found(*tables, gem_name@, stat@), aura, amount, levels, src)[j]),
{
    let ghost found = stat_found(*tables, gem_name@, stat@);
    let ghost before = mods@;
    match match_gemstat(tables, gem_name, stat) {
        Some(v) => {
            proof {
                assert(same_mods(v@, found));
                lemma_kept_alike(v@, found, aura, amount, levels, src);
            }
            push_kept(mods, &v, aura, amount, levels, src);
            proof {
                let kv = kept_mods(v@, aura, amount, levels, src);
                let kf = kept_mods(found, aura, amount, levels, src);
                assert forall|j: int| 0 <= j < kf.len() implies (#[trigger] mods@[before.len() + j]).same(kf[j]) by {
                    lemma_same_trans(mods@[before.len() + j], kv[j], kf[j]);
                }
                assert forall|i: int| 0 <= i < before.len() implies (#[trigger] mods@.take(before.len() as int)[i]).same(before[i]) by {
                    assert(mods@[i] == before[i]);
                }
            }
        },
        None => {
            proof {
                assert(found.len() == 0);
                assert(kept_mods(found, aura, amount, levels, src) =~= Seq::<Mod>::empty());
                assert(mods@.take(before.len() as int) =~= before);
            }
        },
    }
}

/// A list alike to `a` that gained modifiers alike to `add` is alike to `a + add`.
proof fn lemma_extend_same(new: Seq<Mod>, old: Seq<Mod>, a: Seq<Mod>, add: Seq<Mod>)
    requires
        same_mods(new.take(old.len() as int), old),
        same_mods(old, a),
        new.len() == old.len() + add.len(),
        forall|j: int| 0 <= j < add.len() ==> (#[trigger] new[old.len() + j]).same(add[j]),
    ensures
        same_mods(new, a + add),
{
    assert forall|i: int| 0 <= i < new.len() implies (#[trigger] new[i]).same((a + add)[i]) by {
        if i < old.len() {
            assert(new.take(old.len() as int)[i] == new[i]);
            lemma_same_trans(new[i], old[i], a[i]);
        } else {
            assert(new[old.len() + (i - old.len())].same(add[i - old.len()]));
        }
    }
}

/// The modifiers the gem's stats give (see `static_mods`).
pub open spec fn static_part(tables: GemStatTables, gem: GemData, aura: bool, level: u32, src: Source) -> Seq<Mod> {
    match gem.static_data.stats {
        Some(stats) => static_mods(tables, gem, stats@, aura, level, src, stats@.len() as int),
        None => Seq::empty(),
    }
}

impl GemData {
    /// Appends the modifiers one stat of the gem gives.
    fn push_entry(&self, mods: &mut Vec<Mod>, tables: &GemStatTables, stat: &Option<GemStat>, aura: bool, level: u32, source: Source)
        ensures
            same_mods(final(mods)@.take(old(mods)@.len() as int), old(mods)@),
            final(mods)@.len() == old(mods)@.len() + static_entry(*tables, *self, *stat, aura, level, source).len(),
            forall|j: int| 0 <= j < static_entry(*tables, *self, *stat, aura, level, source).len()
                ==> (#[trigger] final(mods)@[old(mods)@.len() + j]).same(static_entry(*tables, *self, *stat, aura, level, source)[j]),
    {
        match stat {
            Some(gs) => match &gs.id {
                Some(id) => {
                    let amount = match self.stat_value(id.as_str(), level) {
                        Some(v) => v,
                        None => 0,
                    };
                    push_stat(mods, tables, self.base_item.display_name.as_str(), id.as_str(), aura, amount, true, source);
                },
                None => {
                    assert(mods@.take(mods@.len() as int) =~= mods@);
                },
            },
            None => {
                assert(mods@.take(mods@.len() as int) =~= mods@);
            },
        }
    }

    /// Appends the modifiers the gem's stats give.
    #[verifier::rlimit(30)]
    fn push_static(&self, mods: &mut Vec<Mod>, tables: &GemStatTables, aura: bool, level: u32, source: Source, Ghost(base): Ghost<Seq<Mod>>)
        requires
            same_mods(old(mods)@, base),
        ensures
            same_mods(final(mods)@, base + static_part(*tables, *self, aura, level, source)),
    {
        match &self.static_data.stats {
            Some(stats) => {
                let mut k: usize = 0;
                proof {
                    assert(base + static_mods(*tables, *self, stats@, aura, level, source, 0) =~= base);
                }
                while k < stats.len()
                    invariant
                        k <= stats@.len(),
                        same_mods(mods@, base + static_mods(*tables, *self, stats@, aura, level, source, k as int)),
                    decreases stats.len() - k,
                {
                    let ghost before = mods@;
                    let ghost ak = base + static_mods(*tables, *self, stats@, aura, level, source, k as int);
                    self.push_entry(mods, tables, &stats[k], aura, level, source);
                    proof {
                        let add = static_entry(*tables, *self, stats@[k as int], aura, level, source);
                        lemma_extend_same(mods@, before, ak, add);
                        assert(ak + add =~= base + static_mods(*tables, *self, stats@, aura, level, source, k as int + 1));
                    }
                    k += 1;
                }
            },
            None => {
                assert(base + static_part(*tables, *self, aura, level, source) =~= base);
            },
        }
    }

    /// Appends the modifiers the gem's quality stats give.
    #[verifier::rlimit(30)]
    fn push_quality(&self, mods: &mut Vec<Mod>, tables: &GemStatTables, aura: bool, qual: i32, source: Source, Ghost(base0): Ghost<Seq<Mod>>)
        requires
            same_mods(old(mods)@, base0),
        ensures
            same_mods(final(mods)@, base0 + quality_mods(*tables, self.base_item.display_name@, self.static_data.quality_stats@, aura, qual, source,
                self.static_data.quality_stats@.len() as int)),
    {
        let gem_name = self.base_item.display_name.as_str();
        let ghost g = gem_name@;
        let qs = &self.static_data.quality_stats;
        let ghost qv = qs@;
        let mut q: usize = 0;
        proof {
            assert(base0 + quality_mods(*tables, g, qv, aura, qual, source, 0) =~= base0);
        }
        while q < qs.len()
            invariant
                q <= qv.len(),
                qv == qs@,
                gem_name@ == g,
                same_mods(mods@, base0 + quality_mods(*tables, g, qv, aura, qual, source, q as int)),
            decreases qs.len() - q,
        {
            let st = &qs[q].stats;
            let ghost base = base0 + quality_mods(*tables, g, qv, aura, qual, source, q as int);
            let mut k: usize = 0;
            proof {
                assert(base + quality_stat_mods(*tables, g, st@, aura, qual, source, 0) =~= base);
            }
            while k < st.len()
                invariant
                    k <= st@.len(),
                    gem_name@ == g,
                    same_mods(mods@, base + quality_stat_mods(*tables, g, st@, aura, qual, source, k as int)),
                decreases st.len() - k,
            {
                let ghost before = mods@;
                let ghost sk = quality_stat_mods(*tables, g, st@, aura, qual, source, k as int);
                let (stat_name, val) = (&st[k].0, st[k].1);
                proof {
                    let (v, w) = (val as int, qual as int);
                    assert(-0x4000_0000_0000_0000 <= v * w <= 0x4000_0000_0000_0000) by (nonlinear_arith)
                        requires -0x8000_0000 <= v <= 0x7FFF_FFFF, -0x8000_0000 <= w <= 0x7FFF_FFFF;
                }
                let amount = crate::arith::div_t(val as i64 * qual as i64, 1000);
                push_stat(mods, tables, gem_name, stat_name.as_str(), aura, amount, false, source);
                proof {
                    let add = kept_mods(stat_found(*tables, g, stat_name@), aura, amount, false, source);
                    lemma_extend_same(mods@, before, base + sk, add);
                    assert(base + sk + add =~= base + quality_stat_mods(*tables, g, st@, aura, qual, source, k as int + 1));
                }
                k += 1;
            }
            proof {
                assert(base + quality_stat_mods(*tables, g, st@, aura, qual, source, st@.len() as int)
                    =~= base0 + quality_mods(*tables, g, qv, aura, qual, source, q as int + 1));
            }
            q += 1;
        }
    }

    /// The modifiers the gem gives at `level` and quality `qual`, from the gem: for each of
    /// its stats with an id, and then each stat of its quality stats, the modifiers the
    /// tables give it (see `match_gemstat`), those of auras, buffs and curses when
    /// `as_aura_buff_curse` and the others otherwise, with their amount set where it is 0:
    /// the stat's value at the level (0 when it has none; it also sets the levels a
    /// modifier gives gems), or the quality stat's value times the quality, in
    /// thousandths. Unless `as_aura_buff_curse`, then its attack speed multiplier, mana
    /// cost and cost multiplier, where it has them.
    pub fn calc_mods(&'static self, tables: &GemStatTables, as_aura_buff_curse: bool, level: u32, qual: i32) -> (r: Vec<Mod>)
        ensures
            exists|src: Source| {
                &&& src matches Source::Gem(n) && n@ == match self.active_skill {
                    Some(a) => a.display_name@,
                    None => self.base_item.display_name@,
                }
                &&& #[trigger] gem_mods_ok(r@, *tables, *self, as_aura_buff_curse, level, qual, src)
            },
    {
        let aura = as_aura_buff_curse;
        let mut mods: Vec<Mod> = Vec::new();
        let source = Source::Gem(self.display_name());
        let ghost a = static_part(*tables, *self, aura, level, source);
        let ghost b = quality_mods(*tables, self.base_item.display_name@, self.static_data.quality_stats@, aura, qual, source,
            self.static_data.quality_stats@.len() as int);
        self.push_static(&mut mods, tables, aura, level, source, Ghost(Seq::empty()));
        proof {
            assert(Seq::<Mod>::empty() + a =~= a);
        }
        self.push_quality(&mut mods, tables, aura, qual, source, Ghost(a));
        let ghost ab = mods@;
        if !aura {
            let ghost x = gem_extras(*self, level);
            if let Some(speed_multiplier) = self.static_data.attack_speed_multiplier {
                mods.push(Mod::stat(StatId::AttackSpeed, Type::More, speed_multiplier as i64).with_source(source));
            }
            if let Some(base_mana_cost) = self.mana_cost(level) {
                mods.push(Mod::stat(StatId::ManaCost, Type::Base, base_mana_cost).with_source(source));
            }
            if let Some(cost_multiplier) = self.cost_multiplier(level) {
                mods.push(Mod::stat(StatId::Cost, Type::More, cost_multiplier).with_source(source));
            }
            proof {
                assert(mods@.len() == ab.len() + x.len());
                assert forall|j: int| 0 <= j < x.len() implies plain_from(#[trigger] mods@[a.len() + b.len() + j], x[j], source) by {}
                assert forall|i: int| 0 <= i < ab.len() implies #[trigger] mods@[i] == ab[i] by {}
            }
        }
        proof {
            assert forall|i: int| 0 <= i < a.len() implies (#[trigger] mods@[i]).same(a[i]) by {
                assert(mods@[i] == ab[i]);
                assert(ab[i].same((a + b)[i]));
            }
            assert forall|j: int| 0 <= j < b.len() implies (#[trigger] mods@[a.len() + j]).same(b[j]) by {
                assert(mods@[a.len() + j] == ab[a.len() + j]);
                assert(ab[a.len() + j].same((a + b)[a.len() + j]));
            }
            assert(gem_mods_ok(mods@, *tables, *self, aura, level, qual, source));
        }
        mods
    }
}

} // verus!
