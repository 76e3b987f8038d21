use vstd::prelude::*;
use crate::arith::{div_pos, fits, tdiv};
use crate::base_item::Rarity;
use crate::calc::{assim, assim_ok};
use crate::evaluator::{
    apply_mutations, check_condition, items_readable, mutations_ok, readable, revised_amount, spec_check_condition,
    BuildFacts,
};
use crate::flags::{contains, intersects, spec_contains, spec_intersects};
use crate::modifier::{Mod, ModEffect, ModStat, Mutation, Source, Type, MUTATIONS_COUNT};
use crate::slot::Slot;
use crate::buff::{buff_mods, spec_buff_stats};
use crate::item_calc::DefenceCalc;
use crate::stackvec::StackVec;
use crate::modifier::BuildFlag;
use crate::stat::{adjust_nums, adjust_ok, default_nums, mult_ok, spec_mult, spec_val, val100_ok, Stat, StatNums, Stats};
use crate::stat_id::StatId;

verus! {

/// What a stat is evaluated for: the weapon the skill attacks with, the skill's gem tags
/// and the kinds of damage or effect evaluated (as sets of bits).
#[derive(Debug, Clone, Copy)]
pub struct EvalContext {
    pub weapon: Option<Slot>,
    pub tags: u64,
    pub flags: u64,
}

/// The stats whose modifiers count towards a stat: resistances also take the elemental
/// ones, maximum resistances the maximum elemental ones.
pub open spec fn stat_sources(id: StatId) -> Seq<StatId> {
    match id {
        StatId::FireResistance => seq![StatId::FireResistance, StatId::ElementalResistances],
        StatId::ColdResistance => seq![StatId::ColdResistance, StatId::ElementalResistances],
        StatId::LightningResistance => seq![StatId::LightningResistance, StatId::ElementalResistances],
        StatId::MaximumFireResistance => seq![StatId::MaximumFireResistance, StatId::MaxElementalResistances],
        StatId::MaximumColdResistance => seq![StatId::MaximumColdResistance, StatId::MaxElementalResistances],
        StatId::MaximumLightningResistance => seq![StatId::MaximumLightningResistance, StatId::MaxElementalResistances],
        _ => seq![id],
    }
}

pub fn stat_sources_of(id: StatId) -> (r: Vec<StatId>)
    ensures
        r@ == stat_sources(id),
{
    match id {
        StatId::FireResistance => vec![StatId::FireResistance, StatId::ElementalResistances],
        StatId::ColdResistance => vec![StatId::ColdResistance, StatId::ElementalResistances],
        StatId::LightningResistance => vec![StatId::LightningResistance, StatId::ElementalResistances],
        StatId::MaximumFireResistance => vec![StatId::MaximumFireResistance, StatId::MaxElementalResistances],
        StatId::MaximumColdResistance => vec![StatId::MaximumColdResistance, StatId::MaxElementalResistances],
        StatId::MaximumLightningResistance => vec![StatId::MaximumLightningResistance, StatId::MaxElementalResistances],
        _ => vec![id],
    }
}

/// The modifier counts for a stat made from `sources`: a stat modifier of one of them, of
/// a kind the context evaluates (or of any), needing weapons the build holds (or none),
/// with gem tags the skill has and none it must not have.
pub open spec fn mod_selected(facts: BuildFacts, ctx: EvalContext, m: Mod, sources: Seq<StatId>) -> bool {
    &&& m.effect matches ModEffect::Stat(ms) && sources.contains(ms.stat)
    &&& m.flags == 0 || spec_intersects(ctx.flags, m.flags)
    &&& m.weapons == 0 || facts.spec_is_holding(m.weapons)
    &&& spec_contains(ctx.tags, m.tags)
    &&& !spec_intersects(ctx.tags, m.tags_not)
}

/// The modifier has no condition, or one of its conditions holds.
pub open spec fn conditions_pass(facts: BuildFacts, stats: Stats, ctx: EvalContext, m: Mod) -> bool {
    m.conditions@.len() == 0 || exists|i: int|
        0 <= i < m.conditions@.len() && #[trigger] spec_check_condition(facts, stats, ctx.weapon, m.conditions@[i], m.source)
}

/// The mutations of a stat modifier once the effect of a corrupted magic jewel is taken
/// in: a modifier of such a jewel is scaled by that effect unless it is 100%.
pub open spec fn jewel_mutations(facts: BuildFacts, stats: Stats, m: Mod) -> Seq<Mutation> {
    let ms = m.effect->Stat_0;
    match m.source {
        Source::Item(Slot::TreeJewel(idx)) => {
            let item = facts.spec_equipped(Slot::TreeJewel(idx))->0;
            let cme = spec_mult(stats.spec_stat(StatId::CorruptedMagicJewelEffect).nums());
            if item.corrupted && item.rarity == Rarity::Magic && cme != 10000 {
                ms.mutations@.push(Mutation::CustomMult(cme as i64))
            } else {
                ms.mutations@
            }
        },
        _ => ms.mutations@,
    }
}

/// The amount once mutations are applied (when there are any).
pub open spec fn mutated_amount(facts: BuildFacts, stats: Stats, m: Mod) -> i64 {
    let ms = m.effect->Stat_0;
    let muts = jewel_mutations(facts, stats, m);
    if muts.len() > 0 {
        revised_amount(facts, stats, m.source, muts, ms.amount as int) as i64
    } else {
        ms.spec_final_amount()
    }
}

/// The flask effect that applies to a flask's modifiers: the build's, with the flask's own.
pub open spec fn flask_effect(facts: BuildFacts, stats: Stats, idx: u16) -> StatNums {
    assim(stats.spec_stat(StatId::FlaskEffect).nums(), facts.spec_equipped(Slot::Flask(idx))->0.effect.nums())
}

/// The amount the modifier adds: mutated, then scaled by the flask effect for a flask's
/// modifier.
pub open spec fn eval_amount(facts: BuildFacts, stats: Stats, m: Mod) -> int {
    let a = mutated_amount(facts, stats, m);
    match m.source {
        Source::Item(Slot::Flask(idx)) => tdiv(a * spec_mult(flask_effect(facts, stats, idx)), 10000),
        _ => a as int,
    }
}

/// The numbers after the modifiers that count, in order.
pub open spec fn eval_fold(
    n: StatNums,
    facts: BuildFacts,
    stats: Stats,
    ctx: EvalContext,
    mods: Seq<Mod>,
    sources: Seq<StatId>,
) -> StatNums
    decreases mods.len(),
{
    if mods.len() == 0 {
        n
    } else {
        let prev = eval_fold(n, facts, stats, ctx, mods.drop_last(), sources);
        let m = mods.last();
        if mod_selected(facts, ctx, m, sources) && conditions_pass(facts, stats, ctx, m) {
            adjust_nums(prev, m.effect->Stat_0.typ, eval_amount(facts, stats, m))
        } else {
            prev
        }
    }
}

/// A modifier that counts can be evaluated, and its amount stays within `i64` once added
/// to `n`.
pub open spec fn mod_eval_ok(n: StatNums, facts: BuildFacts, stats: Stats, m: Mod) -> bool {
    &&& mod_amount_ok(facts, stats, m)
    &&& adjust_ok(n, m.effect->Stat_0.typ, eval_amount(facts, stats, m))
}

/// A stat modifier's amount can be evaluated: its jewel and flask are equipped, its
/// mutations fit and stay within `i64`.
pub open spec fn mod_amount_ok(facts: BuildFacts, stats: Stats, m: Mod) -> bool {
    let ms = m.effect->Stat_0;
    let muts = jewel_mutations(facts, stats, m);
    let a = mutated_amount(facts, stats, m);
    &&& m.source matches Source::Item(Slot::TreeJewel(idx)) ==> facts.spec_equipped(Slot::TreeJewel(idx)) is Some
        && ms.mutations@.len() < MUTATIONS_COUNT
    &&& m.source matches Source::Item(Slot::Flask(idx)) ==> {
        &&& facts.spec_equipped(Slot::Flask(idx)) is Some
        &&& assim_ok(stats.spec_stat(StatId::FlaskEffect).nums(), facts.spec_equipped(Slot::Flask(idx))->0.effect.nums())
        &&& mult_ok(flask_effect(facts, stats, idx))
        &&& fits(a * spec_mult(flask_effect(facts, stats, idx)))
    }
    &&& muts.len() > 0 ==> mutations_ok(facts, stats, m.source, muts, ms.amount as int, muts.len() as int)
}

/// Every modifier that counts can be evaluated, in order.
pub open spec fn eval_fold_ok(
    n: StatNums,
    facts: BuildFacts,
    stats: Stats,
    ctx: EvalContext,
    mods: Seq<Mod>,
    sources: Seq<StatId>,
) -> bool
    decreases mods.len(),
{
    if mods.len() == 0 {
        true
    } else {
        let prev = eval_fold(n, facts, stats, ctx, mods.drop_last(), sources);
        let m = mods.last();
        &&& eval_fold_ok(n, facts, stats, ctx, mods.drop_last(), sources)
        &&& mod_selected(facts, ctx, m, sources) && conditions_pass(facts, stats, ctx, m) ==> mod_eval_ok(prev, facts, stats, m)
    }
}

/// A stat modifier with its amount evaluated: mutated (a corrupted magic jewel's modifier
/// first scaled by that effect), then scaled by the flask effect for a flask's modifier.
fn eval_mod(facts: &BuildFacts, stats: &Stats, m: &Mod) -> (r: Mod)
    requires
        facts.wf(),
        readable(*stats),
        m.effect is Stat,
        mod_amount_ok(*facts, *stats, *m),
    ensures
        r.effect matches ModEffect::Stat(rs) && rs.typ == m.effect->Stat_0.typ && rs.spec_final_amount() == eval_amount(
            *facts,
            *stats,
            *m,
        ),
        r.source == m.source,
{
    let mut m2 = m.duplicate();
    if let Source::Item(Slot::TreeJewel(idx)) = m.source {
        if let Some(item) = facts.get_equipped(Slot::TreeJewel(idx)) {
            if item.corrupted && item.rarity == Rarity::Magic {
                assert(val100_ok(stats.spec_stat(StatId::CorruptedMagicJewelEffect).nums()));
                let cme = stats.stat(StatId::CorruptedMagicJewelEffect).mult();
                if cme != 10000 {
                    let mut sv: StackVec<Mutation, MUTATIONS_COUNT> = StackVec::new();
                    sv.push(Mutation::CustomMult(cme));
                    m2 = m2.with_mutations(sv);
                }
            }
        }
    }
    assert(m2.effect matches ModEffect::Stat(s2) && s2.mutations@ == jewel_mutations(*facts, *stats, *m) && s2.amount
        == m.effect->Stat_0.amount && s2.typ == m.effect->Stat_0.typ && s2.revised_amount == m.effect->Stat_0.revised_amount);
    let Mod { effect, conditions, tags, tags_not, source, weapons, flags } = m2;
    let mut ms = match effect {
        ModEffect::Stat(ms) => ms,
        other => {
            return Mod { effect: other, conditions, tags, tags_not, source, weapons, flags };
        },
    };
    if ms.mutations.len() > 0 {
        apply_mutations(facts, stats, &mut ms, source);
    }
    assert(ms.spec_final_amount() == mutated_amount(*facts, *stats, *m));
    if let Source::Item(Slot::Flask(idx)) = source {
        if let Some(item) = facts.get_equipped(Slot::Flask(idx)) {
            assert(val100_ok(stats.spec_stat(StatId::FlaskEffect).nums()));
            let mut fe = stats.stat(StatId::FlaskEffect).duplicate();
            fe.assimilate(&item.effect);
            let new_amount = div_pos(ms.final_amount() * fe.mult(), 10000);
            ms.revised_amount = Some(new_amount);
        }
    }
    Mod { effect: ModEffect::Stat(ms), conditions, tags, tags_not, source, weapons, flags }
}

/// Whether the modifier counts for a stat made from `sources`.
fn selected(facts: &BuildFacts, ctx: &EvalContext, m: &Mod, sources: &Vec<StatId>) -> (r: bool)
    ensures
        r == mod_selected(*facts, *ctx, *m, sources@),
{
    let stat = match &m.effect {
        ModEffect::Stat(ms) => ms.stat,
        _ => {
            return false;
        },
    };
    let mut found = false;
    let mut k: usize = 0;
    while k < sources.len()
        invariant
            k <= sources@.len(),
            found == exists|j: int| 0 <= j < k && sources@[j] == stat,
        decreases sources@.len() - k,
    {
        if sources[k] == stat {
            found = true;
        }
        k = k + 1;
    }
    found && (m.flags == 0 || intersects(ctx.flags, m.flags)) && (m.weapons == 0 || facts.is_holding(m.weapons))
        && contains(ctx.tags, m.tags) && !intersects(ctx.tags, m.tags_not)
}

/// Whether the modifier has no condition or one that holds.
fn passes(facts: &BuildFacts, stats: &Stats, ctx: &EvalContext, m: &Mod) -> (r: bool)
    requires
        facts.wf(),
        readable(*stats),
        items_readable(*facts),
    ensures
        r == conditions_pass(*facts, *stats, *ctx, *m),
{
    let n = m.conditions.len();
    if n == 0 {
        return true;
    }
    let mut k: usize = 0;
    while k < n
        invariant
            k <= n,
            n == m.conditions@.len(),
            facts.wf(),
            readable(*stats),
            items_readable(*facts),
            forall|j: int| 0 <= j < k ==> !#[trigger] spec_check_condition(*facts, *stats, ctx.weapon, m.conditions@[j], m.source),
        decreases n - k,
    {
        if check_condition(facts, stats, ctx.weapon, m.conditions.index(k), m.source) {
            return true;
        }
        k = k + 1;
    }
    false
}

/// Applies to `cur`, in order, the modifiers that count.
fn fold_eval(
    cur: &mut Stat,
    facts: &BuildFacts,
    stats: &Stats,
    ctx: &EvalContext,
    mods: &Vec<Mod>,
    sources: &Vec<StatId>,
)
    requires
        facts.wf(),
        readable(*stats),
        items_readable(*facts),
        eval_fold_ok(old(cur).nums(), *facts, *stats, *ctx, mods@, sources@),
    ensures
        final(cur).nums() == eval_fold(old(cur).nums(), *facts, *stats, *ctx, mods@, sources@),
{
    let ghost n0 = cur.nums();
    let mut i: usize = 0;
    while i < mods.len()
        invariant
            i <= mods@.len(),
            facts.wf(),
            readable(*stats),
            items_readable(*facts),
            eval_fold_ok(n0, *facts, *stats, *ctx, mods@, sources@),
            cur.nums() == eval_fold(n0, *facts, *stats, *ctx, mods@.take(i as int), sources@),
        decreases mods@.len() - i,
    {
        proof {
            lemma_eval_fold_ok_prefix(n0, *facts, *stats, *ctx, mods@, sources@, i + 1);
            assert(mods@.take(i + 1).drop_last() == mods@.take(i as int));
            assert(mods@.take(i + 1).last() == mods@[i as int]);
        }
        let m = &mods[i];
        if selected(facts, ctx, m, sources) && passes(facts, stats, ctx, m) {
            let m2 = eval_mod(facts, stats, m);
            cur.adjust_mod_move(m2);
        }
        i = i + 1;
    }
    assert(mods@.take(mods@.len() as int) == mods@);
}

pub proof fn lemma_eval_fold_ok_prefix(
    n: StatNums,
    facts: BuildFacts,
    stats: Stats,
    ctx: EvalContext,
    mods: Seq<Mod>,
    sources: Seq<StatId>,
    k: int,
)
    requires
        eval_fold_ok(n, facts, stats, ctx, mods, sources),
        0 <= k <= mods.len(),
    ensures
        eval_fold_ok(n, facts, stats, ctx, mods.take(k), sources),
    decreases mods.len(),
{
    if k < mods.len() {
        assert(mods.take(k) == mods.drop_last().take(k));
        lemma_eval_fold_ok_prefix(n, facts, stats, ctx, mods.drop_last(), sources, k);
    } else {
        assert(mods.take(k) == mods);
    }
}

/// The numbers after the modifiers of the build's list for the first `k` source stats, each
/// source in turn.
pub open spec fn db_fold(facts: BuildFacts, stats: Stats, ctx: EvalContext, mods: Seq<Mod>, sources: Seq<StatId>, k: int) -> StatNums
    decreases k,
{
    if k <= 0 {
        default_nums()
    } else {
        eval_fold(db_fold(facts, stats, ctx, mods, sources, k - 1), facts, stats, ctx, mods, seq![sources[k - 1]])
    }
}

pub open spec fn db_fold_ok(facts: BuildFacts, stats: Stats, ctx: EvalContext, mods: Seq<Mod>, sources: Seq<StatId>, k: int) -> bool
    decreases k,
{
    k <= 0 || (db_fold_ok(facts, stats, ctx, mods, sources, k - 1) && eval_fold_ok(
        db_fold(facts, stats, ctx, mods, sources, k - 1),
        facts,
        stats,
        ctx,
        mods,
        seq![sources[k - 1]],
    ))
}

/// The numbers of a stat: the build's modifiers of each of its source stats in turn, then
/// the extra modifiers of any of them, each as it counts and evaluates.
pub open spec fn spec_eval_stat(facts: BuildFacts, stats: Stats, ctx: EvalContext, mods: Seq<Mod>, extra: Seq<Mod>, id: StatId) -> StatNums {
    let sources = stat_sources(id);
    eval_fold(db_fold(facts, stats, ctx, mods, sources, sources.len() as int), facts, stats, ctx, extra, sources)
}

pub open spec fn eval_stat_ok(facts: BuildFacts, stats: Stats, ctx: EvalContext, mods: Seq<Mod>, extra: Seq<Mod>, id: StatId) -> bool {
    let sources = stat_sources(id);
    &&& db_fold_ok(facts, stats, ctx, mods, sources, sources.len() as int)
    &&& eval_fold_ok(db_fold(facts, stats, ctx, mods, sources, sources.len() as int), facts, stats, ctx, extra, sources)
}

/// Evaluates a stat for a skill: the build's modifiers (`mods`) of each of its source stats
/// in turn, then the extra modifiers, each counted when it is a stat modifier of a source,
/// of a kind evaluated, its weapons held and its tags the skill's, and when it has no
/// condition or one that holds; its amount is mutated and scaled by the flask effect for a
/// flask. The values conditions and mutations read come from `stats`.
pub fn eval_stat(
    facts: &BuildFacts,
    stats: &Stats,
    ctx: &EvalContext,
    mods: &Vec<Mod>,
    extra_mods: &Vec<Mod>,
    stat_id: StatId,
) -> (r: Stat)
    requires
        facts.wf(),
        readable(*stats),
        items_readable(*facts),
        eval_stat_ok(*facts, *stats, *ctx, mods@, extra_mods@, stat_id),
    ensures
        r.nums() == spec_eval_stat(*facts, *stats, *ctx, mods@, extra_mods@, stat_id),
{
    let sources = stat_sources_of(stat_id);
    let mut current = Stat::new();
    let mut k: usize = 0;
    while k < sources.len()
        invariant
            k <= sources@.len(),
            sources@ == stat_sources(stat_id),
            facts.wf(),
            readable(*stats),
            items_readable(*facts),
            db_fold_ok(*facts, *stats, *ctx, mods@, sources@, sources@.len() as int),
            current.nums() == db_fold(*facts, *stats, *ctx, mods@, sources@, k as int),
        decreases sources@.len() - k,
    {
        proof {
            lemma_db_fold_ok_prefix(*facts, *stats, *ctx, mods@, sources@, sources@.len() as int, k + 1);
        }
        let one = vec![sources[k]];
        assert(one@ == seq![sources@[k as int]]);
        fold_eval(&mut current, facts, stats, ctx, mods, &one);
        k = k + 1;
    }
    fold_eval(&mut current, facts, stats, ctx, extra_mods, &sources);
    current
}

pub proof fn lemma_db_fold_ok_prefix(facts: BuildFacts, stats: Stats, ctx: EvalContext, mods: Seq<Mod>, sources: Seq<StatId>, k: int, j: int)
    requires
        db_fold_ok(facts, stats, ctx, mods, sources, k),
        0 <= j <= k,
    ensures
        db_fold_ok(facts, stats, ctx, mods, sources, j),
    decreases k,
{
    if j < k {
        lemma_db_fold_ok_prefix(facts, stats, ctx, mods, sources, k - 1, j);
    }
}

/// Adds a modifier to one stat of the table, recording it.
fn adjust_table(stats: &mut Stats, id: StatId, m: Mod)
    requires
        old(stats).wf(),
        crate::stat::mod_ok(old(stats).spec_stat(id).nums(), m),
    ensures
        final(stats).wf(),
        final(stats).spec_stat(id).nums() == crate::stat::mod_nums(old(stats).spec_stat(id).nums(), m),
        final(stats).spec_stat(id).mods@ == old(stats).spec_stat(id).mods@.push(m),
        forall|s: StatId| s != id ==> #[trigger] final(stats).spec_stat(s) == old(stats).spec_stat(s),
{
    let i = id.as_usize();
    let mut st = stats.stats.remove(i);
    st.adjust_mod_move(m);
    stats.stats.insert(i, st);
    proof {
        assert forall|s: StatId| s != id implies #[trigger] stats.spec_stat(s) == old(stats).spec_stat(s) by {
            if s.index() == id.index() {
                crate::stat_id::law_index_injective(s, id);
            }
        }
    }
}

/// The highest maximum elemental resistance, which the build flag that sets all of them to
/// the highest uses.
pub open spec fn max_res_highest(stats: Stats) -> int {
    let f = spec_val(stats.spec_stat(StatId::MaximumFireResistance).nums());
    let c = spec_val(stats.spec_stat(StatId::MaximumColdResistance).nums());
    let l = spec_val(stats.spec_stat(StatId::MaximumLightningResistance).nums());
    let m = if f > c { f } else { c };
    if m > l { m } else { l }
}

/// Applies the build flags that act once stats are known: with "elemental maximum
/// resistances are the highest", each maximum elemental resistance gets the highest of the
/// three as override.
pub fn resolve_flags_post(stats: &mut Stats, build_flags: &Vec<BuildFlag>)
    requires
        readable(*old(stats)),
    ensures
        final(stats).wf(),
        (exists|i: int| 0 <= i < build_flags@.len() && build_flags@[i] == BuildFlag::EleMaxResHighest) ==> {
            let h = max_res_highest(*old(stats));
            &&& final(stats).spec_stat(StatId::MaximumFireResistance).nums() == adjust_nums(old(stats).spec_stat(StatId::MaximumFireResistance).nums(), Type::Override, h)
            &&& final(stats).spec_stat(StatId::MaximumColdResistance).nums() == adjust_nums(old(stats).spec_stat(StatId::MaximumColdResistance).nums(), Type::Override, h)
            &&& final(stats).spec_stat(StatId::MaximumLightningResistance).nums() == adjust_nums(old(stats).spec_stat(StatId::MaximumLightningResistance).nums(), Type::Override, h)
        },
        !(exists|i: int| 0 <= i < build_flags@.len() && build_flags@[i] == BuildFlag::EleMaxResHighest) ==> *final(stats) == *old(stats),
        forall|s: StatId|
            s != StatId::MaximumFireResistance && s != StatId::MaximumColdResistance && s != StatId::MaximumLightningResistance
                ==> #[trigger] final(stats).spec_stat(s) == old(stats).spec_stat(s),
{
    let mut found = false;
    let mut i: usize = 0;
    while i < build_flags.len()
        invariant
            i <= build_flags@.len(),
            found == exists|j: int| 0 <= j < i && build_flags@[j] == BuildFlag::EleMaxResHighest,
        decreases build_flags@.len() - i,
    {
        if build_flags[i] == BuildFlag::EleMaxResHighest {
            found = true;
        }
        i = i + 1;
    }
    if !found {
        return;
    }
    assert(val100_ok(stats.spec_stat(StatId::MaximumFireResistance).nums()));
    assert(val100_ok(stats.spec_stat(StatId::MaximumColdResistance).nums()));
    assert(val100_ok(stats.spec_stat(StatId::MaximumLightningResistance).nums()));
    let fire = stats.val(StatId::MaximumFireResistance);
    let cold = stats.val(StatId::MaximumColdResistance);
    let lightning = stats.val(StatId::MaximumLightningResistance);
    let m = if fire > cold { fire } else { cold };
    let max = if m > lightning { m } else { lightning };
    let ghost s0 = *stats;
    adjust_table(stats, StatId::MaximumFireResistance, Mod::stat(StatId::MaximumFireResistance, Type::Override, max));
    adjust_table(stats, StatId::MaximumColdResistance, Mod::stat(StatId::MaximumColdResistance, Type::Override, max));
    adjust_table(stats, StatId::MaximumLightningResistance, Mod::stat(StatId::MaximumLightningResistance, Type::Override, max));
}


/// The defence of kind `k` of an item: armour, energy shield, evasion, then block chance.
pub open spec fn defence_part(d: DefenceCalc, k: int) -> StatNums {
    if k == 0 {
        d.armour.nums()
    } else if k == 1 {
        d.energy_shield.nums()
    } else if k == 2 {
        d.evasion.nums()
    } else {
        d.block_chance.nums()
    }
}

/// The stat that the defence of kind `k` of the items adds to.
pub open spec fn defence_target(k: int) -> StatId {
    if k == 0 {
        StatId::Armour
    } else if k == 1 {
        StatId::MaximumEnergyShield
    } else if k == 2 {
        StatId::EvasionRating
    } else {
        StatId::ChanceToBlockAttackDamage
    }
}

/// What one item's defence of value `v` adds: nothing when it is zero, else `v` scaled by
/// the multiplier of the stat it adds to.
pub open spec fn scaled_gain(v: int, mult: int) -> int {
    if v != 0 {
        tdiv(v * mult, 10000)
    } else {
        0
    }
}

/// What the items add, in all, to the stat of defence kind `k` with multiplier `mult`.
pub open spec fn gain_sum(ds: Seq<(Slot, DefenceCalc)>, k: int, mult: int) -> int
    decreases ds.len(),
{
    if ds.len() == 0 {
        0
    } else {
        gain_sum(ds.drop_last(), k, mult) + scaled_gain(spec_val(defence_part(ds.last().1, k)), mult)
    }
}

/// The multiplier of the stat of defence kind `k` in the table.
pub open spec fn target_mult(stats: Stats, k: int) -> int {
    spec_mult(stats.spec_stat(defence_target(k)).nums())
}

/// The numbers `n` with `g` more flat.
pub open spec fn with_gain(n: StatNums, g: int) -> StatNums {
    StatNums { flat: n.flat + g, ..n }
}

/// The defence kinds that add to a stat: all four, or all but energy shield when the items
/// grant life in its place.
pub open spec fn kind_adds(k: int, life_instead_es: bool) -> bool {
    0 <= k < 4 && !(k == 1 && life_instead_es)
}

/// Everything the items' defences add stays within `i64`, and can be read.
pub open spec fn armour_ok(stats: Stats, ds: Seq<(Slot, DefenceCalc)>, life_instead_es: bool) -> bool {
    &&& stats.wf()
    &&& forall|i: int, k: int|
        0 <= i < ds.len() && 0 <= k < 4 ==> #[trigger] val100_ok(defence_part(ds[i].1, k))
    &&& forall|k: int| kind_adds(k, life_instead_es) ==> #[trigger] mult_ok(stats.spec_stat(defence_target(k)).nums())
    &&& forall|i: int, k: int|
        0 <= i < ds.len() && kind_adds(k, life_instead_es) ==> fits(
            spec_val(#[trigger] defence_part(ds[i].1, k)) * target_mult(stats, k),
        )
    &&& forall|n: int, k: int|
        0 <= n <= ds.len() && kind_adds(k, life_instead_es) ==> fits(
            stats.spec_stat(defence_target(k)).nums().flat + #[trigger] gain_sum(ds.take(n), k, target_mult(stats, k)),
        )
}

/// The life the items grant in place of their energy shield: the slot and amount of each
/// item with energy shield, in order.
pub open spec fn life_grants(ds: Seq<(Slot, DefenceCalc)>) -> Seq<(Slot, int)>
    decreases ds.len(),
{
    if ds.len() == 0 {
        seq![]
    } else {
        let es = spec_val(ds.last().1.energy_shield.nums());
        if es != 0 {
            life_grants(ds.drop_last()).push((ds.last().0, es))
        } else {
            life_grants(ds.drop_last())
        }
    }
}

/// `m` adds `amount` of type `typ` to `stat` and comes from the item in `slot`, with no
/// condition, tag, weapon or flag.
pub open spec fn item_grant(m: Mod, stat: StatId, typ: Type, amount: int, slot: Slot) -> bool {
    &&& m.effect matches ModEffect::Stat(s) && s.stat == stat && s.typ == typ && s.amount == amount
        && s.revised_amount is None && s.mutations@.len() == 0
    &&& m.conditions@.len() == 0
    &&& m.tags == 0
    &&& m.tags_not == 0
    &&& m.source == Source::Item(slot)
    &&& m.weapons == 0
    &&& m.flags == 0
}

/// Adds an item's defence `val`, scaled by the multiplier of `target`, to the flat amount
/// of `target`, recorded as a modifier of `label` from the item's slot.
fn add_item_defence(stats: &mut Stats, target: StatId, label: StatId, val: i64, slot: Slot)
    requires
        old(stats).wf(),
        mult_ok(old(stats).spec_stat(target).nums()),
        fits(val * spec_mult(old(stats).spec_stat(target).nums())),
        fits(old(stats).spec_stat(target).nums().flat + tdiv(val * spec_mult(old(stats).spec_stat(target).nums()), 10000)),
    ensures
        final(stats).wf(),
        final(stats).spec_stat(target).nums() == with_gain(
            old(stats).spec_stat(target).nums(),
            tdiv(val * spec_mult(old(stats).spec_stat(target).nums()), 10000),
        ),
        forall|s: StatId| s != target ==> #[trigger] final(stats).spec_stat(s) == old(stats).spec_stat(s),
{
    let v = stats.stat(target).val_custom(val);
    let m = Mod::stat(label, Type::Flat, v).with_source(Source::Item(slot));
    adjust_table(stats, target, m);
}

/// Adds the defences of the equipped items to the table: each item's armour, evasion and
/// block chance, scaled by the multiplier of the stat it adds to, to that stat's flat
/// amount; its energy shield likewise, or, when the items grant life in place of energy
/// shield, as a base life modifier among the returned extra modifiers.
pub fn resolve_armour(stats: &mut Stats, defences: &Vec<(Slot, DefenceCalc)>, life_instead_es: bool) -> (extra: Vec<Mod>)
    requires
        armour_ok(*old(stats), defences@, life_instead_es),
    ensures
        final(stats).wf(),
        forall|k: int|
            kind_adds(k, life_instead_es) ==> #[trigger] final(stats).spec_stat(defence_target(k)).nums() == with_gain(
                old(stats).spec_stat(defence_target(k)).nums(),
                gain_sum(defences@, k, target_mult(*old(stats), k)),
            ),
        life_instead_es ==> final(stats).spec_stat(StatId::MaximumEnergyShield) == old(stats).spec_stat(StatId::MaximumEnergyShield),
        forall|s: StatId|
            s != StatId::Armour && s != StatId::MaximumEnergyShield && s != StatId::EvasionRating
                && s != StatId::ChanceToBlockAttackDamage ==> #[trigger] final(stats).spec_stat(s) == old(stats).spec_stat(s),
        life_instead_es ==> extra@.len() == life_grants(defences@).len() && forall|j: int|
            0 <= j < extra@.len() ==> item_grant(
                #[trigger] extra@[j],
                StatId::MaximumLife,
                Type::Base,
                life_grants(defences@)[j].1,
                life_grants(defences@)[j].0,
            ),
        !life_instead_es ==> extra@.len() == 0,
{
    let ghost s0 = *stats;
    let ghost ds = defences@;
    let mut extra: Vec<Mod> = Vec::new();
    let mut i: usize = 0;
    while i < defences.len()
        invariant
            i <= ds.len(),
            ds == defences@,
            armour_ok(s0, ds, life_instead_es),
            stats.wf(),
            forall|k: int|
                kind_adds(k, life_instead_es) ==> #[trigger] stats.spec_stat(defence_target(k)).nums() == with_gain(
                    s0.spec_stat(defence_target(k)).nums(),
                    gain_sum(ds.take(i as int), k, target_mult(s0, k)),
                ),
            life_instead_es ==> stats.spec_stat(StatId::MaximumEnergyShield) == s0.spec_stat(StatId::MaximumEnergyShield),
            forall|s: StatId|
                s != StatId::Armour && s != StatId::MaximumEnergyShield && s != StatId::EvasionRating
                    && s != StatId::ChanceToBlockAttackDamage ==> #[trigger] stats.spec_stat(s) == s0.spec_stat(s),
            life_instead_es ==> extra@.len() == life_grants(ds.take(i as int)).len() && forall|j: int|
                0 <= j < extra@.len() ==> item_grant(
                    #[trigger] extra@[j],
                    StatId::MaximumLife,
                    Type::Base,
                    life_grants(ds.take(i as int))[j].1,
                    life_grants(ds.take(i as int))[j].0,
                ),
            !life_instead_es ==> extra@.len() == 0,
        decreases ds.len() - i,
    {
        let slot = defences[i].0;
        let d = &defences[i].1;
        proof {
            assert(ds.take(i + 1).drop_last() == ds.take(i as int));
            assert(ds.take(i + 1).last() == ds[i as int]);
        }
        let ghost before = *stats;
        assert(val100_ok(defence_part(ds[i as int].1, 0)));
        assert(val100_ok(defence_part(ds[i as int].1, 1)));
        assert(val100_ok(defence_part(ds[i as int].1, 2)));
        assert(val100_ok(defence_part(ds[i as int].1, 3)));
        let armour = d.armour.val();
        let es = d.energy_shield.val();
        let evasion = d.evasion.val();
        let block = d.block_chance.val();
        if armour != 0 {
            proof {
                assert(kind_adds(0, life_instead_es));
                assert(mult_ok(s0.spec_stat(defence_target(0)).nums()));
                assert(fits(spec_val(defence_part(ds[i as int].1, 0)) * target_mult(s0, 0)));
                assert(fits(s0.spec_stat(defence_target(0)).nums().flat + gain_sum(ds.take(i + 1), 0, target_mult(s0, 0))));
                assert(stats.spec_stat(defence_target(0)).nums() == with_gain(s0.spec_stat(defence_target(0)).nums(), gain_sum(ds.take(i as int), 0, target_mult(s0, 0))));
            }
            add_item_defence(stats, StatId::Armour, StatId::Armour, armour, slot);
        }
        if es != 0 {
            if life_instead_es {
                let m = Mod::stat(StatId::MaximumLife, Type::Base, es).with_source(Source::Item(slot));
                extra.push(m);
            } else {
                proof {
                    assert(kind_adds(1, life_instead_es));
                    assert(mult_ok(s0.spec_stat(defence_target(1)).nums()));
                    assert(fits(spec_val(defence_part(ds[i as int].1, 1)) * target_mult(s0, 1)));
                    assert(fits(s0.spec_stat(defence_target(1)).nums().flat + gain_sum(ds.take(i + 1), 1, target_mult(s0, 1))));
                    assert(stats.spec_stat(defence_target(1)).nums() == with_gain(s0.spec_stat(defence_target(1)).nums(), gain_sum(ds.take(i as int), 1, target_mult(s0, 1))));
                }
                add_item_defence(stats, StatId::MaximumEnergyShield, StatId::Armour, es, slot);
            }
        }
        if evasion != 0 {
            proof {
                assert(kind_adds(2, life_instead_es));
                assert(mult_ok(s0.spec_stat(defence_target(2)).nums()));
                assert(fits(spec_val(defence_part(ds[i as int].1, 2)) * target_mult(s0, 2)));
                assert(fits(s0.spec_stat(defence_target(2)).nums().flat + gain_sum(ds.take(i + 1), 2, target_mult(s0, 2))));
                assert(stats.spec_stat(defence_target(2)).nums() == with_gain(s0.spec_stat(defence_target(2)).nums(), gain_sum(ds.take(i as int), 2, target_mult(s0, 2))));
            }
            add_item_defence(stats, StatId::EvasionRating, StatId::Armour, evasion, slot);
        }
        if block != 0 {
            proof {
                assert(kind_adds(3, life_instead_es));
                assert(mult_ok(s0.spec_stat(defence_target(3)).nums()));
                assert(fits(spec_val(defence_part(ds[i as int].1, 3)) * target_mult(s0, 3)));
                assert(fits(s0.spec_stat(defence_target(3)).nums().flat + gain_sum(ds.take(i + 1), 3, target_mult(s0, 3))));
                assert(stats.spec_stat(defence_target(3)).nums() == with_gain(s0.spec_stat(defence_target(3)).nums(), gain_sum(ds.take(i as int), 3, target_mult(s0, 3))));
            }
            add_item_defence(stats, StatId::ChanceToBlockAttackDamage, StatId::Armour, block, slot);
        }
        i = i + 1;
    }
    proof {
        assert(ds.take(ds.len() as int) == ds);
    }
    extra
}


/// The stat modifiers the buff modifiers grant: for each buff modifier with no condition or
/// one that holds, in order, the modifiers of its buff.
pub open spec fn granted_rows(facts: BuildFacts, stats: Stats, ctx: EvalContext, mods: Seq<Mod>) -> Seq<(StatId, Type, i64)>
    decreases mods.len(),
{
    if mods.len() == 0 {
        seq![]
    } else {
        let prev = granted_rows(facts, stats, ctx, mods.drop_last());
        let m = mods.last();
        if conditions_pass(facts, stats, ctx, m) {
            prev + spec_buff_stats(m.effect->Buff_0)
        } else {
            prev
        }
    }
}

/// The modifiers `rows` describe, in order, each plain.
pub open spec fn plain_rows(mods: Seq<Mod>, rows: Seq<(StatId, Type, i64)>) -> bool {
    &&& mods.len() == rows.len()
    &&& forall|i: int| 0 <= i < mods.len() ==> (#[trigger] mods[i]).is_plain_stat(rows[i].0, rows[i].1, rows[i].2)
}

/// The extra modifiers that the build's buff modifiers grant: for each one with no
/// condition or one that holds, its buff's modifiers.
pub fn resolve_buffs(facts: &BuildFacts, stats: &Stats, ctx: &EvalContext, buffs: &Vec<Mod>) -> (r: Vec<Mod>)
    requires
        facts.wf(),
        readable(*stats),
        items_readable(*facts),
        forall|i: int| 0 <= i < buffs@.len() ==> (#[trigger] buffs@[i]).effect is Buff,
    ensures
        plain_rows(r@, granted_rows(*facts, *stats, *ctx, buffs@)),
{
    let mut r: Vec<Mod> = Vec::new();
    let mut i: usize = 0;
    while i < buffs.len()
        invariant
            i <= buffs@.len(),
            facts.wf(),
            readable(*stats),
            items_readable(*facts),
            forall|j: int| 0 <= j < buffs@.len() ==> (#[trigger] buffs@[j]).effect is Buff,
            plain_rows(r@, granted_rows(*facts, *stats, *ctx, buffs@.take(i as int))),
        decreases buffs@.len() - i,
    {
        proof {
            assert(buffs@.take(i + 1).drop_last() == buffs@.take(i as int));
            assert(buffs@.take(i + 1).last() == buffs@[i as int]);
        }
        let m = &buffs[i];
        if passes(facts, stats, ctx, m) {
            let b = match m.as_buff() {
                Some(b) => b,
                None => {
                    proof {
                        assert(buffs@[i as int].effect is Buff);
                    }
                    i = i + 1;
                    continue;
                },
            };
            let granted = buff_mods(b);
            let ghost before = r@;
            let ghost rows0 = granted_rows(*facts, *stats, *ctx, buffs@.take(i as int));
            let mut k: usize = 0;
            while k < granted.len()
                invariant
                    k <= granted@.len(),
                    granted@.len() == spec_buff_stats(b).len(),
                    forall|j: int| 0 <= j < granted@.len() ==> (#[trigger] granted@[j]).is_plain_stat(
                        spec_buff_stats(b)[j].0,
                        spec_buff_stats(b)[j].1,
                        spec_buff_stats(b)[j].2,
                    ),
                    plain_rows(before, rows0),
                    r@.len() == before.len() + k,
                    r@.subrange(0, before.len() as int) == before,
                    forall|j: int| 0 <= j < k ==> (#[trigger] r@[before.len() + j]).is_plain_stat(
                        spec_buff_stats(b)[j].0,
                        spec_buff_stats(b)[j].1,
                        spec_buff_stats(b)[j].2,
                    ),
                decreases granted@.len() - k,
            {
                let g = granted[k].duplicate();
                r.push(g);
                proof {
                    assert(r@.subrange(0, before.len() as int) =~= before);
                    assert(r@[before.len() + k] == g);
                }
                k = k + 1;
            }
            proof {
                let rows = rows0 + spec_buff_stats(b);
                assert(m.effect->Buff_0 == b);
                assert forall|j: int| 0 <= j < r@.len() implies (#[trigger] r@[j]).is_plain_stat(rows[j].0, rows[j].1, rows[j].2) by {
                    if j < before.len() {
                        assert(r@[j] == before[j]);
                    } else {
                        assert(r@[before.len() + (j - before.len())] == r@[j]);
                    }
                }
            }
        }
        i = i + 1;
    }
    assert(buffs@.take(buffs@.len() as int) == buffs@);
    r
}

} // verus!
