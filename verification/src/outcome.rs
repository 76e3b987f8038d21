use vstd::prelude::*;
use crate::arith::{div_pos, div_t, fits, tdiv};
use crate::base_item::ItemClass;
use crate::evaluator::EquippedItem;
use crate::calc::{
    assim, assim_ok, calc_dmg_crit_accuracy, dmg_crit_accuracy_ok, physical_damage_reduction_armour,
    spec_dmg_crit_accuracy, spec_pdr_armour,
};
use crate::report::{names_unique, report_get, report_insert, report_value};
use crate::damage::{ev, vals_ok};
use crate::modifier::Type;
use crate::stat::{adjust_nums, adjust_ok, mult_ok, spec_mult, spec_val, spec_val100, val100_ok, StatNums, Stats};
use crate::stat_id::StatId;
use crate::text::str_eq;

verus! {

/// Whether an attack whose skill restricts weapons to `restrictions` (`None`: not an active
/// skill) can use `item`: with no restriction any weapon will do, else only the listed classes.
pub open spec fn attack_usable(restrictions: Option<Seq<ItemClass>>, item: EquippedItem) -> bool {
    match restrictions {
        None => false,
        Some(r) => if r.len() == 0 {
            item.is_weapon
        } else {
            r.contains(item.item_class)
        },
    }
}

/// The views of the weapon restrictions, if any.
pub open spec fn restriction_view(restrictions: Option<&Vec<ItemClass>>) -> Option<Seq<ItemClass>> {
    match restrictions {
        Some(v) => Some(v@),
        None => None,
    }
}

/// The item in a slot (as `BuildFacts::get_equipped` gives it), if the attack can use it.
pub fn attack_item<'a>(item: Option<&'a EquippedItem>, restrictions: Option<&Vec<ItemClass>>) -> (r: Option<
    &'a EquippedItem,
>)
    ensures
        r == match item {
            Some(i) => if attack_usable(restriction_view(restrictions), *i) {
                Some(i)
            } else {
                None
            },
            None => None,
        },
{
    let item = match item {
        Some(i) => i,
        None => return None,
    };
    let restrictions = match restrictions {
        Some(r) => r,
        None => return None,
    };
    if restrictions.len() == 0 {
        if !item.is_weapon {
            return None;
        }
    } else {
        let mut k: usize = 0;
        let mut found = false;
        while k < restrictions.len()
            invariant
                k <= restrictions@.len(),
                found == exists|j: int| 0 <= j < k && restrictions@[j] == item.item_class,
            decreases restrictions@.len() - k,
        {
            if restrictions[k] == item.item_class {
                found = true;
            }
            k = k + 1;
        }
        if !found {
            return None;
        }
    }
    Some(item)
}

/// A support gem of a link, as the choice of supports reads it.
#[derive(Debug)]
pub struct SupportCandidate {
    pub id: String,
    pub level: u32,
    /// The gem is enabled and can support the active skill.
    pub usable: bool,
}

/// The support at `i` is the one kept for its id among the first `n`: it is usable, and every
/// other usable support with the same id has a lower level if it comes earlier, and no
/// higher one if it comes later.
pub open spec fn kept_support(c: Seq<SupportCandidate>, n: int, i: int) -> bool {
    &&& 0 <= i < n <= c.len()
    &&& c[i].usable
    &&& forall|j: int|
        0 <= j < n && #[trigger] c[j].usable && c[j].id@ == c[i].id@ ==> (j < i ==> c[j].level < c[i].level) && (j
            > i ==> c[j].level <= c[i].level)
}

/// Whether the support at `i` is the one kept for its id among all the candidates.
fn is_kept(c: &Vec<SupportCandidate>, i: usize) -> (r: bool)
    requires
        i < c@.len(),
    ensures
        r == kept_support(c@, c@.len() as int, i as int),
{
    if !c[i].usable {
        return false;
    }
    let mut j: usize = 0;
    while j < c.len()
        invariant
            i < c@.len(),
            j <= c@.len(),
            c@[i as int].usable,
            forall|j2: int|
                0 <= j2 < j && #[trigger] c@[j2].usable && c@[j2].id@ == c@[i as int].id@ ==> (j2 < i ==> c@[j2].level
                    < c@[i as int].level) && (j2 > i ==> c@[j2].level <= c@[i as int].level),
        decreases c@.len() - j,
    {
        if c[j].usable && str_eq(c[j].id.as_str(), c[i].id.as_str()) {
            if j < i && c[j].level >= c[i].level {
                return false;
            }
            if j > i && c[j].level > c[i].level {
                return false;
            }
        }
        j = j + 1;
    }
    true
}

/// The supports that apply to a skill: for each id, the usable support of the highest level,
/// the first one where levels tie. The positions returned are those of the kept supports.
pub fn best_supports(c: &Vec<SupportCandidate>) -> (r: Vec<usize>)
    ensures
        forall|i: int| 0 <= i < c@.len() ==> (r@.contains(i as usize) <==> kept_support(c@, c@.len() as int, i)),
        forall|p: int| 0 <= p < r@.len() ==> (#[trigger] r@[p]) < c@.len(),
        forall|p: int, q: int| 0 <= p < q < r@.len() ==> c@[r@[p] as int].id@ != c@[r@[q] as int].id@,
{
    let mut r: Vec<usize> = Vec::new();
    let mut k: usize = 0;
    while k < c.len()
        invariant
            k <= c@.len(),
            forall|p: int| 0 <= p < r@.len() ==> (#[trigger] r@[p]) < k && kept_support(c@, c@.len() as int, r@[p] as int),
            forall|p: int, q: int| 0 <= p < q < r@.len() ==> r@[p] < r@[q],
            forall|i: int| 0 <= i < k && #[trigger] kept_support(c@, c@.len() as int, i) ==> r@.contains(i as usize),
        decreases c@.len() - k,
    {
        if is_kept(c, k) {
            let ghost before = r@;
            r.push(k);
            proof {
                assert forall|i: int| 0 <= i < k + 1 && #[trigger] kept_support(c@, c@.len() as int, i) implies r@.contains(
                    i as usize,
                ) by {
                    if i == k {
                        assert(r@[r@.len() - 1] == k);
                    } else {
                        let p = choose|p: int| 0 <= p < before.len() && before[p] == i as usize;
                        assert(r@[p] == before[p]);
                    }
                }
            }
        }
        k = k + 1;
    }
    proof {
        assert forall|i: int| 0 <= i < c@.len() implies (r@.contains(i as usize) <==> kept_support(c@, c@.len() as int, i)) by {
            if r@.contains(i as usize) {
                let p = choose|p: int| 0 <= p < r@.len() && r@[p] == i as usize;
                assert(kept_support(c@, c@.len() as int, r@[p] as int));
            }
        }
        assert forall|p: int, q: int| 0 <= p < q < r@.len() implies c@[r@[p] as int].id@ != c@[r@[q] as int].id@ by {
            if c@[r@[p] as int].id@ == c@[r@[q] as int].id@ {
                lemma_kept_unique(c@, c@.len() as int, r@[p] as int, r@[q] as int);
            }
        }
    }
    r
}

/// Two kept supports with the same id are the same one.
proof fn lemma_kept_unique(c: Seq<SupportCandidate>, n: int, i: int, j: int)
    requires
        kept_support(c, n, i),
        kept_support(c, n, j),
        c[i].id@ == c[j].id@,
    ensures
        i == j,
{
    if i < j {
        assert(c[i].usable);
    } else if j < i {
        assert(c[j].usable);
    }
}

/// A weapon an attack uses, as the time of an attack reads it: the item's attack time
/// (after its local attack speed), and whether its base is a weapon.
pub open spec fn slot_time(s: (Option<i64>, bool), cast_time: Option<i64>) -> Option<int> {
    match s.0 {
        Some(t) => Some(t as int),
        None => if !s.1 && cast_time is Some {
            Some(cast_time->0 as int)
        } else {
            None
        },
    }
}

/// The sum and the number of the times of the first `n` weapons.
pub open spec fn times_sum(slots: Seq<(Option<i64>, bool)>, cast_time: Option<i64>, n: int) -> (int, int)
    decreases n,
{
    if n <= 0 {
        (0, 0)
    } else {
        let (sum, count) = times_sum(slots, cast_time, n - 1);
        match slot_time(slots[n - 1], cast_time) {
            Some(t) => (sum + t, count + 1),
            None => (sum, count),
        }
    }
}

pub open spec fn times_sum_ok(slots: Seq<(Option<i64>, bool)>, cast_time: Option<i64>, n: int) -> bool
    decreases n,
{
    n <= 0 || (times_sum_ok(slots, cast_time, n - 1) && fits(times_sum(slots, cast_time, n).0) && fits(
        times_sum(slots, cast_time, n).1,
    ))
}

/// The time of one use of the skill, in milliseconds: the cast time of a spell divided by
/// cast speed; for an attack, the mean time of the weapons it uses (a weaponless attack
/// taking the cast time) plus added attack time, divided by attack speed; else 0.
pub open spec fn spec_skill_time(
    stats: Stats,
    is_spell: bool,
    is_attack: bool,
    cast_time: Option<i64>,
    slots: Seq<(Option<i64>, bool)>,
) -> int {
    if is_spell {
        match cast_time {
            Some(t) => tdiv(t * 10000, spec_mult(stats.spec_stat(StatId::CastSpeed).nums())),
            None => 0,
        }
    } else if is_attack {
        let (sum, count) = times_sum(slots, cast_time, slots.len() as int);
        if count > 0 {
            let time = tdiv(sum, count) + spec_val(stats.spec_stat(StatId::AddedAttackTime).nums());
            tdiv(time * 10000, spec_mult(stats.spec_stat(StatId::AttackSpeed).nums()))
        } else {
            0
        }
    } else {
        0
    }
}

/// Dividing `a` by the multiplier of `n` stays within `i64`.
pub open spec fn inv_ok(n: crate::stat::StatNums, a: int) -> bool {
    mult_ok(n) && spec_mult(n) != 0 && fits(a * 10000) && !(a * 10000 == i64::MIN && spec_mult(n) == -1)
}

pub open spec fn skill_time_ok(
    stats: Stats,
    is_spell: bool,
    is_attack: bool,
    cast_time: Option<i64>,
    slots: Seq<(Option<i64>, bool)>,
) -> bool {
    let (sum, count) = times_sum(slots, cast_time, slots.len() as int);
    &&& stats.wf()
    &&& is_spell ==> (cast_time matches Some(t) ==> inv_ok(stats.spec_stat(StatId::CastSpeed).nums(), t as int))
    &&& (!is_spell && is_attack) ==> {
        &&& times_sum_ok(slots, cast_time, slots.len() as int)
        &&& count > 0 ==> {
            &&& val100_ok(stats.spec_stat(StatId::AddedAttackTime).nums())
            &&& fits(tdiv(sum, count) + spec_val(stats.spec_stat(StatId::AddedAttackTime).nums()))
            &&& inv_ok(
                stats.spec_stat(StatId::AttackSpeed).nums(),
                tdiv(sum, count) + spec_val(stats.spec_stat(StatId::AddedAttackTime).nums()),
            )
        }
    }
}

/// The time of one use of the skill; `slots` holds the weapons the attack uses.
pub fn skill_time(
    stats: &Stats,
    is_spell: bool,
    is_attack: bool,
    cast_time: Option<i64>,
    slots: &Vec<(Option<i64>, bool)>,
) -> (r: i64)
    requires
        skill_time_ok(*stats, is_spell, is_attack, cast_time, slots@),
    ensures
        r == spec_skill_time(*stats, is_spell, is_attack, cast_time, slots@),
{
    if is_spell {
        match cast_time {
            Some(time) => stats.stat(StatId::CastSpeed).val_custom_inv(time),
            None => 0,
        }
    } else if is_attack {
        let mut div: i64 = 0;
        let mut time: i64 = 0;
        let mut k: usize = 0;
        while k < slots.len()
            invariant
                k <= slots@.len(),
                times_sum_ok(slots@, cast_time, slots@.len() as int),
                (time as int, div as int) == times_sum(slots@, cast_time, k as int),
            decreases slots@.len() - k,
        {
            proof {
                lemma_times_sum_ok_prefix(slots@, cast_time, slots@.len() as int, k + 1);
            }
            let (attack_speed, is_weapon) = slots[k];
            if let Some(item_speed) = attack_speed {
                time = time + item_speed;
                div = div + 1;
            } else if !is_weapon {
                if let Some(cast) = cast_time {
                    time = time + cast;
                    div = div + 1;
                }
            }
            k = k + 1;
        }
        if div > 0 {
            let t = div_pos(time, div) + stats.val(StatId::AddedAttackTime);
            stats.stat(StatId::AttackSpeed).val_custom_inv(t)
        } else {
            0
        }
    } else {
        0
    }
}

pub proof fn lemma_times_sum_ok_prefix(slots: Seq<(Option<i64>, bool)>, cast_time: Option<i64>, n: int, j: int)
    requires
        times_sum_ok(slots, cast_time, n),
        0 <= j <= n,
    ensures
        times_sum_ok(slots, cast_time, j),
    decreases n,
{
    if j < n {
        lemma_times_sum_ok_prefix(slots, cast_time, n - 1, j);
    }
}

/// What the evaluation of a skill gathered, from which its summary is computed.
#[derive(Debug)]
pub struct SkillOutcome {
    /// The average damage of each part of each hit, counting misses and critical strikes.
    pub damage: Vec<i64>,
    /// For each weapon that impales: the damage stored per stack, the critical strike chance
    /// and the chance to hit.
    pub impale_sources: Vec<(i64, i64, i64)>,
    pub bleed_dps: i64,
    /// Poison damage per second, before duration, chance and speed.
    pub poison_dps: i64,
    pub poison_hit_chance: i64,
    pub poison_chance: i64,
    pub crit_multi: i64,
}

/// The sum of the numbers.
pub open spec fn seq_sum(s: Seq<i64>) -> int
    decreases s.len(),
{
    if s.len() == 0 {
        0
    } else {
        seq_sum(s.drop_last()) + s.last()
    }
}

/// Every partial sum stays within `i64`.
pub open spec fn sums_fit(s: Seq<i64>) -> bool
    decreases s.len(),
{
    s.len() == 0 || (sums_fit(s.drop_last()) && fits(seq_sum(s)))
}

pub proof fn lemma_sums_fit_prefix(s: Seq<i64>, k: int)
    requires
        sums_fit(s),
        0 <= k <= s.len(),
    ensures
        sums_fit(s.take(k)),
    decreases s.len(),
{
    if s.len() > 0 {
        if k == s.len() {
            assert(s.take(k) == s);
        } else {
            assert(s.take(k) == s.drop_last().take(k));
            lemma_sums_fit_prefix(s.drop_last(), k);
        }
    }
}

/// The sum of the numbers.
pub fn sum_all(s: &Vec<i64>) -> (r: i64)
    requires
        sums_fit(s@),
    ensures
        r == seq_sum(s@),
{
    let mut total: i64 = 0;
    let mut k: usize = 0;
    while k < s.len()
        invariant
            k <= s@.len(),
            sums_fit(s@),
            total == seq_sum(s@.take(k as int)),
        decreases s@.len() - k,
    {
        proof {
            lemma_sums_fit_prefix(s@, k + 1);
            assert(s@.take(k + 1).drop_last() == s@.take(k as int));
        }
        total = total + s[k];
        k = k + 1;
    }
    assert(s@.take(s@.len() as int) == s@);
    total
}

/// The number of impale stacks, in hundredths, that one use lasts for: at most the maximum
/// stacks, and at most what 8 seconds of uses give.
pub open spec fn stacks100(max_stacks: int, time: int) -> int {
    if max_stacks * 100 < tdiv(800000, time) {
        max_stacks * 100
    } else {
        tdiv(800000, time)
    }
}

/// Computing the physical damage reduction for a hit of `amount` stays within `i64`.
pub open spec fn pdr_ok(amount: int, armour: int, pdr: int) -> bool {
    &&& fits(5 * amount)
    &&& fits(armour + 5 * amount)
    &&& armour + 5 * amount != 0
    &&& fits(armour * 100)
    &&& !(armour * 100 == i64::MIN && armour + 5 * amount == -1)
    &&& fits(spec_pdr_armour(amount, armour, pdr))
}

/// The impale damage of one weapon: its stored damage times the stacks, reduced by armour,
/// counting misses and critical strikes.
pub open spec fn impale_hit(src: (i64, i64, i64), st: int, armour: int, crit_multi: int) -> int {
    let combined = tdiv(src.0 * st, 100);
    let pdr = spec_pdr_armour(combined, armour, 0);
    let mitigated = tdiv(combined * (100 - pdr), 100);
    spec_dmg_crit_accuracy(mitigated, src.1 as int, crit_multi, src.2 as int)
}

pub open spec fn impale_hit_ok(src: (i64, i64, i64), st: int, armour: int, crit_multi: int) -> bool {
    let combined = tdiv(src.0 * st, 100);
    let pdr = spec_pdr_armour(combined, armour, 0);
    let mitigated = tdiv(combined * (100 - pdr), 100);
    &&& fits(src.0 * st)
    &&& pdr_ok(combined, armour, 0)
    &&& fits(100 - pdr)
    &&& fits(combined * (100 - pdr))
    &&& dmg_crit_accuracy_ok(mitigated, src.1 as int, crit_multi, src.2 as int)
}

/// The impale damage of all the weapons.
pub open spec fn impale_sum(s: Seq<(i64, i64, i64)>, st: int, armour: int, crit_multi: int) -> int
    decreases s.len(),
{
    if s.len() == 0 {
        0
    } else {
        impale_sum(s.drop_last(), st, armour, crit_multi) + impale_hit(s.last(), st, armour, crit_multi)
    }
}

pub open spec fn impale_sum_ok(s: Seq<(i64, i64, i64)>, st: int, armour: int, crit_multi: int) -> bool
    decreases s.len(),
{
    s.len() == 0 || (impale_sum_ok(s.drop_last(), st, armour, crit_multi) && impale_hit_ok(
        s.last(),
        st,
        armour,
        crit_multi,
    ) && fits(impale_sum(s, st, armour, crit_multi)))
}

pub proof fn lemma_impale_sum_ok_prefix(s: Seq<(i64, i64, i64)>, st: int, armour: int, crit_multi: int, k: int)
    requires
        impale_sum_ok(s, st, armour, crit_multi),
        0 <= k <= s.len(),
    ensures
        impale_sum_ok(s.take(k), st, armour, crit_multi),
    decreases s.len(),
{
    if s.len() > 0 {
        if k == s.len() {
            assert(s.take(k) == s);
        } else {
            assert(s.take(k) == s.drop_last().take(k));
            lemma_impale_sum_ok_prefix(s.drop_last(), st, armour, crit_multi, k);
        }
    }
}

/// The impale damage of all the weapons, for `st` hundredths of stacks.
fn impale_damage(sources: &Vec<(i64, i64, i64)>, st: i64, armour: i64, crit_multi: i64) -> (r: i64)
    requires
        impale_sum_ok(sources@, st as int, armour as int, crit_multi as int),
    ensures
        r == impale_sum(sources@, st as int, armour as int, crit_multi as int),
{
    let mut total: i64 = 0;
    let mut k: usize = 0;
    while k < sources.len()
        invariant
            k <= sources@.len(),
            impale_sum_ok(sources@, st as int, armour as int, crit_multi as int),
            total == impale_sum(sources@.take(k as int), st as int, armour as int, crit_multi as int),
        decreases sources@.len() - k,
    {
        proof {
            lemma_impale_sum_ok_prefix(sources@, st as int, armour as int, crit_multi as int, k + 1);
            assert(sources@.take(k + 1).drop_last() == sources@.take(k as int));
            assert(sources@.take(k + 1).last() == sources@[k as int]);
        }
        let (stored, crit_chance, chance_to_hit) = sources[k];
        // Armour mitigates the combined stack damage when it's dealt
        let combined = div_pos(stored * st, 100);
        let pdr = physical_damage_reduction_armour(combined, armour, 0);
        let mitigated = div_pos(combined * (100 - pdr), 100);
        total = total + calc_dmg_crit_accuracy(mitigated, crit_chance, crit_multi, chance_to_hit);
        k = k + 1;
    }
    assert(sources@.take(sources@.len() as int) == sources@);
    total
}

/// The report already has a critical strike chance.
pub open spec fn had_crit(r: Seq<(&str, i64)>) -> bool {
    report_get(r, "Crit Chance"@) is Some || report_get(r, "Crit Chance (MH)"@) is Some || report_get(
        r,
        "Crit Chance (OH)"@,
    ) is Some
}

/// The poison duration, in hundredths of seconds.
pub open spec fn poison_duration(stats: Stats) -> int {
    spec_val100(stats.spec_stat(StatId::PoisonDuration).nums())
}

/// The mana cost of the skill.
pub open spec fn mana_cost(stats: Stats) -> int {
    spec_val(assim(stats.spec_stat(StatId::ManaCost).nums(), stats.spec_stat(StatId::Cost).nums()))
}

/// The impale damage per second.
pub open spec fn impale_dps(stats: Stats, o: SkillOutcome, time: int, armour: int) -> int {
    let st = stacks100(spec_val(stats.spec_stat(StatId::MaxImpaleStacks).nums()), time);
    tdiv(impale_sum(o.impale_sources@, st, armour, o.crit_multi as int) * 1000, time)
}

/// Impale damage counts towards damage per second.
pub open spec fn impale_counts(stats: Stats, o: SkillOutcome, time: int, armour: int) -> bool {
    time != 0 && o.impale_sources@.len() > 0 && impale_dps(stats, o, time, armour) > 0
}

/// The poison damage per second: the poison's damage over its duration, times the chance
/// to hit and to poison, per use.
pub open spec fn poison_dps(stats: Stats, o: SkillOutcome, time: int) -> int {
    tdiv(
        o.poison_dps * poison_duration(stats) * o.poison_hit_chance * o.poison_chance,
        time * 100 * 10,
    )
}

/// The value the summary gives `key`, over the report `r` it started from: the averages,
/// costs and rates of the skill, and, when a use takes time, its damage per second.
pub open spec fn summary_entry(
    r: Seq<(&str, i64)>,
    stats: Stats,
    o: SkillOutcome,
    time: int,
    armour: int,
    key: Seq<char>,
) -> Option<i64> {
    let avg = seq_sum(o.damage@);
    let dps = tdiv(avg * 1000, time) + if impale_counts(stats, o, time, armour) {
        impale_dps(stats, o, time, armour)
    } else {
        0
    };
    if time != 0 && o.poison_dps > 0 && key == "Poison DPS"@ {
        Some(poison_dps(stats, o, time) as i64)
    } else if time != 0 && key == "Speed"@ {
        Some(time as i64)
    } else if time != 0 && key == "DPS"@ {
        Some(dps as i64)
    } else if impale_counts(stats, o, time, armour) && key == "Impale DPS"@ {
        Some(impale_dps(stats, o, time, armour) as i64)
    } else if key == "Average Damage"@ {
        Some(avg as i64)
    } else if key == "Mana Cost"@ {
        Some(mana_cost(stats) as i64)
    } else if had_crit(r) && key == "Crit Multi"@ {
        Some(o.crit_multi)
    } else if key == "Poison Duration"@ {
        Some(poison_duration(stats) as i64)
    } else if key == "Bleed DPS"@ {
        Some(o.bleed_dps)
    } else {
        report_get(r, key)
    }
}

/// Everything `summarize_skill` computes stays within `i64`.
pub open spec fn summary_ok(stats: Stats, o: SkillOutcome, time: int, armour: int) -> bool {
    let avg = seq_sum(o.damage@);
    let max_stacks = spec_val(stats.spec_stat(StatId::MaxImpaleStacks).nums());
    let st = stacks100(max_stacks, time);
    let isum = impale_sum(o.impale_sources@, st, armour, o.crit_multi as int);
    let pd = o.poison_dps * poison_duration(stats);
    &&& stats.wf()
    &&& sums_fit(o.damage@)
    &&& val100_ok(stats.spec_stat(StatId::PoisonDuration).nums())
    &&& assim_ok(stats.spec_stat(StatId::ManaCost).nums(), stats.spec_stat(StatId::Cost).nums())
    &&& val100_ok(assim(stats.spec_stat(StatId::ManaCost).nums(), stats.spec_stat(StatId::Cost).nums()))
    &&& time != 0 ==> {
        &&& fits(avg * 1000)
        &&& !(avg * 1000 == i64::MIN && time == -1)
        &&& o.impale_sources@.len() > 0 ==> {
            &&& val100_ok(stats.spec_stat(StatId::MaxImpaleStacks).nums())
            &&& fits(max_stacks * 100)
            &&& impale_sum_ok(o.impale_sources@, st, armour, o.crit_multi as int)
            &&& fits(isum * 1000)
            &&& !(isum * 1000 == i64::MIN && time == -1)
            &&& fits(tdiv(avg * 1000, time) + impale_dps(stats, o, time, armour))
        }
        &&& o.poison_dps > 0 ==> {
            &&& fits(pd)
            &&& fits(pd * o.poison_hit_chance)
            &&& fits(pd * o.poison_hit_chance * o.poison_chance)
            &&& fits(time * 100)
            &&& fits(time * 100 * 10)
            &&& !(pd * o.poison_hit_chance * o.poison_chance == i64::MIN && time * 100 * 10 == -1)
        }
    }
}

/// Adds to the report of a skill its summary: bleed damage, poison duration, critical
/// multiplier (where a critical chance was reported), mana cost, average damage, and, when
/// a use takes time, the damage per second (with impale) and the poison damage per second.
pub fn summarize_skill(
    report: &mut Vec<(&'static str, i64)>,
    stats: &Stats,
    o: &SkillOutcome,
    time: i64,
    armour: i64,
)
    requires
        names_unique(old(report)@),
        summary_ok(*stats, *o, time as int, armour as int),
    ensures
        names_unique(final(report)@),
        forall|k: Seq<char>|
            #[trigger] report_get(final(report)@, k) == summary_entry(
                old(report)@,
                *stats,
                *o,
                time as int,
                armour as int,
                k,
            ),
{
    let ghost r0 = report@;
    report_insert(report, "Bleed DPS", o.bleed_dps);
    let poison_duration = stats.stat(StatId::PoisonDuration).val100();
    report_insert(report, "Poison Duration", poison_duration);

    proof {
        reveal_strlit("Bleed DPS");
        reveal_strlit("Poison Duration");
        reveal_strlit("Crit Chance");
        reveal_strlit("Crit Chance (MH)");
        reveal_strlit("Crit Chance (OH)");
        assert("Crit Chance"@[0] != "Bleed DPS"@[0] && "Crit Chance"@[0] != "Poison Duration"@[0]);
        assert("Crit Chance (MH)"@[0] != "Bleed DPS"@[0] && "Crit Chance (MH)"@[0] != "Poison Duration"@[0]);
        assert("Crit Chance (OH)"@[0] != "Bleed DPS"@[0] && "Crit Chance (OH)"@[0] != "Poison Duration"@[0]);
    }
    let crit = report_value(report, "Crit Chance").is_some() || report_value(report, "Crit Chance (MH)").is_some()
        || report_value(report, "Crit Chance (OH)").is_some();
    if crit {
        report_insert(report, "Crit Multi", o.crit_multi);
    }

    let mut mana_cost_stat = stats.stat(StatId::ManaCost).duplicate();
    mana_cost_stat.assimilate(stats.stat(StatId::Cost));
    report_insert(report, "Mana Cost", mana_cost_stat.val());

    // Both weapons add up, even for skills where they alternate
    let average_damage = sum_all(&o.damage);
    report_insert(report, "Average Damage", average_damage);

    if time != 0 {
        let mut dps = div_t(average_damage * 1000, time);

        if o.impale_sources.len() > 0 {
            let max_stacks = stats.val(StatId::MaxImpaleStacks);
            let a = max_stacks * 100;
            let b = div_t(800000, time);
            let stacks = if a < b { a } else { b };
            let impale_damage = impale_damage(&o.impale_sources, stacks, armour, o.crit_multi);
            let impale = div_t(impale_damage * 1000, time);
            if impale > 0 {
                report_insert(report, "Impale DPS", impale);
                dps = dps + impale;
            }
        }

        report_insert(report, "DPS", dps);
        report_insert(report, "Speed", time);

        if o.poison_dps > 0 {
            let pdps = div_t(o.poison_dps * poison_duration * o.poison_hit_chance * o.poison_chance, time * 100 * 10);
            report_insert(report, "Poison DPS", pdps);
        }
    }
    proof {
        assert(had_crit(r0) == crit);
    }
}

/// The maximum life, rounded.
pub open spec fn max_life(stats: Stats) -> int {
    (spec_val100(stats.spec_stat(StatId::MaximumLife).nums()) + 50) / 100
}

/// The maximum mana, rounded.
pub open spec fn max_mana(stats: Stats) -> int {
    (spec_val100(stats.spec_stat(StatId::MaximumMana).nums()) + 50) / 100
}

/// The numbers of life regeneration: its own, with the percentage of maximum life as base
/// and the regeneration rate as more.
pub open spec fn life_regen_nums(stats: Stats) -> StatNums {
    adjust_nums(
        adjust_nums(
            stats.spec_stat(StatId::LifeRegeneration).nums(),
            Type::Base,
            tdiv(ev(stats, StatId::LifeRegenerationPct) * max_life(stats), 100),
        ),
        Type::More,
        ev(stats, StatId::LifeRegenerationRate),
    )
}

/// Life regenerated per second.
pub open spec fn life_regen(stats: Stats) -> int {
    tdiv(spec_val(life_regen_nums(stats)), 100)
}

/// The numbers of mana regeneration: its own, with the percentage of maximum mana as base
/// and the rate, scaled by maximum mana, as more.
pub open spec fn mana_regen_nums(stats: Stats) -> StatNums {
    adjust_nums(
        adjust_nums(
            stats.spec_stat(StatId::ManaRegeneration).nums(),
            Type::Base,
            tdiv(ev(stats, StatId::ManaRegenerationPct) * max_mana(stats), 10000),
        ),
        Type::More,
        tdiv(ev(stats, StatId::ManaRegenerationRate) * max_mana(stats), 10000),
    )
}

/// Mana regenerated per second.
pub open spec fn mana_regen(stats: Stats) -> int {
    spec_val(mana_regen_nums(stats))
}

/// The value the defence report gives `key`.
pub open spec fn defence_entry(stats: Stats, key: Seq<char>) -> Option<i64> {
    if key == "Mana Regeneration"@ {
        Some(mana_regen(stats) as i64)
    } else if key == "Life Regeneration"@ {
        Some(life_regen(stats) as i64)
    } else if key == "Maximum Spell Block"@ {
        Some(ev(stats, StatId::MaximumChanceToBlockSpellDamage) as i64)
    } else if key == "Maximum Block"@ {
        Some(ev(stats, StatId::MaximumChanceToBlockAttackDamage) as i64)
    } else if key == "Spell Block"@ {
        Some(ev(stats, StatId::ChanceToBlockSpellDamage) as i64)
    } else if key == "Block"@ {
        Some(ev(stats, StatId::ChanceToBlockAttackDamage) as i64)
    } else if key == "Spell Suppression"@ {
        Some(ev(stats, StatId::ChanceToSuppressSpellDamage) as i64)
    } else if key == "Energy Shield"@ {
        Some(ev(stats, StatId::MaximumEnergyShield) as i64)
    } else if key == "Evasion"@ {
        Some(ev(stats, StatId::EvasionRating) as i64)
    } else if key == "Armour"@ {
        Some(ev(stats, StatId::Armour) as i64)
    } else if key == "Intelligence"@ {
        Some(ev(stats, StatId::Intelligence) as i64)
    } else if key == "Dexterity"@ {
        Some(ev(stats, StatId::Dexterity) as i64)
    } else if key == "Strength"@ {
        Some(ev(stats, StatId::Strength) as i64)
    } else if key == "Maximum Chaos Resistance"@ {
        Some(ev(stats, StatId::MaximumChaosResistance) as i64)
    } else if key == "Chaos Resistance"@ {
        Some(ev(stats, StatId::ChaosResistance) as i64)
    } else if key == "Maximum Lightning Resistance"@ {
        Some(ev(stats, StatId::MaximumLightningResistance) as i64)
    } else if key == "Lightning Resistance"@ {
        Some(ev(stats, StatId::LightningResistance) as i64)
    } else if key == "Maximum Cold Resistance"@ {
        Some(ev(stats, StatId::MaximumColdResistance) as i64)
    } else if key == "Cold Resistance"@ {
        Some(ev(stats, StatId::ColdResistance) as i64)
    } else if key == "Maximum Fire Resistance"@ {
        Some(ev(stats, StatId::MaximumFireResistance) as i64)
    } else if key == "Fire Resistance"@ {
        Some(ev(stats, StatId::FireResistance) as i64)
    } else if key == "Maximum Mana"@ {
        Some(max_mana(stats) as i64)
    } else if key == "Maximum Life"@ {
        Some(max_life(stats) as i64)
    } else {
        None
    }
}

/// Each stat line of the defence report shows the value of its own stat: each resistance
/// and its maximum, each attribute, armour, evasion, energy shield, suppression, attack
/// and spell block and their maximums.
pub proof fn law_defence_lines(stats: Stats)
    ensures
        defence_entry(stats, "Fire Resistance"@) == Some(ev(stats, StatId::FireResistance) as i64),
        defence_entry(stats, "Maximum Fire Resistance"@) == Some(ev(stats, StatId::MaximumFireResistance) as i64),
        defence_entry(stats, "Cold Resistance"@) == Some(ev(stats, StatId::ColdResistance) as i64),
        defence_entry(stats, "Maximum Cold Resistance"@) == Some(ev(stats, StatId::MaximumColdResistance) as i64),
        defence_entry(stats, "Lightning Resistance"@) == Some(ev(stats, StatId::LightningResistance) as i64),
        defence_entry(stats, "Maximum Lightning Resistance"@) == Some(ev(stats, StatId::MaximumLightningResistance) as i64),
        defence_entry(stats, "Chaos Resistance"@) == Some(ev(stats, StatId::ChaosResistance) as i64),
        defence_entry(stats, "Maximum Chaos Resistance"@) == Some(ev(stats, StatId::MaximumChaosResistance) as i64),
        defence_entry(stats, "Strength"@) == Some(ev(stats, StatId::Strength) as i64),
        defence_entry(stats, "Dexterity"@) == Some(ev(stats, StatId::Dexterity) as i64),
        defence_entry(stats, "Intelligence"@) == Some(ev(stats, StatId::Intelligence) as i64),
        defence_entry(stats, "Armour"@) == Some(ev(stats, StatId::Armour) as i64),
        defence_entry(stats, "Evasion"@) == Some(ev(stats, StatId::EvasionRating) as i64),
        defence_entry(stats, "Energy Shield"@) == Some(ev(stats, StatId::MaximumEnergyShield) as i64),
        defence_entry(stats, "Spell Suppression"@) == Some(ev(stats, StatId::ChanceToSuppressSpellDamage) as i64),
        defence_entry(stats, "Block"@) == Some(ev(stats, StatId::ChanceToBlockAttackDamage) as i64),
        defence_entry(stats, "Spell Block"@) == Some(ev(stats, StatId::ChanceToBlockSpellDamage) as i64),
        defence_entry(stats, "Maximum Block"@) == Some(ev(stats, StatId::MaximumChanceToBlockAttackDamage) as i64),
        defence_entry(stats, "Maximum Spell Block"@) == Some(ev(stats, StatId::MaximumChanceToBlockSpellDamage) as i64),
{
    reveal_strlit("Mana Regeneration");
    reveal_strlit("Life Regeneration");
    reveal_strlit("Maximum Spell Block");
    reveal_strlit("Maximum Block");
    reveal_strlit("Spell Block");
    reveal_strlit("Block");
    reveal_strlit("Spell Suppression");
    reveal_strlit("Energy Shield");
    reveal_strlit("Evasion");
    reveal_strlit("Armour");
    reveal_strlit("Intelligence");
    reveal_strlit("Dexterity");
    reveal_strlit("Strength");
    reveal_strlit("Maximum Chaos Resistance");
    reveal_strlit("Chaos Resistance");
    reveal_strlit("Maximum Lightning Resistance");
    reveal_strlit("Lightning Resistance");
    reveal_strlit("Maximum Cold Resistance");
    reveal_strlit("Cold Resistance");
    reveal_strlit("Maximum Fire Resistance");
    reveal_strlit("Fire Resistance");
    reveal_strlit("Maximum Mana");
    reveal_strlit("Maximum Life");
    assert("Mana Regeneration"@.len() == 17);
    assert("Life Regeneration"@.len() == 17);
    assert("Maximum Spell Block"@.len() == 19);
    assert("Maximum Block"@.len() == 13);
    assert("Spell Block"@.len() == 11);
    assert("Block"@.len() == 5);
    assert("Spell Suppression"@.len() == 17);
    assert("Energy Shield"@.len() == 13);
    assert("Evasion"@.len() == 7);
    assert("Armour"@.len() == 6);
    assert("Intelligence"@.len() == 12);
    assert("Dexterity"@.len() == 9);
    assert("Strength"@.len() == 8);
    assert("Maximum Chaos Resistance"@.len() == 24);
    assert("Chaos Resistance"@.len() == 16);
    assert("Maximum Lightning Resistance"@.len() == 28);
    assert("Lightning Resistance"@.len() == 20);
    assert("Maximum Cold Resistance"@.len() == 23);
    assert("Cold Resistance"@.len() == 15);
    assert("Maximum Fire Resistance"@.len() == 23);
    assert("Fire Resistance"@.len() == 15);
    assert("Maximum Mana"@.len() == 12);
    assert("Maximum Life"@.len() == 12);
    assert("Mana Regeneration"@[0] != "Life Regeneration"@[0]);
    assert("Mana Regeneration"@[0] != "Spell Suppression"@[0]);
    assert("Life Regeneration"@[0] != "Spell Suppression"@[0]);
    assert("Maximum Block"@[0] != "Energy Shield"@[0]);
    assert("Intelligence"@[0] != "Maximum Mana"@[0]);
    assert("Intelligence"@[0] != "Maximum Life"@[0]);
    assert("Maximum Cold Resistance"@[8] != "Maximum Fire Resistance"@[8]);
    assert("Cold Resistance"@[0] != "Fire Resistance"@[0]);
    assert("Maximum Mana"@[8] != "Maximum Life"@[8]);
}

/// The block lines keep attack and spell block apart: two tables that agree on spell block
/// show the same spell block, and two that agree on attack block show the same block,
/// whatever the other stats hold.
pub proof fn law_block_lines_apart(a: Stats, b: Stats)
    ensures
        a.spec_stat(StatId::ChanceToBlockSpellDamage) == b.spec_stat(StatId::ChanceToBlockSpellDamage)
            ==> defence_entry(a, "Spell Block"@) == defence_entry(b, "Spell Block"@),
        a.spec_stat(StatId::ChanceToBlockAttackDamage) == b.spec_stat(StatId::ChanceToBlockAttackDamage)
            ==> defence_entry(a, "Block"@) == defence_entry(b, "Block"@),
{
    law_defence_lines(a);
    law_defence_lines(b);
}

/// Everything `calc_defence` computes stays within `i64`.
pub open spec fn defence_ok(stats: Stats) -> bool {
    let life_base = adjust_nums(
        stats.spec_stat(StatId::LifeRegeneration).nums(),
        Type::Base,
        tdiv(ev(stats, StatId::LifeRegenerationPct) * max_life(stats), 100),
    );
    let mana_base = adjust_nums(
        stats.spec_stat(StatId::ManaRegeneration).nums(),
        Type::Base,
        tdiv(ev(stats, StatId::ManaRegenerationPct) * max_mana(stats), 10000),
    );
    &&& vals_ok(stats)
    &&& fits(spec_val100(stats.spec_stat(StatId::MaximumLife).nums()) + 50)
    &&& fits(spec_val100(stats.spec_stat(StatId::MaximumMana).nums()) + 50)
    &&& fits(ev(stats, StatId::LifeRegenerationPct) * max_life(stats))
    &&& adjust_ok(stats.spec_stat(StatId::LifeRegeneration).nums(), Type::Base, tdiv(ev(stats, StatId::LifeRegenerationPct) * max_life(stats), 100))
    &&& adjust_ok(life_base, Type::More, ev(stats, StatId::LifeRegenerationRate))
    &&& val100_ok(life_regen_nums(stats))
    &&& fits(ev(stats, StatId::ManaRegenerationPct) * max_mana(stats))
    &&& fits(ev(stats, StatId::ManaRegenerationRate) * max_mana(stats))
    &&& adjust_ok(stats.spec_stat(StatId::ManaRegeneration).nums(), Type::Base, tdiv(ev(stats, StatId::ManaRegenerationPct) * max_mana(stats), 10000))
    &&& adjust_ok(mana_base, Type::More, tdiv(ev(stats, StatId::ManaRegenerationRate) * max_mana(stats), 10000))
    &&& val100_ok(mana_regen_nums(stats))
}

/// The defences of a build, from its evaluated stats: life and mana (rounded), resistances
/// and their maximums, attributes, armour, evasion, energy shield, suppression, block, and
/// life and mana regeneration.
pub fn calc_defence(stats: &Stats) -> (r: Vec<(&'static str, i64)>)
    requires
        defence_ok(*stats),
    ensures
        names_unique(r@),
        forall|k: Seq<char>| #[trigger] report_get(r@, k) == defence_entry(*stats, k),
{
    let mut r: Vec<(&'static str, i64)> = Vec::new();
    let max_life = stats.stat(StatId::MaximumLife).val_rounded();
    let max_mana = stats.stat(StatId::MaximumMana).val_rounded();
    report_insert(&mut r, "Maximum Life", max_life);
    report_insert(&mut r, "Maximum Mana", max_mana);
    report_insert(&mut r, "Fire Resistance", stats.val(StatId::FireResistance));
    report_insert(&mut r, "Maximum Fire Resistance", stats.val(StatId::MaximumFireResistance));
    report_insert(&mut r, "Cold Resistance", stats.val(StatId::ColdResistance));
    report_insert(&mut r, "Maximum Cold Resistance", stats.val(StatId::MaximumColdResistance));
    report_insert(&mut r, "Lightning Resistance", stats.val(StatId::LightningResistance));
    report_insert(&mut r, "Maximum Lightning Resistance", stats.val(StatId::MaximumLightningResistance));
    report_insert(&mut r, "Chaos Resistance", stats.val(StatId::ChaosResistance));
    report_insert(&mut r, "Maximum Chaos Resistance", stats.val(StatId::MaximumChaosResistance));
    report_insert(&mut r, "Strength", stats.val(StatId::Strength));
    report_insert(&mut r, "Dexterity", stats.val(StatId::Dexterity));
    report_insert(&mut r, "Intelligence", stats.val(StatId::Intelligence));
    report_insert(&mut r, "Armour", stats.val(StatId::Armour));
    report_insert(&mut r, "Evasion", stats.val(StatId::EvasionRating));
    report_insert(&mut r, "Energy Shield", stats.val(StatId::MaximumEnergyShield));
    report_insert(&mut r, "Spell Suppression", stats.val(StatId::ChanceToSuppressSpellDamage));
    report_insert(&mut r, "Block", stats.val(StatId::ChanceToBlockAttackDamage));
    report_insert(&mut r, "Spell Block", stats.val(StatId::ChanceToBlockSpellDamage));
    report_insert(&mut r, "Maximum Block", stats.val(StatId::MaximumChanceToBlockAttackDamage));
    report_insert(&mut r, "Maximum Spell Block", stats.val(StatId::MaximumChanceToBlockSpellDamage));

    let mut life_regen = stats.stat(StatId::LifeRegeneration).duplicate();
    life_regen.adjust(Type::Base, div_pos(stats.val(StatId::LifeRegenerationPct) * max_life, 100));
    life_regen.adjust(Type::More, stats.val(StatId::LifeRegenerationRate));
    report_insert(&mut r, "Life Regeneration", div_pos(life_regen.val(), 100));

    let mut mana_regen = stats.stat(StatId::ManaRegeneration).duplicate();
    mana_regen.adjust(Type::Base, div_pos(stats.val(StatId::ManaRegenerationPct) * max_mana, 10000));
    mana_regen.adjust(Type::More, div_pos(stats.val(StatId::ManaRegenerationRate) * max_mana, 10000));
    report_insert(&mut r, "Mana Regeneration", mana_regen.val());
    r
}

} // verus!
