use vstd::prelude::*;
use crate::arith::{div_pos, div_t, fits, tdiv};
use crate::base_item::ItemClass;
use crate::flags::spec_contains;
use crate::modifier::{Mod, ModEffect, Type};
use crate::stat_id::{stat_at, StatId, STAT_COUNT};

verus! {

/// The numbers a stat accumulates from its modifiers.
pub ghost struct StatNums {
    pub base: int,
    pub flat: int,
    pub inc: int,
    pub more: int,
    pub overrid: Option<int>,
}

/// The numbers of a stat no modifier has touched.
pub open spec fn default_nums() -> StatNums {
    StatNums { base: 0, flat: 0, inc: 0, more: 100, overrid: None }
}

/// The numbers after adding `amount` of type `t`: base, flat and increased amounts add up,
/// "more" amounts multiply (as percentages, truncated), and the lowest override wins.
pub open spec fn adjust_nums(n: StatNums, t: Type, amount: int) -> StatNums {
    match t {
        Type::Base => StatNums { base: n.base + amount, ..n },
        Type::Flat => StatNums { flat: n.flat + amount, ..n },
        Type::Inc => StatNums { inc: n.inc + amount, ..n },
        Type::More => StatNums { more: tdiv(n.more * (100 + amount), 100), ..n },
        Type::Override => StatNums {
            overrid: match n.overrid {
                Some(e) => if amount < e {
                    Some(amount)
                } else {
                    Some(e)
                },
                None => Some(amount),
            },
            ..n
        },
    }
}

/// Adding `amount` of type `t` stays within `i64`.
pub open spec fn adjust_ok(n: StatNums, t: Type, amount: int) -> bool {
    match t {
        Type::Base => fits(n.base + amount),
        Type::Flat => fits(n.flat + amount),
        Type::Inc => fits(n.inc + amount),
        Type::More => fits(100 + amount) && fits(n.more * (100 + amount)),
        Type::Override => true,
    }
}

/// The numbers after applying a modifier: stat modifiers adjust, others change nothing.
pub open spec fn mod_nums(n: StatNums, m: Mod) -> StatNums {
    match m.effect {
        ModEffect::Stat(s) => adjust_nums(n, s.typ, s.spec_final_amount() as int),
        _ => n,
    }
}

pub open spec fn mod_ok(n: StatNums, m: Mod) -> bool {
    match m.effect {
        ModEffect::Stat(s) => adjust_ok(n, s.typ, s.spec_final_amount() as int),
        _ => true,
    }
}

/// The numbers after applying, in order, the modifiers of `mods` that `pred` selects.
pub open spec fn fold_mods(n: StatNums, mods: Seq<Mod>, pred: spec_fn(Mod) -> bool) -> StatNums
    decreases mods.len(),
{
    if mods.len() == 0 {
        n
    } else {
        let p = fold_mods(n, mods.drop_last(), pred);
        if pred(mods.last()) {
            mod_nums(p, mods.last())
        } else {
            p
        }
    }
}

/// No step of `fold_mods` leaves `i64`.
pub open spec fn fold_ok(n: StatNums, mods: Seq<Mod>, pred: spec_fn(Mod) -> bool) -> bool
    decreases mods.len(),
{
    if mods.len() == 0 {
        true
    } else {
        fold_ok(n, mods.drop_last(), pred) && (pred(mods.last()) ==> mod_ok(
            fold_mods(n, mods.drop_last(), pred),
            mods.last(),
        ))
    }
}

/// The modifiers of `mods` that `pred` selects, in order.
pub open spec fn filter_mods(mods: Seq<Mod>, pred: spec_fn(Mod) -> bool) -> Seq<Mod>
    decreases mods.len(),
{
    if mods.len() == 0 {
        seq![]
    } else {
        let p = filter_mods(mods.drop_last(), pred);
        if pred(mods.last()) {
            p.push(mods.last())
        } else {
            p
        }
    }
}

/// The two sequences hold modifiers with the same values, position by position.
pub open spec fn same_mods(a: Seq<Mod>, b: Seq<Mod>) -> bool {
    &&& a.len() == b.len()
    &&& forall|i: int| 0 <= i < a.len() ==> (#[trigger] a[i]).same(b[i])
}

/// Selects the stat modifiers of stat `id`.
pub open spec fn for_stat(id: StatId) -> spec_fn(Mod) -> bool {
    |m: Mod| m.effect matches ModEffect::Stat(s) && s.stat == id
}

/// Selects the modifiers that apply with `weapon` wielded: those that need no weapon,
/// and those that accept the weapon's class.
pub open spec fn for_weapon(weapon: Option<ItemClass>) -> spec_fn(Mod) -> bool {
    |m: Mod|
        m.weapons == 0 || (weapon matches Some(w) && spec_contains(m.weapons, w.spec_bit()))
}

/// Selects the modifiers carrying every tag of `tags`.
pub open spec fn for_tags(tags: u64) -> spec_fn(Mod) -> bool {
    |m: Mod| spec_contains(m.tags, tags)
}

/// The multiplier of increased and more amounts, in ten-thousandths.
pub open spec fn spec_mult(n: StatNums) -> int {
    (100 + n.inc) * n.more
}

pub open spec fn mult_ok(n: StatNums) -> bool {
    fits(100 + n.inc) && fits(spec_mult(n))
}

/// The value of the stat, in hundredths: the override when there is one, else the scaled
/// base plus the flat amount.
pub open spec fn spec_val100(n: StatNums) -> int {
    match n.overrid {
        Some(o) => o * 100,
        None => tdiv(n.base * spec_mult(n), 100) + n.flat * 100,
    }
}

pub open spec fn val100_ok(n: StatNums) -> bool {
    match n.overrid {
        Some(o) => fits(o * 100),
        None => mult_ok(n) && fits(n.base * spec_mult(n)) && fits(n.flat * 100) && fits(
            tdiv(n.base * spec_mult(n), 100) + n.flat * 100,
        ),
    }
}

/// `x` scaled by the multiplier `mult`.
pub open spec fn scaled(x: int, mult: int) -> int {
    tdiv(x * mult, 10000)
}

/// `r` is what reverting `val` gives under the multiplier `mult`: the least value, from
/// `val` divided by the multiplier upward, that the multiplier scales back to at least
/// `val`.
pub open spec fn is_revert(mult: int, val: int, r: int) -> bool {
    &&& scaled(r, mult) >= val
    &&& r >= tdiv(val * 10000, mult)
    &&& forall|x: int| tdiv(val * 10000, mult) <= x < r ==> #[trigger] scaled(x, mult) < val
}

/// Reverting a value that is not negative gives the least value that is not negative and
/// that the multiplier scales back to at least the value.
pub proof fn law_revert_least(mult: int, val: int, r: int)
    requires
        mult > 0,
        val >= 0,
        is_revert(mult, val, r),
    ensures
        r >= 0,
        scaled(r, mult) >= val,
        forall|x: int| 0 <= x < r ==> #[trigger] scaled(x, mult) < val,
{
    let start = tdiv(val * 10000, mult);
    assert(start >= 0) by (nonlinear_arith)
        requires val >= 0, mult > 0, start == (val * 10000) / mult;
    assert forall|x: int| 0 <= x < r implies #[trigger] scaled(x, mult) < val by {
        if x < start {
            assert(x * mult < val * 10000 && x * mult >= 0) by (nonlinear_arith)
                requires 0 <= x < start, mult > 0, val >= 0, start == (val * 10000) / mult;
            assert((x * mult) / 10000 < val) by (nonlinear_arith)
                requires 0 <= x * mult < val * 10000;
        }
    }
}

/// With a multiplier of at least 100%, reverting the value a multiplier gives to a value
/// that is not negative gives that value back.
pub proof fn law_revert_round_trip(mult: int, x: int, r: int)
    requires
        mult >= 10000,
        x >= 0,
        is_revert(mult, scaled(x, mult), r),
    ensures
        r == x,
{
    let v = scaled(x, mult);
    assert(v >= 0) by (nonlinear_arith)
        requires x >= 0, mult >= 10000, v == (x * mult) / 10000;
    law_revert_least(mult, v, r);
    if r > x {
        assert(scaled(x, mult) < v);
    } else if r < x {
        assert(r * mult <= x * mult - 10000) by (nonlinear_arith)
            requires 0 <= r < x, mult >= 10000;
        assert((r * mult) / 10000 < (x * mult) / 10000) by (nonlinear_arith)
            requires 0 <= r * mult <= x * mult - 10000;
        assert(r * mult >= 0) by (nonlinear_arith)
            requires r >= 0, mult >= 10000;
    }
}

/// The value of the stat, truncated.
pub open spec fn spec_val(n: StatNums) -> int {
    tdiv(spec_val100(n), 100)
}

/// A stat: its accumulated numbers and the modifiers that made them.
#[derive(Debug)]
pub struct Stat {
    pub base: i64,
    pub flat: i64,
    pub inc: i64,
    pub more: i64,
    pub overrid: Option<i64>,
    pub mods: Vec<Mod>,
    pub mods_disabled: Vec<Mod>,
}

impl Stat {
    pub open spec fn nums(&self) -> StatNums {
        StatNums {
            base: self.base as int,
            flat: self.flat as int,
            inc: self.inc as int,
            more: self.more as int,
            overrid: match self.overrid {
                Some(o) => Some(o as int),
                None => None,
            },
        }
    }

    pub fn new() -> (s: Stat)
        ensures
            s.nums() == default_nums(),
            s.mods@.len() == 0,
            s.mods_disabled@.len() == 0,
    {
        Stat { base: 0, flat: 0, inc: 0, more: 100, overrid: None, mods: Vec::new(), mods_disabled: Vec::new() }
    }

    /// A copy with the same numbers and modifiers.
    pub fn duplicate(&self) -> (r: Stat)
        ensures
            r.nums() == self.nums(),
            same_mods(r.mods@, self.mods@),
            same_mods(r.mods_disabled@, self.mods_disabled@),
    {
        Stat {
            base: self.base,
            flat: self.flat,
            inc: self.inc,
            more: self.more,
            overrid: self.overrid,
            mods: duplicate_mods(&self.mods),
            mods_disabled: duplicate_mods(&self.mods_disabled),
        }
    }

    /// Adds `amount` of type `t`.
    pub fn adjust(&mut self, t: Type, amount: i64)
        requires
            adjust_ok(old(self).nums(), t, amount as int),
        ensures
            final(self).nums() == adjust_nums(old(self).nums(), t, amount as int),
            final(self).mods == old(self).mods,
            final(self).mods_disabled == old(self).mods_disabled,
    {
        match t {
            Type::Base => self.base = self.base + amount,
            Type::Flat => self.flat = self.flat + amount,
            Type::Inc => self.inc = self.inc + amount,
            Type::More => self.more = div_pos(self.more * (100 + amount), 100),
            Type::Override => {
                if let Some(existing_override) = self.overrid {
                    // Keep the lowest override
                    if amount < existing_override {
                        self.overrid = Some(amount);
                    }
                } else {
                    self.overrid = Some(amount);
                }
            },
        }
    }

    /// Applies a modifier and records a copy of it.
    pub fn adjust_mod(&mut self, m: &Mod)
        requires
            mod_ok(old(self).nums(), *m),
        ensures
            final(self).nums() == mod_nums(old(self).nums(), *m),
            final(self).mods@.len() == old(self).mods@.len() + 1,
            final(self).mods@.drop_last() == old(self).mods@,
            final(self).mods@.last().same(*m),
            final(self).mods_disabled == old(self).mods_disabled,
    {
        if let Some(stat) = m.as_stat() {
            self.adjust(stat.typ, stat.final_amount());
        }
        self.mods.push(m.duplicate());
        assert(self.mods@.drop_last() == old(self).mods@);
    }

    /// Applies a modifier and records it.
    pub fn adjust_mod_move(&mut self, m: Mod)
        requires
            mod_ok(old(self).nums(), m),
        ensures
            final(self).nums() == mod_nums(old(self).nums(), m),
            final(self).mods@ == old(self).mods@.push(m),
            final(self).mods_disabled == old(self).mods_disabled,
    {
        if let Some(stat) = m.as_stat() {
            self.adjust(stat.typ, stat.final_amount());
        }
        self.mods.push(m);
    }

    /// The multiplier of increased and more amounts, in ten-thousandths.
    pub fn mult(&self) -> (r: i64)
        requires
            mult_ok(self.nums()),
        ensures
            r == spec_mult(self.nums()),
    {
        (100 + self.inc) * self.more
    }

    /// `amount` scaled by the multiplier.
    pub fn mult_amount(&self, amount: i64) -> (r: i64)
        requires
            mult_ok(self.nums()),
            fits(amount * spec_mult(self.nums())),
        ensures
            r == tdiv(amount * spec_mult(self.nums()), 10000),
    {
        div_pos(amount * self.mult(), 10000)
    }

    /// The value in hundredths.
    pub fn val100(&self) -> (r: i64)
        requires
            val100_ok(self.nums()),
        ensures
            r == spec_val100(self.nums()),
    {
        if let Some(overrid) = self.overrid {
            overrid * 100
        } else {
            div_pos(self.base * self.mult(), 100) + (self.flat * 100)
        }
    }

    /// The stat recomputed from the recorded modifiers that apply with `weapon` wielded.
    pub fn with_weapon(&self, weapon: Option<ItemClass>) -> (r: Stat)
        requires
            fold_ok(default_nums(), self.mods@, for_weapon(weapon)),
        ensures
            r.nums() == fold_mods(default_nums(), self.mods@, for_weapon(weapon)),
            same_mods(r.mods@, filter_mods(self.mods@, for_weapon(weapon))),
            r.mods_disabled@.len() == 0,
    {
        let mut stat = Stat::new();
        let ghost pred = for_weapon(weapon);
        let mut i: usize = 0;
        while i < self.mods.len()
            invariant
                i <= self.mods@.len(),
                pred == for_weapon(weapon),
                fold_ok(default_nums(), self.mods@, pred),
                stat.nums() == fold_mods(default_nums(), self.mods@.take(i as int), pred),
                same_mods(stat.mods@, filter_mods(self.mods@.take(i as int), pred)),
                stat.mods_disabled@.len() == 0,
            decreases self.mods@.len() - i,
        {
            let m = &self.mods[i];
            proof {
                assert(self.mods@.take(i + 1).drop_last() == self.mods@.take(i as int));
                lemma_fold_ok_prefix(default_nums(), self.mods@, pred, i + 1);
            }
            let keep = m.weapons == 0 || match weapon {
                Some(w) => m.weapons & w.bit() == w.bit(),
                None => false,
            };
            let ghost prev = stat.mods@;
            let ghost fprev = filter_mods(self.mods@.take(i as int), pred);
            if keep {
                stat.adjust_mod(m);
                proof {
                    lemma_same_mods_push(prev, fprev, stat.mods@.last(), *m);
                    assert(stat.mods@ == prev.push(stat.mods@.last()));
                }
            }
            i = i + 1;
        }
        assert(self.mods@.take(self.mods@.len() as int) == self.mods@);
        stat
    }

    /// The stat recomputed from the recorded modifiers, enabled then disabled, that carry
    /// every tag of `tags`.
    pub fn with_tags(&self, tags: u64) -> (r: Stat)
        requires
            fold_ok(default_nums(), self.mods@ + self.mods_disabled@, for_tags(tags)),
        ensures
            r.nums() == fold_mods(default_nums(), self.mods@ + self.mods_disabled@, for_tags(tags)),
            same_mods(r.mods@, filter_mods(self.mods@ + self.mods_disabled@, for_tags(tags))),
            r.mods_disabled@.len() == 0,
    {
        let mut stat = Stat::new();
        let ghost pred = for_tags(tags);
        let ghost all = self.mods@ + self.mods_disabled@;
        let n1 = self.mods.len();
        let mut i: usize = 0;
        proof {
            lemma_fold_ok_prefix(default_nums(), all, pred, n1 as int);
            assert(all.take(n1 as int) == self.mods@);
        }
        while i < n1
            invariant
                n1 == self.mods@.len(),
                all == self.mods@ + self.mods_disabled@,
                i <= n1,
                pred == for_tags(tags),
                fold_ok(default_nums(), all, pred),
                stat.nums() == fold_mods(default_nums(), all.take(i as int), pred),
                same_mods(stat.mods@, filter_mods(all.take(i as int), pred)),
                stat.mods_disabled@.len() == 0,
            decreases n1 - i,
        {
            let m = &self.mods[i];
            proof {
                assert(*m == all[i as int]);
                assert(all.take(i + 1).drop_last() == all.take(i as int));
                lemma_fold_ok_prefix(default_nums(), all, pred, i + 1);
            }
            let ghost prev = stat.mods@;
            let ghost fprev = filter_mods(all.take(i as int), pred);
            if m.tags & tags == tags {
                stat.adjust_mod(m);
                proof {
                    lemma_same_mods_push(prev, fprev, stat.mods@.last(), *m);
                    assert(stat.mods@ == prev.push(stat.mods@.last()));
                }
            }
            i = i + 1;
        }
        let mut k: usize = 0;
        while k < self.mods_disabled.len()
            invariant
                n1 == self.mods@.len(),
                all == self.mods@ + self.mods_disabled@,
                k <= self.mods_disabled@.len(),
                pred == for_tags(tags),
                fold_ok(default_nums(), all, pred),
                stat.nums() == fold_mods(default_nums(), all.take(n1 + k), pred),
                same_mods(stat.mods@, filter_mods(all.take(n1 + k), pred)),
                stat.mods_disabled@.len() == 0,
            decreases self.mods_disabled@.len() - k,
        {
            let m = &self.mods_disabled[k];
            proof {
                assert(*m == all[n1 + k]);
                assert(all.take(n1 + k + 1).drop_last() == all.take(n1 + k));
                lemma_fold_ok_prefix(default_nums(), all, pred, n1 + k + 1);
            }
            let ghost prev = stat.mods@;
            let ghost fprev = filter_mods(all.take(n1 + k), pred);
            if m.tags & tags == tags {
                stat.adjust_mod(m);
                proof {
                    lemma_same_mods_push(prev, fprev, stat.mods@.last(), *m);
                    assert(stat.mods@ == prev.push(stat.mods@.last()));
                }
            }
            k = k + 1;
        }
        assert(all.take(all.len() as int) == all);
        stat
    }

    /// The value, truncated.
    pub fn val(&self) -> (r: i64)
        requires
            val100_ok(self.nums()),
        ensures
            r == spec_val(self.nums()),
    {
        div_pos(self.val100(), 100)
    }

    /// The value, rounded up: the smallest whole number at least the value.
    pub fn val_ceil(&self) -> (r: i64)
        requires
            val100_ok(self.nums()),
            fits(spec_val100(self.nums()) + 99),
        ensures
            r == (spec_val100(self.nums()) + 99) / 100,
            r * 100 >= spec_val100(self.nums()),
            (r - 1) * 100 < spec_val100(self.nums()),
    {
        let x = self.val100() + 99;
        match x.checked_div_euclid(100) {
            Some(q) => q,
            None => 0,
        }
    }

    /// The value, rounded to the nearest whole number, a half rounding up.
    pub fn val_rounded(&self) -> (r: i64)
        requires
            val100_ok(self.nums()),
            fits(spec_val100(self.nums()) + 50),
        ensures
            r == (spec_val100(self.nums()) + 50) / 100,
            r * 100 <= spec_val100(self.nums()) + 50,
            spec_val100(self.nums()) + 50 < r * 100 + 100,
    {
        let x = self.val100() + 50;
        match x.checked_div_euclid(100) {
            Some(q) => q,
            None => 0,
        }
    }

    /// Takes in another stat's base, increased and more amounts, and its modifiers.
    pub fn assimilate(&mut self, stat: &Stat)
        requires
            fits(old(self).base + stat.base),
            fits(old(self).inc + stat.inc),
            fits(old(self).more * stat.more),
        ensures
            final(self).nums() == (StatNums {
                base: old(self).base + stat.base,
                inc: old(self).inc + stat.inc,
                more: tdiv(old(self).more * stat.more, 100),
                ..old(self).nums()
            }),
            final(self).mods@.len() == old(self).mods@.len() + stat.mods@.len(),
            final(self).mods@.take(old(self).mods@.len() as int) == old(self).mods@,
            same_mods(final(self).mods@.skip(old(self).mods@.len() as int), stat.mods@),
            final(self).mods_disabled == old(self).mods_disabled,
    {
        self.base = self.base + stat.base;
        self.inc = self.inc + stat.inc;
        self.more = div_pos(self.more * stat.more, 100);
        let ghost start = self.mods@;
        let mut i: usize = 0;
        while i < stat.mods.len()
            invariant
                i <= stat.mods@.len(),
                self.mods@.len() == start.len() + i,
                self.mods@.take(start.len() as int) == start,
                forall|j: int|
                    0 <= j < i ==> (#[trigger] self.mods@[start.len() + j]).same(stat.mods@[j]),
                self.nums() == (StatNums {
                    base: old(self).base + stat.base,
                    inc: old(self).inc + stat.inc,
                    more: tdiv(old(self).more * stat.more, 100),
                    ..old(self).nums()
                }),
                self.mods_disabled == old(self).mods_disabled,
                start == old(self).mods@,
            decreases stat.mods@.len() - i,
        {
            self.mods.push(stat.mods[i].duplicate());
            i = i + 1;
            assert(self.mods@.take(start.len() as int) == start);
        }
        assert forall|j: int|
            0 <= j < stat.mods@.len() implies (#[trigger] self.mods@.skip(start.len() as int)[j]).same(
            stat.mods@[j],
        ) by {
            assert(self.mods@.skip(start.len() as int)[j] == self.mods@[start.len() + j]);
        }
    }

    /// `val` scaled by the multiplier.
    pub fn val_custom(&self, val: i64) -> (r: i64)
        requires
            mult_ok(self.nums()),
            fits(val * spec_mult(self.nums())),
        ensures
            r == tdiv(val * spec_mult(self.nums()), 10000),
    {
        div_pos(val * self.mult(), 10000)
    }

    /// `val` divided by the multiplier.
    pub fn val_custom_inv(&self, val: i64) -> (r: i64)
        requires
            mult_ok(self.nums()),
            spec_mult(self.nums()) != 0,
            fits(val * 10000),
            !(val * 10000 == i64::MIN && spec_mult(self.nums()) == -1),
        ensures
            r == tdiv(val * 10000, spec_mult(self.nums())),
    {
        div_t(val * 10000, self.mult())
    }

    /// The least value, from `val` divided by the multiplier upward, that the multiplier
    /// scales back to at least `val`: the best guess at the value before multipliers.
    pub fn revert(&self, val: i64) -> (r: i64)
        requires
            mult_ok(self.nums()),
            spec_mult(self.nums()) > 0,
            fits(val * 10000),
            (if val >= 0 { val * 10000 } else { 0 }) + spec_mult(self.nums()) <= i64::MAX,
        ensures
            is_revert(spec_mult(self.nums()), val as int, r as int),
    {
        let mult = self.mult();
        let mut original_val = div_pos(val * 10000, mult);
        let ghost start = original_val as int;
        proof {
            lemma_revert_bounds(val as int, mult as int, start);
        }
        while div_pos(original_val * mult, 10000) < val
            invariant
                mult == spec_mult(self.nums()),
                mult > 0,
                start == tdiv(val * 10000, mult as int),
                start <= original_val <= start + 1,
                fits(start * mult),
                fits((start + 1) * mult),
                tdiv((start + 1) * mult, 10000) >= val,
                forall|x: int| start <= x < original_val ==> #[trigger] scaled(x, mult as int) < val,
            decreases start + 1 - original_val,
        {
            original_val += 1;
        }
        original_val
    }

    /// Records a modifier that does not apply, for `with_tags`.
    pub fn add_mod_disabled(&mut self, m: &Mod)
        ensures
            final(self).mods_disabled@.len() == old(self).mods_disabled@.len() + 1,
            final(self).mods_disabled@.drop_last() == old(self).mods_disabled@,
            final(self).mods_disabled@.last().same(*m),
            final(self).nums() == old(self).nums(),
            final(self).mods == old(self).mods,
    {
        self.mods_disabled.push(m.duplicate());
        assert(self.mods_disabled@.drop_last() == old(self).mods_disabled@);
    }
}

/// Dividing by a positive multiplier and scaling back overshoots by less than one step.
pub proof fn lemma_revert_bounds(val: int, mult: int, start: int)
    requires
        mult > 0,
        fits(val * 10000),
        (if val >= 0 { val * 10000 } else { 0 }) + mult <= i64::MAX,
        start == tdiv(val * 10000, mult),
    ensures
        fits(start * mult),
        fits((start + 1) * mult),
        tdiv((start + 1) * mult, 10000) >= val,
{
    let v = val * 10000;
    if v >= 0 {
        assert(0 <= start * mult <= v && (start + 1) * mult > v) by (nonlinear_arith)
            requires
                v >= 0,
                mult > 0,
                start == v / mult,
        ;
    } else {
        assert(v <= start * mult <= 0 && (start + 1) * mult > v) by (nonlinear_arith)
            requires
                v < 0,
                mult > 0,
                start == -((-v) / mult),
        ;
    }
    assert((start + 1) * mult == start * mult + mult) by (nonlinear_arith);
    let p = (start + 1) * mult;
    assert(p >= v + 1);
    if p >= 0 {
        assert(p / 10000 >= val) by (nonlinear_arith)
            requires
                p >= 0,
                p >= val * 10000 + 1,
        ;
    } else {
        assert(-((-p) / 10000) >= val) by (nonlinear_arith)
            requires
                p < 0,
                p >= val * 10000 + 1,
        ;
    }
}

/// Copies of the modifiers, in order.
pub fn duplicate_mods(mods: &Vec<Mod>) -> (r: Vec<Mod>)
    ensures
        same_mods(r@, mods@),
{
    let mut r: Vec<Mod> = Vec::new();
    let mut i: usize = 0;
    while i < mods.len()
        invariant
            i <= mods@.len(),
            r@.len() == i,
            forall|j: int| 0 <= j < i ==> (#[trigger] r@[j]).same(mods@[j]),
        decreases mods@.len() - i,
    {
        r.push(mods[i].duplicate());
        i = i + 1;
    }
    r
}

impl Clone for Stat {
    fn clone(&self) -> (r: Self)
        ensures
            r.nums() == self.nums(),
            same_mods(r.mods@, self.mods@),
            same_mods(r.mods_disabled@, self.mods_disabled@),
    {
        self.duplicate()
    }
}

/// Appending modifiers with the same values keeps two sequences alike.
pub proof fn lemma_same_mods_push(a: Seq<Mod>, b: Seq<Mod>, x: Mod, y: Mod)
    requires
        same_mods(a, b),
        x.same(y),
    ensures
        same_mods(a.push(x), b.push(y)),
{
    assert forall|i: int| 0 <= i < a.len() + 1 implies (#[trigger] a.push(x)[i]).same(b.push(y)[i]) by {
        if i < a.len() {
            assert(a.push(x)[i] == a[i]);
            assert(b.push(y)[i] == b[i]);
        }
    }
}

/// A prefix of a fold that stays within `i64` stays within it too.
pub proof fn lemma_fold_ok_prefix(n: StatNums, mods: Seq<Mod>, pred: spec_fn(Mod) -> bool, k: int)
    requires
        fold_ok(n, mods, pred),
        0 <= k <= mods.len(),
    ensures
        fold_ok(n, mods.take(k), pred),
        k > 0 ==> (pred(mods[k - 1]) ==> mod_ok(fold_mods(n, mods.take(k - 1), pred), mods[k - 1])),
    decreases mods.len(),
{
    if mods.len() > 0 {
        if k == mods.len() {
            assert(mods.take(k) == mods);
            assert(mods.take(k - 1) == mods.drop_last());
        } else {
            assert(mods.take(k) == mods.drop_last().take(k));
            if k > 0 {
                assert(mods.take(k - 1) == mods.drop_last().take(k - 1));
            }
            lemma_fold_ok_prefix(n, mods.drop_last(), pred, k);
        }
    }
}


/// The stat built from the stat modifiers of `stat_id` in `mods`, in order.
/// Mutations, conditions and tags are not taken into account.
pub fn calc_stat(stat_id: StatId, mods: &[Mod]) -> (r: Stat)
    requires
        fold_ok(default_nums(), mods@, for_stat(stat_id)),
    ensures
        r.nums() == fold_mods(default_nums(), mods@, for_stat(stat_id)),
        same_mods(r.mods@, filter_mods(mods@, for_stat(stat_id))),
        r.mods_disabled@.len() == 0,
{
    let mut stat = Stat::new();
    let ghost pred = for_stat(stat_id);
    let mut i: usize = 0;
    while i < mods.len()
        invariant
            i <= mods@.len(),
            pred == for_stat(stat_id),
            fold_ok(default_nums(), mods@, pred),
            stat.nums() == fold_mods(default_nums(), mods@.take(i as int), pred),
            same_mods(stat.mods@, filter_mods(mods@.take(i as int), pred)),
            stat.mods_disabled@.len() == 0,
        decreases mods@.len() - i,
    {
        let m = &mods[i];
        proof {
            assert(mods@.take(i + 1).drop_last() == mods@.take(i as int));
            lemma_fold_ok_prefix(default_nums(), mods@, pred, i + 1);
        }
        let keep = match &m.effect {
            ModEffect::Stat(s) => s.stat == stat_id,
            _ => false,
        };
        let ghost prev = stat.mods@;
        let ghost fprev = filter_mods(mods@.take(i as int), pred);
        if keep {
            stat.adjust_mod(m);
            proof {
                lemma_same_mods_push(prev, fprev, stat.mods@.last(), *m);
                assert(stat.mods@ == prev.push(stat.mods@.last()));
            }
        }
        i = i + 1;
    }
    assert(mods@.take(mods@.len() as int) == mods@);
    stat
}

/// A table of stats, one per stat id, at the id's position.
#[derive(Debug)]
pub struct Stats {
    pub stats: Vec<Stat>,
}

impl Stats {
    /// The table has one entry per stat.
    pub open spec fn wf(&self) -> bool {
        self.stats@.len() == STAT_COUNT
    }

    /// The entry of stat `s`.
    pub open spec fn spec_stat(&self, s: StatId) -> Stat {
        self.stats@[s.index() as int]
    }

    /// A table where no modifier has touched any stat.
    pub fn new() -> (r: Stats)
        ensures
            r.wf(),
            forall|s: StatId| #[trigger] r.spec_stat(s).nums() == default_nums() && r.spec_stat(s).mods@.len() == 0,
    {
        let mut stats: Vec<Stat> = Vec::new();
        let mut i: usize = 0;
        while i < STAT_COUNT
            invariant
                i <= STAT_COUNT,
                stats@.len() == i,
                forall|j: int| 0 <= j < i ==> (#[trigger] stats@[j]).nums() == default_nums() && stats@[j].mods@.len() == 0,
            decreases STAT_COUNT - i,
        {
            stats.push(Stat::new());
            i = i + 1;
        }
        let r = Stats { stats };
        assert forall|s: StatId| #[trigger] r.spec_stat(s).nums() == default_nums() && r.spec_stat(s).mods@.len() == 0 by {
            crate::stat_id::law_index_roundtrip(s);
        }
        r
    }

    /// The entry of stat `s`.
    pub fn stat(&self, s: StatId) -> (r: &Stat)
        requires
            self.wf(),
        ensures
            *r == self.spec_stat(s),
    {
        &self.stats[s.as_usize()]
    }

    /// The value of stat `s`, truncated.
    pub fn val(&self, s: StatId) -> (r: i64)
        requires
            self.wf(),
            val100_ok(self.spec_stat(s).nums()),
        ensures
            r == spec_val(self.spec_stat(s).nums()),
    {
        self.stats[s.as_usize()].val()
    }
}

/// The table of stats built from `mods`: each entry as `calc_stat` builds it.
/// Mutations, conditions and tags are not taken into account.
pub fn calc_stats(mods: &[Mod]) -> (r: Stats)
    requires
        forall|s: StatId| fold_ok(default_nums(), mods@, #[trigger] for_stat(s)),
    ensures
        r.wf(),
        forall|s: StatId|
            (#[trigger] r.spec_stat(s)).nums() == fold_mods(default_nums(), mods@, for_stat(s))
                && same_mods(r.spec_stat(s).mods@, filter_mods(mods@, for_stat(s)))
                && r.spec_stat(s).mods_disabled@.len() == 0,
{
    let mut stats: Vec<Stat> = Vec::new();
    let mut i: usize = 0;
    while i < STAT_COUNT
        invariant
            i <= STAT_COUNT,
            stats@.len() == i,
            forall|s: StatId| fold_ok(default_nums(), mods@, #[trigger] for_stat(s)),
            forall|j: int|
                0 <= j < i ==> (#[trigger] stats@[j]).nums() == fold_mods(default_nums(), mods@, for_stat(stat_at(j)))
                    && same_mods(stats@[j].mods@, filter_mods(mods@, for_stat(stat_at(j))))
                    && stats@[j].mods_disabled@.len() == 0,
        decreases STAT_COUNT - i,
    {
        let id = StatId::from_index(i).unwrap();
        assert(fold_ok(default_nums(), mods@, for_stat(id)));
        stats.push(calc_stat(id, mods));
        i = i + 1;
    }
    let r = Stats { stats };
    assert forall|s: StatId|
        (#[trigger] r.spec_stat(s)).nums() == fold_mods(default_nums(), mods@, for_stat(s))
            && same_mods(r.spec_stat(s).mods@, filter_mods(mods@, for_stat(s)))
            && r.spec_stat(s).mods_disabled@.len() == 0 by {
        crate::stat_id::law_index_roundtrip(s);
    }
    r
}

/// The lowest override wins, whatever order the overrides come in.
pub proof fn law_override_order(n: StatNums, a: int, b: int)
    ensures
        adjust_nums(adjust_nums(n, Type::Override, a), Type::Override, b) == adjust_nums(
            adjust_nums(n, Type::Override, b),
            Type::Override,
            a,
        ),
        n.overrid is None ==> adjust_nums(adjust_nums(n, Type::Override, a), Type::Override, b).overrid
            == Some(if a < b { a } else { b }),
{
}

/// Base, flat and increased amounts add up: applying two of them in either order gives
/// the same numbers.
pub proof fn law_additive_commute(n: StatNums, t1: Type, a: int, t2: Type, b: int)
    requires
        t1 == Type::Base || t1 == Type::Flat || t1 == Type::Inc,
        t2 == Type::Base || t2 == Type::Flat || t2 == Type::Inc,
    ensures
        adjust_nums(adjust_nums(n, t1, a), t2, b) == adjust_nums(adjust_nums(n, t2, b), t1, a),
{
}

/// Truncating, rounding half up and rounding up never decrease, in that order.
pub proof fn law_rounding_order(n: StatNums)
    ensures
        spec_val(n) <= tdiv(spec_val100(n) + 50, 100) <= tdiv(spec_val100(n) + 99, 100),
{
    let v = spec_val100(n);
    lemma_tdiv_monotone(v, v + 50, 100);
    lemma_tdiv_monotone(v + 50, v + 99, 100);
}

/// Dividing by a positive number keeps the order of the dividends.
pub proof fn lemma_tdiv_monotone(a: int, b: int, c: int)
    requires
        a <= b,
        c > 0,
    ensures
        tdiv(a, c) <= tdiv(b, c),
{
    if a >= 0 {
        assert(a / c <= b / c) by (nonlinear_arith)
            requires
                0 <= a <= b,
                c > 0,
        ;
    } else if b >= 0 {
        assert(-((-a) / c) <= 0 && 0 <= b / c) by (nonlinear_arith)
            requires
                a < 0,
                b >= 0,
                c > 0,
        ;
    } else {
        assert((-b) / c <= (-a) / c) by (nonlinear_arith)
            requires
                0 < -b <= -a,
                c > 0,
        ;
    }
}

/// A default stat has the value of its base once multipliers are neutral.
pub proof fn law_default_value(base: int)
    ensures
        spec_val(adjust_nums(default_nums(), Type::Base, base)) == base,
{
    let n = adjust_nums(default_nums(), Type::Base, base);
    assert(n.inc == 0 && n.more == 100 && n.base == base && n.flat == 0 && n.overrid is None);
    assert(spec_mult(n) == 10000) by (nonlinear_arith)
        requires
            n.inc == 0,
            n.more == 100,
    ;
    assert(base * 10000 == (base * 100) * 100) by (nonlinear_arith);
    if base >= 0 {
        assert((base * 10000) / 100 == base * 100) by (nonlinear_arith) requires base >= 0;
        assert((base * 100) / 100 == base) by (nonlinear_arith) requires base >= 0;
    } else {
        assert((-(base * 10000)) / 100 == -(base * 100)) by (nonlinear_arith) requires base < 0;
        assert((-(base * 100)) / 100 == -base) by (nonlinear_arith) requires base < 0;
    }
}


/// A modifier restricted to some weapon classes contributes nothing unless the weapon
/// wielded is of one of them: with no weapon, or with a weapon of another class, such
/// modifiers leave the numbers as they were and none of them is recorded.
pub proof fn law_weapon_restricted_mods_need_their_weapon(n: StatNums, mods: Seq<Mod>, weapon: Option<ItemClass>)
    requires
        forall|i: int| 0 <= i < mods.len() ==> (#[trigger] mods[i]).weapons != 0 && match weapon {
            Some(w) => mods[i].weapons & w.spec_bit() != w.spec_bit(),
            None => true,
        },
    ensures
        fold_mods(n, mods, for_weapon(weapon)) == n,
        filter_mods(mods, for_weapon(weapon)) == Seq::<Mod>::empty(),
    decreases mods.len(),
{
    if mods.len() > 0 {
        let t = mods.drop_last();
        assert forall|i: int| 0 <= i < t.len() implies (#[trigger] t[i]).weapons != 0 && match weapon {
            Some(w) => t[i].weapons & w.spec_bit() != w.spec_bit(),
            None => true,
        } by {
            assert(t[i] == mods[i]);
        }
        law_weapon_restricted_mods_need_their_weapon(n, t, weapon);
        assert(mods[mods.len() - 1] == mods.last());
    }
}

/// Modifiers with no weapon restriction apply whatever is wielded, and so do those that
/// accept the class of the weapon wielded: all of them are recorded, in order.
pub proof fn law_accepted_mods_always_apply(n: StatNums, mods: Seq<Mod>, weapon: Option<ItemClass>)
    requires
        forall|i: int| 0 <= i < mods.len() ==> (#[trigger] mods[i]).weapons == 0 || match weapon {
            Some(w) => mods[i].weapons & w.spec_bit() == w.spec_bit(),
            None => false,
        },
    ensures
        filter_mods(mods, for_weapon(weapon)) == mods,
        fold_mods(n, mods, for_weapon(weapon)) == fold_mods(n, mods, |m: Mod| true),
    decreases mods.len(),
{
    if mods.len() > 0 {
        let t = mods.drop_last();
        assert forall|i: int| 0 <= i < t.len() implies (#[trigger] t[i]).weapons == 0 || match weapon {
            Some(w) => t[i].weapons & w.spec_bit() == w.spec_bit(),
            None => false,
        } by {
            assert(t[i] == mods[i]);
        }
        law_accepted_mods_always_apply(n, t, weapon);
        assert(mods[mods.len() - 1] == mods.last());
        assert(t.push(mods.last()) =~= mods);
    }
}

} // verus!
