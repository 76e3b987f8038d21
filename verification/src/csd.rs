use vstd::prelude::*;
use crate::text::{chars_of, decimal, decimal_text, has_prefix, lines_of, text_lines, parse_i64, parse_usize, parsed_i64, parsed_usize, pieces, split_char, str_eq, trim, trimmed};

verus! {

/// The values a translation's parameter must take: one value, or a range.
#[derive(Debug, Clone, Copy, PartialEq, Eq, Structural)]
pub enum Argument {
    SingleValue(i64),
    MinMax(i64, i64),
}

impl Argument {
    /// Whether `number` is one of the values the argument admits.
    pub open spec fn spec_matches(self, number: i64) -> bool {
        match self {
            Argument::SingleValue(i) => i == number,
            Argument::MinMax(min, max) => number >= min && number <= max,
        }
    }

    pub fn matches(&self, number: i64) -> (r: bool)
        ensures
            r == self.spec_matches(number),
    {
        match self {
            Argument::SingleValue(i) => *i == number,
            Argument::MinMax(min, max) => number >= *min && number <= *max,
        }
    }
}

/// How a parameter's value is shown.
#[derive(Debug, Clone, Copy, PartialEq, Eq, Structural)]
pub enum Mutation {
    DivideBy0dp(i64),
    DivideBy1dp(i64),
    DivideBy2dp(i64),
    DivideByThenTimes0dp(i64, i64),
    Negate,
    NegateAndDouble,
    Plus(i64),
    Times(i64),
    /// A multiplication by a 32-bit float, held as its bits.
    TimesFloat(u32),
}

/// The mutation a description names.
pub open spec fn spec_mutation_named(t: Seq<char>) -> Option<Mutation> {
    if t == "30%_of_value"@ { Some(Mutation::TimesFloat(0x3e99999au32)) }
    else if t == "divide_by_two_0dp"@ { Some(Mutation::DivideBy0dp(2)) }
    else if t == "divide_by_three"@ { Some(Mutation::DivideBy1dp(3)) }
    else if t == "divide_by_four"@ { Some(Mutation::DivideBy1dp(4)) }
    else if t == "divide_by_five"@ { Some(Mutation::DivideBy1dp(5)) }
    else if t == "divide_by_one_hundred"@ { Some(Mutation::DivideBy1dp(100)) }
    else if t == "divide_by_one_hundred_2dp"@ { Some(Mutation::DivideBy2dp(100)) }
    else if t == "divide_by_one_hundred_2dp_if_required"@ { Some(Mutation::DivideBy2dp(100)) }
    else if t == "divide_by_ten_0dp"@ { Some(Mutation::DivideBy0dp(10)) }
    else if t == "divide_by_ten_1dp"@ { Some(Mutation::DivideBy1dp(10)) }
    else if t == "divide_by_ten_1dp_if_required"@ { Some(Mutation::DivideBy1dp(10)) }
    else if t == "divide_by_fifteen_0dp"@ { Some(Mutation::DivideBy0dp(15)) }
    else if t == "divide_by_twenty_then_double_0dp"@ { Some(Mutation::DivideByThenTimes0dp(20, 2)) }
    else if t == "divide_by_fifty"@ { Some(Mutation::DivideBy1dp(50)) }
    else if t == "double"@ { Some(Mutation::Times(2)) }
    else if t == "milliseconds_to_seconds"@ { Some(Mutation::DivideBy1dp(1000)) }
    else if t == "milliseconds_to_seconds_0dp"@ { Some(Mutation::DivideBy0dp(1000)) }
    else if t == "milliseconds_to_seconds_1dp"@ { Some(Mutation::DivideBy1dp(1000)) }
    else if t == "milliseconds_to_seconds_2dp"@ { Some(Mutation::DivideBy2dp(1000)) }
    else if t == "milliseconds_to_seconds_2dp_if_required"@ { Some(Mutation::DivideBy2dp(1000)) }
    else if t == "negate"@ { Some(Mutation::Negate) }
    else if t == "negate_and_double"@ { Some(Mutation::NegateAndDouble) }
    else if t == "per_minute_to_per_second"@ { Some(Mutation::DivideBy1dp(60)) }
    else if t == "per_minute_to_per_second_0dp"@ { Some(Mutation::DivideBy0dp(60)) }
    else if t == "per_minute_to_per_second_1dp"@ { Some(Mutation::DivideBy1dp(60)) }
    else if t == "per_minute_to_per_second_2dp"@ { Some(Mutation::DivideBy2dp(60)) }
    else if t == "per_minute_to_per_second_2dp_if_required"@ { Some(Mutation::DivideBy2dp(60)) }
    else if t == "plus_two_hundred"@ { Some(Mutation::Plus(200)) }
    else if t == "times_one_point_five"@ { Some(Mutation::TimesFloat(0x3fc00000u32)) }
    else if t == "times_twenty"@ { Some(Mutation::Times(20)) }
    else { None }
}

impl Mutation {
    /// The mutation a description names.
    pub fn from_str(text: &str) -> (r: Option<Mutation>)
        ensures
            r == spec_mutation_named(text@),
    {
        if str_eq(text, "30%_of_value") { Some(Mutation::TimesFloat(0x3e99999a)) }
        else if str_eq(text, "divide_by_two_0dp") { Some(Mutation::DivideBy0dp(2)) }
        else if str_eq(text, "divide_by_three") { Some(Mutation::DivideBy1dp(3)) }
        else if str_eq(text, "divide_by_four") { Some(Mutation::DivideBy1dp(4)) }
        else if str_eq(text, "divide_by_five") { Some(Mutation::DivideBy1dp(5)) }
        else if str_eq(text, "divide_by_one_hundred") { Some(Mutation::DivideBy1dp(100)) }
        else if str_eq(text, "divide_by_one_hundred_2dp") { Some(Mutation::DivideBy2dp(100)) }
        else if str_eq(text, "divide_by_one_hundred_2dp_if_required") { Some(Mutation::DivideBy2dp(100)) }
        else if str_eq(text, "divide_by_ten_0dp") { Some(Mutation::DivideBy0dp(10)) }
        else if str_eq(text, "divide_by_ten_1dp") { Some(Mutation::DivideBy1dp(10)) }
        else if str_eq(text, "divide_by_ten_1dp_if_required") { Some(Mutation::DivideBy1dp(10)) }
        else if str_eq(text, "divide_by_fifteen_0dp") { Some(Mutation::DivideBy0dp(15)) }
        else if str_eq(text, "divide_by_twenty_then_double_0dp") { Some(Mutation::DivideByThenTimes0dp(20, 2)) }
        else if str_eq(text, "divide_by_fifty") { Some(Mutation::DivideBy1dp(50)) }
        else if str_eq(text, "double") { Some(Mutation::Times(2)) }
        else if str_eq(text, "milliseconds_to_seconds") { Some(Mutation::DivideBy1dp(1000)) }
        else if str_eq(text, "milliseconds_to_seconds_0dp") { Some(Mutation::DivideBy0dp(1000)) }
        else if str_eq(text, "milliseconds_to_seconds_1dp") { Some(Mutation::DivideBy1dp(1000)) }
        else if str_eq(text, "milliseconds_to_seconds_2dp") { Some(Mutation::DivideBy2dp(1000)) }
        else if str_eq(text, "milliseconds_to_seconds_2dp_if_required") { Some(Mutation::DivideBy2dp(1000)) }
        else if str_eq(text, "negate") { Some(Mutation::Negate) }
        else if str_eq(text, "negate_and_double") { Some(Mutation::NegateAndDouble) }
        else if str_eq(text, "per_minute_to_per_second") { Some(Mutation::DivideBy1dp(60)) }
        else if str_eq(text, "per_minute_to_per_second_0dp") { Some(Mutation::DivideBy0dp(60)) }
        else if str_eq(text, "per_minute_to_per_second_1dp") { Some(Mutation::DivideBy1dp(60)) }
        else if str_eq(text, "per_minute_to_per_second_2dp") { Some(Mutation::DivideBy2dp(60)) }
        else if str_eq(text, "per_minute_to_per_second_2dp_if_required") { Some(Mutation::DivideBy2dp(60)) }
        else if str_eq(text, "plus_two_hundred") { Some(Mutation::Plus(200)) }
        else if str_eq(text, "times_one_point_five") { Some(Mutation::TimesFloat(0x3fc00000)) }
        else if str_eq(text, "times_twenty") { Some(Mutation::Times(20)) }
        else { None }
    }
}

/// A translation template: the values each parameter must take, how parameters are
/// shown (by parameter position), and the text.
#[derive(Debug)]
pub struct Translation {
    pub args: Vec<Argument>,
    pub mutations: Vec<(usize, Mutation)>,
    pub text: String,
}

/// Every parameter is admitted by its argument, and there are as many of each.
pub open spec fn args_match(args: Seq<Argument>, params: Seq<i64>) -> bool {
    &&& args.len() == params.len()
    &&& forall|i: int| 0 <= i < args.len() ==> (#[trigger] args[i]).spec_matches(params[i])
}

impl Translation {
    pub fn nb_args(&self) -> (r: usize)
        ensures
            r == self.args@.len(),
    {
        self.args.len()
    }

    /// Whether the translation applies to the parameters.
    pub fn matches(&self, params: &[i64]) -> (r: bool)
        ensures
            r == args_match(self.args@, params@),
    {
        if params.len() != self.args.len() {
            return false;
        }
        let mut i: usize = 0;
        while i < self.args.len()
            invariant
                i <= self.args.len(),
                params@.len() == self.args@.len(),
                forall|j: int| 0 <= j < i ==> (#[trigger] self.args@[j]).spec_matches(params@[j]),
            decreases self.args.len() - i,
        {
            if !self.args[i].matches(params[i]) {
                return false;
            }
            i += 1;
        }
        true
    }
}

/// The translations of each stat, by stat id.
#[derive(Debug)]
pub struct Translations {
    pub entries: Vec<(String, Vec<Translation>)>,
}

/// The position of the first entry of a stat.
pub open spec fn first_entry(entries: Seq<(String, Vec<Translation>)>, id: Seq<char>) -> Option<int> {
    if exists|i: int| 0 <= i < entries.len() && #[trigger] entries[i].0@ == id {
        Some(choose|i: int| 0 <= i < entries.len() && entries[i].0@ == id && forall|j: int| 0 <= j < i ==> #[trigger] entries[j].0@ != id)
    } else {
        None
    }
}

/// The number of parameters of a stat: that of the first translation of its first entry.
pub open spec fn stat_arity(entries: Seq<(String, Vec<Translation>)>, id: Seq<char>) -> Option<nat> {
    match first_entry(entries, id) {
        Some(i) => if entries[i].1@.len() > 0 {
            Some(entries[i].1@[0].args@.len())
        } else {
            None
        },
        None => None,
    }
}

impl Translations {
    fn lookup(&self, stat_id: &str) -> (r: Option<usize>)
        ensures
            match r {
                Some(i) => i < self.entries@.len() && self.entries@[i as int].0@ == stat_id@
                    && forall|j: int| 0 <= j < i ==> (#[trigger] self.entries@[j]).0@ != stat_id@,
                None => forall|j: int| 0 <= j < self.entries@.len() ==> (#[trigger] self.entries@[j]).0@ != stat_id@,
            },
    {
        let mut i: usize = 0;
        while i < self.entries.len()
            invariant
                i <= self.entries.len(),
                forall|j: int| 0 <= j < i ==> (#[trigger] self.entries@[j]).0@ != stat_id@,
            decreases self.entries.len() - i,
        {
            if str_eq(self.entries[i].0.as_str(), stat_id) {
                return Some(i);
            }
            i += 1;
        }
        None
    }

    /// The number of parameters of a stat: that of its first translation.
    pub fn nb_args(&self, stat_id: &str) -> (r: Option<usize>)
        ensures
            match r {
                Some(n) => stat_arity(self.entries@, stat_id@) == Some(n as nat),
                None => stat_arity(self.entries@, stat_id@) is None,
            },
    {
        let r = match self.lookup(stat_id) {
            Some(i) => {
                if self.entries[i].1.len() > 0 {
                    Some(self.entries[i].1[0].nb_args())
                } else {
                    None
                }
            },
            None => None,
        };
        proof {
            let e = self.entries@;
            if exists|i: int| 0 <= i < e.len() && #[trigger] e[i].0@ == stat_id@ {
                let k = choose|k: int| 0 <= k < e.len() && e[k].0@ == stat_id@ && forall|j: int| 0 <= j < k ==> #[trigger] e[j].0@ != stat_id@;
                assert(first_entry(e, stat_id@) == Some(k));
            }
        }
        r
    }

    /// `t` is the translation chosen for the values: the first of the stat's first entry
    /// whose arguments admit them.
    pub open spec fn chosen(&self, stat_id: Seq<char>, params: Seq<i64>, t: Translation) -> bool {
        exists|i: int, k: int| #![trigger self.entries@[i].1@[k]] 0 <= i < self.entries@.len() && self.entries@[i].0@ == stat_id
            && (forall|j: int| 0 <= j < i ==> (#[trigger] self.entries@[j]).0@ != stat_id)
            && 0 <= k < self.entries@[i].1@.len() && self.entries@[i].1@[k] == t
            && args_match(t.args@, params)
            && forall|q: int| 0 <= q < k ==> !args_match((#[trigger] self.entries@[i].1@[q]).args@, params)
    }

    /// The first translation of a stat that applies to the parameters.
    pub fn find(&self, stat_id: &str, params: &[i64]) -> (r: Option<&Translation>)
        ensures
            match r {
                Some(t) => self.chosen(stat_id@, params@, *t),
                None => forall|i: int| 0 <= i < self.entries@.len() && (#[trigger] self.entries@[i]).0@ == stat_id@
                    && (forall|j: int| 0 <= j < i ==> (#[trigger] self.entries@[j]).0@ != stat_id@)
                    ==> forall|q: int| 0 <= q < self.entries@[i].1@.len() ==> !args_match((#[trigger] self.entries@[i].1@[q]).args@, params@),
            },
    {
        match self.lookup(stat_id) {
            Some(i) => {
                let list = &self.entries[i].1;
                let mut k: usize = 0;
                while k < list.len()
                    invariant
                        k <= list.len(),
                        i < self.entries@.len(),
                        *list == self.entries@[i as int].1,
                        self.entries@[i as int].0@ == stat_id@,
                        forall|j: int| 0 <= j < i ==> (#[trigger] self.entries@[j]).0@ != stat_id@,
                        forall|q: int| 0 <= q < k ==> !args_match((#[trigger] list@[q]).args@, params@),
                    decreases list.len() - k,
                {
                    if list[k].matches(params) {
                        proof {
                            assert(self.entries@[i as int].1@[k as int] == list@[k as int]);
                            assert forall|q: int| 0 <= q < k implies !args_match((#[trigger] self.entries@[i as int].1@[q]).args@, params@) by {
                                assert(self.entries@[i as int].1@[q] == list@[q]);
                            }
                        }
                        return Some(&list[k]);
                    }
                    k += 1;
                }
                proof {
                    assert forall|i2: int| 0 <= i2 < self.entries@.len() && (#[trigger] self.entries@[i2]).0@ == stat_id@
                        && (forall|j: int| 0 <= j < i2 ==> (#[trigger] self.entries@[j]).0@ != stat_id@)
                        implies forall|q: int| 0 <= q < self.entries@[i2].1@.len() ==> !args_match((#[trigger] self.entries@[i2].1@[q]).args@, params@) by {
                        if i2 < i as int {
                        } else if i2 > i as int {
                            assert(self.entries@[i as int].0@ == stat_id@);
                        }
                    }
                }
                None
            },
            None => None,
        }
    }
}


/// The entry of key `k` among the mutations by parameter.
pub open spec fn key_pos(m: Seq<(usize, Mutation)>, k: usize) -> Option<int> {
    if exists|i: int| 0 <= i < m.len() && (#[trigger] m[i]).0 == k {
        Some(choose|i: int| 0 <= i < m.len() && (#[trigger] m[i]).0 == k)
    } else {
        None
    }
}

/// The mutations by parameter with `v` for parameter `k`, replacing the one it had.
pub open spec fn put(m: Seq<(usize, Mutation)>, k: usize, v: Mutation) -> Seq<(usize, Mutation)> {
    match key_pos(m, k) {
        Some(i) => m.update(i, (k, v)),
        None => m.push((k, v)),
    }
}

/// Each parameter has at most one mutation.
pub open spec fn keys_unique(m: Seq<(usize, Mutation)>) -> bool {
    forall|a: int, b: int| 0 <= a < b < m.len() ==> (#[trigger] m[a]).0 != (#[trigger] m[b]).0
}

fn put_mutation(m: &mut Vec<(usize, Mutation)>, k: usize, v: Mutation)
    requires
        keys_unique(old(m)@),
    ensures
        final(m)@ == put(old(m)@, k, v),
        keys_unique(final(m)@),
{
    let mut i: usize = 0;
    while i < m.len()
        invariant
            i <= m@.len(),
            m@ == old(m)@,
            keys_unique(m@),
            forall|j: int| 0 <= j < i ==> (#[trigger] m@[j]).0 != k,
        decreases m@.len() - i,
    {
        if m[i].0 == k {
            proof {
                let c = choose|c: int| 0 <= c < m@.len() && (#[trigger] m@[c]).0 == k;
                if c != i {
                    if c < i {
                        assert(m@[c].0 != k);
                    } else {
                        assert(m@[i as int].0 != m@[c].0);
                    }
                }
            }
            m.set(i, (k, v));
            proof {
                assert forall|a: int, b: int| 0 <= a < b < m@.len() implies (#[trigger] m@[a]).0 != (#[trigger] m@[b]).0 by {
                    assert(m@[a].0 == old(m)@[a].0 && m@[b].0 == old(m)@[b].0);
                }
            }
            return;
        }
        i = i + 1;
    }
    m.push((k, v));
    proof {
        assert forall|a: int, b: int| 0 <= a < b < m@.len() implies (#[trigger] m@[a]).0 != (#[trigger] m@[b]).0 by {
            if b == m@.len() - 1 {
                assert(old(m)@[a].0 != k);
            } else {
                assert(m@[a] == old(m)@[a] && m@[b] == old(m)@[b]);
            }
        }
    }
}

/// The mutations by parameter read from the words so far, and the mutation waiting for
/// its parameter: a mutation's name is followed by the (1-based) parameter it applies to;
/// any other word drops the waiting mutation.
pub open spec fn mutations_state(words: Seq<Seq<char>>) -> (Seq<(usize, Mutation)>, Option<Mutation>)
    decreases words.len(),
{
    if words.len() == 0 {
        (seq![], None)
    } else {
        let prev = mutations_state(words.drop_last());
        let w = words.last();
        match spec_mutation_named(w) {
            Some(mu) => (prev.0, Some(mu)),
            None => match parsed_usize(w) {
                Some(idx) => match prev.1 {
                    Some(cm) => (put(prev.0, idx.wrapping_sub(1), cm), None),
                    None => (prev.0, None),
                },
                None => (prev.0, None),
            },
        }
    }
}

/// The mutations by parameter (0-based) a description's words give.
pub open spec fn parsed_mutations(txt: Seq<char>) -> Seq<(usize, Mutation)> {
    mutations_state(pieces(txt, ' ')).0
}

proof fn lemma_mutations_unique(words: Seq<Seq<char>>)
    ensures
        keys_unique(mutations_state(words).0),
    decreases words.len(),
{
    if words.len() > 0 {
        lemma_mutations_unique(words.drop_last());
        let prev = mutations_state(words.drop_last());
        let w = words.last();
        if spec_mutation_named(w) is None && parsed_usize(w) is Some && prev.1 is Some {
            let k = parsed_usize(w)->0.wrapping_sub(1);
            let v = prev.1->0;
            let m = prev.0;
            let r = put(m, k, v);
            match key_pos(m, k) {
                Some(i) => {
                    assert forall|a: int, b: int| 0 <= a < b < r.len() implies (#[trigger] r[a]).0 != (#[trigger] r[b]).0 by {
                        assert(r[a].0 == m[a].0 && r[b].0 == m[b].0);
                    }
                },
                None => {
                    assert forall|a: int, b: int| 0 <= a < b < r.len() implies (#[trigger] r[a]).0 != (#[trigger] r[b]).0 by {
                        if b == r.len() - 1 {
                            assert(m[a].0 != k);
                        } else {
                            assert(r[a] == m[a] && r[b] == m[b]);
                        }
                    }
                },
            }
        }
    }
}

/// Reads the mutations of a translation: pairs of a mutation's name and the 1-based
/// position of the parameter it applies to, separated by spaces; the position is taken
/// down by one, wrapping at zero.
pub fn parse_mutations(txt: &str) -> (r: Vec<(usize, Mutation)>)
    ensures
        r@ == parsed_mutations(txt@),
        keys_unique(r@),
{
    let words = split_char(txt, ' ');
    let ghost ws = pieces(txt@, ' ');
    let mut r: Vec<(usize, Mutation)> = Vec::new();
    let mut cur: Option<Mutation> = None;
    let mut i: usize = 0;
    while i < words.len()
        invariant
            i <= words@.len(),
            words@.len() == ws.len(),
            forall|k: int| 0 <= k < words@.len() ==> (#[trigger] words@[k])@ == ws[k],
            r@ == mutations_state(ws.take(i as int)).0,
            cur == mutations_state(ws.take(i as int)).1,
            keys_unique(r@),
        decreases words@.len() - i,
    {
        proof {
            assert(ws.take(i + 1).drop_last() == ws.take(i as int));
            assert(ws.take(i + 1).last() == ws[i as int]);
            lemma_mutations_unique(ws.take(i as int));
        }
        let w = words[i].as_str();
        if let Some(mu) = Mutation::from_str(w) {
            cur = Some(mu);
        } else if let Some(idx) = parse_usize(w) {
            if let Some(cm) = cur {
                put_mutation(&mut r, idx.wrapping_sub(1), cm);
                cur = None;
            }
        } else {
            cur = None;
        }
        i = i + 1;
    }
    assert(ws.take(ws.len() as int) == ws);
    r
}

/// A character of an argument bound: a digit, `#` or `-`.
pub open spec fn is_bound_char(c: char) -> bool {
    ('0' <= c && c <= '9') || c == '#' || c == '-'
}

/// Where the run of bound characters that begins at `i` ends.
pub open spec fn bound_run_end(s: Seq<char>, i: int) -> int
    decreases s.len() - i,
{
    if i < 0 || i >= s.len() || !is_bound_char(s[i]) {
        i
    } else {
        bound_run_end(s, i + 1)
    }
}

proof fn lemma_bound_run(s: Seq<char>, i: int)
    requires
        0 <= i <= s.len(),
    ensures
        i <= bound_run_end(s, i) <= s.len(),
        forall|k: int| i <= k < bound_run_end(s, i) ==> is_bound_char(#[trigger] s[k]),
        bound_run_end(s, i) < s.len() ==> !is_bound_char(s[bound_run_end(s, i)]),
    decreases s.len() - i,
{
    if i < s.len() && is_bound_char(s[i]) {
        lemma_bound_run(s, i + 1);
    }
}

/// A range argument begins at `i`: bound characters, `|`, then a bound character.
pub open spec fn range_at(s: Seq<char>, i: int) -> bool {
    let e = bound_run_end(s, i);
    &&& 0 <= i < s.len()
    &&& is_bound_char(s[i])
    &&& e + 1 < s.len()
    &&& s[e] == '|'
    &&& is_bound_char(s[e + 1])
}

/// The two bounds of the first range in the text: the run of bound characters before the
/// first `|` that has them on both sides, and the run after it.
pub open spec fn first_range(s: Seq<char>) -> Option<(Seq<char>, Seq<char>)> {
    if exists|i: int| #[trigger] range_at(s, i) {
        let i = choose|i: int| range_at(s, i) && forall|j: int| 0 <= j < i ==> !#[trigger] range_at(s, j);
        let e = bound_run_end(s, i);
        Some((s.subrange(i, e), s.subrange(e + 1, bound_run_end(s, e + 1))))
    } else {
        None
    }
}

/// A bound: `#` for no bound (`dflt`), else a number.
pub open spec fn bound_of(t: Seq<char>, dflt: i64) -> Option<i64> {
    if t == "#"@ {
        Some(dflt)
    } else {
        parsed_i64(t)
    }
}

/// The argument a word stands for: `#` for any value, a number, or a range of two bounds
/// separated by `|`.
pub open spec fn spec_parse_arg(t: Seq<char>) -> Option<Argument> {
    if t == "#"@ {
        Some(Argument::MinMax(i64::MIN, i64::MAX))
    } else if parsed_i64(t) is Some {
        Some(Argument::SingleValue(parsed_i64(t)->0))
    } else {
        match first_range(t) {
            Some((a, b)) => match (bound_of(a, i64::MIN), bound_of(b, i64::MAX)) {
                (Some(x), Some(y)) => Some(Argument::MinMax(x, y)),
                _ => None,
            },
            None => None,
        }
    }
}

fn run_end_of(cs: &Vec<char>, i: usize) -> (r: usize)
    requires
        i <= cs@.len(),
    ensures
        r == bound_run_end(cs@, i as int),
{
    let mut j = i;
    while j < cs.len() && (('0' <= cs[j] && cs[j] <= '9') || cs[j] == '#' || cs[j] == '-')
        invariant
            i <= j <= cs@.len(),
            bound_run_end(cs@, i as int) == bound_run_end(cs@, j as int),
        decreases cs@.len() - j,
    {
        j = j + 1;
    }
    j
}

fn bound_text(t: &str, dflt: i64) -> (r: Option<i64>)
    ensures
        r == bound_of(t@, dflt),
{
    if str_eq(t, "#") {
        proof {
            reveal_strlit("#");
        }
        Some(dflt)
    } else {
        parse_i64(t)
    }
}

/// Reads one argument of a translation.
pub fn parse_arg(txt: &str) -> (r: Option<Argument>)
    ensures
        r == spec_parse_arg(txt@),
{
    if str_eq(txt, "#") {
        return Some(Argument::MinMax(i64::MIN, i64::MAX));
    }
    if let Some(n) = parse_i64(txt) {
        return Some(Argument::SingleValue(n));
    }
    let cs = chars_of(txt);
    let mut i: usize = 0;
    while i < cs.len()
        invariant
            i <= cs@.len(),
            cs@ == txt@,
            txt@ != "#"@,
            parsed_i64(txt@) is None,
            forall|j: int| 0 <= j < i ==> !#[trigger] range_at(txt@, j),
        decreases cs@.len() - i,
    {
        let c = cs[i];
        if ('0' <= c && c <= '9') || c == '#' || c == '-' {
            let e = run_end_of(&cs, i);
            proof {
                lemma_bound_run(txt@, i as int);
            }
            if e < cs.len() && e + 1 < cs.len() && cs[e] == '|' {
                let c2 = cs[e + 1];
                if ('0' <= c2 && c2 <= '9') || c2 == '#' || c2 == '-' {
                    assert(range_at(txt@, i as int));
                    let e2 = run_end_of(&cs, e + 1);
                    proof {
                        lemma_bound_run(txt@, e + 1);
                        let k = choose|k: int| range_at(txt@, k) && forall|j: int| 0 <= j < k ==> !#[trigger] range_at(txt@, j);
                        if k < i {
                            assert(!range_at(txt@, k));
                        } else if k > i {
                            assert(!range_at(txt@, i as int));
                        }
                    }
                    let a = txt.substring_char(i, e);
                    let b = txt.substring_char(e + 1, e2);
                    let lo = bound_text(a, i64::MIN);
                    let hi = bound_text(b, i64::MAX);
                    proof {
                        reveal_strlit("#");
                    }
                    return match (lo, hi) {
                        (Some(x), Some(y)) => Some(Argument::MinMax(x, y)),
                        _ => None,
                    };
                }
            }
        }
        i = i + 1;
    }
    proof {
        reveal_strlit("#");
    }
    None
}

/// The arguments the words stand for, in order, skipping words that stand for none.
pub open spec fn args_of(words: Seq<Seq<char>>) -> Seq<Argument>
    decreases words.len(),
{
    if words.len() == 0 {
        seq![]
    } else {
        match spec_parse_arg(words.last()) {
            Some(a) => args_of(words.drop_last()).push(a),
            None => args_of(words.drop_last()),
        }
    }
}

/// Reads the arguments of a translation, separated by spaces.
pub fn parse_args(txt: &str) -> (r: Vec<Argument>)
    ensures
        r@ == args_of(pieces(txt@, ' ')),
{
    let words = split_char(txt, ' ');
    let ghost ws = pieces(txt@, ' ');
    let mut r: Vec<Argument> = Vec::new();
    let mut i: usize = 0;
    while i < words.len()
        invariant
            i <= words@.len(),
            words@.len() == ws.len(),
            forall|k: int| 0 <= k < words@.len() ==> (#[trigger] words@[k])@ == ws[k],
            r@ == args_of(ws.take(i as int)),
        decreases words@.len() - i,
    {
        proof {
            assert(ws.take(i + 1).drop_last() == ws.take(i as int));
            assert(ws.take(i + 1).last() == ws[i as int]);
        }
        if let Some(a) = parse_arg(words[i].as_str()) {
            r.push(a);
        }
        i = i + 1;
    }
    assert(ws.take(ws.len() as int) == ws);
    r
}


/// A character of a translation's argument words: a digit, `#`, `|` or `-`.
pub open spec fn is_word_char(c: char) -> bool {
    is_bound_char(c) || c == '|'
}

/// Where the run of argument characters that begins at `i` ends.
pub open spec fn word_run_end(s: Seq<char>, i: int) -> int
    decreases s.len() - i,
{
    if i < 0 || i >= s.len() || !is_word_char(s[i]) {
        i
    } else {
        word_run_end(s, i + 1)
    }
}

proof fn lemma_word_run(s: Seq<char>, i: int)
    requires
        0 <= i <= s.len(),
    ensures
        i <= word_run_end(s, i) <= s.len(),
    decreases s.len() - i,
{
    if i < s.len() && is_word_char(s[i]) {
        lemma_word_run(s, i + 1);
    }
}

/// After one argument word and its space from `p`: argument characters, then a space.
pub open spec fn word_end(s: Seq<char>, p: int) -> Option<int> {
    let r = word_run_end(s, p);
    if 0 <= p && p < r && r < s.len() && s[r] == ' ' {
        Some(r + 1)
    } else {
        None
    }
}

/// Where the argument words that begin at `p` end.
pub open spec fn words_end(s: Seq<char>, p: int) -> int
    decreases s.len() - p,
{
    match word_end(s, p) {
        Some(n) => if p < n <= s.len() {
            words_end(s, n)
        } else {
            p
        },
        None => p,
    }
}

/// The closing quote after an opening one at `q`: the first `"` at least two places on.
pub open spec fn close_quote(s: Seq<char>, q: int) -> Option<int> {
    if exists|j: int| q + 2 <= j < s.len() && s[j] == '"' {
        Some(choose|j: int| q + 2 <= j < s.len() && s[j] == '"' && forall|k: int| q + 2 <= k < j ==> #[trigger] s[k] != '"')
    } else {
        None
    }
}

/// A translation line matches from `i`: argument words, each followed by a space, then a
/// quoted text of at least one character.
#[verifier::opaque]
pub open spec fn trad_at(s: Seq<char>, i: int) -> bool {
    let q = words_end(s, i);
    &&& 0 <= i < s.len()
    &&& word_end(s, i) is Some
    &&& q < s.len()
    &&& s[q] == '"'
    &&& close_quote(s, q) is Some
}

/// The first place a translation line matches.
pub open spec fn first_trad(s: Seq<char>) -> Option<int> {
    if exists|i: int| #[trigger] trad_at(s, i) {
        Some(choose|i: int| trad_at(s, i) && forall|j: int| 0 <= j < i ==> !#[trigger] trad_at(s, j))
    } else {
        None
    }
}

/// The parts of a translation line matching from `i`: the argument words (with their
/// spaces), the quoted text, and what follows the closing quote and one space, when
/// anything does.
pub open spec fn parts_at(s: Seq<char>, i: int) -> (Seq<char>, Seq<char>, Option<Seq<char>>) {
    let q = words_end(s, i);
    let c = close_quote(s, q)->0;
    let after = if c + 1 < s.len() && s[c + 1] == ' ' {
        c + 2
    } else {
        c + 1
    };
    (s.subrange(i, q), s.subrange(q + 1, c), if after < s.len() {
        Some(s.subrange(after, s.len() as int))
    } else {
        None
    })
}

/// The parts of a translation line, from the first place it matches.
pub open spec fn trad_parts(s: Seq<char>) -> Option<(Seq<char>, Seq<char>, Option<Seq<char>>)> {
    match first_trad(s) {
        Some(i) => Some(parts_at(s, i)),
        None => None,
    }
}

proof fn lemma_first_trad(s: Seq<char>, i: int)
    requires
        trad_at(s, i),
        forall|j: int| 0 <= j < i ==> !#[trigger] trad_at(s, j),
    ensures
        first_trad(s) == Some(i),
{
    reveal(trad_at);
    let k = choose|k: int| trad_at(s, k) && forall|j: int| 0 <= j < k ==> !#[trigger] trad_at(s, j);
    if k < i {
        assert(!trad_at(s, k));
    } else if k > i {
        assert(!trad_at(s, i));
    }
}

fn word_run_of(cs: &Vec<char>, i: usize) -> (r: usize)
    requires
        i <= cs@.len(),
    ensures
        r == word_run_end(cs@, i as int),
        i <= r <= cs@.len(),
{
    let mut j = i;
    while j < cs.len() && (('0' <= cs[j] && cs[j] <= '9') || cs[j] == '#' || cs[j] == '-' || cs[j] == '|')
        invariant
            i <= j <= cs@.len(),
            word_run_end(cs@, i as int) == word_run_end(cs@, j as int),
        decreases cs@.len() - j,
    {
        j = j + 1;
    }
    j
}

fn words_end_of(cs: &Vec<char>, i: usize) -> (r: usize)
    requires
        i <= cs@.len(),
    ensures
        r == words_end(cs@, i as int),
        i <= r <= cs@.len(),
{
    let mut p = i;
    loop
        invariant
            i <= p <= cs@.len(),
            words_end(cs@, i as int) == words_end(cs@, p as int),
        decreases cs@.len() - p,
    {
        let r = word_run_of(cs, p);
        if p < r && r < cs.len() && cs[r] == ' ' {
            p = r + 1;
        } else {
            return p;
        }
    }
}

/// The first `"` at `from` or after.
fn find_quote(cs: &Vec<char>, from: usize) -> (r: Option<usize>)
    ensures
        match r {
            Some(c) => from <= c < cs@.len() && cs@[c as int] == '"' && forall|k: int| from <= k < c ==> #[trigger] cs@[k] != '"',
            None => forall|k: int| from <= k < cs@.len() ==> #[trigger] cs@[k] != '"',
        },
{
    let mut c = from;
    while c < cs.len()
        invariant
            from <= c,
            forall|k: int| from <= k < c && k < cs@.len() ==> #[trigger] cs@[k] != '"',
        decreases cs@.len() - c,
    {
        if cs[c] == '"' {
            return Some(c);
        }
        c = c + 1;
    }
    None
}

/// Where a translation line that matches from `i` has its opening and closing quotes.
fn trad_match_at(cs: &Vec<char>, i: usize) -> (r: Option<(usize, usize)>)
    requires
        i < cs@.len(),
    ensures
        match r {
            Some((q, c)) => trad_at(cs@, i as int) && q == words_end(cs@, i as int) && close_quote(cs@, q as int) == Some(c as int)
                && i <= q && q + 2 <= c && c < cs@.len(),
            None => !trad_at(cs@, i as int),
        },
{
    reveal(trad_at);
    let n = cs.len();
    let r = word_run_of(cs, i);
    if !(i < r && r < n && cs[r] == ' ') {
        return None;
    }
    let q = words_end_of(cs, i);
    if !(q < n && cs[q] == '"') {
        return None;
    }
    if q + 1 >= n {
        return None;
    }
    match find_quote(cs, q + 2) {
        Some(c) => {
            proof {
                assert(q + 2 <= c && cs@[c as int] == '"');
                let cc = close_quote(cs@, q as int)->0;
                if cc < c {
                    assert(cs@[cc] != '"');
                } else if cc > c {
                    assert(cs@[c as int] == '"');
                }
            }
            Some((q, c))
        },
        None => {
            proof {
                if close_quote(cs@, q as int) is Some {
                    let cc = choose|j: int| q + 2 <= j < cs@.len() && cs@[j] == '"';
                    assert(cs@[cc] != '"');
                }
            }
            None
        },
    }
}

/// The parts of a translation line matching from `i`, with its quotes at `q` and `c`.
fn parts_of<'a>(line: &'a str, cs: &Vec<char>, i: usize, q: usize, c: usize) -> (r: (&'a str, &'a str, Option<&'a str>))
    requires
        cs@ == line@,
        i < cs@.len(),
        q == words_end(cs@, i as int),
        close_quote(cs@, q as int) == Some(c as int),
        i <= q,
        q + 2 <= c < cs@.len(),
    ensures
        parts_at(line@, i as int) == (r.0@, r.1@, match r.2 {
            Some(x) => Some(x@),
            None => None::<Seq<char>>,
        }),
{
    let n = cs.len();
    let a = line.substring_char(i, q);
    let t = line.substring_char(q + 1, c);
    let after = if c + 1 < n && cs[c + 1] == ' ' { c + 2 } else { c + 1 };
    let m = if after < n { Some(line.substring_char(after, n)) } else { None };
    (a, t, m)
}

/// Splits a translation line into its argument words, text and mutations.
pub fn translation_parts(line: &str) -> (r: Option<(&str, &str, Option<&str>)>)
    ensures
        match r {
            Some((a, t, m)) => trad_parts(line@) == Some((a@, t@, match m {
                Some(x) => Some(x@),
                None => None::<Seq<char>>,
            })),
            None => trad_parts(line@) is None,
        },
{
    let cs = chars_of(line);
    let n = cs.len();
    let mut i: usize = 0;
    while i < n
        invariant
            i <= n,
            n == cs@.len(),
            cs@ == line@,
            forall|j: int| 0 <= j < i ==> !#[trigger] trad_at(line@, j),
        decreases n - i,
    {
        if let Some((q, c)) = trad_match_at(&cs, i) {
            proof {
                lemma_first_trad(line@, i as int);
            }
            let (a, t, m) = parts_of(line, &cs, i, q, c);
            return Some((a, t, m));
        }
        i = i + 1;
    }
    proof {
        if exists|k: int| #[trigger] trad_at(line@, k) {
            let k = choose|k: int| trad_at(line@, k);
            reveal(trad_at);
            assert(0 <= k < line@.len());
        }
    }
    assert(first_trad(line@) is None);
    None
}


/// What reading a stat description can fail on.
#[derive(Debug, Clone, Copy, PartialEq, Eq, Structural)]
pub enum CsdError {
    /// The lines ended inside a description.
    UnexpectedEof,
    /// A description announces no translation.
    ZeroCount,
    /// The count of translations is no number.
    BadCount,
    /// A line is no translation.
    BadTranslation,
    /// The line after "description" names no stat.
    BadDescription,
}

/// A translation as values: its arguments, its mutations by parameter, its text.
pub type TransView = (Seq<Argument>, Seq<(usize, Mutation)>, Seq<char>);

impl Translation {
    pub open spec fn view_of(&self) -> TransView {
        (self.args@, self.mutations@, self.text@)
    }

    /// A copy.
    pub fn duplicate(&self) -> (r: Translation)
        ensures
            r.view_of() == self.view_of(),
    {
        let mut args: Vec<Argument> = Vec::new();
        let mut i: usize = 0;
        while i < self.args.len()
            invariant
                i <= self.args@.len(),
                args@ == self.args@.take(i as int),
            decreases self.args@.len() - i,
        {
            args.push(self.args[i]);
            proof {
                assert(self.args@.take(i + 1) == self.args@.take(i as int).push(self.args@[i as int]));
            }
            i = i + 1;
        }
        let mut mutations: Vec<(usize, Mutation)> = Vec::new();
        let mut j: usize = 0;
        while j < self.mutations.len()
            invariant
                j <= self.mutations@.len(),
                mutations@ == self.mutations@.take(j as int),
            decreases self.mutations@.len() - j,
        {
            mutations.push(self.mutations[j]);
            proof {
                assert(self.mutations@.take(j + 1) == self.mutations@.take(j as int).push(self.mutations@[j as int]));
            }
            j = j + 1;
        }
        assert(args@ == self.args@.take(self.args@.len() as int));
        assert(mutations@ == self.mutations@.take(self.mutations@.len() as int));
        Translation { args, mutations, text: self.text.clone() }
    }
}

/// The translations as values.
pub open spec fn trans_views(v: Seq<Translation>) -> Seq<TransView> {
    v.map_values(|t: Translation| t.view_of())
}

/// `s` without its leading tabs.
pub open spec fn without_leading_tabs(s: Seq<char>) -> Seq<char>
    decreases s.len(),
{
    if s.len() > 0 && s[0] == '\t' {
        without_leading_tabs(s.skip(1))
    } else {
        s
    }
}

fn trim_start_tabs(s: &str) -> (r: &str)
    ensures
        r@ == without_leading_tabs(s@),
{
    let cs = chars_of(s);
    let mut i: usize = 0;
    assert(s@.skip(0) == s@);
    while i < cs.len() && cs[i] == '\t'
        invariant
            i <= cs@.len(),
            cs@ == s@,
            without_leading_tabs(s@) == without_leading_tabs(s@.skip(i as int)),
        decreases cs@.len() - i,
    {
        proof {
            assert(s@.skip(i as int).skip(1) == s@.skip(i + 1));
        }
        i = i + 1;
    }
    let r = s.substring_char(i, cs.len());
    assert(r@ =~= s@.skip(i as int));
    r
}

/// A line as the description reader takes it: trimmed, then without leading tabs.
pub open spec fn cleaned(l: Seq<char>) -> Seq<char> {
    without_leading_tabs(trimmed(l))
}

/// The translation a (cleaned) line gives: none when the line is no translation; a
/// translation only when it has arguments.
pub open spec fn trad_of(line: Seq<char>) -> Option<Option<TransView>> {
    match trad_parts(line) {
        None => None,
        Some((a, t, m)) => {
            let args = args_of(pieces(a, ' '));
            if args.len() == 0 {
                Some(None)
            } else {
                Some(Some((args, match m {
                    Some(mt) => parsed_mutations(mt),
                    None => Seq::<(usize, Mutation)>::empty(),
                }, t)))
            }
        },
    }
}

/// Reading translation `i` of `count` at line `p` onwards, with `acc` read so far: the
/// result, and the line after the last one read.
pub open spec fn trads_from(lines: Seq<Seq<char>>, p: int, count: int, i: int, acc: Seq<TransView>) -> (Result<Seq<TransView>, CsdError>, int)
    decreases lines.len() - p,
{
    if p < 0 || p >= lines.len() {
        (Err(CsdError::UnexpectedEof), p)
    } else {
        match trad_of(cleaned(lines[p])) {
            None => (Err(CsdError::BadTranslation), p + 1),
            Some(t) => {
                let acc2 = match t {
                    Some(v) => acc.push(v),
                    None => acc,
                };
                if i == count - 1 {
                    (Ok(acc2), p + 1)
                } else {
                    trads_from(lines, p + 1, count, i + 1, acc2)
                }
            },
        }
    }
}

/// Reading a description at line `start`: a count of translations, then that many
/// translation lines. The result, and the line after the last one read.
pub open spec fn description(lines: Seq<Seq<char>>, start: int) -> (Result<Seq<TransView>, CsdError>, int) {
    if start < 0 || start >= lines.len() {
        (Err(CsdError::UnexpectedEof), start)
    } else {
        match parsed_usize(trimmed(cleaned(lines[start]))) {
            None => (Err(CsdError::BadCount), start + 1),
            Some(n) => if n == 0 {
                (Err(CsdError::ZeroCount), start + 1)
            } else {
                trads_from(lines, start + 1, n as int, 0, seq![])
            },
        }
    }
}

pub proof fn lemma_trads_advance(lines: Seq<Seq<char>>, p: int, count: int, i: int, acc: Seq<TransView>)
    requires
        p >= 0,
    ensures
        trads_from(lines, p, count, i, acc).1 >= p,
        trads_from(lines, p, count, i, acc).1 <= lines.len() || trads_from(lines, p, count, i, acc).1 == p,
    decreases lines.len() - p,
{
    if p < lines.len() {
        lemma_trads_advance(lines, p + 1, count, i + 1, match trad_of(cleaned(lines[p])) {
            Some(Some(v)) => acc.push(v),
            _ => acc,
        });
    }
}

pub proof fn lemma_description_advances(lines: Seq<Seq<char>>, start: int)
    requires
        start >= 0,
    ensures
        description(lines, start).1 >= start,
        description(lines, start).1 <= lines.len() || description(lines, start).1 == start,
{
    if start < lines.len() {
        lemma_trads_advance(lines, start + 1, 0, 0, seq![]);
        if let Some(n) = parsed_usize(trimmed(cleaned(lines[start]))) {
            lemma_trads_advance(lines, start + 1, n as int, 0, seq![]);
        }
    }
}

/// The lines as values.
pub open spec fn line_views(lines: Seq<String>) -> Seq<Seq<char>> {
    lines.map_values(|l: String| l@)
}

/// The translation a (cleaned) line gives.
fn read_translation(line: &str) -> (r: Option<Option<Translation>>)
    ensures
        match (r, trad_of(line@)) {
            (None, None) => true,
            (Some(None), Some(None)) => true,
            (Some(Some(t)), Some(Some(v))) => t.view_of() == v,
            _ => false,
        },
{
    match translation_parts(line) {
        None => None,
        Some((a, t, m)) => {
            let args = parse_args(a);
            if args.len() == 0 {
                return Some(None);
            }
            let mutations = match m {
                Some(mt) => parse_mutations(mt),
                None => Vec::new(),
            };
            Some(Some(Translation { args, mutations, text: t.to_string() }))
        },
    }
}

/// Reads a description at line `start`: a count of translations, then that many
/// translation lines, each trimmed and without leading tabs. Returns the translations
/// that have arguments, or what failed, with the line after the last one read.
pub fn parse_description(lines: &Vec<String>, start: usize) -> (r: (Result<Vec<Translation>, CsdError>, usize))
    ensures
        r.1 == description(line_views(lines@), start as int).1,
        match (r.0, description(line_views(lines@), start as int).0) {
            (Ok(v), Ok(w)) => trans_views(v@) == w,
            (Err(e), Err(f)) => e == f,
            _ => false,
        },
{
    let ghost ls = line_views(lines@);
    if start >= lines.len() {
        return (Err(CsdError::UnexpectedEof), start);
    }
    let first = trim_start_tabs(trim(lines[start].as_str()));
    let count = match parse_usize(trim(first)) {
        Some(n) => n,
        None => {
            return (Err(CsdError::BadCount), start + 1);
        },
    };
    if count == 0 {
        return (Err(CsdError::ZeroCount), start + 1);
    }
    let mut trads: Vec<Translation> = Vec::new();
    let mut p = start + 1;
    let mut i: usize = 0;
    assert(trans_views(trads@) =~= Seq::<TransView>::empty());
    assert(first@ == cleaned(ls[start as int]));
    assert(description(ls, start as int) == trads_from(ls, start + 1, count as int, 0, seq![]));
    while p < lines.len()
        invariant
            start < p <= lines@.len(),
            ls == line_views(lines@),
            description(ls, start as int) == trads_from(ls, start + 1, count as int, 0, seq![]),
            count > 0,
            i < count,
            trads_from(ls, p as int, count as int, i as int, trans_views(trads@)) == trads_from(
                ls,
                start + 1,
                count as int,
                0,
                seq![],
            ),
        decreases lines@.len() - p,
    {
        let line = trim_start_tabs(trim(lines[p].as_str()));
        assert(line@ == cleaned(ls[p as int]));
        match read_translation(line) {
            None => {
                return (Err(CsdError::BadTranslation), p + 1);
            },
            Some(t) => {
                if let Some(tr) = t {
                    let ghost before = trans_views(trads@);
                    trads.push(tr);
                    assert(trans_views(trads@) =~= before.push(trads@.last().view_of()));
                }
                if i == count - 1 {
                    return (Ok(trads), p + 1);
                }
                i = i + 1;
            },
        }
        p = p + 1;
    }
    (Err(CsdError::UnexpectedEof), p)
}

/// A digit.
pub open spec fn is_digit(c: char) -> bool {
    '0' <= c && c <= '9'
}

/// A character of the stat ids a description names: a letter, a digit, `_`, `+`, `%`, a
/// space or `-`.
pub open spec fn is_id_char(c: char) -> bool {
    ('a' <= c && c <= 'z') || ('A' <= c && c <= 'Z') || is_digit(c) || c == '_' || c == '+' || c == '%' || c == ' '
        || c == '-'
}

/// Where the run of digits that begins at `i` ends.
pub open spec fn digits_end(s: Seq<char>, i: int) -> int
    decreases s.len() - i,
{
    if i < 0 || i >= s.len() || !is_digit(s[i]) {
        i
    } else {
        digits_end(s, i + 1)
    }
}

/// Where the run of id characters that begins at `i` ends.
pub open spec fn ids_end(s: Seq<char>, i: int) -> int
    decreases s.len() - i,
{
    if i < 0 || i >= s.len() || !is_id_char(s[i]) {
        i
    } else {
        ids_end(s, i + 1)
    }
}

fn digits_end_of(cs: &Vec<char>, i: usize) -> (r: usize)
    requires
        i <= cs@.len(),
    ensures
        r == digits_end(cs@, i as int),
        i <= r <= cs@.len(),
{
    let mut j = i;
    while j < cs.len() && '0' <= cs[j] && cs[j] <= '9'
        invariant
            i <= j <= cs@.len(),
            digits_end(cs@, i as int) == digits_end(cs@, j as int),
        decreases cs@.len() - j,
    {
        j = j + 1;
    }
    j
}

fn id_char(c: char) -> (r: bool)
    ensures
        r == is_id_char(c),
{
    ('a' <= c && c <= 'z') || ('A' <= c && c <= 'Z') || ('0' <= c && c <= '9') || c == '_' || c == '+' || c == '%' || c == ' '
        || c == '-'
}

fn ids_end_of(cs: &Vec<char>, i: usize) -> (r: usize)
    requires
        i <= cs@.len(),
    ensures
        r == ids_end(cs@, i as int),
        i <= r <= cs@.len(),
{
    let mut j = i;
    while j < cs.len() && id_char(cs[j])
        invariant
            i <= j <= cs@.len(),
            ids_end(cs@, i as int) == ids_end(cs@, j as int),
        decreases cs@.len() - j,
    {
        j = j + 1;
    }
    j
}

/// The line names stats from `i`: digits, a space, then an id character.
pub open spec fn desc_at(s: Seq<char>, i: int) -> bool {
    let d = digits_end(s, i);
    &&& 0 <= i < s.len()
    &&& is_digit(s[i])
    &&& d + 1 < s.len()
    &&& s[d] == ' '
    &&& is_id_char(s[d + 1])
}

/// The stat ids the line names, from the first place it names them: the run of id
/// characters after the count and its space.
pub open spec fn desc_ids(s: Seq<char>) -> Option<Seq<char>> {
    if exists|i: int| #[trigger] desc_at(s, i) {
        let i = choose|i: int| desc_at(s, i) && forall|j: int| 0 <= j < i ==> !#[trigger] desc_at(s, j);
        let d = digits_end(s, i);
        Some(s.subrange(d + 1, ids_end(s, d + 1)))
    } else {
        None
    }
}

fn description_ids(line: &str) -> (r: Option<&str>)
    ensures
        match r {
            Some(x) => desc_ids(line@) == Some(x@),
            None => desc_ids(line@) is None,
        },
{
    let cs = chars_of(line);
    let n = cs.len();
    let mut i: usize = 0;
    while i < n
        invariant
            i <= n,
            n == cs@.len(),
            cs@ == line@,
            forall|j: int| 0 <= j < i ==> !#[trigger] desc_at(line@, j),
        decreases n - i,
    {
        if '0' <= cs[i] && cs[i] <= '9' {
            let d = digits_end_of(&cs, i);
            if d < n && d + 1 < n && cs[d] == ' ' {
                if id_char(cs[d + 1]) {
                    let e = ids_end_of(&cs, d + 1);
                    proof {
                        assert(desc_at(line@, i as int));
                        let k = choose|k: int| desc_at(line@, k) && forall|j: int| 0 <= j < k ==> !#[trigger] desc_at(line@, j);
                        if k < i {
                            assert(!desc_at(line@, k));
                        } else if k > i {
                            assert(!desc_at(line@, i as int));
                        }
                    }
                    let ids = line.substring_char(d + 1, e);
                    return Some(ids);
                }
            }
        }
        i = i + 1;
    }
    None
}


/// A stat id with its translations, as values.
pub type EntryView = (Seq<char>, Seq<TransView>);

/// The entry of stat id `k`.
pub open spec fn entry_pos(m: Seq<EntryView>, k: Seq<char>) -> Option<int> {
    if exists|i: int| 0 <= i < m.len() && (#[trigger] m[i]).0 == k {
        Some(choose|i: int| 0 <= i < m.len() && (#[trigger] m[i]).0 == k)
    } else {
        None
    }
}

/// The entries with `v` as the translations of `k`, replacing those it had.
pub open spec fn put_entry(m: Seq<EntryView>, k: Seq<char>, v: Seq<TransView>) -> Seq<EntryView> {
    match entry_pos(m, k) {
        Some(i) => m.update(i, (k, v)),
        None => m.push((k, v)),
    }
}

/// The entries with `v` as the translations of each of the ids, in order.
pub open spec fn put_all(m: Seq<EntryView>, ids: Seq<Seq<char>>, v: Seq<TransView>) -> Seq<EntryView>
    decreases ids.len(),
{
    if ids.len() == 0 {
        m
    } else {
        put_entry(put_all(m, ids.drop_last(), v), ids.last(), v)
    }
}

/// Reading the stat descriptions from line `p` on, with the entries `acc` read so far:
/// each "description" line (once trimmed) is followed by a line naming the stats, then a
/// description whose translations, when it reads, become those of each stat named.
pub open spec fn csd_from(lines: Seq<Seq<char>>, p: int, acc: Seq<EntryView>) -> Result<Seq<EntryView>, CsdError>
    decreases lines.len() - p,
{
    if p < 0 || p >= lines.len() {
        Ok(acc)
    } else if trimmed(lines[p]) == "description"@ {
        if p + 1 >= lines.len() {
            Ok(acc)
        } else {
            match desc_ids(lines[p + 1]) {
                None => Err(CsdError::BadDescription),
                Some(ids) => {
                    let d = description(lines, p + 2);
                    proof {
                        lemma_description_advances(lines, p + 2);
                    }
                    let acc2 = match d.0 {
                        Ok(trads) => put_all(acc, pieces(ids, ' '), trads),
                        Err(_) => acc,
                    };
                    csd_from(lines, d.1, acc2)
                },
            }
        }
    } else {
        csd_from(lines, p + 1, acc)
    }
}

/// The entries as values.
pub open spec fn entries_view(e: Seq<(String, Vec<Translation>)>) -> Seq<EntryView> {
    e.map_values(|x: (String, Vec<Translation>)| (x.0@, trans_views(x.1@)))
}

/// Each stat id has one entry.
pub open spec fn entry_keys_unique(m: Seq<EntryView>) -> bool {
    forall|a: int, b: int| 0 <= a < b < m.len() ==> (#[trigger] m[a]).0 != (#[trigger] m[b]).0
}

fn copy_translations(v: &Vec<Translation>) -> (r: Vec<Translation>)
    ensures
        trans_views(r@) == trans_views(v@),
{
    let mut r: Vec<Translation> = Vec::new();
    let mut i: usize = 0;
    while i < v.len()
        invariant
            i <= v@.len(),
            trans_views(r@) == trans_views(v@.take(i as int)),
        decreases v@.len() - i,
    {
        let t = v[i].duplicate();
        let ghost before = r@;
        r.push(t);
        proof {
            assert(trans_views(r@) =~= trans_views(before).push(t.view_of()));
            assert(trans_views(v@.take(i + 1)) =~= trans_views(v@.take(i as int)).push(v@[i as int].view_of()));
        }
        i = i + 1;
    }
    assert(v@.take(v@.len() as int) == v@);
    r
}

fn insert_entry(entries: &mut Vec<(String, Vec<Translation>)>, key: String, v: Vec<Translation>)
    requires
        entry_keys_unique(entries_view(old(entries)@)),
    ensures
        entries_view(final(entries)@) == put_entry(entries_view(old(entries)@), key@, trans_views(v@)),
        entry_keys_unique(entries_view(final(entries)@)),
{
    let ghost m = entries_view(entries@);
    let mut i: usize = 0;
    while i < entries.len()
        invariant
            i <= entries@.len(),
            m == entries_view(entries@),
            entries@ == old(entries)@,
            entry_keys_unique(m),
            forall|j: int| 0 <= j < i ==> (#[trigger] m[j]).0 != key@,
        decreases entries@.len() - i,
    {
        if str_eq(entries[i].0.as_str(), key.as_str()) {
            proof {
                assert(m[i as int].0 == key@);
                let c = choose|c: int| 0 <= c < m.len() && (#[trigger] m[c]).0 == key@;
                if c != i {
                    if c < i {
                        assert(m[c].0 != key@);
                    } else {
                        assert(m[i as int].0 != m[c].0);
                    }
                }
            }
            entries.set(i, (key, v));
            proof {
                assert(entries_view(entries@) =~= m.update(i as int, (key@, trans_views(v@))));
                let r = entries_view(entries@);
                assert forall|a: int, b: int| 0 <= a < b < r.len() implies (#[trigger] r[a]).0 != (#[trigger] r[b]).0 by {
                    if a == i {
                        assert(m[b].0 != m[a].0);
                    } else if b == i {
                        assert(m[a].0 != m[b].0);
                    }
                }
            }
            return;
        }
        i = i + 1;
    }
    let ghost kv = key@;
    entries.push((key, v));
    proof {
        let r = entries_view(entries@);
        assert(r =~= m.push((kv, trans_views(v@))));
        assert(entry_pos(m, kv) is None);
        assert forall|a: int, b: int| 0 <= a < b < r.len() implies (#[trigger] r[a]).0 != (#[trigger] r[b]).0 by {
            if b == r.len() - 1 {
                assert(m[a].0 != kv);
            } else {
                assert(r[a] == m[a] && r[b] == m[b]);
            }
        }
    }
}

proof fn lemma_put_unique(m: Seq<EntryView>, k: Seq<char>, v: Seq<TransView>)
    requires
        entry_keys_unique(m),
    ensures
        entry_keys_unique(put_entry(m, k, v)),
{
    let r = put_entry(m, k, v);
    match entry_pos(m, k) {
        Some(i) => {
            assert forall|a: int, b: int| 0 <= a < b < r.len() implies (#[trigger] r[a]).0 != (#[trigger] r[b]).0 by {
                assert(r[a].0 == m[a].0 && r[b].0 == m[b].0);
            }
        },
        None => {
            assert forall|a: int, b: int| 0 <= a < b < r.len() implies (#[trigger] r[a]).0 != (#[trigger] r[b]).0 by {
                if b == r.len() - 1 {
                    assert(m[a].0 != k);
                } else {
                    assert(r[a] == m[a] && r[b] == m[b]);
                }
            }
        },
    }
}

/// Reads the stat descriptions of a translation file, given as its lines: for each
/// "description" line, the stats the next line names all get the translations of the
/// description that follows; a description that does not read is skipped, and a line after
/// "description" that names no stat fails the whole file.
pub fn parse_csd(lines: &Vec<String>) -> (r: Result<Translations, CsdError>)
    ensures
        match (r, csd_from(line_views(lines@), 0, seq![])) {
            (Ok(t), Ok(e)) => entries_view(t.entries@) == e,
            (Err(x), Err(y)) => x == y,
            _ => false,
        },
{
    let ghost ls = line_views(lines@);
    let mut entries: Vec<(String, Vec<Translation>)> = Vec::new();
    let mut p: usize = 0;
    assert(entries_view(entries@) =~= Seq::<EntryView>::empty());
    while p < lines.len()
        invariant
            p <= lines@.len(),
            ls == line_views(lines@),
            entry_keys_unique(entries_view(entries@)),
            csd_from(ls, p as int, entries_view(entries@)) == csd_from(ls, 0, seq![]),
        decreases lines@.len() - p,
    {
        proof {
            reveal_strlit("description");
        }
        if str_eq(trim(lines[p].as_str()), "description") {
            if p + 1 >= lines.len() {
                return Ok(Translations { entries });
            }
            match description_ids(lines[p + 1].as_str()) {
                None => {
                    return Err(CsdError::BadDescription);
                },
                Some(ids) => {
                    let (res, next) = parse_description(lines, p + 2);
                    proof {
                        lemma_description_advances(ls, p + 2);
                    }
                    if let Ok(trads) = res {
                        let words = split_char(ids, ' ');
                        let ghost ws = pieces(ids@, ' ');
                        let ghost tv = trans_views(trads@);
                        let ghost e0 = entries_view(entries@);
                        let mut k: usize = 0;
                        while k < words.len()
                            invariant
                                k <= words@.len(),
                                words@.len() == ws.len(),
                                forall|j: int| 0 <= j < words@.len() ==> (#[trigger] words@[j])@ == ws[j],
                                tv == trans_views(trads@),
                                entry_keys_unique(entries_view(entries@)),
                                entries_view(entries@) == put_all(e0, ws.take(k as int), tv),
                            decreases words@.len() - k,
                        {
                            proof {
                                assert(ws.take(k + 1).drop_last() == ws.take(k as int));
                                assert(ws.take(k + 1).last() == ws[k as int]);
                            }
                            let copy = copy_translations(&trads);
                            let key = words[k].clone();
                            insert_entry(&mut entries, key, copy);
                            k = k + 1;
                        }
                        assert(ws.take(ws.len() as int) == ws);
                    }
                    p = next;
                },
            }
        } else {
            p = p + 1;
        }
    }
    Ok(Translations { entries })
}


/// `s` with each occurrence of `pat`, from left to right, replaced by `rep`, as
/// `str::replace` gives it for a pattern that is not empty.
pub open spec fn replaced(s: Seq<char>, pat: Seq<char>, rep: Seq<char>) -> Seq<char>
    decreases s.len(),
{
    if s.len() == 0 {
        s
    } else if pat.len() > 0 && has_prefix(s, pat) {
        rep + replaced(s.skip(pat.len() as int), pat, rep)
    } else {
        seq![s[0]] + replaced(s.skip(1), pat, rep)
    }
}

/// Whether `pat` occurs in `cs` at `i`.
fn occurs_at(cs: &Vec<char>, pat: &Vec<char>, i: usize) -> (r: bool)
    requires
        i <= cs@.len(),
    ensures
        r == has_prefix(cs@.skip(i as int), pat@),
{
    let n = cs.len();
    if pat.len() > n - i {
        return false;
    }
    let mut k: usize = 0;
    while k < pat.len()
        invariant
            k <= pat@.len(),
            n == cs@.len(),
            i <= cs@.len(),
            pat@.len() <= cs@.len() - i,
            forall|j: int| 0 <= j < k ==> cs@[i + j] == pat@[j],
        decreases pat@.len() - k,
    {
        if cs[i + k] != pat[k] {
            assert(cs@.skip(i as int).take(pat@.len() as int)[k as int] != pat@[k as int]);
            return false;
        }
        k = k + 1;
    }
    assert(cs@.skip(i as int).take(pat@.len() as int) =~= pat@);
    true
}

/// `s` with each occurrence of `pat` replaced by `rep`.
pub fn replace_text(s: &str, pat: &str, rep: &str) -> (r: String)
    requires
        pat@.len() > 0,
    ensures
        r@ == replaced(s@, pat@, rep@),
{
    let cs = chars_of(s);
    let ps = chars_of(pat);
    let mut out = String::new();
    let mut i: usize = 0;
    assert(s@.skip(0) =~= s@);
    assert(out@ =~= Seq::<char>::empty());
    assert(out@ + replaced(s@.skip(0), pat@, rep@) =~= replaced(s@, pat@, rep@));
    while i < cs.len()
        invariant
            i <= cs@.len(),
            cs@ == s@,
            ps@ == pat@,
            pat@.len() > 0,
            out@ + replaced(s@.skip(i as int), pat@, rep@) == replaced(s@, pat@, rep@),
        decreases cs@.len() - i,
    {
        if occurs_at(&cs, &ps, i) {
            proof {
                assert(s@.skip(i as int).skip(pat@.len() as int) == s@.skip(i + pat@.len()));
                assert(out@ + rep@ + replaced(s@.skip(i + pat@.len()), pat@, rep@) == out@ + (rep@ + replaced(s@.skip(i + pat@.len()), pat@, rep@)));
            }
            out.append(rep);
            i = i + ps.len();
        } else {
            proof {
                assert(s@.skip(i as int).skip(1) == s@.skip(i + 1));
                assert(s@.skip(i as int)[0] == s@[i as int]);
            }
            let one = s.substring_char(i, i + 1);
            assert(one@ =~= seq![s@[i as int]]);
            proof {
                assert(out@ + one@ + replaced(s@.skip(i + 1), pat@, rep@) == out@ + (one@ + replaced(s@.skip(i + 1), pat@, rep@)));
            }
            out.append(one);
            i = i + 1;
        }
    }
    assert(s@.skip(i as int) =~= Seq::<char>::empty());
    assert(out@ + Seq::<char>::empty() == out@);
    out
}

/// A letter or a space, as bracketed words hold.
pub open spec fn is_word_letter(c: char) -> bool {
    ('a' <= c && c <= 'z') || ('A' <= c && c <= 'Z') || c == ' '
}

/// Where the run of letters and spaces that begins at `i` ends.
pub open spec fn letters_end(s: Seq<char>, i: int) -> int
    decreases s.len() - i,
{
    if i < 0 || i >= s.len() || !is_word_letter(s[i]) {
        i
    } else {
        letters_end(s, i + 1)
    }
}

/// A bracketed choice at the start of `s`, such as "[HitDamage|Hits]": its length and the
/// words it stands for, the second when there are two.
pub open spec fn bracket_at(s: Seq<char>) -> Option<(int, Seq<char>)> {
    let e = letters_end(s, 1);
    if s.len() > 0 && s[0] == '[' && e > 1 && e < s.len() {
        if s[e] == ']' {
            Some((e + 1, s.subrange(1, e)))
        } else if s[e] == '|' {
            let f = letters_end(s, e + 1);
            if f > e + 1 && f < s.len() && s[f] == ']' {
                Some((f + 1, s.subrange(e + 1, f)))
            } else {
                None
            }
        } else {
            None
        }
    } else {
        None
    }
}

/// `s` with each bracketed choice, from left to right, replaced by the words it stands for.
pub open spec fn unbracketed(s: Seq<char>) -> Seq<char>
    decreases s.len(),
{
    if s.len() == 0 {
        s
    } else {
        match bracket_at(s) {
            Some((n, w)) => if 0 < n <= s.len() {
                w + unbracketed(s.skip(n))
            } else {
                s
            },
            None => seq![s[0]] + unbracketed(s.skip(1)),
        }
    }
}

proof fn lemma_letters_end(s: Seq<char>, i: int)
    requires
        0 <= i <= s.len(),
    ensures
        i <= letters_end(s, i) <= s.len(),
    decreases s.len() - i,
{
    if i < s.len() && is_word_letter(s[i]) {
        lemma_letters_end(s, i + 1);
    }
}

fn letters_end_of(cs: &Vec<char>, i: usize) -> (r: usize)
    requires
        i <= cs@.len(),
    ensures
        r == letters_end(cs@, i as int),
        i <= r <= cs@.len(),
{
    let mut j = i;
    while j < cs.len() && (('a' <= cs[j] && cs[j] <= 'z') || ('A' <= cs[j] && cs[j] <= 'Z') || cs[j] == ' ')
        invariant
            i <= j <= cs@.len(),
            letters_end(cs@, i as int) == letters_end(cs@, j as int),
        decreases cs@.len() - j,
    {
        j = j + 1;
    }
    j
}

proof fn lemma_letters_end_skip(s: Seq<char>, i: int, k: int)
    requires
        0 <= i <= k <= s.len(),
    ensures
        letters_end(s.skip(i), k - i) == letters_end(s, k) - i,
    decreases s.len() - k,
{
    if k < s.len() && is_word_letter(s[k]) {
        lemma_letters_end_skip(s, i, k + 1);
    }
}

/// The bracketed choice at `i`: its end and where its words lie.
fn bracket_of(cs: &Vec<char>, i: usize) -> (r: Option<(usize, usize, usize)>)
    requires
        i < cs@.len(),
    ensures
        match r {
            Some((n, a, b)) => bracket_at(cs@.skip(i as int)) == Some(((n - i) as int, cs@.subrange(a as int, b as int)))
                && i < n <= cs@.len() && a <= b <= cs@.len(),
            None => bracket_at(cs@.skip(i as int)) is None,
        },
{
    let ghost t = cs@.skip(i as int);
    let n = cs.len();
    if cs[i] != '[' {
        return None;
    }
    let e = letters_end_of(cs, i + 1);
    proof {
        lemma_letters_end_skip(cs@, i as int, i + 1);
    }
    if !(e > i + 1 && e < cs.len()) {
        return None;
    }
    if cs[e] == ']' {
        assert(t.subrange(1, (e - i) as int) =~= cs@.subrange(i + 1, e as int));
        return Some((e + 1, i + 1, e));
    }
    if cs[e] == '|' {
        let f = letters_end_of(cs, e + 1);
        proof {
            lemma_letters_end_skip(cs@, i as int, e + 1);
        }
        if f > e + 1 && f < cs.len() && cs[f] == ']' {
            assert(t.subrange((e + 1 - i) as int, (f - i) as int) =~= cs@.subrange(e + 1, f as int));
            return Some((f + 1, e + 1, f));
        }
    }
    None
}

/// `s` with each bracketed choice replaced by the words it stands for.
pub fn unbracket(s: &str) -> (r: String)
    ensures
        r@ == unbracketed(s@),
{
    let cs = chars_of(s);
    let mut out = String::new();
    let mut i: usize = 0;
    assert(s@.skip(0) =~= s@);
    assert(out@ =~= Seq::<char>::empty());
    assert(out@ + unbracketed(s@.skip(0)) =~= unbracketed(s@));
    while i < cs.len()
        invariant
            i <= cs@.len(),
            cs@ == s@,
            out@ + unbracketed(s@.skip(i as int)) == unbracketed(s@),
        decreases cs@.len() - i,
    {
        match bracket_of(&cs, i) {
            Some((n, a, b)) => {
                let w = s.substring_char(a, b);
                proof {
                    assert(s@.skip(i as int).skip((n - i) as int) == s@.skip(n as int));
                    assert(out@ + w@ + unbracketed(s@.skip(n as int)) == out@ + (w@ + unbracketed(s@.skip(n as int))));
                }
                out.append(w);
                i = n;
            },
            None => {
                proof {
                    assert(s@.skip(i as int).skip(1) == s@.skip(i + 1));
                    assert(s@.skip(i as int)[0] == s@[i as int]);
                }
                let one = s.substring_char(i, i + 1);
                assert(one@ =~= seq![s@[i as int]]);
                proof {
                    assert(out@ + one@ + unbracketed(s@.skip(i + 1)) == out@ + (one@ + unbracketed(s@.skip(i + 1))));
                }
                out.append(one);
                i = i + 1;
            },
        }
    }
    assert(s@.skip(i as int) =~= Seq::<char>::empty());
    assert(out@ + Seq::<char>::empty() == out@);
    out
}

/// The placeholder of parameter `i` with the suffix `suffix`: "{i}", "{i:d}", "{i:+d}".
pub open spec fn placeholder(i: int, suffix: Seq<char>) -> Seq<char> {
    "{"@ + decimal_text(i as i64) + suffix + "}"@
}

/// The text with the shown values of the parameters up to `k` put in: "{}" takes the first,
/// "{i}" and "{i:d}" take value `i`, and "{i:+d}" takes it after a plus sign.
pub open spec fn filled(text: Seq<char>, shown: Seq<Seq<char>>, k: int) -> Seq<char>
    decreases k,
{
    if k <= 0 {
        text
    } else {
        let i = k - 1;
        let prev = filled(text, shown, i);
        let t0 = if i == 0 {
            replaced(prev, "{}"@, shown[i])
        } else {
            prev
        };
        let t1 = replaced(t0, placeholder(i, ""@), shown[i]);
        let t2 = replaced(t1, placeholder(i, ":d"@), shown[i]);
        replaced(t2, placeholder(i, ":+d"@), "+"@ + shown[i])
    }
}

fn make_placeholder(i: usize, suffix: &str) -> (r: String)
    requires
        i <= i64::MAX,
    ensures
        r@ == placeholder(i as int, suffix@),
        r@.len() > 0,
{
    let mut p = String::from_str("{");
    let d = decimal(i as i64);
    p.append(d.as_str());
    p.append(suffix);
    p.append("}");
    proof {
        reveal_strlit("{");
        reveal_strlit("}");
    }
    p
}

/// A translation's text with the parameters' shown values put in, then each bracketed
/// choice replaced by the words it stands for.
pub fn fill_template(text: &str, shown: &Vec<String>) -> (r: String)
    requires
        shown@.len() <= i64::MAX,
    ensures
        r@ == unbracketed(filled(text@, shown@.map_values(|x: String| x@), shown@.len() as int)),
{
    let ghost sv = shown@.map_values(|x: String| x@);
    let mut ret = text.to_string();
    let mut i: usize = 0;
    while i < shown.len()
        invariant
            i <= shown@.len(),
            shown@.len() <= i64::MAX,
            sv == shown@.map_values(|x: String| x@),
            ret@ == filled(text@, sv, i as int),
        decreases shown@.len() - i,
    {
        let v = shown[i].as_str();
        assert(v@ == sv[i as int]);
        proof {
            reveal_strlit("{}");
            reveal_strlit("");
            reveal_strlit(":d");
            reveal_strlit(":+d");
            reveal_strlit("+");
        }
        if i == 0 {
            ret = replace_text(ret.as_str(), "{}", v);
        }
        let p1 = make_placeholder(i, "");
        ret = replace_text(ret.as_str(), p1.as_str(), v);
        let p2 = make_placeholder(i, ":d");
        ret = replace_text(ret.as_str(), p2.as_str(), v);
        let p3 = make_placeholder(i, ":+d");
        let plus = String::from_str("+").concat(v);
        ret = replace_text(ret.as_str(), p3.as_str(), plus.as_str());
        i = i + 1;
    }
    unbracket(ret.as_str())
}

/// The value a mutation shows for `n` when it is a whole number: divisions rounded toward
/// zero to no decimals, negations, additions and multiplications. Mutations shown with
/// decimals give none.
pub open spec fn spec_apply_exact(m: Mutation, n: i64) -> Option<int> {
    match m {
        Mutation::DivideBy0dp(i) => Some(crate::arith::tdiv(n as int, i as int)),
        Mutation::DivideByThenTimes0dp(d, t) => Some(crate::arith::tdiv(n as int, d as int) * t),
        Mutation::Negate => Some(-n),
        Mutation::NegateAndDouble => Some(n * -2),
        Mutation::Plus(i) => Some(n + i),
        Mutation::Times(i) => Some(n * i),
        _ => None,
    }
}

/// The whole value a mutation shows fits in `i64` and divides by no zero.
pub open spec fn apply_exact_ok(m: Mutation, n: i64) -> bool {
    match m {
        Mutation::DivideBy0dp(i) => i != 0 && !(n == i64::MIN && i == -1),
        Mutation::DivideByThenTimes0dp(d, t) => d != 0 && !(n == i64::MIN && d == -1) && crate::arith::fits(
            crate::arith::tdiv(n as int, d as int) * t,
        ),
        _ => match spec_apply_exact(m, n) {
            Some(v) => crate::arith::fits(v),
            None => true,
        },
    }
}

impl Mutation {
    /// The text of the value the mutation shows for `n`, when it is a whole number.
    pub fn apply_exact(&self, n: i64) -> (r: Option<String>)
        requires
            apply_exact_ok(*self, n),
        ensures
            match spec_apply_exact(*self, n) {
                Some(v) => r matches Some(t) && t@ == decimal_text(v as i64),
                None => r is None,
            },
    {
        let v: i64 = match self {
            Mutation::DivideBy0dp(i) => crate::arith::div_t(n, *i),
            Mutation::DivideByThenTimes0dp(d, t) => crate::arith::div_t(n, *d) * *t,
            Mutation::Negate => -n,
            Mutation::NegateAndDouble => n * -2,
            Mutation::Plus(i) => n + *i,
            Mutation::Times(i) => n * *i,
            _ => {
                return None;
            },
        };
        Some(decimal(v))
    }
}


/// The mutation of parameter `k`: that of its first entry.
pub open spec fn mutation_for(m: Seq<(usize, Mutation)>, k: usize) -> Option<Mutation>
    decreases m.len(),
{
    if m.len() == 0 {
        None
    } else if m[0].0 == k {
        Some(m[0].1)
    } else {
        mutation_for(m.drop_first(), k)
    }
}

/// The mutation of parameter `k`, found in order.
fn find_mutation(m: &Vec<(usize, Mutation)>, k: usize) -> (r: Option<Mutation>)
    ensures
        r == mutation_for(m@, k),
{
    let mut i: usize = 0;
    assert(m@.skip(0) =~= m@);
    while i < m.len()
        invariant
            i <= m@.len(),
            mutation_for(m@, k) == mutation_for(m@.skip(i as int), k),
        decreases m.len() - i,
    {
        assert(m@.skip(i as int).drop_first() =~= m@.skip(i as int + 1));
        if m[i].0 == k {
            return Some(m[i].1);
        }
        i += 1;
    }
    assert(m@.skip(i as int).len() == 0);
    None
}

/// `shown` shows the values: a value with a mutation that gives a whole number that
/// number, one with no mutation the value itself, one whose mutation shows decimals what
/// `show_decimal` gave for it.
pub open spec fn shows_values<F: Fn(&Mutation, i64) -> String>(t: Translation, params: Seq<i64>, show_decimal: F, shown: Seq<String>) -> bool {
    &&& shown.len() == params.len()
    &&& forall|i: int| 0 <= i < params.len() ==> match mutation_for(t.mutations@, i as usize) {
        None => (#[trigger] shown[i])@ == decimal_text(params[i]),
        Some(mu) => match spec_apply_exact(mu, params[i]) {
            Some(v) => shown[i]@ == decimal_text(v as i64),
            None => call_ensures(show_decimal, (&mu, params[i]), shown[i]),
        },
    }
}

impl Translation {
    /// Every whole number a mutation of the translation gives for the values fits in
    /// `i64`, with no division by zero.
    pub open spec fn fits(self, params: Seq<i64>) -> bool {
        forall|i: int| 0 <= i < params.len() ==> (#[trigger] mutation_for(self.mutations@, i as usize) matches Some(mu)
            ==> apply_exact_ok(mu, params[i]))
    }

    /// The values as the translation shows them; those whose mutation shows decimals are
    /// shown by `show_decimal`.
    pub fn show<F: Fn(&Mutation, i64) -> String>(&self, params: &[i64], show_decimal: F) -> (r: Vec<String>)
        requires
            self.fits(params@),
            forall|m: Mutation, n: i64| call_requires(show_decimal, (&m, n)),
        ensures
            shows_values(*self, params@, show_decimal, r@),
    {
        let mut r: Vec<String> = Vec::new();
        let mut i: usize = 0;
        while i < params.len()
            invariant
                i <= params@.len(),
                self.fits(params@),
                forall|m: Mutation, n: i64| call_requires(show_decimal, (&m, n)),
                r@.len() == i,
                forall|j: int| 0 <= j < i ==> match mutation_for(self.mutations@, j as usize) {
                    None => (#[trigger] r@[j])@ == decimal_text(params@[j]),
                    Some(mu) => match spec_apply_exact(mu, params@[j]) {
                        Some(v) => r@[j]@ == decimal_text(v as i64),
                        None => call_ensures(show_decimal, (&mu, params@[j]), r@[j]),
                    },
                },
            decreases params.len() - i,
        {
            let n = params[i];
            let text = match find_mutation(&self.mutations, i) {
                None => decimal(n),
                Some(mu) => {
                    assert(mutation_for(self.mutations@, i as usize) matches Some(x) ==> apply_exact_ok(x, params@[i as int]));
                    match mu.apply_exact(n) {
                        Some(s) => s,
                        None => show_decimal(&mu, n),
                    }
                },
            };
            r.push(text);
            i += 1;
        }
        r
    }
}

impl Translations {
    /// The text of a stat with its values, when a translation applies to them: the chosen
    /// translation's template filled with the values as it shows them (those shown with
    /// decimals by `show_decimal`), without its link brackets; `None` when no translation
    /// of the stat admits the values.
    pub fn format<F: Fn(&Mutation, i64) -> String>(&self, stat_id: &str, params: &[i64], show_decimal: F) -> (r: Option<String>)
        requires
            params@.len() <= i64::MAX,
            forall|t: Translation| #[trigger] self.chosen(stat_id@, params@, t) ==> t.fits(params@),
            forall|m: Mutation, n: i64| call_requires(show_decimal, (&m, n)),
        ensures
            match r {
                Some(s) => exists|t: Translation, shown: Seq<String>| {
                    &&& #[trigger] self.chosen(stat_id@, params@, t)
                    &&& #[trigger] shows_values(t, params@, show_decimal, shown)
                    &&& s@ == unbracketed(filled(t.text@, shown.map_values(|x: String| x@), shown.len() as int))
                },
                None => forall|t: Translation| !#[trigger] self.chosen(stat_id@, params@, t),
            },
    {
        match self.find(stat_id, params) {
            Some(t) => {
                let shown = t.show(params, show_decimal);
                let text = fill_template(&t.text, &shown);
                proof {
                    assert(self.chosen(stat_id@, params@, *t));
                }
                Some(text)
            },
            None => {
                proof {
                    assert forall|t: Translation| !#[trigger] self.chosen(stat_id@, params@, t) by {
                        if self.chosen(stat_id@, params@, t) {
                            let (i, k) = choose|i: int, k: int| #![trigger self.entries@[i].1@[k]] 0 <= i < self.entries@.len() && self.entries@[i].0@ == stat_id@
                                && (forall|j: int| 0 <= j < i ==> (#[trigger] self.entries@[j]).0@ != stat_id@)
                                && 0 <= k < self.entries@[i].1@.len() && self.entries@[i].1@[k] == t
                                && args_match(t.args@, params@)
                                && forall|q: int| 0 <= q < k ==> !args_match((#[trigger] self.entries@[i].1@[q]).args@, params@);
                            assert(!args_match((self.entries@[i].1@[k]).args@, params@));
                        }
                    }
                }
                None
            },
        }
    }
}

/// The text of bytes read as UTF-16, little-endian unless a byte order mark says
/// otherwise, the mark removed and malformed units replaced, as
/// `encoding_rs::UTF_16LE.decode` gives it.
pub uninterp spec fn utf16le_text(bytes: Seq<u8>) -> Seq<char>;

/// Calls `encoding_rs::Encoding::decode` on `UTF_16LE`; the text is named `utf16le_text`
/// of the bytes.
#[verifier::external_body]
fn decode_utf16le(bytes: &[u8]) -> (r: String)
    ensures
        r@ == utf16le_text(bytes@),
{
    encoding_rs::UTF_16LE.decode(bytes).0.into_owned()
}

/// Reads the stat descriptions of a translation file from its bytes: the text is decoded
/// from UTF-16, split into lines, and read as `parse_csd` reads lines.
pub fn parse_csd_bytes(bytes: &[u8]) -> (r: Result<Translations, CsdError>)
    ensures
        match (r, csd_from(text_lines(utf16le_text(bytes@)), 0, seq![])) {
            (Ok(t), Ok(e)) => entries_view(t.entries@) == e,
            (Err(x), Err(y)) => x == y,
            _ => false,
        },
{
    let text = decode_utf16le(bytes);
    let lines = lines_of(text.as_str());
    assert(line_views(lines@) =~= text_lines(utf16le_text(bytes@)));
    parse_csd(&lines)
}

} // verus!
