use vstd::prelude::*;
use crate::arith::fits;
use crate::text::str_eq;

verus! {

/// Whether one of the first `n` entries of a table of named results has the name `key`.
pub open spec fn named_within(s: Seq<(&str, i64)>, n: int, key: Seq<char>) -> bool {
    exists|i: int| 0 <= i < n && i < s.len() && #[trigger] s[i].0@ == key
}

/// No name occurs twice in the table.
pub open spec fn names_unique(s: Seq<(&str, i64)>) -> bool {
    forall|i: int, j: int| 0 <= i < j < s.len() ==> (#[trigger] s[i]).0@ != (#[trigger] s[j]).0@
}

/// The value the table gives the name `key`, if it names it.
pub open spec fn report_get(s: Seq<(&str, i64)>, key: Seq<char>) -> Option<i64> {
    if named_within(s, s.len() as int, key) {
        Some(s[choose|i: int| 0 <= i < s.len() as int && i < s.len() && #[trigger] s[i].0@ == key].1)
    } else {
        None
    }
}

/// The value of `key`, or 0 when the table does not name it.
pub open spec fn value_or_zero(s: Seq<(&str, i64)>, key: Seq<char>) -> int {
    match report_get(s, key) {
        Some(v) => v as int,
        None => 0,
    }
}

/// In a table without repeated names, the entry at `i` gives the value of its name.
pub proof fn lemma_get_at(s: Seq<(&str, i64)>, i: int)
    requires
        names_unique(s),
        0 <= i < s.len(),
    ensures
        report_get(s, s[i].0@) == Some(s[i].1),
{
    assert(named_within(s, s.len() as int, s[i].0@));
    let j = choose|j: int| 0 <= j < s.len() as int && j < s.len() && #[trigger] s[j].0@ == s[i].0@;
    if j != i {
        if j < i {
            assert(s[j].0@ != s[i].0@);
        } else {
            assert(s[i].0@ != s[j].0@);
        }
    }
}

/// The position of the entry named `key`.
pub fn report_find(r: &Vec<(&'static str, i64)>, key: &str) -> (res: Option<usize>)
    ensures
        match res {
            Some(i) => i < r@.len() && r@[i as int].0@ == key@,
            None => !named_within(r@, r@.len() as int, key@),
        },
{
    let mut i: usize = 0;
    while i < r.len()
        invariant
            i <= r@.len(),
            !named_within(r@, i as int, key@),
        decreases r@.len() - i,
    {
        if str_eq(r[i].0, key) {
            return Some(i);
        }
        i = i + 1;
    }
    None
}

/// The value of `key` in the table.
pub fn report_value(r: &Vec<(&'static str, i64)>, key: &str) -> (v: Option<i64>)
    requires
        names_unique(r@),
    ensures
        v == report_get(r@, key@),
{
    match report_find(r, key) {
        Some(i) => {
            proof {
                lemma_get_at(r@, i as int);
            }
            Some(r[i].1)
        },
        None => None,
    }
}

/// Sets the value of `key`, replacing the one it had.
pub fn report_insert(r: &mut Vec<(&'static str, i64)>, key: &'static str, val: i64)
    requires
        names_unique(old(r)@),
    ensures
        names_unique(final(r)@),
        forall|k: Seq<char>|
            #[trigger] report_get(final(r)@, k) == if k == key@ {
                Some(val)
            } else {
                report_get(old(r)@, k)
            },
{
    match report_find(r, key) {
        Some(i) => {
            r.set(i, (key, val));
            proof {
                let s = r@;
                let o = old(r)@;
                assert forall|a: int, b: int| 0 <= a < b < s.len() implies (#[trigger] s[a]).0@ != (#[trigger] s[b]).0@ by {
                    assert(o[a].0@ != o[b].0@);
                }
                assert forall|k: Seq<char>| #[trigger] report_get(s, k) == if k == key@ {
                    Some(val)
                } else {
                    report_get(o, k)
                } by {
                    if k == key@ {
                        lemma_get_at(s, i as int);
                    } else if named_within(o, o.len() as int, k) {
                        let j = choose|j: int| 0 <= j < o.len() as int && j < o.len() && #[trigger] o[j].0@ == k;
                        lemma_get_at(o, j);
                        assert(s[j] == o[j]);
                        lemma_get_at(s, j);
                    } else {
                        if named_within(s, s.len() as int, k) {
                            let j = choose|j: int| 0 <= j < s.len() as int && j < s.len() && #[trigger] s[j].0@ == k;
                            assert(o[j].0@ == k);
                        }
                    }
                }
            }
        },
        None => {
            r.push((key, val));
            proof {
                let s = r@;
                let o = old(r)@;
                assert forall|a: int, b: int| 0 <= a < b < s.len() implies (#[trigger] s[a]).0@ != (#[trigger] s[b]).0@ by {
                    if b == o.len() {
                        assert(o[a].0@ != key@);
                    } else {
                        assert(o[a].0@ != o[b].0@);
                    }
                }
                assert forall|k: Seq<char>| #[trigger] report_get(s, k) == if k == key@ {
                    Some(val)
                } else {
                    report_get(o, k)
                } by {
                    if k == key@ {
                        lemma_get_at(s, o.len() as int);
                    } else if named_within(o, o.len() as int, k) {
                        let j = choose|j: int| 0 <= j < o.len() as int && j < o.len() && #[trigger] o[j].0@ == k;
                        lemma_get_at(o, j);
                        assert(s[j] == o[j]);
                        lemma_get_at(s, j);
                    } else {
                        if named_within(s, s.len() as int, k) {
                            let j = choose|j: int| 0 <= j < s.len() as int && j < s.len() && #[trigger] s[j].0@ == k;
                            assert(o[j].0@ == k);
                        }
                    }
                }
            }
        },
    }
}

/// The change from `a` to `b` of the value of `key`, reading a missing value as 0.
pub open spec fn delta(a: Seq<(&str, i64)>, b: Seq<(&str, i64)>, key: Seq<char>) -> int {
    value_or_zero(b, key) - value_or_zero(a, key)
}

/// What `compare` gives a name: its change, when either table names it and it changed.
pub open spec fn compared(a: Seq<(&str, i64)>, b: Seq<(&str, i64)>, key: Seq<char>) -> Option<i64> {
    if (named_within(a, a.len() as int, key) || named_within(b, b.len() as int, key)) && delta(a, b, key) != 0 {
        Some(delta(a, b, key) as i64)
    } else {
        None
    }
}

/// The changes from `a` to `b` of every named result, leaving out those that did not change.
pub fn compare(a: &Vec<(&'static str, i64)>, b: &Vec<(&'static str, i64)>) -> (r: Vec<(&'static str, i64)>)
    requires
        names_unique(a@),
        names_unique(b@),
        forall|k: Seq<char>| fits(#[trigger] delta(a@, b@, k)),
    ensures
        names_unique(r@),
        forall|k: Seq<char>| #[trigger] report_get(r@, k) == compared(a@, b@, k),
{
    let mut result: Vec<(&'static str, i64)> = Vec::new();
    let mut i: usize = 0;
    while i < a.len()
        invariant
            i <= a@.len(),
            names_unique(a@),
            names_unique(b@),
            forall|k: Seq<char>| fits(#[trigger] delta(a@, b@, k)),
            names_unique(result@),
            forall|k: Seq<char>| #[trigger] report_get(result@, k) == if named_within(a@, i as int, k) && delta(a@, b@, k) != 0 {
                Some(delta(a@, b@, k) as i64)
            } else {
                None
            },
        decreases a@.len() - i,
    {
        let key = a[i].0;
        let d = delta_of(a, b, key);
        proof {
            lemma_prefix_step(a@, i as int);
        }
        if d != 0 {
            report_insert(&mut result, key, d);
        }
        i = i + 1;
    }
    let mut j: usize = 0;
    while j < b.len()
        invariant
            j <= b@.len(),
            names_unique(a@),
            names_unique(b@),
            forall|k: Seq<char>| fits(#[trigger] delta(a@, b@, k)),
            names_unique(result@),
            forall|k: Seq<char>| #[trigger] report_get(result@, k) == if (named_within(a@, a@.len() as int, k)
                || named_within(b@, j as int, k)) && delta(a@, b@, k) != 0 {
                Some(delta(a@, b@, k) as i64)
            } else {
                None
            },
        decreases b@.len() - j,
    {
        let key = b[j].0;
        let d = delta_of(a, b, key);
        proof {
            lemma_prefix_step(b@, j as int);
        }
        if d != 0 {
            report_insert(&mut result, key, d);
        }
        j = j + 1;
    }
    result
}

/// A name occurs among the first `i + 1` entries iff it occurs among the first `i` or is
/// the name at `i`.
proof fn lemma_prefix_step(s: Seq<(&str, i64)>, i: int)
    requires
        0 <= i < s.len(),
    ensures
        forall|k: Seq<char>| #[trigger] named_within(s, i + 1, k) == (named_within(s, i, k) || k == s[i].0@),
{
    assert forall|k: Seq<char>| #[trigger] named_within(s, i + 1, k) == (named_within(s, i, k) || k == s[i].0@) by {
        if named_within(s, i + 1, k) && !named_within(s, i, k) {
            let j = choose|j: int| 0 <= j < i + 1 && j < s.len() && #[trigger] s[j].0@ == k;
            assert(j == i);
        }
        if k == s[i].0@ {
            assert(s[i].0@ == k);
        }
    }
}

/// The change of `key` from `a` to `b`.
fn delta_of(a: &Vec<(&'static str, i64)>, b: &Vec<(&'static str, i64)>, key: &str) -> (d: i64)
    requires
        names_unique(a@),
        names_unique(b@),
        fits(delta(a@, b@, key@)),
    ensures
        d == delta(a@, b@, key@),
{
    let va = match report_value(a, key) {
        Some(v) => v,
        None => 0,
    };
    let vb = match report_value(b, key) {
        Some(v) => v,
        None => 0,
    };
    vb - va
}

} // verus!
