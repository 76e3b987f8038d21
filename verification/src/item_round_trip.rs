use vstd::prelude::*;
use crate::base_item::{BaseItem, Rarity, Requirements, spec_rarity_named};
use crate::item::{JewelRadius, spec_radius_name, spec_radius_named};
use crate::item_text::{
    cut_suffix, is_base_line, kept_line, named_any_case, text_fold, text_read, text_start, text_step, TextState,
    item_text, marked_lines, mod_block, rarity_name, req_block, req_line, text_head, text_level, text_quality,
    text_radius, views, RawItem,
};
use crate::text::{
    ascii_lower, has_prefix, has_suffix, is_ascii_text,
    decimal_text, digit_char, digits_of, digits_value, is_digit_char, is_white, lines_from, parsed_i64, sign_split,
    signed_value, text_lines, trim_end, trim_start, trimmed, without_cr,
};

verus! {

/// Lines joined into a text, each followed by a line feed.
pub open spec fn joined(ls: Seq<Seq<char>>) -> Seq<char>
    decreases ls.len(),
{
    if ls.len() == 0 {
        Seq::empty()
    } else {
        joined(ls.drop_last()) + ls.last() + "\n"@
    }
}

/// Joining two lists of lines joins their texts.
pub proof fn lemma_joined_append(a: Seq<Seq<char>>, b: Seq<Seq<char>>)
    ensures
        joined(a + b) == joined(a) + joined(b),
    decreases b.len(),
{
    if b.len() == 0 {
        assert(a + b =~= a);
        assert(joined(a) + joined(b) =~= joined(a));
    } else {
        assert((a + b).drop_last() =~= a + b.drop_last());
        assert((a + b).last() == b.last());
        lemma_joined_append(a, b.drop_last());
        assert(joined(a + b) =~= joined(a) + joined(b));
    }
}

/// A line with no line feed.
pub open spec fn one_line(l: Seq<char>) -> bool {
    forall|i: int| 0 <= i < l.len() ==> (#[trigger] l[i]) != '\n'
}

/// A line followed by a line feed is read as that line, the carriage return before the
/// feed dropped.
proof fn lemma_lines_from_line(l: Seq<char>, rest: Seq<char>, cur: Seq<char>)
    requires
        one_line(l),
    ensures
        lines_from(l + seq!['\n'] + rest, cur) == seq![without_cr(cur + l)] + lines_from(rest, Seq::empty()),
    decreases l.len(),
{
    let s = l + seq!['\n'] + rest;
    if l.len() == 0 {
        assert(s[0] == '\n');
        assert(s.skip(1) =~= rest);
        assert(cur + l =~= cur);
    } else {
        assert(s[0] == l[0]);
        assert(s.skip(1) =~= l.skip(1) + seq!['\n'] + rest);
        lemma_lines_from_line(l.skip(1), rest, cur.push(l[0]));
        assert(cur.push(l[0]) + l.skip(1) =~= cur + l);
    }
}

/// The lines of joined lines are those lines, when none holds a line feed or ends with a
/// carriage return.
pub proof fn lemma_text_lines_joined(ls: Seq<Seq<char>>)
    requires
        forall|i: int| 0 <= i < ls.len() ==> one_line(#[trigger] ls[i]) && without_cr(ls[i]) == ls[i],
    ensures
        text_lines(joined(ls)) == ls,
    decreases ls.len(),
{
    reveal_strlit("\n");
    if ls.len() == 0 {
    } else {
        let first = seq![ls[0]];
        let rest = ls.drop_first();
        assert(ls =~= first + rest);
        lemma_joined_append(first, rest);
        assert(first.drop_last() =~= Seq::<Seq<char>>::empty());
        assert("\n"@ =~= seq!['\n']);
        assert(joined(first.drop_last()) == Seq::<char>::empty());
        assert(joined(first) =~= ls[0] + seq!['\n']);
        assert(joined(ls) =~= ls[0] + seq!['\n'] + joined(rest));
        lemma_lines_from_line(ls[0], joined(rest), Seq::empty());
        assert(Seq::<char>::empty() + ls[0] =~= ls[0]);
        assert forall|i: int| 0 <= i < rest.len() implies one_line(#[trigger] rest[i]) && without_cr(rest[i]) == rest[i] by {
            assert(rest[i] == ls[i + 1]);
        }
        lemma_text_lines_joined(rest);
        assert(seq![ls[0]] + rest =~= ls);
    }
}

/// A line whose first and last characters are no whitespace is its own trimmed form.
pub proof fn lemma_trimmed_tidy(l: Seq<char>)
    requires
        l.len() > 0,
        !is_white(l[0]),
        !is_white(l.last()),
    ensures
        trimmed(l) == l,
{
}

/// The digits of a number are ASCII digits and stand for it.
pub proof fn lemma_digits(k: nat)
    ensures
        digits_of(k).len() > 0,
        forall|i: int| 0 <= i < digits_of(k).len() ==> is_digit_char(#[trigger] digits_of(k)[i]),
        digits_value(digits_of(k)) == k,
    decreases k,
{
    assert(digit_char(k as int % 10) as u32 == 48 + k % 10);
    if k < 10 {
        assert(digit_char(k as int) as u32 == 48 + k);
        assert(digits_of(k).drop_last() =~= Seq::<char>::empty());
        assert(digits_value(Seq::<char>::empty()) == 0);
        assert(digits_value(digits_of(k)) == k);
    } else {
        assert((k / 10) * 10 + k % 10 == k) by (nonlinear_arith);
        lemma_digits(k / 10);
        let d = digits_of(k / 10).push(digit_char(k as int % 10));
        assert(d.drop_last() =~= digits_of(k / 10));
        assert(forall|i: int| 0 <= i < d.len() - 1 ==> d[i] == digits_of(k / 10)[i]);
        assert(digits_value(d) == digits_value(digits_of(k / 10)) * 10 + (k % 10));
    }
}

/// A number's decimal text reads back as the number, and is made of a minus sign and
/// digits.
pub proof fn lemma_decimal_round_trip(n: i64)
    ensures
        parsed_i64(decimal_text(n)) == Some(n),
        decimal_text(n).len() > 0,
        is_digit_char(decimal_text(n).last()),
        forall|i: int| 0 <= i < decimal_text(n).len() ==> is_digit_char(#[trigger] decimal_text(n)[i]) || decimal_text(n)[i] == '-',
{
    let t = decimal_text(n);
    if n < 0 {
        let k = (-(n as int)) as nat;
        lemma_digits(k);
        assert(sign_split(t).1 =~= digits_of(k));
        assert(t.last() == digits_of(k).last());
        assert forall|i: int| 0 <= i < t.len() implies is_digit_char(#[trigger] t[i]) || t[i] == '-' by {
            if i > 0 {
                assert(t[i] == digits_of(k)[i - 1]);
            }
        }
    } else {
        lemma_digits(n as nat);
        assert(is_digit_char(t[0]));
        assert(sign_split(t).1 =~= t);
    }
}

/// Joining one line.
proof fn lemma_joined_one(a: Seq<char>)
    ensures
        joined(seq![a]) == a + "\n"@,
{
    assert(seq![a].drop_last() =~= Seq::<Seq<char>>::empty());
    assert(joined(Seq::<Seq<char>>::empty()) == Seq::<char>::empty());
    assert(joined(seq![a]) =~= a + "\n"@);
}

/// Joining two lines.
proof fn lemma_joined_two(a: Seq<char>, b: Seq<char>)
    ensures
        joined(seq![a, b]) == a + "\n"@ + b + "\n"@,
{
    lemma_joined_append(seq![a], seq![b]);
    assert(seq![a] + seq![b] =~= seq![a, b]);
    lemma_joined_one(a);
    lemma_joined_one(b);
    assert(joined(seq![a, b]) =~= a + "\n"@ + b + "\n"@);
}

/// The lines of a block of modifiers: each with its mark, then a separator; none when
/// there is no modifier.
pub open spec fn mod_lines(mods: Seq<Seq<char>>, mark: Seq<char>) -> Seq<Seq<char>> {
    if mods.len() == 0 {
        Seq::empty()
    } else {
        mods.map_values(|m: Seq<char>| m + mark) + seq!["--------"@]
    }
}

/// A requirement's line, none for a zero requirement.
pub open spec fn req_lines_one(label: Seq<char>, v: u32) -> Seq<Seq<char>> {
    if v > 0 { seq![label + decimal_text(v as i64)] } else { Seq::empty() }
}

/// The lines of the requirements block of a base.
pub open spec fn req_lines(reqs: Option<Requirements>) -> Seq<Seq<char>> {
    match reqs {
        Some(r) => (if r.level > 0 || r.strength > 0 || r.dexterity > 0 || r.intelligence > 0 {
            seq!["Requirements:"@] + req_lines_one("Level: "@, r.level) + req_lines_one("Str: "@, r.strength)
                + req_lines_one("Dex: "@, r.dexterity) + req_lines_one("Int: "@, r.intelligence)
        } else {
            Seq::empty()
        }) + seq!["--------"@],
        None => Seq::empty(),
    }
}

/// The opening lines of an item's text.
pub open spec fn head_lines(item: RawItem, base: BaseItem) -> Seq<Seq<char>> {
    seq!["Rarity: "@ + rarity_name(item.rarity)]
        + (if item.name@.len() != 0 { seq![item.name@] } else { Seq::empty() })
        + seq![base.name@, "--------"@]
}

/// The lines that come after the opening ones and before the modifiers.
pub open spec fn info_lines(item: RawItem, base: BaseItem) -> Seq<Seq<char>> {
    (match item.radius {
        Some(r) => seq!["Radius: "@ + spec_radius_name(r), "--------"@],
        None => Seq::empty(),
    }) + (if item.quality > 0 {
        seq!["Quality: +"@ + decimal_text(item.quality) + "%"@, "--------"@]
    } else {
        Seq::empty()
    }) + req_lines(base.requirements) + seq!["Item Level: "@ + decimal_text(item.item_level), "--------"@]
}

/// The modifier lines of an item's text, and its corrupted mark.
pub open spec fn tail_lines(item: RawItem) -> Seq<Seq<char>> {
    mod_lines(views(item.mods_enchant@), " (enchant)"@) + mod_lines(views(item.mods_impl@), " (implicit)"@)
        + mod_lines(views(item.mods_expl@), ""@) + (if item.corrupted { seq!["Corrupted"@] } else { Seq::empty() })
}

/// The lines of an item's text, in order.
pub open spec fn item_lines(item: RawItem, base: BaseItem) -> Seq<Seq<char>> {
    head_lines(item, base) + info_lines(item, base) + tail_lines(item)
}

/// Marked modifier lines are the joined marked modifiers.
proof fn lemma_marked_joined(mods: Seq<Seq<char>>, mark: Seq<char>)
    ensures
        marked_lines(mods, mark) == joined(mods.map_values(|m: Seq<char>| m + mark)),
    decreases mods.len(),
{
    let f = |m: Seq<char>| m + mark;
    if mods.len() > 0 {
        lemma_marked_joined(mods.drop_last(), mark);
        assert(mods.map_values(f).drop_last() =~= mods.drop_last().map_values(f));
        assert(marked_lines(mods, mark) =~= joined(mods.map_values(f)));
    } else {
        assert(mods.map_values(f) =~= Seq::<Seq<char>>::empty());
    }
}

proof fn lemma_mod_block_joined(mods: Seq<Seq<char>>, mark: Seq<char>)
    ensures
        mod_block(mods, mark) == joined(mod_lines(mods, mark)),
{
    reveal_strlit("--------\n");
    reveal_strlit("--------");
    reveal_strlit("\n");
    if mods.len() > 0 {
        let f = |m: Seq<char>| m + mark;
        lemma_marked_joined(mods, mark);
        lemma_joined_append(mods.map_values(f), seq!["--------"@]);
        lemma_joined_one("--------"@);
        assert(mod_block(mods, mark) =~= joined(mod_lines(mods, mark)));
    } else {
        assert(joined(Seq::<Seq<char>>::empty()) == Seq::<char>::empty());
    }
}

proof fn lemma_req_one_joined(label: Seq<char>, v: u32)
    ensures
        req_line(label, v) == joined(req_lines_one(label, v)),
{
    if v > 0 {
        lemma_joined_one(label + decimal_text(v as i64));
    } else {
        assert(joined(Seq::<Seq<char>>::empty()) == Seq::<char>::empty());
    }
}

proof fn lemma_req_joined(reqs: Option<Requirements>)
    ensures
        req_block(reqs) == joined(req_lines(reqs)),
{
    reveal_strlit("--------\n");
    reveal_strlit("--------");
    reveal_strlit("Requirements:\n");
    reveal_strlit("Requirements:");
    reveal_strlit("\n");
    match reqs {
        Some(r) => {
            lemma_joined_one("--------"@);
            let sep = seq!["--------"@];
            if r.level > 0 || r.strength > 0 || r.dexterity > 0 || r.intelligence > 0 {
                let a = seq!["Requirements:"@];
                let b = req_lines_one("Level: "@, r.level);
                let c = req_lines_one("Str: "@, r.strength);
                let d = req_lines_one("Dex: "@, r.dexterity);
                let e = req_lines_one("Int: "@, r.intelligence);
                lemma_joined_append(a, b);
                lemma_joined_append(a + b, c);
                lemma_joined_append(a + b + c, d);
                lemma_joined_append(a + b + c + d, e);
                lemma_joined_append(a + b + c + d + e, sep);
                lemma_joined_one("Requirements:"@);
                lemma_req_one_joined("Level: "@, r.level);
                lemma_req_one_joined("Str: "@, r.strength);
                lemma_req_one_joined("Dex: "@, r.dexterity);
                lemma_req_one_joined("Int: "@, r.intelligence);
                assert(req_block(reqs) =~= joined(req_lines(reqs)));
            } else {
                assert(Seq::<Seq<char>>::empty() + sep =~= sep);
                assert(req_block(reqs) =~= joined(req_lines(reqs)));
            }
        },
        None => {
            assert(joined(Seq::<Seq<char>>::empty()) == Seq::<char>::empty());
        },
    }
}

proof fn lemma_head_joined(item: RawItem, base: BaseItem)
    ensures
        text_head(item, base) == joined(head_lines(item, base)),
{
    reveal_strlit("--------\n");
    reveal_strlit("--------");
    reveal_strlit("\n");
    let e = Seq::<Seq<char>>::empty();
    assert(joined(e) == Seq::<char>::empty());
    let h1 = seq!["Rarity: "@ + rarity_name(item.rarity)];
    let h2 = if item.name@.len() != 0 { seq![item.name@] } else { e };
    let h3 = seq![base.name@, "--------"@];
    lemma_joined_append(h1, h2);
    lemma_joined_append(h1 + h2, h3);
    lemma_joined_one("Rarity: "@ + rarity_name(item.rarity));
    lemma_joined_one(item.name@);
    lemma_joined_two(base.name@, "--------"@);
    assert(text_head(item, base) =~= joined(head_lines(item, base)));
}

proof fn lemma_info_joined(item: RawItem, base: BaseItem)
    ensures
        text_radius(item) + text_quality(item) + req_block(base.requirements) + text_level(item)
            == joined(info_lines(item, base)),
{
    reveal_strlit("--------\n");
    reveal_strlit("--------");
    reveal_strlit("\n");
    reveal_strlit("%\n");
    reveal_strlit("%");
    let e = Seq::<Seq<char>>::empty();
    assert(joined(e) == Seq::<char>::empty());
    let i1 = match item.radius {
        Some(r) => seq!["Radius: "@ + spec_radius_name(r), "--------"@],
        None => e,
    };
    let i2 = if item.quality > 0 { seq!["Quality: +"@ + decimal_text(item.quality) + "%"@, "--------"@] } else { e };
    let i3 = req_lines(base.requirements);
    let i4 = seq!["Item Level: "@ + decimal_text(item.item_level), "--------"@];
    lemma_joined_append(i1, i2);
    lemma_joined_append(i1 + i2, i3);
    lemma_joined_append(i1 + i2 + i3, i4);
    if let Some(r) = item.radius {
        lemma_joined_two("Radius: "@ + spec_radius_name(r), "--------"@);
    }
    lemma_joined_two("Quality: +"@ + decimal_text(item.quality) + "%"@, "--------"@);
    lemma_joined_two("Item Level: "@ + decimal_text(item.item_level), "--------"@);
    lemma_req_joined(base.requirements);
    assert(text_radius(item) =~= joined(i1));
    assert(text_quality(item) =~= joined(i2));
    assert(text_level(item) =~= joined(i4));
}

proof fn lemma_tail_joined(item: RawItem)
    ensures
        mod_block(views(item.mods_enchant@), " (enchant)"@) + mod_block(views(item.mods_impl@), " (implicit)"@)
            + mod_block(views(item.mods_expl@), ""@) + (if item.corrupted { "Corrupted\n"@ } else { Seq::empty() })
            == joined(tail_lines(item)),
{
    reveal_strlit("Corrupted\n");
    reveal_strlit("Corrupted");
    reveal_strlit("\n");
    let e = Seq::<Seq<char>>::empty();
    assert(joined(e) == Seq::<char>::empty());
    let t1 = mod_lines(views(item.mods_enchant@), " (enchant)"@);
    let t2 = mod_lines(views(item.mods_impl@), " (implicit)"@);
    let t3 = mod_lines(views(item.mods_expl@), ""@);
    let t4 = if item.corrupted { seq!["Corrupted"@] } else { e };
    lemma_joined_append(t1, t2);
    lemma_joined_append(t1 + t2, t3);
    lemma_joined_append(t1 + t2 + t3, t4);
    lemma_mod_block_joined(views(item.mods_enchant@), " (enchant)"@);
    lemma_mod_block_joined(views(item.mods_impl@), " (implicit)"@);
    lemma_mod_block_joined(views(item.mods_expl@), ""@);
    lemma_joined_one("Corrupted"@);
    assert((if item.corrupted { "Corrupted\n"@ } else { Seq::<char>::empty() }) =~= joined(t4));
}

/// An item's text is its lines joined.
#[verifier::spinoff_prover]
pub proof fn lemma_item_text_joined(item: RawItem, base: BaseItem)
    ensures
        item_text(item, base) == joined(item_lines(item, base)),
{
    let h = head_lines(item, base);
    let i = info_lines(item, base);
    let t = tail_lines(item);
    lemma_head_joined(item, base);
    lemma_info_joined(item, base);
    lemma_tail_joined(item);
    lemma_joined_append(h, i);
    lemma_joined_append(h + i, t);
    let a = text_head(item, base);
    let b = text_radius(item);
    let c = text_quality(item);
    let d = req_block(base.requirements);
    let e = text_level(item);
    let f = mod_block(views(item.mods_enchant@), " (enchant)"@);
    let g = mod_block(views(item.mods_impl@), " (implicit)"@);
    let k = mod_block(views(item.mods_expl@), ""@);
    let l = if item.corrupted { "Corrupted\n"@ } else { Seq::<char>::empty() };
    assert(item_text(item, base) == a + b + c + d + e + f + g + k + l);
    assert(a + b + c + d + e + f + g + k + l =~= a + (b + c + d + e) + (f + g + k + l));
}

/// The state after reading the lines `ls` from the state `st`.
pub open spec fn fold_lines(st: TextState, ls: Seq<Seq<char>>, bases: Seq<Seq<char>>) -> TextState
    decreases ls.len(),
{
    if ls.len() == 0 {
        st
    } else {
        let prev = fold_lines(st, ls.drop_last(), bases);
        let l = trimmed(ls.last());
        if kept_line(l) { text_step(prev, l, bases) } else { prev }
    }
}

proof fn lemma_fold_start(ls: Seq<Seq<char>>, n: int, bases: Seq<Seq<char>>)
    requires
        0 <= n <= ls.len(),
    ensures
        text_fold(ls, n, bases) == fold_lines(text_start(), ls.take(n), bases),
    decreases n,
{
    if n > 0 {
        lemma_fold_start(ls, n - 1, bases);
        assert(ls.take(n).drop_last() =~= ls.take(n - 1));
    } else {
        assert(ls.take(0) =~= Seq::<Seq<char>>::empty());
    }
}

proof fn lemma_fold_append(st: TextState, a: Seq<Seq<char>>, b: Seq<Seq<char>>, bases: Seq<Seq<char>>)
    ensures
        fold_lines(st, a + b, bases) == fold_lines(fold_lines(st, a, bases), b, bases),
    decreases b.len(),
{
    if b.len() == 0 {
        assert(a + b =~= a);
    } else {
        lemma_fold_append(st, a, b.drop_last(), bases);
        assert((a + b).drop_last() =~= a + b.drop_last());
    }
}

/// A line with no line feed, no whitespace at its ends.
pub open spec fn tidy(l: Seq<char>) -> bool {
    &&& l.len() > 0
    &&& one_line(l)
    &&& !is_white(l[0])
    &&& !is_white(l.last())
}

/// A tidy line other than the separator is read as it is.
proof fn lemma_fold_one(st: TextState, l: Seq<char>, bases: Seq<Seq<char>>)
    requires
        tidy(l),
        l != "--------"@,
    ensures
        fold_lines(st, seq![l], bases) == text_step(st, l, bases),
{
    lemma_trimmed_tidy(l);
    assert(seq![l].drop_last() =~= Seq::<Seq<char>>::empty());
    assert(fold_lines(st, Seq::<Seq<char>>::empty(), bases) == st);
}

/// The separator is skipped.
proof fn lemma_fold_sep(st: TextState, bases: Seq<Seq<char>>)
    ensures
        fold_lines(st, seq!["--------"@], bases) == st,
{
    reveal_strlit("--------");
    lemma_trimmed_tidy("--------"@);
    assert(seq!["--------"@].drop_last() =~= Seq::<Seq<char>>::empty());
    assert(fold_lines(st, Seq::<Seq<char>>::empty(), bases) == st);
    assert(!kept_line(trimmed("--------"@)));
}

/// `s` starting with `q` does not start with `p` when they differ at `i`.
proof fn lemma_not_prefix(s: Seq<char>, p: Seq<char>, q: Seq<char>, i: int)
    requires
        has_prefix(s, q),
        0 <= i < p.len(),
        i < q.len(),
        p[i] != q[i],
    ensures
        !has_prefix(s, p),
{
    if has_prefix(s, p) {
        assert(s.take(p.len() as int)[i] == s.take(q.len() as int)[i]);
    }
}

/// `s` ending with `q` does not end with `p` when they differ `i` places from the end.
proof fn lemma_not_suffix(s: Seq<char>, p: Seq<char>, q: Seq<char>, i: int)
    requires
        has_suffix(s, q),
        1 <= i <= p.len(),
        i <= q.len(),
        p[p.len() - i] != q[q.len() - i],
    ensures
        !has_suffix(s, p),
{
    if has_suffix(s, p) {
        assert(s.skip(s.len() - p.len())[p.len() - i] == s[s.len() - i]);
        assert(s.skip(s.len() - q.len())[q.len() - i] == s[s.len() - i]);
    }
}

proof fn lemma_prefix_of(p: Seq<char>, x: Seq<char>)
    ensures
        has_prefix(p + x, p),
        (p + x).skip(p.len() as int) == x,
{
    assert((p + x).take(p.len() as int) =~= p);
    assert((p + x).skip(p.len() as int) =~= x);
}

proof fn lemma_suffix_of(x: Seq<char>, p: Seq<char>)
    ensures
        has_suffix(x + p, p),
        (x + p).take((x + p).len() - p.len()) == x,
{
    assert((x + p).skip((x + p).len() - p.len()) =~= p);
    assert((x + p).take((x + p).len() - p.len()) =~= x);
}

/// A line that does not end with a closing bracket carries no mark.
proof fn lemma_no_marks(l: Seq<char>)
    requires
        l.len() > 0,
        l.last() != ')',
    ensures
        !has_suffix(l, " (augmented)"@),
        !has_suffix(l, " (fractured)"@),
        !has_suffix(l, " (enchant)"@),
        !has_suffix(l, " (implicit)"@),
        !has_suffix(l, " (crafted)"@),
        cut_suffix(cut_suffix(l, " (augmented)"@), " (fractured)"@) == l,
{
    reveal_strlit(" (augmented)");
    reveal_strlit(" (fractured)");
    reveal_strlit(" (enchant)");
    reveal_strlit(" (implicit)");
    reveal_strlit(" (crafted)");
    if has_suffix(l, " (augmented)"@) { assert(l.skip(l.len() - 12)[11] == l.last()); }
    if has_suffix(l, " (fractured)"@) { assert(l.skip(l.len() - 12)[11] == l.last()); }
    if has_suffix(l, " (enchant)"@) { assert(l.skip(l.len() - 10)[9] == l.last()); }
    if has_suffix(l, " (implicit)"@) { assert(l.skip(l.len() - 11)[10] == l.last()); }
    if has_suffix(l, " (crafted)"@) { assert(l.skip(l.len() - 10)[9] == l.last()); }
}

/// A line of free text that is read as a modifier or a name: tidy, no separator, no
/// augmented or fractured mark, none of the openings of the lines the reader takes for
/// the rarity, item level, quality, defences or radius, not the corrupted mark, and none
/// of the lines it skips.
pub open spec fn reads_plain(l: Seq<char>) -> bool {
    &&& tidy(l)
    &&& l != "--------"@
    &&& !has_suffix(l, " (augmented)"@)
    &&& !has_suffix(l, " (fractured)"@)
    &&& !has_prefix(l, "Rarity: "@)
    &&& l != "Corrupted"@
    &&& !has_prefix(l, "Item Level: "@)
    &&& !has_prefix(l, "Quality: +"@)
    &&& !has_prefix(l, "Armour: "@)
    &&& !has_prefix(l, "Evasion Rating: "@)
    &&& !has_prefix(l, "Energy Shield: "@)
    &&& !has_prefix(l, "Radius: "@)
    &&& !is_base_line(l)
}

proof fn lemma_step_enchant(st: TextState, m: Seq<char>, bases: Seq<Seq<char>>)
    requires
        st.found_class,
        reads_plain(m + " (enchant)"@),
    ensures
        text_step(st, m + " (enchant)"@, bases) == (TextState { mods_enchant: st.mods_enchant.push(m), ..st }),
{
    lemma_suffix_of(m, " (enchant)"@);
}

proof fn lemma_step_implicit(st: TextState, m: Seq<char>, bases: Seq<Seq<char>>)
    requires
        st.found_class,
        reads_plain(m + " (implicit)"@),
    ensures
        text_step(st, m + " (implicit)"@, bases) == (TextState { mods_impl: st.mods_impl.push(m), ..st }),
{
    reveal_strlit(" (enchant)");
    reveal_strlit(" (implicit)");
    lemma_suffix_of(m, " (implicit)"@);
    lemma_not_suffix(m + " (implicit)"@, " (enchant)"@, " (implicit)"@, 3);
}

/// An explicit modifier's line: read as a modifier, with no enchant, implicit or crafted
/// mark.
pub open spec fn explicit_ok(m: Seq<char>) -> bool {
    &&& reads_plain(m)
    &&& !has_suffix(m, " (enchant)"@)
    &&& !has_suffix(m, " (implicit)"@)
    &&& !has_suffix(m, " (crafted)"@)
}

proof fn lemma_step_explicit(st: TextState, m: Seq<char>, bases: Seq<Seq<char>>)
    requires
        st.found_class,
        explicit_ok(m),
    ensures
        text_step(st, m, bases) == (TextState { mods_expl: st.mods_expl.push(m), ..st }),
{
}

/// The name line of an item: read as free text, with no enchant or implicit mark, and
/// naming no base, also without a "Synthesised " opening.
pub open spec fn name_ok(n: Seq<char>, bases: Seq<Seq<char>>) -> bool {
    &&& reads_plain(n)
    &&& !has_suffix(n, " (enchant)"@)
    &&& !has_suffix(n, " (implicit)"@)
    &&& !bases.contains(n)
    &&& !(has_prefix(n, "Synthesised "@) && bases.contains(n.skip("Synthesised "@.len() as int)))
}

proof fn lemma_step_name(st: TextState, n: Seq<char>, bases: Seq<Seq<char>>)
    requires
        !st.found_class,
        !st.found_name,
        name_ok(n, bases),
    ensures
        text_step(st, n, bases) == (TextState { name: n, found_name: true, ..st }),
{
}

/// The base line of an item: tidy, no separator or mark, not taken for the rarity, no
/// "Synthesised " opening, and one of the bases.
pub open spec fn base_ok(b: Seq<char>, bases: Seq<Seq<char>>) -> bool {
    &&& tidy(b)
    &&& b != "--------"@
    &&& !has_suffix(b, " (augmented)"@)
    &&& !has_suffix(b, " (fractured)"@)
    &&& !has_prefix(b, "Rarity: "@)
    &&& !has_prefix(b, "Synthesised "@)
    &&& bases.contains(b)
}

proof fn lemma_step_base(st: TextState, b: Seq<char>, bases: Seq<Seq<char>>)
    requires
        !st.found_class,
        base_ok(b, bases),
    ensures
        text_step(st, b, bases) == (TextState { base_item: b, found_class: true, ..st }),
{
}

/// A rarity's name is ASCII and read back as the rarity.
proof fn lemma_rarity_name(r: Rarity)
    ensures
        rarity_name(r).len() > 0,
        is_ascii_text(rarity_name(r)),
        spec_rarity_named(ascii_lower(rarity_name(r))) == Some(r),
        !is_white(rarity_name(r).last()),
        rarity_name(r).last() != ')',
        one_line(rarity_name(r)),
{
    reveal_strlit("Normal");
    reveal_strlit("Magic");
    reveal_strlit("Rare");
    reveal_strlit("Unique");
    reveal_strlit("normal");
    reveal_strlit("magic");
    reveal_strlit("rare");
    reveal_strlit("unique");
    assert("magic"@ != "normal"@) by { assert("magic"@[0] != "normal"@[0]); }
    assert("rare"@ != "normal"@) by { assert("rare"@[0] != "normal"@[0]); }
    assert("rare"@ != "magic"@) by { assert("rare"@[0] != "magic"@[0]); }
    assert("unique"@ != "normal"@) by { assert("unique"@[0] != "normal"@[0]); }
    assert("unique"@ != "magic"@) by { assert("unique"@[0] != "magic"@[0]); }
    assert("unique"@ != "rare"@) by { assert("unique"@[0] != "rare"@[0]); }
    match r {
        Rarity::Normal => assert(ascii_lower("Normal"@) =~= "normal"@),
        Rarity::Magic => assert(ascii_lower("Magic"@) =~= "magic"@),
        Rarity::Rare => assert(ascii_lower("Rare"@) =~= "rare"@),
        Rarity::Unique => assert(ascii_lower("Unique"@) =~= "unique"@),
    }
}

/// A radius's name is ASCII, tidy, and read back as the radius.
proof fn lemma_radius_name(r: JewelRadius)
    ensures
        spec_radius_name(r).len() > 0,
        is_ascii_text(spec_radius_name(r)),
        spec_radius_named(ascii_lower(spec_radius_name(r))) == Some(r),
        !is_white(spec_radius_name(r).last()),
        spec_radius_name(r).last() != ')',
        one_line(spec_radius_name(r)),
{
    crate::item::law_radius_name_any_case(r, spec_radius_name(r));
    reveal_strlit("Small");
    reveal_strlit("Medium");
    reveal_strlit("Large");
    reveal_strlit("Very Large");
    reveal_strlit("Massive");
    reveal_strlit("Variable");
}

proof fn lemma_step_rarity(st: TextState, r: Rarity, bases: Seq<Seq<char>>)
    ensures
        text_step(st, "Rarity: "@ + rarity_name(r), bases) == (TextState { rarity: r, ..st }),
        tidy("Rarity: "@ + rarity_name(r)),
        "Rarity: "@ + rarity_name(r) != "--------"@,
{
    reveal_strlit("Rarity: ");
    reveal_strlit("--------");
    let l = "Rarity: "@ + rarity_name(r);
    lemma_rarity_name(r);
    lemma_prefix_of("Rarity: "@, rarity_name(r));
    assert(l.last() == rarity_name(r).last());
    lemma_no_marks(l);
    assert(l[0] == 'R');
}

proof fn lemma_reveal_heads()
    ensures
        "Rarity: "@ =~= seq!['R', 'a', 'r', 'i', 't', 'y', ':', ' '],
        "Corrupted"@ =~= seq!['C', 'o', 'r', 'r', 'u', 'p', 't', 'e', 'd'],
        "Item Level: "@ =~= seq!['I', 't', 'e', 'm', ' ', 'L', 'e', 'v', 'e', 'l', ':', ' '],
        "Quality: +"@ =~= seq!['Q', 'u', 'a', 'l', 'i', 't', 'y', ':', ' ', '+'],
        "Armour: "@ =~= seq!['A', 'r', 'm', 'o', 'u', 'r', ':', ' '],
        "Evasion Rating: "@.len() == 16 && "Evasion Rating: "@[0] == 'E',
        "Energy Shield: "@.len() == 15 && "Energy Shield: "@[0] == 'E',
        "Radius: "@ =~= seq!['R', 'a', 'd', 'i', 'u', 's', ':', ' '],
        "--------"@.len() == 8 && "--------"@[0] == '-',
        "Requirements:"@.len() == 13 && "Requirements:"@[0] == 'R' && "Requirements:"@[1] == 'e'
            && "Requirements:"@[2] == 'q' && "Requirements:"@[12] == ':',
        "Level: "@ =~= seq!['L', 'e', 'v', 'e', 'l', ':', ' '],
        "Level:"@ =~= seq!['L', 'e', 'v', 'e', 'l', ':'],
        "Str: "@ =~= seq!['S', 't', 'r', ':', ' '],
        "Str:"@ =~= seq!['S', 't', 'r', ':'],
        "Dex: "@ =~= seq!['D', 'e', 'x', ':', ' '],
        "Dex:"@ =~= seq!['D', 'e', 'x', ':'],
        "Int: "@ =~= seq!['I', 'n', 't', ':', ' '],
        "Int:"@ =~= seq!['I', 'n', 't', ':'],
        "%"@ =~= seq!['%'],
{
    reveal_strlit("Rarity: ");
    reveal_strlit("Corrupted");
    reveal_strlit("Item Level: ");
    reveal_strlit("Quality: +");
    reveal_strlit("Armour: ");
    reveal_strlit("Evasion Rating: ");
    reveal_strlit("Energy Shield: ");
    reveal_strlit("Radius: ");
    reveal_strlit("--------");
    reveal_strlit("Requirements:");
    reveal_strlit("Level: ");
    reveal_strlit("Level:");
    reveal_strlit("Str: ");
    reveal_strlit("Str:");
    reveal_strlit("Dex: ");
    reveal_strlit("Dex:");
    reveal_strlit("Int: ");
    reveal_strlit("Int:");
    reveal_strlit("%");
}

/// A line opening with `h`, whose first character is none of those that open the lines
/// the reader takes before the skipped ones, is not taken for any of them.
proof fn lemma_not_heads(l: Seq<char>, h: Seq<char>)
    requires
        has_prefix(l, h),
        h.len() >= 1,
        h[0] != 'R' && h[0] != 'C' && h[0] != 'I' && h[0] != 'Q' && h[0] != 'A' && h[0] != 'E',
    ensures
        !has_prefix(l, "Rarity: "@),
        l != "Corrupted"@,
        !has_prefix(l, "Item Level: "@),
        !has_prefix(l, "Quality: +"@),
        !has_prefix(l, "Armour: "@),
        !has_prefix(l, "Evasion Rating: "@),
        !has_prefix(l, "Energy Shield: "@),
        !has_prefix(l, "Radius: "@),
{
    lemma_reveal_heads();
    lemma_not_prefix(l, "Rarity: "@, h, 0);
    lemma_not_prefix(l, "Item Level: "@, h, 0);
    lemma_not_prefix(l, "Quality: +"@, h, 0);
    lemma_not_prefix(l, "Armour: "@, h, 0);
    lemma_not_prefix(l, "Evasion Rating: "@, h, 0);
    lemma_not_prefix(l, "Energy Shield: "@, h, 0);
    lemma_not_prefix(l, "Radius: "@, h, 0);
    assert(l.take(h.len() as int)[0] == l[0]);
    if l == "Corrupted"@ {
        assert(l[0] == 'C');
    }
}

proof fn lemma_step_radius(st: TextState, r: JewelRadius, bases: Seq<Seq<char>>)
    requires
        st.found_class,
    ensures
        text_step(st, "Radius: "@ + spec_radius_name(r), bases) == (TextState { radius: Some(r), ..st }),
        tidy("Radius: "@ + spec_radius_name(r)),
        "Radius: "@ + spec_radius_name(r) != "--------"@,
{
    lemma_reveal_heads();
    let l = "Radius: "@ + spec_radius_name(r);
    lemma_radius_name(r);
    lemma_prefix_of("Radius: "@, spec_radius_name(r));
    assert(l.last() == spec_radius_name(r).last());
    lemma_no_marks(l);
    lemma_not_prefix(l, "Rarity: "@, "Radius: "@, 2);
    lemma_not_prefix(l, "Item Level: "@, "Radius: "@, 0);
    lemma_not_prefix(l, "Quality: +"@, "Radius: "@, 0);
    lemma_not_prefix(l, "Armour: "@, "Radius: "@, 0);
    lemma_not_prefix(l, "Evasion Rating: "@, "Radius: "@, 0);
    lemma_not_prefix(l, "Energy Shield: "@, "Radius: "@, 0);
    assert(l[0] == 'R');
    assert(l != "Corrupted"@) by { assert("Corrupted"@[0] == 'C'); }
    assert(l != "--------"@) by { assert("--------"@[0] == '-'); }
}

proof fn lemma_quality_line(q: i64)
    ensures
        ({
            let l = "Quality: +"@ + decimal_text(q) + "%"@;
            let x = l.skip("Quality: +"@.len() as int);
            &&& tidy(l)
            &&& l != "--------"@
            &&& has_prefix(l, "Quality: +"@)
            &&& has_suffix(x, "%"@)
            &&& x.take(x.len() - "%"@.len()) == decimal_text(q)
            &&& cut_suffix(cut_suffix(l, " (augmented)"@), " (fractured)"@) == l
            &&& !has_prefix(l, "Rarity: "@)
            &&& l != "Corrupted"@
            &&& !has_prefix(l, "Item Level: "@)
        }),
{
    lemma_reveal_heads();
    lemma_decimal_round_trip(q);
    let x = decimal_text(q) + "%"@;
    let l = "Quality: +"@ + x;
    assert(l =~= "Quality: +"@ + decimal_text(q) + "%"@);
    lemma_prefix_of("Quality: +"@, x);
    lemma_suffix_of(decimal_text(q), "%"@);
    assert(l.last() == '%');
    lemma_no_marks(l);
    lemma_not_prefix(l, "Rarity: "@, "Quality: +"@, 0);
    lemma_not_prefix(l, "Item Level: "@, "Quality: +"@, 0);
    assert(l[0] == 'Q');
    assert(l != "Corrupted"@) by { assert("Corrupted"@[0] == 'C'); }
    assert(l != "--------"@) by { assert("--------"@[0] == '-'); }
    assert forall|i: int| 0 <= i < l.len() implies (#[trigger] l[i]) != '\n' by {
        if i >= 10 && i < l.len() - 1 {
            assert(l[i] == decimal_text(q)[i - 10]);
        }
    }
}

proof fn lemma_step_quality(st: TextState, q: i64, bases: Seq<Seq<char>>)
    requires
        st.found_class,
    ensures
        text_step(st, "Quality: +"@ + decimal_text(q) + "%"@, bases) == (TextState { quality: q, ..st }),
        tidy("Quality: +"@ + decimal_text(q) + "%"@),
        "Quality: +"@ + decimal_text(q) + "%"@ != "--------"@,
{
    lemma_quality_line(q);
    lemma_decimal_round_trip(q);
}

proof fn lemma_step_item_level(st: TextState, n: i64, bases: Seq<Seq<char>>)
    requires
        st.found_class,
    ensures
        text_step(st, "Item Level: "@ + decimal_text(n), bases) == (TextState { item_level: n, ..st }),
        tidy("Item Level: "@ + decimal_text(n)),
        "Item Level: "@ + decimal_text(n) != "--------"@,
{
    lemma_reveal_heads();
    lemma_decimal_round_trip(n);
    let l = "Item Level: "@ + decimal_text(n);
    lemma_prefix_of("Item Level: "@, decimal_text(n));
    assert(l.last() == decimal_text(n).last());
    lemma_no_marks(l);
    lemma_not_prefix(l, "Rarity: "@, "Item Level: "@, 0);
    assert(l[0] == 'I');
    assert(l != "Corrupted"@) by { assert("Corrupted"@[0] == 'C'); }
    assert(l != "--------"@) by { assert("--------"@[0] == '-'); }
    assert forall|i: int| 0 <= i < l.len() implies (#[trigger] l[i]) != '\n' by {
        if i >= 12 {
            assert(l[i] == decimal_text(n)[i - 12]);
        }
    }
}

proof fn lemma_step_corrupted(st: TextState, bases: Seq<Seq<char>>)
    requires
        st.found_class,
    ensures
        text_step(st, "Corrupted"@, bases) == (TextState { corrupted: true, ..st }),
        tidy("Corrupted"@),
        "Corrupted"@ != "--------"@,
{
    lemma_reveal_heads();
    let l = "Corrupted"@;
    lemma_no_marks(l);
    assert(l.take(8)[0] == 'C');
    assert(!has_prefix(l, "Rarity: "@));
    assert(l != "--------"@) by { assert("--------"@[0] == '-'); }
}

/// A line the reader skips: the requirements heading.
proof fn lemma_step_requirements(st: TextState, bases: Seq<Seq<char>>)
    requires
        st.found_class,
    ensures
        text_step(st, "Requirements:"@, bases) == st,
        tidy("Requirements:"@),
        "Requirements:"@ != "--------"@,
{
    lemma_reveal_heads();
    reveal_strlit("Requirements:");
    let l = "Requirements:"@;
    lemma_no_marks(l);
    assert(l.take(2) =~= seq!['R', 'e']);
    lemma_not_prefix(l, "Rarity: "@, seq!['R', 'e'], 1);
    lemma_not_prefix(l, "Radius: "@, seq!['R', 'e'], 1);
    assert(l.take(1) =~= seq!['R']);
    lemma_not_prefix(l, "Item Level: "@, seq!['R'], 0);
    lemma_not_prefix(l, "Quality: +"@, seq!['R'], 0);
    lemma_not_prefix(l, "Armour: "@, seq!['R'], 0);
    lemma_not_prefix(l, "Evasion Rating: "@, seq!['R'], 0);
    lemma_not_prefix(l, "Energy Shield: "@, seq!['R'], 0);
    assert(l != "Corrupted"@) by { assert("Corrupted"@[0] == 'C'); }
    assert(l != "--------"@) by { assert("--------"@[0] == '-'); }
    assert(is_base_line(l));
}

/// A requirement line the reader skips.
proof fn lemma_step_req(st: TextState, label: Seq<char>, skip: Seq<char>, v: u32, bases: Seq<Seq<char>>)
    requires
        st.found_class,
        (label, skip) == ("Level: "@, "Level:"@) || (label, skip) == ("Str: "@, "Str:"@)
            || (label, skip) == ("Dex: "@, "Dex:"@) || (label, skip) == ("Int: "@, "Int:"@),
    ensures
        text_step(st, label + decimal_text(v as i64), bases) == st,
        tidy(label + decimal_text(v as i64)),
        label + decimal_text(v as i64) != "--------"@,
{
    lemma_reveal_heads();
    lemma_decimal_round_trip(v as i64);
    let l = label + decimal_text(v as i64);
    lemma_prefix_of(label, decimal_text(v as i64));
    assert(l.last() == decimal_text(v as i64).last());
    lemma_no_marks(l);
    assert(has_prefix(l, skip)) by {
        assert(l.take(skip.len() as int) =~= skip);
    }
    if label == "Int: "@ {
        assert(l.take(2) =~= seq!['I', 'n']);
        lemma_not_prefix(l, "Item Level: "@, seq!['I', 'n'], 1);
        assert(l.take(1) =~= seq!['I']);
        lemma_not_prefix(l, "Rarity: "@, seq!['I'], 0);
        lemma_not_prefix(l, "Quality: +"@, seq!['I'], 0);
        lemma_not_prefix(l, "Armour: "@, seq!['I'], 0);
        lemma_not_prefix(l, "Evasion Rating: "@, seq!['I'], 0);
        lemma_not_prefix(l, "Energy Shield: "@, seq!['I'], 0);
        lemma_not_prefix(l, "Radius: "@, seq!['I'], 0);
        assert(l != "Corrupted"@) by { assert("Corrupted"@[0] == 'C'); }
    } else {
        lemma_not_heads(l, label);
    }
    assert(l != "--------"@) by { assert("--------"@[0] == '-'); }
    assert(is_base_line(l));
    assert forall|i: int| 0 <= i < l.len() implies (#[trigger] l[i]) != '\n' by {
        if i >= label.len() {
            assert(l[i] == decimal_text(v as i64)[i - label.len()]);
        }
    }
}

/// Every line of `ls` holds no line feed and does not end with a carriage return.
pub open spec fn lines_fine(ls: Seq<Seq<char>>) -> bool {
    forall|i: int| 0 <= i < ls.len() ==> one_line(#[trigger] ls[i]) && without_cr(ls[i]) == ls[i]
}

proof fn lemma_fine_append(a: Seq<Seq<char>>, b: Seq<Seq<char>>)
    requires
        lines_fine(a),
        lines_fine(b),
    ensures
        lines_fine(a + b),
{
    assert forall|i: int| 0 <= i < (a + b).len() implies one_line(#[trigger] (a + b)[i]) && without_cr((a + b)[i]) == (a + b)[i] by {
        if i < a.len() {
            assert((a + b)[i] == a[i]);
        } else {
            assert((a + b)[i] == b[i - a.len()]);
        }
    }
}

proof fn lemma_fine_tidy(l: Seq<char>)
    requires
        tidy(l),
    ensures
        lines_fine(seq![l]),
{
    assert(l.last() != '\r');
}

proof fn lemma_fine_sep()
    ensures
        lines_fine(seq!["--------"@]),
{
    reveal_strlit("--------");
}

/// Reading enchantment lines adds their modifiers.
proof fn lemma_fold_enchants(st: TextState, mods: Seq<Seq<char>>, bases: Seq<Seq<char>>)
    requires
        st.found_class,
        forall|j: int| 0 <= j < mods.len() ==> reads_plain(#[trigger] mods[j] + " (enchant)"@),
    ensures
        fold_lines(st, mods.map_values(|m: Seq<char>| m + " (enchant)"@), bases)
            == (TextState { mods_enchant: st.mods_enchant + mods, ..st }),
        lines_fine(mods.map_values(|m: Seq<char>| m + " (enchant)"@)),
    decreases mods.len(),
{
    let f = |m: Seq<char>| m + " (enchant)"@;
    let ls = mods.map_values(f);
    if mods.len() == 0 {
        assert(ls =~= Seq::<Seq<char>>::empty());
        assert(st.mods_enchant + mods =~= st.mods_enchant);
    } else {
        let k = mods.len() - 1;
        assert(forall|j: int| 0 <= j < mods.drop_last().len() ==> mods.drop_last()[j] == mods[j]);
        lemma_fold_enchants(st, mods.drop_last(), bases);
        assert(ls.drop_last() =~= mods.drop_last().map_values(f));
        assert(ls.last() == mods[k] + " (enchant)"@);
        assert(reads_plain(mods[k] + " (enchant)"@));
        lemma_trimmed_tidy(ls.last());
        let prev = fold_lines(st, ls.drop_last(), bases);
        lemma_step_enchant(prev, mods[k], bases);
        assert(st.mods_enchant + mods.drop_last() + seq![mods[k]] =~= st.mods_enchant + mods);
        assert((st.mods_enchant + mods.drop_last()).push(mods[k]) =~= st.mods_enchant + mods);
        assert(ls =~= ls.drop_last().push(ls.last()));
        lemma_fine_tidy(ls.last());
        lemma_fine_append(ls.drop_last(), seq![ls.last()]);
        assert(ls.drop_last() + seq![ls.last()] =~= ls);
    }
}

/// Reading implicit modifier lines adds their modifiers.
proof fn lemma_fold_implicits(st: TextState, mods: Seq<Seq<char>>, bases: Seq<Seq<char>>)
    requires
        st.found_class,
        forall|j: int| 0 <= j < mods.len() ==> reads_plain(#[trigger] mods[j] + " (implicit)"@),
    ensures
        fold_lines(st, mods.map_values(|m: Seq<char>| m + " (implicit)"@), bases)
            == (TextState { mods_impl: st.mods_impl + mods, ..st }),
        lines_fine(mods.map_values(|m: Seq<char>| m + " (implicit)"@)),
    decreases mods.len(),
{
    let f = |m: Seq<char>| m + " (implicit)"@;
    let ls = mods.map_values(f);
    if mods.len() == 0 {
        assert(ls =~= Seq::<Seq<char>>::empty());
        assert(st.mods_impl + mods =~= st.mods_impl);
    } else {
        let k = mods.len() - 1;
        assert(forall|j: int| 0 <= j < mods.drop_last().len() ==> mods.drop_last()[j] == mods[j]);
        lemma_fold_implicits(st, mods.drop_last(), bases);
        assert(ls.drop_last() =~= mods.drop_last().map_values(f));
        assert(ls.last() == mods[k] + " (implicit)"@);
        assert(reads_plain(mods[k] + " (implicit)"@));
        lemma_trimmed_tidy(ls.last());
        let prev = fold_lines(st, ls.drop_last(), bases);
        lemma_step_implicit(prev, mods[k], bases);
        assert((st.mods_impl + mods.drop_last()).push(mods[k]) =~= st.mods_impl + mods);
        lemma_fine_tidy(ls.last());
        lemma_fine_append(ls.drop_last(), seq![ls.last()]);
        assert(ls.drop_last() + seq![ls.last()] =~= ls);
    }
}

/// Reading explicit modifier lines adds their modifiers.
proof fn lemma_fold_explicits(st: TextState, mods: Seq<Seq<char>>, bases: Seq<Seq<char>>)
    requires
        st.found_class,
        forall|j: int| 0 <= j < mods.len() ==> explicit_ok(#[trigger] mods[j]),
    ensures
        fold_lines(st, mods.map_values(|m: Seq<char>| m + ""@), bases)
            == (TextState { mods_expl: st.mods_expl + mods, ..st }),
        lines_fine(mods.map_values(|m: Seq<char>| m + ""@)),
    decreases mods.len(),
{
    reveal_strlit("");
    let f = |m: Seq<char>| m + ""@;
    let ls = mods.map_values(f);
    if mods.len() == 0 {
        assert(ls =~= Seq::<Seq<char>>::empty());
        assert(st.mods_expl + mods =~= st.mods_expl);
    } else {
        let k = mods.len() - 1;
        assert(forall|j: int| 0 <= j < mods.drop_last().len() ==> mods.drop_last()[j] == mods[j]);
        lemma_fold_explicits(st, mods.drop_last(), bases);
        assert(ls.drop_last() =~= mods.drop_last().map_values(f));
        assert(mods[k] + ""@ =~= mods[k]);
        assert(ls.last() == mods[k]);
        assert(explicit_ok(mods[k]));
        lemma_trimmed_tidy(ls.last());
        let prev = fold_lines(st, ls.drop_last(), bases);
        lemma_step_explicit(prev, mods[k], bases);
        assert((st.mods_expl + mods.drop_last()).push(mods[k]) =~= st.mods_expl + mods);
        lemma_fine_tidy(ls.last());
        lemma_fine_append(ls.drop_last(), seq![ls.last()]);
        assert(ls.drop_last() + seq![ls.last()] =~= ls);
    }
}

proof fn lemma_fold_block_sep(st: TextState, ls: Seq<Seq<char>>, after: TextState, bases: Seq<Seq<char>>)
    requires
        fold_lines(st, ls, bases) == after,
        lines_fine(ls),
    ensures
        fold_lines(st, ls + seq!["--------"@], bases) == after,
        lines_fine(ls + seq!["--------"@]),
{
    lemma_fold_append(st, ls, seq!["--------"@], bases);
    lemma_fold_sep(after, bases);
    lemma_fine_sep();
    lemma_fine_append(ls, seq!["--------"@]);
}

proof fn lemma_fold_tail(st: TextState, item: RawItem, bases: Seq<Seq<char>>)
    requires
        st.found_class,
        forall|j: int| 0 <= j < views(item.mods_enchant@).len() ==> reads_plain(#[trigger] views(item.mods_enchant@)[j] + " (enchant)"@),
        forall|j: int| 0 <= j < views(item.mods_impl@).len() ==> reads_plain(#[trigger] views(item.mods_impl@)[j] + " (implicit)"@),
        forall|j: int| 0 <= j < views(item.mods_expl@).len() ==> explicit_ok(#[trigger] views(item.mods_expl@)[j]),
    ensures
        fold_lines(st, tail_lines(item), bases) == (TextState {
            mods_enchant: st.mods_enchant + views(item.mods_enchant@),
            mods_impl: st.mods_impl + views(item.mods_impl@),
            mods_expl: st.mods_expl + views(item.mods_expl@),
            corrupted: st.corrupted || item.corrupted,
            ..st
        }),
        lines_fine(tail_lines(item)),
{
    let e = views(item.mods_enchant@);
    let m = views(item.mods_impl@);
    let x = views(item.mods_expl@);
    let t1 = mod_lines(e, " (enchant)"@);
    let t2 = mod_lines(m, " (implicit)"@);
    let t3 = mod_lines(x, ""@);
    let t4 = if item.corrupted { seq!["Corrupted"@] } else { Seq::<Seq<char>>::empty() };
    let empty = Seq::<Seq<char>>::empty();
    assert(lines_fine(empty));
    assert(fold_lines(st, empty, bases) == st);
    // Enchantments.
    let s1 = TextState { mods_enchant: st.mods_enchant + e, ..st };
    lemma_fold_enchants(st, e, bases);
    if e.len() > 0 {
        lemma_fold_block_sep(st, e.map_values(|v: Seq<char>| v + " (enchant)"@), s1, bases);
    } else {
        assert(st.mods_enchant + e =~= st.mods_enchant);
    }
    // Implicit modifiers.
    let s2 = TextState { mods_impl: s1.mods_impl + m, ..s1 };
    lemma_fold_implicits(s1, m, bases);
    if m.len() > 0 {
        lemma_fold_block_sep(s1, m.map_values(|v: Seq<char>| v + " (implicit)"@), s2, bases);
    } else {
        assert(s1.mods_impl + m =~= s1.mods_impl);
    }
    // Explicit modifiers.
    let s3 = TextState { mods_expl: s2.mods_expl + x, ..s2 };
    lemma_fold_explicits(s2, x, bases);
    if x.len() > 0 {
        lemma_fold_block_sep(s2, x.map_values(|v: Seq<char>| v + ""@), s3, bases);
    } else {
        assert(s2.mods_expl + x =~= s2.mods_expl);
    }
    // The corrupted mark.
    let s4 = TextState { corrupted: s3.corrupted || item.corrupted, ..s3 };
    if item.corrupted {
        lemma_step_corrupted(s3, bases);
        lemma_fold_one(s3, "Corrupted"@, bases);
        lemma_fine_tidy("Corrupted"@);
    }
    lemma_fold_append(st, t1, t2, bases);
    lemma_fold_append(st, t1 + t2, t3, bases);
    lemma_fold_append(st, t1 + t2 + t3, t4, bases);
    lemma_fine_append(t1, t2);
    lemma_fine_append(t1 + t2, t3);
    lemma_fine_append(t1 + t2 + t3, t4);
}

proof fn lemma_fold_reqs(st: TextState, reqs: Option<Requirements>, bases: Seq<Seq<char>>)
    requires
        st.found_class,
    ensures
        fold_lines(st, req_lines(reqs), bases) == st,
        lines_fine(req_lines(reqs)),
{
    let empty = Seq::<Seq<char>>::empty();
    assert(lines_fine(empty));
    assert(fold_lines(st, empty, bases) == st);
    match reqs {
        Some(r) => {
            let sep = seq!["--------"@];
            if r.level > 0 || r.strength > 0 || r.dexterity > 0 || r.intelligence > 0 {
                let a = seq!["Requirements:"@];
                let b = req_lines_one("Level: "@, r.level);
                let c = req_lines_one("Str: "@, r.strength);
                let d = req_lines_one("Dex: "@, r.dexterity);
                let e = req_lines_one("Int: "@, r.intelligence);
                lemma_step_requirements(st, bases);
                lemma_fold_one(st, "Requirements:"@, bases);
                lemma_fine_tidy("Requirements:"@);
                if r.level > 0 {
                    lemma_step_req(st, "Level: "@, "Level:"@, r.level, bases);
                    lemma_fold_one(st, "Level: "@ + decimal_text(r.level as i64), bases);
                    lemma_fine_tidy("Level: "@ + decimal_text(r.level as i64));
                }
                if r.strength > 0 {
                    lemma_step_req(st, "Str: "@, "Str:"@, r.strength, bases);
                    lemma_fold_one(st, "Str: "@ + decimal_text(r.strength as i64), bases);
                    lemma_fine_tidy("Str: "@ + decimal_text(r.strength as i64));
                }
                if r.dexterity > 0 {
                    lemma_step_req(st, "Dex: "@, "Dex:"@, r.dexterity, bases);
                    lemma_fold_one(st, "Dex: "@ + decimal_text(r.dexterity as i64), bases);
                    lemma_fine_tidy("Dex: "@ + decimal_text(r.dexterity as i64));
                }
                if r.intelligence > 0 {
                    lemma_step_req(st, "Int: "@, "Int:"@, r.intelligence, bases);
                    lemma_fold_one(st, "Int: "@ + decimal_text(r.intelligence as i64), bases);
                    lemma_fine_tidy("Int: "@ + decimal_text(r.intelligence as i64));
                }
                lemma_fold_append(st, a, b, bases);
                lemma_fold_append(st, a + b, c, bases);
                lemma_fold_append(st, a + b + c, d, bases);
                lemma_fold_append(st, a + b + c + d, e, bases);
                lemma_fine_append(a, b);
                lemma_fine_append(a + b, c);
                lemma_fine_append(a + b + c, d);
                lemma_fine_append(a + b + c + d, e);
                lemma_fold_block_sep(st, a + b + c + d + e, st, bases);
            } else {
                lemma_fold_block_sep(st, empty, st, bases);
                assert(empty + sep =~= sep);
            }
        },
        None => {},
    }
}

pub open spec fn radius_lines(item: RawItem) -> Seq<Seq<char>> {
    match item.radius {
        Some(r) => seq!["Radius: "@ + spec_radius_name(r), "--------"@],
        None => Seq::empty(),
    }
}

pub open spec fn quality_lines(item: RawItem) -> Seq<Seq<char>> {
    if item.quality > 0 { seq!["Quality: +"@ + decimal_text(item.quality) + "%"@, "--------"@] } else { Seq::empty() }
}

pub open spec fn level_lines(item: RawItem) -> Seq<Seq<char>> {
    seq!["Item Level: "@ + decimal_text(item.item_level), "--------"@]
}

proof fn lemma_fold_radius(st: TextState, item: RawItem, bases: Seq<Seq<char>>)
    requires
        st.found_class,
        st.radius is None,
    ensures
        fold_lines(st, radius_lines(item), bases) == (TextState { radius: item.radius, ..st }),
        lines_fine(radius_lines(item)),
{
    let empty = Seq::<Seq<char>>::empty();
    assert(lines_fine(empty));
    assert(fold_lines(st, empty, bases) == st);
    if let Some(r) = item.radius {
        let l = "Radius: "@ + spec_radius_name(r);
        lemma_step_radius(st, r, bases);
        lemma_fold_one(st, l, bases);
        lemma_fine_tidy(l);
        lemma_fold_block_sep(st, seq![l], TextState { radius: item.radius, ..st }, bases);
        assert(seq![l] + seq!["--------"@] =~= radius_lines(item));
    } else {
        assert(st == (TextState { radius: item.radius, ..st }));
    }
}

proof fn lemma_fold_quality(st: TextState, item: RawItem, bases: Seq<Seq<char>>)
    requires
        st.found_class,
        st.quality == 0,
        item.quality >= 0,
    ensures
        fold_lines(st, quality_lines(item), bases) == (TextState { quality: item.quality, ..st }),
        lines_fine(quality_lines(item)),
{
    let empty = Seq::<Seq<char>>::empty();
    assert(lines_fine(empty));
    assert(fold_lines(st, empty, bases) == st);
    if item.quality > 0 {
        let l = "Quality: +"@ + decimal_text(item.quality) + "%"@;
        lemma_step_quality(st, item.quality, bases);
        lemma_fold_one(st, l, bases);
        lemma_fine_tidy(l);
        lemma_fold_block_sep(st, seq![l], TextState { quality: item.quality, ..st }, bases);
        assert(seq![l] + seq!["--------"@] =~= quality_lines(item));
    } else {
        assert(st == (TextState { quality: item.quality, ..st }));
    }
}

proof fn lemma_fold_level(st: TextState, item: RawItem, bases: Seq<Seq<char>>)
    requires
        st.found_class,
    ensures
        fold_lines(st, level_lines(item), bases) == (TextState { item_level: item.item_level, ..st }),
        lines_fine(level_lines(item)),
{
    let l = "Item Level: "@ + decimal_text(item.item_level);
    lemma_step_item_level(st, item.item_level, bases);
    lemma_fold_one(st, l, bases);
    lemma_fine_tidy(l);
    lemma_fold_block_sep(st, seq![l], TextState { item_level: item.item_level, ..st }, bases);
    assert(seq![l] + seq!["--------"@] =~= level_lines(item));
}

proof fn lemma_fold_info(st: TextState, item: RawItem, base: BaseItem, bases: Seq<Seq<char>>)
    requires
        st.found_class,
        st.radius is None,
        st.quality == 0,
        item.quality >= 0,
    ensures
        fold_lines(st, info_lines(item, base), bases) == (TextState {
            radius: item.radius,
            quality: item.quality,
            item_level: item.item_level,
            ..st
        }),
        lines_fine(info_lines(item, base)),
{
    let i1 = radius_lines(item);
    let i2 = quality_lines(item);
    let i3 = req_lines(base.requirements);
    let i4 = level_lines(item);
    let s1 = TextState { radius: item.radius, ..st };
    let s2 = TextState { quality: item.quality, ..s1 };
    lemma_fold_radius(st, item, bases);
    lemma_fold_quality(s1, item, bases);
    lemma_fold_reqs(s2, base.requirements, bases);
    lemma_fold_level(s2, item, bases);
    lemma_fold_append(st, i1, i2, bases);
    lemma_fold_append(st, i1 + i2, i3, bases);
    lemma_fold_append(st, i1 + i2 + i3, i4, bases);
    lemma_fine_append(i1, i2);
    lemma_fine_append(i1 + i2, i3);
    lemma_fine_append(i1 + i2 + i3, i4);
    assert(info_lines(item, base) == i1 + i2 + i3 + i4);
}

proof fn lemma_fold_head(item: RawItem, base: BaseItem, bases: Seq<Seq<char>>)
    requires
        base_ok(base.name@, bases),
        item.name@.len() != 0 ==> name_ok(item.name@, bases),
    ensures
        fold_lines(text_start(), head_lines(item, base), bases) == (TextState {
            rarity: item.rarity,
            name: item.name@,
            found_name: item.name@.len() != 0,
            base_item: base.name@,
            found_class: true,
            ..text_start()
        }),
        lines_fine(head_lines(item, base)),
{
    let st = text_start();
    let empty = Seq::<Seq<char>>::empty();
    assert(lines_fine(empty));
    let l1 = "Rarity: "@ + rarity_name(item.rarity);
    let h1 = seq![l1];
    let h2 = if item.name@.len() != 0 { seq![item.name@] } else { empty };
    let h3 = seq![base.name@];
    let h4 = seq!["--------"@];
    let s1 = TextState { rarity: item.rarity, ..st };
    lemma_step_rarity(st, item.rarity, bases);
    lemma_fold_one(st, l1, bases);
    lemma_fine_tidy(l1);
    let s2 = TextState { name: item.name@, found_name: item.name@.len() != 0, ..s1 };
    if item.name@.len() != 0 {
        lemma_step_name(s1, item.name@, bases);
        lemma_fold_one(s1, item.name@, bases);
        lemma_fine_tidy(item.name@);
    } else {
        assert(fold_lines(s1, empty, bases) == s1);
        assert(item.name@ =~= Seq::<char>::empty());
    }
    let s3 = TextState { base_item: base.name@, found_class: true, ..s2 };
    lemma_step_base(s2, base.name@, bases);
    lemma_fold_one(s2, base.name@, bases);
    lemma_fine_tidy(base.name@);
    lemma_fold_sep(s3, bases);
    lemma_fine_sep();
    lemma_fold_append(st, h1, h2, bases);
    lemma_fold_append(st, h1 + h2, h3, bases);
    lemma_fold_append(st, h1 + h2 + h3, h4, bases);
    lemma_fine_append(h1, h2);
    lemma_fine_append(h1 + h2, h3);
    lemma_fine_append(h1 + h2 + h3, h4);
    assert(h3 + h4 =~= seq![base.name@, "--------"@]);
    assert(h1 + h2 + h3 + h4 =~= head_lines(item, base));
}

/// The item is one whose text reads back as it: its base is `base` and among `bases`
/// (with no "Synthesised " opening); its name, if any, and each of its modifier lines as
/// the text writes them are single tidy lines that the reader takes for what they are
/// (none opens like a header line or carries another line's mark, and the name is no
/// base); its quality is not negative.
pub open spec fn text_reads_back(item: RawItem, base: BaseItem, bases: Seq<Seq<char>>) -> bool {
    &&& item.base_item@ == base.name@
    &&& base_ok(base.name@, bases)
    &&& item.name@.len() != 0 ==> name_ok(item.name@, bases)
    &&& item.quality >= 0
    &&& forall|j: int| 0 <= j < views(item.mods_enchant@).len() ==> reads_plain(#[trigger] views(item.mods_enchant@)[j] + " (enchant)"@)
    &&& forall|j: int| 0 <= j < views(item.mods_impl@).len() ==> reads_plain(#[trigger] views(item.mods_impl@)[j] + " (implicit)"@)
    &&& forall|j: int| 0 <= j < views(item.mods_expl@).len() ==> explicit_ok(#[trigger] views(item.mods_expl@)[j])
}

/// Reading an item's text (`ParsedItem::from_str` on what `RawItem::to_str` writes) gives
/// the item back: its base, name, rarity, modifiers of each kind, quality, item level,
/// corruption and radius.
pub proof fn law_item_text_round_trip(item: RawItem, base: BaseItem, bases: Seq<Seq<char>>)
    requires
        text_reads_back(item, base, bases),
    ensures
        ({
            let st = text_read(item_text(item, base), bases);
            &&& st.found_class
            &&& st.base_item == item.base_item@
            &&& st.name == item.name@
            &&& st.rarity == item.rarity
            &&& st.mods_enchant == views(item.mods_enchant@)
            &&& st.mods_impl == views(item.mods_impl@)
            &&& st.mods_expl == views(item.mods_expl@)
            &&& st.quality == item.quality
            &&& st.item_level == item.item_level
            &&& st.corrupted == item.corrupted
            &&& st.radius == item.radius
        }),
{
    let h = head_lines(item, base);
    let inf = info_lines(item, base);
    let t = tail_lines(item);
    let ls = item_lines(item, base);
    let st0 = text_start();
    lemma_fold_head(item, base, bases);
    let s1 = fold_lines(st0, h, bases);
    lemma_fold_info(s1, item, base, bases);
    let s2 = fold_lines(s1, inf, bases);
    lemma_fold_tail(s2, item, bases);
    lemma_fold_append(st0, h, inf, bases);
    lemma_fold_append(st0, h + inf, t, bases);
    lemma_fine_append(h, inf);
    lemma_fine_append(h + inf, t);
    lemma_item_text_joined(item, base);
    lemma_text_lines_joined(ls);
    lemma_fold_start(ls, ls.len() as int, bases);
    assert(ls.take(ls.len() as int) =~= ls);
    assert(Seq::<Seq<char>>::empty() + views(item.mods_enchant@) =~= views(item.mods_enchant@));
    assert(Seq::<Seq<char>>::empty() + views(item.mods_impl@) =~= views(item.mods_impl@));
    assert(Seq::<Seq<char>>::empty() + views(item.mods_expl@) =~= views(item.mods_expl@));
}

} // verus!
