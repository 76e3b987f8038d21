use vstd::prelude::*;
use vstd::std_specs::iter::IteratorSpec;
use vstd::string::StrSliceExecFns;

verus! {

/// Whether two strings hold the same characters.
pub fn str_eq(a: &str, b: &str) -> (r: bool)
    ensures
        r == (a@ == b@),
{
    let sa = String::from_str(a);
    let sb = String::from_str(b);
    sa == sb
}

/// The lower-case form of a string, as `str::to_lowercase` gives it.
pub uninterp spec fn lowercase(s: Seq<char>) -> Seq<char>;

/// All characters of the text are ASCII.
pub open spec fn is_ascii_text(s: Seq<char>) -> bool {
    forall|i: int| 0 <= i < s.len() ==> (#[trigger] s[i]) as u32 <= 127
}

/// An ASCII character in lower case: an upper-case letter turned into its lower-case one,
/// any other character as it is.
pub open spec fn ascii_lower_char(c: char) -> char {
    if 65 <= c as u32 <= 90 { ((c as u32) + 32) as char } else { c }
}

/// An ASCII text in lower case.
pub open spec fn ascii_lower(s: Seq<char>) -> Seq<char> {
    s.map_values(|c: char| ascii_lower_char(c))
}

/// Calls `str::to_lowercase`; the result is named `lowercase` of the argument. Its
/// documentation maps each character to its Unicode lower case, which for an ASCII
/// character is the ASCII lower case.
#[verifier::external_body]
pub(crate) fn to_lowercase(s: &str) -> (r: String)
    ensures
        r@ == lowercase(s@),
        is_ascii_text(s@) ==> r@ == ascii_lower(s@),
{
    s.to_lowercase()
}

/// The characters of a string, in order.
pub fn chars_of(s: &str) -> (r: Vec<char>)
    ensures
        r@ == s@,
{
    broadcast use vstd::string::group_string_axioms;
    let mut v: Vec<char> = Vec::new();
    let ghost mut n: int = 0;
    for c in it: s.chars()
        invariant
            it.seq() == s@,
            v@ == s@.take(it.index() as int),
            n == it.index(),
            n <= s@.len(),
    {
        v.push(c);
        assert(s@.take(it.index() as int + 1) =~= s@.take(it.index() as int).push(c));
        proof { n = n + 1; }
    }
    assert(v@ =~= s@);
    v
}

/// Whether `s` begins with `prefix`.
pub fn starts_with(s: &str, prefix: &str) -> (r: bool)
    ensures
        r == (prefix@.len() <= s@.len() && s@.take(prefix@.len() as int) == prefix@),
{
    let a = chars_of(s);
    let b = chars_of(prefix);
    if b.len() > a.len() {
        return false;
    }
    let mut i: usize = 0;
    while i < b.len()
        invariant
            b.len() <= a.len(),
            i <= b.len(),
            a@ == s@,
            b@ == prefix@,
            forall|j: int| 0 <= j < i ==> a@[j] == b@[j],
        decreases b.len() - i,
    {
        if a[i] != b[i] {
            assert(s@.take(prefix@.len() as int)[i as int] != prefix@[i as int]);
            return false;
        }
        i += 1;
    }
    assert(s@.take(prefix@.len() as int) =~= prefix@);
    true
}
/// `s` begins with `p`.
pub open spec fn has_prefix(s: Seq<char>, p: Seq<char>) -> bool {
    p.len() <= s.len() && s.take(p.len() as int) == p
}

/// `s` ends with `p`.
pub open spec fn has_suffix(s: Seq<char>, p: Seq<char>) -> bool {
    p.len() <= s.len() && s.skip(s.len() - p.len()) == p
}

/// Whether `s` ends with `suffix`.
pub fn ends_with(s: &str, suffix: &str) -> (r: bool)
    ensures
        r == has_suffix(s@, suffix@),
{
    let a = chars_of(s);
    let b = chars_of(suffix);
    if b.len() > a.len() {
        return false;
    }
    let off = a.len() - b.len();
    let mut i: usize = 0;
    while i < b.len()
        invariant
            b.len() <= a.len(),
            off == a.len() - b.len(),
            i <= b.len(),
            a@ == s@,
            b@ == suffix@,
            forall|j: int| 0 <= j < i ==> a@[off + j] == b@[j],
        decreases b.len() - i,
    {
        if a[off + i] != b[i] {
            assert(s@.skip(s@.len() - suffix@.len())[i as int] != suffix@[i as int]);
            return false;
        }
        i += 1;
    }
    assert(s@.skip(s@.len() - suffix@.len()) =~= suffix@);
    true
}

/// `s` without the prefix `p`, when it begins with it.
pub fn strip_prefix<'a>(s: &'a str, p: &str) -> (r: Option<&'a str>)
    ensures
        match r {
            Some(rest) => has_prefix(s@, p@) && rest@ == s@.skip(p@.len() as int),
            None => !has_prefix(s@, p@),
        },
{
    if starts_with(s, p) {
        let n = s.unicode_len();
        let k = p.unicode_len();
        let rest = s.substring_char(k, n);
        assert(rest@ =~= s@.skip(p@.len() as int));
        Some(rest)
    } else {
        None
    }
}

/// `s` without the suffix `p`, when it ends with it.
pub fn strip_suffix<'a>(s: &'a str, p: &str) -> (r: Option<&'a str>)
    ensures
        match r {
            Some(rest) => has_suffix(s@, p@) && rest@ == s@.take(s@.len() - p@.len()),
            None => !has_suffix(s@, p@),
        },
{
    if ends_with(s, p) {
        let n = s.unicode_len();
        let k = p.unicode_len();
        let rest = s.substring_char(0, n - k);
        assert(rest@ =~= s@.take(s@.len() - p@.len()));
        Some(rest)
    } else {
        None
    }
}

/// A line without the carriage return that ended it, if one did.
pub open spec fn without_cr(l: Seq<char>) -> Seq<char> {
    if l.len() > 0 && l.last() == '\r' { l.drop_last() } else { l }
}

/// The lines of `s` when the line begun so far is `cur`: each `\n` ends one, without a
/// carriage return just before it; the text after the last `\n` is a last line unless empty.
pub open spec fn lines_from(s: Seq<char>, cur: Seq<char>) -> Seq<Seq<char>>
    decreases s.len(),
{
    if s.len() == 0 {
        if cur.len() == 0 { Seq::empty() } else { seq![cur] }
    } else if s[0] == '\n' {
        seq![without_cr(cur)] + lines_from(s.skip(1), Seq::empty())
    } else {
        lines_from(s.skip(1), cur.push(s[0]))
    }
}

/// The lines of a text, as `str::lines` splits it: at each `\n` or `\r\n`, the final line
/// ending optional.
pub open spec fn text_lines(s: Seq<char>) -> Seq<Seq<char>> {
    lines_from(s, Seq::empty())
}

/// Calls `str::lines`, collecting the lines.
#[verifier::external_body]
pub(crate) fn lines_of(s: &str) -> (r: Vec<String>)
    ensures
        r@.len() == text_lines(s@).len(),
        forall|i: int| 0 <= i < r@.len() ==> (#[trigger] r@[i])@ == text_lines(s@)[i],
{
    s.lines().map(|l| l.to_string()).collect()
}

/// A character of Unicode's White_Space property, which `char::is_whitespace` tests.
pub open spec fn is_white(c: char) -> bool {
    let n = c as u32;
    ||| 9 <= n <= 13
    ||| n == 32 || n == 0x85 || n == 0xA0 || n == 0x1680
    ||| 0x2000 <= n <= 0x200A
    ||| n == 0x2028 || n == 0x2029 || n == 0x202F || n == 0x205F || n == 0x3000
}

/// `s` without its leading whitespace.
pub open spec fn trim_start(s: Seq<char>) -> Seq<char>
    decreases s.len(),
{
    if s.len() > 0 && is_white(s[0]) { trim_start(s.skip(1)) } else { s }
}

/// `s` without its trailing whitespace.
pub open spec fn trim_end(s: Seq<char>) -> Seq<char>
    decreases s.len(),
{
    if s.len() > 0 && is_white(s.last()) { trim_end(s.drop_last()) } else { s }
}

/// A string without its leading and trailing whitespace, as `str::trim` gives it.
pub open spec fn trimmed(s: Seq<char>) -> Seq<char> {
    trim_end(trim_start(s))
}

/// Calls `str::trim`.
#[verifier::external_body]
pub(crate) fn trim(s: &str) -> (r: &str)
    ensures
        r@ == trimmed(s@),
{
    s.trim()
}

/// An ASCII digit.
pub open spec fn is_digit_char(c: char) -> bool {
    48 <= c as u32 <= 57
}

/// The number ASCII digits stand for.
pub open spec fn digits_value(s: Seq<char>) -> int
    decreases s.len(),
{
    if s.len() == 0 { 0 } else { digits_value(s.drop_last()) * 10 + (s.last() as u32 - 48) }
}

/// The digits after an optional sign, and whether the sign is a minus.
pub open spec fn sign_split(s: Seq<char>) -> (bool, Seq<char>) {
    if s.len() > 0 && s[0] == '-' {
        (true, s.skip(1))
    } else if s.len() > 0 && s[0] == '+' {
        (false, s.skip(1))
    } else {
        (false, s)
    }
}

/// The integer a text stands for: an optional sign, then at least one ASCII digit.
pub open spec fn signed_value(s: Seq<char>) -> Option<int> {
    let (neg, ds) = sign_split(s);
    if ds.len() == 0 || !(forall|i: int| 0 <= i < ds.len() ==> is_digit_char(#[trigger] ds[i])) {
        None
    } else {
        Some(if neg { -digits_value(ds) } else { digits_value(ds) })
    }
}

/// The number a decimal text stands for, as `i64::from_str` reads it: an optional sign
/// and ASCII digits, within the range of `i64`.
pub open spec fn parsed_i64(s: Seq<char>) -> Option<i64> {
    match signed_value(s) {
        Some(v) => if i64::MIN <= v <= i64::MAX { Some(v as i64) } else { None },
        None => None,
    }
}

/// Calls `i64::from_str`.
#[verifier::external_body]
pub(crate) fn parse_i64(s: &str) -> (r: Option<i64>)
    ensures
        r == parsed_i64(s@),
{
    s.parse::<i64>().ok()
}

/// The ASCII digit of `d`.
pub open spec fn digit_char(d: int) -> char {
    (48 + d) as char
}

/// The decimal digits of `k`, with no leading zero.
pub open spec fn digits_of(k: nat) -> Seq<char>
    decreases k,
{
    if k < 10 { seq![digit_char(k as int)] } else { digits_of(k / 10).push(digit_char(k as int % 10)) }
}

/// The decimal text of a number, as `i64::to_string` writes it: a minus sign when it is
/// negative, then its digits.
pub open spec fn decimal_text(n: i64) -> Seq<char> {
    if n < 0 { seq!['-'] + digits_of((-(n as int)) as nat) } else { digits_of(n as nat) }
}

/// Calls `i64::to_string`.
#[verifier::external_body]
pub(crate) fn decimal(n: i64) -> (r: String)
    ensures
        r@ == decimal_text(n),
{
    n.to_string()
}

/// The value of an unsigned number's text: no minus sign.
pub open spec fn unsigned_value(s: Seq<char>) -> Option<int> {
    if s.len() > 0 && s[0] == '-' { None } else { signed_value(s) }
}

/// The number a decimal text stands for, as `u32::from_str` reads it: an optional plus
/// sign and ASCII digits, within the range of `u32`.
pub open spec fn parsed_u32(s: Seq<char>) -> Option<u32> {
    match unsigned_value(s) {
        Some(v) => if v <= u32::MAX { Some(v as u32) } else { None },
        None => None,
    }
}

/// Calls `u32::from_str`.
#[verifier::external_body]
pub(crate) fn parse_u32(s: &str) -> (r: Option<u32>)
    ensures
        r == parsed_u32(s@),
{
    s.parse::<u32>().ok()
}

/// The number a decimal text stands for, as `i32::from_str` reads it: an optional sign
/// and ASCII digits, within the range of `i32`.
pub open spec fn parsed_i32(s: Seq<char>) -> Option<i32> {
    match signed_value(s) {
        Some(v) => if i32::MIN <= v <= i32::MAX { Some(v as i32) } else { None },
        None => None,
    }
}

/// Calls `i32::from_str`.
#[verifier::external_body]
pub(crate) fn parse_i32(s: &str) -> (r: Option<i32>)
    ensures
        r == parsed_i32(s@),
{
    s.parse::<i32>().ok()
}

/// The number a decimal text stands for, as `usize::from_str` reads it: an optional plus
/// sign and ASCII digits, within the range of `usize`.
pub open spec fn parsed_usize(s: Seq<char>) -> Option<usize> {
    match unsigned_value(s) {
        Some(v) => if v <= usize::MAX { Some(v as usize) } else { None },
        None => None,
    }
}

/// Calls `usize::from_str`.
#[verifier::external_body]
pub(crate) fn parse_usize(s: &str) -> (r: Option<usize>)
    ensures
        r == parsed_usize(s@),
{
    s.parse::<usize>().ok()
}

/// The pieces of `s` closed by a separator `c` so far, and the piece still open.
pub open spec fn split_state(s: Seq<char>, c: char) -> (Seq<Seq<char>>, Seq<char>)
    decreases s.len(),
{
    if s.len() == 0 {
        (seq![], seq![])
    } else {
        let prev = split_state(s.drop_last(), c);
        if s.last() == c {
            (prev.0.push(prev.1), seq![])
        } else {
            (prev.0, prev.1.push(s.last()))
        }
    }
}

/// The pieces of `s` between the separators `c`, in order, empty ones included, as
/// `str::split` gives them.
pub open spec fn pieces(s: Seq<char>, c: char) -> Seq<Seq<char>> {
    split_state(s, c).0.push(split_state(s, c).1)
}

/// The piece still open after the separator at `start - 1` (or from the beginning).
proof fn lemma_split_open(s: Seq<char>, c: char, start: int, i: int)
    requires
        0 <= start <= i <= s.len(),
        forall|j: int| start <= j < i ==> s[j] != c,
        start == 0 || s[start - 1] == c,
    ensures
        split_state(s.take(i), c).1 == s.subrange(start, i),
    decreases i,
{
    if i > start {
        lemma_split_open(s, c, start, i - 1);
        assert(s.take(i).drop_last() == s.take(i - 1));
        assert(s.subrange(start, i) == s.subrange(start, i - 1).push(s[i - 1]));
    } else if i > 0 {
        assert(s.take(i).drop_last() == s.take(i - 1));
        assert(s.subrange(start, i) =~= Seq::<char>::empty());
    } else {
        assert(s.take(0) =~= Seq::<char>::empty());
        assert(s.subrange(0, 0) =~= Seq::<char>::empty());
    }
}

/// Splits `s` at each `c`.
pub fn split_char(s: &str, c: char) -> (r: Vec<String>)
    ensures
        r@.len() == pieces(s@, c).len(),
        forall|i: int| 0 <= i < r@.len() ==> (#[trigger] r@[i])@ == pieces(s@, c)[i],
{
    let cs = chars_of(s);
    let mut r: Vec<String> = Vec::new();
    let mut start: usize = 0;
    let mut i: usize = 0;
    while i < cs.len()
        invariant
            start <= i <= cs@.len(),
            cs@ == s@,
            start == 0 || s@[start - 1] == c,
            forall|j: int| start <= j < i ==> s@[j] != c,
            r@.len() == split_state(s@.take(i as int), c).0.len(),
            forall|k: int| 0 <= k < r@.len() ==> (#[trigger] r@[k])@ == split_state(s@.take(i as int), c).0[k],
        decreases cs@.len() - i,
    {
        proof {
            assert(s@.take(i + 1).drop_last() == s@.take(i as int));
            assert(s@.take(i + 1).last() == s@[i as int]);
        }
        if cs[i] == c {
            proof {
                lemma_split_open(s@, c, start as int, i as int);
            }
            let piece = s.substring_char(start, i);
            r.push(piece.to_string());
            start = i + 1;
        }
        i = i + 1;
    }
    proof {
        lemma_split_open(s@, c, start as int, i as int);
        assert(s@.take(i as int) == s@);
    }
    let last = s.substring_char(start, i);
    r.push(last.to_string());
    r
}

/// The text without any of the characters `a` and `b`.
pub open spec fn without_chars(s: Seq<char>, a: char, b: char) -> Seq<char>
    decreases s.len(),
{
    if s.len() == 0 {
        s
    } else if s.last() == a || s.last() == b {
        without_chars(s.drop_last(), a, b)
    } else {
        without_chars(s.drop_last(), a, b).push(s.last())
    }
}

/// The text with every `a` and `b` removed, as `str::replace([a, b], "")` gives it.
pub fn remove_chars(s: &str, a: char, b: char) -> (r: String)
    ensures
        r@ == without_chars(s@, a, b),
{
    let n = s.unicode_len();
    let mut r = String::new();
    let mut i: usize = 0;
    while i < n
        invariant
            n == s@.len(),
            i <= n,
            r@ == without_chars(s@.take(i as int), a, b),
        decreases n - i,
    {
        let c = s.get_char(i);
        proof {
            assert(s@.take(i + 1).drop_last() == s@.take(i as int));
            assert(s@.take(i + 1).last() == c);
        }
        if c != a && c != b {
            let one = s.substring_char(i, i + 1);
            assert(one@ == seq![c]);
            r.append(one);
            assert(r@ == without_chars(s@.take(i as int), a, b).push(c));
        }
        i = i + 1;
    }
    assert(s@.take(n as int) == s@);
    r
}

/// The text before the first space, all of it when there is none: the first piece
/// `str::split(' ')` gives.
pub open spec fn before_space(s: Seq<char>) -> Seq<char> {
    if exists|i: int| 0 <= i < s.len() && s[i] == ' ' {
        s.take(choose_first_space(s))
    } else {
        s
    }
}

/// The position of the first space.
pub open spec fn choose_first_space(s: Seq<char>) -> int {
    choose|i: int| 0 <= i < s.len() && s[i] == ' ' && forall|j: int| 0 <= j < i ==> s[j] != ' '
}

/// The text before the first space.
pub fn first_word(s: &str) -> (r: &str)
    ensures
        r@ == before_space(s@),
{
    let n = s.unicode_len();
    let mut i: usize = 0;
    while i < n
        invariant
            n == s@.len(),
            i <= n,
            forall|j: int| 0 <= j < i ==> s@[j] != ' ',
        decreases n - i,
    {
        if s.get_char(i) == ' ' {
            let r = s.substring_char(0, i);
            proof {
                assert(s@[i as int] == ' ');
                let k = choose_first_space(s@);
                assert(0 <= k < s@.len() && s@[k] == ' ' && forall|j: int| 0 <= j < k ==> s@[j] != ' ');
                if k < i {
                } else if k > i {
                    assert(s@[i as int] != ' ');
                }
                assert(r@ =~= s@.take(i as int));
            }
            return r;
        }
        i = i + 1;
    }
    s
}

} // verus!
