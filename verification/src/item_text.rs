use vstd::prelude::*;
use vstd::string::StrSliceExecFns;
use crate::base_item::{BaseItem, Rarity, spec_rarity_named};
use vstd::string::StringExecFns;
use crate::item::{JewelRadius, spec_radius_named};
use crate::text::{
    has_prefix, has_suffix, lowercase, lines_of, is_ascii_text, ascii_lower, parse_i64, parsed_i64, str_eq, starts_with,
    strip_prefix, strip_suffix, text_lines, trim, trimmed, decimal, decimal_text,
};
use crate::item::spec_radius_name;

verus! {

/// The fields of an item as its text gives them.
#[derive(Debug)]
pub struct RawItem {
    pub base_item: String,
    pub name: String,
    pub rarity: Rarity,
    pub mods_impl: Vec<String>,
    pub mods_expl: Vec<String>,
    pub mods_enchant: Vec<String>,
    pub quality: i64,
    pub corrupted: bool,
    pub item_level: i64,
    pub base_percentile: i64,
    pub radius: Option<JewelRadius>,
}

/// An item read from its text, with the defences the text shows.
#[derive(Debug)]
pub struct ParsedItem {
    pub item: RawItem,
    pub armour: Option<i64>,
    pub evasion: Option<i64>,
    pub energy_shield: Option<i64>,
}

/// What the reading of an item's text has gathered so far.
pub ghost struct TextState {
    pub base_item: Seq<char>,
    pub name: Seq<char>,
    pub rarity: Rarity,
    pub mods_impl: Seq<Seq<char>>,
    pub mods_expl: Seq<Seq<char>>,
    pub mods_enchant: Seq<Seq<char>>,
    pub quality: i64,
    pub corrupted: bool,
    pub item_level: i64,
    pub radius: Option<JewelRadius>,
    pub found_name: bool,
    pub found_class: bool,
    pub armour: Option<i64>,
    pub evasion: Option<i64>,
    pub energy_shield: Option<i64>,
}

/// Nothing gathered yet.
pub open spec fn text_start() -> TextState {
    TextState {
        base_item: Seq::empty(),
        name: Seq::empty(),
        rarity: Rarity::Normal,
        mods_impl: Seq::empty(),
        mods_expl: Seq::empty(),
        mods_enchant: Seq::empty(),
        quality: 0,
        corrupted: false,
        item_level: 0,
        radius: None,
        found_name: false,
        found_class: false,
        armour: None,
        evasion: None,
        energy_shield: None,
    }
}

/// What a name stands for, read in lower case: in ASCII lower case for an ASCII name.
pub open spec fn named_any_case<T>(s: Seq<char>, named: spec_fn(Seq<char>) -> T) -> T {
    if is_ascii_text(s) { named(ascii_lower(s)) } else { named(lowercase(s)) }
}

/// `s` without `p` at its end, when it is there.
pub open spec fn cut_suffix(s: Seq<char>, p: Seq<char>) -> Seq<char> {
    if has_suffix(s, p) { s.take(s.len() - p.len()) } else { s }
}

/// A line that only carries what the item's base already says.
pub open spec fn is_base_line(l: Seq<char>) -> bool {
    ||| l == "Requirements:"@
    ||| has_prefix(l, "Level:"@)
    ||| has_prefix(l, "Str:"@)
    ||| has_prefix(l, "Dex:"@)
    ||| has_prefix(l, "Int:"@)
    ||| has_prefix(l, "Sockets:"@)
    ||| has_prefix(l, "Note:"@)
    ||| has_prefix(l, "Item Class:"@)
    ||| has_prefix(l, "Physical Damage:"@)
    ||| has_prefix(l, "Elemental Damage:"@)
    ||| has_prefix(l, "Attacks per Second:"@)
    ||| has_prefix(l, "Critical Strike Chance:"@)
    ||| has_prefix(l, "Weapon Range:"@)
    ||| has_prefix(l, "Memory Strands:"@)
}

/// One line of an item's text read into the state: the augmented and fractured marks
/// are dropped; then, first match wins, the rarity; the base item, until one is found
/// (a synthesised base counts); the corrupted mark; item level; quality; the three
/// defences; the radius; lines the base already says are skipped; enchantments and
/// implicit modifiers by their marks; the name, before the base is found; else an
/// explicit modifier, without its crafted mark.
pub open spec fn text_step(st: TextState, raw_line: Seq<char>, bases: Seq<Seq<char>>) -> TextState {
    let line = cut_suffix(cut_suffix(raw_line, " (augmented)"@), " (fractured)"@);
    let base = if has_prefix(line, "Synthesised "@) { line.skip("Synthesised "@.len() as int) } else { line };
    if has_prefix(line, "Rarity: "@) {
        TextState {
            rarity: match named_any_case(line.skip("Rarity: "@.len() as int), |t: Seq<char>| spec_rarity_named(t)) {
                Some(r) => r,
                None => Rarity::Normal,
            },
            ..st
        }
    } else if !st.found_class && bases.contains(base) {
        TextState { base_item: base, found_class: true, ..st }
    } else if line == "Corrupted"@ {
        TextState { corrupted: true, ..st }
    } else if has_prefix(line, "Item Level: "@) {
        TextState {
            item_level: match parsed_i64(line.skip("Item Level: "@.len() as int)) {
                Some(v) => v,
                None => 0,
            },
            ..st
        }
    } else if has_prefix(line, "Quality: +"@) {
        let q = line.skip("Quality: +"@.len() as int);
        if has_suffix(q, "%"@) {
            TextState {
                quality: match parsed_i64(q.take(q.len() - "%"@.len())) {
                    Some(v) => v,
                    None => 0,
                },
                ..st
            }
        } else {
            st
        }
    } else if has_prefix(line, "Armour: "@) {
        TextState { armour: parsed_i64(line.skip("Armour: "@.len() as int)), ..st }
    } else if has_prefix(line, "Evasion Rating: "@) {
        TextState { evasion: parsed_i64(line.skip("Evasion Rating: "@.len() as int)), ..st }
    } else if has_prefix(line, "Energy Shield: "@) {
        TextState { energy_shield: parsed_i64(line.skip("Energy Shield: "@.len() as int)), ..st }
    } else if has_prefix(line, "Radius: "@) {
        TextState { radius: named_any_case(line.skip("Radius: "@.len() as int), |t: Seq<char>| spec_radius_named(t)), ..st }
    } else if is_base_line(line) {
        st
    } else if has_suffix(line, " (enchant)"@) {
        TextState { mods_enchant: st.mods_enchant.push(line.take(line.len() - " (enchant)"@.len())), ..st }
    } else if has_suffix(line, " (implicit)"@) {
        TextState { mods_impl: st.mods_impl.push(line.take(line.len() - " (implicit)"@.len())), ..st }
    } else if !st.found_class && !st.found_name {
        TextState { name: line, found_name: true, ..st }
    } else {
        TextState { mods_expl: st.mods_expl.push(cut_suffix(line, " (crafted)"@)), ..st }
    }
}

/// The lines of an item's text that are read: trimmed, without empty lines and
/// separators.
pub open spec fn kept_line(l: Seq<char>) -> bool {
    l.len() != 0 && l != "--------"@
}

/// The state after the first `n` lines of the text.
pub open spec fn text_fold(lines: Seq<Seq<char>>, n: int, bases: Seq<Seq<char>>) -> TextState
    decreases n,
{
    if n <= 0 {
        text_start()
    } else {
        let prev = text_fold(lines, n - 1, bases);
        let l = trimmed(lines[n - 1]);
        if kept_line(l) { text_step(prev, l, bases) } else { prev }
    }
}

/// The state after reading the whole text.
pub open spec fn text_read(text: Seq<char>, bases: Seq<Seq<char>>) -> TextState {
    text_fold(text_lines(text), text_lines(text).len() as int, bases)
}

/// The views of a list of strings.
pub open spec fn views(v: Seq<String>) -> Seq<Seq<char>> {
    v.map_values(|s: String| s@)
}

/// `item` holds what the state gathered.
pub open spec fn holds_state(p: ParsedItem, st: TextState) -> bool {
    &&& p.item.base_item@ == st.base_item
    &&& p.item.name@ == st.name
    &&& p.item.rarity == st.rarity
    &&& views(p.item.mods_impl@) == st.mods_impl
    &&& views(p.item.mods_expl@) == st.mods_expl
    &&& views(p.item.mods_enchant@) == st.mods_enchant
    &&& p.item.quality == st.quality
    &&& p.item.corrupted == st.corrupted
    &&& p.item.item_level == st.item_level
    &&& p.item.base_percentile == 0
    &&& p.item.radius == st.radius
    &&& p.armour == st.armour
    &&& p.evasion == st.evasion
    &&& p.energy_shield == st.energy_shield
}

/// Whether a name is among the base item names.
fn is_base(bases: &Vec<String>, s: &str) -> (r: bool)
    ensures
        r == views(bases@).contains(s@),
{
    let mut i: usize = 0;
    while i < bases.len()
        invariant
            i <= bases.len(),
            forall|j: int| 0 <= j < i ==> (#[trigger] bases@[j])@ != s@,
        decreases bases.len() - i,
    {
        if str_eq(bases[i].as_str(), s) {
            assert(views(bases@)[i as int] == s@);
            return true;
        }
        i += 1;
    }
    proof {
        if views(bases@).contains(s@) {
            let k = choose|k: int| 0 <= k < views(bases@).len() && views(bases@)[k] == s@;
            assert(bases@[k]@ == s@);
        }
    }
    false
}

fn cut<'a>(s: &'a str, p: &str) -> (r: &'a str)
    ensures
        r@ == cut_suffix(s@, p@),
{
    match strip_suffix(s, p) {
        Some(rest) => rest,
        None => s,
    }
}

fn push_view(v: &mut Vec<String>, s: &str)
    ensures
        views(final(v)@) == views(old(v)@).push(s@),
{
    v.push(String::from_str(s));
    assert(views(v@) =~= views(old(v)@).push(s@));
}

/// The item and the reading flags hold what the state gathered.
pub open spec fn holds_all(p: ParsedItem, found_name: bool, found_class: bool, st: TextState) -> bool {
    &&& holds_state(p, st)
    &&& found_name == st.found_name
    &&& found_class == st.found_class
}

/// Reads one line into the item.
fn read_line(p: &mut ParsedItem, found_name: &mut bool, found_class: &mut bool, raw_line: &str, st: Ghost<TextState>, bases: &Vec<String>)
    requires
        holds_all(*old(p), *old(found_name), *old(found_class), st@),
    ensures
        holds_all(*final(p), *final(found_name), *final(found_class), text_step(st@, raw_line@, views(bases@))),
{
    let ghost next = text_step(st@, raw_line@, views(bases@));
    let line = cut(cut(raw_line, " (augmented)"), " (fractured)");
    if let Some(r) = strip_prefix(line, "Rarity: ") {
        p.item.rarity = match Rarity::from_str(r) {
            Some(x) => x,
            None => Rarity::Normal,
        };
        return;
    }
    if !*found_class {
        let base = match strip_prefix(line, "Synthesised ") {
            Some(b) => b,
            None => line,
        };
        if is_base(bases, base) {
            p.item.base_item = String::from_str(base);
            *found_class = true;
            return;
        }
    }
    if str_eq(line, "Corrupted") {
        p.item.corrupted = true;
        return;
    }
    if let Some(r) = strip_prefix(line, "Item Level: ") {
        p.item.item_level = match parse_i64(r) {
            Some(v) => v,
            None => 0,
        };
        return;
    }
    if let Some(q) = strip_prefix(line, "Quality: +") {
        if let Some(n) = strip_suffix(q, "%") {
            p.item.quality = match parse_i64(n) {
                Some(v) => v,
                None => 0,
            };
        }
        return;
    }
    if let Some(r) = strip_prefix(line, "Armour: ") {
        p.armour = parse_i64(r);
        return;
    }
    if let Some(r) = strip_prefix(line, "Evasion Rating: ") {
        p.evasion = parse_i64(r);
        return;
    }
    if let Some(r) = strip_prefix(line, "Energy Shield: ") {
        p.energy_shield = parse_i64(r);
        return;
    }
    if let Some(r) = strip_prefix(line, "Radius: ") {
        p.item.radius = JewelRadius::from_str(r);
        return;
    }
    if str_eq(line, "Requirements:") || starts_with(line, "Level:") || starts_with(line, "Str:")
        || starts_with(line, "Dex:") || starts_with(line, "Int:") || starts_with(line, "Sockets:")
        || starts_with(line, "Note:") || starts_with(line, "Item Class:")
        || starts_with(line, "Physical Damage:") || starts_with(line, "Elemental Damage:")
        || starts_with(line, "Attacks per Second:") || starts_with(line, "Critical Strike Chance:")
        || starts_with(line, "Weapon Range:") || starts_with(line, "Memory Strands:") {
        return;
    }
    if let Some(e) = strip_suffix(line, " (enchant)") {
        push_view(&mut p.item.mods_enchant, e);
        return;
    }
    if let Some(i) = strip_suffix(line, " (implicit)") {
        push_view(&mut p.item.mods_impl, i);
        return;
    }
    if !*found_class && !*found_name {
        p.item.name = String::from_str(line);
        *found_name = true;
        return;
    }
    let m = cut(line, " (crafted)");
    push_view(&mut p.item.mods_expl, m);
}

impl ParsedItem {
    /// Parses an item from the text the game copies: its rarity, base item (one of
    /// `bases`), name, modifiers by kind, quality, item level, corruption, radius and
    /// shown defences; `None` when no line names a base item.
    pub fn from_str(text: &str, bases: &Vec<String>) -> (r: Option<ParsedItem>)
        ensures
            match r {
                Some(p) => text_read(text@, views(bases@)).found_class && holds_state(p, text_read(text@, views(bases@))),
                None => !text_read(text@, views(bases@)).found_class,
            },
    {
        let lines = lines_of(text);
        let ghost ls = text_lines(text@);
        let mut p = ParsedItem {
            item: RawItem {
                base_item: String::new(),
                name: String::new(),
                rarity: Rarity::Normal,
                mods_impl: Vec::new(),
                mods_expl: Vec::new(),
                mods_enchant: Vec::new(),
                quality: 0,
                corrupted: false,
                item_level: 0,
                base_percentile: 0,
                radius: None,
            },
            armour: None,
            evasion: None,
            energy_shield: None,
        };
        let mut found_name = false;
        let mut found_class = false;
        proof {
            assert(views(p.item.mods_impl@) =~= Seq::<Seq<char>>::empty());
            assert(views(p.item.mods_expl@) =~= Seq::<Seq<char>>::empty());
            assert(views(p.item.mods_enchant@) =~= Seq::<Seq<char>>::empty());
        }
        let mut i: usize = 0;
        while i < lines.len()
            invariant
                i <= lines.len(),
                lines@.len() == ls.len(),
                ls == text_lines(text@),
                forall|j: int| 0 <= j < lines@.len() ==> (#[trigger] lines@[j])@ == ls[j],
                holds_all(p, found_name, found_class, text_fold(ls, i as int, views(bases@))),
            decreases lines.len() - i,
        {
            let line = trim(lines[i].as_str());
            assert(lines@[i as int]@ == ls[i as int]);
            if !(line.unicode_len() == 0) && !str_eq(line, "--------") {
                read_line(&mut p, &mut found_name, &mut found_class, line, Ghost(text_fold(ls, i as int, views(bases@))), bases);
            }
            i += 1;
        }
        if found_class {
            Some(p)
        } else {
            None
        }
    }
}

/// The name a rarity is written with.
pub open spec fn rarity_name(r: Rarity) -> Seq<char> {
    match r {
        Rarity::Normal => "Normal"@,
        Rarity::Magic => "Magic"@,
        Rarity::Rare => "Rare"@,
        Rarity::Unique => "Unique"@,
    }
}

fn rarity_text(r: Rarity) -> (s: &'static str)
    ensures
        s@ == rarity_name(r),
{
    match r {
        Rarity::Normal => "Normal",
        Rarity::Magic => "Magic",
        Rarity::Rare => "Rare",
        Rarity::Unique => "Unique",
    }
}

/// Each modifier on a line of its own, followed by the mark.
pub open spec fn marked_lines(mods: Seq<Seq<char>>, mark: Seq<char>) -> Seq<char>
    decreases mods.len(),
{
    if mods.len() == 0 {
        Seq::empty()
    } else {
        marked_lines(mods.drop_last(), mark) + mods.last() + mark + "\n"@
    }
}

/// A block of marked modifier lines and its separator, nothing when there are none.
pub open spec fn mod_block(mods: Seq<Seq<char>>, mark: Seq<char>) -> Seq<char> {
    if mods.len() == 0 {
        Seq::empty()
    } else {
        marked_lines(mods, mark) + "--------\n"@
    }
}

/// A requirement line, nothing for a zero requirement.
pub open spec fn req_line(label: Seq<char>, v: u32) -> Seq<char> {
    if v > 0 { label + decimal_text(v as i64) + "\n"@ } else { Seq::empty() }
}

/// The requirements block of a base.
pub open spec fn req_block(reqs: Option<crate::base_item::Requirements>) -> Seq<char> {
    match reqs {
        Some(r) => (if r.level > 0 || r.strength > 0 || r.dexterity > 0 || r.intelligence > 0 {
            "Requirements:\n"@ + req_line("Level: "@, r.level) + req_line("Str: "@, r.strength)
                + req_line("Dex: "@, r.dexterity) + req_line("Int: "@, r.intelligence)
        } else {
            Seq::empty()
        }) + "--------\n"@,
        None => Seq::empty(),
    }
}

/// The opening lines of an item's text: rarity, name if any, base and a separator.
pub open spec fn text_head(item: RawItem, base: BaseItem) -> Seq<char> {
    "Rarity: "@ + rarity_name(item.rarity) + "\n"@
        + (if item.name@.len() != 0 { item.name@ + "\n"@ } else { Seq::empty() })
        + base.name@ + "\n"@ + "--------\n"@
}

/// The radius block, nothing without a radius.
pub open spec fn text_radius(item: RawItem) -> Seq<char> {
    match item.radius {
        Some(r) => "Radius: "@ + spec_radius_name(r) + "\n"@ + "--------\n"@,
        None => Seq::empty(),
    }
}

/// The quality block, nothing without quality.
pub open spec fn text_quality(item: RawItem) -> Seq<char> {
    if item.quality > 0 { "Quality: +"@ + decimal_text(item.quality) + "%\n"@ + "--------\n"@ } else { Seq::empty() }
}

/// The item level block.
pub open spec fn text_level(item: RawItem) -> Seq<char> {
    "Item Level: "@ + decimal_text(item.item_level) + "\n"@ + "--------\n"@
}

/// The text of an item, in the form the game copies it: head, radius, quality,
/// requirements, item level, enchantments, implicit and explicit modifiers, and the
/// corrupted mark.
pub open spec fn item_text(item: RawItem, base: BaseItem) -> Seq<char> {
    text_head(item, base) + text_radius(item) + text_quality(item) + req_block(base.requirements)
        + text_level(item)
        + mod_block(views(item.mods_enchant@), " (enchant)"@)
        + mod_block(views(item.mods_impl@), " (implicit)"@)
        + mod_block(views(item.mods_expl@), ""@)
        + (if item.corrupted { "Corrupted\n"@ } else { Seq::empty() })
}

fn append_mod_block(out: &mut String, mods: &Vec<String>, mark: &str)
    ensures
        final(out)@ == old(out)@ + mod_block(views(mods@), mark@),
{
    let mut i: usize = 0;
    while i < mods.len()
        invariant
            i <= mods.len(),
            out@ == old(out)@ + marked_lines(views(mods@).take(i as int), mark@),
        decreases mods.len() - i,
    {
        let ghost before = out@;
        out.append(mods[i].as_str());
        out.append(mark);
        out.append("\n");
        proof {
            assert(views(mods@).take(i as int + 1).drop_last() =~= views(mods@).take(i as int));
            assert(views(mods@).take(i as int + 1).last() == mods@[i as int]@);
            assert(out@ =~= old(out)@ + marked_lines(views(mods@).take(i as int + 1), mark@));
        }
        i += 1;
    }
    assert(views(mods@).take(mods.len() as int) =~= views(mods@));
    if mods.len() > 0 {
        out.append("--------\n");
        assert(out@ =~= old(out)@ + mod_block(views(mods@), mark@));
    } else {
        assert(out@ =~= old(out)@ + mod_block(views(mods@), mark@));
    }
}

fn append_req(out: &mut String, label: &str, v: u32)
    ensures
        final(out)@ == old(out)@ + req_line(label@, v),
{
    if v > 0 {
        let d = decimal(v as i64);
        out.append(label);
        out.append(d.as_str());
        out.append("\n");
        assert(out@ =~= old(out)@ + req_line(label@, v));
    } else {
        assert(out@ =~= old(out)@ + req_line(label@, v));
    }
}

impl RawItem {
    fn head(&self, base: &BaseItem) -> (r: String)
        ensures
            r@ == text_head(*self, *base),
    {
        let mut out = String::new();
        out.append("Rarity: ");
        out.append(rarity_text(self.rarity));
        out.append("\n");
        if self.name.as_str().unicode_len() != 0 {
            out.append(self.name.as_str());
            out.append("\n");
        }
        out.append(base.name.as_str());
        out.append("\n");
        out.append("--------\n");
        assert(out@ =~= text_head(*self, *base));
        out
    }

    fn append_radius(&self, out: &mut String)
        ensures
            final(out)@ == old(out)@ + text_radius(*self),
    {
        if let Some(radius) = self.radius {
            out.append("Radius: ");
            out.append(radius.to_string());
            out.append("\n");
            out.append("--------\n");
        }
        assert(out@ =~= old(out)@ + text_radius(*self));
    }

    fn append_quality(&self, out: &mut String)
        ensures
            final(out)@ == old(out)@ + text_quality(*self),
    {
        if self.quality > 0 {
            let q = decimal(self.quality);
            out.append("Quality: +");
            out.append(q.as_str());
            out.append("%\n");
            out.append("--------\n");
        }
        assert(out@ =~= old(out)@ + text_quality(*self));
    }

    fn append_level(&self, out: &mut String)
        ensures
            final(out)@ == old(out)@ + text_level(*self),
    {
        let il = decimal(self.item_level);
        out.append("Item Level: ");
        out.append(il.as_str());
        out.append("\n");
        out.append("--------\n");
        assert(out@ =~= old(out)@ + text_level(*self));
    }

    /// The item's text, in the form the game copies it.
    pub fn to_str(&self, base: &BaseItem) -> (r: String)
        ensures
            r@ == item_text(*self, *base),
    {
        let mut out = self.head(base);
        self.append_radius(&mut out);
        self.append_quality(&mut out);
        append_reqs(&mut out, base.requirements);
        self.append_level(&mut out);
        append_mod_block(&mut out, &self.mods_enchant, " (enchant)");
        append_mod_block(&mut out, &self.mods_impl, " (implicit)");
        append_mod_block(&mut out, &self.mods_expl, "");
        let ghost before = out@;
        if self.corrupted {
            out.append("Corrupted\n");
        }
        assert(out@ =~= item_text(*self, *base));
        out
    }
}

fn append_reqs(out: &mut String, reqs: Option<crate::base_item::Requirements>)
    ensures
        final(out)@ == old(out)@ + req_block(reqs),
{
    if let Some(reqs) = reqs {
        if reqs.level > 0 || reqs.strength > 0 || reqs.dexterity > 0 || reqs.intelligence > 0 {
            out.append("Requirements:\n");
            append_req(out, "Level: ", reqs.level);
            append_req(out, "Str: ", reqs.strength);
            append_req(out, "Dex: ", reqs.dexterity);
            append_req(out, "Int: ", reqs.intelligence);
        }
        out.append("--------\n");
    }
    assert(out@ =~= old(out)@ + req_block(reqs));
}

} // verus!
