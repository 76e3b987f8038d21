use vstd::prelude::*;
use crate::bytes::{le, read_u16_le, read_u32_le, read_u64_le, read_i16_le, read_i32_le, read_i64_le};
use crate::dat_schema::{Column, DatError, Table, Type};
use crate::text::str_eq;

verus! {

/// A row of another table a value refers to.
#[derive(Debug)]
pub struct ForeignRow {
    pub dat_file: String,
    pub rowid: u64,
    pub key: Option<String>,
}

/// A value read from a data table.
#[derive(Debug)]
pub enum Val {
    Bool(bool),
    Integer(i64),
    /// A 32-bit floating-point number, held as its bits.
    Float(u32),
    String(String),
    Row(u64),
    ForeignRow(ForeignRow),
    Array(Vec<Val>),
}

impl Val {
    /// The string a string value holds.
    pub fn string(&self) -> (r: &str)
        requires
            self is String,
        ensures
            r@ == self->String_0@,
    {
        match self {
            Val::String(s) => s.as_str(),
            _ => "",
        }
    }

    /// The number an integer value holds.
    pub fn integer(&self) -> (r: i64)
        requires
            self is Integer,
        ensures
            r == self->Integer_0,
    {
        match self {
            Val::Integer(i) => *i,
            _ => 0,
        }
    }

    /// The truth a boolean value holds.
    pub fn bool(&self) -> (r: bool)
        requires
            self is Bool,
        ensures
            r == self->Bool_0,
    {
        match self {
            Val::Bool(b) => *b,
            _ => false,
        }
    }

    /// The row a row value holds.
    pub fn row(&self) -> (r: u64)
        requires
            self is Row,
        ensures
            r == self->Row_0,
    {
        match self {
            Val::Row(r) => *r,
            _ => 0,
        }
    }

    /// The foreign row a foreign row value holds.
    pub fn foreign_row(&self) -> (r: &ForeignRow)
        requires
            self is ForeignRow,
        ensures
            *r == self->ForeignRow_0,
    {
        match self {
            Val::ForeignRow(fr) => fr,
            _ => vstd::pervasive::unreached(),
        }
    }

    /// The skill id an integer value holds: its low 16 bits.
    pub fn skill_id(&self) -> (r: u16)
        requires
            self is Integer,
        ensures
            r == (self->Integer_0 as i16) as u16,
    {
        match self {
            Val::Integer(i) => {
                let s = #[verifier::truncate] (*i as i16);
                #[verifier::truncate] (s as u16)
            },
            _ => 0,
        }
    }
}

/// The marker that opens the variable data section of a table.
pub open spec fn var_data_marker() -> Seq<u8> {
    seq![0xBBu8, 0xBB, 0xBB, 0xBB, 0xBB, 0xBB, 0xBB, 0xBB]
}

/// The row ids that stand for "no row".
pub open spec fn is_null_row(rid: u64) -> bool {
    rid == 0xfefefefefefefefeu64 || rid == 0x100000000000000u64
}

/// The foreign row a column's value refers to: none for the null ids or a column without
/// a reference.
pub fn make_foreign_row(column: &Column, rid: u64) -> (r: Option<Val>)
    ensures
        match r {
            Some(v) => !is_null_row(rid) && column.references is Some && (v matches Val::ForeignRow(fr)
                && fr.dat_file == column.references->0.table && fr.rowid == rid && fr.key == column.references->0.column),
            None => is_null_row(rid) || column.references is None,
        },
{
    if rid == 0xfefefefefefefefe || rid == 0x100000000000000 {
        return None;
    }
    match &column.references {
        Some(references) => {
            let key = match &references.column {
                Some(c) => Some(c.clone()),
                None => None,
            };
            Some(Val::ForeignRow(ForeignRow { dat_file: references.table.clone(), rowid: rid, key }))
        },
        None => None,
    }
}

/// `pattern` occurs in `data` at `j`.
pub open spec fn matches_at(data: Seq<u8>, pattern: Seq<u8>, j: int) -> bool {
    data.subrange(j, j + pattern.len()) == pattern
}

/// The first position of `pattern` in `data`, among the positions that leave a byte
/// after it.
pub open spec fn first_match(data: Seq<u8>, pattern: Seq<u8>, i: int) -> bool {
    &&& 0 <= i < data.len() - pattern.len()
    &&& matches_at(data, pattern, i)
    &&& forall|j: int| 0 <= j < i ==> !#[trigger] matches_at(data, pattern, j)
}

/// The first position of `pattern` in `data`; the last possible position is not looked at.
pub fn find_pattern(data: &[u8], pattern: &[u8]) -> (r: Option<usize>)
    ensures
        match r {
            Some(i) => first_match(data@, pattern@, i as int),
            None => forall|j: int| 0 <= j < data@.len() - pattern@.len() ==> !#[trigger] matches_at(data@, pattern@, j),
        },
{
    if data.len() < pattern.len() {
        return None;
    }
    let dl = data.len();
    assert(data@.len() == dl);
    let n = data.len() - pattern.len();
    let mut i: usize = 0;
    while i < n
        invariant
            i <= n,
            n == data@.len() - pattern@.len(),
            data@.len() <= usize::MAX,
            forall|j: int| 0 <= j < i ==> !#[trigger] matches_at(data@, pattern@, j),
        decreases n - i,
    {
        let mut k: usize = 0;
        let mut same = true;
        while k < pattern.len()
            invariant
                k <= pattern.len(),
                i < n,
                n == data@.len() - pattern@.len(),
                n + pattern@.len() == data@.len(),
                data@.len() <= usize::MAX,
                same == forall|q: int| 0 <= q < k ==> data@[i + q] == pattern@[q],
            decreases pattern.len() - k,
        {
            if data[i + k] != pattern[k] {
                same = false;
            }
            k += 1;
        }
        if same {
            assert(data@.subrange(i as int, i + pattern@.len()) =~= pattern@);
            return Some(i);
        }
        proof {
            let q = choose|q: int| 0 <= q < pattern@.len() && data@[i + q] != pattern@[q];
            assert(data@.subrange(i as int, i + pattern@.len())[q] != pattern@[q]);
            assert(!matches_at(data@, pattern@, i as int));
        }
        i += 1;
    }
    None
}

/// The UTF-16 text of a list of code units, as `String::from_utf16` decodes it; `None`
/// for invalid units.
pub uninterp spec fn utf16_text(units: Seq<u16>) -> Option<Seq<char>>;

/// Calls `String::from_utf16`.
#[verifier::external_body]
fn decode_utf16(units: &Vec<u16>) -> (r: Option<String>)
    ensures
        match utf16_text(units@) {
            Some(t) => r matches Some(s) && s@ == t,
            None => r is None,
        },
{
    String::from_utf16(units).ok()
}

/// The `k`-th UTF-16 code unit from `pos` on.
pub open spec fn unit_at(b: Seq<u8>, pos: int, k: int) -> nat {
    le(b, pos + 2 * k, 2)
}

/// The UTF-16 code units from `pos` on, `n` of them.
pub open spec fn units_at(b: Seq<u8>, pos: int, n: nat) -> Seq<u16> {
    Seq::new(n, |k: int| unit_at(b, pos, k) as u16)
}

/// A string at `pos` ends with its `n`-th unit: the first zero unit, within the data.
pub open spec fn string_end(b: Seq<u8>, pos: int, n: nat) -> bool {
    &&& pos + 2 * n + 2 <= b.len()
    &&& unit_at(b, pos, n as int) == 0
    &&& forall|k: int| 0 <= k < n ==> #[trigger] unit_at(b, pos, k) != 0
}

/// The value a column holds at `pos`, and the position after it: a boolean byte, refused
/// above 1 when reading strictly; a foreign row id and an unused word; no value for an
/// array; a zero-terminated UTF-16 string, none when it does not decode; an enum row
/// (no value); a row id; 32- and 16-bit integers; a float's bits.
pub open spec fn spec_get_val(typ: Type, column: Column, b: Seq<u8>, pos: int, strict: bool, r: Result<(Option<Val>, u64), DatError>) -> bool {
    match typ {
        Type::bool => if pos + 1 <= b.len() {
            if strict && b[pos] > 1 {
                r == Err::<(Option<Val>, u64), DatError>(DatError::BadBool(b[pos]))
            } else {
                r matches Ok((Some(Val::Bool(x)), p)) && x == (b[pos] != 0) && p == pos + 1
            }
        } else {
            r == Err::<(Option<Val>, u64), DatError>(DatError::UnexpectedEnd)
        },
        Type::foreignrow => if pos + 16 <= b.len() {
            r matches Ok((v, p)) && p == pos + 16 && {
                let rid = le(b, pos, 8) as u64;
                match v {
                    Some(val) => !is_null_row(rid) && column.references is Some && (val matches Val::ForeignRow(fr)
                        && fr.dat_file == column.references->0.table && fr.rowid == rid && fr.key == column.references->0.column),
                    None => is_null_row(rid) || column.references is None,
                }
            }
        } else {
            r == Err::<(Option<Val>, u64), DatError>(DatError::UnexpectedEnd)
        },
        Type::array => r matches Ok((None, p)) && p == pos,
        Type::string => if exists|n: nat| string_end(b, pos, n) {
            let n = choose|n: nat| string_end(b, pos, n);
            r matches Ok((v, p)) && p == pos + 2 * n + 2 && match utf16_text(units_at(b, pos, n)) {
                Some(t) => v matches Some(Val::String(s)) && s@ == t,
                None => v is None,
            }
        } else {
            r == Err::<(Option<Val>, u64), DatError>(DatError::UnexpectedEnd)
        },
        Type::enumrow => if pos + 4 <= b.len() {
            r matches Ok((None, p)) && p == pos + 4
        } else {
            r == Err::<(Option<Val>, u64), DatError>(DatError::UnexpectedEnd)
        },
        Type::row => if pos + 8 <= b.len() {
            r matches Ok((Some(Val::Row(x)), p)) && x == le(b, pos, 8) as u64 && p == pos + 8
        } else {
            r == Err::<(Option<Val>, u64), DatError>(DatError::UnexpectedEnd)
        },
        Type::i32 => if pos + 4 <= b.len() {
            r matches Ok((Some(Val::Integer(x)), p)) && x == (le(b, pos, 4) as i32) as i64 && p == pos + 4
        } else {
            r == Err::<(Option<Val>, u64), DatError>(DatError::UnexpectedEnd)
        },
        Type::i16 => if pos + 2 <= b.len() {
            r matches Ok((Some(Val::Integer(x)), p)) && x == (le(b, pos, 2) as i16) as i64 && p == pos + 2
        } else {
            r == Err::<(Option<Val>, u64), DatError>(DatError::UnexpectedEnd)
        },
        Type::float32 => if pos + 4 <= b.len() {
            r matches Ok((Some(Val::Float(x)), p)) && x == le(b, pos, 4) as u32 && p == pos + 4
        } else {
            r == Err::<(Option<Val>, u64), DatError>(DatError::UnexpectedEnd)
        },
    }
}

/// Whether `n` more bytes can be read at `pos`.
fn fits_at(b: &[u8], pos: u64, n: u64) -> (r: bool)
    requires
        n <= 16,
    ensures
        r == (pos + n <= b@.len()),
        b@.len() <= usize::MAX,
{
    let l = b.len();
    assert(b@.len() == l);
    (l as u64) >= n && pos <= (l as u64) - n
}

/// Reads the value of a column at `pos`.
pub fn get_val(column: &Column, b: &[u8], pos: u64, strict: bool) -> (r: Result<(Option<Val>, u64), DatError>)
    ensures
        spec_get_val(column.typ, *column, b@, pos as int, strict, r),
{
    match column.typ {
        Type::bool => {
            if !fits_at(b, pos, 1) {
                return Err(DatError::UnexpectedEnd);
            }
            let i = pos as usize;
            assert(i == pos);
            let x = b[i];
            if strict && x > 1 {
                return Err(DatError::BadBool(x));
            }
            Ok((Some(Val::Bool(x != 0)), pos + 1))
        },
        Type::foreignrow => {
            if !fits_at(b, pos, 16) {
                return Err(DatError::UnexpectedEnd);
            }
            let rid = read_u64_le(b, pos as usize);
            Ok((make_foreign_row(column, rid), pos + 16))
        },
        Type::array => Ok((None, pos)),
        Type::string => {
            let mut units: Vec<u16> = Vec::new();
            if !fits_at(b, pos, 0) {
                proof {
                    if exists|n: nat| string_end(b@, pos as int, n) {
                        let n = choose|n: nat| string_end(b@, pos as int, n);
                        assert(pos + 2 * n + 2 > b@.len());
                    }
                }
                return Err(DatError::UnexpectedEnd);
            }
            let mut p = pos;
            loop
                invariant
                    pos <= p,
                    p == pos + 2 * units@.len(),
                    units@ == units_at(b@, pos as int, units@.len()),
                    forall|k: int| 0 <= k < units@.len() ==> #[trigger] unit_at(b@, pos as int, k) != 0,
                    p <= b@.len(),
                    b@.len() <= usize::MAX,
                    column.typ == Type::string,
                decreases b@.len() - p,
            {
                if !fits_at(b, p, 2) {
                    proof {
                        if exists|n: nat| string_end(b@, pos as int, n) {
                            let n = choose|n: nat| string_end(b@, pos as int, n);
                            if n < units@.len() {
                                assert(unit_at(b@, pos as int, n as int) != 0);
                            } else {
                                assert(pos + 2 * n + 2 > b@.len());
                            }
                        }
                    }
                    return Err(DatError::UnexpectedEnd);
                }
                assert(p as usize == p);
                let w = read_u16_le(b, p as usize);
                assert(w == unit_at(b@, pos as int, units@.len() as int));
                if w == 0 {
                    let ghost n = units@.len();
                    assert(string_end(b@, pos as int, n));
                    proof {
                        let m = choose|n: nat| string_end(b@, pos as int, n);
                        if m < n {
                            assert(unit_at(b@, pos as int, m as int) != 0);
                        } else if m > n {
                            assert(unit_at(b@, pos as int, n as int) != 0);
                        }
                        assert(m == n);
                    }
                    let v = match decode_utf16(&units) {
                        Some(s) => Some(Val::String(s)),
                        None => None,
                    };
                    return Ok((v, p + 2));
                }
                units.push(w);
                assert(units@ =~= units_at(b@, pos as int, units@.len()));
                p = p + 2;
            }
        },
        Type::enumrow => {
            if !fits_at(b, pos, 4) {
                return Err(DatError::UnexpectedEnd);
            }
            Ok((None, pos + 4))
        },
        Type::row => {
            if !fits_at(b, pos, 8) {
                return Err(DatError::UnexpectedEnd);
            }
            let rid = read_u64_le(b, pos as usize);
            Ok((Some(Val::Row(rid)), pos + 8))
        },
        Type::i32 => {
            if !fits_at(b, pos, 4) {
                return Err(DatError::UnexpectedEnd);
            }
            let i = read_i32_le(b, pos as usize);
            Ok((Some(Val::Integer(i as i64)), pos + 4))
        },
        Type::i16 => {
            if !fits_at(b, pos, 2) {
                return Err(DatError::UnexpectedEnd);
            }
            let i = read_i16_le(b, pos as usize);
            Ok((Some(Val::Integer(i as i64)), pos + 2))
        },
        Type::float32 => {
            if !fits_at(b, pos, 4) {
                return Err(DatError::UnexpectedEnd);
            }
            let x = read_u32_le(b, pos as usize);
            Ok((Some(Val::Float(x)), pos + 4))
        },
    }
}

/// A row of a table: each named column's value, the later of two same-named columns
/// winning.
pub type RowData = Vec<(String, Val)>;

/// Sets the value of a named column in a row.
fn row_insert(row: &mut RowData, name: &String, val: Val)
    ensures
        exists|i: int| 0 <= i < final(row)@.len() && (#[trigger] final(row)@[i]).0@ == name@,
        final(row)@.len() <= old(row)@.len() + 1,
{
    let mut i: usize = 0;
    while i < row.len()
        invariant
            i <= row.len(),
            row@ == old(row)@,
        decreases row.len() - i,
    {
        if str_eq(row[i].0.as_str(), name.as_str()) {
            let (n, _) = row.remove(i);
            row.insert(i, (n, val));
            assert(row@[i as int].0@ == name@);
            return;
        }
        i += 1;
    }
    row.push((name.clone(), val));
    assert(row@[row@.len() - 1].0@ == name@);
}

/// The position of the first table named `name`.
fn find_table(tables: &Vec<Table>, name: &str) -> (r: Option<usize>)
    ensures
        match r {
            Some(t) => t < tables@.len() && tables@[t as int].name@ == name@,
            None => !has_table(tables@, name@),
        },
{
    let mut t: usize = 0;
    while t < tables.len()
        invariant
            t <= tables.len(),
            forall|j: int| 0 <= j < t ==> (#[trigger] tables@[j]).name@ != name@,
        decreases tables.len() - t,
    {
        if str_eq(tables[t].name.as_str(), name) {
            return Some(t);
        }
        t += 1;
    }
    None
}

/// The table of the schema named `name`.
pub open spec fn has_table(schema_tables: Seq<Table>, name: Seq<char>) -> bool {
    exists|i: int| 0 <= i < schema_tables.len() && (#[trigger] schema_tables[i]).name@ == name
}

/// The number of rows a table's data says it holds.
pub open spec fn row_count(b: Seq<u8>) -> nat {
    le(b, 0, 4)
}

/// A table's data can be split into rows: when the variable data marker is there, it
/// comes after the row count, and the count is not zero.
pub open spec fn rows_splittable(b: Seq<u8>) -> bool {
    forall|i: int| #[trigger] first_match(b, var_data_marker(), i) && 4 <= b.len() ==> i >= 4 && row_count(b) != 0
}

/// Reads every row of a table from its data: the fixed part of each row, then, for
/// strings and arrays, the values in the variable data section. Arrays with no element
/// or more than 100000 are left out, and an array stops at its first value that cannot
/// be read; strings that cannot be read are left out.
pub fn dump(tables: &Vec<Table>, name: &str, buf: &[u8], strict: bool) -> (r: Result<Vec<RowData>, DatError>)
    requires
        rows_splittable(buf@),
    ensures
        r == Err::<Vec<RowData>, DatError>(DatError::NoSchema) <==> !has_table(tables@, name@),
        r == Err::<Vec<RowData>, DatError>(DatError::NoVarData) ==> has_table(tables@, name@)
            && forall|j: int| 0 <= j < buf@.len() - 8 ==> !#[trigger] matches_at(buf@, var_data_marker(), j),
        r matches Ok(rows) ==> has_table(tables@, name@) && rows@.len() == row_count(buf@),
{
    let t = match find_table(tables, name) {
        Some(t) => t,
        None => {
            return Err(DatError::NoSchema);
        },
    };
    let table = &tables[t];
    assert(has_table(tables@, name@));
    let marker: [u8; 8] = [0xBB, 0xBB, 0xBB, 0xBB, 0xBB, 0xBB, 0xBB, 0xBB];
    assert(marker@ =~= var_data_marker());
    let var_offset = match find_pattern(buf, &marker) {
        Some(v) => v,
        None => {
            return Err(DatError::NoVarData);
        },
    };
    if buf.len() < 4 {
        return Err(DatError::UnexpectedEnd);
    }
    let nb_rows = read_u32_le(buf, 0);
    assert(first_match(buf@, var_data_marker(), var_offset as int));
    let row_len: usize = (var_offset - 4) / (nb_rows as usize);
    proof {
        let v = (var_offset - 4) as int;
        let n = nb_rows as int;
        assert((v / n) * n <= v) by (nonlinear_arith)
            requires v >= 0, n > 0;
        assert(row_len * nb_rows == (v / n) * n) by (nonlinear_arith)
            requires row_len == v / n, n == nb_rows;
    }
    let mut rows: Vec<RowData> = Vec::new();
    let mut row: u32 = 0;
    while row < nb_rows
        invariant
            row <= nb_rows,
            rows@.len() == row,
            nb_rows as nat == row_count(buf@),
            nb_rows > 0,
            row_len * nb_rows <= var_offset - 4,
            var_offset < buf@.len(),
            buf@.len() <= usize::MAX,
            has_table(tables@, name@),
        decreases nb_rows - row,
    {
        proof {
            assert(row * row_len <= nb_rows * row_len) by (nonlinear_arith)
                requires row <= nb_rows;
        }
        let mut pos: u64 = 4 + (row as u64) * (row_len as u64);
        let mut data: RowData = Vec::new();
        let mut c: usize = 0;
        while c < table.columns.len()
            invariant
                c <= table.columns.len(),
                var_offset < buf@.len(),
                buf@.len() <= usize::MAX,
                has_table(tables@, name@),
            decreases table.columns.len() - c,
        {
            let column = &table.columns[c];
            if column.array {
                if !fits_at(buf, pos, 16) {
                    return Err(DatError::UnexpectedEnd);
                }
                assert(pos as usize == pos);
                let length = read_i64_le(buf, pos as usize);
                let offset = read_u64_le(buf, pos as usize + 8);
                pos = pos + 16;
                let mut cpos: u64 = (var_offset as u64).wrapping_add(offset);
                if length > 0 && length <= 100000 {
                    let mut array: Vec<Val> = Vec::new();
                    let mut k: i64 = 0;
                    while k < length
                        invariant
                            0 <= k <= length,
                        decreases length - k,
                    {
                        match get_val(column, buf, cpos, strict) {
                            Ok((Some(v), np)) => {
                                array.push(v);
                                cpos = np;
                            },
                            _ => {
                                break;
                            },
                        }
                        k += 1;
                    }
                    match &column.name {
                        Some(n) => row_insert(&mut data, n, Val::Array(array)),
                        None => {},
                    }
                }
            } else if column.typ.is_var_data() {
                let (offset, np) = column.typ.var_offset(buf, pos)?;
                pos = np;
                let target: u64 = (var_offset as u64).wrapping_add(offset);
                match &column.name {
                    Some(n) => {
                        match get_val(column, buf, target, false) {
                            Ok((Some(v), _)) => row_insert(&mut data, n, v),
                            _ => {},
                        }
                    },
                    None => {},
                }
            } else {
                let (val, np) = get_val(column, buf, pos, false)?;
                pos = np;
                match &column.name {
                    Some(n) => {
                        match val {
                            Some(v) => row_insert(&mut data, n, v),
                            None => {},
                        }
                    },
                    None => {},
                }
            }
            c += 1;
        }
        rows.push(data);
        row += 1;
    }
    Ok(rows)
}

} // verus!
