use vstd::prelude::*;
use crate::bytes::{le, read_u64_le};

verus! {

/// The schema of the game's data tables.
#[derive(Debug)]
pub struct DatSchema {
    pub created_at: u64,
    pub tables: Vec<Table>,
}

/// The schema of one data table.
#[derive(Debug)]
pub struct Table {
    pub columns: Vec<Column>,
    pub name: String,
    pub valid_for: u64,
}

/// A column of a data table.
#[derive(Debug)]
pub struct Column {
    pub array: bool,
    pub description: Option<String>,
    pub file: Option<String>,
    pub name: Option<String>,
    pub references: Option<Reference>,
    pub typ: Type,
    pub unique: bool,
}

/// The table, and optionally the column, a foreign row column refers to.
#[derive(Debug)]
pub struct Reference {
    pub column: Option<String>,
    pub table: String,
}

/// The type of a column's values.
#[derive(Debug, Clone, Copy, PartialEq, Eq, Structural)]
#[allow(non_camel_case_types)]
pub enum Type {
    bool,
    array,
    foreignrow,
    string,
    enumrow,
    row,
    i32,
    i16,
    /// A 32-bit floating-point number, held as its bits.
    float32,
}

/// Why the data of a table could not be read.
#[derive(Debug, Clone, Copy, PartialEq, Eq, Structural)]
pub enum DatError {
    /// The data ends before the value does.
    UnexpectedEnd,
    /// A boolean byte other than 0 or 1, in strict reading.
    BadBool(u8),
    /// No marker of the variable data section.
    NoVarData,
    /// No schema for the table.
    NoSchema,
}

impl Type {
    /// Values of strings and arrays live in the variable data section.
    pub open spec fn spec_is_var_data(self) -> bool {
        self == Type::string || self == Type::array
    }

    pub fn is_var_data(&self) -> (r: bool)
        ensures
            r == self.spec_is_var_data(),
    {
        match self {
            Type::string | Type::array => true,
            _ => false,
        }
    }

    /// The offset of a value in the variable data section, read at `pos`: a string holds
    /// it in its 8 bytes; an array holds its length first, then the offset. Also gives
    /// the position after what was read.
    pub fn var_offset(&self, buf: &[u8], pos: u64) -> (r: Result<(u64, u64), DatError>)
        requires
            self.spec_is_var_data(),
        ensures
            match self {
                Type::string => if pos + 8 <= buf@.len() {
                    r == Ok::<(u64, u64), DatError>((le(buf@, pos as int, 8) as u64, (pos + 8) as u64))
                } else {
                    r == Err::<(u64, u64), DatError>(DatError::UnexpectedEnd)
                },
                _ => if pos + 16 <= buf@.len() {
                    r == Ok::<(u64, u64), DatError>((le(buf@, pos + 8, 8) as u64, (pos + 16) as u64))
                } else {
                    r == Err::<(u64, u64), DatError>(DatError::UnexpectedEnd)
                },
            },
    {
        let l = buf.len();
        assert(buf@.len() == l);
        match self {
            Type::string => {
                if (l as u64) < 8 || pos > (l as u64) - 8 {
                    return Err(DatError::UnexpectedEnd);
                }
                let v = read_u64_le(buf, pos as usize);
                Ok((v, pos + 8))
            },
            _ => {
                if (l as u64) < 16 || pos > (l as u64) - 16 {
                    return Err(DatError::UnexpectedEnd);
                }
                let v = read_u64_le(buf, pos as usize + 8);
                Ok((v, pos + 16))
            },
        }
    }
}

} // verus!
