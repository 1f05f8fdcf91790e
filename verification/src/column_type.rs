//! Column types of a table, and how many columns of each type a table has.

use vstd::prelude::*;

verus! {

/// The type of a column.
#[derive(Clone, Copy, Debug, PartialEq, Eq, Structural)]
pub enum ColumnType {
    /// Signed integers
    I64,
    /// Unsigned integers
    U64,
    /// Floating point numbers
    F64,
    /// Booleans
    Bool,
    /// Text
    String,
    /// Timestamps
    Time,
    /// Dictionary encoded text that identifies a series
    Tag,
}

/// A code that stands for no column type.
#[derive(Clone, Copy, Debug, PartialEq, Eq, Structural)]
pub struct InvalidColumnType {
    /// The code
    pub code: i16,
}

impl ColumnType {
    /// The code under which the catalog stores the type.
    pub open spec fn code_spec(self) -> i16 {
        match self {
            ColumnType::I64 => 1i16,
            ColumnType::U64 => 2i16,
            ColumnType::F64 => 3i16,
            ColumnType::Bool => 4i16,
            ColumnType::String => 5i16,
            ColumnType::Time => 6i16,
            ColumnType::Tag => 7i16,
        }
    }

    /// The column type that a code stands for, if it stands for one.
    pub open spec fn decode(code: i16) -> Option<ColumnType> {
        match code {
            1i16 => Some(ColumnType::I64),
            2i16 => Some(ColumnType::U64),
            3i16 => Some(ColumnType::F64),
            4i16 => Some(ColumnType::Bool),
            5i16 => Some(ColumnType::String),
            6i16 => Some(ColumnType::Time),
            7i16 => Some(ColumnType::Tag),
            _ => None,
        }
    }

    /// The code under which the catalog stores the type.
    pub fn code(self) -> (code: i16)
        ensures
            code == self.code_spec(),
    {
        match self {
            ColumnType::I64 => 1,
            ColumnType::U64 => 2,
            ColumnType::F64 => 3,
            ColumnType::Bool => 4,
            ColumnType::String => 5,
            ColumnType::Time => 6,
            ColumnType::Tag => 7,
        }
    }
}

/// Every column type can be read back from its code, and from no other code.
pub proof fn law_code_round_trip(t: ColumnType, code: i16)
    ensures
        ColumnType::decode(code) == Some(t) <==> code == t.code_spec(),
{
}

impl vstd::std_specs::convert::TryFromSpecImpl<i16> for ColumnType {
    open spec fn obeys_try_from_spec() -> bool {
        true
    }

    open spec fn try_from_spec(code: i16) -> Result<Self, Self::Error> {
        match ColumnType::decode(code) {
            Some(t) => Ok(t),
            None => Err(InvalidColumnType { code }),
        }
    }
}

impl TryFrom<i16> for ColumnType {
    type Error = InvalidColumnType;

    fn try_from(code: i16) -> (res: Result<Self, Self::Error>) {
        match code {
            1 => Ok(ColumnType::I64),
            2 => Ok(ColumnType::U64),
            3 => Ok(ColumnType::F64),
            4 => Ok(ColumnType::Bool),
            5 => Ok(ColumnType::String),
            6 => Ok(ColumnType::Time),
            7 => Ok(ColumnType::Tag),
            _ => Err(InvalidColumnType { code }),
        }
    }
}

/// A column type, by its code, and how many columns of a table have it.
#[derive(Clone, Copy, Debug, PartialEq, Eq, Structural)]
pub struct ColumnTypeCount {
    /// Code of the column type
    pub col_type: i16,
    /// Number of columns of that type
    pub count: i64,
}

impl ColumnTypeCount {
    /// `count` columns of type `col_type`.
    pub fn new(col_type: ColumnType, count: i64) -> (res: Self)
        ensures
            res.col_type == col_type.code_spec(),
            res.count == count,
    {
        ColumnTypeCount { col_type: col_type.code(), count }
    }
}

/// The codes of the column types, and what other codes stand for: nothing.
pub proof fn law_codes(code: i16)
    ensures
        ColumnType::decode(code) is Some <==> 1 <= code <= 7,
        ColumnType::decode(1) == Some(ColumnType::I64),
        ColumnType::decode(2) == Some(ColumnType::U64),
        ColumnType::decode(3) == Some(ColumnType::F64),
        ColumnType::decode(4) == Some(ColumnType::Bool),
        ColumnType::decode(5) == Some(ColumnType::String),
        ColumnType::decode(6) == Some(ColumnType::Time),
        ColumnType::decode(7) == Some(ColumnType::Tag),
{
}

} // verus!
