//! Estimate of the memory that the rows of a file take once they are decoded.

use crate::column_type::{ColumnType, ColumnTypeCount, InvalidColumnType};
use crate::wrapping::{is_i64, to_unsigned, unsigned};
use vstd::prelude::*;

verus! {

/// Assumed length of a tag value, in bytes.
pub const AVERAGE_TAG_VALUE_LENGTH: i64 = 200;

/// Assumed length of a string, in bytes.
pub const STRING_LENGTH: i64 = 1000;

/// Size of a key into a dictionary.
pub const DICTIONARY_BYTE: i64 = 8;

/// Size of a number or a timestamp.
pub const VALUE_BYTE: i64 = 8;

/// Size of a boolean.
pub const BOOL_BYTE: i64 = 1;

/// Assumed number of rows for each distinct tag value.
pub const AVERAGE_ROW_COUNT_CARDINALITY_RATIO: i64 = 2;

/// Whether each value of a column of this type takes `VALUE_BYTE` bytes.
pub open spec fn is_fixed_width(t: ColumnType) -> bool {
    t is I64 || t is U64 || t is F64 || t is Time
}

/// Number of columns, by the counts, whose values take `VALUE_BYTE` bytes each.
pub open spec fn fixed_width_columns(columns: Seq<ColumnTypeCount>) -> int
    decreases columns.len(),
{
    if columns.len() == 0 {
        0
    } else {
        let c = columns.last();
        fixed_width_columns(columns.drop_last()) + match ColumnType::decode(c.col_type) {
            Some(t) if is_fixed_width(t) => c.count as int,
            _ => 0,
        }
    }
}

/// Number of entries, whatever their counts, of the given type.
pub open spec fn entries(columns: Seq<ColumnTypeCount>, t: ColumnType) -> nat {
    columns.filter(|c: ColumnTypeCount| ColumnType::decode(c.col_type) == Some(t)).len()
}

/// The first code in the list that stands for no column type.
pub open spec fn first_invalid_code(columns: Seq<ColumnTypeCount>) -> Option<i16>
    decreases columns.len(),
{
    if columns.len() == 0 {
        None
    } else {
        match first_invalid_code(columns.drop_last()) {
            Some(code) => Some(code),
            None => match ColumnType::decode(columns.last().col_type) {
                Some(_) => None,
                None => Some(columns.last().col_type),
            },
        }
    }
}

/// Assumed number of distinct values of a tag: half the rows, rounded towards zero.
pub open spec fn average_cardinality(row_count: i64) -> int {
    if row_count >= 0 {
        row_count as int / AVERAGE_ROW_COUNT_CARDINALITY_RATIO as int
    } else {
        -(-(row_count as int) / AVERAGE_ROW_COUNT_CARDINALITY_RATIO as int)
    }
}

/// Bytes for numbers and timestamps.
pub open spec fn value_bytes(columns: Seq<ColumnTypeCount>, row_count: i64) -> int {
    fixed_width_columns(columns) * row_count * VALUE_BYTE
}

/// Bytes for strings.
pub open spec fn string_bytes(columns: Seq<ColumnTypeCount>, row_count: i64) -> int {
    entries(columns, ColumnType::String) * (row_count * STRING_LENGTH)
}

/// Bytes for booleans.
pub open spec fn bool_bytes(columns: Seq<ColumnTypeCount>, row_count: i64) -> int {
    entries(columns, ColumnType::Bool) * (row_count * BOOL_BYTE)
}

/// Bytes for the values in the dictionaries of the tags.
pub open spec fn dictionary_key_bytes(columns: Seq<ColumnTypeCount>, row_count: i64) -> int {
    entries(columns, ColumnType::Tag) * (average_cardinality(row_count) * AVERAGE_TAG_VALUE_LENGTH)
}

/// Bytes for the references into the dictionaries, which are counted once if there is any tag.
pub open spec fn dictionary_value_bytes(columns: Seq<ColumnTypeCount>, row_count: i64) -> int {
    if entries(columns, ColumnType::Tag) > 0 {
        row_count * DICTIONARY_BYTE
    } else {
        0
    }
}

/// Bytes that `row_count` rows with the given columns are estimated to take.
pub open spec fn arrow_bytes(columns: Seq<ColumnTypeCount>, row_count: i64) -> int {
    value_bytes(columns, row_count) + string_bytes(columns, row_count) + bool_bytes(
        columns,
        row_count,
    ) + dictionary_key_bytes(columns, row_count) + dictionary_value_bytes(columns, row_count)
}

/// Whether 64-bit signed numbers can hold what entry `j` contributes to the estimate, and the
/// bytes of its kind up to that entry.
pub open spec fn entry_fits(columns: Seq<ColumnTypeCount>, row_count: i64, j: int) -> bool {
    let seen = columns.take(j + 1);
    let count = columns[j].count;
    match ColumnType::decode(columns[j].col_type) {
        Some(ColumnType::String) => {
            &&& is_i64(row_count * STRING_LENGTH)
            &&& is_i64(string_bytes(seen, row_count))
        },
        Some(ColumnType::Bool) => is_i64(bool_bytes(seen, row_count)),
        Some(ColumnType::Tag) => {
            &&& is_i64(average_cardinality(row_count) * AVERAGE_TAG_VALUE_LENGTH)
            &&& is_i64(dictionary_key_bytes(seen, row_count))
            &&& is_i64(row_count * DICTIONARY_BYTE)
        },
        Some(_) => {
            &&& is_i64(count * row_count)
            &&& is_i64(count * row_count * VALUE_BYTE)
            &&& is_i64(value_bytes(seen, row_count))
        },
        None => true,
    }
}

/// Whether 64-bit signed numbers can hold the sums of the kinds of bytes, taken from the left.
pub open spec fn sum_fits(columns: Seq<ColumnTypeCount>, row_count: i64) -> bool {
    let values = value_bytes(columns, row_count);
    let strings = string_bytes(columns, row_count);
    let bools = bool_bytes(columns, row_count);
    let keys = dictionary_key_bytes(columns, row_count);
    &&& is_i64(values + strings)
    &&& is_i64(values + strings + bools)
    &&& is_i64(values + strings + bools + keys)
    &&& is_i64(arrow_bytes(columns, row_count))
}

/// Whether the estimate can be made in 64-bit signed numbers: every entry up to the first invalid
/// code fits, and so do the sums where all codes are valid.
pub open spec fn estimate_fits(columns: Seq<ColumnTypeCount>, row_count: i64) -> bool {
    &&& forall|j: int|
        0 <= j < columns.len() && first_invalid_code(columns.take(j + 1)) is None
            ==> #[trigger] entry_fits(columns, row_count, j)
    &&& first_invalid_code(columns) is None ==> sum_fits(columns, row_count)
}

/// Estimates the memory, in bytes, that a file of `row_count` rows takes once it is decoded.
///
/// The estimate is made in signed numbers and read as an unsigned one.
pub fn estimate_arrow_bytes_for_file(columns: &[ColumnTypeCount], row_count: i64) -> (res: Result<
    u64,
    InvalidColumnType,
>)
    requires
        estimate_fits(columns@, row_count),
    ensures
        match first_invalid_code(columns@) {
            Some(code) => res == Err::<u64, InvalidColumnType>(InvalidColumnType { code }),
            None => res matches Ok(bytes) && bytes == unsigned(arrow_bytes(columns@, row_count)),
        },
{
    let average_cardinality: i64 = row_count / AVERAGE_ROW_COUNT_CARDINALITY_RATIO;

    let mut value_bytes: i64 = 0;
    let mut string_bytes: i64 = 0;
    let mut bool_bytes: i64 = 0;
    let mut dictionary_key_bytes: i64 = 0;
    let mut dictionary_value_bytes: i64 = 0;
    proof {
        lemma_no_entries(row_count);
        assert(columns@.take(0) =~= Seq::empty());
    }
    for i in 0..columns.len()
        invariant
            estimate_fits(columns@, row_count),
            average_cardinality == self::average_cardinality(row_count),
            first_invalid_code(columns@.take(i as int)) is None,
            value_bytes == self::value_bytes(columns@.take(i as int), row_count),
            string_bytes == self::string_bytes(columns@.take(i as int), row_count),
            bool_bytes == self::bool_bytes(columns@.take(i as int), row_count),
            dictionary_key_bytes == self::dictionary_key_bytes(columns@.take(i as int), row_count),
            dictionary_value_bytes == self::dictionary_value_bytes(
                columns@.take(i as int),
                row_count,
            ),
    {
        let c: ColumnTypeCount = columns[i];
        proof {
            lemma_next_entry(columns@, row_count, i as int);
        }
        match ColumnType::try_from(c.col_type) {
            Ok(t) => match t {
                ColumnType::I64 | ColumnType::U64 | ColumnType::F64 | ColumnType::Time => {
                    assert(entry_fits(columns@, row_count, i as int));
                    value_bytes = value_bytes + c.count * row_count * VALUE_BYTE;
                },
                ColumnType::String => {
                    assert(entry_fits(columns@, row_count, i as int));
                    string_bytes = string_bytes + row_count * STRING_LENGTH;
                },
                ColumnType::Bool => {
                    assert(entry_fits(columns@, row_count, i as int));
                    bool_bytes = bool_bytes + row_count * BOOL_BYTE;
                },
                ColumnType::Tag => {
                    assert(entry_fits(columns@, row_count, i as int));
                    dictionary_key_bytes = dictionary_key_bytes + average_cardinality
                        * AVERAGE_TAG_VALUE_LENGTH;
                    dictionary_value_bytes = row_count * DICTIONARY_BYTE;
                },
            },
            Err(e) => {
                proof {
                    lemma_first_invalid_code_is_kept(columns@, i + 1);
                }
                return Err(e);
            },
        }
    }
    assert(columns@.take(columns@.len() as int) =~= columns@);

    let estimated_arrow_bytes_for_file: i64 = value_bytes + string_bytes + bool_bytes
        + dictionary_key_bytes + dictionary_value_bytes;
    Ok(to_unsigned(estimated_arrow_bytes_for_file))
}

/// Whether the estimate for a file of `row_count` rows can be made in 64-bit signed numbers.
pub fn can_estimate(columns: &[ColumnTypeCount], row_count: i64) -> (res: bool)
    ensures
        res == estimate_fits(columns@, row_count),
{
    let average_cardinality: i64 = row_count / AVERAGE_ROW_COUNT_CARDINALITY_RATIO;

    let mut value_bytes: i64 = 0;
    let mut string_bytes: i64 = 0;
    let mut bool_bytes: i64 = 0;
    let mut dictionary_key_bytes: i64 = 0;
    let mut dictionary_value_bytes: i64 = 0;
    proof {
        lemma_no_entries(row_count);
        assert(columns@.take(0) =~= Seq::empty());
    }
    for i in 0..columns.len()
        invariant
            average_cardinality == self::average_cardinality(row_count),
            forall|j: int| 0 <= j < i ==> #[trigger] entry_fits(columns@, row_count, j),
            first_invalid_code(columns@.take(i as int)) is None,
            value_bytes == self::value_bytes(columns@.take(i as int), row_count),
            string_bytes == self::string_bytes(columns@.take(i as int), row_count),
            bool_bytes == self::bool_bytes(columns@.take(i as int), row_count),
            dictionary_key_bytes == self::dictionary_key_bytes(columns@.take(i as int), row_count),
            dictionary_value_bytes == self::dictionary_value_bytes(
                columns@.take(i as int),
                row_count,
            ),
    {
        let c: ColumnTypeCount = columns[i];
        proof {
            lemma_next_entry(columns@, row_count, i as int);
        }
        // What an entry has to add is looked at in the order in which it is added up
        let t: ColumnType = match ColumnType::try_from(c.col_type) {
            Ok(t) => t,
            Err(_) => {
                proof {
                    lemma_entries_after_invalid_code(columns@, i + 1);
                }
                return true;
            },
        };
        let fits: bool = match t {
            ColumnType::I64 | ColumnType::U64 | ColumnType::F64 | ColumnType::Time => {
                match times_plus(c.count, row_count, VALUE_BYTE, value_bytes) {
                    Some(bytes) => {
                        value_bytes = bytes;
                        true
                    },
                    None => false,
                }
            },
            ColumnType::String => {
                match times_plus(row_count, 1, STRING_LENGTH, string_bytes) {
                    Some(bytes) => {
                        string_bytes = bytes;
                        true
                    },
                    None => false,
                }
            },
            ColumnType::Bool => {
                match times_plus(row_count, 1, BOOL_BYTE, bool_bytes) {
                    Some(bytes) => {
                        bool_bytes = bytes;
                        true
                    },
                    None => false,
                }
            },
            ColumnType::Tag => {
                match (
                    times_plus(
                        average_cardinality,
                        1,
                        AVERAGE_TAG_VALUE_LENGTH,
                        dictionary_key_bytes,
                    ),
                    times_plus(row_count, 1, DICTIONARY_BYTE, 0),
                ) {
                    (Some(key_bytes), Some(reference_bytes)) => {
                        dictionary_key_bytes = key_bytes;
                        dictionary_value_bytes = reference_bytes;
                        true
                    },
                    _ => false,
                }
            },
        };
        assert(fits == entry_fits(columns@, row_count, i as int));
        if !fits {
            return false;
        }
    }
    assert(columns@.take(columns@.len() as int) =~= columns@);

    match value_bytes.checked_add(string_bytes) {
        Some(partial) => match partial.checked_add(bool_bytes) {
            Some(partial) => match partial.checked_add(dictionary_key_bytes) {
                Some(partial) => partial.checked_add(dictionary_value_bytes).is_some(),
                None => false,
            },
            None => false,
        },
        None => false,
    }
}

/// `sum + a * b * c`, if 64-bit signed numbers can hold it and what is computed on the way.
fn times_plus(a: i64, b: i64, c: i64, sum: i64) -> (res: Option<i64>)
    ensures
        res == (if is_i64(a * b) && is_i64(a * b * c) && is_i64(sum + a * b * c) {
            Some((sum + a * b * c) as i64)
        } else {
            None
        }),
{
    match a.checked_mul(b) {
        Some(product) => match product.checked_mul(c) {
            Some(product) => sum.checked_add(product),
            None => None,
        },
        None => None,
    }
}

/// No entry is looked at after an invalid code.
proof fn lemma_entries_after_invalid_code(columns: Seq<ColumnTypeCount>, n: int)
    requires
        0 <= n <= columns.len(),
        first_invalid_code(columns.take(n)) is Some,
    ensures
        first_invalid_code(columns) is Some,
        forall|j: int|
            n <= j < columns.len() ==> first_invalid_code(#[trigger] columns.take(j + 1)) is Some,
{
    lemma_first_invalid_code_is_kept(columns, n);
    assert forall|j: int| n <= j < columns.len() implies first_invalid_code(
        #[trigger] columns.take(j + 1),
    ) is Some by {
        let seen = columns.take(j + 1);
        assert(seen.take(n) =~= columns.take(n));
        lemma_first_invalid_code_is_kept(seen, n);
    }
}

/// Without columns there are no bytes of any kind.
pub proof fn lemma_no_entries(row_count: i64)
    ensures
        value_bytes(Seq::empty(), row_count) == 0,
        string_bytes(Seq::empty(), row_count) == 0,
        bool_bytes(Seq::empty(), row_count) == 0,
        dictionary_key_bytes(Seq::empty(), row_count) == 0,
        dictionary_value_bytes(Seq::empty(), row_count) == 0,
{
    reveal(Seq::filter);
    broadcast use vstd::arithmetic::mul::group_mul_basics;
}

/// What entry `i` adds to each kind of bytes.
pub proof fn lemma_next_entry(columns: Seq<ColumnTypeCount>, row_count: i64, i: int)
    requires
        0 <= i < columns.len(),
    ensures
        ({
            let seen = columns.take(i);
            let more = columns.take(i + 1);
            let kind = ColumnType::decode(columns[i].col_type);
            &&& first_invalid_code(seen) is None ==> first_invalid_code(more) == (match kind {
                Some(_) => None,
                None => Some(columns[i].col_type),
            })
            &&& value_bytes(more, row_count) == value_bytes(seen, row_count) + (match kind {
                Some(t) if is_fixed_width(t) => columns[i].count * row_count * VALUE_BYTE,
                _ => 0,
            })
            &&& string_bytes(more, row_count) == string_bytes(seen, row_count) + (if kind == Some(
                ColumnType::String,
            ) {
                row_count * STRING_LENGTH
            } else {
                0
            })
            &&& bool_bytes(more, row_count) == bool_bytes(seen, row_count) + (if kind == Some(
                ColumnType::Bool,
            ) {
                row_count * BOOL_BYTE
            } else {
                0
            })
            &&& dictionary_key_bytes(more, row_count) == dictionary_key_bytes(seen, row_count) + (
            if kind == Some(ColumnType::Tag) {
                average_cardinality(row_count) * AVERAGE_TAG_VALUE_LENGTH
            } else {
                0
            })
            &&& dictionary_value_bytes(more, row_count) == (if kind == Some(ColumnType::Tag) {
                row_count * DICTIONARY_BYTE
            } else {
                dictionary_value_bytes(seen, row_count)
            })
        }),
{
    let seen = columns.take(i);
    let more = columns.take(i + 1);
    let kind = ColumnType::decode(columns[i].col_type);
    assert(more.drop_last() =~= seen);
    assert(more.last() == columns[i]);
    reveal(Seq::filter);
    let n = fixed_width_columns(seen);
    let c = columns[i].count as int;
    let r = row_count as int;
    assert((n + c) * r * 8 == n * r * 8 + c * r * 8) by (nonlinear_arith);
    lemma_one_more(entries(seen, ColumnType::String) as int, row_count * STRING_LENGTH);
    lemma_one_more(entries(seen, ColumnType::Bool) as int, row_count * BOOL_BYTE);
    lemma_one_more(
        entries(seen, ColumnType::Tag) as int,
        average_cardinality(row_count) * AVERAGE_TAG_VALUE_LENGTH,
    );
}

proof fn lemma_one_more(n: int, x: int)
    ensures
        (n + 1) * x == n * x + x,
{
    assert((n + 1) * x == n * x + x) by (nonlinear_arith);
}

/// What comes after an invalid code does not change which one is the first.
proof fn lemma_first_invalid_code_is_kept(columns: Seq<ColumnTypeCount>, n: int)
    requires
        0 <= n <= columns.len(),
        first_invalid_code(columns.take(n)) is Some,
    ensures
        first_invalid_code(columns) == first_invalid_code(columns.take(n)),
    decreases columns.len() - n,
{
    if n == columns.len() {
        assert(columns.take(n) =~= columns);
    } else {
        assert(columns.take(n + 1).drop_last() =~= columns.take(n));
        lemma_first_invalid_code_is_kept(columns, n + 1);
    }
}

/// Whether no entry has a negative count.
pub open spec fn counts_are_natural(columns: Seq<ColumnTypeCount>) -> bool {
    forall|i: int| 0 <= i < columns.len() ==> (#[trigger] columns[i]).count >= 0
}

/// Without negative numbers of rows or columns, the estimate can be made in 64-bit signed numbers
/// if one can hold the estimate.
pub proof fn law_estimate_fits_if_its_value_does(columns: Seq<ColumnTypeCount>, row_count: i64)
    requires
        row_count >= 0,
        counts_are_natural(columns),
        is_i64(arrow_bytes(columns, row_count)),
    ensures
        estimate_fits(columns, row_count),
        arrow_bytes(columns, row_count) >= 0,
{
    lemma_bytes_grow(columns, row_count, columns.len() as int);
    assert(columns.take(columns.len() as int) =~= columns);
    assert forall|j: int| 0 <= j < columns.len() implies #[trigger] entry_fits(
        columns,
        row_count,
        j,
    ) by {
        lemma_bytes_grow(columns, row_count, j);
        lemma_bytes_grow(columns, row_count, j + 1);
        lemma_next_entry(columns, row_count, j);
        assert(columns[j].count >= 0);
        let c = columns[j].count as int;
        let r = row_count as int;
        assert(0 <= c * r <= c * r * 8) by (nonlinear_arith)
            requires
                c >= 0,
                r >= 0,
        ;
    }
}

/// Without negative numbers of rows or columns, no kind of bytes is negative, and the first
/// entries have no more of it than all of them.
proof fn lemma_bytes_grow(columns: Seq<ColumnTypeCount>, row_count: i64, n: int)
    requires
        row_count >= 0,
        counts_are_natural(columns),
        0 <= n <= columns.len(),
    ensures
        0 <= value_bytes(columns.take(n), row_count) <= value_bytes(columns, row_count),
        0 <= string_bytes(columns.take(n), row_count) <= string_bytes(columns, row_count),
        0 <= bool_bytes(columns.take(n), row_count) <= bool_bytes(columns, row_count),
        0 <= dictionary_key_bytes(columns.take(n), row_count) <= dictionary_key_bytes(
            columns,
            row_count,
        ),
        0 <= dictionary_value_bytes(columns.take(n), row_count) <= dictionary_value_bytes(
            columns,
            row_count,
        ),
    decreases columns.len() - n,
{
    lemma_bytes_are_natural(columns, row_count, n);
    if n < columns.len() {
        lemma_bytes_grow(columns, row_count, n + 1);
        lemma_next_entry(columns, row_count, n);
        assert(columns[n].count >= 0);
        let c = columns[n].count as int;
        let r = row_count as int;
        assert(0 <= c * r * 8) by (nonlinear_arith)
            requires
                c >= 0,
                r >= 0,
        ;
    } else {
        assert(columns.take(n) =~= columns);
    }
}

/// Without negative numbers of rows or columns, no kind of bytes is negative.
proof fn lemma_bytes_are_natural(columns: Seq<ColumnTypeCount>, row_count: i64, n: int)
    requires
        row_count >= 0,
        counts_are_natural(columns),
        0 <= n <= columns.len(),
    ensures
        0 <= value_bytes(columns.take(n), row_count),
        0 <= string_bytes(columns.take(n), row_count),
        0 <= bool_bytes(columns.take(n), row_count),
        0 <= dictionary_key_bytes(columns.take(n), row_count),
        0 <= dictionary_value_bytes(columns.take(n), row_count),
    decreases n,
{
    if n == 0 {
        assert(columns.take(0) =~= Seq::empty());
        lemma_no_entries(row_count);
    } else {
        lemma_bytes_are_natural(columns, row_count, n - 1);
        lemma_next_entry(columns, row_count, n - 1);
        assert(columns[n - 1].count >= 0);
        let c = columns[n - 1].count as int;
        let r = row_count as int;
        assert(0 <= c * r * 8) by (nonlinear_arith)
            requires
                c >= 0,
                r >= 0,
        ;
    }
}

} // verus!
