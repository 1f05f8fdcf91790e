//! What holds of every estimate, in terms of the codes, the counts and the rows.

use crate::arrow_estimate::{
    arrow_bytes, average_cardinality, bool_bytes, dictionary_key_bytes, dictionary_value_bytes,
    entries, entry_fits, estimate_fits, first_invalid_code, fixed_width_columns,
    lemma_next_entry, lemma_no_entries, string_bytes, sum_fits, value_bytes,
};
use crate::column_type::{ColumnType, ColumnTypeCount};
use vstd::prelude::*;

verus! {

/// What one entry is estimated to take: 8 bytes for each row and column of a number or a timestamp,
/// 1000 bytes for each row of a string, one byte for each row of a boolean, and for a tag 200 bytes
/// for each second row and 8 bytes for each row.
pub proof fn law_estimate_of_one_entry(c: ColumnTypeCount, row_count: i64)
    ensures
        ({
            let bytes = arrow_bytes(seq![c], row_count);
            &&& c.col_type == 1 || c.col_type == 2 || c.col_type == 3 || c.col_type == 6 ==> bytes
                == c.count * row_count * 8
            &&& c.col_type == 4 ==> bytes == row_count
            &&& c.col_type == 5 ==> bytes == row_count * 1000
            &&& c.col_type == 7 && row_count >= 0 ==> bytes == (row_count as int / 2) * 200
                + row_count * 8
            &&& c.col_type == 7 && row_count < 0 ==> bytes == -((-row_count) / 2) * 200 + row_count
                * 8
        }),
{
    let one = seq![c];
    assert(one.take(0) =~= Seq::empty());
    assert(one.take(1) =~= one);
    lemma_no_entries(row_count);
    lemma_next_entry(one, row_count, 0);
}

/// Two lists of columns together are estimated to take what each of them takes, but for the 8
/// bytes for each row that tags take once, however many there are.
pub proof fn law_estimate_of_two_lists(
    a: Seq<ColumnTypeCount>,
    b: Seq<ColumnTypeCount>,
    row_count: i64,
)
    ensures
        arrow_bytes(Seq::empty(), row_count) == 0,
        arrow_bytes(a + b, row_count) == arrow_bytes(a, row_count) + arrow_bytes(b, row_count) - (
        if (exists|i: int| 0 <= i < a.len() && (#[trigger] a[i]).col_type == 7) && (exists|i: int|
            0 <= i < b.len() && (#[trigger] b[i]).col_type == 7) {
            row_count * 8
        } else {
            0
        }),
    decreases b.len(),
{
    lemma_no_entries(row_count);
    lemma_has_tag(a);
    lemma_has_tag(b);
    if b.len() == 0 {
        assert(a + b =~= a);
        assert(b =~= Seq::empty());
    } else {
        let rest = b.drop_last();
        law_estimate_of_two_lists(a, rest, row_count);
        lemma_has_tag(rest);
        lemma_has_tag(a + rest);
        lemma_has_tag_add(a, rest);
        assert((a + b).take((a + b).len() - 1) =~= a + rest);
        assert((a + b).take((a + b).len() as int) =~= a + b);
        assert(b.take(b.len() - 1) =~= rest);
        assert(b.take(b.len() as int) =~= b);
        lemma_next_entry(a + b, row_count, (a + b).len() - 1);
        lemma_next_entry(b, row_count, b.len() - 1);
        if exists|i: int| 0 <= i < rest.len() && (#[trigger] rest[i]).col_type == 7 {
            let i = choose|i: int| 0 <= i < rest.len() && (#[trigger] rest[i]).col_type == 7;
            assert(b[i].col_type == 7);
        }
        if b.last().col_type != 7 {
            if exists|i: int| 0 <= i < b.len() && (#[trigger] b[i]).col_type == 7 {
                let i = choose|i: int| 0 <= i < b.len() && (#[trigger] b[i]).col_type == 7;
                assert(rest[i].col_type == 7);
            }
        }
    }
}

/// There are tag entries where some code is that of a tag.
proof fn lemma_has_tag(s: Seq<ColumnTypeCount>)
    ensures
        entries(s, ColumnType::Tag) > 0 <==> exists|i: int|
            0 <= i < s.len() && (#[trigger] s[i]).col_type == 7,
    decreases s.len(),
{
    reveal(Seq::filter);
    if s.len() > 0 {
        let rest = s.drop_last();
        lemma_has_tag(rest);
        if exists|i: int| 0 <= i < rest.len() && (#[trigger] rest[i]).col_type == 7 {
            let i = choose|i: int| 0 <= i < rest.len() && (#[trigger] rest[i]).col_type == 7;
            assert(s[i].col_type == 7);
        }
        if s.last().col_type == 7 {
            assert(s[s.len() - 1].col_type == 7);
        } else if exists|i: int| 0 <= i < s.len() && (#[trigger] s[i]).col_type == 7 {
            let i = choose|i: int| 0 <= i < s.len() && (#[trigger] s[i]).col_type == 7;
            assert(rest[i].col_type == 7);
        }
    }
}

/// Two lists have a tag entry together if one of them has.
proof fn lemma_has_tag_add(a: Seq<ColumnTypeCount>, b: Seq<ColumnTypeCount>)
    ensures
        entries(a + b, ColumnType::Tag) == entries(a, ColumnType::Tag) + entries(
            b,
            ColumnType::Tag,
        ),
{
    Seq::filter_distributes_over_add(
        a,
        b,
        |c: ColumnTypeCount| ColumnType::decode(c.col_type) == Some(ColumnType::Tag),
    );
}

/// Codes from 1 to 7 are valid. The error is the first code that is not, and there is none where
/// all codes are.
pub proof fn law_first_invalid_code(columns: Seq<ColumnTypeCount>, code: i16)
    ensures
        first_invalid_code(columns) is None <==> forall|i: int|
            0 <= i < columns.len() ==> 1 <= (#[trigger] columns[i]).col_type <= 7,
        first_invalid_code(columns) == Some(code) <==> exists|i: int|
            0 <= i < columns.len() && (#[trigger] columns[i]).col_type == code && !(1 <= code <= 7)
                && forall|j: int| 0 <= j < i ==> 1 <= (#[trigger] columns[j]).col_type <= 7,
    decreases columns.len(),
{
    if columns.len() > 0 {
        let rest = columns.drop_last();
        let n = rest.len() as int;
        law_first_invalid_code(rest, code);
        assert(forall|i: int| 0 <= i < n ==> rest[i] == columns[i]);
        assert(columns[n] == columns.last());
        match first_invalid_code(rest) {
            Some(first) => {
                law_first_invalid_code(rest, first);
                let i = choose|i: int|
                    0 <= i < rest.len() && (#[trigger] rest[i]).col_type == first && !(1 <= first
                        <= 7) && forall|j: int|
                        0 <= j < i ==> 1 <= (#[trigger] rest[j]).col_type <= 7;
                assert(columns[i].col_type == first);
                assert(forall|j: int| 0 <= j < i ==> 1 <= (#[trigger] columns[j]).col_type <= 7);
            },
            None => {
                assert(forall|j: int| 0 <= j < n ==> 1 <= (#[trigger] columns[j]).col_type <= 7);
            },
        }
    }
}

/// The estimate grows evenly with the rows: for even numbers of rows, what two files take is what
/// one file with the rows of both takes.
pub proof fn law_estimate_grows_evenly(columns: Seq<ColumnTypeCount>, r: i64, s: i64)
    requires
        r % 2 == 0,
        s % 2 == 0,
        i64::MIN <= r + s <= i64::MAX,
    ensures
        arrow_bytes(columns, (r + s) as i64) == arrow_bytes(columns, r) + arrow_bytes(columns, s),
{
    let both = (r + s) as i64;
    let f = fixed_width_columns(columns);
    let n = entries(columns, ColumnType::String) as int;
    let m = entries(columns, ColumnType::Bool) as int;
    let t = entries(columns, ColumnType::Tag) as int;
    let x = r as int;
    let y = s as int;
    assert(f * (x + y) * 8 == f * x * 8 + f * y * 8) by (nonlinear_arith);
    assert(n * ((x + y) * 1000) == n * (x * 1000) + n * (y * 1000)) by (nonlinear_arith);
    assert(m * ((x + y) * 1) == m * (x * 1) + m * (y * 1)) by (nonlinear_arith);
    let p = average_cardinality(r);
    let q = average_cardinality(s);
    assert(average_cardinality(both) == p + q);
    assert(t * ((p + q) * 200) == t * (p * 200) + t * (q * 200)) by (nonlinear_arith);
}

/// The entries for numbers and timestamps.
pub open spec fn numbers(columns: Seq<ColumnTypeCount>) -> Seq<ColumnTypeCount> {
    columns.filter(
        |c: ColumnTypeCount|
            c.col_type == 1 || c.col_type == 2 || c.col_type == 3 || c.col_type == 6,
    )
}

/// The entries with one code.
pub open spec fn with_code(columns: Seq<ColumnTypeCount>, code: i16) -> Seq<ColumnTypeCount> {
    columns.filter(|c: ColumnTypeCount| c.col_type == code)
}

/// The estimate can be made exactly when 64-bit signed numbers can hold, for each entry up to the
/// first invalid code, what it adds and the estimate for the entries of its kind so far, and,
/// without invalid codes, the estimates for numbers, strings, booleans and tags, added up in this
/// order, with the 8 bytes for each row of the tags last.
pub proof fn law_estimate_fits_exactly(columns: Seq<ColumnTypeCount>, row_count: i64)
    ensures
        estimate_fits(columns, row_count) <==> {
            &&& forall|j: int|
                #![trigger columns[j]]
                0 <= j < columns.len() && (forall|k: int|
                    0 <= k <= j ==> 1 <= (#[trigger] columns[k]).col_type <= 7) ==> {
                    let seen = columns.take(j + 1);
                    let c = columns[j];
                    let half = if row_count >= 0 {
                        row_count as int / 2
                    } else {
                        -((-row_count) / 2)
                    };
                    if c.col_type == 4 {
                        i64::MIN <= arrow_bytes(with_code(seen, 4), row_count) <= i64::MAX
                    } else if c.col_type == 5 {
                        &&& i64::MIN <= row_count * 1000 <= i64::MAX
                        &&& i64::MIN <= arrow_bytes(with_code(seen, 5), row_count) <= i64::MAX
                    } else if c.col_type == 7 {
                        &&& i64::MIN <= half * 200 <= i64::MAX
                        &&& i64::MIN <= row_count * 8 <= i64::MAX
                        &&& i64::MIN <= arrow_bytes(with_code(seen, 7), row_count) - row_count * 8
                            <= i64::MAX
                    } else {
                        &&& i64::MIN <= c.count * row_count <= i64::MAX
                        &&& i64::MIN <= c.count * row_count * 8 <= i64::MAX
                        &&& i64::MIN <= arrow_bytes(numbers(seen), row_count) <= i64::MAX
                    }
                }
            &&& (forall|j: int|
                0 <= j < columns.len() ==> 1 <= (#[trigger] columns[j]).col_type <= 7) ==> {
                let values = arrow_bytes(numbers(columns), row_count);
                let strings = arrow_bytes(with_code(columns, 5), row_count);
                let bools = arrow_bytes(with_code(columns, 4), row_count);
                let all = arrow_bytes(columns, row_count);
                let references = if with_code(columns, 7).len() > 0 {
                    row_count * 8
                } else {
                    0
                };
                &&& i64::MIN <= values + strings <= i64::MAX
                &&& i64::MIN <= values + strings + bools <= i64::MAX
                &&& i64::MIN <= all - references <= i64::MAX
                &&& i64::MIN <= all <= i64::MAX
            }
        },
{
    lemma_sum_fits(columns, row_count);
    law_first_invalid_code(columns, 0);
    if estimate_fits(columns, row_count) {
        assert forall|j: int|
            #![trigger columns[j]]
            0 <= j < columns.len() && (forall|k: int|
                0 <= k <= j ==> 1 <= (#[trigger] columns[k]).col_type <= 7) implies code_entry_fits(
            columns,
            row_count,
            j,
        ) by {
            lemma_reached(columns, j);
            assert(entry_fits(columns, row_count, j));
            lemma_entry_fits(columns, row_count, j);
        }
    }
    if forall|j: int|
        #![trigger columns[j]]
        0 <= j < columns.len() && (forall|k: int|
            0 <= k <= j ==> 1 <= (#[trigger] columns[k]).col_type <= 7) ==> code_entry_fits(
            columns,
            row_count,
            j,
        ) {
        assert forall|j: int|
            0 <= j < columns.len() && first_invalid_code(
                columns.take(j + 1),
            ) is None implies #[trigger] entry_fits(columns, row_count, j) by {
            lemma_reached(columns, j);
            assert(1 <= columns[j].col_type <= 7);
            lemma_entry_fits(columns, row_count, j);
        }
    }
}

/// Whether 64-bit signed numbers can hold what entry `j` adds and the estimate for the entries of
/// its kind so far.
spec fn code_entry_fits(columns: Seq<ColumnTypeCount>, row_count: i64, j: int) -> bool {
    let seen = columns.take(j + 1);
    let c = columns[j];
    let half = if row_count >= 0 {
        row_count as int / 2
    } else {
        -((-row_count) / 2)
    };
    if c.col_type == 4 {
        i64::MIN <= arrow_bytes(with_code(seen, 4), row_count) <= i64::MAX
    } else if c.col_type == 5 {
        &&& i64::MIN <= row_count * 1000 <= i64::MAX
        &&& i64::MIN <= arrow_bytes(with_code(seen, 5), row_count) <= i64::MAX
    } else if c.col_type == 7 {
        &&& i64::MIN <= half * 200 <= i64::MAX
        &&& i64::MIN <= row_count * 8 <= i64::MAX
        &&& i64::MIN <= arrow_bytes(with_code(seen, 7), row_count) - row_count * 8 <= i64::MAX
    } else {
        &&& i64::MIN <= c.count * row_count <= i64::MAX
        &&& i64::MIN <= c.count * row_count * 8 <= i64::MAX
        &&& i64::MIN <= arrow_bytes(numbers(seen), row_count) <= i64::MAX
    }
}

/// An entry is looked at if its code and those before it are valid.
proof fn lemma_reached(columns: Seq<ColumnTypeCount>, j: int)
    requires
        0 <= j < columns.len(),
    ensures
        first_invalid_code(columns.take(j + 1)) is None <==> forall|k: int|
            0 <= k <= j ==> 1 <= (#[trigger] columns[k]).col_type <= 7,
{
    let seen = columns.take(j + 1);
    law_first_invalid_code(seen, 0);
    assert(forall|k: int| 0 <= k <= j ==> seen[k] == columns[k]);
    if first_invalid_code(seen) is None {
        assert forall|k: int| 0 <= k <= j implies 1 <= (#[trigger] columns[k]).col_type <= 7 by {
            assert(1 <= seen[k].col_type <= 7);
        }
    }
}

/// Whether an entry fits, by the estimate for the entries of its kind.
proof fn lemma_entry_fits(columns: Seq<ColumnTypeCount>, row_count: i64, j: int)
    requires
        0 <= j < columns.len(),
        1 <= columns[j].col_type <= 7,
    ensures
        entry_fits(columns, row_count, j) <==> code_entry_fits(columns, row_count, j),
{
    let seen = columns.take(j + 1);
    lemma_kinds(seen, row_count);
    assert(seen[j] == columns[j]);
    lemma_has_tag(seen);
}

/// Whether the sums fit, by the estimates for the entries of each kind.
proof fn lemma_sum_fits(columns: Seq<ColumnTypeCount>, row_count: i64)
    ensures
        ({
            let values = arrow_bytes(numbers(columns), row_count);
            let strings = arrow_bytes(with_code(columns, 5), row_count);
            let bools = arrow_bytes(with_code(columns, 4), row_count);
            let all = arrow_bytes(columns, row_count);
            let references = if with_code(columns, 7).len() > 0 {
                row_count * 8
            } else {
                0
            };
            sum_fits(columns, row_count) <==> {
                &&& i64::MIN <= values + strings <= i64::MAX
                &&& i64::MIN <= values + strings + bools <= i64::MAX
                &&& i64::MIN <= all - references <= i64::MAX
                &&& i64::MIN <= all <= i64::MAX
            }
        }),
{
    lemma_kinds(columns, row_count);
}

/// The kinds of bytes are the estimates for the entries of that kind.
proof fn lemma_kinds(columns: Seq<ColumnTypeCount>, row_count: i64)
    ensures
        arrow_bytes(numbers(columns), row_count) == value_bytes(columns, row_count),
        arrow_bytes(with_code(columns, 5), row_count) == string_bytes(columns, row_count),
        arrow_bytes(with_code(columns, 4), row_count) == bool_bytes(columns, row_count),
        arrow_bytes(with_code(columns, 7), row_count) == dictionary_key_bytes(columns, row_count)
            + dictionary_value_bytes(columns, row_count),
        with_code(columns, 7).len() == entries(columns, ColumnType::Tag),
    decreases columns.len(),
{
    reveal(Seq::filter);
    lemma_no_entries(row_count);
    if columns.len() == 0 {
        assert(columns =~= Seq::empty());
        assert(numbers(columns) =~= Seq::empty());
        assert(with_code(columns, 5) =~= Seq::empty());
        assert(with_code(columns, 4) =~= Seq::empty());
        assert(with_code(columns, 7) =~= Seq::empty());
    } else {
        let rest = columns.drop_last();
        let c = columns.last();
        lemma_kinds(rest, row_count);
        assert(columns.take(columns.len() - 1) =~= rest);
        assert(columns.take(columns.len() as int) =~= columns);
        lemma_next_entry(columns, row_count, columns.len() - 1);
        lemma_add_entry(numbers(rest), c, row_count);
        lemma_add_entry(with_code(rest, 4), c, row_count);
        lemma_add_entry(with_code(rest, 5), c, row_count);
        lemma_add_entry(with_code(rest, 7), c, row_count);
        lemma_has_tag(with_code(rest, 7));
        lemma_with_code_has_code(rest, 7);
    }
}

/// Every entry with a code has that code.
proof fn lemma_with_code_has_code(columns: Seq<ColumnTypeCount>, code: i16)
    ensures
        forall|i: int|
            0 <= i < with_code(columns, code).len() ==> (#[trigger] with_code(
                columns,
                code,
            )[i]).col_type == code,
    decreases columns.len(),
{
    reveal(Seq::filter);
    if columns.len() > 0 {
        lemma_with_code_has_code(columns.drop_last(), code);
    }
}

/// What an entry adds to the estimate for a list.
proof fn lemma_add_entry(s: Seq<ColumnTypeCount>, c: ColumnTypeCount, row_count: i64)
    ensures
        arrow_bytes(s.push(c), row_count) == arrow_bytes(s, row_count) + arrow_bytes(
            seq![c],
            row_count,
        ) - (if c.col_type == 7 && exists|i: int|
            0 <= i < s.len() && (#[trigger] s[i]).col_type == 7 {
            row_count * 8
        } else {
            0
        }),
        c.col_type == 1 || c.col_type == 2 || c.col_type == 3 || c.col_type == 6 ==> arrow_bytes(
            seq![c],
            row_count,
        ) == c.count * row_count * 8,
        c.col_type == 4 ==> arrow_bytes(seq![c], row_count) == row_count,
        c.col_type == 5 ==> arrow_bytes(seq![c], row_count) == row_count * 1000,
        c.col_type == 7 ==> arrow_bytes(seq![c], row_count) == average_cardinality(row_count) * 200
            + row_count * 8,
{
    law_estimate_of_two_lists(s, seq![c], row_count);
    law_estimate_of_one_entry(c, row_count);
    assert(s + seq![c] =~= s.push(c));
    assert(seq![c][0] == c);
}

} // verus!
