//! Laws of `regexp_extract`, proved from what its functions state.

use crate::builder::RegexpExtractBuilder;
use crate::column::{Column, ColumnKind};
use crate::error::Fault;
use crate::function::{ArgumentHint, SparkRegexpExtract};
use arrow::datatypes::{DataType, FieldRef};
use datafusion_expr::ColumnarValue;
use vstd::prelude::*;

verus! {

/// Whether a column has a value or a null for each of its rows.
pub open spec fn column_complete(column: Column) -> bool {
    &&& crate::column::column_kind(column).is_string() ==> crate::column::column_strings(
        column,
    ).len() == crate::column::column_rows(column)
    &&& crate::column::column_kind(column) is Int32 ==> crate::column::column_integers(column).len()
        == crate::column::column_rows(column)
}

/// A null among the arguments of a row makes the result of the row null, whatever the others are: a
/// null subject, a null pattern, or a null index even next to a pattern that does not compile.
pub proof fn law_null_gives_null(
    subject: Option<Seq<char>>,
    pattern: Option<Seq<char>>,
    idx: Option<i32>,
)
    requires
        subject is None || pattern is None || idx is None,
    ensures
        crate::extract::cell_outcome(Ok(subject), Ok(pattern), idx) == Ok::<
            Option<Seq<char>>,
            Fault,
        >(None),
{
}

/// The result of a row is null only if one of its arguments is.
pub proof fn law_null_comes_from_null(
    subject: Option<Seq<char>>,
    pattern: Option<Seq<char>>,
    idx: Option<i32>,
)
    requires
        crate::extract::cell_outcome(Ok(subject), Ok(pattern), idx) == Ok::<
            Option<Seq<char>>,
            Fault,
        >(None),
    ensures
        subject is None || pattern is None || idx is None,
{
}

/// A pattern that compiles and does not match gives the empty string for every group index, be it
/// negative or past the last group: the index is looked at only after a match.
pub proof fn law_no_match_gives_empty(subject: Seq<char>, pattern: Seq<char>, idx: i32)
    requires
        crate::pattern::compiled(pattern) matches Ok(regex) && crate::pattern::regex_find(
            regex,
            subject,
        ) is None,
    ensures
        crate::pattern::extraction(subject, pattern, idx) == Ok::<Seq<char>, Fault>(Seq::empty()),
{
}

/// A group that takes no part in the match gives the empty string.
pub proof fn law_unmatched_group_gives_empty(subject: Seq<char>, pattern: Seq<char>, idx: i32)
    requires
        crate::pattern::compiled(pattern) matches Ok(regex) && {
            &&& crate::pattern::regex_find(regex, subject) is Some
            &&& 0 < idx < crate::pattern::regex_captures_len(regex)
            &&& crate::pattern::regex_spans(regex, subject)[idx as int] is None
        },
    ensures
        crate::pattern::extraction(subject, pattern, idx) == Ok::<Seq<char>, Fault>(Seq::empty()),
{
}

/// Group zero is the complete match, and asking for it fails only if the pattern does not compile.
pub proof fn law_group_zero_is_the_match(subject: Seq<char>, pattern: Seq<char>)
    ensures
        match crate::pattern::compiled(pattern) {
            Ok(regex) => crate::pattern::extraction(subject, pattern, 0) == Ok::<Seq<char>, Fault>(
                crate::pattern::optional_text(
                    subject,
                    crate::pattern::regex_find(regex, subject),
                ),
            ),
            Err(_) => crate::pattern::extraction(subject, pattern, 0) is Err,
        },
{
}

/// A group index is refused exactly where the pattern compiles, matches, and has no such group; the
/// refusal names the index and the number of groups.
pub proof fn law_group_index_refused(subject: Seq<char>, pattern: Seq<char>, idx: i32)
    requires
        crate::pattern::compiled(pattern) matches Ok(regex)
            && crate::pattern::regex_captures_len(regex) >= 1,
    ensures
        ({
            let regex = crate::pattern::compiled(pattern)->Ok_0;
            let group_count = (crate::pattern::regex_captures_len(regex) - 1) as nat;
            let refused = crate::pattern::regex_find(regex, subject) is Some && !(0 <= idx
                <= group_count);
            &&& refused <==> crate::pattern::extraction(subject, pattern, idx) is Err
            &&& refused ==> crate::pattern::extraction(subject, pattern, idx) == Err::<
                Seq<char>,
                Fault,
            >(Fault::InvalidGroupIndex { index: idx, group_count })
        }),
{
}

/// All rows succeed or the first that fails decides: the values are those of the rows, one for each,
/// or the failure is that of a row before which every row succeeds.
pub proof fn law_first_failure_decides(rows: Seq<Result<Option<Seq<char>>, Fault>>)
    ensures
        match crate::extract::collect(rows) {
            Ok(values) => values.len() == rows.len() && forall|i: int|
                0 <= i < rows.len() ==> #[trigger] rows[i] == Ok::<Option<Seq<char>>, Fault>(
                    values[i],
                ),
            Err(fault) => exists|i: int|
                0 <= i < rows.len() && #[trigger] rows[i] == Err::<Option<Seq<char>>, Fault>(fault)
                    && (forall|j: int| 0 <= j < i ==> #[trigger] rows[j] is Ok),
        },
    decreases rows.len(),
{
    if rows.len() > 0 {
        let front = rows.drop_last();
        law_first_failure_decides(front);
        assert(forall|i: int| 0 <= i < front.len() ==> front[i] == rows[i]);
        match crate::extract::collect(front) {
            Ok(values) => {
                assert forall|i: int| 0 <= i < front.len() implies #[trigger] rows[i] == Ok::<
                    Option<Seq<char>>,
                    Fault,
                >(values[i]) by {
                    assert(front[i] == rows[i]);
                }
                assert(rows[rows.len() - 1] == rows.last());
            },
            Err(fault) => {
                let i = choose|i: int|
                    0 <= i < front.len() && #[trigger] front[i] == Err::<Option<Seq<char>>, Fault>(
                        fault,
                    ) && (forall|j: int| 0 <= j < i ==> #[trigger] front[j] is Ok);
                assert(rows[i] == front[i]);
                assert forall|j: int| 0 <= j < i implies #[trigger] rows[j] is Ok by {
                    assert(front[j] == rows[j]);
                }
            },
        }
    }
}

/// A call that succeeds gives each row what the row gives by itself, whatever the other rows hold.
pub proof fn law_each_row_by_itself(args: Seq<Column>)
    ensures
        crate::extract::outcome(args) matches Ok(values) ==> {
            &&& values.len() == crate::column::column_rows(args[0])
            &&& forall|row: int|
                0 <= row < values.len() ==> #[trigger] crate::extract::row_outcome(args, row)
                    == Ok::<Option<Seq<char>>, Fault>(values[row])
        },
{
    if let Ok(values) = crate::extract::outcome(args) {
        let rows = crate::extract::row_outcomes(args);
        law_first_failure_decides(rows);
        assert forall|row: int| 0 <= row < values.len() implies
            #[trigger] crate::extract::row_outcome(args, row) == Ok::<Option<Seq<char>>, Fault>(
            values[row],
        ) by {
            assert(rows[row] == crate::extract::row_outcome(args, row));
        }
    }
}

/// Only the cells count: columns of strings whose cells agree on every row give the same, whichever
/// of the string types they have and whether a value is written once or for each row.
pub proof fn law_only_cells_count(args: Seq<Column>, others: Seq<Column>)
    requires
        args.len() == others.len(),
        args.len() == 2 || args.len() == 3,
        crate::column::column_rows(args[0]) == crate::column::column_rows(others[0]),
        forall|i: int|
            0 <= i < 2 ==> crate::column::column_kind(#[trigger] args[i]).is_string()
                && crate::column::column_kind(others[i]).is_string(),
        args.len() == 3 ==> crate::column::column_kind(args[2]) is Int32
            && crate::column::column_kind(others[2]) is Int32,
        forall|row: int|
            #![trigger crate::extract::row_outcome(args, row)]
            0 <= row < crate::column::column_rows(args[0]) ==> {
                &&& crate::extract::string_cell(args[0], row) == crate::extract::string_cell(
                    others[0],
                    row,
                )
                &&& crate::extract::string_cell(args[1], row) == crate::extract::string_cell(
                    others[1],
                    row,
                )
                &&& crate::extract::index_cell(args, row) == crate::extract::index_cell(others, row)
            },
    ensures
        crate::extract::outcome(args) == crate::extract::outcome(others),
{
    assert forall|row: int| 0 <= row < crate::column::column_rows(args[0]) implies
        #[trigger] crate::extract::row_outcome(args, row) == crate::extract::row_outcome(
        others,
        row,
    ) by {}
    assert(crate::column::column_kind(args[0]).is_string());
    assert(crate::extract::row_outcomes(args) =~= crate::extract::row_outcomes(others));
}

/// A call without an index is the call with the index one on every row.
pub proof fn law_default_is_group_one(subjects: Column, patterns: Column, ones: Column)
    requires
        crate::column::column_kind(ones) is Int32,
        forall|row: int|
            0 <= row < crate::column::column_rows(subjects) ==> #[trigger] crate::extract::cell(
                crate::column::column_integers(ones),
                row,
            ) == Some(1i32),
    ensures
        crate::extract::outcome(seq![subjects, patterns]) == crate::extract::outcome(
            seq![subjects, patterns, ones],
        ),
{
    let two = seq![subjects, patterns];
    let three = seq![subjects, patterns, ones];
    assert forall|row: int| 0 <= row < crate::column::column_rows(subjects) implies
        crate::extract::row_outcome(two, row) == crate::extract::row_outcome(three, row) by {
        assert(crate::extract::cell(crate::column::column_integers(ones), row) == Some(1i32));
    }
    assert(crate::extract::row_outcomes(two) =~= crate::extract::row_outcomes(three));
}

/// A column of subjects without rows gives no rows, whatever the patterns are.
pub proof fn law_no_rows_give_no_rows(args: Seq<Column>)
    requires
        args.len() == 2 || args.len() == 3,
        crate::column::column_kind(args[0]).is_string(),
        crate::column::column_rows(args[0]) == 0,
        args.len() == 3 ==> crate::column::column_kind(args[2]) is Int32,
    ensures
        crate::extract::outcome(args) == Ok::<Seq<Option<Seq<char>>>, Fault>(Seq::empty()),
{
}

/// Columns without nulls give a column without nulls, as the field of the result promises.
pub proof fn law_no_nulls_give_no_nulls(args: Seq<Column>)
    requires
        forall|i: int| 0 <= i < args.len() ==> column_complete(#[trigger] args[i]),
        forall|i: int, row: int|
            0 <= i < args.len() && crate::column::column_kind(args[i]).is_string() && 0 <= row
                < crate::column::column_rows(args[i])
                ==> #[trigger] crate::column::column_strings(args[i])[row] is Some,
        forall|i: int, row: int|
            0 <= i < args.len() && crate::column::column_kind(args[i]) is Int32 && 0 <= row
                < crate::column::column_rows(args[i])
                ==> #[trigger] crate::column::column_integers(args[i])[row] is Some,
        args.len() == 2 || args.len() == 3 ==> crate::extract::workable(args),
    ensures
        crate::extract::outcome(args) matches Ok(values) ==> forall|row: int|
            0 <= row < values.len() ==> #[trigger] values[row] is Some,
{
    if let Ok(values) = crate::extract::outcome(args) {
        let rows = crate::extract::row_outcomes(args);
        law_first_failure_decides(rows);
        assert(column_complete(args[0]) && column_complete(args[1]));
        assert forall|row: int| 0 <= row < values.len() implies #[trigger] values[row] is Some by {
            assert(rows[row] == crate::extract::row_outcome(args, row));
            assert(crate::extract::row_readable(args, row)) by {
                law_first_failure_decides(rows.take(row));
            }
            let subjects = crate::column::column_strings(args[0]);
            assert(crate::extract::cell(subjects, row) is Some) by {
                assert(subjects[if subjects.len() == 1 {
                    0
                } else {
                    row
                }] is Some);
            }
            if crate::column::column_kind(args[1]).is_string() {
                let patterns = crate::column::column_strings(args[1]);
                assert(crate::extract::cell(patterns, row) is Some) by {
                    assert(patterns[if patterns.len() == 1 {
                        0
                    } else {
                        row
                    }] is Some);
                }
                if args.len() == 3 {
                    assert(column_complete(args[2]));
                    let integers = crate::column::column_integers(args[2]);
                    assert(crate::extract::cell(integers, row) is Some) by {
                        assert(integers[if integers.len() == 1 {
                            0
                        } else {
                            row
                        }] is Some);
                    }
                }
            }
        }
    }
}

/// The number of arguments is refused exactly where no alternative of the signature has it.
pub proof fn law_signature_tells_argument_counts(args: Seq<Column>)
    ensures
        crate::extract::outcome(args) == Err::<Seq<Option<Seq<char>>>, Fault>(
            Fault::ArgumentCount { count: args.len() },
        ) <==> !exists|i: int|
            0 <= i < crate::function::regexp_extract_shape().alternatives.len() && (
            #[trigger] crate::function::regexp_extract_shape().alternatives[i]).len() == args.len(),
{
    let alternatives = crate::function::regexp_extract_shape().alternatives;
    assert(alternatives[0].len() == 2);
    assert(alternatives[1].len() == 3);
    if args.len() == 2 || args.len() == 3 {
        law_first_failure_decides(crate::extract::row_outcomes(args));
    }
}

/// The values decide: whichever columns they stand for, what comes out is the same, up to the text in
/// which a column of indexes is refused.
pub proof fn law_values_decide(
    values: Seq<ColumnarValue>,
    hints: Seq<ArgumentHint>,
    columns: Seq<Column>,
    others: Seq<Column>,
)
    requires
        crate::invoke::columns_for(values, hints, columns),
        crate::invoke::columns_for(values, hints, others),
    ensures
        crate::extract::outcome(columns) == crate::extract::outcome(others)
            || crate::extract::both_refuse_index(columns, others),
{
    crate::invoke::lemma_columns_agree(values, hints, columns, others);
    crate::extract::lemma_agree(columns, others);
}

/// A scalar is as good as an array in which it is repeated, as long as the other scalars are repeated
/// as often as before.
pub proof fn law_scalar_is_repeated_array(
    values: Seq<ColumnarValue>,
    others: Seq<ColumnarValue>,
    hints: Seq<ArgumentHint>,
    position: int,
    columns: Seq<Column>,
    other_columns: Seq<Column>,
)
    requires
        values.len() == others.len(),
        0 <= position < values.len(),
        forall|i: int|
            0 <= i < values.len() && i != position ==> #[trigger] values[i] == others[i] && (
            crate::invoke::value_of(values[i]) is Array || crate::invoke::expansion_rows(
                values,
                hints,
                i,
            ) == crate::invoke::expansion_rows(others, hints, i)),
        crate::invoke::value_of(values[position]) !is Array,
        crate::invoke::value_of(others[position]) matches crate::invoke::Value::Array(column)
            && crate::invoke::stands_for(
            column,
            values[position],
            crate::invoke::expansion_rows(values, hints, position),
        ),
        crate::invoke::columns_for(values, hints, columns),
        crate::invoke::columns_for(others, hints, other_columns),
    ensures
        crate::extract::outcome(columns) == crate::extract::outcome(other_columns)
            || crate::extract::both_refuse_index(columns, other_columns),
{
    assert forall|i: int| 0 <= i < values.len() implies crate::invoke::stands_for(
        #[trigger] other_columns[i],
        values[i],
        crate::invoke::expansion_rows(values, hints, i),
    ) by {
        assert(crate::invoke::stands_for(
            other_columns[i],
            others[i],
            crate::invoke::expansion_rows(others, hints, i),
        ));
        if i != position {
            assert(values[i] == others[i]);
        }
    }
    law_values_decide(values, hints, columns, other_columns);
}

/// The result is an array exactly where an argument is one, and else a scalar.
pub proof fn law_arrays_give_an_array(
    values: Seq<ColumnarValue>,
    hints: Seq<ArgumentHint>,
    columns: Seq<Column>,
    result: ColumnarValue,
)
    requires
        crate::invoke::gives(values, hints, columns, result),
    ensures
        crate::invoke::value_of(result) is Array <==> exists|i: int|
            0 <= i < values.len() && crate::invoke::value_of(#[trigger] values[i]) is Array,
{
    crate::invoke::lemma_array_rows(values);
}

/// The type of a value.
pub open spec fn value_kind(value: ColumnarValue) -> ColumnKind {
    match crate::invoke::value_of(value) {
        crate::invoke::Value::Array(column) => crate::column::column_kind(column),
        crate::invoke::Value::String { kind, .. } => kind,
        crate::invoke::Value::Integer(_) => ColumnKind::Int32,
        _ => ColumnKind::Other,
    }
}

/// Whether a column of strings or of 32-bit integers holds no null.
pub open spec fn column_without_nulls(column: Column) -> bool {
    &&& column_complete(column)
    &&& crate::column::column_kind(column).is_string() ==> forall|row: int|
        0 <= row < crate::column::column_rows(column) ==> #[trigger] crate::column::column_strings(
            column,
        )[row] is Some
    &&& crate::column::column_kind(column) is Int32 ==> forall|row: int|
        0 <= row < crate::column::column_rows(column) ==> #[trigger] crate::column::column_integers(
            column,
        )[row] is Some
}

/// Whether a value that is made of strings or of 32-bit integers holds no null.
pub open spec fn value_without_nulls(value: ColumnarValue) -> bool {
    match crate::invoke::value_of(value) {
        crate::invoke::Value::Array(column) => column_without_nulls(column),
        crate::invoke::Value::String { text, .. } => text is Some,
        crate::invoke::Value::Integer(integer) => integer is Some,
        _ => true,
    }
}

/// Whether a field is declared nullable.
pub open spec fn declared_nullable(field: FieldRef) -> bool {
    crate::function::field_nullable(*field)
}

/// The field of the result holds of the result: its type is the one declared, whatever data type stands
/// for each kind of column, and it holds no null unless it is declared nullable. That is, if the fields
/// of the arguments hold of the arguments.
pub proof fn law_field_holds_of_result(
    function: SparkRegexpExtract,
    arg_fields: &[FieldRef],
    field: FieldRef,
    types: spec_fn(ColumnKind) -> DataType,
    values: Seq<ColumnarValue>,
    columns: Seq<Column>,
    result: ColumnarValue,
)
    requires
        call_ensures(
            SparkRegexpExtract::return_field_from_args,
            (&function, arg_fields),
            Ok(field),
        ),
        arg_fields@.len() == values.len(),
        crate::function::field_type(*arg_fields@[0]) == types(value_kind(values[0])),
        forall|i: int|
            0 <= i < values.len() && !declared_nullable(#[trigger] arg_fields@[i])
                ==> value_without_nulls(values[i]),
        crate::invoke::invocable(values),
        crate::invoke::gives(values, crate::function::regexp_extract_hints(), columns, result),
    ensures
        crate::function::field_type(*field) == types(value_kind(result)),
        !declared_nullable(field) ==> value_without_nulls(result),
{
    let hints = crate::function::regexp_extract_hints();
    assert(crate::invoke::stands_for(
        columns[0],
        values[0],
        crate::invoke::expansion_rows(values, hints, 0),
    ));
    if !declared_nullable(field) {
        assert forall|i: int| 0 <= i < columns.len() implies column_without_nulls(
            #[trigger] columns[i],
        ) by {
            assert(!declared_nullable(arg_fields@[i]));
            assert(crate::invoke::stands_for(
                columns[i],
                values[i],
                crate::invoke::expansion_rows(values, hints, i),
            ));
        }
        assert forall|i: int| 0 <= i < columns.len() implies column_complete(
            #[trigger] columns[i],
        ) by {
            assert(column_without_nulls(columns[i]));
        }
        law_no_nulls_give_no_nulls(columns);
    }
}

/// Whether `after` is the builder `before` once it is given a row, as `append_value` and `append_null`
/// state it.
pub open spec fn given<B: RegexpExtractBuilder>(
    before: B,
    row: Option<Seq<char>>,
    after: B,
) -> bool {
    after.rows() == before.rows().push(row)
}

/// Whether `after` is the builder `before` once it has handed out `column`, as `finish` states it.
pub open spec fn handed_out<B: RegexpExtractBuilder>(before: B, column: Column, after: B) -> bool {
    &&& crate::column::column_kind(column) == B::kind()
    &&& crate::column::column_strings(column) == before.rows()
    &&& crate::column::column_rows(column) == before.rows().len()
    &&& after.rows() == Seq::<Option<Seq<char>>>::empty()
}

/// What a builder is given comes out of it in order, whether it is made of values or nulls, and leaves
/// the builder as empty as it was: `steps` are the states of a builder that starts without rows and is
/// given `rows`, one by one, and `emptied` is the builder after it has handed out `column`. The column
/// that it hands out `next` has no rows.
pub proof fn law_rows_come_out_of_the_builder<B: RegexpExtractBuilder>(
    rows: Seq<Option<Seq<char>>>,
    steps: Seq<B>,
    column: Column,
    emptied: B,
    next: Column,
    last: B,
)
    requires
        steps.len() == rows.len() + 1,
        steps[0].rows() == Seq::<Option<Seq<char>>>::empty(),
        forall|i: int|
            0 <= i < rows.len() ==> given(steps[i], #[trigger] rows[i], steps[i + 1]),
        handed_out(steps.last(), column, emptied),
        handed_out(emptied, next, last),
    ensures
        crate::column::column_kind(column) == B::kind(),
        crate::column::column_strings(column) == rows,
        crate::column::column_rows(column) == rows.len(),
        emptied.rows() == steps[0].rows(),
        crate::column::column_kind(next) == B::kind(),
        crate::column::column_rows(next) == 0,
{
    lemma_steps(rows, steps);
}

/// A builder holds what it was given.
proof fn lemma_steps<B: RegexpExtractBuilder>(rows: Seq<Option<Seq<char>>>, steps: Seq<B>)
    requires
        steps.len() == rows.len() + 1,
        steps[0].rows() == Seq::<Option<Seq<char>>>::empty(),
        forall|i: int|
            0 <= i < rows.len() ==> given(steps[i], #[trigger] rows[i], steps[i + 1]),
    ensures
        steps.last().rows() == rows,
    decreases rows.len(),
{
    if rows.len() > 0 {
        let front = rows.drop_last();
        let before = steps.drop_last();
        assert forall|i: int| 0 <= i < front.len() implies given(
            before[i],
            #[trigger] front[i],
            before[i + 1],
        ) by {
            assert(front[i] == rows[i]);
        }
        lemma_steps(front, before);
        assert(given(steps[front.len() as int], rows[front.len() as int], steps.last()));
        assert(front.push(rows.last()) =~= rows);
    }
}

/// The default is what the constructor makes.
pub proof fn law_default_is_new(default: SparkRegexpExtract, new: SparkRegexpExtract)
    requires
        call_ensures(<SparkRegexpExtract as Default>::default, (), default),
        call_ensures(SparkRegexpExtract::new, (), new),
    ensures
        default == new,
{
}

} // verus!
