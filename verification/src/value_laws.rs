//! Laws of calls on the values of a query engine, stated on what the values are, on the cells of the
//! columns among them and on what the `regex` crate answers.

use crate::column::{Column, ColumnKind};
use crate::error::{Fault, RegexpExtractError};
use crate::extract::spark_regexp_extract;
use crate::function::SparkRegexpExtract;
use crate::invoke::{OtherScalar, Value};
use datafusion_common::DataFusionError;
use datafusion_expr::ColumnarValue;
use vstd::prelude::*;
use vstd::utf8::*;

verus! {

/// The rows counted are those of the last array.
proof fn lemma_last_array(values: Seq<ColumnarValue>, last: int, column: Column)
    requires
        0 <= last < values.len(),
        crate::invoke::value_of(values[last]) == Value::Array(column),
        forall|i: int|
            last < i < values.len() ==> crate::invoke::value_of(#[trigger] values[i]) !is Array,
    ensures
        crate::invoke::array_rows(values) == Some(crate::column::column_rows(column)),
    decreases values.len(),
{
    if last < values.len() - 1 {
        assert(crate::invoke::value_of(values[values.len() - 1]) !is Array);
        let front = values.drop_last();
        assert forall|i: int| last < i < front.len() implies crate::invoke::value_of(
            #[trigger] front[i],
        ) !is Array by {
            assert(front[i] == values[i]);
        }
        assert(front[last] == values[last]);
        lemma_last_array(front, last, column);
    }
}

/// A call on values, among which is an array, gives an array of the type of the subject. Its rows are those
/// of the subject if that is an array; a subject that is a scalar serves for each row of the last array.
/// A row with a null gives null, and each other what its pattern, compiled as it is written, finds in its
/// subject. A pattern or an index that is a scalar serves for every row.
pub proof fn law_invocation_with_an_array(
    function: SparkRegexpExtract,
    args: &[ColumnarValue],
    result: ColumnarValue,
    last: int,
    row: int,
    subject: Option<Seq<char>>,
    pattern: Option<Seq<char>>,
    idx: Option<i32>,
)
    requires
        call_ensures(SparkRegexpExtract::invoke_with_args, (&function, args), Ok(result))
            || call_ensures(
            SparkRegexpExtract::try_invoke_with_args,
            (&function, args),
            Some(Ok(result)),
        ),
        args@.len() == 2 || args@.len() == 3,
        0 <= last < args@.len(),
        crate::invoke::value_of(args@[last]) is Array,
        forall|i: int|
            last < i < args@.len() ==> crate::invoke::value_of(#[trigger] args@[i]) !is Array,
        match crate::invoke::value_of(args@[0]) {
            Value::Array(subjects) => {
                &&& 0 <= row < crate::column::column_rows(subjects)
                &&& crate::column::column_strings(subjects).len() == crate::column::column_rows(
                    subjects,
                )
                &&& crate::column::column_strings(subjects)[row] == subject
            },
            Value::String { text, .. } => {
                &&& 0 <= row < crate::column::column_rows(
                    crate::invoke::value_of(args@[last])->Array_0,
                )
                &&& text == subject
            },
            _ => false,
        },
        match crate::invoke::value_of(args@[1]) {
            Value::Array(patterns) => {
                &&& crate::column::column_kind(patterns) is Utf8 || crate::column::column_kind(
                    patterns,
                ) is LargeUtf8 || crate::column::column_kind(patterns) is Utf8View
                &&& crate::column::column_strings(patterns)[if crate::column::column_strings(
                    patterns,
                ).len() == 1 {
                    0
                } else {
                    row
                }] == pattern
            },
            Value::String { text, .. } => text == pattern,
            _ => false,
        },
        args@.len() == 2 ==> idx == Some(1i32),
        args@.len() == 3 ==> match crate::invoke::value_of(args@[2]) {
            Value::Array(indexes) => crate::column::column_integers(
                indexes,
            )[if crate::column::column_integers(indexes).len() == 1 {
                0
            } else {
                row
            }] == idx,
            Value::Integer(integer) => integer == idx,
            _ => false,
        },
    ensures
        crate::invoke::value_of(result) matches Value::Array(column) && {
            let value = crate::column::column_strings(column)[row];
            &&& match crate::invoke::value_of(args@[0]) {
                Value::Array(subjects) => {
                    &&& crate::column::column_kind(column) == crate::column::column_kind(subjects)
                    &&& crate::column::column_rows(column) == crate::column::column_rows(subjects)
                },
                Value::String { kind, .. } => {
                    &&& crate::column::column_kind(column) == kind
                    &&& crate::column::column_rows(column) == crate::column::column_rows(
                        crate::invoke::value_of(args@[last])->Array_0,
                    )
                },
                _ => false,
            }
            &&& crate::column::column_strings(column).len() == crate::column::column_rows(column)
            &&& value is None <==> subject is None || pattern is None || idx is None
            &&& value matches Some(text) ==> {
                &&& crate::pattern::regex_new(pattern->0, usize::BITS) matches Ok(regex)
                &&& match crate::pattern::regex_find(regex, subject->0) {
                    None => text == Seq::<char>::empty(),
                    Some((start, end)) => {
                        &&& idx == Some(0i32) ==> text == decode_utf8(
                            encode_utf8(subject->0).subrange(start as int, end as int),
                        )
                        &&& crate::pattern::regex_captures_len(regex) >= 1 ==> 0 <= idx->0
                            < crate::pattern::regex_captures_len(regex)
                        &&& 0 < idx->0 < crate::pattern::regex_captures_len(regex)
                            ==> match crate::pattern::regex_spans(
                            regex,
                            subject->0,
                        )[idx->0 as int] {
                            None => text == Seq::<char>::empty(),
                            Some((first, last)) => text == decode_utf8(
                                encode_utf8(subject->0).subrange(first as int, last as int),
                            ),
                        }
                    },
                }
            }
        },
{
    let hints = crate::function::regexp_extract_hints();
    assert(crate::invoke::invoked(args@, hints, Ok(result)));
    let columns = choose|columns: Seq<Column>|
        crate::invoke::gives(args@, hints, columns, result);
    lemma_last_array(args@, last, crate::invoke::value_of(args@[last])->Array_0);
    lemma_row(args@, columns, row, subject, pattern, idx);
}

/// What the columns that values stand for give on a row.
proof fn lemma_row(
    values: Seq<ColumnarValue>,
    columns: Seq<Column>,
    row: int,
    subject: Option<Seq<char>>,
    pattern: Option<Seq<char>>,
    idx: Option<i32>,
)
    requires
        values.len() == 2 || values.len() == 3,
        crate::invoke::columns_for(values, crate::function::regexp_extract_hints(), columns),
        crate::extract::outcome(columns) is Ok,
        match crate::invoke::value_of(values[0]) {
            Value::Array(subjects) => {
                &&& 0 <= row < crate::column::column_rows(subjects)
                &&& crate::column::column_strings(subjects).len() == crate::column::column_rows(
                    subjects,
                )
                &&& crate::column::column_strings(subjects)[row] == subject
            },
            Value::String { text, .. } => {
                &&& 0 <= row < crate::invoke::expansion_rows(
                    values,
                    crate::function::regexp_extract_hints(),
                    0,
                )
                &&& text == subject
            },
            _ => false,
        },
        match crate::invoke::value_of(values[1]) {
            Value::Array(patterns) => {
                &&& crate::column::column_kind(patterns).is_string()
                &&& crate::column::column_strings(patterns)[if crate::column::column_strings(
                    patterns,
                ).len() == 1 {
                    0
                } else {
                    row
                }] == pattern
            },
            Value::String { text, .. } => text == pattern,
            _ => false,
        },
        values.len() == 2 ==> idx == Some(1i32),
        values.len() == 3 ==> match crate::invoke::value_of(values[2]) {
            Value::Array(indexes) => crate::column::column_integers(
                indexes,
            )[if crate::column::column_integers(indexes).len() == 1 {
                0
            } else {
                row
            }] == idx,
            Value::Integer(integer) => integer == idx,
            _ => false,
        },
    ensures
        0 <= row < crate::extract::outcome(columns)->Ok_0.len(),
        crate::extract::outcome(columns)->Ok_0.len() == crate::column::column_rows(columns[0]),
        Ok::<Option<Seq<char>>, Fault>(crate::extract::outcome(columns)->Ok_0[row])
            == crate::extract::cell_outcome(Ok(subject), Ok(pattern), idx),
{
    let hints = crate::function::regexp_extract_hints();
    crate::laws::law_each_row_by_itself(columns);
    assert(crate::invoke::stands_for(
        columns[0],
        values[0],
        crate::invoke::expansion_rows(values, hints, 0),
    ));
    assert(crate::invoke::stands_for(columns[1], values[1], 1));
    assert(values.len() == 3 ==> crate::invoke::stands_for(columns[2], values[2], 1));
    assert(crate::extract::row_outcome(columns, row) == crate::extract::cell_outcome(
        Ok(subject),
        Ok(pattern),
        idx,
    ));
}

/// A call on scalars gives a scalar of the type of the subject: null if one of them is, and else what the
/// pattern, compiled as it is written, finds in the subject.
pub proof fn law_invocation_on_scalars(
    function: SparkRegexpExtract,
    args: &[ColumnarValue],
    result: ColumnarValue,
    kind: ColumnKind,
    subject: Option<Seq<char>>,
    pattern: Option<Seq<char>>,
    idx: Option<i32>,
)
    requires
        call_ensures(SparkRegexpExtract::invoke_with_args, (&function, args), Ok(result))
            || call_ensures(
            SparkRegexpExtract::try_invoke_with_args,
            (&function, args),
            Some(Ok(result)),
        ),
        args@.len() == 2 || args@.len() == 3,
        crate::invoke::value_of(args@[0]) == (Value::String { kind, text: subject }),
        crate::invoke::value_of(args@[1]) matches Value::String { text, .. } && text == pattern,
        args@.len() == 2 ==> idx == Some(1i32),
        args@.len() == 3 ==> crate::invoke::value_of(args@[2]) == Value::Integer(idx),
    ensures
        crate::invoke::value_of(result) matches Value::String { kind: result_kind, text: value } && {
            &&& result_kind == kind
            &&& value is None <==> subject is None || pattern is None || idx is None
            &&& value matches Some(text) ==> {
                &&& crate::pattern::regex_new(pattern->0, usize::BITS) matches Ok(regex)
                &&& match crate::pattern::regex_find(regex, subject->0) {
                    None => text == Seq::<char>::empty(),
                    Some((start, end)) => {
                        &&& idx == Some(0i32) ==> text == decode_utf8(
                            encode_utf8(subject->0).subrange(start as int, end as int),
                        )
                        &&& crate::pattern::regex_captures_len(regex) >= 1 ==> 0 <= idx->0
                            < crate::pattern::regex_captures_len(regex)
                        &&& 0 < idx->0 < crate::pattern::regex_captures_len(regex)
                            ==> match crate::pattern::regex_spans(
                            regex,
                            subject->0,
                        )[idx->0 as int] {
                            None => text == Seq::<char>::empty(),
                            Some((first, last)) => text == decode_utf8(
                                encode_utf8(subject->0).subrange(first as int, last as int),
                            ),
                        }
                    },
                }
            }
        },
{
    let hints = crate::function::regexp_extract_hints();
    assert(crate::invoke::invoked(args@, hints, Ok(result)));
    let columns = choose|columns: Seq<Column>|
        crate::invoke::gives(args@, hints, columns, result);
    crate::invoke::lemma_array_rows(args@);
    assert(crate::invoke::stands_for(columns[0], args@[0], 1));
    lemma_row(args@, columns, 0, subject, pattern, idx);
}

/// A call on arrays does what the call on the columns does: it gives the same strings as an array of the
/// same type, or it fails for the same reason. The engine is told of that by the text that describes it,
/// except that a column of indexes is refused by the very error that was found.
pub proof fn law_invocation_on_arrays_is_the_call_on_columns(
    function: SparkRegexpExtract,
    args: &[ColumnarValue],
    columns: &[Column],
    r: Result<ColumnarValue, DataFusionError>,
    kernel: Result<Column, RegexpExtractError>,
)
    requires
        call_ensures(SparkRegexpExtract::invoke_with_args, (&function, args), r) || call_ensures(
            SparkRegexpExtract::try_invoke_with_args,
            (&function, args),
            Some(r),
        ),
        call_ensures(spark_regexp_extract, (columns,), kernel),
        args@.len() == columns@.len(),
        args@.len() > 0,
        forall|i: int|
            0 <= i < args@.len() ==> crate::invoke::value_of(#[trigger] args@[i]) == Value::Array(
                columns@[i],
            ),
    ensures
        match (r, kernel) {
            (Ok(result), Ok(column)) => crate::invoke::value_of(result) matches Value::Array(array)
                && {
                &&& crate::column::column_kind(array) == crate::column::column_kind(column)
                &&& crate::column::column_rows(array) == crate::column::column_rows(column)
                &&& crate::column::column_strings(array) == crate::column::column_strings(column)
            },
            (Err(error), Err(reason)) => match reason {
                RegexpExtractError::IndexType { cause, .. } => crate::error::cast_error_text(error)
                    == crate::error::cast_error_text(cause),
                _ => forall|message: String| #[trigger]
                    call_ensures(RegexpExtractError::message, (&reason,), message)
                        ==> crate::error::execution_message(error) == Some(message@),
            },
            _ => false,
        },
{
    let hints = crate::function::regexp_extract_hints();
    assert forall|others: Seq<Column>| #[trigger]
        crate::invoke::columns_for(args@, hints, others) implies others == columns@ by {
        assert(others =~= columns@) by {
            assert forall|i: int| 0 <= i < others.len() implies others[i] == columns@[i] by {
                assert(crate::invoke::stands_for(
                    others[i],
                    args@[i],
                    crate::invoke::expansion_rows(args@, hints, i),
                ));
            }
        }
    }
    assert(crate::invoke::never_refused(args@)) by {
        assert forall|i: int| 0 <= i < args@.len() implies crate::invoke::value_of(
            #[trigger] args@[i],
        ) != Value::Other(OtherScalar::Decimal) by {}
    }
    crate::invoke::lemma_array_rows(args@);
    assert(crate::invoke::value_of(args@[0]) is Array);
    crate::laws::law_each_row_by_itself(columns@);
    lemma_never_about_the_return_type(columns@);
}

/// No call on columns fails because the return type was asked for.
proof fn lemma_never_about_the_return_type(columns: Seq<Column>)
    ensures
        crate::extract::outcome(columns) != Err::<Seq<Option<Seq<char>>>, Fault>(
            Fault::ReturnTypeCalled,
        ),
{
    let rows = crate::extract::row_outcomes(columns);
    crate::laws::law_first_failure_decides(rows);
    assert forall|row: int| 0 <= row < rows.len() implies #[trigger] rows[row] != Err::<
        Option<Seq<char>>,
        Fault,
    >(Fault::ReturnTypeCalled) by {
        assert(rows[row] == crate::extract::row_outcome(columns, row));
    }
}

/// A call on another number of values than two or three fails, and says how many there were, unless one
/// of them is a decimal, which may be refused first.
pub proof fn law_invocation_counts_its_arguments(
    function: SparkRegexpExtract,
    args: &[ColumnarValue],
    r: Result<ColumnarValue, DataFusionError>,
)
    requires
        call_ensures(SparkRegexpExtract::invoke_with_args, (&function, args), r) || call_ensures(
            SparkRegexpExtract::try_invoke_with_args,
            (&function, args),
            Some(r),
        ),
        args@.len() != 2 && args@.len() != 3,
    ensures
        r matches Err(error) && ((forall|i: int|
            0 <= i < args@.len() ==> crate::invoke::value_of(#[trigger] args@[i]) != Value::Other(
                OtherScalar::Decimal,
            )) ==> crate::error::execution_message(error) == Some(
            "regexp_extract requires two or three arguments, got "@ + crate::text::decimal(
                args@.len() as int,
            ),
        )),
{
}

/// A call on scalars fails for one of two reasons, and says so: the pattern does not compile, or it
/// matches and has no group with that index.
pub proof fn law_invocation_on_scalars_names_its_reason(
    function: SparkRegexpExtract,
    args: &[ColumnarValue],
    error: DataFusionError,
    subject: Option<Seq<char>>,
    pattern: Option<Seq<char>>,
    idx: Option<i32>,
)
    requires
        call_ensures(SparkRegexpExtract::invoke_with_args, (&function, args), Err(error))
            || call_ensures(
            SparkRegexpExtract::try_invoke_with_args,
            (&function, args),
            Some(Err(error)),
        ),
        args@.len() == 2 || args@.len() == 3,
        crate::invoke::value_of(args@[0]) matches Value::String { text, .. } && text == subject,
        crate::invoke::value_of(args@[1]) matches Value::String { text, .. } && text == pattern,
        args@.len() == 2 ==> idx == Some(1i32),
        args@.len() == 3 ==> crate::invoke::value_of(args@[2]) == Value::Integer(idx),
    ensures
        subject is Some && pattern is Some && idx is Some,
        match crate::pattern::regex_new(pattern->0, usize::BITS) {
            Err(cause) => crate::error::execution_message(error) == Some(
                "Invalid regexp pattern for regexp_extract: "@ + crate::text::str_debug(pattern->0)
                    + ": "@ + crate::pattern::regex_error_text(cause),
            ),
            Ok(regex) => crate::pattern::regex_captures_len(regex) >= 1 ==> {
                &&& crate::pattern::regex_find(regex, subject->0) is Some
                &&& idx->0 < 0 || idx->0 >= crate::pattern::regex_captures_len(regex)
                &&& crate::error::execution_message(error) == Some(
                    "Invalid regexp group index "@ + crate::text::decimal(idx->0 as int)
                        + " for regexp_extract: pattern has "@ + crate::text::decimal(
                        crate::pattern::regex_captures_len(regex) - 1,
                    ) + " capturing groups"@,
                )
            },
        },
{
    let hints = crate::function::regexp_extract_hints();
    assert(crate::invoke::invoked(args@, hints, Err(error)));
    assert(crate::invoke::never_refused(args@));
    let columns = choose|columns: Seq<Column>| crate::invoke::fails(args@, hints, columns, error);
    crate::invoke::lemma_array_rows(args@);
    assert(crate::invoke::stands_for(columns[0], args@[0], 1));
    assert(crate::invoke::stands_for(columns[1], args@[1], 1));
    assert(args@.len() == 3 ==> crate::invoke::stands_for(columns[2], args@[2], 1));
    let rows = crate::extract::row_outcomes(columns);
    crate::laws::law_first_failure_decides(rows);
    assert(rows.len() == 1);
    assert(rows[0] == crate::extract::row_outcome(columns, 0));
    assert(crate::extract::row_outcome(columns, 0) == crate::extract::cell_outcome(
        Ok(subject),
        Ok(pattern),
        idx,
    ));
}

/// A subject of a type without strings is refused with its type, be it a 32-bit integer or any scalar
/// that can be repeated. An index that is such a scalar and no 32-bit integer makes a call fail too.
pub proof fn law_invocation_refuses_types(
    function: SparkRegexpExtract,
    args: &[ColumnarValue],
    r: Result<ColumnarValue, DataFusionError>,
)
    requires
        call_ensures(SparkRegexpExtract::invoke_with_args, (&function, args), r) || call_ensures(
            SparkRegexpExtract::try_invoke_with_args,
            (&function, args),
            Some(r),
        ),
        args@.len() == 2 || args@.len() == 3,
    ensures
        crate::invoke::value_of(args@[0]) is Integer || crate::invoke::value_of(args@[0]) is Other
            ==> {
            &&& r matches Err(error)
            &&& (forall|i: int|
                0 <= i < args@.len() ==> crate::invoke::value_of(#[trigger] args@[i])
                    != Value::Other(OtherScalar::Decimal)) ==> crate::error::execution_message(error)
                == Some(
                "regexp_extract does not support subject type "@ + crate::invoke::value_type_text(
                    args@[0],
                ) + "; expected Utf8, LargeUtf8, or Utf8View"@,
            )
        },
        args@.len() == 3 && (crate::invoke::value_of(args@[2]) is String || crate::invoke::value_of(
            args@[2],
        ) is Other) ==> r is Err,
{
    let hints = crate::function::regexp_extract_hints();
    assert(crate::invoke::invoked(args@, hints, r));
    assert forall|columns: Seq<Column>| #[trigger]
        crate::invoke::columns_for(args@, hints, columns) implies {
        &&& crate::invoke::stands_for(
            columns[0],
            args@[0],
            crate::invoke::expansion_rows(args@, hints, 0),
        )
        &&& args@.len() == 3 ==> crate::invoke::stands_for(columns[2], args@[2], 1)
    } by {
        assert(crate::invoke::stands_for(
            columns[0],
            args@[0],
            crate::invoke::expansion_rows(args@, hints, 0),
        ));
        assert(args@.len() == 3 ==> crate::invoke::stands_for(columns[2], args@[2], 1));
    }
}

/// A call on the usual values can be made, and is not refused. `rows` are the rows of the last array, or one
/// if there is none. A subject that is an array has as many, and one that is a scalar can be written as
/// often. A pattern or an index is a scalar, or an array with a single row or one for each.
pub proof fn law_usual_values_can_be_passed(
    function: SparkRegexpExtract,
    args: &[ColumnarValue],
    last: int,
    rows: nat,
)
    requires
        args@.len() == 2 || args@.len() == 3,
        -1 <= last < args@.len(),
        forall|i: int|
            last < i < args@.len() ==> crate::invoke::value_of(#[trigger] args@[i]) !is Array,
        last == -1 ==> rows == 1,
        last >= 0 ==> (crate::invoke::value_of(args@[last]) matches Value::Array(column)
            && crate::column::column_rows(column) == rows),
        rows <= u32::MAX,
        16 * (rows + 1) + 128 <= isize::MAX,
        match crate::invoke::value_of(args@[0]) {
            Value::Array(subjects) => {
                &&& crate::column::column_rows(subjects) == rows
                &&& crate::column::column_strings(subjects).len() == rows
                &&& forall|row: int|
                    0 <= row < rows ==> (#[trigger] crate::column::column_strings(
                        subjects,
                    )[row] matches Some(text) ==> encode_utf8(text).len() < u32::MAX)
            },
            Value::String { kind, text } => {
                let length = match text {
                    Some(text) => encode_utf8(text).len(),
                    None => 0,
                };
                match kind {
                    ColumnKind::Utf8 => length * rows <= i32::MAX,
                    ColumnKind::LargeUtf8 => length * rows + 128 <= isize::MAX,
                    ColumnKind::Utf8View => length < u32::MAX,
                    _ => false,
                }
            },
            _ => false,
        },
        match crate::invoke::value_of(args@[1]) {
            Value::Array(patterns) => crate::column::column_rows(patterns) == 1
                || crate::column::column_rows(patterns) == rows,
            Value::String { kind, text } => {
                &&& kind is Utf8 || kind is LargeUtf8 || kind is Utf8View
                &&& text matches Some(text) ==> encode_utf8(text).len() + 128 <= i32::MAX
            },
            _ => false,
        },
        args@.len() == 3 ==> match crate::invoke::value_of(args@[2]) {
            Value::Array(indexes) => crate::column::column_rows(indexes) == 1
                || crate::column::column_rows(indexes) == rows,
            Value::Integer(_) => true,
            _ => false,
        },
    ensures
        call_requires(SparkRegexpExtract::invoke_with_args, (&function, args)),
        forall|r: Option<Result<ColumnarValue, DataFusionError>>| #[trigger]
            call_ensures(SparkRegexpExtract::try_invoke_with_args, (&function, args), r)
                ==> r is Some,
{
    let hints = crate::function::regexp_extract_hints();
    if last >= 0 {
        lemma_last_array(args@, last, crate::invoke::value_of(args@[last])->Array_0);
    } else {
        crate::invoke::lemma_array_rows(args@);
    }
    assert(crate::invoke::expansion_rows(args@, hints, 0) == rows);
    assert forall|i: int| 0 <= i < args@.len() implies crate::invoke::fits_array(
        #[trigger] args@[i],
        crate::invoke::expansion_rows(args@, hints, i),
    ) by {
        assert(i > 0 ==> crate::invoke::expansion_rows(args@, hints, i) == 1);
    }
    assert forall|columns: Seq<Column>| #[trigger]
        crate::invoke::columns_for(args@, hints, columns) implies crate::extract::workable(
        columns,
    ) by {
        assert(crate::invoke::stands_for(columns[0], args@[0], rows));
        assert(crate::invoke::stands_for(columns[1], args@[1], 1));
        assert(args@.len() == 3 ==> crate::invoke::stands_for(columns[2], args@[2], 1));
        if crate::column::column_kind(columns[0]) is Utf8View {
            let subjects = crate::column::column_strings(columns[0]);
            crate::call_laws::lemma_long_values(subjects);
            assert(Seq::<Option<Seq<char>>>::empty() + subjects =~= subjects);
            assert(crate::builder::views_fit(subjects));
        }
    }
    assert(crate::invoke::invocable(args@));
}

} // verus!
