//! The function on the values that a query engine hands over: arrays, and scalars that stand for them.

use crate::column::{Column, ColumnKind};
use crate::error::Fault;
use crate::extract::{check_workable, spark_regexp_extract};
use crate::function::{ArgumentHint, SparkRegexpExtract};
use arrow::array::ArrayRef;
use datafusion_common::{DataFusionError, ScalarValue};
use datafusion_expr::function::Hint;
use datafusion_expr::ColumnarValue;
use datafusion_functions::utils::make_scalar_function;
use std::sync::Arc;
use vstd::prelude::*;

verus! {

// ---------------------------------------------------------------------------------------------
// Values
// ---------------------------------------------------------------------------------------------
/// Declares `datafusion_expr::ColumnarValue`, which is read through `read_value`.
#[verifier::external_type_specification]
#[verifier::external_body]
pub struct ExColumnarValue(ColumnarValue);

/// What a value of the query engine is.
pub enum Value {
    /// A column.
    Array(Column),
    /// A scalar that is a string, of one of the types that a column of strings can have.
    String { kind: ColumnKind, text: Option<Seq<char>> },
    /// A scalar that is a 32-bit integer.
    Integer(Option<i32>),
    /// Any other scalar.
    Other(OtherScalar),
}

/// What a scalar is that is neither a string nor a 32-bit integer.
pub enum OtherScalar {
    /// A boolean, a number but no decimal, a time or a date, or of the type of nulls.
    Plain,
    /// A decimal.
    Decimal,
    /// Binary data of `length` bytes, laid out like the strings of a column of kind `like`.
    Bytes { like: ColumnKind, length: nat },
    /// Anything else: binary data of a fixed size, a list, a structure, a map, a union, a dictionary or
    /// an encoded run.
    Composite,
}

/// What a value of the query engine is.
pub uninterp spec fn value_of(value: ColumnarValue) -> Value;

/// What `{:?}` writes for the type of a value.
pub uninterp spec fn value_type_text(value: ColumnarValue) -> Seq<char>;

/// A column, a string or a 32-bit integer, read from a value of the query engine.
enum Argument {
    Array(Column),
    String { kind: ColumnKind, text: Option<String> },
    Integer(Option<i32>),
}

impl View for Argument {
    type V = Value;

    closed spec fn view(&self) -> Value {
        match *self {
            Argument::Array(column) => Value::Array(column),
            Argument::String { kind, text } => Value::String {
                kind,
                text: match text {
                    Some(text) => Some(text@),
                    None => None,
                },
            },
            Argument::Integer(integer) => Value::Integer(integer),
        }
    }
}

/// Another scalar, read from a value of the query engine.
enum OtherArgument {
    Plain,
    Decimal,
    Bytes { like: ColumnKind, bytes: Option<Vec<u8>> },
    Rest { primitive: bool },
}

impl View for OtherArgument {
    type V = OtherScalar;

    closed spec fn view(&self) -> OtherScalar {
        match *self {
            OtherArgument::Plain => OtherScalar::Plain,
            OtherArgument::Decimal => OtherScalar::Decimal,
            OtherArgument::Bytes { like, bytes } => OtherScalar::Bytes {
                like,
                length: match bytes {
                    Some(bytes) => bytes@.len(),
                    None => 0,
                },
            },
            OtherArgument::Rest { primitive: true } => OtherScalar::Plain,
            OtherArgument::Rest { primitive: false } => OtherScalar::Composite,
        }
    }
}

/// Tells the variants of `ColumnarValue` and `ScalarValue` apart.
///
/// Trusted: the value is what its variant says.
#[verifier::external_body]
fn read_value(value: &ColumnarValue) -> (r: Option<Argument>)
    ensures
        match r {
            Some(argument) => value_of(*value) == argument@,
            None => value_of(*value) is Other,
        },
{
    let (kind, text) = match value {
        ColumnarValue::Array(array) => {
            return Some(Argument::Array(Column { array: Arc::clone(array) }));
        },
        ColumnarValue::Scalar(ScalarValue::Int32(integer)) => return Some(Argument::Integer(*integer)),
        ColumnarValue::Scalar(ScalarValue::Utf8(text)) => (ColumnKind::Utf8, text),
        ColumnarValue::Scalar(ScalarValue::LargeUtf8(text)) => (ColumnKind::LargeUtf8, text),
        ColumnarValue::Scalar(ScalarValue::Utf8View(text)) => (ColumnKind::Utf8View, text),
        _ => return None,
    };
    Some(Argument::String { kind, text: text.clone() })
}

/// Tells the variants of `ScalarValue` apart, and calls `DataType::is_primitive` on the type of the
/// scalars that are not told apart otherwise.
///
/// Trusted: the scalar is what its variant says, and the primitive types are those of numbers, times
/// and dates.
#[verifier::external_body]
fn read_other(value: &ColumnarValue) -> (r: OtherArgument)
    requires
        value_of(*value) is Other,
    ensures
        value_of(*value) == Value::Other(r@),
{
    let (like, bytes) = match value {
        ColumnarValue::Scalar(ScalarValue::Binary(bytes)) => (ColumnKind::Utf8, bytes),
        ColumnarValue::Scalar(ScalarValue::LargeBinary(bytes)) => (ColumnKind::LargeUtf8, bytes),
        ColumnarValue::Scalar(ScalarValue::BinaryView(bytes)) => (ColumnKind::Utf8View, bytes),
        ColumnarValue::Scalar(ScalarValue::Null | ScalarValue::Boolean(_)) => return OtherArgument::Plain,
        ColumnarValue::Scalar(
            ScalarValue::Decimal32(..) | ScalarValue::Decimal64(..)
            | ScalarValue::Decimal128(..) | ScalarValue::Decimal256(..),
        ) => return OtherArgument::Decimal,
        other => return OtherArgument::Rest { primitive: other.data_type().is_primitive() },
    };
    OtherArgument::Bytes { like, bytes: bytes.clone() }
}

// ---------------------------------------------------------------------------------------------
// From values to columns
// ---------------------------------------------------------------------------------------------
/// The number of rows of the last value that is an array.
pub open spec fn array_rows(values: Seq<ColumnarValue>) -> Option<nat>
    decreases values.len(),
{
    if values.len() == 0 {
        None
    } else {
        match value_of(values.last()) {
            Value::Array(column) => Some(crate::column::column_rows(column)),
            _ => array_rows(values.drop_last()),
        }
    }
}

/// How often a scalar is repeated: once where a single row is accepted, and else for each row of the
/// last array, or once if there is none.
pub open spec fn expansion_rows(
    values: Seq<ColumnarValue>,
    hints: Seq<ArgumentHint>,
    position: int,
) -> nat {
    if position < hints.len() && hints[position] is AcceptsSingular {
        1
    } else {
        match array_rows(values) {
            Some(rows) => rows,
            None => 1,
        }
    }
}

/// Whether `column` is what a value stands for where a scalar is repeated `rows` times.
pub open spec fn stands_for(column: Column, value: ColumnarValue, rows: nat) -> bool {
    match value_of(value) {
        Value::Array(array) => column == array,
        scalar => {
            &&& crate::column::column_rows(column) == rows
            &&& crate::column::column_type_text(column) == value_type_text(value)
            &&& match scalar {
                Value::String { kind, text } => {
                    &&& crate::column::column_kind(column) == kind
                    &&& kind.is_string()
                    &&& crate::column::column_strings(column) == Seq::new(rows, |row: int| text)
                },
                Value::Integer(integer) => {
                    &&& crate::column::column_kind(column) is Int32
                    &&& crate::column::column_integers(column) == Seq::new(
                        rows,
                        |row: int| integer,
                    )
                },
                _ => crate::column::column_kind(column) is Other,
            }
        },
    }
}

/// Whether `rows` values of `length` bytes each can be laid out like the strings of a column: the bytes
/// fit their offsets or their block, and all fits in memory, with room for `arrow` to align it.
pub open spec fn layout_fits(kind: ColumnKind, length: nat, rows: nat) -> bool {
    match kind {
        ColumnKind::Utf8 => length * rows <= i32::MAX && 4 * (rows + 1) + 128 <= isize::MAX,
        ColumnKind::LargeUtf8 => {
            &&& length * rows + 128 <= isize::MAX
            &&& 8 * (rows + 1) + 128 <= isize::MAX
        },
        ColumnKind::Utf8View => length < u32::MAX && 16 * (rows + 1) + 128 <= isize::MAX,
        _ => false,
    }
}

/// Whether a scalar can be repeated `rows` times.
///
/// Scalars of composite types are left out: some of them cannot be repeated without a panic, such as
/// lists that are too long together or a dictionary with keys that are no integers.
pub open spec fn fits_array(value: ColumnarValue, rows: nat) -> bool {
    match value_of(value) {
        Value::Array(_) => true,
        Value::String { kind, text } => layout_fits(kind, crate::column::value_bytes(text), rows),
        Value::Integer(_) => 4 * (rows + 1) + 128 <= isize::MAX,
        Value::Other(OtherScalar::Plain) => 32 * (rows + 1) + 128 <= isize::MAX,
        Value::Other(OtherScalar::Decimal) => 32 * (rows + 1) + 128 <= isize::MAX,
        Value::Other(OtherScalar::Bytes { like, length }) => layout_fits(like, length, rows),
        Value::Other(OtherScalar::Composite) => false,
    }
}

/// Whether `columns` are what the values stand for.
pub open spec fn columns_for(
    values: Seq<ColumnarValue>,
    hints: Seq<ArgumentHint>,
    columns: Seq<Column>,
) -> bool {
    &&& columns.len() == values.len()
    &&& forall|i: int|
        0 <= i < values.len() ==> stands_for(
            #[trigger] columns[i],
            values[i],
            expansion_rows(values, hints, i),
        )
}

/// Whether each scalar can be repeated as often as it is.
pub open spec fn expandable(values: Seq<ColumnarValue>, hints: Seq<ArgumentHint>) -> bool {
    forall|i: int|
        0 <= i < values.len() ==> fits_array(
            #[trigger] values[i],
            expansion_rows(values, hints, i),
        )
}

/// Whether no scalar may be refused, which a decimal may be for its precision.
pub open spec fn never_refused(values: Seq<ColumnarValue>) -> bool {
    forall|i: int|
        0 <= i < values.len() ==> value_of(#[trigger] values[i]) != Value::Other(
            OtherScalar::Decimal,
        )
}

/// Whether the columns that the values stand for can be read and written, if there are two or three.
pub open spec fn values_workable(values: Seq<ColumnarValue>, hints: Seq<ArgumentHint>) -> bool {
    values.len() == 2 || values.len() == 3 ==> forall|columns: Seq<Column>| #[trigger]
        columns_for(values, hints, columns) ==> crate::extract::workable(columns)
}

// ---------------------------------------------------------------------------------------------
// What comes out
// ---------------------------------------------------------------------------------------------
/// Whether a value holds these strings: as a column, or as a scalar if no argument is a column.
pub open spec fn holds(
    value: ColumnarValue,
    scalar: bool,
    kind: ColumnKind,
    strings: Seq<Option<Seq<char>>>,
) -> bool {
    if scalar {
        &&& strings.len() == 1
        &&& value_of(value) == (Value::String { kind, text: strings[0] })
    } else {
        &&& value_of(value) matches Value::Array(column)
        &&& crate::column::column_kind(column) == kind
        &&& crate::column::column_strings(column) == strings
        &&& crate::column::column_rows(column) == strings.len()
    }
}

/// Whether `result` holds what `regexp_extract` makes of the columns that the values stand for.
pub open spec fn gives(
    values: Seq<ColumnarValue>,
    hints: Seq<ArgumentHint>,
    columns: Seq<Column>,
    result: ColumnarValue,
) -> bool {
    &&& columns_for(values, hints, columns)
    &&& crate::extract::outcome(columns) matches Ok(strings)
    &&& holds(result, array_rows(values) is None, crate::column::column_kind(columns[0]), strings)
    &&& crate::extract::pieces(strings, crate::column::column_strings(columns[0]))
}

/// Whether `error` reports why `regexp_extract` fails on the columns that the values stand for.
pub open spec fn fails(
    values: Seq<ColumnarValue>,
    hints: Seq<ArgumentHint>,
    columns: Seq<Column>,
    error: DataFusionError,
) -> bool {
    &&& columns_for(values, hints, columns)
    &&& crate::extract::outcome(columns) matches Err(fault)
    &&& fault.reported_by(error)
}

/// What a call on values comes to: the result on the columns that they stand for, or the report of
/// the failure there. Where a scalar may be refused, the error may be that of the refusal.
pub open spec fn invoked(
    values: Seq<ColumnarValue>,
    hints: Seq<ArgumentHint>,
    r: Result<ColumnarValue, DataFusionError>,
) -> bool {
    match r {
        Ok(result) => exists|columns: Seq<Column>| gives(values, hints, columns, result),
        Err(error) => never_refused(values) ==> exists|columns: Seq<Column>|
            fails(values, hints, columns, error),
    }
}

/// Extracts from columns, and reports a failure the way the query engine does.
fn extract_columns(columns: &[Column]) -> (r: Result<Column, DataFusionError>)
    requires
        columns.len() == 2 || columns.len() == 3 ==> crate::extract::workable(columns@),
    ensures
        match r {
            Ok(column) => {
                &&& crate::extract::outcome(columns@) == Ok::<Seq<Option<Seq<char>>>, Fault>(
                    crate::column::column_strings(column),
                )
                &&& crate::column::column_kind(column) == crate::column::column_kind(columns@[0])
                &&& crate::column::column_kind(column).is_string()
                &&& crate::column::column_rows(column) == crate::column::column_rows(columns@[0])
                &&& crate::column::column_rows(column) == crate::column::column_strings(column).len()
                &&& crate::extract::pieces(
                    crate::column::column_strings(column),
                    crate::column::column_strings(columns@[0]),
                )
            },
            Err(error) => crate::extract::outcome(columns@) matches Err(fault) && fault.reported_by(
                error,
            ),
        },
{
    match spark_regexp_extract(columns) {
        Ok(column) => {
            proof {
                crate::laws::law_each_row_by_itself(columns@);
            }
            Ok(column)
        },
        Err(error) => Err(error.into_engine_error()),
    }
}

/// Whether a value is the column, or its first row as a scalar.
pub open spec fn value_is(value: ColumnarValue, scalar: bool, column: Column) -> bool {
    value_of(value) == if scalar {
        Value::String {
            kind: crate::column::column_kind(column),
            text: crate::column::column_strings(column)[0],
        }
    } else {
        Value::Array(column)
    }
}

/// Whether `r` comes from what [`extract_columns`] returns for the columns that the values stand for, or
/// from a scalar that may be refused.
spec fn applied(
    values: Seq<ColumnarValue>,
    hints: Seq<ArgumentHint>,
    r: Result<ColumnarValue, DataFusionError>,
) -> bool {
    match r {
        Ok(result) => exists|columns: &[Column], column: Column|
            {
                &&& columns_for(values, hints, columns@)
                &&& #[trigger] call_ensures(extract_columns, (columns,), Ok(column))
                &&& value_is(result, array_rows(values) is None, column)
            },
        Err(error) => never_refused(values) ==> exists|columns: &[Column]|
            {
                &&& columns_for(values, hints, columns@)
                &&& #[trigger] call_ensures(extract_columns, (columns,), Err(error))
            },
    }
}

/// What [`extract_columns`] returns is what `regexp_extract` makes of the columns.
proof fn lemma_applied(
    values: Seq<ColumnarValue>,
    hints: Seq<ArgumentHint>,
    r: Result<ColumnarValue, DataFusionError>,
)
    requires
        hints == crate::function::regexp_extract_hints(),
        applied(values, hints, r),
    ensures
        invoked(values, hints, r),
{
    match r {
        Ok(result) => {
            let (columns, column) = choose|columns: &[Column], column: Column|
                {
                    &&& columns_for(values, hints, columns@)
                    &&& #[trigger] call_ensures(extract_columns, (columns,), Ok(column))
                    &&& value_is(result, array_rows(values) is None, column)
                };
            assert(stands_for(columns@[0], values[0], expansion_rows(values, hints, 0)));
            lemma_array_rows(values);
            assert(gives(values, hints, columns@, result));
        },
        Err(error) => {
            if never_refused(values) {
                let columns = choose|columns: &[Column]|
                    {
                        &&& columns_for(values, hints, columns@)
                        &&& #[trigger] call_ensures(extract_columns, (columns,), Err(error))
                    };
                assert(fails(values, hints, columns@, error));
            }
        },
    }
}

/// There is an array among values exactly where the rows of one are counted.
pub(crate) proof fn lemma_array_rows(values: Seq<ColumnarValue>)
    ensures
        array_rows(values) is Some <==> exists|i: int|
            0 <= i < values.len() && value_of(#[trigger] values[i]) is Array,
    decreases values.len(),
{
    if values.len() > 0 {
        let front = values.drop_last();
        lemma_array_rows(front);
        assert(values[values.len() - 1] == values.last());
        assert(forall|i: int| 0 <= i < front.len() ==> #[trigger] front[i] == values[i]);
        if let Some(_) = array_rows(front) {
            let i = choose|i: int|
                0 <= i < front.len() && value_of(#[trigger] front[i]) is Array;
            assert(value_of(values[i]) is Array);
        }
        if value_of(values.last()) !is Array && (exists|i: int|
            0 <= i < values.len() && value_of(#[trigger] values[i]) is Array) {
            let i = choose|i: int|
                0 <= i < values.len() && value_of(#[trigger] values[i]) is Array;
            assert(value_of(front[i]) is Array);
        }
    }
}

/// Calls `datafusion_functions::utils::make_scalar_function` with [`extract_columns`], and what it
/// returns on `values`. It hands the function an array for each value, with the scalars repeated by
/// `ColumnarValue::to_array`, which panics where they are too large for an array and refuses a decimal
/// whose precision is not valid. Where no value is an array, it makes a scalar of the first row, by
/// `ScalarValue::try_from_array`, which panics where there is none.
///
/// Trusted: the arrays are those that the values stand for, and the result is that of the function on
/// them. Which error a refused scalar gives is not stated.
#[verifier::external_body]
fn apply(values: &[ColumnarValue], hints: Vec<ArgumentHint>) -> (r: Result<
    ColumnarValue,
    DataFusionError,
>)
    requires
        expandable(values@, hints@),
        forall|columns: &[Column]| #[trigger]
            columns_for(values@, hints@, columns@) ==> call_requires(extract_columns, (columns,)),
        forall|columns: &[Column], column: Column|
            columns_for(values@, hints@, columns@) && array_rows(values@) is None
                && #[trigger] call_ensures(extract_columns, (columns,), Ok(column)) ==> {
                &&& crate::column::column_kind(column).is_string()
                &&& crate::column::column_rows(column) > 0
            },
    ensures
        applied(values@, hints@, r),
{
    let hints = hints.into_iter().map(|hint| match hint {
        ArgumentHint::Pad => Hint::Pad,
        ArgumentHint::AcceptsSingular => Hint::AcceptsSingular,
    });
    let inner = |arrays: &[ArrayRef]| {
        let columns = arrays.iter().map(|array| Column { array: Arc::clone(array) });
        let column = extract_columns(&columns.collect::<Vec<Column>>())?;
        Ok(column.array)
    };
    make_scalar_function(inner, hints.collect())(values)
}

/// Whether a call on values can be made: each scalar can be repeated, and the columns that the values
/// stand for can be read and written.
pub open spec fn invocable(values: Seq<ColumnarValue>) -> bool {
    &&& expandable(values, crate::function::regexp_extract_hints())
    &&& values_workable(values, crate::function::regexp_extract_hints())
}

impl SparkRegexpExtract {
    /// Extracts from the values of a batch of rows. The result is an array, or a scalar if all
    /// arguments are.
    pub fn invoke_with_args(&self, args: &[ColumnarValue]) -> (r: Result<
        ColumnarValue,
        DataFusionError,
    >)
        requires
            invocable(args@),
        ensures
            invoked(args@, crate::function::regexp_extract_hints(), r),
    {
        let hints = self.argument_hints();
        let ghost names = hints@;
        proof {
            assert forall|columns: &[Column], column: Column|
                columns_for(args@, names, columns@) && array_rows(args@) is None
                    && #[trigger] call_ensures(
                    extract_columns,
                    (columns,),
                    Ok(column),
                ) implies crate::column::column_kind(column).is_string()
                && crate::column::column_rows(column) > 0 by {
                lemma_array_rows(args@);
                assert(stands_for(columns@[0], args@[0], 1));
            }
        }
        let r = apply(args, hints);
        proof {
            lemma_applied(args@, names, r);
        }
        r
    }

    /// Extracts like [`SparkRegexpExtract::invoke_with_args`], after a look at the values: `None` where
    /// that call cannot be made.
    pub fn try_invoke_with_args(&self, args: &[ColumnarValue]) -> (r: Option<
        Result<ColumnarValue, DataFusionError>,
    >)
        ensures
            r is None <==> !invocable(args@),
            r matches Some(r) ==> invoked(args@, crate::function::regexp_extract_hints(), r),
    {
        if check_invocable(args, &self.argument_hints()) {
            Some(self.invoke_with_args(args))
        } else {
            None
        }
    }
}

// ---------------------------------------------------------------------------------------------
// A look at the values
// ---------------------------------------------------------------------------------------------
/// Calls `ColumnarValue::to_array`, which panics where a scalar is too large to be repeated.
///
/// Trusted: the column is the one that the value stands for, of the type of the value; only a scalar
/// that may be refused can give an error.
#[verifier::external_body]
fn expand(value: &ColumnarValue, rows: usize) -> (r: Result<Column, DataFusionError>)
    requires
        fits_array(*value, rows as nat),
    ensures
        value_of(*value) != Value::Other(OtherScalar::Decimal) ==> r is Ok,
        r matches Ok(column) ==> {
            &&& stands_for(column, *value, rows as nat)
            &&& crate::column::column_type_text(column) == value_type_text(*value)
        },
{
    Ok(Column { array: value.to_array(rows)? })
}

/// The number of rows of the last value that is an array.
fn last_array_rows(args: &[ColumnarValue]) -> (r: Option<usize>)
    ensures
        match r {
            Some(rows) => array_rows(args@) == Some(rows as nat),
            None => array_rows(args@) is None,
        },
{
    let mut found: Option<usize> = None;
    let mut i: usize = 0;
    while i < args.len()
        invariant
            0 <= i <= args.len(),
            match found {
                Some(rows) => array_rows(args@.take(i as int)) == Some(rows as nat),
                None => array_rows(args@.take(i as int)) is None,
            },
        decreases args.len() - i,
    {
        assert(args@.take(i as int + 1).drop_last() =~= args@.take(i as int));
        if let Some(Argument::Array(column)) = read_value(&args[i]) {
            found = Some(column.len());
        }
        i = i + 1;
    }
    assert(args@.take(i as int) =~= args@);
    found
}

/// How often a scalar is repeated.
fn repetitions(
    args: &[ColumnarValue],
    hints: &Vec<ArgumentHint>,
    array_len: Option<usize>,
    position: usize,
) -> (rows: usize)
    requires
        match array_len {
            Some(rows) => array_rows(args@) == Some(rows as nat),
            None => array_rows(args@) is None,
        },
    ensures
        rows == expansion_rows(args@, hints@, position as int),
{
    if position < hints.len() {
        if let ArgumentHint::AcceptsSingular = hints[position] {
            return 1;
        }
    }
    match array_len {
        Some(rows) => rows,
        None => 1,
    }
}

/// Whether `rows` rows of `width` bytes each, and one more, fit in memory.
fn check_memory(rows: usize, width: u8) -> (r: bool)
    ensures
        r == (width * (rows + 1) + 128 <= isize::MAX),
{
    assert(width * (rows + 1) + 128 <= u128::MAX) by (nonlinear_arith)
        requires
            width <= u8::MAX,
            rows <= u64::MAX,
    ;
    width as u128 * (rows as u128 + 1) + 128 <= isize::MAX as u128
}

/// Whether `rows` values of `length` bytes each can be laid out like the strings of a column.
fn check_layout(kind: ColumnKind, length: usize, rows: usize) -> (r: bool)
    ensures
        r == layout_fits(kind, length as nat, rows as nat),
{
    let together = length.checked_mul(rows);
    match kind {
        ColumnKind::Utf8 => check_memory(rows, 4) && match together {
            Some(together) => together <= i32::MAX as usize,
            None => false,
        },
        ColumnKind::LargeUtf8 => check_memory(rows, 8) && match together {
            Some(together) => together <= isize::MAX as usize - 128,
            None => false,
        },
        ColumnKind::Utf8View => check_memory(rows, 16) && length < u32::MAX as usize,
        _ => false,
    }
}

/// Whether a scalar can be repeated `rows` times.
fn check_fits_array(value: &ColumnarValue, rows: usize) -> (r: bool)
    ensures
        r == fits_array(*value, rows as nat),
{
    match read_value(value) {
        Some(Argument::Array(_)) => true,
        Some(Argument::String { kind, text }) => {
            let length = match &text {
                Some(text) => text.as_str().as_bytes().len(),
                None => 0,
            };
            check_layout(kind, length, rows)
        },
        Some(Argument::Integer(_)) => check_memory(rows, 4),
        None => match read_other(value) {
            OtherArgument::Plain | OtherArgument::Decimal => check_memory(rows, 32),
            OtherArgument::Bytes { like, bytes } => {
                let length = match &bytes {
                    Some(bytes) => bytes.len(),
                    None => 0,
                };
                check_layout(like, length, rows)
            },
            OtherArgument::Rest { primitive } => primitive && check_memory(rows, 32),
        },
    }
}

/// Whether a value is a scalar that may be refused.
fn check_refusable(value: &ColumnarValue) -> (r: bool)
    ensures
        r == (value_of(*value) == Value::Other(OtherScalar::Decimal)),
{
    match read_value(value) {
        Some(_) => false,
        None => match read_other(value) {
            OtherArgument::Decimal => true,
            _ => false,
        },
    }
}

/// The columns that values stand for agree.
pub proof fn lemma_columns_agree(
    values: Seq<ColumnarValue>,
    hints: Seq<ArgumentHint>,
    columns: Seq<Column>,
    others: Seq<Column>,
)
    requires
        columns_for(values, hints, columns),
        columns_for(values, hints, others),
    ensures
        columns.len() == others.len(),
        forall|i: int|
            0 <= i < columns.len() ==> crate::extract::agree(#[trigger] columns[i], others[i]),
{
    assert forall|i: int| 0 <= i < columns.len() implies crate::extract::agree(
        #[trigger] columns[i],
        others[i],
    ) by {
        let rows = expansion_rows(values, hints, i);
        assert(stands_for(columns[i], values[i], rows));
        assert(stands_for(others[i], values[i], rows));
    }
}

/// Whether each scalar can be repeated as often as it is, and whether none of them may be refused.
fn check_expandable(
    args: &[ColumnarValue],
    hints: &Vec<ArgumentHint>,
    array_len: Option<usize>,
) -> (r: (bool, bool))
    requires
        match array_len {
            Some(rows) => array_rows(args@) == Some(rows as nat),
            None => array_rows(args@) is None,
        },
    ensures
        r.0 == expandable(args@, hints@),
        r.0 ==> r.1 == never_refused(args@),
{
    let mut never_refused = true;
    let mut i: usize = 0;
    while i < args.len()
        invariant
            match array_len {
                Some(rows) => array_rows(args@) == Some(rows as nat),
                None => array_rows(args@) is None,
            },
            0 <= i <= args.len(),
            forall|j: int|
                0 <= j < i ==> fits_array(
                    #[trigger] args@[j],
                    expansion_rows(args@, hints@, j),
                ),
            never_refused <==> forall|j: int|
                0 <= j < i ==> value_of(#[trigger] args@[j]) != Value::Other(OtherScalar::Decimal),
        decreases args.len() - i,
    {
        if !check_fits_array(&args[i], repetitions(args, hints, array_len, i)) {
            assert(!fits_array(args@[i as int], expansion_rows(args@, hints@, i as int)));
            return (false, false);
        }
        if check_refusable(&args[i]) {
            assert(value_of(args@[i as int]) == Value::Other(OtherScalar::Decimal));
            never_refused = false;
        }
        i = i + 1;
    }
    (true, never_refused)
}

/// The columns that values stand for.
fn expand_all(
    args: &[ColumnarValue],
    hints: &Vec<ArgumentHint>,
    array_len: Option<usize>,
) -> (columns: Vec<Column>)
    requires
        match array_len {
            Some(rows) => array_rows(args@) == Some(rows as nat),
            None => array_rows(args@) is None,
        },
        expandable(args@, hints@),
        never_refused(args@),
    ensures
        columns_for(args@, hints@, columns@),
{
    let mut columns: Vec<Column> = Vec::new();
    let mut i: usize = 0;
    while i < args.len()
        invariant
            match array_len {
                Some(rows) => array_rows(args@) == Some(rows as nat),
                None => array_rows(args@) is None,
            },
            expandable(args@, hints@),
            never_refused(args@),
            0 <= i <= args.len(),
            columns.len() == i,
            forall|j: int|
                0 <= j < i ==> stands_for(
                    #[trigger] columns@[j],
                    args@[j],
                    expansion_rows(args@, hints@, j),
                ),
        decreases args.len() - i,
    {
        assert(value_of(args@[i as int]) != Value::Other(OtherScalar::Decimal));
        match expand(&args[i], repetitions(args, hints, array_len, i)) {
            Ok(column) => columns.push(column),
            Err(_) => vstd::pervasive::unreached(),
        }
        i = i + 1;
    }
    columns
}

/// Whether a call on values can be made.
fn check_invocable(args: &[ColumnarValue], hints: &Vec<ArgumentHint>) -> (r: bool)
    ensures
        r == (expandable(args@, hints@) && values_workable(args@, hints@)),
{
    let array_len = last_array_rows(args);
    let (expandable, never_refused) = check_expandable(args, hints, array_len);
    if !expandable {
        return false;
    }
    if args.len() != 2 && args.len() != 3 {
        return true;
    }
    if !never_refused {
        proof {
            let i = choose|i: int|
                0 <= i < args@.len() && value_of(#[trigger] args@[i]) == Value::Other(
                    OtherScalar::Decimal,
                );
            assert forall|columns: Seq<Column>| #[trigger]
                columns_for(args@, hints@, columns) implies crate::extract::workable(columns) by {
                assert(stands_for(columns[i], args@[i], expansion_rows(args@, hints@, i)));
                crate::extract::lemma_other_workable(columns, i);
            }
        }
        return true;
    }
    let columns = expand_all(args, hints, array_len);
    proof {
        assert forall|others: Seq<Column>| #[trigger]
            columns_for(args@, hints@, others) implies crate::extract::workable(others)
            == crate::extract::workable(columns@) by {
            lemma_columns_agree(args@, hints@, columns@, others);
            crate::extract::lemma_agree(columns@, others);
        }
    }
    check_workable(columns.as_slice())
}

} // verus!
