//! Columns of values, held by `arrow` arrays.

use arrow::array::{Array, ArrayRef, AsArray, Int32Array};
use arrow::datatypes::DataType;
use datafusion_common::cast::as_int32_array;
use datafusion_common::DataFusionError;
use vstd::prelude::*;

verus! {

/// A column: an `arrow` array of any type.
///
/// Callers put their array in and take it out; here it is reached through the methods below alone.
#[derive(Debug)]
#[verifier::external_body]
pub struct Column {
    pub array: ArrayRef,
}

/// A column of 32-bit integers.
#[verifier::external_body]
pub struct Int32Column<'a> {
    array: &'a Int32Array,
}

/// The types that a column is told apart by.
#[derive(Clone, Copy, Debug, PartialEq, Eq, Structural)]
pub enum ColumnKind {
    Utf8,
    LargeUtf8,
    Utf8View,
    Int32,
    Other,
}

impl ColumnKind {
    /// Whether a column of this kind holds strings.
    pub open spec fn is_string(self) -> bool {
        self is Utf8 || self is LargeUtf8 || self is Utf8View
    }
}

/// The type of a column.
pub uninterp spec fn column_kind(column: Column) -> ColumnKind;

/// What `{:?}` writes for the type of a column.
pub uninterp spec fn column_type_text(column: Column) -> Seq<char>;

/// The number of rows of a column.
pub uninterp spec fn column_rows(column: Column) -> nat;

/// The values of a column of strings, with `None` for each null.
pub uninterp spec fn column_strings(column: Column) -> Seq<Option<Seq<char>>>;

/// The values of a column of 32-bit integers, with `None` for each null.
pub uninterp spec fn column_integers(column: Column) -> Seq<Option<i32>>;

/// What the refusal to take a column for one of 32-bit integers displays.
pub uninterp spec fn int32_cast_text(column: Column) -> Seq<char>;

/// The values of a column of 32-bit integers, with `None` for each null.
pub uninterp spec fn int32_column_values(column: Int32Column) -> Seq<Option<i32>>;

/// The bytes of a value in UTF-8; a null has none.
pub open spec fn value_bytes(value: Option<Seq<char>>) -> nat {
    match value {
        Some(text) => crate::text::byte_len(text),
        None => 0,
    }
}

/// The bytes of all values together.
pub open spec fn total_bytes(values: Seq<Option<Seq<char>>>) -> nat
    decreases values.len(),
{
    if values.len() == 0 {
        0
    } else {
        total_bytes(values.drop_last()) + value_bytes(values.last())
    }
}

/// What holds of a column because `arrow` can represent it: the offsets into the bytes of its values
/// fit their integer type, and its offsets or views fit in memory.
pub open spec fn representable(column: Column, kind: ColumnKind) -> bool {
    match kind {
        ColumnKind::Utf8 => {
            &&& total_bytes(column_strings(column)) <= i32::MAX
            &&& 4 * (column_rows(column) + 1) <= isize::MAX
        },
        ColumnKind::LargeUtf8 => {
            &&& total_bytes(column_strings(column)) <= i64::MAX
            &&& 8 * (column_rows(column) + 1) <= isize::MAX
        },
        ColumnKind::Utf8View => 16 * column_rows(column) <= isize::MAX,
        _ => true,
    }
}

impl Column {
    /// Calls `Array::data_type`.
    ///
    /// Trusted: the type is a property of the array. A `Utf8` or `LargeUtf8` array delimits its values
    /// by one more offset than it has rows, in ascending order, as `i32` or `i64`; a `Utf8View` array
    /// holds a view of 16 bytes for each row.
    #[verifier::external_body]
    pub(crate) fn data_type(&self) -> (kind: ColumnKind)
        ensures
            kind == column_kind(*self),
            representable(*self, kind),
    {
        match self.array.data_type() {
            DataType::Utf8 => ColumnKind::Utf8,
            DataType::LargeUtf8 => ColumnKind::LargeUtf8,
            DataType::Utf8View => ColumnKind::Utf8View,
            DataType::Int32 => ColumnKind::Int32,
            _ => ColumnKind::Other,
        }
    }

    /// Calls `Array::data_type`, and `<DataType as std::fmt::Debug>::fmt` on what it returns.
    ///
    /// Trusted: the written form is a property of the array.
    #[verifier::external_body]
    pub(crate) fn data_type_text(&self) -> (r: String)
        ensures
            r@ == column_type_text(*self),
    {
        format!("{:?}", self.array.data_type())
    }

    /// Calls `Array::len`.
    ///
    /// Trusted: the number of rows is a property of the array, and each row of an array of strings or
    /// of 32-bit integers holds a value or a null.
    #[verifier::external_body]
    pub(crate) fn len(&self) -> (n: usize)
        ensures
            n == column_rows(*self),
            column_kind(*self).is_string() ==> column_strings(*self).len() == n,
            column_kind(*self) is Int32 ==> column_integers(*self).len() == n,
    {
        self.array.len()
    }

    /// Calls `Array::is_null`, which panics past the last row.
    ///
    /// Trusted: in an array of strings or of 32-bit integers a row is null when it holds no value.
    #[verifier::external_body]
    pub(crate) fn is_null(&self, row: usize) -> (r: bool)
        requires
            row < column_rows(*self),
        ensures
            column_kind(*self).is_string() ==> r == (column_strings(*self)[row as int] is None),
            column_kind(*self) is Int32 ==> r == (column_integers(*self)[row as int] is None),
    {
        self.array.is_null(row)
    }

    /// Calls `AsArray::as_string::<i32>`, which panics on another type, and `StringArray::value`, which
    /// panics past the last row.
    ///
    /// Trusted: the value of a row that is not null.
    #[verifier::external_body]
    pub(crate) fn utf8_value(&self, row: usize) -> (r: &str)
        requires
            column_kind(*self) is Utf8,
            row < column_rows(*self),
            column_strings(*self)[row as int] is Some,
        ensures
            column_strings(*self)[row as int] == Some(r@),
    {
        self.array.as_string::<i32>().value(row)
    }

    /// Calls `AsArray::as_string::<i64>`, which panics on another type, and `LargeStringArray::value`,
    /// which panics past the last row.
    ///
    /// Trusted: the value of a row that is not null.
    #[verifier::external_body]
    pub(crate) fn large_utf8_value(&self, row: usize) -> (r: &str)
        requires
            column_kind(*self) is LargeUtf8,
            row < column_rows(*self),
            column_strings(*self)[row as int] is Some,
        ensures
            column_strings(*self)[row as int] == Some(r@),
    {
        self.array.as_string::<i64>().value(row)
    }

    /// Calls `AsArray::as_string_view`, which panics on another type, and `StringViewArray::value`,
    /// which panics past the last row.
    ///
    /// Trusted: the value of a row that is not null.
    #[verifier::external_body]
    pub(crate) fn utf8_view_value(&self, row: usize) -> (r: &str)
        requires
            column_kind(*self) is Utf8View,
            row < column_rows(*self),
            column_strings(*self)[row as int] is Some,
        ensures
            column_strings(*self)[row as int] == Some(r@),
    {
        self.array.as_string_view().value(row)
    }

    /// Calls `datafusion_common::cast::as_int32_array`, and `to_string` on the error it returns.
    ///
    /// Trusted: it succeeds exactly on an array of 32-bit integers, and hands that array back. The
    /// error is an internal one, and its text names the type of the array and the Rust type asked for:
    /// it goes by the array, and it is what the error handed out displays. The feature `backtrace` of
    /// `datafusion-common`, which would add to the text, is off.
    #[verifier::external_body]
    pub(crate) fn as_int32(&self) -> (r: Result<Int32Column<'_>, (DataFusionError, String)>)
        ensures
            r is Ok <==> column_kind(*self) is Int32,
            r matches Ok(column) ==> int32_column_values(column) == column_integers(*self),
            r matches Err((cause, text)) ==> {
                &&& text@ == int32_cast_text(*self)
                &&& text@ == crate::error::cast_error_text(cause)
            },
    {
        match as_int32_array(&self.array) {
            Ok(array) => Ok(Int32Column { array }),
            Err(cause) => {
                let text = cause.to_string();
                Err((cause, text))
            },
        }
    }
}

impl<'a> Int32Column<'a> {
    /// Calls `Int32Array::value`, which panics past the last row.
    ///
    /// Trusted: the value of a row that is not null.
    #[verifier::external_body]
    pub(crate) fn value(&self, row: usize) -> (r: i32)
        requires
            row < int32_column_values(*self).len(),
            int32_column_values(*self)[row as int] is Some,
        ensures
            int32_column_values(*self)[row as int] == Some(r),
    {
        self.array.value(row)
    }
}

} // verus!
