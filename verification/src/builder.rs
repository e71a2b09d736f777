//! Builders that fill a column of strings row by row.

use crate::column::{Column, ColumnKind};
use arrow::array::{GenericStringBuilder, StringViewBuilder};
use std::sync::Arc;
use vstd::prelude::*;

verus! {

/// The longest value, in bytes, that a view holds by itself.
pub const MAX_INLINE_BYTES: u32 = 12;

/// The bytes that never fill more blocks than 32 bits can number: 8 KiB for each block but the last.
///
/// A block has room for 16 KiB or more. It is closed by a value that it has no room for, so that the
/// block and that value exceed 16 KiB together, and no value counts more than twice.
pub const MAX_BLOCKS_BYTES: u64 = 35184372072448;

/// The number of values that are too long for their views.
pub open spec fn long_values(values: Seq<Option<Seq<char>>>) -> nat
    decreases values.len(),
{
    if values.len() == 0 {
        0
    } else if crate::column::value_bytes(values.last()) > MAX_INLINE_BYTES {
        long_values(values.drop_last()) + 1
    } else {
        long_values(values.drop_last())
    }
}

/// Whether a column of views has room for these values: each of them goes into one block of under
/// 4 GiB, and there are no more blocks than 32 bits can number, because few values need one or because
/// the values are short together.
pub open spec fn views_fit(values: Seq<Option<Seq<char>>>) -> bool {
    &&& forall|i: int|
        0 <= i < values.len() ==> crate::column::value_bytes(#[trigger] values[i]) < u32::MAX
    &&& long_values(values) <= u32::MAX || crate::column::total_bytes(values) <= MAX_BLOCKS_BYTES
}

/// Whether `shorter` starts like `longer`, with no value longer than its counterpart.
pub open spec fn no_longer(
    shorter: Seq<Option<Seq<char>>>,
    longer: Seq<Option<Seq<char>>>,
) -> bool {
    &&& shorter.len() <= longer.len()
    &&& forall|i: int|
        0 <= i < shorter.len() ==> crate::column::value_bytes(#[trigger] shorter[i])
            <= crate::column::value_bytes(longer[i])
}

/// The rows before the last, compared like all of them.
proof fn lemma_no_longer_drop_last(
    shorter: Seq<Option<Seq<char>>>,
    longer: Seq<Option<Seq<char>>>,
)
    requires
        no_longer(shorter, longer),
        longer.len() > 0,
    ensures
        shorter.len() < longer.len() ==> no_longer(shorter, longer.drop_last()),
        shorter.len() == longer.len() ==> no_longer(shorter.drop_last(), longer.drop_last()),
{
    if shorter.len() < longer.len() {
        assert forall|i: int| 0 <= i < shorter.len() implies crate::column::value_bytes(
            #[trigger] shorter[i],
        ) <= crate::column::value_bytes(longer.drop_last()[i]) by {
            assert(longer.drop_last()[i] == longer[i]);
        }
    } else {
        assert forall|i: int| 0 <= i < shorter.len() - 1 implies crate::column::value_bytes(
            #[trigger] shorter.drop_last()[i],
        ) <= crate::column::value_bytes(longer.drop_last()[i]) by {
            assert(shorter.drop_last()[i] == shorter[i]);
            assert(longer.drop_last()[i] == longer[i]);
        }
    }
}

/// Values that are no longer than others are no longer together, nor more often long.
proof fn lemma_no_longer(shorter: Seq<Option<Seq<char>>>, longer: Seq<Option<Seq<char>>>)
    requires
        no_longer(shorter, longer),
    ensures
        crate::column::total_bytes(shorter) <= crate::column::total_bytes(longer),
        long_values(shorter) <= long_values(longer),
    decreases longer.len(),
{
    if longer.len() > 0 {
        lemma_no_longer_drop_last(shorter, longer);
        if shorter.len() < longer.len() {
            lemma_no_longer(shorter, longer.drop_last());
        } else {
            lemma_no_longer(shorter.drop_last(), longer.drop_last());
            assert(crate::column::value_bytes(shorter[shorter.len() - 1])
                <= crate::column::value_bytes(longer[shorter.len() - 1]));
        }
    }
}

/// What is written before counts for both sides alike.
pub(crate) proof fn lemma_no_longer_after(
    written: Seq<Option<Seq<char>>>,
    shorter: Seq<Option<Seq<char>>>,
    longer: Seq<Option<Seq<char>>>,
)
    requires
        no_longer(shorter, longer),
    ensures
        no_longer(written + shorter, written + longer),
{
    assert forall|i: int| 0 <= i < (written + shorter).len() implies crate::column::value_bytes(
        #[trigger] (written + shorter)[i],
    ) <= crate::column::value_bytes((written + longer)[i]) by {
        if i >= written.len() {
            assert((written + shorter)[i] == shorter[i - written.len()]);
            assert((written + longer)[i] == longer[i - written.len()]);
        }
    }
}

/// A builder that a column of strings is written to, one row after the other.
pub trait RegexpExtractBuilder: Sized {
    /// The rows written so far.
    spec fn rows(&self) -> Seq<Option<Seq<char>>>;

    /// The type of the column that comes out.
    spec fn kind() -> ColumnKind;

    /// Whether a column of this type has room for these values.
    spec fn fits(values: Seq<Option<Seq<char>>>) -> bool;

    /// Where there is room for values, there is room for shorter ones.
    proof fn lemma_fits(shorter: Seq<Option<Seq<char>>>, longer: Seq<Option<Seq<char>>>)
        requires
            Self::fits(longer),
            no_longer(shorter, longer),
        ensures
            Self::fits(shorter),
    ;

    /// Writes a row with a value.
    fn append_value(&mut self, value: &str)
        requires
            Self::fits(old(self).rows().push(Some(value@))),
        ensures
            final(self).rows() == old(self).rows().push(Some(value@)),
    ;

    /// Writes a row with a null.
    fn append_null(&mut self)
        ensures
            final(self).rows() == old(self).rows().push(None),
    ;

    /// Hands out the column of the rows written, and starts anew.
    fn finish(&mut self) -> (column: Column)
        requires
            Self::fits(old(self).rows()),
        ensures
            crate::column::column_kind(column) == Self::kind(),
            crate::column::column_strings(column) == old(self).rows(),
            crate::column::column_rows(column) == old(self).rows().len(),
            final(self).rows() == Seq::<Option<Seq<char>>>::empty(),
    ;
}

/// Builds a column of strings delimited by 32-bit offsets.
#[verifier::external_body]
pub struct Utf8Builder {
    builder: GenericStringBuilder<i32>,
}

/// The rows that a `Utf8Builder` was given.
pub uninterp spec fn utf8_builder_rows(builder: Utf8Builder) -> Seq<Option<Seq<char>>>;

impl Utf8Builder {
    /// Calls `GenericStringBuilder::<i32>::with_capacity`, which panics where the room asked for is
    /// more than memory can hold.
    ///
    /// Trusted: the builder starts without rows.
    #[verifier::external_body]
    pub(crate) fn with_capacity(rows: usize, bytes: usize) -> (r: Self)
        requires
            4 * (rows + 1) <= isize::MAX,
            bytes <= isize::MAX,
        ensures
            utf8_builder_rows(r) == Seq::<Option<Seq<char>>>::empty(),
    {
        Utf8Builder { builder: GenericStringBuilder::with_capacity(rows, bytes) }
    }

    /// Calls `GenericStringBuilder::<i32>::append_value`, which panics once the values together exceed
    /// `i32::MAX` bytes.
    ///
    /// Trusted: the value becomes the next row.
    #[verifier::external_body]
    fn push_value(&mut self, value: &str)
        requires
            crate::column::total_bytes(utf8_builder_rows(*old(self)).push(Some(value@))) <= i32::MAX,
        ensures
            utf8_builder_rows(*final(self)) == utf8_builder_rows(*old(self)).push(Some(value@)),
    {
        self.builder.append_value(value)
    }

    /// Calls `GenericStringBuilder::<i32>::append_null`.
    ///
    /// Trusted: a null becomes the next row.
    #[verifier::external_body]
    fn push_null(&mut self)
        ensures
            utf8_builder_rows(*final(self)) == utf8_builder_rows(*old(self)).push(None),
    {
        self.builder.append_null()
    }

    /// Calls `GenericStringBuilder::<i32>::finish`.
    ///
    /// Trusted: the array is of type `Utf8` and holds the rows written; the builder is empty
    /// again.
    #[verifier::external_body]
    fn take_column(&mut self) -> (column: Column)
        ensures
            crate::column::column_kind(column) == ColumnKind::Utf8,
            crate::column::column_strings(column) == utf8_builder_rows(*old(self)),
            crate::column::column_rows(column) == utf8_builder_rows(*old(self)).len(),
            utf8_builder_rows(*final(self)) == Seq::<Option<Seq<char>>>::empty(),
    {
        Column { array: Arc::new(self.builder.finish()) }
    }
}

impl RegexpExtractBuilder for Utf8Builder {
    open spec fn rows(&self) -> Seq<Option<Seq<char>>> {
        utf8_builder_rows(*self)
    }

    open spec fn kind() -> ColumnKind {
        ColumnKind::Utf8
    }

    open spec fn fits(values: Seq<Option<Seq<char>>>) -> bool {
        crate::column::total_bytes(values) <= i32::MAX
    }

    proof fn lemma_fits(shorter: Seq<Option<Seq<char>>>, longer: Seq<Option<Seq<char>>>) {
        lemma_no_longer(shorter, longer);
    }

    fn append_value(&mut self, value: &str) {
        self.push_value(value)
    }

    fn append_null(&mut self) {
        self.push_null()
    }

    fn finish(&mut self) -> (column: Column) {
        self.take_column()
    }
}

/// Builds a column of strings delimited by 64-bit offsets.
#[verifier::external_body]
pub struct LargeUtf8Builder {
    builder: GenericStringBuilder<i64>,
}

/// The rows that a `LargeUtf8Builder` was given.
pub uninterp spec fn large_utf8_builder_rows(builder: LargeUtf8Builder) -> Seq<Option<Seq<char>>>;

impl LargeUtf8Builder {
    /// Calls `GenericStringBuilder::<i64>::with_capacity`, which panics where the room asked for is
    /// more than memory can hold.
    ///
    /// Trusted: the builder starts without rows.
    #[verifier::external_body]
    pub(crate) fn with_capacity(rows: usize, bytes: usize) -> (r: Self)
        requires
            8 * (rows + 1) <= isize::MAX,
            bytes <= isize::MAX,
        ensures
            large_utf8_builder_rows(r) == Seq::<Option<Seq<char>>>::empty(),
    {
        LargeUtf8Builder { builder: GenericStringBuilder::with_capacity(rows, bytes) }
    }

    /// Calls `GenericStringBuilder::<i64>::append_value`, which panics once the values together exceed
    /// `i64::MAX` bytes.
    ///
    /// Trusted: the value becomes the next row.
    #[verifier::external_body]
    fn push_value(&mut self, value: &str)
        requires
            crate::column::total_bytes(
                large_utf8_builder_rows(*old(self)).push(Some(value@)),
            ) <= i64::MAX,
        ensures
            large_utf8_builder_rows(*final(self)) == large_utf8_builder_rows(*old(self)).push(
                Some(value@),
            ),
    {
        self.builder.append_value(value)
    }

    /// Calls `GenericStringBuilder::<i64>::append_null`.
    ///
    /// Trusted: a null becomes the next row.
    #[verifier::external_body]
    fn push_null(&mut self)
        ensures
            large_utf8_builder_rows(*final(self)) == large_utf8_builder_rows(*old(self)).push(None),
    {
        self.builder.append_null()
    }

    /// Calls `GenericStringBuilder::<i64>::finish`.
    ///
    /// Trusted: the array is of type `LargeUtf8` and holds the rows written; the builder is empty
    /// again.
    #[verifier::external_body]
    fn take_column(&mut self) -> (column: Column)
        ensures
            crate::column::column_kind(column) == ColumnKind::LargeUtf8,
            crate::column::column_strings(column) == large_utf8_builder_rows(*old(self)),
            crate::column::column_rows(column) == large_utf8_builder_rows(*old(self)).len(),
            large_utf8_builder_rows(*final(self)) == Seq::<Option<Seq<char>>>::empty(),
    {
        Column { array: Arc::new(self.builder.finish()) }
    }
}

impl RegexpExtractBuilder for LargeUtf8Builder {
    open spec fn rows(&self) -> Seq<Option<Seq<char>>> {
        large_utf8_builder_rows(*self)
    }

    open spec fn kind() -> ColumnKind {
        ColumnKind::LargeUtf8
    }

    open spec fn fits(values: Seq<Option<Seq<char>>>) -> bool {
        crate::column::total_bytes(values) <= i64::MAX
    }

    proof fn lemma_fits(shorter: Seq<Option<Seq<char>>>, longer: Seq<Option<Seq<char>>>) {
        lemma_no_longer(shorter, longer);
    }

    fn append_value(&mut self, value: &str) {
        self.push_value(value)
    }

    fn append_null(&mut self) {
        self.push_null()
    }

    fn finish(&mut self) -> (column: Column) {
        self.take_column()
    }
}

/// Builds a column of strings reached through views.
#[verifier::external_body]
pub struct Utf8ViewBuilder {
    builder: StringViewBuilder,
}

/// The rows that a `Utf8ViewBuilder` was given.
pub uninterp spec fn utf8_view_builder_rows(builder: Utf8ViewBuilder) -> Seq<Option<Seq<char>>>;

impl Utf8ViewBuilder {
    /// Calls `StringViewBuilder::with_capacity`, which panics where the room asked for is
    /// more than memory can hold.
    ///
    /// Trusted: the builder starts without rows.
    #[verifier::external_body]
    pub(crate) fn with_capacity(rows: usize) -> (r: Self)
        requires
            16 * rows <= isize::MAX,
        ensures
            utf8_view_builder_rows(r) == Seq::<Option<Seq<char>>>::empty(),
    {
        Utf8ViewBuilder { builder: StringViewBuilder::with_capacity(rows) }
    }

    /// Calls `StringViewBuilder::append_value`, which panics on a value of `u32::MAX` bytes or more and
    /// once it has closed `u32::MAX` blocks. It opens at most one block for each value longer than a
    /// view holds by itself, of 16 KiB or more, and only where the block before has no room for it.
    ///
    /// Trusted: the value becomes the next row.
    #[verifier::external_body]
    fn push_value(&mut self, value: &str)
        requires
            views_fit(utf8_view_builder_rows(*old(self)).push(Some(value@))),
        ensures
            utf8_view_builder_rows(*final(self)) == utf8_view_builder_rows(*old(self)).push(
                Some(value@),
            ),
    {
        self.builder.append_value(value)
    }

    /// Calls `StringViewBuilder::append_null`.
    ///
    /// Trusted: a null becomes the next row.
    #[verifier::external_body]
    fn push_null(&mut self)
        ensures
            utf8_view_builder_rows(*final(self)) == utf8_view_builder_rows(*old(self)).push(None),
    {
        self.builder.append_null()
    }

    /// Calls `StringViewBuilder::finish`, which closes the last block, with the limits of `append_value`.
    ///
    /// Trusted: the array is of type `Utf8View` and holds the rows written; the builder is empty
    /// again.
    #[verifier::external_body]
    fn take_column(&mut self) -> (column: Column)
        requires
            views_fit(utf8_view_builder_rows(*old(self))),
        ensures
            crate::column::column_kind(column) == ColumnKind::Utf8View,
            crate::column::column_strings(column) == utf8_view_builder_rows(*old(self)),
            crate::column::column_rows(column) == utf8_view_builder_rows(*old(self)).len(),
            utf8_view_builder_rows(*final(self)) == Seq::<Option<Seq<char>>>::empty(),
    {
        Column { array: Arc::new(self.builder.finish()) }
    }
}

impl RegexpExtractBuilder for Utf8ViewBuilder {
    open spec fn rows(&self) -> Seq<Option<Seq<char>>> {
        utf8_view_builder_rows(*self)
    }

    open spec fn kind() -> ColumnKind {
        ColumnKind::Utf8View
    }

    open spec fn fits(values: Seq<Option<Seq<char>>>) -> bool {
        views_fit(values)
    }

    proof fn lemma_fits(shorter: Seq<Option<Seq<char>>>, longer: Seq<Option<Seq<char>>>) {
        lemma_no_longer(shorter, longer);
    }

    fn append_value(&mut self, value: &str) {
        self.push_value(value)
    }

    fn append_null(&mut self) {
        self.push_null()
    }

    fn finish(&mut self) -> (column: Column) {
        self.take_column()
    }
}

} // verus!
