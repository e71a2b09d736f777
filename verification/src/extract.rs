//! Extraction over columns: group `idx` of the first match, row by row.

use crate::builder::{
    LargeUtf8Builder, RegexpExtractBuilder, Utf8Builder, Utf8ViewBuilder, MAX_BLOCKS_BYTES,
    MAX_INLINE_BYTES,
};
use crate::column::{Column, ColumnKind, Int32Column};
use crate::error::{Fault, RegexpExtractError};
use crate::pattern::PatternCache;
use vstd::prelude::*;

verus! {

// ---------------------------------------------------------------------------------------------
// What comes out
// ---------------------------------------------------------------------------------------------
/// The value of a column for a row: a single value stands for every row.
pub open spec fn cell<T>(values: Seq<T>, row: int) -> T {
    if values.len() == 1 {
        values[0]
    } else {
        values[row]
    }
}

/// The string of a column for a row, `None` for a null, or the refusal of a column of another type.
pub open spec fn string_cell(column: Column, row: int) -> Result<Option<Seq<char>>, Fault> {
    if crate::column::column_kind(column).is_string() {
        Ok(cell(crate::column::column_strings(column), row))
    } else {
        Err(Fault::PatternType { data_type: crate::column::column_type_text(column) })
    }
}

/// The group index for a row, which is one where no index is given.
pub open spec fn index_cell(args: Seq<Column>, row: int) -> Option<i32> {
    if args.len() == 3 {
        cell(crate::column::column_integers(args[2]), row)
    } else {
        Some(1)
    }
}

/// What a subject, a pattern and a group index give: null as soon as one of them is null, and else
/// the text extracted, if it can be.
pub open spec fn cell_outcome(
    subject: Result<Option<Seq<char>>, Fault>,
    pattern: Result<Option<Seq<char>>, Fault>,
    idx: Option<i32>,
) -> Result<Option<Seq<char>>, Fault> {
    match subject {
        Err(fault) => Err(fault),
        Ok(None) => Ok(None),
        Ok(Some(subject)) => match pattern {
            Err(fault) => Err(fault),
            Ok(None) => Ok(None),
            Ok(Some(pattern)) => match idx {
                None => Ok(None),
                Some(idx) => match crate::pattern::extraction(subject, pattern, idx) {
                    Err(fault) => Err(fault),
                    Ok(text) => Ok(Some(text)),
                },
            },
        },
    }
}

/// What a row gives.
pub open spec fn row_outcome(args: Seq<Column>, row: int) -> Result<Option<Seq<char>>, Fault> {
    cell_outcome(string_cell(args[0], row), string_cell(args[1], row), index_cell(args, row))
}

/// What each row gives.
pub open spec fn row_outcomes(args: Seq<Column>) -> Seq<Result<Option<Seq<char>>, Fault>> {
    Seq::new(crate::column::column_rows(args[0]), |row: int| row_outcome(args, row))
}

/// The values of all rows, or the failure of the first row that fails.
pub open spec fn collect(rows: Seq<Result<Option<Seq<char>>, Fault>>) -> Result<
    Seq<Option<Seq<char>>>,
    Fault,
>
    decreases rows.len(),
{
    if rows.len() == 0 {
        Ok(Seq::empty())
    } else {
        match collect(rows.drop_last()) {
            Err(fault) => Err(fault),
            Ok(values) => match rows.last() {
                Err(fault) => Err(fault),
                Ok(value) => Ok(values.push(value)),
            },
        }
    }
}

/// The values of the rows before the first that fails.
pub open spec fn values_before_failure(rows: Seq<Result<Option<Seq<char>>, Fault>>) -> Seq<
    Option<Seq<char>>,
>
    decreases rows.len(),
{
    if rows.len() == 0 {
        Seq::empty()
    } else if collect(rows.drop_last()) is Ok && rows.last() is Ok {
        values_before_failure(rows.drop_last()).push(rows.last()->Ok_0)
    } else {
        values_before_failure(rows.drop_last())
    }
}

/// Whether each value is a contiguous piece of the subject of its row.
pub open spec fn pieces(values: Seq<Option<Seq<char>>>, subjects: Seq<Option<Seq<char>>>) -> bool {
    &&& values.len() <= subjects.len()
    &&& forall|i: int|
        0 <= i < values.len() ==> (#[trigger] values[i] matches Some(text) ==> {
            &&& subjects[i] matches Some(subject)
            &&& crate::pattern::piece_of(text, subject)
        })
}

/// What `regexp_extract` makes of its arguments: a value for each row, or a failure.
pub open spec fn outcome(args: Seq<Column>) -> Result<Seq<Option<Seq<char>>>, Fault> {
    if args.len() != 2 && args.len() != 3 {
        Err(Fault::ArgumentCount { count: args.len() })
    } else if !crate::column::column_kind(args[0]).is_string() {
        Err(Fault::SubjectType { data_type: crate::column::column_type_text(args[0]) })
    } else {
        typed_outcome(args)
    }
}

/// What comes out for two or three arguments with a column of strings in front.
pub open spec fn typed_outcome(args: Seq<Column>) -> Result<Seq<Option<Seq<char>>>, Fault> {
    if args.len() == 3 && crate::column::column_kind(args[2]) !is Int32 {
        let text = crate::column::int32_cast_text(args[2]);
        Err(
            Fault::IndexType {
                data_type: crate::column::column_type_text(args[2]),
                cause: text,
                text,
            },
        )
    } else {
        collect(row_outcomes(args))
    }
}

// ---------------------------------------------------------------------------------------------
// Which rows are read
// ---------------------------------------------------------------------------------------------
/// Whether a column has a value or a null for a row.
pub open spec fn reaches(column: Column, row: int) -> bool {
    crate::column::column_rows(column) == 1 || row < crate::column::column_rows(column)
}

/// Whether a column of strings has a value for a row that is not null.
pub open spec fn has_string(column: Column, row: int) -> bool {
    string_cell(column, row) matches Ok(Some(_))
}

/// Whether the columns reach as far as a row is read: the pattern after a subject that is not null,
/// and the group index after a pattern that is not null.
pub open spec fn row_readable(args: Seq<Column>, row: int) -> bool {
    has_string(args[0], row) && crate::column::column_kind(args[1]).is_string() ==> {
        &&& reaches(args[1], row)
        &&& has_string(args[1], row) && args.len() == 3 ==> reaches(args[2], row)
    }
}

/// Whether the columns reach as far as they are read, which is up to the first row that fails.
pub open spec fn readable(args: Seq<Column>) -> bool {
    forall|row: int|
        0 <= row < crate::column::column_rows(args[0]) && collect(
            row_outcomes(args).take(row),
        ) is Ok ==> #[trigger] row_readable(args, row)
}

// ---------------------------------------------------------------------------------------------
// Reading a row
// ---------------------------------------------------------------------------------------------
/// The position to read for `row` in an array of `array_len` values: a single value serves for
/// every row.
pub fn singular_or_row(array_len: usize, row: usize) -> (r: usize)
    ensures
        r == if array_len == 1 {
            0
        } else {
            row
        },
{
    if array_len == 1 {
        0
    } else {
        row
    }
}

/// The string of a column for a row.
pub fn string_at(array: &Column, row: usize) -> (r: Result<Option<&str>, RegexpExtractError>)
    requires
        crate::column::column_kind(*array).is_string() ==> reaches(*array, row as int),
    ensures
        match r {
            Ok(None) => string_cell(*array, row as int) == Ok::<Option<Seq<char>>, Fault>(None),
            Ok(Some(text)) => string_cell(*array, row as int) == Ok::<Option<Seq<char>>, Fault>(
                Some(text@),
            ),
            Err(e) => string_cell(*array, row as int) == Err::<Option<Seq<char>>, Fault>(e@),
        },
{
    let row = singular_or_row(array.len(), row);
    match array.data_type() {
        ColumnKind::Utf8 => {
            if array.is_null(row) {
                Ok(None)
            } else {
                Ok(Some(array.utf8_value(row)))
            }
        },
        ColumnKind::LargeUtf8 => {
            if array.is_null(row) {
                Ok(None)
            } else {
                Ok(Some(array.large_utf8_value(row)))
            }
        },
        ColumnKind::Utf8View => {
            if array.is_null(row) {
                Ok(None)
            } else {
                Ok(Some(array.utf8_view_value(row)))
            }
        },
        _ => Err(RegexpExtractError::PatternType { data_type: array.data_type_text() }),
    }
}

/// Whether `integers` is the third of three arguments as a column of integers.
spec fn index_column(args: Seq<Column>, integers: Option<Int32Column>) -> bool {
    &&& integers is Some <==> args.len() == 3
    &&& integers matches Some(column) ==> {
        &&& crate::column::column_kind(args[2]) is Int32
        &&& crate::column::int32_column_values(column) == crate::column::column_integers(args[2])
    }
}

/// The group index for a row, `None` for a null.
fn index_at(args: &[Column], integers: &Option<Int32Column>, row: usize) -> (r: Option<i32>)
    requires
        index_column(args@, *integers),
        args.len() == 3 ==> reaches(args@[2], row as int),
    ensures
        r == index_cell(args@, row as int),
{
    match integers {
        Some(column) => {
            let position = singular_or_row(args[2].len(), row);
            if args[2].is_null(position) {
                None
            } else {
                Some(column.value(position))
            }
        },
        None => Some(1),
    }
}

/// Extracts from the strings of one row.
fn row_text<'a>(
    args: &'a [Column],
    integers: &Option<Int32Column>,
    row: usize,
    cache: &mut PatternCache<'a>,
) -> (r: Result<Option<&'a str>, RegexpExtractError>)
    requires
        args.len() >= 2,
        row < crate::column::column_rows(args@[0]),
        index_column(args@, *integers),
        row_readable(args@, row as int),
        old(cache).wf(),
    ensures
        final(cache).wf(),
        match r {
            Ok(None) => row_outcome(args@, row as int) == Ok::<Option<Seq<char>>, Fault>(None),
            Ok(Some(text)) => {
                &&& row_outcome(args@, row as int) == Ok::<Option<Seq<char>>, Fault>(Some(text@))
                &&& string_cell(args@[0], row as int) matches Ok(Some(subject))
                &&& crate::pattern::piece_of(text@, subject)
            },
            Err(e) => row_outcome(args@, row as int) == Err::<Option<Seq<char>>, Fault>(e@),
        },
{
    let subject = match string_at(&args[0], row) {
        Ok(Some(subject)) => subject,
        Ok(None) => return Ok(None),
        Err(e) => return Err(e),
    };
    let pattern = match string_at(&args[1], row) {
        Ok(Some(pattern)) => pattern,
        Ok(None) => return Ok(None),
        Err(e) => return Err(e),
    };
    match index_at(args, integers, row) {
        Some(idx) => match cache.extract(subject, pattern, idx) {
            Ok(text) => Ok(Some(text)),
            Err(e) => Err(e),
        },
        None => Ok(None),
    }
}

// ---------------------------------------------------------------------------------------------
// Whole columns
// ---------------------------------------------------------------------------------------------
/// A failure of a row is the failure of all rows, unless an earlier row fails.
proof fn lemma_collect_fails(rows: Seq<Result<Option<Seq<char>>, Fault>>, row: int)
    requires
        0 <= row < rows.len(),
        collect(rows.take(row)) is Ok,
        rows[row] is Err,
    ensures
        collect(rows) == Err::<Seq<Option<Seq<char>>>, Fault>(rows[row]->Err_0),
    decreases rows.len(),
{
    if row == rows.len() - 1 {
        assert(rows.drop_last() =~= rows.take(row));
    } else {
        assert(rows.drop_last().take(row) =~= rows.take(row));
        lemma_collect_fails(rows.drop_last(), row);
    }
}

/// The values of rows that all succeed are the first of those before the first failure.
proof fn lemma_values_prefix(rows: Seq<Result<Option<Seq<char>>, Fault>>, row: int)
    requires
        0 <= row <= rows.len(),
        collect(rows.take(row)) is Ok,
    ensures
        collect(rows.take(row))->Ok_0.len() == row,
        row <= values_before_failure(rows).len(),
        values_before_failure(rows).take(row) == collect(rows.take(row))->Ok_0,
    decreases rows.len(),
{
    if rows.len() == 0 {
        assert(rows.take(row) =~= rows);
        assert(values_before_failure(rows).take(row) =~= collect(rows.take(row))->Ok_0);
    } else if row == rows.len() {
        assert(rows.take(row) =~= rows);
        let front = rows.drop_last();
        assert(front.take(row - 1) =~= front);
        lemma_values_prefix(front, row - 1);
        assert(values_before_failure(rows).take(row) =~= collect(rows)->Ok_0) by {
            lemma_values_len(front);
            assert(values_before_failure(front) =~= collect(front)->Ok_0);
        }
    } else {
        let front = rows.drop_last();
        assert(front.take(row) =~= rows.take(row));
        lemma_values_prefix(front, row);
        assert(values_before_failure(rows).take(row) =~= values_before_failure(front).take(row));
    }
}

/// There are no more values before the first failure than rows.
proof fn lemma_values_len(rows: Seq<Result<Option<Seq<char>>, Fault>>)
    ensures
        values_before_failure(rows).len() <= rows.len(),
    decreases rows.len(),
{
    if rows.len() > 0 {
        lemma_values_len(rows.drop_last());
    }
}

/// The first failure ends the values.
proof fn lemma_values_end(rows: Seq<Result<Option<Seq<char>>, Fault>>, row: int)
    requires
        0 <= row <= rows.len(),
        collect(rows.take(row)) is Ok,
        row < rows.len() ==> rows[row] is Err,
    ensures
        values_before_failure(rows) == collect(rows.take(row))->Ok_0,
    decreases rows.len(),
{
    if row == rows.len() {
        lemma_values_prefix(rows, row);
        lemma_values_len(rows);
        assert(values_before_failure(rows).take(row) =~= values_before_failure(rows));
    } else {
        let front = rows.drop_last();
        assert(front.take(row) =~= rows.take(row));
        lemma_values_end(front, row);
        if row < front.len() {
            lemma_collect_fails(front, row);
        }
    }
}

/// Pieces of subjects are no longer than the subjects.
pub proof fn lemma_pieces_no_longer(
    values: Seq<Option<Seq<char>>>,
    subjects: Seq<Option<Seq<char>>>,
)
    requires
        pieces(values, subjects),
    ensures
        crate::builder::no_longer(values, subjects),
{
    assert forall|i: int| 0 <= i < values.len() implies crate::column::value_bytes(
        #[trigger] values[i],
    ) <= crate::column::value_bytes(subjects[i]) by {
        if let Some(text) = values[i] {
            crate::pattern::lemma_piece_bytes(text, subjects[i]->0);
        }
    }
}

/// Whether a column that holds the rows `written` has room for the values that come out, or even for
/// the subjects.
pub open spec fn room<B: RegexpExtractBuilder>(
    written: Seq<Option<Seq<char>>>,
    args: Seq<Column>,
) -> bool {
    B::fits(written + crate::column::column_strings(args[0])) || B::fits(
        written + values_before_failure(row_outcomes(args)),
    )
}

/// Where there is room for all values, there is room for those of the first rows.
proof fn lemma_room<B: RegexpExtractBuilder>(
    written: Seq<Option<Seq<char>>>,
    args: Seq<Column>,
    row: int,
    values: Seq<Option<Seq<char>>>,
)
    requires
        room::<B>(written, args),
        0 <= row <= row_outcomes(args).len(),
        collect(row_outcomes(args).take(row)) == Ok::<Seq<Option<Seq<char>>>, Fault>(values),
        pieces(values, crate::column::column_strings(args[0])),
    ensures
        B::fits(written + values),
{
    let subjects = crate::column::column_strings(args[0]);
    let all = values_before_failure(row_outcomes(args));
    if B::fits(written + subjects) {
        lemma_pieces_no_longer(values, subjects);
        crate::builder::lemma_no_longer_after(written, values, subjects);
        B::lemma_fits(written + values, written + subjects);
    } else {
        lemma_values_prefix(row_outcomes(args), row);
        assert forall|i: int| 0 <= i < values.len() implies crate::column::value_bytes(
            #[trigger] values[i],
        ) <= crate::column::value_bytes(all[i]) by {
            assert(all.take(row)[i] == all[i]);
        }
        crate::builder::lemma_no_longer_after(written, values, all);
        B::lemma_fits(written + values, written + all);
    }
}

/// Extracts from every row, and adds a row for each to what `builder` holds.
pub fn regexp_extract_with_builder<B: RegexpExtractBuilder>(args: &[Column], builder: B) -> (r:
    Result<Column, RegexpExtractError>)
    requires
        args.len() >= 2,
        crate::column::column_kind(args@[0]).is_string(),
        args.len() == 3 && crate::column::column_kind(args@[2]) !is Int32 || (readable(args@)
            && room::<B>(builder.rows(), args@)),
    ensures
        match r {
            Ok(column) => {
                &&& typed_outcome(args@) matches Ok(values)
                &&& crate::column::column_strings(column) == builder.rows() + values
                &&& crate::column::column_kind(column) == B::kind()
                &&& crate::column::column_rows(column) == builder.rows().len()
                    + crate::column::column_rows(args@[0])
                &&& pieces(values, crate::column::column_strings(args@[0]))
            },
            Err(e) => typed_outcome(args@) == Err::<Seq<Option<Seq<char>>>, Fault>(e@),
        },
{
    let ghost written = builder.rows();
    let mut builder = builder;
    let integers = if args.len() == 3 {
        match args[2].as_int32() {
            Ok(integers) => Some(integers),
            Err((cause, text)) => {
                let data_type = args[2].data_type_text();
                return Err(RegexpExtractError::IndexType { data_type, cause, text });
            },
        }
    } else {
        None
    };
    let rows = args[0].len();
    let ghost subjects = crate::column::column_strings(args@[0]);
    let ghost outcomes = row_outcomes(args@);
    let ghost mut values = Seq::<Option<Seq<char>>>::empty();
    let mut cache = PatternCache::new();
    let mut row: usize = 0;
    assert(outcomes.take(0) =~= Seq::empty());
    assert(written + values =~= written);
    while row < rows
        invariant
            args.len() >= 2,
            rows == crate::column::column_rows(args@[0]) == subjects.len() == outcomes.len(),
            subjects == crate::column::column_strings(args@[0]),
            outcomes == row_outcomes(args@),
            crate::column::column_kind(args@[0]).is_string(),
            room::<B>(written, args@),
            readable(args@),
            index_column(args@, integers),
            cache.wf(),
            0 <= row <= rows,
            builder.rows() == written + values,
            values.len() == row,
            pieces(values, subjects),
            collect(outcomes.take(row as int)) == Ok::<Seq<Option<Seq<char>>>, Fault>(values),
        decreases rows - row,
    {
        proof {
            assert(row_readable(args@, row as int));
            assert(outcomes.take(row as int + 1).drop_last() =~= outcomes.take(row as int));
            assert(outcomes.take(row as int + 1).last() == row_outcome(args@, row as int));
        }
        match row_text(args, &integers, row, &mut cache) {
            Ok(Some(text)) => {
                proof {
                    let longer = values.push(Some(text@));
                    lemma_room::<B>(written, args@, row as int + 1, longer);
                    assert((written + values).push(Some(text@)) =~= written + longer);
                    values = longer;
                }
                builder.append_value(text);
            },
            Ok(None) => {
                proof {
                    let longer = values.push(None);
                    assert((written + values).push(None) =~= written + longer);
                    values = longer;
                }
                builder.append_null();
            },
            Err(e) => {
                proof {
                    lemma_collect_fails(outcomes, row as int);
                }
                return Err(e);
            },
        }
        row = row + 1;
    }
    proof {
        assert(outcomes.take(rows as int) =~= outcomes);
        lemma_room::<B>(written, args@, rows as int, values);
    }
    Ok(builder.finish())
}

/// Whether the columns can be read and written: they reach as far as they are read, and a column of
/// views has room for the values.
pub open spec fn workable(args: Seq<Column>) -> bool {
    crate::column::column_kind(args[0]).is_string() && !(args.len() == 3
        && crate::column::column_kind(args[2]) !is Int32) ==> {
        &&& readable(args)
        &&& crate::column::column_kind(args[0]) is Utf8View ==> room::<Utf8ViewBuilder>(
            Seq::empty(),
            args,
        )
    }
}

/// Extracts from every row group `idx` of the first match of the pattern in the subject.
///
/// The arguments are the column of subjects, the column of patterns and, optionally, the column of
/// group indexes. The result is a column of the type of the subjects, with as many rows, and each
/// value is a piece of its subject.
pub fn spark_regexp_extract(args: &[Column]) -> (r: Result<Column, RegexpExtractError>)
    requires
        args.len() == 2 || args.len() == 3 ==> workable(args@),
    ensures
        match r {
            Ok(column) => {
                &&& outcome(args@) == Ok::<Seq<Option<Seq<char>>>, Fault>(
                    crate::column::column_strings(column),
                )
                &&& crate::column::column_kind(column) == crate::column::column_kind(args@[0])
                &&& crate::column::column_rows(column) == crate::column::column_rows(args@[0])
                &&& pieces(
                    crate::column::column_strings(column),
                    crate::column::column_strings(args@[0]),
                )
            },
            Err(e) => outcome(args@) == Err::<Seq<Option<Seq<char>>>, Fault>(e@),
        },
{
    if args.len() != 2 && args.len() != 3 {
        return Err(RegexpExtractError::ArgumentCount { count: args.len() });
    }
    let rows = args[0].len();
    proof {
        let none = Seq::<Option<Seq<char>>>::empty();
        let subjects = crate::column::column_strings(args@[0]);
        assert(none + subjects =~= subjects);
        assert(typed_outcome(args@) matches Ok(values) ==> none + values =~= values);
    }
    match args[0].data_type() {
        ColumnKind::Utf8 => regexp_extract_with_builder(
            args,
            Utf8Builder::with_capacity(rows, 0),
        ),
        ColumnKind::LargeUtf8 => regexp_extract_with_builder(
            args,
            LargeUtf8Builder::with_capacity(rows, 0),
        ),
        ColumnKind::Utf8View => regexp_extract_with_builder(
            args,
            Utf8ViewBuilder::with_capacity(rows),
        ),
        _ => Err(RegexpExtractError::SubjectType { data_type: args[0].data_type_text() }),
    }
}

// ---------------------------------------------------------------------------------------------
// A look at the columns
// ---------------------------------------------------------------------------------------------
/// Whether a column has a value or a null for each of the first `rows` rows.
pub open spec fn covers(column: Column, rows: nat) -> bool {
    crate::column::column_rows(column) == 1 || crate::column::column_rows(column) >= rows
}

/// Whether the columns of patterns and of indexes are long enough for the column of subjects.
pub open spec fn aligned(args: Seq<Column>) -> bool {
    let rows = crate::column::column_rows(args[0]);
    &&& crate::column::column_kind(args[1]).is_string() ==> covers(args[1], rows)
    &&& args.len() == 3 ==> covers(args[2], rows)
}

/// Whether a column holds strings.
fn check_string(column: &Column) -> (r: bool)
    ensures
        r == crate::column::column_kind(*column).is_string(),
{
    match column.data_type() {
        ColumnKind::Utf8 | ColumnKind::LargeUtf8 | ColumnKind::Utf8View => true,
        _ => false,
    }
}

/// Whether the columns of patterns and of indexes are long enough for the column of subjects.
fn check_aligned(args: &[Column]) -> (r: bool)
    requires
        args.len() >= 2,
    ensures
        r == aligned(args@),
{
    let rows = args[0].len();
    let patterns = args[1].len();
    if check_string(&args[1]) && patterns != 1 && patterns < rows {
        return false;
    }
    if args.len() == 3 {
        let indexes = args[2].len();
        return indexes == 1 || indexes >= rows;
    }
    true
}

/// Whether the columns reach as far as a row is read.
fn check_row_readable(args: &[Column], row: usize) -> (r: bool)
    requires
        args.len() >= 2,
        crate::column::column_kind(args@[0]).is_string(),
        row < crate::column::column_rows(args@[0]),
    ensures
        r == row_readable(args@, row as int),
{
    match string_at(&args[0], row) {
        Ok(Some(_)) => {},
        _ => return true,
    }
    if !check_string(&args[1]) {
        return true;
    }
    let patterns = args[1].len();
    if patterns != 1 && row >= patterns {
        return false;
    }
    match string_at(&args[1], row) {
        Ok(Some(_)) => {},
        _ => return true,
    }
    if args.len() == 3 {
        let indexes = args[2].len();
        return indexes == 1 || row < indexes;
    }
    true
}

/// The room that a column of views takes up.
struct ViewsTally {
    /// Whether each value goes into a block.
    short: bool,
    /// The number of values that are too long for their views.
    long: usize,
    /// The bytes of all values together, up to one more than `MAX_BLOCKS_BYTES`.
    bytes: u64,
}

impl ViewsTally {
    /// Whether this is the tally of `values`.
    spec fn counts(&self, values: Seq<Option<Seq<char>>>) -> bool {
        &&& self.short <==> forall|i: int|
            0 <= i < values.len() ==> crate::column::value_bytes(#[trigger] values[i]) < u32::MAX
        &&& self.long == crate::builder::long_values(values)
        &&& self.long <= values.len()
        &&& self.bytes == if crate::column::total_bytes(values) <= MAX_BLOCKS_BYTES {
            crate::column::total_bytes(values) as int
        } else {
            MAX_BLOCKS_BYTES + 1
        }
    }

    /// The tally of no values.
    fn new() -> (r: Self)
        ensures
            r.counts(Seq::empty()),
    {
        ViewsTally { short: true, long: 0, bytes: 0 }
    }

    /// Counts one value more.
    fn add_value(&mut self, value: Option<&str>, Ghost(values): Ghost<Seq<Option<Seq<char>>>>)
        requires
            old(self).counts(values),
            values.len() < usize::MAX,
        ensures
            final(self).counts(
                values.push(
                    match value {
                        Some(text) => Some(text@),
                        None => None,
                    },
                ),
            ),
    {
        let ghost pushed: Option<Seq<char>> = match value {
            Some(text) => Some(text@),
            None => None,
        };
        let ghost longer = values.push(pushed);
        proof {
            assert(longer.drop_last() =~= values);
            assert(forall|i: int| 0 <= i < values.len() ==> longer[i] == values[i]);
            assert(longer[values.len() as int] == pushed);
        }
        if let Some(text) = value {
            let bytes = text.as_bytes().len();
            assert(bytes == crate::column::value_bytes(pushed));
            if bytes >= u32::MAX as usize {
                self.short = false;
            }
            if bytes > MAX_INLINE_BYTES as usize {
                self.long = self.long + 1;
            }
            if self.bytes <= MAX_BLOCKS_BYTES && bytes as u64 <= MAX_BLOCKS_BYTES - self.bytes {
                self.bytes = self.bytes + bytes as u64;
            } else {
                self.bytes = MAX_BLOCKS_BYTES + 1;
            }
        }
        proof {
            if forall|i: int|
                0 <= i < longer.len() ==> crate::column::value_bytes(#[trigger] longer[i])
                    < u32::MAX {
                assert forall|i: int| 0 <= i < values.len() implies crate::column::value_bytes(
                    #[trigger] values[i],
                ) < u32::MAX by {
                    assert(longer[i] == values[i]);
                }
            }
        }
    }

    /// Whether a column of views has room for the values counted.
    fn fits(&self, Ghost(values): Ghost<Seq<Option<Seq<char>>>>) -> (r: bool)
        requires
            self.counts(values),
        ensures
            r == crate::builder::views_fit(values),
    {
        self.short && (self.long <= u32::MAX as usize || self.bytes <= MAX_BLOCKS_BYTES)
    }
}

/// Whether a column of views has room for the values of `column`.
fn check_views_fit(column: &Column) -> (r: bool)
    requires
        crate::column::column_kind(*column).is_string(),
    ensures
        r == crate::builder::views_fit(crate::column::column_strings(*column)),
{
    let rows = column.len();
    let ghost values = crate::column::column_strings(*column);
    let mut tally = ViewsTally::new();
    let mut row: usize = 0;
    assert(values.take(0) =~= Seq::empty());
    while row < rows
        invariant
            crate::column::column_kind(*column).is_string(),
            values == crate::column::column_strings(*column),
            rows == values.len() == crate::column::column_rows(*column),
            0 <= row <= rows,
            tally.counts(values.take(row as int)),
        decreases rows - row,
    {
        let value = match string_at(column, row) {
            Ok(value) => value,
            Err(_) => None,
        };
        tally.add_value(value, Ghost(values.take(row as int)));
        proof {
            assert(values.take(row as int + 1) =~= values.take(row as int).push(
                values[row as int],
            ));
        }
        row = row + 1;
    }
    assert(values.take(rows as int) =~= values);
    tally.fits(Ghost(values))
}

/// Walks through the rows, up to the first that fails, to see whether the columns reach as far as they
/// are read and whether a column of views has room for the values: the second answer counts where the
/// first is yes.
fn check_rows(args: &[Column]) -> (r: (bool, bool))
    requires
        args.len() >= 2,
        crate::column::column_kind(args@[0]).is_string(),
        args.len() == 3 ==> crate::column::column_kind(args@[2]) is Int32,
    ensures
        r.0 == readable(args@),
        r.0 ==> r.1 == crate::builder::views_fit(values_before_failure(row_outcomes(args@))),
{
    let integers = if args.len() == 3 {
        match args[2].as_int32() {
            Ok(integers) => Some(integers),
            Err(_) => vstd::pervasive::unreached(),
        }
    } else {
        None
    };
    let rows = args[0].len();
    let ghost outcomes = row_outcomes(args@);
    let ghost mut values = Seq::<Option<Seq<char>>>::empty();
    let mut tally = ViewsTally::new();
    let mut cache = PatternCache::new();
    let mut row: usize = 0;
    assert(outcomes.take(0) =~= Seq::empty());
    while row < rows
        invariant
            args.len() >= 2,
            rows == crate::column::column_rows(args@[0]) == outcomes.len(),
            outcomes == row_outcomes(args@),
            crate::column::column_kind(args@[0]).is_string(),
            index_column(args@, integers),
            cache.wf(),
            0 <= row <= rows,
            values.len() == row,
            tally.counts(values),
            collect(outcomes.take(row as int)) == Ok::<Seq<Option<Seq<char>>>, Fault>(values),
            forall|i: int| 0 <= i < row ==> #[trigger] row_readable(args@, i),
        decreases rows - row,
    {
        if !check_row_readable(args, row) {
            return (false, false);
        }
        proof {
            assert(outcomes.take(row as int + 1).drop_last() =~= outcomes.take(row as int));
            assert(outcomes.take(row as int + 1).last() == row_outcome(args@, row as int));
        }
        match row_text(args, &integers, row, &mut cache) {
            Ok(value) => {
                tally.add_value(value, Ghost(values));
                proof {
                    values = values.push(
                        match value {
                            Some(text) => Some(text@),
                            None => None,
                        },
                    );
                }
            },
            Err(_) => {
                proof {
                    lemma_values_end(outcomes, row as int);
                    assert forall|i: int|
                        0 <= i < outcomes.len() && collect(outcomes.take(i)) is Ok implies
                        #[trigger] row_readable(args@, i) by {
                        if i > row {
                            assert(outcomes.take(i).take(row as int) =~= outcomes.take(
                                row as int,
                            ));
                            lemma_collect_fails(outcomes.take(i), row as int);
                        }
                    }
                }
                return (true, tally.fits(Ghost(values)));
            },
        }
        row = row + 1;
    }
    proof {
        lemma_values_end(outcomes, rows as int);
    }
    (true, tally.fits(Ghost(values)))
}

/// Whether the columns can be read and written. The rows are walked through only where the lengths of
/// the columns and of the subjects leave it open.
pub(crate) fn check_workable(args: &[Column]) -> (r: bool)
    requires
        args.len() == 2 || args.len() == 3,
    ensures
        r == workable(args@),
{
    if !check_string(&args[0]) {
        return true;
    }
    if args.len() == 3 && args[2].data_type() != ColumnKind::Int32 {
        return true;
    }
    proof {
        let none = Seq::<Option<Seq<char>>>::empty();
        let subjects = crate::column::column_strings(args@[0]);
        let values = values_before_failure(row_outcomes(args@));
        assert(none + subjects =~= subjects);
        assert(none + values =~= values);
    }
    let subjects_fit = args[0].data_type() != ColumnKind::Utf8View || check_views_fit(&args[0]);
    if subjects_fit && check_aligned(args) {
        return true;
    }
    let (readable, values_fit) = check_rows(args);
    readable && (subjects_fit || values_fit)
}

/// Whether two columns are of one type, with the same rows.
pub open spec fn agree(column: Column, other: Column) -> bool {
    let kind = crate::column::column_kind(column);
    &&& kind == crate::column::column_kind(other)
    &&& crate::column::column_type_text(column) == crate::column::column_type_text(other)
    &&& crate::column::column_rows(column) == crate::column::column_rows(other)
    &&& kind.is_string() ==> crate::column::column_strings(column)
        == crate::column::column_strings(other)
    &&& kind is Int32 ==> crate::column::column_integers(column) == crate::column::column_integers(
        other,
    )
}

/// Whether two calls fail on a column of indexes of the same type.
pub open spec fn both_refuse_index(args: Seq<Column>, others: Seq<Column>) -> bool {
    &&& outcome(args) matches Err(Fault::IndexType { data_type, .. })
    &&& outcome(others) matches Err(Fault::IndexType { data_type: other, .. })
    &&& data_type == other
}

/// Columns that agree with others can be read and written like those, and what comes out is the same,
/// up to the text in which a column of indexes is refused.
pub proof fn lemma_agree(args: Seq<Column>, others: Seq<Column>)
    requires
        args.len() == others.len(),
        forall|i: int| 0 <= i < args.len() ==> agree(#[trigger] args[i], others[i]),
    ensures
        args.len() == 2 || args.len() == 3 ==> workable(args) == workable(others),
        outcome(args) == outcome(others) || both_refuse_index(args, others),
{
    if args.len() == 2 || args.len() == 3 {
        assert(agree(args[0], others[0]));
        assert(agree(args[1], others[1]));
        assert(args.len() == 3 ==> agree(args[2], others[2]));
        if crate::column::column_kind(args[0]).is_string() && !(args.len() == 3
            && crate::column::column_kind(args[2]) !is Int32) {
            assert(row_outcomes(args) =~= row_outcomes(others));
            assert forall|row: int| #[trigger]
                row_readable(args, row) == row_readable(others, row) by {}
            if readable(args) {
                assert forall|row: int|
                    0 <= row < crate::column::column_rows(others[0]) && collect(
                        row_outcomes(others).take(row),
                    ) is Ok implies #[trigger] row_readable(others, row) by {
                    assert(row_readable(args, row));
                }
            }
            if readable(others) {
                assert forall|row: int|
                    0 <= row < crate::column::column_rows(args[0]) && collect(
                        row_outcomes(args).take(row),
                    ) is Ok implies #[trigger] row_readable(args, row) by {
                    assert(row_readable(others, row));
                }
            }
        }
    }
}

/// A column of nulls has room for as many as there are.
proof fn lemma_nulls_fit(values: Seq<Option<Seq<char>>>)
    requires
        forall|i: int| 0 <= i < values.len() ==> #[trigger] values[i] is None,
    ensures
        crate::builder::long_values(values) == 0,
        crate::builder::views_fit(values),
    decreases values.len(),
{
    if values.len() > 0 {
        assert(values[values.len() - 1] is None);
        assert forall|i: int| 0 <= i < values.drop_last().len() implies
            #[trigger] values.drop_last()[i] is None by {
            assert(values[i] is None);
        }
        lemma_nulls_fit(values.drop_last());
    }
}

/// Rows that give null or fail give nulls before the first failure.
proof fn lemma_null_rows(rows: Seq<Result<Option<Seq<char>>, Fault>>)
    requires
        forall|i: int| 0 <= i < rows.len() ==> (#[trigger] rows[i] matches Ok(value) ==> value is None),
    ensures
        forall|i: int|
            0 <= i < values_before_failure(rows).len() ==> #[trigger] values_before_failure(rows)[i]
                is None,
    decreases rows.len(),
{
    if rows.len() > 0 {
        let front = rows.drop_last();
        assert forall|i: int| 0 <= i < front.len() implies (#[trigger] front[i] matches Ok(value)
            ==> value is None) by {
            assert(front[i] == rows[i]);
        }
        lemma_null_rows(front);
        assert(rows[rows.len() - 1] == rows.last());
    }
}

/// Where a column holds neither strings nor integers, nothing is read past its end and nothing is
/// written but nulls.
pub(crate) proof fn lemma_other_workable(args: Seq<Column>, position: int)
    requires
        args.len() == 2 || args.len() == 3,
        0 <= position < args.len(),
        crate::column::column_kind(args[position]) is Other,
    ensures
        workable(args),
{
    if position == 1 {
        lemma_null_rows(row_outcomes(args));
        let values = values_before_failure(row_outcomes(args));
        lemma_nulls_fit(values);
        assert(Seq::<Option<Seq<char>>>::empty() + values =~= values);
    }
}

/// Extracts like [`spark_regexp_extract`], after a look at the columns: `None` where one does not reach
/// as far as it is read, or a column of views has no room for the values.
pub fn try_spark_regexp_extract(args: &[Column]) -> (r: Option<Result<Column, RegexpExtractError>>)
    ensures
        r is None <==> (args.len() == 2 || args.len() == 3) && !workable(args@),
        match r {
            Some(Ok(column)) => {
                &&& outcome(args@) == Ok::<Seq<Option<Seq<char>>>, Fault>(
                    crate::column::column_strings(column),
                )
                &&& crate::column::column_kind(column) == crate::column::column_kind(args@[0])
                &&& crate::column::column_rows(column) == crate::column::column_rows(args@[0])
                &&& pieces(
                    crate::column::column_strings(column),
                    crate::column::column_strings(args@[0]),
                )
            },
            Some(Err(e)) => outcome(args@) == Err::<Seq<Option<Seq<char>>>, Fault>(e@),
            None => true,
        },
{
    if (args.len() == 2 || args.len() == 3) && !check_workable(args) {
        return None;
    }
    Some(spark_regexp_extract(args))
}

} // verus!
