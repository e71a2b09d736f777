//! Laws of whole calls, stated on the cells of the columns that go in and come out and on what the
//! `regex` crate answers, without the notions that the functions are described by.

use crate::builder::RegexpExtractBuilder;
use crate::column::Column;
use crate::error::{Fault, RegexpExtractError};
use crate::extract::{
    regexp_extract_with_builder, spark_regexp_extract, try_spark_regexp_extract,
};
use regex::Regex;
use vstd::prelude::*;
use vstd::utf8::*;

verus! {

// ---------------------------------------------------------------------------------------------
// One row
// ---------------------------------------------------------------------------------------------
/// What comes out for a text, a pattern and a group index follows from what `Regex::new` makes of the
/// pattern as it is written, and from nothing else. A pattern that does not compile is refused with its
/// own text. Else nothing is found and the result is empty; or the index is zero and the result is the
/// text of the match; or the index is that of a group, and the result is the text of the byte range of
/// that group, or empty if it has none; or the index is refused.
pub proof fn law_extraction_goes_by_the_pattern_as_written(
    subject: Seq<char>,
    pattern: Seq<char>,
    idx: i32,
)
    ensures
        match crate::pattern::regex_new(pattern, usize::BITS) {
            Err(error) => crate::pattern::extraction(subject, pattern, idx) == Err::<
                Seq<char>,
                Fault,
            >(
                Fault::InvalidPattern { pattern, error: crate::pattern::regex_error_text(error) },
            ),
            Ok(regex) => {
                let found = crate::pattern::regex_find(regex, subject);
                let groups = crate::pattern::regex_captures_len(regex);
                let result = crate::pattern::extraction(subject, pattern, idx);
                &&& found is None ==> result == Ok::<Seq<char>, Fault>(Seq::empty())
                &&& idx == 0 ==> (found matches Some((start, end)) ==> result == Ok::<
                    Seq<char>,
                    Fault,
                >(decode_utf8(encode_utf8(subject).subrange(start as int, end as int))))
                &&& found is Some && 0 < idx < groups
                    ==> match crate::pattern::regex_spans(regex, subject)[idx as int] {
                    Some((start, end)) => result == Ok::<Seq<char>, Fault>(
                        decode_utf8(encode_utf8(subject).subrange(start as int, end as int)),
                    ),
                    None => result == Ok::<Seq<char>, Fault>(Seq::empty()),
                }
                &&& found is Some && groups >= 1 && (idx < 0 || idx >= groups) ==> result == Err::<
                    Seq<char>,
                    Fault,
                >(Fault::InvalidGroupIndex { index: idx, group_count: (groups - 1) as nat })
            },
        },
{
}

/// A group that takes part in the match gives the text of its own byte range.
pub proof fn law_group_gives_its_own_text(
    subject: Seq<char>,
    pattern: Seq<char>,
    idx: i32,
    regex: Regex,
    start: usize,
    end: usize,
)
    requires
        crate::pattern::regex_new(pattern, usize::BITS) == Ok::<Regex, regex::Error>(regex),
        crate::pattern::regex_find(regex, subject) is Some,
        0 < idx < crate::pattern::regex_captures_len(regex),
        crate::pattern::regex_spans(regex, subject)[idx as int] == Some((start, end)),
    ensures
        crate::pattern::extraction(subject, pattern, idx) == Ok::<Seq<char>, Fault>(
            decode_utf8(encode_utf8(subject).subrange(start as int, end as int)),
        ),
{
}

/// A row without nulls gives what its text, its pattern and its index give: the same text, or the same
/// failure.
pub proof fn law_row_extracts(subject: Seq<char>, pattern: Seq<char>, idx: i32)
    ensures
        match crate::pattern::extraction(subject, pattern, idx) {
            Ok(text) => crate::extract::cell_outcome(
                Ok(Some(subject)),
                Ok(Some(pattern)),
                Some(idx),
            ) == Ok::<Option<Seq<char>>, Fault>(Some(text)),
            Err(fault) => crate::extract::cell_outcome(
                Ok(Some(subject)),
                Ok(Some(pattern)),
                Some(idx),
            ) == Err::<Option<Seq<char>>, Fault>(fault),
        },
{
}

/// A row with index zero and a pattern that matches gives the text of the complete match.
pub proof fn law_row_with_index_zero_gives_the_match(
    subject: Seq<char>,
    pattern: Seq<char>,
    regex: Regex,
    start: usize,
    end: usize,
)
    requires
        crate::pattern::regex_new(pattern, usize::BITS) == Ok::<Regex, regex::Error>(regex),
        crate::pattern::regex_find(regex, subject) == Some((start, end)),
    ensures
        crate::extract::cell_outcome(Ok(Some(subject)), Ok(Some(pattern)), Some(0i32)) == Ok::<
            Option<Seq<char>>,
            Fault,
        >(Some(decode_utf8(encode_utf8(subject).subrange(start as int, end as int)))),
{
}

// ---------------------------------------------------------------------------------------------
// Calls that succeed
// ---------------------------------------------------------------------------------------------
/// A call that succeeds gives a column of the type of the subjects, one of the three string types, with
/// as many rows. There were two or three arguments, and the third held 32-bit integers.
pub proof fn law_call_keeps_type_and_rows(args: &[Column], column: Column)
    requires
        call_ensures(spark_regexp_extract, (args,), Ok(column)) || call_ensures(
            try_spark_regexp_extract,
            (args,),
            Some(Ok(column)),
        ),
    ensures
        args@.len() == 2 || args@.len() == 3,
        crate::column::column_kind(args@[0]) is Utf8 || crate::column::column_kind(
            args@[0],
        ) is LargeUtf8 || crate::column::column_kind(args@[0]) is Utf8View,
        args@.len() == 3 ==> crate::column::column_kind(args@[2]) is Int32,
        crate::column::column_kind(column) == crate::column::column_kind(args@[0]),
        crate::column::column_rows(column) == crate::column::column_rows(args@[0]),
        crate::column::column_strings(column).len() == crate::column::column_rows(args@[0]),
{
    crate::laws::law_each_row_by_itself(args@);
}

/// A call that succeeds gives for each row without nulls what the pattern of that row, compiled as it
/// is written, finds in the subject of that row: nothing, the complete match for index zero, and the
/// byte range of the group for the index of one. A pattern or an index that is a single value serves for
/// every row, and without indexes it is group one.
pub proof fn law_call_extracts_from_each_row(
    args: &[Column],
    column: Column,
    row: int,
    subject: Seq<char>,
    pattern: Seq<char>,
    idx: i32,
)
    requires
        call_ensures(spark_regexp_extract, (args,), Ok(column)) || call_ensures(
            try_spark_regexp_extract,
            (args,),
            Some(Ok(column)),
        ),
        crate::column::column_strings(args@[0]).len() == crate::column::column_rows(args@[0]),
        0 <= row < crate::column::column_rows(args@[0]),
        crate::column::column_strings(args@[0])[row] == Some(subject),
        crate::column::column_strings(args@[1])[if crate::column::column_strings(args@[1]).len()
            == 1 {
            0
        } else {
            row
        }] == Some(pattern),
        args@.len() == 2 ==> idx == 1,
        args@.len() == 3 ==> crate::column::column_integers(
            args@[2],
        )[if crate::column::column_integers(args@[2]).len() == 1 {
            0
        } else {
            row
        }] == Some(idx),
    ensures
        crate::pattern::regex_new(pattern, usize::BITS) matches Ok(regex) && {
            let value = crate::column::column_strings(column)[row];
            let found = crate::pattern::regex_find(regex, subject);
            let groups = crate::pattern::regex_captures_len(regex);
            &&& value is Some
            &&& found is None ==> value == Some(Seq::<char>::empty())
            &&& idx == 0 ==> (found matches Some((start, end)) ==> value == Some(
                decode_utf8(encode_utf8(subject).subrange(start as int, end as int)),
            ))
            &&& idx != 0 && found is Some && groups >= 1 ==> {
                &&& 0 < idx < groups
                &&& match crate::pattern::regex_spans(regex, subject)[idx as int] {
                    Some((start, end)) => value == Some(
                        decode_utf8(encode_utf8(subject).subrange(start as int, end as int)),
                    ),
                    None => value == Some(Seq::<char>::empty()),
                }
            }
        },
{
    crate::laws::law_each_row_by_itself(args@);
    assert(crate::extract::row_outcome(args@, row) == Ok::<Option<Seq<char>>, Fault>(
        crate::column::column_strings(column)[row],
    ));
}

/// A call that succeeds gives null on a row whose subject is null, whose pattern is null or whose index
/// is null, and on no other.
pub proof fn law_call_gives_null_for_null(args: &[Column], column: Column, row: int)
    requires
        call_ensures(spark_regexp_extract, (args,), Ok(column)) || call_ensures(
            try_spark_regexp_extract,
            (args,),
            Some(Ok(column)),
        ),
        crate::column::column_strings(args@[0]).len() == crate::column::column_rows(args@[0]),
        0 <= row < crate::column::column_rows(args@[0]),
        crate::column::column_kind(args@[1]) is Utf8 || crate::column::column_kind(
            args@[1],
        ) is LargeUtf8 || crate::column::column_kind(args@[1]) is Utf8View,
    ensures
        crate::column::column_strings(column)[row] is None <==> {
            ||| crate::column::column_strings(args@[0])[row] is None
            ||| crate::column::column_strings(args@[1])[if crate::column::column_strings(
                args@[1],
            ).len() == 1 {
                0
            } else {
                row
            }] is None
            ||| args@.len() == 3 && crate::column::column_integers(
                args@[2],
            )[if crate::column::column_integers(args@[2]).len() == 1 {
                0
            } else {
                row
            }] is None
        },
{
    crate::laws::law_each_row_by_itself(args@);
    assert(crate::extract::row_outcome(args@, row) == Ok::<Option<Seq<char>>, Fault>(
        crate::column::column_strings(column)[row],
    ));
}

/// Where the patterns hold no strings, a call succeeds only if all subjects are null, and gives nulls.
pub proof fn law_call_needs_patterns_for_subjects(args: &[Column], column: Column, row: int)
    requires
        call_ensures(spark_regexp_extract, (args,), Ok(column)) || call_ensures(
            try_spark_regexp_extract,
            (args,),
            Some(Ok(column)),
        ),
        crate::column::column_strings(args@[0]).len() == crate::column::column_rows(args@[0]),
        0 <= row < crate::column::column_rows(args@[0]),
        crate::column::column_kind(args@[1]) is Int32 || crate::column::column_kind(
            args@[1],
        ) is Other,
    ensures
        crate::column::column_strings(args@[0])[row] is None,
        crate::column::column_strings(column)[row] is None,
{
    crate::laws::law_each_row_by_itself(args@);
    assert(crate::extract::row_outcome(args@, row) == Ok::<Option<Seq<char>>, Fault>(
        crate::column::column_strings(column)[row],
    ));
}

/// Two calls that succeed, on a row each whose subject, pattern and index are the same, give the same
/// on these rows, whatever the other rows hold and whichever string types the columns have.
pub proof fn law_rows_alike_give_alike(
    args: &[Column],
    column: Column,
    row: int,
    others: &[Column],
    other_column: Column,
    other_row: int,
)
    requires
        call_ensures(spark_regexp_extract, (args,), Ok(column)),
        call_ensures(spark_regexp_extract, (others,), Ok(other_column)),
        args@.len() == 3,
        others@.len() == 3,
        forall|i: int|
            0 <= i < 2 ==> crate::column::column_strings(#[trigger] args@[i]).len()
                == crate::column::column_rows(args@[0]),
        forall|i: int|
            0 <= i < 2 ==> crate::column::column_strings(#[trigger] others@[i]).len()
                == crate::column::column_rows(others@[0]),
        crate::column::column_integers(args@[2]).len() == crate::column::column_rows(args@[0]),
        crate::column::column_integers(others@[2]).len() == crate::column::column_rows(others@[0]),
        0 <= row < crate::column::column_rows(args@[0]),
        0 <= other_row < crate::column::column_rows(others@[0]),
        forall|i: int|
            0 <= i < 2 ==> crate::column::column_strings(#[trigger] args@[i])[row]
                == crate::column::column_strings(others@[i])[other_row],
        crate::column::column_integers(args@[2])[row] == crate::column::column_integers(
            others@[2],
        )[other_row],
        forall|i: int|
            #![trigger args@[i]]
            #![trigger others@[i]]
            0 <= i < 2 ==> {
                &&& crate::column::column_kind(args@[i]) !is Int32
                &&& crate::column::column_kind(args@[i]) !is Other
                &&& crate::column::column_kind(others@[i]) !is Int32
                &&& crate::column::column_kind(others@[i]) !is Other
            },
    ensures
        crate::column::column_strings(column)[row] == crate::column::column_strings(
            other_column,
        )[other_row],
{
    crate::laws::law_each_row_by_itself(args@);
    crate::laws::law_each_row_by_itself(others@);
    assert(args@[0] == args@[0] && args@[1] == args@[1]);
    assert(crate::column::column_kind(args@[0]).is_string() && crate::column::column_kind(
        args@[1],
    ).is_string());
    assert(crate::column::column_kind(others@[0]).is_string() && crate::column::column_kind(
        others@[1],
    ).is_string());
    assert(crate::extract::row_outcome(args@, row) == Ok::<Option<Seq<char>>, Fault>(
        crate::column::column_strings(column)[row],
    ));
    assert(crate::extract::row_outcome(others@, other_row) == Ok::<Option<Seq<char>>, Fault>(
        crate::column::column_strings(other_column)[other_row],
    ));
    assert(crate::extract::row_outcome(args@, row) == crate::extract::row_outcome(
        others@,
        other_row,
    ));
}

// ---------------------------------------------------------------------------------------------
// Calls that fail
// ---------------------------------------------------------------------------------------------
/// Whether a row gives no reason to fail, on the cells of the columns: its subject is null; or its
/// pattern is null; or its index is null; or its pattern compiles, and it is the complete match that is
/// asked for, or nothing is found, or there is a group with that index.
pub open spec fn goes_through(args: Seq<Column>, row: int) -> bool {
    let subject = crate::column::column_strings(args[0])[row];
    let patterns = crate::column::column_strings(args[1]);
    let pattern = patterns[if patterns.len() == 1 {
        0
    } else {
        row
    }];
    let indexes = crate::column::column_integers(args[2]);
    let idx = if args.len() == 3 {
        indexes[if indexes.len() == 1 {
            0
        } else {
            row
        }]
    } else {
        Some(1i32)
    };
    ||| subject is None
    ||| crate::column::column_kind(args[1]) !is Int32 && crate::column::column_kind(args[1]) !is Other && {
        ||| pattern is None
        ||| idx is None
        ||| {
            &&& crate::pattern::regex_new(pattern->0, usize::BITS) matches Ok(regex)
            &&& {
                ||| idx == Some(0i32)
                ||| crate::pattern::regex_find(regex, subject->0) is None
                ||| 0 < idx->0 < crate::pattern::regex_captures_len(regex)
            }
        }
    }
}

/// A call that fails says why, and names what it fails on. It fails on the number of arguments if that is
/// neither two nor three; else on the type of the subjects; else on the type of the indexes; and else on
/// the first row that gives a reason to.
pub proof fn law_failure_names_its_reason(args: &[Column], error: RegexpExtractError)
    requires
        call_ensures(spark_regexp_extract, (args,), Err(error)) || call_ensures(
            try_spark_regexp_extract,
            (args,),
            Some(Err(error)),
        ),
        crate::column::column_strings(args@[0]).len() == crate::column::column_rows(args@[0]),
        forall|regex: Regex| #[trigger] crate::pattern::regex_captures_len(regex) >= 1,
    ensures
        ({
            let counted = args@.len() == 2 || args@.len() == 3;
            let subject_kind = crate::column::column_kind(args@[0]);
            let strings = subject_kind is Utf8 || subject_kind is LargeUtf8
                || subject_kind is Utf8View;
            let indexed = args@.len() == 3 ==> crate::column::column_kind(args@[2]) is Int32;
            &&& error is ArgumentCount <==> !counted
            &&& error is SubjectType <==> counted && !strings
            &&& error is IndexType <==> counted && strings && !indexed
            &&& error !is ReturnTypeCalled
            &&& counted && strings && indexed ==> exists|row: int|
                {
                    &&& 0 <= row < crate::column::column_rows(args@[0])
                    &&& !(#[trigger] goes_through(args@, row))
                    &&& forall|before: int|
                        0 <= before < row ==> #[trigger] goes_through(args@, before)
                    &&& names_reason(args@, row, error)
                }
        }),
        error matches RegexpExtractError::ArgumentCount { count } ==> count == args@.len(),
        error matches RegexpExtractError::SubjectType { data_type } ==> data_type@
            == crate::column::column_type_text(args@[0]),
        error matches RegexpExtractError::IndexType { data_type, cause, text } ==> {
            &&& data_type@ == crate::column::column_type_text(args@[2])
            &&& crate::error::cast_error_text(cause) == crate::column::int32_cast_text(args@[2])
            &&& text@ == crate::column::int32_cast_text(args@[2])
        },
{
    let rows = crate::extract::row_outcomes(args@);
    crate::laws::law_first_failure_decides(rows);
    let fault = error@;
    if crate::extract::outcome(args@) == Err::<Seq<Option<Seq<char>>>, Fault>(fault)
        && crate::extract::collect(rows) == crate::extract::outcome(args@) && (args@.len() == 2
        || args@.len() == 3) && crate::column::column_kind(args@[0]).is_string() && (args@.len() == 3
        ==> crate::column::column_kind(args@[2]) is Int32) {
        let row = choose|i: int|
            0 <= i < rows.len() && #[trigger] rows[i] == Err::<Option<Seq<char>>, Fault>(fault) && (
            forall|j: int| 0 <= j < i ==> #[trigger] rows[j] is Ok);
        assert(rows[row] == crate::extract::row_outcome(args@, row));
        assert(!goes_through(args@, row));
        assert(names_reason(args@, row, error));
        assert forall|before: int| 0 <= before < row implies #[trigger] goes_through(
            args@,
            before,
        ) by {
            assert(rows[before] is Ok);
            assert(rows[before] == crate::extract::row_outcome(args@, before));
        }
    }
}

/// Whether an error names the reason for which a row fails: the type of the patterns, or else the
/// pattern with what is wrong with it, or else the index with the number of groups.
pub open spec fn names_reason(args: Seq<Column>, row: int, error: RegexpExtractError) -> bool {
    let subject = crate::column::column_strings(args[0])[row];
    let patterns = crate::column::column_strings(args[1]);
    let pattern = patterns[if patterns.len() == 1 {
        0
    } else {
        row
    }];
    let indexes = crate::column::column_integers(args[2]);
    if crate::column::column_kind(args[1]) is Int32 || crate::column::column_kind(args[1]) is Other {
        error matches RegexpExtractError::PatternType { data_type } && data_type@
            == crate::column::column_type_text(args[1])
    } else {
        match crate::pattern::regex_new(pattern->0, usize::BITS) {
            Err(cause) => error matches RegexpExtractError::InvalidPattern {
                pattern: named,
                error: text,
            } && named@ == pattern->0 && text@ == crate::pattern::regex_error_text(cause),
            Ok(regex) => error matches RegexpExtractError::InvalidGroupIndex { index, group_count } && {
                &&& args.len() == 2 ==> index == 1
                &&& args.len() == 3 ==> indexes[if indexes.len() == 1 {
                    0
                } else {
                    row
                }] == Some(index)
                &&& group_count + 1 == crate::pattern::regex_captures_len(regex)
            },
        }
    }
}

/// A call does not fail without a reason: with the right number and types of arguments, and no row that
/// gives a reason to fail, it succeeds.
pub proof fn law_call_without_reason_to_fail_succeeds(
    args: &[Column],
    r: Result<Column, RegexpExtractError>,
)
    requires
        call_ensures(spark_regexp_extract, (args,), r) || call_ensures(
            try_spark_regexp_extract,
            (args,),
            Some(r),
        ),
        args@.len() == 2 || args@.len() == 3,
        crate::column::column_kind(args@[0]) is Utf8 || crate::column::column_kind(
            args@[0],
        ) is LargeUtf8 || crate::column::column_kind(args@[0]) is Utf8View,
        args@.len() == 3 ==> crate::column::column_kind(args@[2]) is Int32,
        crate::column::column_strings(args@[0]).len() == crate::column::column_rows(args@[0]),
        forall|regex: Regex| #[trigger] crate::pattern::regex_captures_len(regex) >= 1,
        forall|row: int|
            0 <= row < crate::column::column_rows(args@[0]) ==> #[trigger] goes_through(args@, row),
    ensures
        r is Ok,
{
    if let Err(error) = r {
        law_failure_names_its_reason(args, error);
    }
}

/// A call that succeeds has no row that gives a reason to fail.
pub proof fn law_call_with_reason_to_fail_fails(args: &[Column], column: Column, row: int)
    requires
        call_ensures(spark_regexp_extract, (args,), Ok(column)) || call_ensures(
            try_spark_regexp_extract,
            (args,),
            Some(Ok(column)),
        ),
        crate::column::column_strings(args@[0]).len() == crate::column::column_rows(args@[0]),
        forall|regex: Regex| #[trigger] crate::pattern::regex_captures_len(regex) >= 1,
        0 <= row < crate::column::column_rows(args@[0]),
    ensures
        goes_through(args@, row),
{
    crate::laws::law_each_row_by_itself(args@);
    assert(crate::extract::row_outcome(args@, row) == Ok::<Option<Seq<char>>, Fault>(
        crate::column::column_strings(column)[row],
    ));
}

// ---------------------------------------------------------------------------------------------
// Which calls can be made
// ---------------------------------------------------------------------------------------------
/// No more values are too long for their views than there are values.
pub(crate) proof fn lemma_long_values(values: Seq<Option<Seq<char>>>)
    ensures
        crate::builder::long_values(values) <= values.len(),
    decreases values.len(),
{
    if values.len() > 0 {
        lemma_long_values(values.drop_last());
    }
}

/// A call can be made with columns of patterns and indexes that have a row for each subject, or a single
/// one. Of a column of views it takes that it has no more rows than 32 bits can number, and no value of
/// 4 GiB. The call is then not refused.
pub proof fn law_aligned_calls_can_be_made(args: &[Column])
    requires
        forall|i: int|
            0 < i < args@.len() ==> crate::column::column_rows(#[trigger] args@[i]) == 1
                || crate::column::column_rows(args@[i]) >= crate::column::column_rows(args@[0]),
        crate::column::column_strings(args@[0]).len() == crate::column::column_rows(args@[0]),
        crate::column::column_kind(args@[0]) is Utf8View ==> {
            &&& crate::column::column_rows(args@[0]) <= u32::MAX
            &&& forall|row: int|
                0 <= row < crate::column::column_rows(args@[0]) ==> (
                #[trigger] crate::column::column_strings(args@[0])[row] matches Some(text)
                    ==> encode_utf8(text).len() < u32::MAX)
        },
    ensures
        call_requires(spark_regexp_extract, (args,)),
        forall|r: Option<Result<Column, RegexpExtractError>>| #[trigger]
            call_ensures(try_spark_regexp_extract, (args,), r) ==> r is Some,
{
    if args@.len() == 2 || args@.len() == 3 {
        let subjects = crate::column::column_strings(args@[0]);
        assert(args@[1] == args@[1]);
        assert(args@.len() == 3 ==> args@[2] == args@[2]);
        assert forall|row: int| 0 <= row < crate::column::column_rows(args@[0]) implies
            #[trigger] crate::extract::row_readable(args@, row) by {}
        if crate::column::column_kind(args@[0]) is Utf8View {
            lemma_long_values(subjects);
            assert(Seq::<Option<Seq<char>>>::empty() + subjects =~= subjects);
            assert(crate::builder::views_fit(subjects));
        }
        assert(crate::extract::workable(args@));
    }
}

/// A call that fails on the number or the type of its arguments can always be made.
pub proof fn law_wrong_arguments_can_be_passed(args: &[Column])
    requires
        ({
            ||| args@.len() != 2 && args@.len() != 3
            ||| crate::column::column_kind(args@[0]) is Int32
            ||| crate::column::column_kind(args@[0]) is Other
            ||| args@.len() == 3 && crate::column::column_kind(args@[2]) !is Int32
        }),
    ensures
        call_requires(spark_regexp_extract, (args,)),
        forall|r: Option<Result<Column, RegexpExtractError>>| #[trigger]
            call_ensures(try_spark_regexp_extract, (args,), r) ==> r is Some,
{
}

/// Whether a row can be read: where its subject is not null, there is a pattern for it, if the patterns
/// are strings; and where the pattern is not null either, there is an index for it.
pub open spec fn lies_within(args: Seq<Column>, row: int) -> bool {
    let patterns = crate::column::column_strings(args[1]);
    ||| crate::column::column_strings(args[0])[row] is None
    ||| crate::column::column_kind(args[1]) is Int32
    ||| crate::column::column_kind(args[1]) is Other
    ||| {
        &&& crate::column::column_rows(args[1]) == 1 || row < crate::column::column_rows(args[1])
        &&& {
            ||| args.len() == 2
            ||| patterns[if patterns.len() == 1 {
                0
            } else {
                row
            }] is None
            ||| crate::column::column_rows(args[2]) == 1
            ||| row < crate::column::column_rows(args[2])
        }
    }
}

/// Rows that all succeed give no reason to fail.
proof fn lemma_rows_go_through(args: Seq<Column>, row: int)
    requires
        args.len() == 2 || args.len() == 3,
        crate::column::column_kind(args[0]).is_string(),
        crate::column::column_strings(args[0]).len() == crate::column::column_rows(args[0]),
        forall|regex: Regex| #[trigger] crate::pattern::regex_captures_len(regex) >= 1,
        0 <= row <= crate::column::column_rows(args[0]),
    ensures
        crate::extract::collect(crate::extract::row_outcomes(args).take(row)) is Ok <==> forall|
            before: int,
        |
            0 <= before < row ==> #[trigger] goes_through(args, before),
{
    let rows = crate::extract::row_outcomes(args).take(row);
    crate::laws::law_first_failure_decides(rows);
    assert forall|before: int| 0 <= before < row implies (rows[before] is Ok <==> goes_through(
        args,
        before,
    )) by {
        assert(rows[before] == crate::extract::row_outcome(args, before));
    }
    if forall|before: int| 0 <= before < row ==> #[trigger] goes_through(args, before) {
        assert forall|before: int| 0 <= before < row implies #[trigger] rows[before] is Ok by {
            assert(goes_through(args, before));
        }
    }
    if crate::extract::collect(rows) is Ok {
        assert forall|before: int| 0 <= before < row implies #[trigger] goes_through(
            args,
            before,
        ) by {
            assert(rows[before] is Ok);
        }
    }
}

/// A call that is tested is refused exactly where a row is not there that would be read, which is up to
/// the first row that gives a reason to fail. For a column of views this holds within the limits of the law before.
pub proof fn law_call_is_refused_where_a_row_is_missing(
    args: &[Column],
    r: Option<Result<Column, RegexpExtractError>>,
)
    requires
        call_ensures(try_spark_regexp_extract, (args,), r),
        args@.len() == 2 || args@.len() == 3,
        crate::column::column_kind(args@[0]) is Utf8 || crate::column::column_kind(
            args@[0],
        ) is LargeUtf8 || crate::column::column_kind(args@[0]) is Utf8View,
        args@.len() == 3 ==> crate::column::column_kind(args@[2]) is Int32,
        crate::column::column_strings(args@[0]).len() == crate::column::column_rows(args@[0]),
        forall|regex: Regex| #[trigger] crate::pattern::regex_captures_len(regex) >= 1,
        crate::column::column_kind(args@[0]) is Utf8View ==> {
            &&& crate::column::column_rows(args@[0]) <= u32::MAX
            &&& forall|row: int|
                0 <= row < crate::column::column_rows(args@[0]) ==> (
                #[trigger] crate::column::column_strings(args@[0])[row] matches Some(text)
                    ==> encode_utf8(text).len() < u32::MAX)
        },
    ensures
        r is None <==> exists|row: int|
            {
                &&& 0 <= row < crate::column::column_rows(args@[0])
                &&& !(#[trigger] lies_within(args@, row))
                &&& forall|before: int| 0 <= before < row ==> #[trigger] goes_through(args@, before)
            },
{
    let subjects = crate::column::column_strings(args@[0]);
    if crate::column::column_kind(args@[0]) is Utf8View {
        lemma_long_values(subjects);
        assert(Seq::<Option<Seq<char>>>::empty() + subjects =~= subjects);
        assert(crate::builder::views_fit(subjects));
    }
    assert forall|row: int| 0 <= row < crate::column::column_rows(args@[0]) implies (
    crate::extract::row_readable(args@, row) <==> lies_within(args@, row)) by {}
    if crate::extract::readable(args@) {
        assert forall|row: int|
            0 <= row < crate::column::column_rows(args@[0]) && (forall|before: int|
                0 <= before < row ==> #[trigger] goes_through(
                    args@,
                    before,
                )) implies #[trigger] lies_within(args@, row) by {
            lemma_rows_go_through(args@, row);
            assert(crate::extract::row_readable(args@, row));
        }
    } else {
        let row = choose|row: int|
            0 <= row < crate::column::column_rows(args@[0]) && crate::extract::collect(
                crate::extract::row_outcomes(args@).take(row),
            ) is Ok && !(#[trigger] crate::extract::row_readable(args@, row));
        lemma_rows_go_through(args@, row);
        assert(!lies_within(args@, row));
    }
}

/// A call that is tested and succeeds reads no row past the end of a column: where a subject is not
/// null, there is a pattern for it, and where the pattern is not null either, there is an index.
pub proof fn law_no_row_is_read_past_the_end(args: &[Column], column: Column, row: int)
    requires
        call_ensures(try_spark_regexp_extract, (args,), Some(Ok(column))),
        crate::column::column_strings(args@[0]).len() == crate::column::column_rows(args@[0]),
        0 <= row < crate::column::column_rows(args@[0]),
        crate::column::column_strings(args@[0])[row] is Some,
    ensures
        crate::column::column_rows(args@[1]) == 1 || row < crate::column::column_rows(args@[1]),
        args@.len() == 3 && crate::column::column_strings(
            args@[1],
        )[if crate::column::column_strings(args@[1]).len() == 1 {
            0
        } else {
            row
        }] is Some ==> crate::column::column_rows(args@[2]) == 1 || row
            < crate::column::column_rows(args@[2]),
{
    let rows = crate::extract::row_outcomes(args@);
    crate::laws::law_first_failure_decides(rows);
    crate::laws::law_first_failure_decides(rows.take(row));
    assert(rows[row] == crate::extract::row_outcome(args@, row));
    assert(crate::extract::row_readable(args@, row));
}

// ---------------------------------------------------------------------------------------------
// Pieces
// ---------------------------------------------------------------------------------------------
/// The text of a byte range is a run of characters.
proof fn lemma_span_is_substring(subject: Seq<char>, span: (usize, usize))
    requires
        crate::pattern::span_fits(subject, span),
    ensures
        exists|first: int, last: int|
            0 <= first <= last <= subject.len() && #[trigger] subject.subrange(first, last)
                == crate::pattern::span_text(subject, span),
{
    let bytes = encode_utf8(subject);
    let start = span.0 as int;
    let end = span.1 as int;
    let prefix = bytes.subrange(0, end);
    encode_utf8_valid_utf8(subject);
    encode_utf8_decode_utf8(subject);
    crate::pattern::lemma_boundary_of_prefix(bytes, start, end);
    decode_utf8_split(bytes, end);
    decode_utf8_split(prefix, start);
    assert(prefix.subrange(start, prefix.len() as int) =~= bytes.subrange(start, end));
    let before = decode_utf8(prefix.subrange(0, start));
    let text = decode_utf8(bytes.subrange(start, end));
    let after = decode_utf8(bytes.subrange(end, bytes.len() as int));
    assert(subject =~= before + text + after);
    let first = before.len() as int;
    let last = first + text.len();
    assert(subject.subrange(first, last) =~= text);
}

/// Each value is a run of characters of the subject of its row, in their order.
pub proof fn law_each_value_is_a_run_of_its_subject(
    args: &[Column],
    column: Column,
    row: int,
    subject: Seq<char>,
    text: Seq<char>,
)
    requires
        call_ensures(spark_regexp_extract, (args,), Ok(column)) || call_ensures(
            try_spark_regexp_extract,
            (args,),
            Some(Ok(column)),
        ),
        0 <= row < crate::column::column_strings(column).len(),
        crate::column::column_strings(args@[0])[row] == Some(subject),
        crate::column::column_strings(column)[row] == Some(text),
    ensures
        exists|first: int, last: int|
            0 <= first <= last <= subject.len() && #[trigger] subject.subrange(first, last) == text,
{
    let values = crate::column::column_strings(column);
    assert(values[row] == Some(text));
    assert(crate::pattern::piece_of(text, subject));
    if text == Seq::<char>::empty() {
        assert(subject.subrange(0, 0) =~= text);
    } else {
        let span = choose|span: (usize, usize)| #[trigger]
            crate::pattern::span_fits(subject, span) && text == crate::pattern::span_text(
                subject,
                span,
            );
        lemma_span_is_substring(subject, span);
    }
}

// ---------------------------------------------------------------------------------------------
// A builder that holds rows already
// ---------------------------------------------------------------------------------------------
/// Extracting into a builder leaves the rows that it holds in front, and adds one row for each subject,
/// of the type that the builder builds. Each added row without nulls holds what the pattern of the row
/// finds in its subject, and each with one is null. Without indexes it is group one.
pub proof fn law_extraction_adds_to_the_builder<B: RegexpExtractBuilder>(
    args: &[Column],
    builder: B,
    column: Column,
    row: int,
    subject: Option<Seq<char>>,
    pattern: Option<Seq<char>>,
    idx: Option<i32>,
)
    requires
        call_ensures(regexp_extract_with_builder::<B>, (args, builder), Ok(column)),
        args@.len() >= 2,
        crate::column::column_kind(args@[0]) is Utf8 || crate::column::column_kind(
            args@[0],
        ) is LargeUtf8 || crate::column::column_kind(args@[0]) is Utf8View,
        crate::column::column_kind(args@[1]) is Utf8 || crate::column::column_kind(
            args@[1],
        ) is LargeUtf8 || crate::column::column_kind(args@[1]) is Utf8View,
        crate::column::column_strings(args@[0]).len() == crate::column::column_rows(args@[0]),
        0 <= row < crate::column::column_rows(args@[0]),
        crate::column::column_strings(args@[0])[row] == subject,
        crate::column::column_strings(args@[1])[if crate::column::column_strings(args@[1]).len()
            == 1 {
            0
        } else {
            row
        }] == pattern,
        args@.len() != 3 ==> idx == Some(1i32),
        args@.len() == 3 ==> crate::column::column_integers(
            args@[2],
        )[if crate::column::column_integers(args@[2]).len() == 1 {
            0
        } else {
            row
        }] == idx,
    ensures
        ({
            let held = builder.rows();
            let written = crate::column::column_strings(column);
            let value = written[held.len() + row];
            &&& crate::column::column_kind(column) == B::kind()
            &&& crate::column::column_rows(column) == held.len() + crate::column::column_rows(
                args@[0],
            )
            &&& written.len() == held.len() + crate::column::column_rows(args@[0])
            &&& written.subrange(0, held.len() as int) == held
            &&& value is None <==> subject is None || pattern is None || idx is None
            &&& value matches Some(text) ==> {
                &&& crate::pattern::regex_new(pattern->0, usize::BITS) matches Ok(regex)
                &&& match crate::pattern::regex_find(regex, subject->0) {
                    None => text == Seq::<char>::empty(),
                    Some((start, end)) => {
                        &&& idx == Some(0i32) ==> text == decode_utf8(
                            encode_utf8(subject->0).subrange(start as int, end as int),
                        )
                        &&& crate::pattern::regex_captures_len(regex) >= 1 ==> 0 <= idx->0
                            < crate::pattern::regex_captures_len(regex)
                        &&& 0 < idx->0 < crate::pattern::regex_captures_len(regex)
                            ==> match crate::pattern::regex_spans(
                            regex,
                            subject->0,
                        )[idx->0 as int] {
                            None => text == Seq::<char>::empty(),
                            Some((first, last)) => text == decode_utf8(
                                encode_utf8(subject->0).subrange(first as int, last as int),
                            ),
                        }
                    },
                }
            }
        }),
{
    let rows = crate::extract::row_outcomes(args@);
    crate::laws::law_first_failure_decides(rows);
    assert(rows[row] == crate::extract::row_outcome(args@, row));
    assert(crate::column::column_strings(column).subrange(0, builder.rows().len() as int)
        =~= builder.rows());
}

/// Extracting into a builder is the call on the columns: it writes the strings that the call gives, behind
/// those that the builder holds, or it fails for the same reason. And a call that is tested is the call
/// that is not.
pub proof fn law_calls_agree<B: RegexpExtractBuilder>(
    args: &[Column],
    builder: B,
    built: Result<Column, RegexpExtractError>,
    called: Result<Column, RegexpExtractError>,
    tested: Option<Result<Column, RegexpExtractError>>,
)
    requires
        args@.len() == 2 || args@.len() == 3,
        crate::column::column_kind(args@[0]) is Utf8 || crate::column::column_kind(
            args@[0],
        ) is LargeUtf8 || crate::column::column_kind(args@[0]) is Utf8View,
        call_ensures(regexp_extract_with_builder::<B>, (args, builder), built),
        call_ensures(spark_regexp_extract, (args,), called),
        call_ensures(try_spark_regexp_extract, (args,), tested),
    ensures
        match (built, called) {
            (Ok(column), Ok(other)) => crate::column::column_strings(column) == builder.rows()
                + crate::column::column_strings(other),
            (Err(error), Err(other)) => error@ == other@,
            _ => false,
        },
        match (tested, called) {
            (None, _) => true,
            (Some(Ok(column)), Ok(other)) => {
                &&& crate::column::column_kind(column) == crate::column::column_kind(other)
                &&& crate::column::column_rows(column) == crate::column::column_rows(other)
                &&& crate::column::column_strings(column) == crate::column::column_strings(other)
            },
            (Some(Err(error)), Err(other)) => error@ == other@,
            _ => false,
        },
{
}

} // verus!
