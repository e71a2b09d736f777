//! Laws of the parts: the texts of failures, the numerals in them, the signature and the field of the
//! result, and the steps of an extraction.

use crate::column::Column;
use crate::error::RegexpExtractError;
use crate::extract::{singular_or_row, string_at};
use crate::function::{ArgumentHint, CastTarget, FunctionVolatility, SparkRegexpExtract, TypeClass};
use crate::pattern::{
    accept_pattern, group_text, select_group, validate_group_index, whole_match_text,
};
use crate::text::{decimal_text, size_text};
use arrow::datatypes::{DataType, FieldRef};
use datafusion_common::DataFusionError;
use datafusion_expr::Signature;
use regex::Regex;
use vstd::prelude::*;
use vstd::utf8::*;

verus! {

// ---------------------------------------------------------------------------------------------
// Numerals
// ---------------------------------------------------------------------------------------------
/// The number that a row of decimal digits denotes.
pub open spec fn denoted(digits: Seq<char>) -> int
    decreases digits.len(),
{
    if digits.len() == 0 {
        0
    } else {
        10 * denoted(digits.drop_last()) + (digits.last() as int - '0' as int)
    }
}

/// Whether a text is a row of decimal digits as it is usually written: at least one, and no zero in front
/// of others.
pub open spec fn is_numeral(digits: Seq<char>) -> bool {
    &&& digits.len() > 0
    &&& digits.len() > 1 ==> digits[0] != '0'
    &&& forall|i: int| 0 <= i < digits.len() ==> '0' <= #[trigger] digits[i] <= '9'
}

/// The digits of a natural number denote it.
proof fn lemma_digits(n: int)
    requires
        0 <= n,
    ensures
        is_numeral(crate::text::decimal(n)),
        n > 0 ==> crate::text::decimal(n)[0] != '0',
        denoted(crate::text::decimal(n)) == n,
    decreases n,
{
    let digits = crate::text::decimal(n);
    if n < 10 {
        assert(digits =~= seq![crate::text::digit(n)]);
        assert(digits.drop_last() =~= Seq::empty());
        assert(denoted(digits.drop_last()) == 0);
        assert(digits.last() as int == '0' as int + n);
    } else {
        lemma_digits(n / 10);
        let front = crate::text::decimal(n / 10);
        assert(digits.drop_last() =~= front);
        assert(digits.last() as int == '0' as int + n % 10);
        assert(digits[0] == front[0]);
        assert forall|i: int| 0 <= i < digits.len() implies '0' <= #[trigger] digits[i] <= '9' by {
            if i < front.len() {
                assert(digits[i] == front[i]);
            }
        }
    }
}

/// A numeral denotes its number: a size by its digits, and a negative number by a minus in front of the
/// digits of its opposite.
pub proof fn law_numerals_denote_their_number(n: i64, text: String, size: usize, size_numeral: String)
    requires
        call_ensures(decimal_text, (n,), text),
        call_ensures(size_text, (size,), size_numeral),
    ensures
        n >= 0 ==> is_numeral(text@) && denoted(text@) == n,
        n < 0 ==> {
            &&& text@.len() > 1
            &&& text@[0] == '-'
            &&& is_numeral(text@.subrange(1, text@.len() as int))
            &&& denoted(text@.subrange(1, text@.len() as int)) == -n
        },
        is_numeral(size_numeral@),
        denoted(size_numeral@) == size,
{
    lemma_digits(size as int);
    if n >= 0 {
        lemma_digits(n as int);
    } else {
        lemma_digits(-n);
        assert(text@ == seq!['-'] + crate::text::decimal(-n));
        assert(text@.subrange(1, text@.len() as int) =~= crate::text::decimal(-n));
    }
}

// ---------------------------------------------------------------------------------------------
// Failures
// ---------------------------------------------------------------------------------------------
/// Each failure is described by a sentence of its own, which quotes what it is about. The numbers in it
/// are written out in decimal.
pub proof fn law_messages_describe_failures(error: RegexpExtractError, message: String)
    requires
        call_ensures(RegexpExtractError::message, (&error,), message),
    ensures
        match error {
            RegexpExtractError::ArgumentCount { count } => forall|numeral: String| #[trigger]
                call_ensures(size_text, (count,), numeral) ==> message@
                    == "regexp_extract requires two or three arguments, got "@ + numeral@,
            RegexpExtractError::SubjectType { data_type } => message@
                == "regexp_extract does not support subject type "@ + data_type@
                + "; expected Utf8, LargeUtf8, or Utf8View"@,
            RegexpExtractError::PatternType { data_type } => message@
                == "regexp_extract does not support pattern type "@ + data_type@
                + "; expected Utf8, LargeUtf8, or Utf8View"@,
            RegexpExtractError::IndexType { text, .. } => message@ == text@,
            RegexpExtractError::InvalidPattern { pattern, error: cause } => message@
                == "Invalid regexp pattern for regexp_extract: "@ + crate::text::str_debug(pattern@)
                + ": "@ + cause@,
            RegexpExtractError::InvalidGroupIndex { index, group_count } => forall|
                numeral: String,
                groups: String,
            |
                #![trigger call_ensures(decimal_text, (index as i64,), numeral), call_ensures(size_text, (group_count,), groups)]
                call_ensures(decimal_text, (index as i64,), numeral) && call_ensures(
                    size_text,
                    (group_count,),
                    groups,
                ) ==> message@ == "Invalid regexp group index "@ + numeral@
                    + " for regexp_extract: pattern has "@ + groups@ + " capturing groups"@,
            RegexpExtractError::ReturnTypeCalled => message@
                == "return_type should not be called for Spark regexp_extract"@,
        },
{
}

/// The query engine is told of a failure by an error of execution that carries its description; of a
/// column of indexes that holds no integers by what refused it; and of a call for the return type by an
/// internal error.
pub proof fn law_engine_is_told_of_failures(
    error: RegexpExtractError,
    message: String,
    told: DataFusionError,
)
    requires
        call_ensures(RegexpExtractError::message, (&error,), message),
        call_ensures(RegexpExtractError::into_engine_error, (error,), told),
    ensures
        match error {
            RegexpExtractError::IndexType { cause, .. } => crate::error::cast_error_text(told)
                == crate::error::cast_error_text(cause),
            RegexpExtractError::ReturnTypeCalled => crate::error::internal_message(told) == Some(
                message@,
            ),
            _ => crate::error::execution_message(told) == Some(message@),
        },
{
}

// ---------------------------------------------------------------------------------------------
// The function
// ---------------------------------------------------------------------------------------------
/// The function takes a subject and a pattern, and optionally an index. The first two are strings, or
/// numbers, booleans, dates, times or binary data cast to strings. The index is a 32-bit integer, or
/// another integer or a string cast to one. For the same arguments the function gives the same, and its
/// parameters are called `str`, `regexp` and `idx`.
pub proof fn law_signature_takes_strings_and_an_index(
    function: SparkRegexpExtract,
    signature: &Signature,
)
    requires
        call_ensures(SparkRegexpExtract::new, (), function) || call_ensures(
            <SparkRegexpExtract as Default>::default,
            (),
            function,
        ),
        call_ensures(SparkRegexpExtract::signature, (&function,), signature),
    ensures
        crate::function::signature_shape(*signature) matches Some(shape) && {
            &&& shape.volatility == FunctionVolatility::Immutable
            &&& shape.parameter_names == Some(seq!["str"@, "regexp"@, "idx"@])
            &&& shape.alternatives.len() == 2
            &&& shape.alternatives[0].len() == 2
            &&& shape.alternatives[1].len() == 3
            &&& forall|alternative: int, position: int|
                0 <= alternative < 2 && 0 <= position < 2 ==> {
                    let argument = #[trigger] shape.alternatives[alternative][position];
                    &&& argument.desired == TypeClass::NativeString
                    &&& argument.default_cast == CastTarget::String
                    &&& !argument.preserves_dictionary
                    &&& forall|class: TypeClass| #[trigger]
                        argument.sources.contains(class) <==> class != TypeClass::NativeString
                            && class != TypeClass::NativeInt32 && class != TypeClass::Integer
                }
            &&& shape.alternatives[1][2].desired == TypeClass::NativeInt32
            &&& shape.alternatives[1][2].default_cast == CastTarget::Int32
            &&& !shape.alternatives[1][2].preserves_dictionary
            &&& forall|class: TypeClass| #[trigger]
                shape.alternatives[1][2].sources.contains(class) <==> class == TypeClass::Integer
                    || class == TypeClass::NativeString
        },
{
    let shape = crate::function::signature_shape(*signature)->0;
    assert(shape == crate::function::regexp_extract_shape());
    let strings = crate::function::string_argument();
    let sources = strings.sources;
    assert forall|class: TypeClass| #[trigger] sources.contains(class) <==> class
        != TypeClass::NativeString && class != TypeClass::NativeInt32 && class
        != TypeClass::Integer by {
        assert(sources[0] == TypeClass::Numeric);
        assert(sources[1] == TypeClass::NativeBoolean);
        assert(sources[2] == TypeClass::NativeDate);
        assert(sources[3] == TypeClass::Timestamp);
        assert(sources[4] == TypeClass::Time);
        assert(sources[5] == TypeClass::Interval);
        assert(sources[6] == TypeClass::Duration);
        assert(sources[7] == TypeClass::Binary);
    }
    let indexes = crate::function::index_argument().sources;
    assert forall|class: TypeClass| #[trigger] indexes.contains(class) <==> class
        == TypeClass::Integer || class == TypeClass::NativeString by {
        assert(indexes[0] == TypeClass::Integer);
        assert(indexes[1] == TypeClass::NativeString);
    }
    assert forall|alternative: int, position: int|
        0 <= alternative < 2 && 0 <= position < 2 implies
        #[trigger] shape.alternatives[alternative][position] == strings by {}
    assert(shape.alternatives[1][2] == crate::function::index_argument());
}

/// The function goes by the name `regexp_extract`, and so does the field of its result. The field has the
/// type of the subject, and is nullable exactly if the field of an argument is. The type is not given
/// without the fields. Of the arguments, a subject that is a scalar is repeated, and the others need not
/// be.
pub proof fn law_function_describes_itself(
    function: SparkRegexpExtract,
    name: &str,
    arg_fields: &[FieldRef],
    field: Result<FieldRef, RegexpExtractError>,
    arg_types: &[DataType],
    return_type: Result<DataType, RegexpExtractError>,
    hints: Vec<ArgumentHint>,
)
    requires
        call_ensures(SparkRegexpExtract::name, (&function,), name),
        arg_fields@.len() >= 1,
        call_ensures(SparkRegexpExtract::return_field_from_args, (&function, arg_fields), field),
        call_ensures(SparkRegexpExtract::return_type, (&function, arg_types), return_type),
        call_ensures(SparkRegexpExtract::argument_hints, (&function,), hints),
    ensures
        name@ == "regexp_extract"@,
        field matches Ok(field) && {
            &&& crate::function::field_name(*field) == name@
            &&& crate::function::field_type(*field) == crate::function::field_type(*arg_fields@[0])
            &&& crate::function::field_nullable(*field) <==> exists|i: int|
                0 <= i < arg_fields@.len() && crate::function::field_nullable(
                    *#[trigger] arg_fields@[i],
                )
        },
        return_type matches Err(error) && error is ReturnTypeCalled,
        hints@.len() == 3,
        forall|i: int|
            0 <= i < 3 ==> (#[trigger] hints@[i] == ArgumentHint::AcceptsSingular <==> i > 0),
{
}

// ---------------------------------------------------------------------------------------------
// The steps of an extraction
// ---------------------------------------------------------------------------------------------
/// A single value is read at its only position, and of others each row its own. What is read is a value, a
/// null, or refused because the column holds no strings.
pub proof fn law_each_row_reads_its_own_value(
    column: Column,
    len: usize,
    row: usize,
    position: usize,
    r: Result<Option<&str>, RegexpExtractError>,
)
    requires
        call_ensures(singular_or_row, (len, row), position),
        call_ensures(string_at, (&column, row), r),
    ensures
        len == 1 ==> position == 0,
        len != 1 ==> position == row,
        match r {
            Ok(value) => {
                let strings = crate::column::column_strings(column);
                let cell = strings[if strings.len() == 1 {
                    0
                } else {
                    row as int
                }];
                &&& crate::column::column_kind(column) !is Int32
                &&& crate::column::column_kind(column) !is Other
                &&& value is None <==> cell is None
                &&& value matches Some(text) ==> cell == Some(text@)
            },
            Err(error) => {
                &&& crate::column::column_kind(column) is Int32 || crate::column::column_kind(
                    column,
                ) is Other
                &&& error matches RegexpExtractError::PatternType { data_type } && data_type@
                    == crate::column::column_type_text(column)
            },
        },
{
}

/// The text of a group is that of its byte range, and empty without one; the text of a match is the match.
pub proof fn law_text_is_that_of_the_range(
    subject: &str,
    start: usize,
    end: usize,
    text: &str,
    nothing: &str,
    found: &str,
    whole: &str,
    no_match: &str,
)
    requires
        call_ensures(group_text, (subject, Some((start, end))), text),
        call_ensures(group_text, (subject, None), nothing),
        call_ensures(whole_match_text, (Some(found),), whole),
        call_ensures(whole_match_text, (None,), no_match),
    ensures
        text@ == decode_utf8(encode_utf8(subject@).subrange(start as int, end as int)),
        nothing@ == Seq::<char>::empty(),
        whole@ == found@,
        no_match@ == Seq::<char>::empty(),
{
}

/// An index is accepted exactly if it is zero or that of a group, and then stands for itself. Without a
/// match it is not looked at. A refusal names the index and the number of groups.
pub proof fn law_index_is_looked_at_after_a_match(
    idx: i32,
    group_count: usize,
    valid: Result<usize, RegexpExtractError>,
    matched: bool,
    selected: Result<Option<usize>, RegexpExtractError>,
)
    requires
        group_count < usize::MAX,
        call_ensures(validate_group_index, (idx, group_count), valid),
        call_ensures(select_group, (matched, idx, (group_count + 1) as usize), selected),
    ensures
        valid is Ok <==> 0 <= idx && idx <= group_count,
        valid matches Ok(position) ==> position == idx,
        valid matches Err(error) ==> error matches RegexpExtractError::InvalidGroupIndex {
            index,
            group_count: named,
        } && index == idx && named == group_count,
        match selected {
            Ok(None) => !matched,
            Ok(Some(position)) => matched && valid == Ok::<usize, RegexpExtractError>(position),
            Err(error) => matched && valid is Err && error@ == valid->Err_0@,
        },
{
}

/// A pattern that compiles is taken as it compiled, and one that does not is refused with its own text
/// and with what is wrong with it.
pub proof fn law_pattern_is_taken_as_it_compiled(
    pattern: &str,
    compiled: Result<Regex, regex::Error>,
    r: Result<Regex, RegexpExtractError>,
)
    requires
        call_ensures(accept_pattern, (pattern, compiled), r),
    ensures
        match compiled {
            Ok(regex) => r == Ok::<Regex, RegexpExtractError>(regex),
            Err(cause) => r matches Err(error) && error matches RegexpExtractError::InvalidPattern {
                pattern: named,
                error: text,
            } && named@ == pattern@ && text@ == crate::pattern::regex_error_text(cause),
        },
{
}

} // verus!
