//! What can go wrong in `regexp_extract`, and how each failure reads.

use crate::text::{debug_text, decimal_text, size_text};
use datafusion_common::DataFusionError;
use vstd::prelude::*;
use vstd::string::*;

verus! {

/// Declares `datafusion_common::DataFusionError`, which is carried and never looked into.
#[verifier::external_type_specification]
#[verifier::external_body]
pub struct ExDataFusionError(DataFusionError);

/// A failure of `regexp_extract`.
#[derive(Debug)]
pub enum RegexpExtractError {
    /// The function was called with `count` arguments, neither two nor three.
    ArgumentCount { count: usize },
    /// The subject column holds no strings.
    SubjectType { data_type: String },
    /// The pattern column holds no strings.
    PatternType { data_type: String },
    /// The group index column does not hold 32-bit integers; `text` is how `cause` displays itself.
    IndexType { data_type: String, cause: DataFusionError, text: String },
    /// A pattern is not a regular expression that can be compiled.
    InvalidPattern { pattern: String, error: String },
    /// A match exists, and its pattern has no group `index`.
    InvalidGroupIndex { index: i32, group_count: usize },
    /// The return type was asked for without the argument fields.
    ReturnTypeCalled,
}

/// What a refusal to take a column for one of 32-bit integers displays.
pub uninterp spec fn cast_error_text(cause: DataFusionError) -> Seq<char>;

/// The mathematical counterpart of [`RegexpExtractError`]; a cause is held by what it displays.
pub enum Fault {
    ArgumentCount { count: nat },
    SubjectType { data_type: Seq<char> },
    PatternType { data_type: Seq<char> },
    IndexType { data_type: Seq<char>, cause: Seq<char>, text: Seq<char> },
    InvalidPattern { pattern: Seq<char>, error: Seq<char> },
    InvalidGroupIndex { index: i32, group_count: nat },
    ReturnTypeCalled,
}

impl View for RegexpExtractError {
    type V = Fault;

    open spec fn view(&self) -> Fault {
        match *self {
            RegexpExtractError::ArgumentCount { count } => Fault::ArgumentCount {
                count: count as nat,
            },
            RegexpExtractError::SubjectType { data_type } => Fault::SubjectType {
                data_type: data_type@,
            },
            RegexpExtractError::PatternType { data_type } => Fault::PatternType {
                data_type: data_type@,
            },
            RegexpExtractError::IndexType { data_type, cause, text } => Fault::IndexType {
                data_type: data_type@,
                cause: cast_error_text(cause),
                text: text@,
            },
            RegexpExtractError::InvalidPattern { pattern, error } => Fault::InvalidPattern {
                pattern: pattern@,
                error: error@,
            },
            RegexpExtractError::InvalidGroupIndex { index, group_count } =>
                Fault::InvalidGroupIndex { index, group_count: group_count as nat },
            RegexpExtractError::ReturnTypeCalled => Fault::ReturnTypeCalled,
        }
    }
}

/// The message of an error of execution.
pub uninterp spec fn execution_message(error: DataFusionError) -> Option<Seq<char>>;

/// The message of an internal error.
pub uninterp spec fn internal_message(error: DataFusionError) -> Option<Seq<char>>;

/// Makes a `DataFusionError::Execution`.
///
/// Trusted: the error carries the message.
#[verifier::external_body]
fn execution_error(message: String) -> (r: DataFusionError)
    ensures
        execution_message(r) == Some(message@),
{
    DataFusionError::Execution(message)
}

/// Makes a `DataFusionError::Internal`.
///
/// Trusted: the error carries the message.
#[verifier::external_body]
fn internal_error(message: String) -> (r: DataFusionError)
    ensures
        internal_message(r) == Some(message@),
{
    DataFusionError::Internal(message)
}

impl Fault {
    /// Whether `error` reports this failure to the query engine: a column of indexes that holds no
    /// integers by what refused it, a call that should not be made as an internal error, and all else
    /// as an error of execution.
    pub open spec fn reported_by(self, error: DataFusionError) -> bool {
        match self {
            Fault::IndexType { cause, .. } => cast_error_text(error) == cause,
            Fault::ReturnTypeCalled => internal_message(error) == Some(self.text()),
            _ => execution_message(error) == Some(self.text()),
        }
    }

    /// The text that describes this failure.
    pub open spec fn text(self) -> Seq<char> {
        match self {
            Fault::ArgumentCount { count } =>
                "regexp_extract requires two or three arguments, got "@ + crate::text::decimal(
                    count as int,
                ),
            Fault::SubjectType { data_type } =>
                "regexp_extract does not support subject type "@ + data_type
                    + "; expected Utf8, LargeUtf8, or Utf8View"@,
            Fault::PatternType { data_type } =>
                "regexp_extract does not support pattern type "@ + data_type
                    + "; expected Utf8, LargeUtf8, or Utf8View"@,
            Fault::IndexType { text, .. } => text,
            Fault::InvalidPattern { pattern, error } =>
                "Invalid regexp pattern for regexp_extract: "@ + crate::text::str_debug(pattern)
                    + ": "@ + error,
            Fault::InvalidGroupIndex { index, group_count } =>
                "Invalid regexp group index "@ + crate::text::decimal(index as int)
                    + " for regexp_extract: pattern has "@ + crate::text::decimal(
                    group_count as int,
                ) + " capturing groups"@,
            Fault::ReturnTypeCalled => "return_type should not be called for Spark regexp_extract"@,
        }
    }
}

impl RegexpExtractError {
    /// Describes this failure.
    pub fn message(&self) -> (r: String)
        ensures
            r@ == self@.text(),
    {
        match self {
            RegexpExtractError::ArgumentCount { count } => {
                let mut r = "regexp_extract requires two or three arguments, got ".to_owned();
                r.append(size_text(*count).as_str());
                r
            },
            RegexpExtractError::SubjectType { data_type } => {
                let mut r = "regexp_extract does not support subject type ".to_owned();
                r.append(data_type.as_str());
                r.append("; expected Utf8, LargeUtf8, or Utf8View");
                r
            },
            RegexpExtractError::PatternType { data_type } => {
                let mut r = "regexp_extract does not support pattern type ".to_owned();
                r.append(data_type.as_str());
                r.append("; expected Utf8, LargeUtf8, or Utf8View");
                r
            },
            RegexpExtractError::IndexType { text, .. } => text.clone(),
            RegexpExtractError::InvalidPattern { pattern, error } => {
                let mut r = "Invalid regexp pattern for regexp_extract: ".to_owned();
                r.append(debug_text(pattern.as_str()).as_str());
                r.append(": ");
                r.append(error.as_str());
                r
            },
            RegexpExtractError::InvalidGroupIndex { index, group_count } => {
                let mut r = "Invalid regexp group index ".to_owned();
                r.append(decimal_text(*index as i64).as_str());
                r.append(" for regexp_extract: pattern has ");
                r.append(size_text(*group_count).as_str());
                r.append(" capturing groups");
                r
            },
            RegexpExtractError::ReturnTypeCalled => {
                "return_type should not be called for Spark regexp_extract".to_owned()
            },
        }
    }

    /// The error that reports this failure to the query engine.
    pub fn into_engine_error(self) -> (r: DataFusionError)
        ensures
            self@.reported_by(r),
    {
        let message = self.message();
        match self {
            RegexpExtractError::IndexType { cause, .. } => cause,
            RegexpExtractError::ReturnTypeCalled => internal_error(message),
            _ => execution_error(message),
        }
    }
}

} // verus!
