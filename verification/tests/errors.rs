use std::sync::Arc;

use arrow::array::{ArrayRef, Float64Array, Int32Array, Int64Array, StringArray};
use datafusion_common::DataFusionError;
use regex::Regex;
use spark_regexp_extract::extract::{singular_or_row, string_at};
use spark_regexp_extract::pattern::{
    accept_pattern, group_text, select_group, validate_group_index, whole_match_text,
};
use spark_regexp_extract::text::{decimal_text, size_text};
use spark_regexp_extract::{spark_regexp_extract, Column, RegexpExtractError};

fn utf8(values: Vec<&str>) -> Column {
    Column { array: Arc::new(StringArray::from(values)) as ArrayRef }
}

fn int32(values: Vec<i32>) -> Column {
    Column { array: Arc::new(Int32Array::from(values)) as ArrayRef }
}

#[test]
fn argument_counts_are_refused() {
    for count in [0, 1, 4] {
        let args: Vec<Column> = (0..count).map(|_| utf8(vec!["a"])).collect();
        let error = spark_regexp_extract(&args).unwrap_err();
        assert!(matches!(error, RegexpExtractError::ArgumentCount { .. }));
        assert_eq!(
            error.message(),
            format!("regexp_extract requires two or three arguments, got {count}")
        );
    }
}

#[test]
fn subject_types_are_refused() {
    let error = spark_regexp_extract(&[int32(vec![1]), utf8(vec!["a"])]).unwrap_err();
    assert!(matches!(error, RegexpExtractError::SubjectType { .. }));
    assert_eq!(
        error.message(),
        "regexp_extract does not support subject type Int32; expected Utf8, LargeUtf8, or Utf8View"
    );
}

#[test]
fn pattern_types_are_refused() {
    let floats = Column { array: Arc::new(Float64Array::from(vec![1.5])) as ArrayRef };
    let error = spark_regexp_extract(&[utf8(vec!["a"]), floats]).unwrap_err();
    assert!(matches!(error, RegexpExtractError::PatternType { .. }));
    assert_eq!(
        error.message(),
        "regexp_extract does not support pattern type Float64; expected Utf8, LargeUtf8, or Utf8View"
    );
    // A null subject comes first, and hides the type of the pattern.
    let null = Column { array: Arc::new(StringArray::from(vec![None::<&str>])) as ArrayRef };
    let column = spark_regexp_extract(&[null, int32(vec![1])]).unwrap();
    assert_eq!(column.array.null_count(), 1);
}

#[test]
fn index_types_are_refused() {
    let longs = Column { array: Arc::new(Int64Array::from(vec![1])) as ArrayRef };
    let error = spark_regexp_extract(&[utf8(vec!["a"]), utf8(vec!["("]), longs]).unwrap_err();
    assert!(error.message().contains("could not cast array of type Int64"));
    match error {
        RegexpExtractError::IndexType { data_type, cause, text } => {
            assert_eq!(data_type, "Int64");
            assert_eq!(text, cause.to_string());
            assert!(text.starts_with("Internal error: could not cast array of type Int64 to "));
        }
        other => panic!("{other:?}"),
    }
}

#[test]
fn invalid_patterns_are_quoted() {
    let pattern = "a(\"\n";
    let error = spark_regexp_extract(&[utf8(vec!["a"]), utf8(vec![pattern])]).unwrap_err();
    let cause = Regex::new(pattern).unwrap_err().to_string();
    assert_eq!(
        error.message(),
        format!("Invalid regexp pattern for regexp_extract: \"a(\\\"\\n\": {cause}")
    );
    // A pattern that compiles to too much is refused as well.
    let error = spark_regexp_extract(&[utf8(vec!["a"]), utf8(vec![r"\w{1000}"])]).unwrap_err();
    assert!(error.message().contains("Compiled regex exceeds size limit"));
}

#[test]
fn invalid_group_indexes_are_named() {
    let error =
        spark_regexp_extract(&[utf8(vec!["ab"]), utf8(vec!["(a)(b)"]), int32(vec![-13])]).unwrap_err();
    assert_eq!(
        error.message(),
        "Invalid regexp group index -13 for regexp_extract: pattern has 2 capturing groups"
    );
    let error = spark_regexp_extract(&[utf8(vec!["ab"]), utf8(vec!["ab"])]).unwrap_err();
    assert_eq!(
        error.message(),
        "Invalid regexp group index 1 for regexp_extract: pattern has 0 capturing groups"
    );
}

#[test]
fn group_indexes_are_validated() {
    assert_eq!(validate_group_index(0, 0).unwrap(), 0);
    assert_eq!(validate_group_index(3, 3).unwrap(), 3);
    assert!(matches!(
        validate_group_index(4, 3),
        Err(RegexpExtractError::InvalidGroupIndex { index: 4, group_count: 3 })
    ));
    assert!(matches!(
        validate_group_index(i32::MIN, 3),
        Err(RegexpExtractError::InvalidGroupIndex { index: i32::MIN, group_count: 3 })
    ));
}

#[test]
fn groups_are_selected_after_a_match_only() {
    assert_eq!(select_group(false, -5, 1).unwrap(), None);
    assert_eq!(select_group(true, 1, 2).unwrap(), Some(1));
    assert_eq!(select_group(true, 0, 1).unwrap(), Some(0));
    assert!(matches!(
        select_group(true, 2, 2),
        Err(RegexpExtractError::InvalidGroupIndex { index: 2, group_count: 1 })
    ));
}

#[test]
fn group_texts_are_cut_out() {
    assert_eq!(group_text("h\u{e9}llo", Some((1, 3))), "\u{e9}");
    assert_eq!(group_text("hello", Some((5, 5))), "");
    assert_eq!(group_text("hello", Some((0, 5))), "hello");
    assert_eq!(group_text("hello", None), "");
    assert_eq!(whole_match_text(Some("ell")), "ell");
    assert_eq!(whole_match_text(None), "");
}

#[test]
fn patterns_are_accepted_as_they_compile() {
    assert_eq!(accept_pattern("a+", Regex::new("a+")).unwrap().as_str(), "a+");
    let error = accept_pattern("(", Regex::new("(")).unwrap_err();
    match error {
        RegexpExtractError::InvalidPattern { pattern, error } => {
            assert_eq!(pattern, "(");
            assert_eq!(error, Regex::new("(").unwrap_err().to_string());
        }
        other => panic!("{other:?}"),
    }
}

#[test]
fn single_values_are_read_for_every_row() {
    assert_eq!(singular_or_row(1, 7), 0);
    assert_eq!(singular_or_row(2, 1), 1);
    assert_eq!(singular_or_row(0, 3), 3);
    let column = utf8(vec!["only"]);
    assert_eq!(string_at(&column, 9).unwrap(), Some("only"));
    let column = utf8(vec!["first", "second"]);
    assert_eq!(string_at(&column, 1).unwrap(), Some("second"));
    let column = Column { array: Arc::new(StringArray::from(vec![Some("a"), None])) as ArrayRef };
    assert_eq!(string_at(&column, 1).unwrap(), None);
    assert!(matches!(
        string_at(&int32(vec![1]), 0),
        Err(RegexpExtractError::PatternType { .. })
    ));
}

#[test]
fn numerals_are_decimal() {
    assert_eq!(decimal_text(0), "0");
    assert_eq!(decimal_text(-1), "-1");
    assert_eq!(decimal_text(1234567890), "1234567890");
    assert_eq!(decimal_text(i64::MIN), i64::MIN.to_string());
    assert_eq!(decimal_text(i64::MAX), i64::MAX.to_string());
    assert_eq!(size_text(usize::MAX), usize::MAX.to_string());
}

#[test]
fn failures_are_reported_to_the_engine() {
    let error = spark_regexp_extract(&[utf8(vec!["123"]), utf8(vec![r"(\d+)"]), int32(vec![2])]);
    let message = "Invalid regexp group index 2 for regexp_extract: pattern has 1 capturing groups";
    match error.unwrap_err().into_engine_error() {
        DataFusionError::Execution(text) => assert_eq!(text, message),
        other => panic!("{other:?}"),
    }

    let longs = Column { array: Arc::new(Int64Array::from(vec![1])) as ArrayRef };
    let error = spark_regexp_extract(&[utf8(vec!["a"]), utf8(vec!["a"]), longs]).unwrap_err();
    let message = error.message();
    let reported = error.into_engine_error();
    assert!(matches!(reported, DataFusionError::Internal(_)));
    assert_eq!(reported.to_string(), message);

    match RegexpExtractError::ReturnTypeCalled.into_engine_error() {
        DataFusionError::Internal(text) => {
            assert_eq!(text, "return_type should not be called for Spark regexp_extract")
        }
        other => panic!("{other:?}"),
    }
}
