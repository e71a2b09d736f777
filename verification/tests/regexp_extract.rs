use std::sync::Arc;

use arrow::array::{
    Array, ArrayRef, AsArray, Int32Array, LargeStringArray, StringArray, StringViewArray,
};
use arrow::datatypes::{DataType, Field, FieldRef};
use datafusion_common::{DataFusionError, ScalarValue};
use datafusion_expr::ColumnarValue;
use spark_regexp_extract::{
    spark_regexp_extract, try_spark_regexp_extract, Column, RegexpExtractError, SparkRegexpExtract,
};

fn columns(arrays: &[ArrayRef]) -> Vec<Column> {
    arrays.iter().map(|array| Column { array: Arc::clone(array) }).collect()
}

/// Invokes the function on columnar values, the way a query engine does.
fn invoke(args: &[ColumnarValue]) -> Result<ColumnarValue, DataFusionError> {
    SparkRegexpExtract::new().try_invoke_with_args(args).unwrap()
}

fn field_of(value: &ColumnarValue) -> FieldRef {
    let nullable = match value {
        ColumnarValue::Scalar(scalar) => scalar.is_null(),
        ColumnarValue::Array(array) => array.null_count() > 0,
    };
    Arc::new(Field::new("argument", value.data_type(), nullable))
}

/// Checks the field that is announced and the one value that comes out.
fn check_scalars(args: Vec<ColumnarValue>, expected: Option<&str>, data_type: DataType) {
    let fields: Vec<FieldRef> = args.iter().map(field_of).collect();
    let field = SparkRegexpExtract::new().return_field_from_args(&fields).unwrap();
    assert_eq!(field.name(), "regexp_extract");
    assert_eq!(field.data_type(), &data_type);
    assert_eq!(field.is_nullable(), fields.iter().any(|f| f.is_nullable()));

    let value = invoke(&args).unwrap();
    assert_eq!(value.data_type(), data_type);
    let array = value.to_array(1).unwrap();
    assert_eq!(array.len(), 1);
    let expected = expected.map(str::to_string);
    let actual = match data_type {
        DataType::Utf8 => array.as_string::<i32>().iter().next().unwrap().map(str::to_string),
        DataType::LargeUtf8 => array.as_string::<i64>().iter().next().unwrap().map(str::to_string),
        DataType::Utf8View => array.as_string_view().iter().next().unwrap().map(str::to_string),
        _ => unreachable!(),
    };
    assert_eq!(actual, expected);
}

fn check_string_types(
    subject: Option<&str>,
    pattern: Option<&str>,
    idx: Option<i32>,
    expected: Option<&str>,
) {
    let subject = subject.map(str::to_string);
    let pattern = pattern.map(str::to_string);
    check_scalars(
        vec![
            ColumnarValue::Scalar(ScalarValue::Utf8(subject.clone())),
            ColumnarValue::Scalar(ScalarValue::Utf8(pattern.clone())),
            ColumnarValue::Scalar(ScalarValue::Int32(idx)),
        ],
        expected,
        DataType::Utf8,
    );
    check_scalars(
        vec![
            ColumnarValue::Scalar(ScalarValue::LargeUtf8(subject.clone())),
            ColumnarValue::Scalar(ScalarValue::LargeUtf8(pattern.clone())),
            ColumnarValue::Scalar(ScalarValue::Int32(idx)),
        ],
        expected,
        DataType::LargeUtf8,
    );
    check_scalars(
        vec![
            ColumnarValue::Scalar(ScalarValue::Utf8View(subject)),
            ColumnarValue::Scalar(ScalarValue::Utf8View(pattern)),
            ColumnarValue::Scalar(ScalarValue::Int32(idx)),
        ],
        expected,
        DataType::Utf8View,
    );
}

fn utf8(values: Vec<&str>) -> ArrayRef {
    Arc::new(StringArray::from(values))
}

fn int32(values: Vec<i32>) -> ArrayRef {
    Arc::new(Int32Array::from(values))
}

fn extract(arrays: &[ArrayRef]) -> Result<ArrayRef, RegexpExtractError> {
    spark_regexp_extract(&columns(arrays)).map(|column| column.array)
}

fn strings(array: &ArrayRef) -> Vec<Option<&str>> {
    array.as_string::<i32>().iter().collect()
}

#[test]
fn extracts_first_match_and_groups() {
    check_string_types(Some("100-200"), Some(r"(\d+)-(\d+)"), Some(0), Some("100-200"));
    check_string_types(Some("100-200"), Some(r"(\d+)-(\d+)"), Some(1), Some("100"));
    check_string_types(Some("100-200"), Some(r"(\d+)-(\d+)"), Some(2), Some("200"));
    check_string_types(Some("abc123def456"), Some(r"(\d+)"), Some(1), Some("123"));
}

#[test]
fn defaults_to_group_one() {
    check_scalars(
        vec![
            ColumnarValue::Scalar(ScalarValue::Utf8(Some("100-200".to_string()))),
            ColumnarValue::Scalar(ScalarValue::Utf8(Some(r"(\d+)-(\d+)".to_string()))),
        ],
        Some("100"),
        DataType::Utf8,
    );
}

#[test]
fn no_match_and_unmatched_optional_group_are_empty() {
    check_string_types(Some("100-200"), Some("([a-z]+)"), Some(1), Some(""));
    check_string_types(Some("aaaac"), Some("(a+)(b)?(c)"), Some(2), Some(""));
}

#[test]
fn nulls_propagate() {
    check_string_types(None, Some("(a)"), Some(1), None);
    check_string_types(Some("a"), None, Some(1), None);
    check_string_types(Some("a"), Some("(a)"), None, None);
}

#[test]
fn supports_row_varying_pattern_and_index() {
    let actual = extract(&[
        utf8(vec!["100-200", "abc", "aaaac"]),
        utf8(vec![r"(\d+)-(\d+)", "([a-z]+)", "(a+)(b)?(c)"]),
        int32(vec![2, 1, 2]),
    ])
    .unwrap();
    assert_eq!(strings(&actual), vec![Some("200"), Some("abc"), Some("")]);
}

#[test]
fn invalid_group_is_checked_only_after_a_match() {
    let no_match =
        extract(&[utf8(vec!["abc"]), utf8(vec![r"(\d+)"]), int32(vec![2])]).unwrap();
    assert_eq!(no_match.as_string::<i32>().value(0), "");

    for invalid_index in [2, -1] {
        let error =
            extract(&[utf8(vec!["123"]), utf8(vec![r"(\d+)"]), int32(vec![invalid_index])])
                .unwrap_err();
        assert!(error.message().contains("pattern has 1 capturing groups"));
    }
}

#[test]
fn invalid_pattern_is_an_error() {
    let error = extract(&[utf8(vec!["abc"]), utf8(vec!["(?l)"]), int32(vec![0])]).unwrap_err();
    assert!(error.message().contains("Invalid regexp pattern"));
}

#[test]
fn scalar_pattern_and_index_serve_every_row() {
    let value = invoke(&[
        ColumnarValue::Array(utf8(vec!["100-200", "300-400"])),
        ColumnarValue::Scalar(ScalarValue::Utf8(Some(r"(\d+)-(\d+)".to_string()))),
        ColumnarValue::Scalar(ScalarValue::Int32(Some(2))),
    ])
    .unwrap();
    let array = value.to_array(2).unwrap();
    assert_eq!(strings(&array), vec![Some("200"), Some("400")]);
}

#[test]
fn single_values_equal_repeated_values() {
    let subjects = utf8(vec!["a1", "b2", "c3"]);
    let narrow =
        extract(&[Arc::clone(&subjects), utf8(vec![r"([a-z])(\d)"]), int32(vec![2])]).unwrap();
    let wide = extract(&[subjects, utf8(vec![r"([a-z])(\d)"; 3]), int32(vec![2; 3])]).unwrap();
    assert_eq!(strings(&narrow), vec![Some("1"), Some("2"), Some("3")]);
    assert_eq!(strings(&narrow), strings(&wide));
}

#[test]
fn string_types_may_differ_between_columns() {
    let actual = extract(&[
        Arc::new(StringViewArray::from(vec!["key=value that is not short", "k=v"])) as ArrayRef,
        Arc::new(LargeStringArray::from(vec!["=(.*)"])) as ArrayRef,
    ])
    .unwrap();
    assert_eq!(actual.data_type(), &DataType::Utf8View);
    assert_eq!(
        actual.as_string_view().iter().collect::<Vec<_>>(),
        vec![Some("value that is not short"), Some("v")]
    );
}

#[test]
fn default_index_equals_index_one() {
    let subjects = utf8(vec!["x-y", "--", "p-q"]);
    let patterns = utf8(vec!["([a-z])-([a-z])"]);
    let two = extract(&[Arc::clone(&subjects), Arc::clone(&patterns)]).unwrap();
    let three = extract(&[subjects, patterns, int32(vec![1, 1, 1])]).unwrap();
    assert_eq!(strings(&two), vec![Some("x"), Some(""), Some("p")]);
    assert_eq!(strings(&two), strings(&three));
}

#[test]
fn group_zero_is_the_complete_match() {
    let subjects = utf8(vec!["..ab..", "ab", "none", ""]);
    let complete = extract(&[Arc::clone(&subjects), utf8(vec!["(a)(b)"]), int32(vec![0])]).unwrap();
    assert_eq!(strings(&complete), vec![Some("ab"), Some("ab"), Some(""), Some("")]);
    // The same text comes out as group one once the pattern is a group as a whole.
    let grouped = extract(&[subjects, utf8(vec!["((a)(b))"]), int32(vec![1])]).unwrap();
    assert_eq!(strings(&complete), strings(&grouped));
    // A pattern without groups still has group zero.
    let plain = extract(&[utf8(vec!["xay"]), utf8(vec!["a"]), int32(vec![0])]).unwrap();
    assert_eq!(strings(&plain), vec![Some("a")]);
}

#[test]
fn no_match_hides_every_index() {
    for idx in [i32::MIN, -1, 0, 1, 2, i32::MAX] {
        let actual = extract(&[utf8(vec!["abc"]), utf8(vec![r"(\d)"]), int32(vec![idx])]).unwrap();
        assert_eq!(strings(&actual), vec![Some("")]);
    }
}

#[test]
fn null_index_hides_an_invalid_pattern() {
    let nulls: ArrayRef = Arc::new(Int32Array::from(vec![None::<i32>]));
    let actual = extract(&[utf8(vec!["abc"]), utf8(vec!["("]), nulls]).unwrap();
    assert_eq!(strings(&actual), vec![None]);
}

#[test]
fn nulls_in_a_column_stay_on_their_rows() {
    let subjects: ArrayRef = Arc::new(StringArray::from(vec![Some("a1"), None, Some("b2"), Some("c3")]));
    let patterns: ArrayRef =
        Arc::new(StringArray::from(vec![Some("[a-z]"), Some("("), None, Some("[a-z]")]));
    let indexes: ArrayRef = Arc::new(Int32Array::from(vec![Some(0), Some(0), Some(0), None]));
    let actual = extract(&[subjects, patterns, indexes]).unwrap();
    assert_eq!(strings(&actual), vec![Some("a"), None, None, None]);
}

#[test]
fn columns_without_nulls_give_no_nulls() {
    let actual =
        extract(&[utf8(vec!["a", "b", ""]), utf8(vec!["(b)"]), int32(vec![1, 1, 1])]).unwrap();
    assert_eq!(actual.null_count(), 0);
    assert_eq!(strings(&actual), vec![Some(""), Some("b"), Some("")]);
}

#[test]
fn alternating_patterns_are_each_compiled() {
    let actual = extract(&[
        utf8(vec!["a1", "a1", "a1", "a1", "a1"]),
        utf8(vec!["([a-z])", r"(\d)", r"(\d)", "([a-z])", "([a-z])()"]),
        int32(vec![1, 1, 1, 1, 2]),
    ])
    .unwrap();
    assert_eq!(
        strings(&actual),
        vec![Some("a"), Some("1"), Some("1"), Some("a"), Some("")]
    );
}

#[test]
fn locations_are_not_carried_over_between_rows() {
    let actual = extract(&[
        utf8(vec!["ab", "a", "xb", "ab"]),
        utf8(vec!["(a)?(b)?"]),
        int32(vec![2, 2, 2, 1]),
    ])
    .unwrap();
    assert_eq!(strings(&actual), vec![Some("b"), Some(""), Some(""), Some("a")]);
}

#[test]
fn groups_are_cut_at_characters() {
    let actual = extract(&[
        utf8(vec!["na\u{ef}ve \u{1f600}!", "\u{e9}\u{e8}"]),
        utf8(vec!["(\\p{So})", "(.)$"]),
        int32(vec![1, 1]),
    ])
    .unwrap();
    assert_eq!(strings(&actual), vec![Some("\u{1f600}"), Some("\u{e8}")]);
}

#[test]
fn the_first_failing_row_decides() {
    let error = extract(&[
        utf8(vec!["a", "b", "c"]),
        utf8(vec!["(a)", "(b)", "("]),
        int32(vec![1, 7, 1]),
    ])
    .unwrap_err();
    assert!(matches!(
        error,
        RegexpExtractError::InvalidGroupIndex { index: 7, group_count: 1 }
    ));
}

#[test]
fn rows_after_a_failure_are_not_read() {
    // The pattern column is shorter than the subject column, and the first row fails.
    let error = extract(&[utf8(vec!["a", "b", "c"]), utf8(vec!["(", "b"])]).unwrap_err();
    assert!(matches!(error, RegexpExtractError::InvalidPattern { .. }));
}

#[test]
fn no_rows_give_no_rows() {
    let actual = extract(&[utf8(vec![]), int32(vec![])]).unwrap();
    assert_eq!(actual.len(), 0);
    assert_eq!(actual.data_type(), &DataType::Utf8);
    let actual = extract(&[utf8(vec![]), utf8(vec![]), int32(vec![])]).unwrap();
    assert_eq!(actual.len(), 0);
}

#[test]
fn columns_that_are_too_short_are_noticed() {
    let subjects = utf8(vec!["a", "b", "c"]);
    let short = columns(&[Arc::clone(&subjects), utf8(vec!["(a)", "(b)"])]);
    assert!(try_spark_regexp_extract(&short).is_none());
    let short = columns(&[Arc::clone(&subjects), utf8(vec!["a"]), int32(vec![0, 0])]);
    assert!(try_spark_regexp_extract(&short).is_none());
    let empty = columns(&[Arc::clone(&subjects), utf8(vec![])]);
    assert!(try_spark_regexp_extract(&empty).is_none());
    let long = columns(&[subjects, utf8(vec!["a"; 5]), int32(vec![0; 4])]);
    let column = try_spark_regexp_extract(&long).unwrap().unwrap();
    assert_eq!(strings(&column.array), vec![Some("a"), Some(""), Some("")]);
    let views: ArrayRef = Arc::new(StringViewArray::from(vec!["some value that is not short", "b"]));
    let column = try_spark_regexp_extract(&columns(&[views, utf8(vec!["(v.*) that"])])).unwrap().unwrap();
    assert_eq!(
        column.array.as_string_view().iter().collect::<Vec<_>>(),
        vec![Some("value"), Some("")]
    );
}

#[test]
fn columns_are_tested_only_where_they_are_read() {
    // Patterns are not read for null subjects.
    let nulls: ArrayRef = Arc::new(StringArray::from(vec![None::<&str>, None]));
    let column = try_spark_regexp_extract(&columns(&[Arc::clone(&nulls), utf8(vec![])]))
        .unwrap()
        .unwrap();
    assert_eq!(strings(&column.array), vec![None, None]);
    // Indexes are not read for null patterns.
    let args = [utf8(vec!["a", "b"]), Arc::clone(&nulls), int32(vec![])];
    let column = try_spark_regexp_extract(&columns(&args)).unwrap().unwrap();
    assert_eq!(strings(&column.array), vec![None, None]);
    // Nothing is read behind a row that fails.
    let args = [utf8(vec!["a", "b", "c"]), utf8(vec!["(", "b"])];
    let error = try_spark_regexp_extract(&columns(&args)).unwrap().unwrap_err();
    assert!(matches!(error, RegexpExtractError::InvalidPattern { .. }));
    // The type of the indexes is looked at before any row.
    let args = [utf8(vec!["a", "b", "c"]), utf8(vec![]), utf8(vec![])];
    let error = try_spark_regexp_extract(&columns(&args)).unwrap().unwrap_err();
    assert!(matches!(error, RegexpExtractError::IndexType { .. }));
    // A column of views is walked through like the others.
    let views: ArrayRef = Arc::new(StringViewArray::from(vec![
        Some("a value that is longer than a view"),
        None,
    ]));
    let column =
        try_spark_regexp_extract(&columns(&[Arc::clone(&views), utf8(vec![]), int32(vec![0])]));
    assert!(column.is_none());
    let args = [views, utf8(vec!["a (.*) view"]), int32(vec![])];
    assert!(try_spark_regexp_extract(&columns(&args)).is_none());
}

#[test]
fn each_value_is_a_piece_of_its_subject() {
    let subjects = vec!["caf\u{e9} 12 th\u{e9}", "12", "no digits", ""];
    let actual = extract(&[utf8(subjects.clone()), utf8(vec![r"(\S+) (\d+)|(\d+)"]), int32(vec![1])]).unwrap();
    assert_eq!(strings(&actual), vec![Some("caf\u{e9}"), Some(""), Some(""), Some("")]);
    for (subject, value) in subjects.iter().zip(strings(&actual)) {
        assert!(subject.contains(value.unwrap()));
    }
}

#[test]
fn large_columns_of_each_type_come_out_whole() {
    let values: Vec<String> = (0..5000).map(|i| format!("row number {i} of many rows")).collect();
    let expected: Vec<String> = (0..5000).map(|i| format!("number {i} of")).collect();
    let texts: Vec<&str> = values.iter().map(String::as_str).collect();
    let arrays: Vec<ArrayRef> = vec![
        Arc::new(StringArray::from(texts.clone())),
        Arc::new(LargeStringArray::from(texts.clone())),
        Arc::new(StringViewArray::from(texts)),
    ];
    for subjects in arrays {
        let data_type = subjects.data_type().clone();
        let actual = extract(&[subjects, utf8(vec!["(number .* of) many"])]).unwrap();
        assert_eq!(actual.data_type(), &data_type);
        let actual: Vec<Option<String>> = match data_type {
            DataType::Utf8 => actual.as_string::<i32>().iter().map(|v| v.map(str::to_string)).collect(),
            DataType::LargeUtf8 => {
                actual.as_string::<i64>().iter().map(|v| v.map(str::to_string)).collect()
            }
            _ => actual.as_string_view().iter().map(|v| v.map(str::to_string)).collect(),
        };
        assert_eq!(actual, expected.iter().cloned().map(Some).collect::<Vec<_>>());
    }
}
