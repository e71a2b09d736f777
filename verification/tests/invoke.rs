use std::sync::Arc;

use arrow::array::{Array, ArrayRef, AsArray, Int32Array, NullArray, StringArray, StringViewArray};
use arrow::datatypes::{DataType, Field, FieldRef};
use datafusion_common::{DataFusionError, ScalarValue};
use datafusion_expr::ColumnarValue;
use spark_regexp_extract::SparkRegexpExtract;

const PATTERN: &str = r"(\d+)-(\d+)";

fn text(value: &str) -> ColumnarValue {
    ColumnarValue::Scalar(ScalarValue::Utf8(Some(value.to_string())))
}

fn index(value: i32) -> ColumnarValue {
    ColumnarValue::Scalar(ScalarValue::Int32(Some(value)))
}

fn texts(values: Vec<&str>) -> ColumnarValue {
    ColumnarValue::Array(Arc::new(StringArray::from(values)) as ArrayRef)
}

fn indexes(values: Vec<i32>) -> ColumnarValue {
    ColumnarValue::Array(Arc::new(Int32Array::from(values)) as ArrayRef)
}

fn try_invoke(args: &[ColumnarValue]) -> Option<Result<ColumnarValue, DataFusionError>> {
    SparkRegexpExtract::new().try_invoke_with_args(args)
}

fn invoke(args: &[ColumnarValue]) -> ColumnarValue {
    try_invoke(args).unwrap().unwrap()
}

fn execution_error(args: &[ColumnarValue]) -> String {
    match try_invoke(args).unwrap() {
        Err(DataFusionError::Execution(message)) => message,
        other => panic!("{other:?}"),
    }
}

fn array(value: ColumnarValue) -> Vec<Option<String>> {
    match value {
        ColumnarValue::Array(array) => {
            array.as_string::<i32>().iter().map(|text| text.map(str::to_string)).collect()
        }
        other => panic!("{other:?}"),
    }
}

fn owned(values: Vec<&str>) -> Vec<Option<String>> {
    values.into_iter().map(|text| Some(text.to_string())).collect()
}

#[test]
fn scalars_give_a_scalar() {
    match invoke(&[text("100-200"), text(PATTERN), index(2)]) {
        ColumnarValue::Scalar(scalar) => {
            assert_eq!(scalar, ScalarValue::Utf8(Some("200".to_string())))
        }
        other => panic!("{other:?}"),
    }
    let null = ColumnarValue::Scalar(ScalarValue::Utf8View(None));
    match invoke(&[null, text(PATTERN)]) {
        ColumnarValue::Scalar(scalar) => assert_eq!(scalar, ScalarValue::Utf8View(None)),
        other => panic!("{other:?}"),
    }
}

#[test]
fn an_array_gives_an_array() {
    let args = [texts(vec!["100-200", "300-400"]), text(PATTERN), index(2)];
    assert_eq!(array(invoke(&args)), owned(vec!["200", "400"]));
    let direct = SparkRegexpExtract::new().invoke_with_args(&args).unwrap();
    assert_eq!(array(direct), owned(vec!["200", "400"]));
}

#[test]
fn a_scalar_subject_is_repeated_for_each_row() {
    let args = [text("100-200"), texts(vec![PATTERN, "(0+)", "(x)?"]), index(1)];
    assert_eq!(array(invoke(&args)), owned(vec!["100", "00", ""]));
    let args = [text("100-200"), text(PATTERN), indexes(vec![2, 0, 1, 2])];
    assert_eq!(array(invoke(&args)), owned(vec!["200", "100-200", "100", "200"]));
}

#[test]
fn the_last_array_tells_the_rows() {
    let args = [text("100-200"), texts(vec![PATTERN, "(0+)", "(x)?"]), indexes(vec![1])];
    assert_eq!(array(invoke(&args)), owned(vec!["100"]));
    let args = [text("100-200"), texts(vec![PATTERN]), indexes(vec![1, 2])];
    assert_eq!(array(invoke(&args)), owned(vec!["100", "200"]));
}

#[test]
fn a_scalar_equals_its_repetition() {
    let patterns = || texts(vec![PATTERN, "(0+)", "(x)?"]);
    let scalar = invoke(&[text("100-200"), patterns(), index(0)]);
    let repeated = invoke(&[texts(vec!["100-200"; 3]), patterns(), index(0)]);
    assert_eq!(array(scalar), array(repeated));

    let subjects = || texts(vec!["1-2", "3-4", "5-6"]);
    let scalar = invoke(&[subjects(), text(PATTERN), index(2)]);
    let single = invoke(&[subjects(), texts(vec![PATTERN]), indexes(vec![2])]);
    let repeated = invoke(&[subjects(), texts(vec![PATTERN; 3]), indexes(vec![2; 3])]);
    let scalar = array(scalar);
    assert_eq!(scalar, owned(vec!["2", "4", "6"]));
    assert_eq!(scalar, array(single));
    assert_eq!(scalar, array(repeated));
}

#[test]
fn no_rows_take_no_scalar() {
    let args = [texts(vec![]), text("("), index(9)];
    assert_eq!(array(invoke(&args)), Vec::<Option<String>>::new());
    let args = [text("100-200"), texts(vec![]), index(1)];
    assert_eq!(array(invoke(&args)), Vec::<Option<String>>::new());
}

#[test]
fn views_stay_views() {
    let subjects: ArrayRef = Arc::new(StringViewArray::from(vec!["a long subject: 100-200", "-"]));
    match invoke(&[ColumnarValue::Array(subjects), text(PATTERN)]) {
        ColumnarValue::Array(array) => {
            assert_eq!(array.data_type(), &DataType::Utf8View);
            let values: Vec<Option<&str>> = array.as_string_view().iter().collect();
            assert_eq!(values, vec![Some("100"), Some("")]);
        }
        other => panic!("{other:?}"),
    }
}

#[test]
fn failures_carry_their_message() {
    assert_eq!(
        execution_error(&[text("a")]),
        "regexp_extract requires two or three arguments, got 1"
    );
    assert_eq!(
        execution_error(&[]),
        "regexp_extract requires two or three arguments, got 0"
    );
    assert_eq!(
        execution_error(&[text("a"), text("a"), index(1), texts(vec!["a", "b"])]),
        "regexp_extract requires two or three arguments, got 4"
    );
    assert_eq!(
        execution_error(&[index(1), text("a")]),
        "regexp_extract does not support subject type Int32; expected Utf8, LargeUtf8, or Utf8View"
    );
    assert_eq!(
        execution_error(&[texts(vec!["123", "4"]), text(r"(\d+)"), index(2)]),
        "Invalid regexp group index 2 for regexp_extract: pattern has 1 capturing groups"
    );
    let long = ColumnarValue::Scalar(ScalarValue::Int64(Some(1)));
    match try_invoke(&[text("a"), text("a"), long]).unwrap() {
        Err(DataFusionError::Internal(message)) => {
            assert!(message.starts_with("could not cast array of type Int64 to "))
        }
        other => panic!("{other:?}"),
    }
    match try_invoke(&[text("a"), text("a"), text("1")]).unwrap() {
        Err(DataFusionError::Internal(message)) => {
            assert!(message.starts_with("could not cast array of type Utf8 to "))
        }
        other => panic!("{other:?}"),
    }
}

#[test]
fn scalars_of_other_types_are_refused_by_the_function() {
    let null = ColumnarValue::Scalar(ScalarValue::Null);
    let truth = ColumnarValue::Scalar(ScalarValue::Boolean(Some(true)));
    let date = ColumnarValue::Scalar(ScalarValue::Date32(Some(7)));
    assert_eq!(
        execution_error(&[truth, text("a")]),
        "regexp_extract does not support subject type Boolean; expected Utf8, LargeUtf8, or Utf8View"
    );
    assert_eq!(
        execution_error(&[text("a"), date]),
        "regexp_extract does not support pattern type Date32; expected Utf8, LargeUtf8, or Utf8View"
    );
    for bytes in [
        ScalarValue::Binary(Some(vec![1])),
        ScalarValue::LargeBinary(Some(vec![1])),
        ScalarValue::BinaryView(Some(vec![1])),
        ScalarValue::Float64(Some(0.5)),
        ScalarValue::Decimal128(Some(1), 9, 0),
    ] {
        let data_type = bytes.data_type();
        assert_eq!(
            execution_error(&[ColumnarValue::Scalar(bytes), text("a")]),
            format!(
                "regexp_extract does not support subject type {data_type:?}; expected Utf8, LargeUtf8, or Utf8View"
            )
        );
    }
    let subject = ColumnarValue::Scalar(ScalarValue::LargeUtf8(None));
    match invoke(&[subject, null]) {
        ColumnarValue::Scalar(scalar) => assert_eq!(scalar, ScalarValue::LargeUtf8(None)),
        other => panic!("{other:?}"),
    }
    let decimal = ColumnarValue::Scalar(ScalarValue::Decimal128(Some(1), 77, 0));
    assert!(try_invoke(&[text("a"), decimal]).unwrap().is_err());
}

#[test]
fn calls_that_cannot_be_made_are_noticed() {
    // One MiB, four thousand times.
    let subject = text(&"a".repeat(1 << 20));
    let rows = ColumnarValue::Array(Arc::new(NullArray::new(1 << 12)) as ArrayRef);
    assert!(try_invoke(&[subject, rows.clone()]).is_none());
    let few = ColumnarValue::Array(Arc::new(NullArray::new(1 << 4)) as ArrayRef);
    assert!(try_invoke(&[text("a"), few]).unwrap().is_err());

    let bytes = ColumnarValue::Scalar(ScalarValue::Binary(Some(vec![0; 1 << 20])));
    assert!(try_invoke(&[bytes, rows]).is_none());

    let word = Box::new(ScalarValue::Utf8(Some("a".to_string())));
    let word = ColumnarValue::Scalar(ScalarValue::Dictionary(Box::new(DataType::Int32), word));
    assert!(try_invoke(&[text("a"), word]).is_none());

    let patterns = texts(vec!["(a)", "(b)"]);
    assert!(try_invoke(&[texts(vec!["a", "b", "c"]), patterns, index(1)]).is_none());
}

#[test]
fn the_announced_field_holds_of_the_result() {
    let field = |value: &ColumnarValue| -> FieldRef {
        let nullable = match value {
            ColumnarValue::Scalar(scalar) => scalar.is_null(),
            ColumnarValue::Array(array) => array.null_count() > 0,
        };
        Arc::new(Field::new("argument", value.data_type(), nullable))
    };
    let function = SparkRegexpExtract::new();
    let views: ArrayRef = Arc::new(StringViewArray::from(vec![Some("1-2"), None]));
    let cases = vec![
        vec![texts(vec!["1-2", "x"]), text(PATTERN), index(1)],
        vec![ColumnarValue::Array(views), text(PATTERN)],
        vec![text("1-2"), text(PATTERN), ColumnarValue::Scalar(ScalarValue::Int32(None))],
    ];
    for args in cases {
        let fields: Vec<FieldRef> = args.iter().map(field).collect();
        let announced = function.return_field_from_args(&fields).unwrap();
        let result = invoke(&args);
        assert_eq!(&result.data_type(), announced.data_type());
        let nulls = result.to_array(1).unwrap().null_count();
        assert_eq!(nulls > 0, announced.is_nullable());
    }
}
