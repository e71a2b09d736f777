use std::sync::Arc;

use arrow::datatypes::{DataType, Field, FieldRef};
use datafusion_common::types::{
    logical_boolean, logical_date, logical_int32, logical_string, NativeType,
};
use datafusion_expr::{
    Coercion, Signature, TypeSignature, TypeSignatureClass, Volatility,
};
use spark_regexp_extract::function::ArgumentHint;
use spark_regexp_extract::{RegexpExtractError, SparkRegexpExtract};

#[test]
fn the_signature_takes_two_strings_and_an_index() {
    let string = Coercion::new_implicit(
        TypeSignatureClass::Native(logical_string()),
        vec![
            TypeSignatureClass::Numeric,
            TypeSignatureClass::Native(logical_boolean()),
            TypeSignatureClass::Native(logical_date()),
            TypeSignatureClass::Timestamp,
            TypeSignatureClass::Time,
            TypeSignatureClass::Interval,
            TypeSignatureClass::Duration,
            TypeSignatureClass::Binary,
        ],
        NativeType::String,
    );
    let int32 = Coercion::new_implicit(
        TypeSignatureClass::Native(logical_int32()),
        vec![TypeSignatureClass::Integer, TypeSignatureClass::Native(logical_string())],
        NativeType::Int32,
    );
    let expected = Signature::one_of(
        vec![
            TypeSignature::Coercible(vec![string.clone(), string.clone()]),
            TypeSignature::Coercible(vec![string.clone(), string, int32]),
        ],
        Volatility::Immutable,
    )
    .with_parameter_names(vec!["str".to_string(), "regexp".to_string(), "idx".to_string()])
    .unwrap();
    assert_eq!(SparkRegexpExtract::new().signature(), &expected);
    assert_eq!(SparkRegexpExtract::default(), SparkRegexpExtract::new());
}

#[test]
fn the_signature_names_its_parameters() {
    let function = SparkRegexpExtract::new();
    let names = function.signature().parameter_names.clone().unwrap();
    assert_eq!(names, vec!["str", "regexp", "idx"]);
    assert_eq!(function.signature().volatility, Volatility::Immutable);
}

#[test]
fn the_function_is_called_regexp_extract() {
    assert_eq!(SparkRegexpExtract::new().name(), "regexp_extract");
}

#[test]
fn only_the_subject_is_padded() {
    assert_eq!(
        SparkRegexpExtract::new().argument_hints(),
        vec![ArgumentHint::Pad, ArgumentHint::AcceptsSingular, ArgumentHint::AcceptsSingular]
    );
}

#[test]
fn the_return_type_is_not_given_without_fields() {
    let error = SparkRegexpExtract::new()
        .return_type(&[DataType::Utf8, DataType::Utf8])
        .unwrap_err();
    assert!(matches!(error, RegexpExtractError::ReturnTypeCalled));
    assert_eq!(error.message(), "return_type should not be called for Spark regexp_extract");
}

fn field(data_type: DataType, nullable: bool) -> FieldRef {
    Arc::new(Field::new("argument", data_type, nullable))
}

#[test]
fn the_field_follows_the_arguments() {
    let function = SparkRegexpExtract::new();
    let returned = function
        .return_field_from_args(&[
            field(DataType::LargeUtf8, false),
            field(DataType::Utf8, false),
            field(DataType::Int32, true),
        ])
        .unwrap();
    assert_eq!(returned.as_ref(), &Field::new("regexp_extract", DataType::LargeUtf8, true));
    let returned = function
        .return_field_from_args(&[field(DataType::Utf8View, false), field(DataType::Utf8, false)])
        .unwrap();
    assert_eq!(returned.as_ref(), &Field::new("regexp_extract", DataType::Utf8View, false));
}
