//! The function as a query engine sees it: its name, its signature and the field that it returns.

use crate::error::{Fault, RegexpExtractError};
use arrow::datatypes::{DataType, Field, FieldRef};
use datafusion_common::types::{
    logical_boolean, logical_date, logical_int32, logical_string, NativeType,
};
use datafusion_common::DataFusionError;
use datafusion_expr::{Coercion, Signature, TypeSignature, TypeSignatureClass, Volatility};
use std::sync::Arc;
use vstd::prelude::*;

verus! {

// ---------------------------------------------------------------------------------------------
// Signatures
// ---------------------------------------------------------------------------------------------
/// A class of argument types.
#[derive(Clone, Copy, Debug, PartialEq, Eq, Structural)]
pub enum TypeClass {
    NativeString,
    NativeBoolean,
    NativeDate,
    NativeInt32,
    Numeric,
    Integer,
    Timestamp,
    Time,
    Interval,
    Duration,
    Binary,
}

/// A type that an argument is cast to.
#[derive(Clone, Copy, Debug, PartialEq, Eq, Structural)]
pub enum CastTarget {
    String,
    Int32,
}

/// How the results for one input may vary.
#[derive(Clone, Copy, Debug, PartialEq, Eq, Structural)]
pub enum FunctionVolatility {
    Immutable,
    Stable,
    Volatile,
}

/// How a scalar argument becomes a column: as long as the other columns, or of a single row.
#[derive(Clone, Copy, Debug, PartialEq, Eq, Structural)]
pub enum ArgumentHint {
    Pad,
    AcceptsSingular,
}

/// What an argument may be: of the class `desired` as it is, or of one of the classes `sources`,
/// cast to `default_cast`; and whether one that is encoded by a dictionary stays so.
pub struct ArgumentShape {
    pub desired: TypeClass,
    pub sources: Seq<TypeClass>,
    pub default_cast: CastTarget,
    pub preserves_dictionary: bool,
}

/// What a function takes: the arguments of one of the alternatives.
pub struct SignatureShape {
    pub alternatives: Seq<Seq<ArgumentShape>>,
    pub volatility: FunctionVolatility,
    pub parameter_names: Option<Seq<Seq<char>>>,
}

/// Declares `datafusion_expr::TypeSignatureClass`.
#[verifier::external_type_specification]
#[verifier::external_body]
pub struct ExTypeSignatureClass(TypeSignatureClass);

/// Declares `datafusion_common::types::NativeType`.
#[verifier::external_type_specification]
#[verifier::external_body]
pub struct ExNativeType(NativeType);

/// Declares `datafusion_expr::Coercion`.
#[verifier::external_type_specification]
#[verifier::external_body]
pub struct ExCoercion(Coercion);

/// Declares `datafusion_expr::TypeSignature`.
#[verifier::external_type_specification]
#[verifier::external_body]
pub struct ExTypeSignature(TypeSignature);

/// Declares `datafusion_expr::Signature`.
#[verifier::external_type_specification]
#[verifier::external_body]
pub struct ExSignature(Signature);

/// The class that a `TypeSignatureClass` stands for, where it is one of those above.
pub uninterp spec fn class_of(class: TypeSignatureClass) -> Option<TypeClass>;

/// The target that a `NativeType` stands for, where it is one of those above.
pub uninterp spec fn target_of(native: NativeType) -> Option<CastTarget>;

/// What a `Coercion` lets pass, where it coerces and its classes and target are among those above.
pub uninterp spec fn coercion_shape(coercion: Coercion) -> Option<ArgumentShape>;

/// The arguments of a `TypeSignature`, where it lists a coercion for each.
pub uninterp spec fn arguments_shape(arguments: TypeSignature) -> Option<Seq<ArgumentShape>>;

/// What a `Signature` takes, where it offers alternatives that list a coercion for each argument.
pub uninterp spec fn signature_shape(signature: Signature) -> Option<SignatureShape>;

/// Makes a variant of `TypeSignatureClass`, calling `logical_string`, `logical_boolean`,
/// `logical_date` and `logical_int32` of `datafusion_common::types` for the native ones.
///
/// Trusted: the variant stands for the class of the same name.
#[verifier::external_body]
fn type_class(class: TypeClass) -> (r: TypeSignatureClass)
    ensures
        class_of(r) == Some(class),
{
    match class {
        TypeClass::NativeString => TypeSignatureClass::Native(logical_string()),
        TypeClass::NativeBoolean => TypeSignatureClass::Native(logical_boolean()),
        TypeClass::NativeDate => TypeSignatureClass::Native(logical_date()),
        TypeClass::NativeInt32 => TypeSignatureClass::Native(logical_int32()),
        TypeClass::Numeric => TypeSignatureClass::Numeric,
        TypeClass::Integer => TypeSignatureClass::Integer,
        TypeClass::Timestamp => TypeSignatureClass::Timestamp,
        TypeClass::Time => TypeSignatureClass::Time,
        TypeClass::Interval => TypeSignatureClass::Interval,
        TypeClass::Duration => TypeSignatureClass::Duration,
        TypeClass::Binary => TypeSignatureClass::Binary,
    }
}

/// Makes a variant of `NativeType`.
///
/// Trusted: the variant stands for the target of the same name.
#[verifier::external_body]
fn native_type(target: CastTarget) -> (r: NativeType)
    ensures
        target_of(r) == Some(target),
{
    match target {
        CastTarget::String => NativeType::String,
        CastTarget::Int32 => NativeType::Int32,
    }
}

/// `Coercion::new_implicit`.
///
/// Trusted: the coercion lets pass the desired class, and the allowed classes through a cast to the
/// default type. It preserves no dictionary, as is the default.
pub assume_specification[ Coercion::new_implicit ](
    desired_type: TypeSignatureClass,
    allowed_source_types: Vec<TypeSignatureClass>,
    default_casted_type: NativeType,
) -> (r: Coercion)
    ensures
        class_of(desired_type) is Some && target_of(default_casted_type) is Some && (forall|i: int|
            0 <= i < allowed_source_types@.len() ==> class_of(
                #[trigger] allowed_source_types@[i],
            ) is Some) ==> coercion_shape(r) == Some(
            ArgumentShape {
                desired: class_of(desired_type)->0,
                sources: Seq::new(
                    allowed_source_types@.len(),
                    |i: int| class_of(allowed_source_types@[i])->0,
                ),
                default_cast: target_of(default_casted_type)->0,
                preserves_dictionary: false,
            },
        ),
;

/// Makes the variant `TypeSignature::Coercible`.
///
/// Trusted: the arguments are those that the coercions let pass, in their order.
#[verifier::external_body]
fn coercible(coercions: Vec<Coercion>) -> (r: TypeSignature)
    requires
        forall|i: int|
            0 <= i < coercions@.len() ==> coercion_shape(#[trigger] coercions@[i]) is Some,
    ensures
        arguments_shape(r) == Some(
            Seq::new(coercions@.len(), |i: int| coercion_shape(coercions@[i])->0),
        ),
{
    TypeSignature::Coercible(coercions)
}

/// Calls `Signature::one_of`.
///
/// Trusted: the signature offers the alternatives in their order, and no parameter names.
#[verifier::external_body]
fn one_of(alternatives: Vec<TypeSignature>, volatility: FunctionVolatility) -> (r: Signature)
    requires
        forall|i: int|
            0 <= i < alternatives@.len() ==> arguments_shape(#[trigger] alternatives@[i]) is Some,
    ensures
        signature_shape(r) == Some(
            SignatureShape {
                alternatives: Seq::new(
                    alternatives@.len(),
                    |i: int| arguments_shape(alternatives@[i])->0,
                ),
                volatility,
                parameter_names: None,
            },
        ),
{
    let volatility = match volatility {
        FunctionVolatility::Immutable => Volatility::Immutable,
        FunctionVolatility::Stable => Volatility::Stable,
        FunctionVolatility::Volatile => Volatility::Volatile,
    };
    Signature::one_of(alternatives, volatility)
}

/// Whether names suit the parameters: one for each argument of the longest alternative, none twice.
pub open spec fn names_suit(
    alternatives: Seq<Seq<ArgumentShape>>,
    names: Seq<Seq<char>>,
) -> bool {
    &&& exists|i: int|
        0 <= i < alternatives.len() && (#[trigger] alternatives[i]).len() == names.len()
    &&& forall|i: int|
        0 <= i < alternatives.len() ==> (#[trigger] alternatives[i]).len() <= names.len()
    &&& names.no_duplicates()
}

/// The characters of each string.
pub open spec fn texts(strings: Seq<String>) -> Seq<Seq<char>> {
    Seq::new(strings.len(), |i: int| strings[i]@)
}

/// Calls `Signature::with_parameter_names`.
///
/// Trusted: it succeeds exactly on names that suit the parameters, and changes nothing but the names.
/// A signature consists of what its shape shows, so that no other signature has the same shape. What
/// the error says is not stated.
#[verifier::external_body]
fn with_parameter_names(signature: Signature, names: Vec<String>) -> (r: Result<
    Signature,
    DataFusionError,
>)
    requires
        signature_shape(signature) is Some,
    ensures
        r is Ok <==> names_suit(signature_shape(signature)->0.alternatives, texts(names@)),
        r matches Ok(named) ==> signature_shape(named) == Some(
            SignatureShape {
                alternatives: signature_shape(signature)->0.alternatives,
                volatility: signature_shape(signature)->0.volatility,
                parameter_names: Some(texts(names@)),
            },
        ),
        r matches Ok(named) ==> forall|other: Signature| #[trigger]
            signature_shape(other) == signature_shape(named) ==> other == named,
{
    signature.with_parameter_names(names)
}

// ---------------------------------------------------------------------------------------------
// Fields
// ---------------------------------------------------------------------------------------------
/// Declares `arrow::datatypes::DataType`.
#[verifier::external_type_specification]
#[verifier::external_body]
pub struct ExDataType(DataType);

/// Declares `arrow::datatypes::Field`.
#[verifier::external_type_specification]
#[verifier::external_body]
pub struct ExField(Field);

/// The name of a field.
pub uninterp spec fn field_name(field: Field) -> Seq<char>;

/// The type of a field.
pub uninterp spec fn field_type(field: Field) -> DataType;

/// Whether a field may hold nulls.
pub uninterp spec fn field_nullable(field: Field) -> bool;

/// `Field::is_nullable`.
///
/// Trusted: the answer is a property of the field.
pub assume_specification[ Field::is_nullable ](field: &Field) -> (r: bool)
    ensures
        r == field_nullable(*field),
;

/// `Field::data_type`.
///
/// Trusted: the type is a property of the field.
pub assume_specification[ Field::data_type ](field: &Field) -> (r: &DataType)
    ensures
        *r == field_type(*field),
;

/// `<DataType as Clone>::clone`.
///
/// Trusted: a clone is the same type.
pub assume_specification[ <DataType as Clone>::clone ](data_type: &DataType) -> (r: DataType)
    ensures
        r == *data_type,
;

/// Calls `Field::new`.
///
/// Trusted: the field has the name, the type and the nullability given.
#[verifier::external_body]
fn new_field(name: &str, data_type: DataType, nullable: bool) -> (r: Field)
    ensures
        field_name(r) == name@,
        field_type(r) == data_type,
        field_nullable(r) == nullable,
{
    Field::new(name, data_type, nullable)
}

// ---------------------------------------------------------------------------------------------
// The function
// ---------------------------------------------------------------------------------------------
/// What a subject or a pattern may be: a string, or a value that has a text.
pub open spec fn string_argument() -> ArgumentShape {
    ArgumentShape {
        desired: TypeClass::NativeString,
        sources: seq![
            TypeClass::Numeric,
            TypeClass::NativeBoolean,
            TypeClass::NativeDate,
            TypeClass::Timestamp,
            TypeClass::Time,
            TypeClass::Interval,
            TypeClass::Duration,
            TypeClass::Binary,
        ],
        default_cast: CastTarget::String,
        preserves_dictionary: false,
    }
}

/// What a group index may be: a 32-bit integer, another integer, or a string.
pub open spec fn index_argument() -> ArgumentShape {
    ArgumentShape {
        desired: TypeClass::NativeInt32,
        sources: seq![TypeClass::Integer, TypeClass::NativeString],
        default_cast: CastTarget::Int32,
        preserves_dictionary: false,
    }
}

/// The signature of `regexp_extract`: a subject, a pattern and, optionally, a group index.
pub open spec fn regexp_extract_shape() -> SignatureShape {
    SignatureShape {
        alternatives: seq![
            seq![string_argument(), string_argument()],
            seq![string_argument(), string_argument(), index_argument()],
        ],
        volatility: FunctionVolatility::Immutable,
        parameter_names: Some(seq!["str"@, "regexp"@, "idx"@]),
    }
}

/// The coercion of a subject or a pattern.
fn string_coercion() -> (r: Coercion)
    ensures
        coercion_shape(r) == Some(string_argument()),
{
    let mut sources: Vec<TypeSignatureClass> = Vec::new();
    sources.push(type_class(TypeClass::Numeric));
    sources.push(type_class(TypeClass::NativeBoolean));
    sources.push(type_class(TypeClass::NativeDate));
    sources.push(type_class(TypeClass::Timestamp));
    sources.push(type_class(TypeClass::Time));
    sources.push(type_class(TypeClass::Interval));
    sources.push(type_class(TypeClass::Duration));
    sources.push(type_class(TypeClass::Binary));
    proof {
        assert(Seq::new(sources@.len(), |i: int| class_of(sources@[i])->0)
            =~= string_argument().sources);
    }
    Coercion::new_implicit(
        type_class(TypeClass::NativeString),
        sources,
        native_type(CastTarget::String),
    )
}

/// The coercion of a group index.
fn index_coercion() -> (r: Coercion)
    ensures
        coercion_shape(r) == Some(index_argument()),
{
    let mut sources: Vec<TypeSignatureClass> = Vec::new();
    sources.push(type_class(TypeClass::Integer));
    sources.push(type_class(TypeClass::NativeString));
    proof {
        assert(Seq::new(sources@.len(), |i: int| class_of(sources@[i])->0)
            =~= index_argument().sources);
    }
    Coercion::new_implicit(
        type_class(TypeClass::NativeInt32),
        sources,
        native_type(CastTarget::Int32),
    )
}

/// The parameter names suit the signature.
pub proof fn lemma_parameter_names_suit()
    ensures
        names_suit(
            regexp_extract_shape().alternatives,
            regexp_extract_shape().parameter_names->0,
        ),
{
    let alternatives = regexp_extract_shape().alternatives;
    let names = regexp_extract_shape().parameter_names->0;
    assert(alternatives[1].len() == names.len());
    reveal_strlit("str");
    reveal_strlit("regexp");
    reveal_strlit("idx");
    assert("str"@[0] != "idx"@[0]);
    assert("str"@.len() != "regexp"@.len());
    assert("idx"@.len() != "regexp"@.len());
}

/// Spark's `regexp_extract`, on the regular expressions of the `regex` crate.
///
/// Returns group `idx` of the first match. Group zero is the complete match; without an index it is
/// group one. Without a match, and for a group that takes no part in the match, the result is the
/// empty string; a null argument makes it null.
///
/// The regular expressions match in linear time, and are not those of `java.util.regex.Pattern`.
#[derive(Debug, PartialEq, Eq, Hash)]
pub struct SparkRegexpExtract {
    signature: Signature,
}

/// How each argument becomes a column: a subject that is a single value is repeated, while a pattern
/// or an index that is one serves for every row.
pub open spec fn regexp_extract_hints() -> Seq<ArgumentHint> {
    seq![ArgumentHint::Pad, ArgumentHint::AcceptsSingular, ArgumentHint::AcceptsSingular]
}

/// The one value of [`SparkRegexpExtract`] with the signature of `regexp_extract`.
pub open spec fn regexp_extract_function() -> SparkRegexpExtract {
    choose|function: SparkRegexpExtract| #[trigger]
        function.shape() == Some(regexp_extract_shape())
}

impl Default for SparkRegexpExtract {
    /// The same as [`SparkRegexpExtract::new`].
    fn default() -> (r: Self)
        ensures
            r == regexp_extract_function(),
            r.shape() == Some(regexp_extract_shape()),
    {
        Self::new()
    }
}

impl SparkRegexpExtract {
    /// The signature.
    pub closed spec fn spec_signature(&self) -> Signature {
        self.signature
    }

    /// What the function takes.
    pub open spec fn shape(&self) -> Option<SignatureShape> {
        signature_shape(self.spec_signature())
    }

    /// The function with its signature.
    pub fn new() -> (r: Self)
        ensures
            r == regexp_extract_function(),
            r.shape() == Some(regexp_extract_shape()),
    {
        let mut two: Vec<Coercion> = Vec::new();
        two.push(string_coercion());
        two.push(string_coercion());
        let mut three: Vec<Coercion> = Vec::new();
        three.push(string_coercion());
        three.push(string_coercion());
        three.push(index_coercion());
        let ghost shapes = regexp_extract_shape();
        proof {
            assert(Seq::new(two@.len(), |i: int| coercion_shape(two@[i])->0)
                =~= shapes.alternatives[0]);
            assert(Seq::new(three@.len(), |i: int| coercion_shape(three@[i])->0)
                =~= shapes.alternatives[1]);
        }
        let mut alternatives: Vec<TypeSignature> = Vec::new();
        alternatives.push(coercible(two));
        alternatives.push(coercible(three));
        proof {
            assert(Seq::new(
                alternatives@.len(),
                |i: int| arguments_shape(alternatives@[i])->0,
            ) =~= shapes.alternatives);
        }
        let mut names: Vec<String> = Vec::new();
        names.push("str".to_owned());
        names.push("regexp".to_owned());
        names.push("idx".to_owned());
        proof {
            assert(texts(names@) =~= shapes.parameter_names->0);
            lemma_parameter_names_suit();
        }
        let signature = one_of(alternatives, FunctionVolatility::Immutable);
        match with_parameter_names(signature, names) {
            Ok(signature) => {
                let r = SparkRegexpExtract { signature };
                proof {
                    let other = regexp_extract_function();
                    assert(r.shape() == Some(regexp_extract_shape()));
                    assert(other.shape() == r.shape());
                    assert(other.signature == r.signature);
                }
                r
            },
            Err(_) => vstd::pervasive::unreached(),
        }
    }

    /// The name of the function.
    pub fn name(&self) -> (r: &str)
        ensures
            r@ == "regexp_extract"@,
    {
        "regexp_extract"
    }

    /// The signature of the function.
    pub fn signature(&self) -> (r: &Signature)
        ensures
            *r == self.spec_signature(),
    {
        &self.signature
    }

    /// How each argument becomes a column.
    pub fn argument_hints(&self) -> (r: Vec<ArgumentHint>)
        ensures
            r@ == regexp_extract_hints(),
    {
        let mut hints: Vec<ArgumentHint> = Vec::new();
        hints.push(ArgumentHint::Pad);
        hints.push(ArgumentHint::AcceptsSingular);
        hints.push(ArgumentHint::AcceptsSingular);
        assert(hints@ =~= regexp_extract_hints());
        hints
    }

    /// Refuses: the type of the result depends on the fields of the arguments.
    pub fn return_type(&self, _arg_types: &[DataType]) -> (r: Result<DataType, RegexpExtractError>)
        ensures
            r matches Err(e) && e@ == Fault::ReturnTypeCalled,
    {
        Err(RegexpExtractError::ReturnTypeCalled)
    }

    /// The field of the result: of the type of the subject, and nullable as soon as one argument is.
    pub fn return_field_from_args(&self, arg_fields: &[FieldRef]) -> (r: Result<
        FieldRef,
        RegexpExtractError,
    >)
        requires
            arg_fields.len() >= 1,
        ensures
            r matches Ok(field) && {
                &&& field_name(*field) == "regexp_extract"@
                &&& field_type(*field) == field_type(*arg_fields@[0])
                &&& field_nullable(*field) <==> exists|i: int|
                    0 <= i < arg_fields@.len() && field_nullable(*#[trigger] arg_fields@[i])
            },
    {
        let mut nullable = false;
        let mut i: usize = 0;
        while i < arg_fields.len()
            invariant
                0 <= i <= arg_fields.len(),
                nullable <==> exists|j: int|
                    0 <= j < i && field_nullable(*#[trigger] arg_fields@[j]),
            decreases arg_fields.len() - i,
        {
            if arg_fields[i].is_nullable() {
                nullable = true;
            }
            i = i + 1;
        }
        let data_type = arg_fields[0].data_type().clone();
        Ok(Arc::new(new_field(self.name(), data_type, nullable)))
    }
}

} // verus!
