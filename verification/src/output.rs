//! A plain model of the JSON objects the commands print: flat objects
//! whose values are integers, texts, or one level of nested object. The
//! application turns them into JSON text.

use vstd::prelude::*;

verus! {

/// A scalar JSON value.
#[derive(Debug, Clone, PartialEq, Eq)]
pub enum OutScalar {
    Int(i64),
    Text(String),
}

/// A JSON value of an output object: a scalar, or an object of scalars.
#[derive(Debug, Clone, PartialEq, Eq)]
pub enum OutValue {
    Scalar(OutScalar),
    Object(Vec<(String, OutScalar)>),
}

/// The view of a scalar.
pub enum OutScalarV {
    Int(i64),
    Text(Seq<char>),
}

/// The view of a value.
pub enum OutValueV {
    Scalar(OutScalarV),
    Object(Seq<(Seq<char>, OutScalarV)>),
}

impl View for OutScalar {
    type V = OutScalarV;

    open spec fn view(&self) -> OutScalarV {
        match self {
            OutScalar::Int(n) => OutScalarV::Int(*n),
            OutScalar::Text(s) => OutScalarV::Text(s@),
        }
    }
}

/// The view of the fields of a nested object.
pub open spec fn scalar_fields_view(f: Seq<(String, OutScalar)>) -> Seq<(Seq<char>, OutScalarV)> {
    f.map_values(|p: (String, OutScalar)| (p.0@, p.1@))
}

impl View for OutValue {
    type V = OutValueV;

    open spec fn view(&self) -> OutValueV {
        match self {
            OutValue::Scalar(s) => OutValueV::Scalar(s@),
            OutValue::Object(f) => OutValueV::Object(scalar_fields_view(f@)),
        }
    }
}

/// The view of the fields of an output object.
pub open spec fn fields_view(f: Seq<(String, OutValue)>) -> Seq<(Seq<char>, OutValueV)> {
    f.map_values(|p: (String, OutValue)| (p.0@, p.1@))
}

/// A text field.
pub fn text_field(key: &str, value: &str) -> (r: (String, OutValue))
    ensures
        r.0@ == key@,
        r.1@ == OutValueV::Scalar(OutScalarV::Text(value@)),
{
    let mut k = String::new();
    k.append(key);
    let mut v = String::new();
    v.append(value);
    assert(k@ =~= key@);
    assert(v@ =~= value@);
    (k, OutValue::Scalar(OutScalar::Text(v)))
}

/// An integer field.
pub fn int_field(key: &str, value: i64) -> (r: (String, OutValue))
    ensures
        r.0@ == key@,
        r.1@ == OutValueV::Scalar(OutScalarV::Int(value)),
{
    let mut k = String::new();
    k.append(key);
    assert(k@ =~= key@);
    (k, OutValue::Scalar(OutScalar::Int(value)))
}

/// A text entry of a nested object.
pub fn text_entry(key: &str, value: &str) -> (r: (String, OutScalar))
    ensures
        r.0@ == key@,
        r.1@ == OutScalarV::Text(value@),
{
    let mut k = String::new();
    k.append(key);
    let mut v = String::new();
    v.append(value);
    assert(k@ =~= key@);
    assert(v@ =~= value@);
    (k, OutScalar::Text(v))
}

/// An integer entry of a nested object.
pub fn int_entry(key: &str, value: i64) -> (r: (String, OutScalar))
    ensures
        r.0@ == key@,
        r.1@ == OutScalarV::Int(value),
{
    let mut k = String::new();
    k.append(key);
    assert(k@ =~= key@);
    (k, OutScalar::Int(value))
}

} // verus!
