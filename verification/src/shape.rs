//! The shape validator: decides whether a candidate type is eligible
//! for codec generation — exactly one unnamed field whose type is a
//! fixed-size array of 8-bit unsigned integers with a literal length —
//! and extracts that length.

use vstd::prelude::*;

verus! {

/// The element type of an array field, as far as eligibility cares:
/// an 8-bit unsigned integer, or anything else.
#[derive(Clone, Copy, Debug, PartialEq, Eq, Structural)]
pub enum ElemType {
    Byte,
    Other,
}

/// The length expression of an array field: a literal integer with a
/// statically known value, or any non-literal expression.
#[derive(Clone, Copy, Debug, PartialEq, Eq, Structural)]
pub enum ArrayLen {
    Literal(usize),
    NonLiteral,
}

/// The declared type of one field, as far as eligibility cares.
#[derive(Clone, Copy, Debug, PartialEq, Eq, Structural)]
pub enum FieldType {
    Array(ElemType, ArrayLen),
    NonArray,
}

/// The fields of a candidate struct: named, unnamed (positional), or
/// none at all (a unit struct).
#[derive(Debug)]
pub enum FieldList {
    Named(Vec<FieldType>),
    Unnamed(Vec<FieldType>),
    Unit,
}

/// A candidate type under inspection: its name and its field list.
/// Constructed once per generation request and read only.
#[derive(Debug)]
pub struct TypeDescriptor {
    pub name: String,
    pub fields: FieldList,
}

/// The generation-time failure: the candidate type's shape is
/// ineligible. Carries a human-readable message naming the violated
/// expectation; no code is generated for the type.
#[derive(Debug)]
pub struct ShapeError {
    pub message: String,
}

/// Eligibility: exactly one unnamed field whose type is an array of
/// 8-bit unsigned integers with a literal length.
pub open spec fn eligible(d: TypeDescriptor) -> bool {
    match d.fields {
        FieldList::Unnamed(fs) => fs.len() == 1 && (fs[0] matches FieldType::Array(
            ElemType::Byte,
            ArrayLen::Literal(_),
        )),
        _ => false,
    }
}

/// The byte length of an eligible type (meaningful under `eligible`).
pub open spec fn eligible_len(d: TypeDescriptor) -> usize {
    match d.fields {
        FieldList::Unnamed(fs) => match fs[0] {
            FieldType::Array(_, ArrayLen::Literal(n)) => n,
            _ => 0,
        },
        _ => 0,
    }
}

/// Decides whether `d` may receive a generated codec. Succeeds with
/// the array length exactly on eligible shapes; every other shape is
/// rejected with a diagnostic, and nothing is generated. `d` itself is
/// never changed.
pub fn validate(d: &TypeDescriptor) -> (r: Result<usize, ShapeError>)
    ensures
        match r {
            Ok(n) => eligible(*d) && n == eligible_len(*d),
            Err(_) => !eligible(*d),
        },
{
    match &d.fields {
        FieldList::Unnamed(fs) => {
            if fs.len() == 1 {
                match fs[0] {
                    FieldType::Array(ElemType::Byte, ArrayLen::Literal(n)) => Ok(n),
                    _ => Err(ineligible_shape()),
                }
            } else {
                Err(ineligible_shape())
            }
        },
        _ => Err(ineligible_shape()),
    }
}

/// The diagnostic produced for every ineligible shape.
fn ineligible_shape() -> (r: ShapeError)
    ensures
        r.message@ == "codec generation requires a struct with a single [u8; N] field"@,
{
    ShapeError {
        message: "codec generation requires a struct with a single [u8; N] field".to_owned(),
    }
}

} // verus!
