//! JSON values, as the `serde_json` crate holds them.

use vstd::prelude::*;

verus! {

/// A JSON value, carried as it is.
#[verifier::external_type_specification]
#[verifier::external_body]
pub struct ExJsonValue(serde_json::Value);

/// The compact JSON text of a value.
pub uninterp spec fn json_text(value: serde_json::Value) -> Seq<char>;

/// Whether `serde_json` takes two different values to be equal.
pub uninterp spec fn json_alike(a: serde_json::Value, b: serde_json::Value) -> bool;

/// Whether `serde_json` takes two values to be equal. A value equals itself.
pub open spec fn json_equal(a: serde_json::Value, b: serde_json::Value) -> bool {
    a == b || json_alike(a, b)
}

/// `serde_json::Value::to_string`, by its `Display` implementation: the value's compact
/// JSON text, which depends on the value alone.
#[verifier::external_body]
pub(crate) fn value_text(value: &serde_json::Value) -> (r: String)
    ensures
        r@ == json_text(*value),
{
    value.to_string()
}

/// `serde_json::Value` as `PartialEq`: structural equality of two values. A value equals
/// itself, since a JSON number is never a NaN.
#[verifier::external_body]
pub(crate) fn values_equal(a: &serde_json::Value, b: &serde_json::Value) -> (r: bool)
    ensures
        r == (*a == *b || json_alike(*a, *b)),
{
    a == b
}

/// `serde_json::Value::clone`: the same value again.
pub assume_specification[ <serde_json::Value as Clone>::clone ](
    value: &serde_json::Value,
) -> (r: serde_json::Value)
    ensures
        r == *value,
;

} // verus!
