//! Payloads attached to the nodes of a chain.

use serde_json::Value;
use vstd::prelude::*;

verus! {

/// `serde_json::Value` is carried through the library unopened.
#[verifier::external_type_specification]
#[verifier::external_body]
pub struct ExValue(serde_json::Value);

/// Names what `serde_json::Value::is_null` answers for a value: whether it is
/// the JSON `null`.
pub uninterp spec fn is_null(v: Value) -> bool;

/// `serde_json::Value` derives `Clone`: the copy is the same tree of JSON data.
pub assume_specification[ <Value as Clone>::clone ](v: &Value) -> (r: Value)
    ensures
        r == *v,
;

/// Builds `serde_json::Value::Null`, the JSON `null`.
#[verifier::external_body]
fn null_value() -> (v: Value)
    ensures
        is_null(v),
{
    Value::Null
}

/// An identified payload of arbitrary JSON data.
#[derive(Debug, PartialEq)]
pub struct Action {
    pub id: u32,
    pub value: Value,
}

impl Action {
    /// An action with the given id; without a value it carries JSON `null`.
    pub fn new(id: u32, value: Option<Value>) -> (action: Action)
        ensures
            action.id == id,
            match value {
                Some(v) => action.value == v,
                None => is_null(action.value),
            },
    {
        let value = match value {
            Some(v) => v,
            None => null_value(),
        };
        Action { id, value }
    }
}

impl Clone for Action {
    fn clone(&self) -> (copy: Action)
        ensures
            copy == *self,
    {
        Action { id: self.id, value: self.value.clone() }
    }
}

} // verus!
