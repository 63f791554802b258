//! The parsing boundary.
//!
//! Raw configuration text is parsed by an outside library into a
//! generic nested value; everything after that point is verified. The
//! items here are the trusted boundary around that one call.

use vstd::prelude::*;

use crate::value::{HclValue, ValueModel};

verus! {

#[verifier::external_type_specification]
#[verifier::external_body]
pub struct ExJsonValue(serde_json::Value);

/// What parsing one configuration source yields: a function of the
/// text alone. `None` stands for a parse failure.
pub uninterp spec fn parsed_hcl(s: Seq<char>) -> Option<ValueModel>;

/// Converts the outside parser's tree into the crate's own value form,
/// node for node. Relies on `serde_json::Value` having exactly the six
/// shapes matched here; numbers are kept in their textual form.
#[verifier::external_body]
fn from_json(v: serde_json::Value) -> HclValue {
    match v {
        serde_json::Value::Null => HclValue::Null,
        serde_json::Value::Bool(b) => HclValue::Bool(b),
        serde_json::Value::Number(n) => HclValue::Num(n.to_string()),
        serde_json::Value::String(s) => HclValue::Text(s),
        serde_json::Value::Array(items) => HclValue::Arr(
            items.into_iter().map(from_json).collect(),
        ),
        serde_json::Value::Object(entries) => HclValue::Obj(
            entries.into_iter().map(|(k, x)| (k, from_json(x))).collect(),
        ),
    }
}

/// Relies on `hcl::from_str`: parsing is deterministic in the input
/// text and yields the configuration as one nested map/array/scalar
/// tree following the HCL JSON specification, or fails.
#[verifier::external_body]
pub fn parse_hcl(text: &str) -> (r: Option<HclValue>)
    ensures
        match r {
            Some(v) => parsed_hcl(text@) == Some(v@),
            None => parsed_hcl(text@) is None,
        },
{
    match hcl::from_str::<serde_json::Value>(text) {
        Ok(v) => Some(from_json(v)),
        Err(_) => None,
    }
}

} // verus!
