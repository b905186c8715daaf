//! Opaque identifiers for traces, programs and reports.

use vstd::prelude::*;

verus! {

/// Relies on `uuid::Uuid::new_v4` and its `Display` form: a freshly drawn
/// random UUID rendered in the hyphenated format, which is 36 characters.
/// Nothing more is promised: the value is random.
#[verifier::external_body]
pub fn generate_id() -> (r: String)
    ensures
        r@.len() == 36,
{
    uuid::Uuid::new_v4().to_string()
}

} // verus!
