//! What the library takes from its surroundings: the wall clock and random
//! identifiers.

use vstd::prelude::*;

verus! {

/// Relies on `chrono::Utc::now` and `DateTime::timestamp_nanos_opt`: the
/// current UTC time as nanoseconds since the Unix epoch (`i64::MAX` past the
/// year 2262, where that count no longer fits). Nothing is promised of the
/// value, which depends on the machine's clock. `Utc::now` panics when the
/// system clock reads a time before 1970; that depends on the machine, not on
/// any argument.
#[verifier::external_body]
pub(crate) fn now_nanos() -> (r: i64) {
    chrono::Utc::now().timestamp_nanos_opt().unwrap_or(i64::MAX)
}

/// Relies on `uuid::Uuid::new_v4` and its `Display`, which writes the hyphenated
/// lower-case form: a fresh random identifier of 36 characters.
#[verifier::external_body]
pub(crate) fn new_uuid() -> (r: String)
    ensures
        r@.len() == 36,
{
    uuid::Uuid::new_v4().to_string()
}

} // verus!
