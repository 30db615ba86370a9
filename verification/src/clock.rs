//! Wall-clock readings. The rest of the library takes these readings as
//! plain arguments, so everything downstream of a reading is verified for
//! every value the clock could produce.

use vstd::prelude::*;

verus! {

/// Milliseconds since the Unix epoch. Relies on chrono::Utc::now and
/// chrono::DateTime::timestamp_millis; nothing is assumed of the reading.
#[verifier::external_body]
pub fn now_millis() -> (r: i64) {
    chrono::Utc::now().timestamp_millis()
}

/// The current time as a compact `yyyymmdd_hhmmss` text, used to derive a
/// fresh file name on a collision. Relies on chrono::Utc::now and
/// chrono::DateTime::format; nothing is assumed of the reading.
#[verifier::external_body]
pub fn timestamp_suffix() -> (r: String) {
    chrono::Utc::now().format("%Y%m%d_%H%M%S").to_string()
}

} // verus!
