//! The wall clock, behind a trusted boundary: everything computed from a
//! reading is verified for every value the clock could hand back.

use vstd::prelude::*;

verus! {

/// Relies on std::time::SystemTime (`now`, `duration_since(UNIX_EPOCH)`) and
/// std::time::Duration (`as_secs`, `subsec_nanos`): the wall clock now, as
/// whole seconds since the Unix epoch and nanoseconds within the second. The
/// nanosecond part is below one billion, as `subsec_nanos` documents; a clock
/// that stands before the epoch is reported as the epoch itself.
#[verifier::external_body]
pub(crate) fn now_unix_parts() -> (r: (u64, u32))
    ensures
        r.1 < 1_000_000_000,
{
    match std::time::SystemTime::now().duration_since(std::time::UNIX_EPOCH) {
        Ok(d) => (d.as_secs(), d.subsec_nanos()),
        Err(_) => (0, 0),
    }
}

} // verus!
