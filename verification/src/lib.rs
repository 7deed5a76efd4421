//! Reconstructs a newest-first report of login sessions, reboots, shutdowns
//! and run-level changes from a decoded login-accounting record sequence.

pub mod laws;
pub mod reconstruct;
pub mod record;
pub mod textutil;
pub mod timefmt;

use vstd::prelude::*;
use vstd::string::StringExecFns;

verus! {

/// Longer usage text shown below the option summary.
pub fn get_long_usage() -> (s: String)
    ensures
        s@ == "For more details see last(1)."@,
{
    String::from_str("For more details see last(1).")
}

} // verus!
