//! What the logger is set up with. The setting up itself touches the
//! environment of the process and is left to the caller.

use vstd::prelude::*;

verus! {

/// The name of the environment variable that the logger reads its filter
/// from.
pub open spec fn log_variable_name() -> Seq<char> {
    "RUST_LOG"@
}

/// The filter for a run: everything down to debug messages for a verbose
/// run, and down to informational messages otherwise.
pub open spec fn filter_of(verbose: bool) -> Seq<char> {
    if verbose {
        "debug"@
    } else {
        "info"@
    }
}

/// The name of the environment variable to set before the logger starts.
pub fn log_variable() -> (name: &'static str)
    ensures
        name@ == log_variable_name(),
{
    "RUST_LOG"
}

/// The filter to set the variable to.
pub fn log_filter(verbose: bool) -> (filter: &'static str)
    ensures
        filter@ == filter_of(verbose),
{
    if verbose {
        "debug"
    } else {
        "info"
    }
}

} // verus!
