//! A verified interpreter core for an 8-bit virtual machine with a
//! monochrome frame buffer, sixteen registers, a call stack and two
//! hardware timers.
//!
//! The crate holds the fetch-decode-execute engine: the opcode decoder,
//! the per-instruction state transitions, and the per-iteration timer
//! step.  Presentation (window, audio, key polling, argument parsing)
//! is left to the embedding program, which drives the loop and hands the
//! machine plain values.
use vstd::prelude::*;

pub mod cpu;
pub mod display;
pub mod execute;
pub mod keyboard;
pub mod machine;
pub mod optcodes;
pub mod rng;

verus! {

/// Map a verbosity count to a log-level name, saturating at the most
/// verbose level when the count runs past the end of the scale.
pub fn log_level(lvl: usize) -> (r: String)
    ensures
        r@ == spec_log_level(lvl),
{
    if lvl == 0 {
        String::from_str("none")
    } else if lvl == 1 {
        String::from_str("error")
    } else if lvl == 2 {
        String::from_str("warn")
    } else if lvl == 3 {
        String::from_str("info")
    } else if lvl == 4 {
        String::from_str("debug")
    } else {
        String::from_str("trace")
    }
}

/// The log-level name owed for each verbosity count.
pub open spec fn spec_log_level(lvl: usize) -> Seq<char> {
    if lvl == 0 {
        "none"@
    } else if lvl == 1 {
        "error"@
    } else if lvl == 2 {
        "warn"@
    } else if lvl == 3 {
        "info"@
    } else if lvl == 4 {
        "debug"@
    } else {
        "trace"@
    }
}

} // verus!
