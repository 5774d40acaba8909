//! The event listeners that report download progress, and the logging level.

use vstd::prelude::*;

verus! {

/// A listener that prints each event as one line of JSON.
#[derive(Debug, Clone, Copy)]
pub struct JsonLinesEventListener;

impl JsonLinesEventListener {
    /// The listener.
    pub fn new() -> (r: Self) {
        JsonLinesEventListener
    }
}

impl Default for JsonLinesEventListener {
    fn default() -> (r: Self) {
        Self::new()
    }
}

/// A listener that records each event in the structured log.
#[derive(Debug, Clone, Copy)]
pub struct TracingEventListener;

impl TracingEventListener {
    /// The listener.
    pub fn new() -> (r: Self) {
        TracingEventListener
    }
}

impl Default for TracingEventListener {
    fn default() -> (r: Self) {
        Self::new()
    }
}

/// The log level used when the environment sets none: `error` when quiet, else `debug`
/// when verbose, else `info`.
pub fn default_log_level(verbose: bool, quiet: bool) -> (r: &'static str)
    ensures
        r@ == if quiet {
            "error"@
        } else if verbose {
            "debug"@
        } else {
            "info"@
        },
{
    if quiet {
        "error"
    } else if verbose {
        "debug"
    } else {
        "info"
    }
}

} // verus!
