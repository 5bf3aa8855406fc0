//! Settings that follow from the command line.

use vstd::prelude::*;

verus! {

/// How much the program reports.
#[derive(PartialEq, Eq, Structural, Clone, Copy, Debug)]
pub enum LogLevel {
    Debug,
    Info,
    Warn,
}

/// The level of the log: debug output with `--debug`, only warnings and
/// errors with `--quiet`, and information otherwise.
pub fn log_level(debug: bool, quiet: bool) -> (r: LogLevel)
    ensures
        r == (if debug {
            LogLevel::Debug
        } else if quiet {
            LogLevel::Warn
        } else {
            LogLevel::Info
        }),
{
    if debug {
        LogLevel::Debug
    } else if quiet {
        LogLevel::Warn
    } else {
        LogLevel::Info
    }
}

/// Whether each planned move is printed before it is carried out: with
/// `--verbose`, and otherwise unless `--quiet`.
pub fn reports_moves(verbose: bool, quiet: bool) -> (r: bool)
    ensures
        r == (verbose || !quiet),
{
    verbose || !quiet
}

} // verus!
