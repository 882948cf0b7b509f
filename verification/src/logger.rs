//! The logging capability handed to the workflows: a verbosity level and
//! the decision of what reaches the console.

use vstd::prelude::*;
use std::io::Write;

verus! {

#[derive(PartialEq, Eq, Structural, Copy, Clone, Debug)]
pub enum Verbosity {
    High,
    Low,
    Quiet,
}

#[derive(Copy, Clone)]
pub struct Logger {
    pub verbosity: Verbosity,
}

/// Relies on `std::io::Stdout` and the `writeln` macro: prints one line of
/// progress to standard output.
#[verifier::external_body]
fn print_progress_line(title: &str, msg: &str) {
    let mut out = std::io::stdout();
    let _ = writeln!(&mut out, "{} {}", title, msg);
}

/// Relies on `std::io::Stderr` and the `writeln` macro: prints one line to
/// standard error.
#[verifier::external_body]
fn print_error_line(err: &str) {
    let mut out = std::io::stderr();
    let _ = writeln!(&mut out, "error: {}", err);
}

impl Logger {
    pub fn new(verbosity: Verbosity) -> (r: Self)
        ensures
            r.verbosity == verbosity,
    {
        Logger { verbosity }
    }

    /// A progress line, shown only at high verbosity.
    pub fn verbose(&self, title: &str, msg: &str) {
        if self.verbosity == Verbosity::High {
            print_progress_line(title, msg);
        }
    }

    /// An error line, suppressed only when quiet.
    pub fn error(&self, err: &str) {
        if !(self.verbosity == Verbosity::Quiet) {
            print_error_line(err);
        }
    }
}

} // verus!
