//! Command-line options as plain data.
//!
//! The surrounding program parses its command line and hands the values in
//! here; the library decides what follows from them — most importantly which
//! verbosity the diagnostics sink should run at.

use vstd::prelude::*;

verus! {

/// The command-line arguments, as plain values.
pub struct Args {
    /// Output directory for generated pages.
    pub output: String,
    /// Input directory for page files.
    pub input: String,
    /// Show verbose messages.
    pub verbose: bool,
    /// Suppress warning messages.
    pub quiet: bool,
    /// Show debug messages.
    pub debug: bool,
    /// Silence output.
    pub silent: bool,
}

/// The verbosity a diagnostics sink runs at, coarsest last.
#[derive(PartialEq, Eq, Structural, Debug)]
pub enum Verbosity {
    Debug,
    Info,
    Error,
    Critical,
    Warning,
}

/// The verbosity the flags select: debug wins over verbose, verbose over
/// quiet, quiet over silent; with no flag, warnings and errors show.
pub open spec fn chosen_verbosity(debug: bool, verbose: bool, quiet: bool, silent: bool) -> Verbosity {
    if debug {
        Verbosity::Debug
    } else if verbose {
        Verbosity::Info
    } else if quiet {
        Verbosity::Error
    } else if silent {
        Verbosity::Critical
    } else {
        Verbosity::Warning
    }
}

impl Args {
    /// Pick the verbosity that the flags ask for.
    pub fn log_level(&self) -> (r: Verbosity)
        ensures
            r == chosen_verbosity(self.debug, self.verbose, self.quiet, self.silent),
    {
        if self.debug {
            Verbosity::Debug
        } else if self.verbose {
            Verbosity::Info
        } else if self.quiet {
            Verbosity::Error
        } else if self.silent {
            Verbosity::Critical
        } else {
            Verbosity::Warning
        }
    }

    /// The sanity check on the two roots: they must differ.
    pub fn roots_distinct(&self) -> (r: bool)
        ensures
            r == (self.input@ != self.output@),
    {
        let a = crate::text::chars_of_str(self.input.as_str());
        let b = crate::text::chars_of_str(self.output.as_str());
        !crate::node::eq_chars(&a, &b)
    }
}

} // verus!
