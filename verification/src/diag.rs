//! Structured diagnostics.
//!
//! Directive failures and interpolation problems never unwind: they append an
//! entry to the engine's log and the surrounding construct contributes nothing
//! to the tree. Entries carry enough of the offending input to diagnose the
//! problem, in a bounded form.

use vstd::prelude::*;

verus! {

/// One diagnostic produced while building a page.
pub enum LogEntry {
    /// Warning: a variable reference did not resolve anywhere on the scope
    /// chain; the placeholder text was substituted.
    UndefinedVar(Vec<char>),
    /// Error: a variable reference was still open at the end of its input;
    /// the payload is the unterminated remainder, truncated.
    UnclosedRef(Vec<char>),
    /// Warning: a tagged value named no known directive.
    UnknownDirective(Vec<char>),
    /// Error: a directive's argument had the wrong shape; the payload is the
    /// tag and a bounded textual rendering of the argument.
    InvalidDirective(Vec<char>, Vec<char>),
    /// Error: a path argument resolved outside the sandbox root.
    PathOutsideRoot(Vec<char>),
    /// Error: a path argument resolved to no file of the input snapshot.
    MissingFile(Vec<char>),
    /// Error: a path argument was empty.
    BlankPath,
    /// Error: a file insertion reached a file already being inserted.
    CycleDetected(Vec<char>),
    /// Error: an inserted file did not parse as a document stream.
    ParseFailed(Vec<char>),
    /// Error: the shell-command directive is present but not enabled.
    ShellDisabled(Vec<char>),
}

/// The mathematical form of a `LogEntry`.
pub ghost enum LogV {
    UndefinedVar(Seq<char>),
    UnclosedRef(Seq<char>),
    UnknownDirective(Seq<char>),
    InvalidDirective(Seq<char>, Seq<char>),
    PathOutsideRoot(Seq<char>),
    MissingFile(Seq<char>),
    BlankPath,
    CycleDetected(Seq<char>),
    ParseFailed(Seq<char>),
    ShellDisabled(Seq<char>),
}

impl View for LogEntry {
    type V = LogV;

    open spec fn view(&self) -> LogV {
        match self {
            LogEntry::UndefinedVar(s) => LogV::UndefinedVar(s@),
            LogEntry::UnclosedRef(s) => LogV::UnclosedRef(s@),
            LogEntry::UnknownDirective(s) => LogV::UnknownDirective(s@),
            LogEntry::InvalidDirective(t, s) => LogV::InvalidDirective(t@, s@),
            LogEntry::PathOutsideRoot(s) => LogV::PathOutsideRoot(s@),
            LogEntry::MissingFile(s) => LogV::MissingFile(s@),
            LogEntry::BlankPath => LogV::BlankPath,
            LogEntry::CycleDetected(s) => LogV::CycleDetected(s@),
            LogEntry::ParseFailed(s) => LogV::ParseFailed(s@),
            LogEntry::ShellDisabled(s) => LogV::ShellDisabled(s@),
        }
    }
}

impl DeepView for LogEntry {
    type V = LogV;

    open spec fn deep_view(&self) -> LogV {
        self.view()
    }
}

/// Whether an entry is a warning (anything else is an error).
pub open spec fn is_warning(e: LogV) -> bool {
    match e {
        LogV::UndefinedVar(_) => true,
        LogV::UnknownDirective(_) => true,
        _ => false,
    }
}

impl LogEntry {
    /// Whether this entry is a warning (anything else is an error).
    pub fn warning(&self) -> (r: bool)
        ensures
            r == is_warning(self@),
    {
        match self {
            LogEntry::UndefinedVar(_) => true,
            LogEntry::UnknownDirective(_) => true,
            _ => false,
        }
    }
}

} // verus!
