//! Log severities. Writing log lines — timestamps included — is the
//! embedding application's concern; the severities and their labels are
//! shared here.

use vstd::prelude::*;

verus! {

/// The severity of a log line.
#[derive(PartialEq, Eq, Structural, Clone, Copy, Debug)]
pub enum LogTypeTag {
    INFO,
    DEBUG,
    WARNING,
    FATAL,
}

/// The label of each severity.
pub open spec fn spec_log_label(tag: LogTypeTag) -> Seq<char> {
    match tag {
        LogTypeTag::INFO => "INFO"@,
        LogTypeTag::DEBUG => "DEBUG"@,
        LogTypeTag::WARNING => "WARNING"@,
        LogTypeTag::FATAL => "FATAL"@,
    }
}

impl LogTypeTag {
    /// Writes the severity's label.
    pub fn label(&self) -> (r: &'static str)
        ensures
            r@ == spec_log_label(*self),
    {
        match self {
            LogTypeTag::INFO => "INFO",
            LogTypeTag::DEBUG => "DEBUG",
            LogTypeTag::WARNING => "WARNING",
            LogTypeTag::FATAL => "FATAL",
        }
    }
}

} // verus!
