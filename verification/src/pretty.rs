//! Message formatting: a status icon, its spacing, and the message text.

use vstd::prelude::*;

verus! {

/// The icon shown in front of a log line.
#[derive(Debug, Clone, Copy, PartialEq, Eq, Structural)]
pub enum Status {
    INSTALLED,
    REMOVED,
    WARNING,
    ENVIRONMENT,
    LINK,
}

impl Status {
    /// The icon for this status.
    pub open spec fn spec_icon(self) -> Seq<char> {
        match self {
            Status::INSTALLED => "☁️"@,
            Status::REMOVED => "🗑️"@,
            Status::WARNING => "⚠️"@,
            Status::ENVIRONMENT => "🌍"@,
            Status::LINK => "🔗"@,
        }
    }

    pub fn icon(&self) -> (r: &'static str)
        ensures
            r@ == self.spec_icon(),
    {
        match self {
            Status::INSTALLED => "☁️",
            Status::REMOVED => "🗑️",
            Status::WARNING => "⚠️",
            Status::ENVIRONMENT => "🌍",
            Status::LINK => "🔗",
        }
    }
}

/// The formatted line: the icon and its spacing, then the message. Wide
/// icons get two spaces, narrow ones get one, and a line without a status
/// gets an arrow prefix.
pub open spec fn spec_format(status: Option<Status>, message: Seq<char>) -> Seq<char> {
    match status {
        Some(s) => {
            let gap = match s {
                Status::ENVIRONMENT | Status::LINK => " "@,
                Status::INSTALLED | Status::REMOVED | Status::WARNING => "  "@,
            };
            s.spec_icon() + gap + message
        },
        None => "►  "@ + message,
    }
}

/// Formats one log line.
pub fn format(status: Option<Status>, message: &str) -> (r: String)
    ensures
        r@ == spec_format(status, message@),
{
    match status {
        Some(s) => {
            let mut out = String::from_str(s.icon());
            match s {
                Status::ENVIRONMENT | Status::LINK => out.append(" "),
                Status::INSTALLED | Status::REMOVED | Status::WARNING => out.append("  "),
            }
            out.append(message);
            out
        },
        None => {
            let mut out = String::from_str("►  ");
            out.append(message);
            out
        },
    }
}

} // verus!
