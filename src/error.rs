//! The ways an installation run can fail.
use vstd::prelude::*;
use crate::text::{decimal, push_decimal, push_str, text_of};

verus! {

/// Error kinds surfaced by the command runner and the step controller.
#[derive(Debug)]
pub enum InstallerError {
    /// A spawn, stream or file failure unrelated to a missing executable.
    Io(String),
    /// The process ran and exited with a nonzero status.
    CommandFailed(String, i32),
    /// The executable could not be found on the search path.
    CommandNotFound(String),
    /// The operator declined a required confirmation.
    Cancelled,
    /// The process lacks root privilege.
    NotRoot,
    /// The interactive prompt itself failed.
    Prompt(String),
}

/// A signed integer in decimal.
pub open spec fn signed_decimal(n: i32) -> Seq<char> {
    if n < 0 {
        "-"@ + decimal((-n) as nat)
    } else {
        decimal(n as nat)
    }
}

/// The one-line message shown for an error.
pub open spec fn message_of(e: InstallerError) -> Seq<char> {
    match e {
        InstallerError::Io(cause) => "I/O error: "@ + cause@,
        InstallerError::CommandFailed(p, c) => "Command '"@ + p@ + "' failed with exit code "@
            + signed_decimal(c),
        InstallerError::CommandNotFound(p) => "Command '"@ + p@ + "' not found — is it installed?"@,
        InstallerError::Cancelled => "Installation cancelled by user"@,
        InstallerError::NotRoot => "This installer must be run as root (sudo)"@,
        InstallerError::Prompt(cause) => "Prompt error: "@ + cause@,
    }
}

impl InstallerError {
    /// The one-line message shown for this error.
    pub fn message(&self) -> (r: String)
        ensures
            r@ == message_of(*self),
    {
        let mut out: Vec<char> = Vec::new();
        match self {
            InstallerError::Io(cause) => {
                push_str(&mut out, "I/O error: ");
                push_str(&mut out, cause.as_str());
            },
            InstallerError::CommandFailed(p, c) => {
                push_str(&mut out, "Command '");
                push_str(&mut out, p.as_str());
                push_str(&mut out, "' failed with exit code ");
                if *c < 0 {
                    push_str(&mut out, "-");
                    push_decimal(&mut out, (-(*c as i64)) as u64);
                } else {
                    push_decimal(&mut out, *c as u64);
                }
            },
            InstallerError::CommandNotFound(p) => {
                push_str(&mut out, "Command '");
                push_str(&mut out, p.as_str());
                push_str(&mut out, "' not found — is it installed?");
            },
            InstallerError::Cancelled => {
                push_str(&mut out, "Installation cancelled by user");
            },
            InstallerError::NotRoot => {
                push_str(&mut out, "This installer must be run as root (sudo)");
            },
            InstallerError::Prompt(cause) => {
                push_str(&mut out, "Prompt error: ");
                push_str(&mut out, cause.as_str());
            },
        }
        assert(out@ =~= message_of(*self));
        text_of(&out)
    }
}

} // verus!
