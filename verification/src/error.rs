//! Failure values returned by the validators: a reason-carrying failure
//! for identifier checks, and the closed set of mode-grammar failures.

use vstd::prelude::*;
use vstd::string::*;

verus! {

/// Failure of an identifier validator, carrying a human-readable reason.
pub struct ValidationError {
    pub message: String,
}

/// The framing given to an identifier-validator failure when it is
/// carried as the reason of a mode-parameter failure.
pub open spec fn validation_display(msg: Seq<char>) -> Seq<char> {
    "Validation error: "@ + msg + " [{}]"@
}

/// Formats a validator failure as it is carried inside a
/// mode-parameter failure.
pub fn validation_reason(e: &ValidationError) -> (r: String)
    ensures
        r@ == validation_display(e.message@),
{
    let mut r = String::from_str("Validation error: ");
    r.append(e.message.as_str());
    r.append(" [{}]");
    proof {
        assert(r@ =~= validation_display(e.message@));
    }
    r
}

/// Ghost mirror of [`CommandError`], with mathematical payloads; the
/// mode-grammar contracts are stated over this type.
#[verifier::ext_equal]
pub enum SpecCommandError {
    MissingParameter { index: int },
    UnknownUserModeFlag { index: int },
    UnknownMode { index: int, modechar: char, target: Seq<char> },
    InvalidModeParam { target: Seq<char>, modechar: char, param: Seq<char>, reason: Seq<char> },
    WrongParameter { command: Seq<char>, index: int },
}

/// Typed failure of the mode-grammar validators. Each variant carries
/// enough to format a protocol-level error reply; formatting itself is
/// the caller's job. Indices are 1-based positions in the original
/// parameter list.
pub enum CommandError {
    /// A flag-string in the mode-change request was empty.
    MissingParameter { index: usize },
    /// A user-mode flag-string held a character outside its alphabet.
    UnknownUserModeFlag { index: usize },
    /// A channel-mode flag-string held a letter outside its alphabet.
    UnknownMode { index: usize, modechar: char, target: String },
    /// A mode letter's argument was missing, unexpected, or malformed.
    InvalidModeParam { target: String, modechar: char, param: String, reason: String },
    /// A parameter was present where the command admits none.
    WrongParameter { command: String, index: usize },
}

impl DeepView for CommandError {
    type V = SpecCommandError;

    open spec fn deep_view(&self) -> SpecCommandError {
        match self {
            CommandError::MissingParameter { index } => SpecCommandError::MissingParameter {
                index: *index as int,
            },
            CommandError::UnknownUserModeFlag { index } => SpecCommandError::UnknownUserModeFlag {
                index: *index as int,
            },
            CommandError::UnknownMode { index, modechar, target } => SpecCommandError::UnknownMode {
                index: *index as int,
                modechar: *modechar,
                target: target@,
            },
            CommandError::InvalidModeParam {
                target,
                modechar,
                param,
                reason,
            } => SpecCommandError::InvalidModeParam {
                target: target@,
                modechar: *modechar,
                param: param@,
                reason: reason@,
            },
            CommandError::WrongParameter { command, index } => SpecCommandError::WrongParameter {
                command: command@,
                index: *index as int,
            },
        }
    }
}

} // verus!
