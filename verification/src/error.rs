//! The errors of the shell.

use vstd::prelude::*;
use vstd::string::StringExecFns;

verus! {

/// The error type of rustyline, `rustyline::error::ReadlineError`. Its
/// values are carried through as they are: nothing is known of what they
/// hold.
#[verifier::external_type_specification]
#[verifier::external_body]
pub struct ExReadlineError(rustyline::error::ReadlineError);

/// What can go wrong while commands are registered, parsed and run.
#[derive(Debug)]
#[non_exhaustive]
#[allow(inconsistent_fields)]
pub enum ShiError {
    /// The line editor failed.
    ReadlineError(rustyline::error::ReadlineError),
    /// A command that needs arguments got none.
    NoArgs,
    /// A command that takes no arguments got some.
    ExtraArgs { got: Vec<String> },
    /// The word after a parent command names none of its children.
    InvalidSubCommand { got: String, expected: Vec<String> },
    /// The first word names no command.
    UnrecognizedCommand { got: String },
    /// A command of that name is registered already.
    AlreadyRegistered { cmd: String },
    /// A line did not resolve to a command.
    ParseError {
        msg: String,
        possibilities: Vec<String>,
        cmd_path: Vec<String>,
        remaining: Vec<String>,
    },
    /// Any other failure, with its description.
    General { msg: String },
}

/// The text that `Debug` formatting gives for a list of strings.
pub uninterp spec fn debug_text(items: Seq<Seq<char>>) -> Seq<char>;

/// `Debug` formatting of a list of strings, by `format!` with `{:?}` from
/// the standard library. The text depends on the strings alone; the contract
/// gives it the name `debug_text` and says nothing more of it.
#[verifier::external_body]
pub(crate) fn debug_list(items: &[String]) -> (r: String)
    ensures
        r@ == debug_text(items.deep_view()),
{
    format!("{:?}", items)
}

/// The text of an error, as it is shown to the user.
pub open spec fn error_text(e: ShiError) -> Seq<char> {
    match e {
        ShiError::ReadlineError(_) => "readline error"@,
        ShiError::NoArgs => "expected a non-zero number of args, got none"@,
        ShiError::ExtraArgs { got } => "expected no args, but got "@ + debug_text(got.deep_view()),
        ShiError::InvalidSubCommand { got, expected } => "invalid sub command, got "@ + got@
            + " but expected "@ + debug_text(expected.deep_view()),
        ShiError::UnrecognizedCommand { got } => "unrecognized command: '"@ + got@ + "'"@,
        ShiError::AlreadyRegistered { cmd } => "command already registered: "@ + cmd@,
        ShiError::ParseError { msg, possibilities, cmd_path, remaining } =>
            "command failed to parse: "@ + msg@,
        ShiError::General { msg } => "error: "@ + msg@,
    }
}

impl ShiError {
    /// An error that holds only a description.
    pub fn general(msg: &str) -> (e: ShiError)
        ensures
            e matches ShiError::General { msg: m } && m@ == msg@,
    {
        ShiError::General { msg: String::from_str(msg) }
    }

    /// The text of this error, as it is shown to the user.
    pub fn message(&self) -> (r: String)
        ensures
            r@ == error_text(*self),
    {
        match self {
            ShiError::ReadlineError(_) => String::from_str("readline error"),
            ShiError::NoArgs => String::from_str("expected a non-zero number of args, got none"),
            ShiError::ExtraArgs { got } => {
                let mut r = String::from_str("expected no args, but got ");
                let list = debug_list(got.as_slice());
                r.append(list.as_str());
                r
            },
            ShiError::InvalidSubCommand { got, expected } => {
                let mut r = String::from_str("invalid sub command, got ");
                r.append(got.as_str());
                r.append(" but expected ");
                let list = debug_list(expected.as_slice());
                r.append(list.as_str());
                r
            },
            ShiError::UnrecognizedCommand { got } => {
                let mut r = String::from_str("unrecognized command: '");
                r.append(got.as_str());
                r.append("'");
                r
            },
            ShiError::AlreadyRegistered { cmd } => {
                let mut r = String::from_str("command already registered: ");
                r.append(cmd.as_str());
                r
            },
            ShiError::ParseError { msg, .. } => {
                let mut r = String::from_str("command failed to parse: ");
                r.append(msg.as_str());
                r
            },
            ShiError::General { msg } => {
                let mut r = String::from_str("error: ");
                r.append(msg.as_str());
                r
            },
        }
    }
}

impl From<rustyline::error::ReadlineError> for ShiError {
    /// Wraps an error of the line editor.
    fn from(err: rustyline::error::ReadlineError) -> (e: ShiError) {
        ShiError::ReadlineError(err)
    }
}

impl vstd::std_specs::convert::FromSpecImpl<rustyline::error::ReadlineError> for ShiError {
    open spec fn obeys_from_spec() -> bool {
        true
    }

    open spec fn from_spec(err: rustyline::error::ReadlineError) -> ShiError {
        ShiError::ReadlineError(err)
    }
}

} // verus!
