//! A command that hands its arguments back.

use core::marker::PhantomData;
use vstd::prelude::*;
use vstd::string::StringExecFns;
use crate::command::BaseCommand;
use crate::error::ShiError;

verus! {

/// A command named `echo` that answers with the arguments it was given. It
/// is of use while a command tree is laid out and its commands are not
/// written yet.
#[derive(Debug)]
pub struct EchoCommand<S> {
    phantom: PhantomData<S>,
}

/// What `echo` answers to the given arguments.
pub open spec fn echo_text(args: Seq<Seq<char>>) -> Seq<char> {
    "ECHO: '"@ + crate::error::debug_text(args) + "'"@
}

impl<S> EchoCommand<S> {
    /// A new `echo` command.
    pub fn new() -> EchoCommand<S> {
        EchoCommand { phantom: PhantomData }
    }
}

impl<S> Default for EchoCommand<S> {
    fn default() -> Self {
        Self::new()
    }
}

impl<S> BaseCommand<S> for EchoCommand<S> {
    fn name(&self) -> (name: &str)
        ensures
            name@ == "echo"@,
    {
        "echo"
    }

    /// At least one argument is wanted.
    fn validate_args(&self, args: &[String]) -> (r: Result<(), ShiError>)
        ensures
            args@.len() == 0 ==> r is Err && r->Err_0 is NoArgs,
            args@.len() > 0 ==> r is Ok,
    {
        if args.len() == 0 {
            return Err(ShiError::NoArgs);
        }
        Ok(())
    }

    /// Answers with the arguments, and leaves the state alone.
    fn execute(&self, state: &mut S, args: &[String]) -> (r: Result<String, ShiError>)
        ensures
            r is Ok,
            r->Ok_0@ == echo_text(args.deep_view()),
            *final(state) == *old(state),
    {
        let mut text = String::from_str("ECHO: '");
        let list = crate::error::debug_list(args);
        text.append(list.as_str());
        text.append("'");
        Ok(text)
    }
}

} // verus!
