//! The builtin that ends the session.

use core::marker::PhantomData;
use vstd::prelude::*;
use vstd::string::StringExecFns;
use crate::command::parent::clone_strings;
use crate::command::BaseCommand;
use crate::error::ShiError;
use crate::shell::Shell;

verus! {

/// A command named `exit` that asks the shell to stop.
#[derive(Debug)]
#[verifier::reject_recursive_types(S)]
pub struct ExitCommand<'a, S> {
    phantom: &'a PhantomData<S>,
}

impl<'a, S> ExitCommand<'a, S> {
    /// A new `exit` command.
    pub fn new() -> ExitCommand<'a, S> {
        ExitCommand { phantom: &PhantomData }
    }
}

impl<'a, S> Default for ExitCommand<'a, S> {
    fn default() -> Self {
        Self::new()
    }
}

impl<'a, S: 'a> BaseCommand<Shell<'a, S>> for ExitCommand<'a, S> {
    fn name(&self) -> (name: &str)
        ensures
            name@ == "exit"@,
    {
        "exit"
    }

    /// No argument is accepted.
    fn validate_args(&self, args: &[String]) -> (r: Result<(), ShiError>)
        ensures
            args@.len() == 0 ==> r is Ok,
            args@.len() > 0 ==> r is Err && (r->Err_0 matches ShiError::ExtraArgs { got }
                && got.deep_view() == args.deep_view()),
    {
        if args.len() != 0 {
            return Err(ShiError::ExtraArgs { got: clone_strings(args) });
        }
        Ok(())
    }

    /// Marks the shell as terminated and answers `bye`. Nothing else of the
    /// shell changes.
    fn execute(&self, shell: &mut Shell<'a, S>, args: &[String]) -> (r: Result<String, ShiError>)
        ensures
            r is Ok,
            r->Ok_0@ == "bye"@,
            final(shell).terminated(),
            final(shell).same_but_terminated(*old(shell)),
    {
        shell.stop();
        Ok(String::from_str("bye"))
    }

    fn help(&self) -> (text: String)
        ensures
            text@ == "Exits the shell session"@,
    {
        String::from_str("Exits the shell session")
    }
}

} // verus!
