//! The builtin that lists the lines entered so far.

use core::marker::PhantomData;
use vstd::prelude::*;
use vstd::string::StringExecFns;
use crate::command::parent::clone_strings;
use crate::command::BaseCommand;
use crate::error::ShiError;
use crate::shell::Shell;
use crate::text::join_strings;

verus! {

/// A command named `history` that lists the lines that the shell has as its
/// history. Whether lines of earlier sessions are among them depends on how
/// the shell was set up.
#[derive(Debug)]
#[verifier::reject_recursive_types(S)]
pub struct HistoryCommand<'a, S> {
    phantom: &'a PhantomData<S>,
}

/// The listing of the given lines: each on a line of its own, behind a tab.
pub open spec fn history_text(lines: Seq<Seq<char>>) -> Seq<char> {
    "\t"@ + crate::text::joined(lines, "\n\t"@)
}

impl<'a, S> HistoryCommand<'a, S> {
    /// A new `history` command.
    pub fn new() -> HistoryCommand<'a, S> {
        HistoryCommand { phantom: &PhantomData }
    }
}

impl<'a, S> Default for HistoryCommand<'a, S> {
    fn default() -> Self {
        Self::new()
    }
}

impl<'a, S: 'a> BaseCommand<Shell<'a, S>> for HistoryCommand<'a, S> {
    fn name(&self) -> (name: &str)
        ensures
            name@ == "history"@,
    {
        "history"
    }

    /// No argument is accepted.
    fn validate_args(&self, args: &[String]) -> (r: Result<(), ShiError>)
        ensures
            args@.len() == 0 ==> r is Ok,
            args@.len() > 0 ==> r is Err && (r->Err_0 matches ShiError::ExtraArgs { got }
                && got.deep_view() == args.deep_view()),
    {
        if args.len() != 0 {
            return Err(ShiError::ExtraArgs { got: clone_strings(args) });
        }
        Ok(())
    }

    /// Lists the history of the shell, and leaves the shell alone.
    fn execute(&self, shell: &mut Shell<'a, S>, args: &[String]) -> (r: Result<String, ShiError>)
        ensures
            r is Ok,
            r->Ok_0@ == history_text(old(shell).history_entries()),
            *final(shell) == *old(shell),
    {
        let history_output = join_strings(shell.history(), "\n\t");
        let mut text = String::from_str("\t");
        text.append(history_output.as_str());
        Ok(text)
    }

    fn help(&self) -> (text: String)
        ensures
            text@ == "Prints the history of commands"@,
    {
        String::from_str("Prints the history of commands")
    }
}

} // verus!
