//! A command made of a name and a closure.

use core::marker::PhantomData;
use vstd::prelude::*;
use vstd::string::StringExecFns;
use crate::command::BaseCommand;
use crate::command::Command;
use crate::command::LeafCommand;
use crate::error::ShiError;

verus! {

/// Holds of a closure that may be called on every state and every list of
/// arguments.
pub open spec fn always_callable<S, F: Fn(&mut S, &[String]) -> Result<String, ShiError>>(
    action: F,
) -> bool {
    forall|state: &mut S, args: &[String]| #[trigger] call_requires(action, (state, args))
}

/// A leaf command with a name, a help text and a closure that is run when
/// the command is called.
#[verifier::reject_recursive_types(S)]
#[verifier::reject_recursive_types(F)]
pub struct BasicCommand<'a, S, F: Fn(&mut S, &[String]) -> Result<String, ShiError>> {
    name: &'a str,
    help: &'a str,
    action: F,
    state: PhantomData<S>,
}

impl<'a, S, F: Fn(&mut S, &[String]) -> Result<String, ShiError>> BasicCommand<'a, S, F> {
    #[verifier::type_invariant]
    spec fn runs_on_anything(&self) -> bool {
        always_callable(self.action)
    }

    /// The closure that the command runs.
    pub closed spec fn spec_action(&self) -> F {
        self.action
    }

    /// The name of the command.
    pub closed spec fn spec_name(&self) -> Seq<char> {
        self.name@
    }

    /// The help text of the command.
    pub closed spec fn spec_help(&self) -> Seq<char> {
        self.help@
    }

    /// A command that runs `action`, with an empty help text.
    pub fn new(name: &'a str, action: F) -> (cmd: BasicCommand<'a, S, F>)
        requires
            always_callable(action),
        ensures
            cmd.spec_name() == name@,
            cmd.spec_help() == Seq::<char>::empty(),
            cmd.spec_action() == action,
    {
        proof {
            reveal_strlit("");
        }
        BasicCommand { name, help: "", action, state: PhantomData }
    }

    /// A command that runs `action`, with the given help text.
    pub fn new_with_help(name: &'a str, help: &'a str, action: F) -> (cmd: BasicCommand<'a, S, F>)
        requires
            always_callable(action),
        ensures
            cmd.spec_name() == name@,
            cmd.spec_help() == help@,
            cmd.spec_action() == action,
    {
        BasicCommand { name, help, action, state: PhantomData }
    }

    /// The command as a leaf of a command tree, under its name and with its
    /// help text.
    pub fn into_leaf(self) -> (cmd: Command<'a, S>) where S: 'a, F: 'a
        ensures
            cmd is Leaf,
            cmd.spec_name() == self.spec_name(),
            cmd.spec_help() == self.spec_help(),
    {
        let name = String::from_str(self.name);
        let help = String::from_str(self.help);
        Command::Leaf(LeafCommand::from_parts(name, help, Box::new(self)))
    }
}

impl<'a, S, F: Fn(&mut S, &[String]) -> Result<String, ShiError>> BaseCommand<S> for BasicCommand<
    'a,
    S,
    F,
> {
    fn name(&self) -> (name: &str)
        ensures
            name@ == self.spec_name(),
    {
        self.name
    }

    fn validate_args(&self, args: &[String]) -> (r: Result<(), ShiError>)
        ensures
            r is Ok,
    {
        Ok(())
    }

    /// Runs the closure on the state and the arguments: the result, and what
    /// becomes of the state, are what the closure makes of them.
    fn execute(&self, state: &mut S, args: &[String]) -> (r: Result<String, ShiError>)
        ensures
            exists|given: &mut S|
                *given == *old(state) && *final(given) == *final(state) && #[trigger] call_ensures(
                    self.spec_action(),
                    (given, args),
                    r,
                ),
    {
        proof {
            use_type_invariant(self);
        }
        let r = (self.action)(state, args);
        assert(exists|given: &mut S|
            *given == *old(state) && *final(given) == *state && #[trigger] call_ensures(
                self.action,
                (given, args),
                r,
            ));
        assert(self.spec_action() == self.action);
        r
    }

    fn help(&self) -> (text: String)
        ensures
            text@ == self.spec_help(),
    {
        String::from_str(self.help)
    }
}

} // verus!
