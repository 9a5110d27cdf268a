//! Commands: what a shell can be asked to do.
//!
//! A command is a leaf, which runs, or a parent, which only leads on to its
//! sub commands.

use vstd::prelude::*;
use vstd::string::StringExecFns;
use crate::error::ShiError;

pub mod basic;
pub mod echo;
pub mod exit;
pub mod help;
pub mod helptree;
pub mod history;
pub mod parent;

pub use basic::BasicCommand;
pub use echo::EchoCommand;
pub use exit::ExitCommand;
pub use help::HelpCommand;
pub use helptree::HelpTreeCommand;
pub use history::HistoryCommand;
pub use parent::ParentCommand;

verus! {

/// What a leaf command offers to complete its arguments.
#[derive(Debug, PartialEq)]
pub enum Completion {
    /// The last argument is begun: each entry completes it when it is put
    /// behind what was typed.
    PartialArgCompletion(Vec<String>),
    /// The arguments so far are complete: each entry may come next.
    Possibilities(Vec<String>),
    /// There is nothing to offer.
    Nothing,
}

/// What every command can do. `S` is the state that the command runs on.
pub trait BaseCommand<S> {
    /// The name by which the command is called.
    fn name(&self) -> &str;

    /// Checks the arguments before the command runs.
    fn validate_args(&self, args: &[String]) -> Result<(), ShiError>;

    /// Runs the command on the state and gives its output.
    fn execute(&self, state: &mut S, args: &[String]) -> Result<String, ShiError>;

    /// Completes the arguments. `trailing_space` says whether the line ended
    /// in a space. A command that does not write its own completion offers
    /// nothing.
    fn autocomplete(&self, args: Vec<&str>, trailing_space: bool) -> (completion: Completion)
        default_ensures
            completion is Nothing,
    {
        Completion::Nothing
    }

    /// A short help text. For a command that does not write its own, it is
    /// the name that the command gives, between single quotes.
    fn help(&self) -> (text: String)
        default_ensures
            exists|name: &str|
                text@ == quoted_name(name@) && #[trigger] call_ensures(Self::name, (self,), name),
    {
        let name = self.name();
        let mut text = String::from_str("'");
        text.append(name);
        text.append("'");
        text
    }
}

/// A name between single quotes: the help text of a command that has none
/// of its own.
pub open spec fn quoted_name(name: Seq<char>) -> Seq<char> {
    "'"@ + name + "'"@
}

/// A leaf of the command tree. It owns its name and its help text, which
/// are fixed when the leaf is made, and the command that validates, runs and
/// completes.
#[verifier::reject_recursive_types(S)]
pub struct LeafCommand<'a, S> {
    name: String,
    help: String,
    inner: Box<dyn BaseCommand<S> + 'a>,
}

/// A command: a leaf, which runs, or a parent with sub commands.
#[verifier::reject_recursive_types(S)]
pub enum Command<'a, S> {
    /// A command without sub commands. It runs.
    Leaf(LeafCommand<'a, S>),
    /// A command with sub commands. It does not run itself.
    Parent(ParentCommand<'a, S>),
}

impl<'a, S> LeafCommand<'a, S> {
    /// The name of the leaf.
    pub closed spec fn spec_name(&self) -> Seq<char> {
        self.name@
    }

    /// The help text of the leaf.
    pub closed spec fn spec_help(&self) -> Seq<char> {
        self.help@
    }

    /// A leaf over the given command. The command is asked for its name and
    /// its help text once, here; the leaf keeps what it answers. So the name
    /// of the leaf is a name that the command may give by what it promises of
    /// its `name`, and the help text likewise.
    pub fn new<C: BaseCommand<S> + 'a>(cmd: C) -> (leaf: Self)
        ensures
            exists|name: &str|
                leaf.spec_name() == name@ && #[trigger] call_ensures(C::name, (&cmd,), name),
            exists|help: String|
                leaf.spec_help() == help@ && #[trigger] call_ensures(C::help, (&cmd,), help),
    {
        let name = String::from_str(cmd.name());
        let help = cmd.help();
        LeafCommand { name, help, inner: Box::new(cmd) }
    }

    /// A leaf of the given name and help text over the given command.
    pub fn from_parts(name: String, help: String, inner: Box<dyn BaseCommand<S> + 'a>) -> (leaf:
        Self)
        ensures
            leaf.spec_name() == name@,
            leaf.spec_help() == help@,
    {
        LeafCommand { name, help, inner }
    }
}

impl<'a, S> BaseCommand<S> for LeafCommand<'a, S> {
    fn name(&self) -> (name: &str)
        ensures
            name@ == self.spec_name(),
    {
        self.name.as_str()
    }

    /// Asks the command that the leaf holds.
    fn validate_args(&self, args: &[String]) -> Result<(), ShiError> {
        self.inner.validate_args(args)
    }

    /// Runs the command that the leaf holds.
    fn execute(&self, state: &mut S, args: &[String]) -> Result<String, ShiError> {
        self.inner.execute(state, args)
    }

    /// Asks the command that the leaf holds.
    fn autocomplete(&self, args: Vec<&str>, trailing_space: bool) -> Completion {
        self.inner.autocomplete(args, trailing_space)
    }

    fn help(&self) -> (text: String)
        ensures
            text@ == self.spec_help(),
    {
        self.help.clone()
    }
}

impl<'a, S> Command<'a, S> {
    /// The name of the command.
    pub open spec fn spec_name(&self) -> Seq<char> {
        match self {
            Command::Leaf(leaf) => leaf.spec_name(),
            Command::Parent(parent) => parent.spec_name(),
        }
    }

    /// The help text of the command.
    pub open spec fn spec_help(&self) -> Seq<char> {
        match self {
            Command::Leaf(leaf) => leaf.spec_help(),
            Command::Parent(parent) => parent.spec_help(),
        }
    }

    /// A leaf that holds the given command, under the name and with the
    /// help text that the command gives itself.
    pub fn new_leaf<C: BaseCommand<S> + 'a>(child_cmd: C) -> (cmd: Self)
        ensures
            cmd is Leaf,
            exists|name: &str|
                cmd.spec_name() == name@ && #[trigger] call_ensures(C::name, (&child_cmd,), name),
            exists|help: String|
                cmd.spec_help() == help@ && #[trigger] call_ensures(C::help, (&child_cmd,), help),
    {
        Command::Leaf(LeafCommand::new(child_cmd))
    }

    /// A parent of the given name over the given sub commands.
    pub fn new_parent(name: &'a str, sub_cmds: Vec<Command<'a, S>>) -> (cmd: Self)
        ensures
            cmd is Parent,
            cmd->Parent_0.spec_name() == name@,
            cmd->Parent_0.spec_help() == Seq::<char>::empty(),
            cmd.spec_name() == name@,
            cmd->Parent_0.children().well_formed(),
            cmd->Parent_0.children().holds_all(sub_cmds@),
    {
        Command::Parent(ParentCommand::new(name, sub_cmds))
    }
}

impl<'a, S> BaseCommand<S> for Command<'a, S> {
    fn name(&self) -> (name: &str)
        ensures
            name@ == self.spec_name(),
    {
        match self {
            Command::Leaf(cmd) => cmd.name(),
            Command::Parent(parent_cmd) => parent_cmd.name(),
        }
    }

    fn validate_args(&self, args: &[String]) -> (r: Result<(), ShiError>)
        ensures
            parent::upholds(r, parent::validation(*self, args.deep_view())),
        decreases args@.len(), 1int,
    {
        match self {
            Command::Leaf(cmd) => cmd.validate_args(args),
            Command::Parent(parent_cmd) => parent_cmd.validate_args(args),
        }
    }

    fn execute(&self, state: &mut S, args: &[String]) -> (r: Result<String, ShiError>)
        ensures
            parent::fails_as(r, parent::dispatch(*self, args.deep_view())),
            parent::is_refusal(parent::dispatch(*self, args.deep_view())) ==> *final(state) == *old(
                state,
            ),
        decreases args@.len(), 1int,
    {
        match self {
            Command::Leaf(cmd) => cmd.execute(state, args),
            Command::Parent(parent_cmd) => parent_cmd.execute(state, args),
        }
    }

    fn help(&self) -> (text: String)
        ensures
            text@ == self.spec_help(),
    {
        match self {
            Command::Leaf(cmd) => cmd.help(),
            Command::Parent(parent_cmd) => parent_cmd.help(),
        }
    }
}

} // verus!
