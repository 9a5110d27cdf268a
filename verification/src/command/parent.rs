//! Commands that only lead on to their sub commands.

use vstd::prelude::*;
use vstd::string::StringExecFns;
use crate::command::BaseCommand;
use crate::command::Command;
use crate::command_set::CommandSet;
use crate::error::ShiError;

verus! {

/// A command with sub commands. It has a name and does nothing itself: the
/// first argument picks the sub command that goes on with the rest.
#[verifier::reject_recursive_types(S)]
pub struct ParentCommand<'a, S> {
    name: &'a str,
    help: &'a str,
    sub_cmds: CommandSet<'a, S>,
}

/// How far the command tree decides what becomes of a list of arguments.
#[verifier::reject_recursive_types(S)]
pub enum Routing<'a, S> {
    /// The arguments are accepted.
    Accepted,
    /// A parent with sub commands got no argument.
    NoArgs,
    /// A parent without sub commands got these arguments.
    ExtraArgs(Seq<Seq<char>>),
    /// A parent got the first text for an argument and has no sub command of
    /// that name; the second part lists the names it has, in alphabetical
    /// order.
    InvalidSubCommand(Seq<char>, Seq<Seq<char>>),
    /// The arguments led to this leaf, which decides on the rest of them.
    Leaf(Command<'a, S>, Seq<Seq<char>>),
}

/// Validation of `args` by `cmd`. A leaf decides for itself. A parent
/// without sub commands accepts no argument; one with sub commands wants the
/// name of one of them first, and that sub command validates the rest.
pub open spec fn validation<'a, S>(cmd: Command<'a, S>, args: Seq<Seq<char>>) -> Routing<'a, S>
    decreases args.len(),
{
    match cmd {
        Command::Leaf(_) => Routing::Leaf(cmd, args),
        Command::Parent(p) => {
            if p.children().keys().len() == 0 {
                if args.len() == 0 {
                    Routing::Accepted
                } else {
                    Routing::ExtraArgs(args)
                }
            } else if args.len() == 0 {
                Routing::NoArgs
            } else {
                match p.children().spec_get(args[0]) {
                    Some(child) => validation(child, args.skip(1)),
                    None => Routing::InvalidSubCommand(
                        args[0],
                        crate::text::sorted(p.children().keys()),
                    ),
                }
            }
        },
    }
}

/// Where running `cmd` on `args` ends. A leaf runs. A parent wants the name
/// of one of its sub commands first, and that sub command goes on with the
/// rest.
pub open spec fn dispatch<'a, S>(cmd: Command<'a, S>, args: Seq<Seq<char>>) -> Routing<'a, S>
    decreases args.len(),
{
    match cmd {
        Command::Leaf(_) => Routing::Leaf(cmd, args),
        Command::Parent(p) => {
            if args.len() == 0 {
                Routing::NoArgs
            } else {
                match p.children().spec_get(args[0]) {
                    Some(child) => dispatch(child, args.skip(1)),
                    None => Routing::InvalidSubCommand(
                        args[0],
                        crate::text::sorted(p.children().keys()),
                    ),
                }
            }
        },
    }
}

/// Whether the command tree itself turns the arguments down, before any
/// leaf is asked.
pub open spec fn is_refusal<'a, S>(routing: Routing<'a, S>) -> bool {
    routing is NoArgs || routing is ExtraArgs || routing is InvalidSubCommand
}

/// Whether an error is the one that a routing calls for.
pub open spec fn is_routing_error<'a, S>(e: ShiError, routing: Routing<'a, S>) -> bool {
    match routing {
        Routing::NoArgs => e is NoArgs,
        Routing::ExtraArgs(args) => e matches ShiError::ExtraArgs { got } && got.deep_view() == args,
        Routing::InvalidSubCommand(word, names) => e matches ShiError::InvalidSubCommand {
            got,
            expected,
        } && got@ == word && expected.deep_view() == names,
        _ => false,
    }
}

/// Whether the result of a validation is what the routing calls for. Where
/// the arguments lead to a leaf, the leaf decides.
pub open spec fn upholds<'a, S>(r: Result<(), ShiError>, routing: Routing<'a, S>) -> bool {
    match routing {
        Routing::Accepted => r is Ok,
        Routing::Leaf(_, _) => true,
        _ => r is Err && is_routing_error(r->Err_0, routing),
    }
}

/// Whether the result of a run is what the routing calls for. Where the
/// arguments lead to a leaf, the leaf decides.
pub open spec fn fails_as<'a, S>(r: Result<String, ShiError>, routing: Routing<'a, S>) -> bool {
    match routing {
        Routing::Accepted => true,
        Routing::Leaf(_, _) => true,
        _ => r is Err && is_routing_error(r->Err_0, routing),
    }
}

/// Owned copies of the given strings.
pub fn clone_strings(items: &[String]) -> (r: Vec<String>)
    ensures
        r.deep_view() == items.deep_view(),
{
    let mut r: Vec<String> = Vec::new();
    let mut i: usize = 0;
    while i < items.len()
        invariant
            i <= items@.len(),
            r@.len() == i,
            r.deep_view() == items.deep_view().take(i as int),
        decreases items@.len() - i,
    {
        let ghost before = r;
        let item = items[i].clone();
        r.push(item);
        proof {
            crate::text::lemma_deep_view_push(before, r, item);
            assert(r.deep_view() =~= items.deep_view().take(i + 1));
        }
        i += 1;
    }
    assert(items.deep_view().take(items@.len() as int) =~= items.deep_view());
    r
}

impl<'a, S> ParentCommand<'a, S> {
    /// The name of the command.
    pub closed spec fn spec_name(&self) -> Seq<char> {
        self.name@
    }

    /// The help text of the command.
    pub closed spec fn spec_help(&self) -> Seq<char> {
        self.help@
    }

    /// The sub commands.
    pub closed spec fn children(&self) -> CommandSet<'a, S> {
        self.sub_cmds
    }

    /// The sub commands of a parent are a smaller value than the parent.
    pub proof fn lemma_children_decrease(&self)
        ensures
            decreases_to!(*self => self.children()),
    {
    }

    /// A parent of the given name over the given sub commands, with an empty
    /// help text.
    pub fn new(name: &'a str, sub_cmds: Vec<Command<'a, S>>) -> (parent: ParentCommand<'a, S>)
        ensures
            parent.spec_name() == name@,
            parent.spec_help() == Seq::<char>::empty(),
            parent.children().well_formed(),
            parent.children().holds_all(sub_cmds@),
    {
        let command_set = CommandSet::new_from_vec(sub_cmds);
        proof {
            reveal_strlit("");
        }
        ParentCommand { name, help: "", sub_cmds: command_set }
    }

    /// A parent of the given name and help text over the given sub commands.
    pub fn new_with_help(name: &'a str, help: &'a str, sub_cmds: Vec<Command<'a, S>>) -> (parent:
        ParentCommand<'a, S>)
        ensures
            parent.spec_name() == name@,
            parent.spec_help() == help@,
            parent.children().well_formed(),
            parent.children().holds_all(sub_cmds@),
    {
        let command_set = CommandSet::new_from_vec(sub_cmds);
        ParentCommand { name, help, sub_cmds: command_set }
    }

    /// The sub command that the first argument names.
    pub fn get_sub_cmd_for_args(&self, args: &[String]) -> (r: Result<&Command<'a, S>, ShiError>)
        ensures
            self.children().well_formed(),
            args@.len() == 0 ==> r is Err && r->Err_0 is NoArgs,
            args@.len() > 0 ==> match self.children().spec_get(args@[0]@) {
                Some(child) => r == Ok::<&Command<'a, S>, ShiError>(&child),
                None => r is Err && (r->Err_0 matches ShiError::InvalidSubCommand { got, expected }
                    && got@ == args@[0]@ && expected.deep_view() == crate::text::sorted(
                    self.children().keys(),
                )),
            },
    {
        if args.len() == 0 {
            let n = self.sub_cmds.len();
            return Err(ShiError::NoArgs);
        }
        let first_arg = &args[0];
        match self.sub_cmds.get(first_arg.as_str()) {
            Some(cmd) => Ok(&**cmd),
            None => Err(
                ShiError::InvalidSubCommand {
                    got: first_arg.clone(),
                    expected: self.sub_cmds.names(),
                },
            ),
        }
    }

    /// The sub commands.
    pub fn sub_commands(&self) -> (set: &CommandSet<'a, S>)
        ensures
            *set == self.children(),
    {
        &self.sub_cmds
    }
}

impl<'a, S> BaseCommand<S> for ParentCommand<'a, S> {
    fn name(&self) -> (name: &str)
        ensures
            name@ == self.spec_name(),
    {
        self.name
    }

    /// A parent without sub commands accepts no argument. One with sub
    /// commands wants the name of one of them first, and that sub command
    /// validates the rest.
    fn validate_args(&self, args: &[String]) -> (r: Result<(), ShiError>)
        ensures
            upholds(r, validation(Command::Parent(*self), args.deep_view())),
        decreases args@.len(), 0int,
    {
        if self.sub_cmds.len() == 0 {
            if args.len() == 0 {
                return Ok(());
            }
            return Err(ShiError::ExtraArgs { got: clone_strings(args) });
        }
        match self.get_sub_cmd_for_args(args) {
            Ok(sub_cmd) => {
                let rest = vstd::slice::slice_subrange(args, 1, args.len());
                assert(rest.deep_view() =~= args.deep_view().skip(1));
                sub_cmd.validate_args(rest)
            },
            Err(e) => Err(e),
        }
    }

    /// Hands the arguments behind the first to the sub command that the
    /// first one names.
    fn execute(&self, state: &mut S, args: &[String]) -> (r: Result<String, ShiError>)
        ensures
            fails_as(r, dispatch(Command::Parent(*self), args.deep_view())),
            is_refusal(dispatch(Command::Parent(*self), args.deep_view())) ==> *final(state) == *old(
                state,
            ),
        decreases args@.len(), 0int,
    {
        match self.get_sub_cmd_for_args(args) {
            Ok(sub_cmd) => {
                let rest = vstd::slice::slice_subrange(args, 1, args.len());
                assert(rest.deep_view() =~= args.deep_view().skip(1));
                sub_cmd.execute(state, rest)
            },
            Err(e) => Err(e),
        }
    }

    fn help(&self) -> (text: String)
        ensures
            text@ == self.spec_help(),
    {
        String::from_str(self.help)
    }
}

} // verus!
