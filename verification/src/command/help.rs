//! The builtin that lists the commands and explains an invocation.

use core::marker::PhantomData;
use vstd::prelude::*;
use vstd::string::StringExecFns;
use crate::command::parent::clone_strings;
use crate::command::BaseCommand;
use crate::command::Command;
use crate::command_set::CommandSet;
use crate::error::ShiError;
use crate::parser::CommandType;
use crate::shell::Shell;
use crate::text::join_strings;
use crate::text::join_strs;
use crate::text::repeat;

verus! {

/// A command named `help`. Without arguments it lists the custom commands
/// and the builtins, each with its help text. With arguments it takes them
/// for a command invocation and explains it level by level.
#[derive(Debug)]
#[verifier::reject_recursive_types(S)]
pub struct HelpCommand<'a, S> {
    phantom: &'a PhantomData<S>,
}

/// The set in which the word at place `k` of `path` is looked up: each word
/// that names a parent leads into the sub commands of that parent, any other
/// word leaves the set as it is.
pub open spec fn set_at<'a, T>(path: Seq<Seq<char>>, set: CommandSet<'a, T>, k: int) -> CommandSet<
    'a,
    T,
>
    decreases k,
{
    if k <= 0 {
        set
    } else {
        let prev = set_at(path, set, k - 1);
        match prev.spec_get(path[k - 1]) {
            Some(Command::Parent(p)) => p.children(),
            _ => prev,
        }
    }
}

/// The line that explains one word of an invocation: its name and help
/// text, moved right by three spaces for each level.
pub open spec fn segment_line(indent: nat, name: Seq<char>, help: Seq<char>) -> Seq<char> {
    crate::text::repeated("   "@, indent) + "└─ "@ + name + " - "@ + help
}

/// The line that tells with which arguments a leaf was called.
pub open spec fn called_with(indent: nat, args: Seq<Seq<char>>) -> Seq<char> {
    crate::text::repeated("   "@, indent) + "└─ "@ + if args.len() == 0 {
        "Called with no args"@
    } else {
        "Called with args: ["@ + crate::text::joined(args, ", "@) + "]"@
    }
}

/// The lines that explain the first `n` words of `path`: for each word that
/// names a command the line of that command, and below a leaf the line with
/// the arguments.
pub open spec fn lines_upto<'a, T>(
    path: Seq<Seq<char>>,
    args: Seq<Seq<char>>,
    set: CommandSet<'a, T>,
    n: int,
) -> Seq<Seq<char>>
    decreases n,
{
    if n <= 0 {
        Seq::empty()
    } else {
        let before = lines_upto(path, args, set, n - 1);
        match set_at(path, set, n - 1).spec_get(path[n - 1]) {
            None => before,
            Some(cmd) => {
                let line = segment_line((n - 1) as nat, cmd.spec_name(), cmd.spec_help());
                if cmd is Leaf {
                    before.push(line).push(called_with(n as nat, args))
                } else {
                    before.push(line)
                }
            },
        }
    }
}

/// Whether the word at place `k` of `path` names a command.
pub open spec fn names_command<'a, T>(path: Seq<Seq<char>>, set: CommandSet<'a, T>, k: int) -> bool {
    set_at(path, set, k).spec_get(path[k]) is Some
}

/// The explanation of the invocation `path`: its lines, one below the
/// other.
pub open spec fn explanation<'a, T>(
    path: Seq<Seq<char>>,
    args: Seq<Seq<char>>,
    set: CommandSet<'a, T>,
) -> Seq<char> {
    crate::text::joined(lines_upto(path, args, set, path.len() as int), "\n"@)
}

/// The place of the first word of `path`, from place `k` on, that names
/// nothing; the length of `path` where every word names a command.
pub open spec fn first_unknown<'a, T>(path: Seq<Seq<char>>, set: CommandSet<'a, T>, k: int) -> int
    decreases path.len() - k,
{
    if k < 0 || k >= path.len() {
        path.len() as int
    } else if !names_command(path, set, k) {
        k
    } else {
        first_unknown(path, set, k + 1)
    }
}

/// What `help_breakdown` answers for the invocation `path` in `set`: the
/// explanation where every word names a command, and else the first word
/// that names nothing as an unrecognized command.
pub open spec fn breaks_down<'a, T>(
    path: Seq<Seq<char>>,
    args: Seq<Seq<char>>,
    set: CommandSet<'a, T>,
    r: Result<String, ShiError>,
) -> bool {
    let stop = first_unknown(path, set, 0);
    if stop == path.len() {
        r is Ok && r->Ok_0@ == explanation(path, args, set)
    } else {
        &&& r is Err
        &&& r->Err_0 matches ShiError::UnrecognizedCommand { got }
        &&& got@ == path[stop]
    }
}

/// Where the first `k` words of `path` name commands, the first word that
/// names nothing is the first such word from place `k` on.
pub proof fn lemma_first_unknown_from<'a, T>(path: Seq<Seq<char>>, set: CommandSet<'a, T>, k: int)
    requires
        0 <= k <= path.len(),
        forall|j: int| 0 <= j < k ==> #[trigger] names_command(path, set, j),
    ensures
        first_unknown(path, set, 0) == first_unknown(path, set, k),
    decreases k,
{
    if k > 0 {
        lemma_first_unknown_from(path, set, k - 1);
        assert(names_command(path, set, k - 1));
    }
}

/// The line of one command in the listing.
pub open spec fn entry_line(name: Seq<char>, help: Seq<char>) -> Seq<char> {
    "\t'"@ + name + "' - "@ + help
}

/// The lines of the commands of a set: each with its name and its help
/// text, in the order of the set.
pub open spec fn entry_lines<'a, T>(set: CommandSet<'a, T>) -> Seq<Seq<char>> {
    Seq::new(
        set.entries().len(),
        |i: int| entry_line(set.entries()[i].spec_name(), set.entries()[i].spec_help()),
    )
}

/// The lines of the builtins: each with its name and its help text.
pub open spec fn builtin_entry_lines() -> Seq<Seq<char>> {
    Seq::new(
        crate::shell::builtin_names().len(),
        |i: int| entry_line(crate::shell::builtin_names()[i], crate::shell::builtin_helps()[i]),
    )
}

/// The listing of the commands of a shell with the given custom commands.
pub open spec fn listing_text<'a, S>(cmds: CommandSet<'a, S>) -> Seq<char> {
    crate::text::joined(listing(entry_lines(cmds), builtin_entry_lines()), "\n"@)
}

/// The explanation of the invocation of a builtin: its line, and below it
/// the arguments it was called with.
pub open spec fn builtin_explanation(name: Seq<char>, args: Seq<Seq<char>>) -> Seq<char> {
    crate::text::joined(
        seq![
            segment_line(0, name, crate::shell::builtin_help_of(name)),
            called_with(1, args),
        ],
        "\n"@,
    )
}

/// The listing of the custom commands and the builtins, line by line.
pub open spec fn listing(custom: Seq<Seq<char>>, builtin: Seq<Seq<char>>) -> Seq<Seq<char>> {
    seq!["Normal commands:"@] + custom + seq!["Built-in commands:"@] + builtin
}

/// The line that explains one word of an invocation.
pub fn explain_segment(indent: usize, name: &str, help: &str) -> (line: String)
    ensures
        line@ == segment_line(indent as nat, name@, help@),
{
    let mut line = repeat("   ", indent);
    line.append("└─ ");
    line.append(name);
    line.append(" - ");
    line.append(help);
    line
}

/// The line that tells with which arguments a leaf was called.
pub fn explain_args(indent: usize, invocation_args: &Vec<&str>) -> (line: String)
    ensures
        line@ == called_with(indent as nat, invocation_args.deep_view()),
{
    let mut line = repeat("   ", indent);
    line.append("└─ ");
    if invocation_args.len() == 0 {
        line.append("Called with no args");
    } else {
        let mut called_with_msg = String::from_str("Called with args: [");
        let list = join_strs(invocation_args, ", ");
        called_with_msg.append(list.as_str());
        called_with_msg.append("]");
        line.append(called_with_msg.as_str());
    }
    line
}

/// Adds a line for each command of `set`: its name and its help text.
pub fn list_entries<T>(set: &CommandSet<'_, T>, lines: &mut Vec<String>)
    ensures
        final(lines).deep_view() == old(lines).deep_view() + entry_lines(*set),
{
    let n = set.len();
    let ghost start = lines.deep_view();
    let ghost all = entry_lines(*set);
    let mut i: usize = 0;
    assert(start + all.take(0) =~= start);
    while i < n
        invariant
            i <= n,
            n == set.keys().len(),
            set.well_formed(),
            all == entry_lines(*set),
            lines.deep_view() == start + all.take(i as int),
        decreases n - i,
    {
        let cmd = set.command_at(i);
        let name = cmd.name();
        let help = cmd.help();
        let mut line = String::from_str("\t'");
        line.append(name);
        line.append("' - ");
        line.append(help.as_str());
        let ghost before = *lines;
        lines.push(line);
        proof {
            crate::text::lemma_deep_view_push(before, *lines, line);
            assert(all.take(i + 1) =~= all.take(i as int).push(line@));
            assert(lines.deep_view() =~= start + all.take(i + 1));
        }
        i += 1;
    }
    assert(all.take(n as int) =~= all);
}

impl<'a, S> HelpCommand<'a, S> {
    /// A new `help` command.
    pub fn new() -> HelpCommand<'a, S> {
        HelpCommand { phantom: &PhantomData }
    }

    /// The listing of the custom commands and the builtins, each with its
    /// help text.
    pub fn execute_no_args(&self, shell: &Shell<'a, S>) -> (text: String) where S: 'a
        ensures
            text@ == listing_text(shell.commands()),
    {
        let builtins = Shell::<'a, S>::build_builtins();
        let mut help_lines: Vec<String> = Vec::new();
        help_lines.push(String::from_str("Normal commands:"));
        assert(help_lines.deep_view() =~= seq!["Normal commands:"@]);
        list_entries(shell.cmds(), &mut help_lines);
        let ghost upper = help_lines;
        let heading = String::from_str("Built-in commands:");
        help_lines.push(heading);
        proof {
            crate::text::lemma_deep_view_push(upper, help_lines, heading);
        }
        list_entries(&builtins, &mut help_lines);
        proof {
            assert(entry_lines(builtins) =~= builtin_entry_lines());
            assert(help_lines.deep_view() =~= listing(
                entry_lines(shell.commands()),
                builtin_entry_lines(),
            ));
        }
        join_strings(&help_lines, "\n")
    }

    /// Explains the invocation `cmd_path` in `cmds` level by level: a line
    /// for each word with the help text of the command it names, and below
    /// a leaf the arguments it was called with. A word that names nothing is
    /// reported as an unrecognized command.
    pub fn help_breakdown<T>(
        &self,
        cmd_path: Vec<&str>,
        invocation_args: Vec<&str>,
        cmds: &CommandSet<'_, T>,
    ) -> (r: Result<String, ShiError>)
        ensures
            breaks_down(cmd_path.deep_view(), invocation_args.deep_view(), *cmds, r),
    {
        let ghost path = cmd_path.deep_view();
        let ghost args = invocation_args.deep_view();
        let mut lines: Vec<String> = Vec::new();
        let mut current_cmds = cmds;
        let mut indent: usize = 0;
        assert(lines.deep_view() =~= lines_upto(path, args, *cmds, 0));
        while indent < cmd_path.len()
            invariant
                indent <= cmd_path@.len(),
                path == cmd_path.deep_view(),
                args == invocation_args.deep_view(),
                *current_cmds == set_at(path, *cmds, indent as int),
                forall|k: int| 0 <= k < indent ==> #[trigger] names_command(path, *cmds, k),
                lines.deep_view() == lines_upto(path, args, *cmds, indent as int),
            decreases cmd_path@.len() - indent,
        {
            let segment = cmd_path[indent];
            assert(path[indent as int] == segment@);
            match current_cmds.get(segment) {
                Some(cmd) => {
                    let cmd_name = cmd.name();
                    let help_msg = cmd.help();
                    let ghost before = lines;
                    let line = explain_segment(indent, cmd_name, help_msg.as_str());
                    lines.push(line);
                    proof {
                        crate::text::lemma_deep_view_push(before, lines, line);
                    }
                    match &**cmd {
                        Command::Parent(parent) => {
                            current_cmds = parent.sub_commands();
                        },
                        Command::Leaf(_) => {
                            let ghost middle = lines;
                            let called = explain_args(indent + 1, &invocation_args);
                            lines.push(called);
                            proof {
                                crate::text::lemma_deep_view_push(middle, lines, called);
                            }
                        },
                    }
                },
                None => {
                    proof {
                        lemma_first_unknown_from(path, *cmds, indent as int);
                    }
                    return Err(ShiError::UnrecognizedCommand { got: String::from_str(segment) });
                },
            }
            indent += 1;
        }
        proof {
            lemma_first_unknown_from(path, *cmds, indent as int);
        }
        Ok(join_strings(&lines, "\n"))
    }

    /// What `help` answers to arguments. They are joined by spaces into an
    /// invocation. An invocation that resolves in the custom commands is
    /// explained there, one that names a builtin is explained as that, and
    /// one of which nothing resolves gives its parse error.
    pub open spec fn explained(
        shell: Shell<'a, S>,
        args: Seq<Seq<char>>,
        r: Result<String, ShiError>,
    ) -> bool {
        let tokens = crate::tokenizer::tokens_of(crate::text::joined(args, " "@), shell.quotes());
        let both = crate::shell::resolve_in_shell(tokens, shell.commands());
        let path = tokens.take(both.0.matched);
        let rest = tokens.skip(both.0.matched);
        if both.0.matched == 0 {
            &&& r is Err
            &&& r->Err_0 matches ShiError::ParseError { msg, possibilities, cmd_path, remaining }
            &&& msg@ == crate::parser::error_msg_text(false, path, rest, both.0.possibilities)
            &&& possibilities.deep_view() == both.0.possibilities
            &&& cmd_path.deep_view() == path
            &&& remaining.deep_view() == rest
        } else if both.1 is Custom {
            breaks_down(path, rest, shell.commands(), r)
        } else {
            r is Ok && r->Ok_0@ == builtin_explanation(path[0], rest)
        }
    }

    /// What `help` answers: the listing of the commands where there are no
    /// arguments, and the explanation of the invocation that the arguments
    /// make up where there are.
    pub open spec fn helps(
        shell: Shell<'a, S>,
        args: Seq<Seq<char>>,
        r: Result<String, ShiError>,
    ) -> bool {
        if args.len() == 0 {
            r is Ok && r->Ok_0@ == listing_text(shell.commands())
        } else {
            Self::explained(shell, args, r)
        }
    }

    /// The explanation of a builtin in a set of builtins is the explanation
    /// of that builtin.
    pub proof fn lemma_builtin_breakdown(
        name: Seq<char>,
        rest: Seq<Seq<char>>,
        builtins: CommandSet<'a, Shell<'a, S>>,
        r: Result<String, ShiError>,
    )
        requires
            Shell::is_builtin_set(builtins),
            crate::shell::is_builtin(name),
            breaks_down(seq![name], rest, builtins, r),
        ensures
            r is Ok,
            r->Ok_0@ == builtin_explanation(name, rest),
    {
        let path = seq![name];
        let i = builtins.keys().index_of(name);
        assert(builtins.has(name));
        assert(builtins.entries()[i] is Leaf);
        assert(builtins.keys()[i] == builtins.entries()[i].spec_name());
        assert(names_command(path, builtins, 0));
        assert(first_unknown(path, builtins, 1) == 1);
        assert(first_unknown(path, builtins, 0) == 1);
        assert(lines_upto(path, rest, builtins, 0) =~= Seq::<Seq<char>>::empty());
        assert(lines_upto(path, rest, builtins, 1) =~= seq![
            segment_line(0, name, crate::shell::builtin_help_of(name)),
            called_with(1, rest),
        ]);
    }

    /// Takes the arguments for a command invocation and explains it.
    pub fn execute_with_args(&self, shell: &Shell<'a, S>, args: &[String]) -> (r: Result<
        String,
        ShiError,
    >) where S: 'a
        ensures
            Self::explained(*shell, args.deep_view(), r),
    {
        let words = clone_strings(args);
        let invocation = join_strings(&words, " ");
        let builtins = Shell::<'a, S>::build_builtins();
        let outcome = shell.parse_with(invocation.as_str(), &builtins);
        let ghost tokens = crate::tokenizer::tokens_of(invocation@, shell.quotes());
        let ghost both = crate::shell::resolve_in_shell(tokens, shell.commands());
        proof {
            Shell::lemma_builtin_resolution(tokens, shell.commands(), builtins);
            crate::parser::lemma_resolve_bounds(tokens, shell.commands(), 0);
        }
        match outcome.cmd_type {
            CommandType::Custom => self.help_breakdown(
                outcome.cmd_path,
                outcome.remaining,
                shell.cmds(),
            ),
            CommandType::Builtin => {
                let ghost path = outcome.cmd_path.deep_view();
                let ghost rest = outcome.remaining.deep_view();
                let r = self.help_breakdown(outcome.cmd_path, outcome.remaining, &builtins);
                proof {
                    assert(path =~= seq![tokens[0]]);
                    Self::lemma_builtin_breakdown(tokens[0], rest, builtins, r);
                }
                r
            },
            CommandType::Unknown => Err(outcome.error().unwrap()),
        }
    }
}

impl<'a, S> Default for HelpCommand<'a, S> {
    fn default() -> Self {
        Self::new()
    }
}

impl<'a, S: 'a> BaseCommand<Shell<'a, S>> for HelpCommand<'a, S> {
    fn name(&self) -> (name: &str)
        ensures
            name@ == "help"@,
    {
        "help"
    }

    /// Any arguments are accepted.
    fn validate_args(&self, args: &[String]) -> (r: Result<(), ShiError>)
        ensures
            r is Ok,
    {
        Ok(())
    }

    /// Lists the commands where there are no arguments, and explains the
    /// invocation that the arguments make up where there are. The shell is
    /// left alone.
    fn execute(&self, shell: &mut Shell<'a, S>, args: &[String]) -> (r: Result<String, ShiError>)
        ensures
            *final(shell) == *old(shell),
            HelpCommand::<'a, S>::helps(*old(shell), args.deep_view(), r),
    {
        if args.len() == 0 {
            Ok(self.execute_no_args(shell))
        } else {
            self.execute_with_args(shell, args)
        }
    }

    fn help(&self) -> (text: String)
        ensures
            text@ == "Prints help info for root commands or explains a given command invocation"@,
    {
        String::from_str("Prints help info for root commands or explains a given command invocation")
    }
}

} // verus!
