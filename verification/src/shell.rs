//! The shell: the commands that were registered, the state they run on, and
//! what becomes of a line that was entered.

use vstd::prelude::*;
use vstd::string::StringExecFns;
use crate::command::exit::ExitCommand;
use crate::command::help::HelpCommand;
use crate::command::helptree::HelpTreeCommand;
use crate::command::history::HistoryCommand;
use crate::command::BaseCommand;
use crate::command::Command;
use crate::command::LeafCommand;
use crate::command_set::CommandSet;
use crate::error::ShiError;
use crate::parser::CommandType;
use crate::parser::Outcome;
use crate::parser::Parser;
use crate::text::same_text;
use crate::tokenizer::split_spaces;

verus! {

/// A shell. It holds the registered commands and the state that they run
/// on. Reading lines and showing output is left to whoever drives it.
#[verifier::reject_recursive_types(S)]
pub struct Shell<'a, S> {
    prompt: &'a str,
    cmds: CommandSet<'a, S>,
    parser: Parser,
    history_file: Option<&'a str>,
    history: Vec<String>,
    state: S,
    terminate: bool,
}

/// How reading a line can fail.
pub enum ReadFailure {
    /// The user interrupted the input.
    Interrupted,
    /// The input is at its end.
    Eof,
    /// Anything else.
    Other,
}

/// What the shell answers to one round of input.
#[derive(Debug, PartialEq)]
pub struct Reply {
    /// The text to show.
    pub output: String,
    /// Whether the shell wants another round.
    pub proceed: bool,
}

/// Tells the interruption and the end of input apart from the other
/// failures of rustyline, by the variant of
/// `rustyline::error::ReadlineError`: `Interrupted`, `Eof`, or any other.
/// Nothing is claimed of the answer.
#[verifier::external_body]
fn read_failure(err: &rustyline::error::ReadlineError) -> ReadFailure {
    match err {
        rustyline::error::ReadlineError::Interrupted => ReadFailure::Interrupted,
        rustyline::error::ReadlineError::Eof => ReadFailure::Eof,
        _ => ReadFailure::Other,
    }
}

/// The description that rustyline gives of an error, by the `Display` of
/// `rustyline::error::ReadlineError`. Nothing is claimed of the text.
#[verifier::external_body]
fn failure_text(err: &rustyline::error::ReadlineError) -> String {
    err.to_string()
}

/// The names of the builtins, in the order in which they are registered.
pub open spec fn builtin_names() -> Seq<Seq<char>> {
    seq!["help"@, "helptree"@, "exit"@, "history"@]
}

/// The help texts of the builtins, in the order in which they are
/// registered.
pub open spec fn builtin_helps() -> Seq<Seq<char>> {
    seq![
        "Prints help info for root commands or explains a given command invocation"@,
        "Prints a tree depiction of all commands in this shell"@,
        "Exits the shell session"@,
        "Prints the history of commands"@,
    ]
}

/// Whether a builtin has this name.
pub open spec fn is_builtin(name: Seq<char>) -> bool {
    builtin_names().contains(name)
}

/// The help text of the builtin of the given name.
pub open spec fn builtin_help_of(name: Seq<char>) -> Seq<char> {
    builtin_helps()[builtin_names().index_of(name)]
}

/// How far a list of tokens leads into the builtins, which are all leaves:
/// one token far where the first token names a builtin, and nowhere else.
pub open spec fn builtin_resolution(tokens: Seq<Seq<char>>) -> crate::parser::Resolution {
    if tokens.len() > 0 && is_builtin(tokens[0]) {
        crate::parser::Resolution { matched: 1, complete: true, possibilities: Seq::empty() }
    } else {
        crate::parser::Resolution {
            matched: 0,
            complete: false,
            possibilities: crate::text::sorted(builtin_names()),
        }
    }
}

/// The resolution of the tokens in a shell with the given custom commands:
/// the custom commands decide wherever they lead to a leaf, then the
/// builtins wherever they do, and else the custom commands again.
pub open spec fn resolve_in_shell<'a, S>(tokens: Seq<Seq<char>>, cmds: CommandSet<'a, S>) -> (
    crate::parser::Resolution,
    CommandType,
) {
    let custom = crate::parser::resolve(tokens, cmds, 0);
    let builtin = builtin_resolution(tokens);
    if custom.complete {
        (custom, CommandType::Custom)
    } else if builtin.complete {
        (builtin, CommandType::Builtin)
    } else {
        (custom, CommandType::Custom)
    }
}

/// What running a resolved line in a command set gives, as far as the
/// command tree decides it.
///
/// The first word of the path names the command, and the arguments are what
/// stands behind the first space of the line, split on spaces. The command
/// validates the arguments and, where it accepts them, runs on them. Where
/// the path is empty or names nothing, the line is unrecognized. Unless a
/// leaf is reached, the state stays as it was.
pub open spec fn ran_in<'a, T>(
    set: CommandSet<'a, T>,
    path: Seq<Seq<char>>,
    line: Seq<char>,
    before: T,
    after: T,
    r: Result<String, ShiError>,
) -> bool {
    let args = crate::tokenizer::split_on_space(line).skip(1);
    if path.len() == 0 || set.spec_get(path[0]) is None {
        &&& after == before
        &&& r is Err
        &&& r->Err_0 matches ShiError::UnrecognizedCommand { got }
        &&& got@ == line
    } else {
        let base = set.spec_get(path[0])->0;
        match crate::command::parent::validation(base, args) {
            crate::command::parent::Routing::Leaf(_, _) => true,
            crate::command::parent::Routing::Accepted => {
                &&& crate::command::parent::fails_as(r, crate::command::parent::dispatch(base, args))
                &&& crate::command::parent::is_refusal(crate::command::parent::dispatch(base, args))
                    ==> after == before
            },
            refusal => {
                &&& after == before
                &&& r is Err
                &&& crate::command::parent::is_routing_error(r->Err_0, refusal)
            },
        }
    }
}

/// What follows from a failure to read a line: an interruption and the end
/// of the input end the session in peace, each with its farewell; any other
/// failure is an error that holds the given description.
pub open spec fn follows_failure(
    kind: ReadFailure,
    text: Seq<char>,
    r: Result<Reply, ShiError>,
) -> bool {
    match kind {
        ReadFailure::Interrupted => r matches Ok(reply) && reply.output@ == "-> CTRL+C; bye."@
            && !reply.proceed,
        ReadFailure::Eof => r matches Ok(reply) && reply.output@ == "-> CTRL+D; bye."@
            && !reply.proceed,
        ReadFailure::Other => r matches Err(ShiError::General { msg }) && msg@ == text,
    }
}

/// What the shell makes of a failure to read a line.
pub fn after_read_failure(kind: ReadFailure, text: String) -> (r: Result<Reply, ShiError>)
    ensures
        follows_failure(kind, text@, r),
{
    match kind {
        ReadFailure::Interrupted => Ok(
            Reply { output: String::from_str("-> CTRL+C; bye."), proceed: false },
        ),
        ReadFailure::Eof => Ok(Reply { output: String::from_str("-> CTRL+D; bye."), proceed: false }),
        ReadFailure::Other => Err(ShiError::general(text.as_str())),
    }
}

/// Runs a resolved line in a command set: the first word of the path names
/// the command, which validates and then runs on what stands behind the
/// first space of the line, split on spaces.
pub fn run_in<T>(set: &CommandSet<'_, T>, state: &mut T, outcome: &Outcome, line: &str) -> (r:
    Result<String, ShiError>)
    ensures
        ran_in(*set, outcome.cmd_path.deep_view(), line@, *old(state), *final(state), r),
{
    if outcome.cmd_path.len() > 0 {
        let base_cmd_name = outcome.cmd_path[0];
        assert(outcome.cmd_path.deep_view()[0] == base_cmd_name@);
        match set.get(base_cmd_name) {
            Some(base_cmd) => {
                let pieces = split_spaces(line);
                proof {
                    crate::tokenizer::lemma_split_has_piece(line@);
                }
                let args = vstd::slice::slice_subrange(pieces.as_slice(), 1, pieces.len());
                assert(args.deep_view() =~= crate::tokenizer::split_on_space(line@).skip(1));
                match base_cmd.validate_args(args) {
                    Err(e) => {
                        return Err(e);
                    },
                    Ok(_) => {},
                }
                return base_cmd.execute(state, args);
            },
            None => {},
        }
    }
    Err(ShiError::UnrecognizedCommand { got: String::from_str(line) })
}

impl<'a> Shell<'a, ()> {
    /// A shell with the given prompt and no state.
    pub fn new(prompt: &'a str) -> (shell: Shell<'a, ()>)
        ensures
            shell.prompt_text() == prompt@,
            shell.commands().keys().len() == 0,
            shell.history_entries().len() == 0,
            shell.history_path() is None,
            !shell.terminated(),
    {
        Shell::new_with_state(prompt, ())
    }
}

impl<'a, S> Shell<'a, S> {
    /// The prompt.
    pub closed spec fn prompt_text(&self) -> Seq<char> {
        self.prompt@
    }

    /// The custom commands.
    pub closed spec fn commands(&self) -> CommandSet<'a, S> {
        self.cmds
    }

    /// The state that the custom commands run on.
    pub closed spec fn state_value(&self) -> S {
        self.state
    }

    /// The lines that the shell has as its history.
    pub closed spec fn history_entries(&self) -> Seq<Seq<char>> {
        self.history.deep_view()
    }

    /// The file in which the history is kept, if one was named.
    pub closed spec fn history_path(&self) -> Option<Seq<char>> {
        match self.history_file {
            Some(path) => Some(path@),
            None => None,
        }
    }

    /// Whether the shell was asked to stop.
    pub closed spec fn terminated(&self) -> bool {
        self.terminate
    }

    /// The characters that the shell takes for quotation marks.
    pub closed spec fn quotes(&self) -> Seq<char> {
        self.parser.quotes()
    }

    /// Holds of a shell that differs from `before` at most in having been
    /// asked to stop.
    pub closed spec fn same_but_terminated(&self, before: Self) -> bool {
        &&& self.prompt == before.prompt
        &&& self.cmds == before.cmds
        &&& self.parser == before.parser
        &&& self.history_file == before.history_file
        &&& self.history == before.history
        &&& self.state == before.state
    }

    /// Holds of a shell that differs from `before` at most in its history
    /// and in the file named for it.
    pub closed spec fn same_but_history(&self, before: Self) -> bool {
        &&& self.prompt == before.prompt
        &&& self.cmds == before.cmds
        &&& self.parser == before.parser
        &&& self.state == before.state
        &&& self.terminate == before.terminate
    }

    /// Holds of a shell that differs from `before` at most in its state.
    pub closed spec fn same_but_state(&self, before: Self) -> bool {
        &&& self.prompt == before.prompt
        &&& self.cmds == before.cmds
        &&& self.parser == before.parser
        &&& self.history_file == before.history_file
        &&& self.history == before.history
        &&& self.terminate == before.terminate
    }

    /// Whether `set` is a set of builtins: leaves with the names and the
    /// help texts of the builtins.
    pub open spec fn is_builtin_set(set: CommandSet<'a, Shell<'a, S>>) -> bool {
        &&& set.well_formed()
        &&& set.keys() == builtin_names()
        &&& forall|i: int|
            0 <= i < set.entries().len() ==> (#[trigger] set.entries()[i]) is Leaf
                && set.entries()[i].spec_help() == builtin_helps()[i]
    }

    /// A shell with the given prompt and state. It holds no command and no
    /// history.
    pub fn new_with_state(prompt: &'a str, state: S) -> (shell: Shell<'a, S>)
        ensures
            shell.prompt_text() == prompt@,
            shell.state_value() == state,
            shell.commands().keys().len() == 0,
            shell.history_entries().len() == 0,
            shell.history_path() is None,
            shell.quotes() == seq!['\'', '"'],
            !shell.terminated(),
    {
        let history: Vec<String> = Vec::new();
        assert(history.deep_view() =~= Seq::<Seq<char>>::empty());
        Shell {
            prompt,
            cmds: CommandSet::new(),
            parser: Parser::new(),
            history_file: None,
            history,
            state,
            terminate: false,
        }
    }

    /// The prompt.
    pub fn prompt(&self) -> (prompt: &'a str)
        ensures
            prompt@ == self.prompt_text(),
    {
        self.prompt
    }

    /// The custom commands.
    pub fn cmds(&self) -> (cmds: &CommandSet<'a, S>)
        ensures
            *cmds == self.commands(),
    {
        &self.cmds
    }

    /// The state that the custom commands run on.
    pub fn state(&self) -> (state: &S)
        ensures
            *state == self.state_value(),
    {
        &self.state
    }

    /// The lines that the shell has as its history.
    pub fn history(&self) -> (history: &Vec<String>)
        ensures
            history.deep_view() == self.history_entries(),
    {
        &self.history
    }

    /// The file in which the history is kept, if one was named.
    pub fn history_file(&self) -> (path: Option<&'a str>)
        ensures
            match path {
                Some(p) => self.history_path() == Some(p@),
                None => self.history_path() is None,
            },
    {
        self.history_file
    }

    /// Whether the shell was asked to stop.
    pub fn is_terminated(&self) -> (r: bool)
        ensures
            r == self.terminated(),
    {
        self.terminate
    }

    /// Asks the shell to stop.
    pub fn stop(&mut self)
        ensures
            final(self).terminated(),
            final(self).same_but_terminated(*old(self)),
    {
        self.terminate = true;
    }

    /// Names the file in which the history is kept.
    pub fn set_history_file(&mut self, path: &'a str)
        ensures
            final(self).history_path() == Some(path@),
            final(self).history_entries() == old(self).history_entries(),
            final(self).same_but_history(*old(self)),
    {
        self.history_file = Some(path);
    }

    /// Replaces the history by the given lines.
    pub fn set_history(&mut self, lines: Vec<String>)
        ensures
            final(self).history_entries() == lines.deep_view(),
            final(self).history_path() == old(self).history_path(),
            final(self).same_but_history(*old(self)),
    {
        self.history = lines;
    }

    /// Registers a custom command under the name that it gives itself. A
    /// name that is taken already is refused, and nothing changes.
    pub fn register(&mut self, cmd: Command<'a, S>) -> (r: Result<(), ShiError>)
        ensures
            final(self).commands().well_formed(),
            CommandSet::add_result(old(self).commands(), final(self).commands(), r, cmd),
            r is Err ==> *final(self) == *old(self),
            final(self).prompt_text() == old(self).prompt_text(),
            final(self).state_value() == old(self).state_value(),
            final(self).history_entries() == old(self).history_entries(),
            final(self).history_path() == old(self).history_path(),
            final(self).terminated() == old(self).terminated(),
            final(self).quotes() == old(self).quotes(),
    {
        self.cmds.add(cmd)
    }

    /// Resolves a line against the custom commands and the given builtins.
    pub fn parse_with<'b>(&self, line: &'b str, builtins: &CommandSet<'a, Shell<'a, S>>) -> (outcome:
        Outcome<'b>)
        ensures
            self.resolves(line@, *builtins, outcome),
            crate::text::ascending(outcome.possibilities.deep_view()),
    {
        self.parser.parse(line, &self.cmds, builtins)
    }

    /// Resolves a line against the custom commands and the builtins.
    pub fn parse<'b>(&self, line: &'b str) -> (outcome: Outcome<'b>) where S: 'a
        ensures
            self.resolves_here(line@, outcome),
            crate::text::ascending(outcome.possibilities.deep_view()),
    {
        let builtins = Self::build_builtins();
        let outcome = self.parse_with(line, &builtins);
        proof {
            Self::lemma_builtin_resolution(
                crate::tokenizer::tokens_of(line@, self.quotes()),
                self.commands(),
                builtins,
            );
        }
        outcome
    }

    /// Whether `outcome` reports how `line` resolves in the custom commands
    /// and the given builtins.
    pub open spec fn resolves(
        &self,
        line: Seq<char>,
        builtins: CommandSet<'a, Shell<'a, S>>,
        outcome: Outcome,
    ) -> bool {
        let tokens = crate::tokenizer::tokens_of(line, self.quotes());
        let both = crate::parser::resolve_both(tokens, self.commands(), builtins);
        crate::parser::reports(outcome, tokens, both.0, both.1)
    }

    /// Whether `outcome` reports how `line` resolves in the shell: in its
    /// custom commands and the builtins.
    pub open spec fn resolves_here(&self, line: Seq<char>, outcome: Outcome) -> bool {
        let tokens = crate::tokenizer::tokens_of(line, self.quotes());
        let both = resolve_in_shell(tokens, self.commands());
        crate::parser::reports(outcome, tokens, both.0, both.1)
    }

    /// A set of builtins resolves tokens as the builtins do.
    pub proof fn lemma_builtin_resolution(
        tokens: Seq<Seq<char>>,
        cmds: CommandSet<'a, S>,
        builtins: CommandSet<'a, Shell<'a, S>>,
    )
        requires
            Self::is_builtin_set(builtins),
        ensures
            crate::parser::resolve(tokens, builtins, 0) == builtin_resolution(tokens),
            crate::parser::resolve_both(tokens, cmds, builtins) == resolve_in_shell(tokens, cmds),
    {
        if tokens.len() > 0 && builtins.has(tokens[0]) {
            let i = builtins.keys().index_of(tokens[0]);
            assert(builtins.entries()[i] is Leaf);
        }
    }

    /// What `eval` does with `line`. A line that does not lead to a leaf
    /// gives the parse error of its resolution and changes nothing. A line
    /// that leads to a custom command is run in the custom commands, on the
    /// state, and nothing but the state may change. A line that leads to a
    /// builtin runs that builtin on the shell itself.
    pub open spec fn evaluates(
        before: Self,
        after: Self,
        line: Seq<char>,
        r: Result<String, ShiError>,
    ) -> bool {
        let tokens = crate::tokenizer::tokens_of(line, before.quotes());
        let both = resolve_in_shell(tokens, before.commands());
        let path = tokens.take(both.0.matched);
        let rest = tokens.skip(both.0.matched);
        if !both.0.complete {
            &&& after == before
            &&& r is Err
            &&& r->Err_0 matches ShiError::ParseError { msg, possibilities, cmd_path, remaining }
            &&& msg@ == crate::parser::error_msg_text(false, path, rest, both.0.possibilities)
            &&& possibilities.deep_view() == both.0.possibilities
            &&& cmd_path.deep_view() == path
            &&& remaining.deep_view() == rest
        } else if both.1 is Custom {
            &&& after.same_but_state(before)
            &&& ran_in(before.commands(), path, line, before.state_value(), after.state_value(), r)
        } else {
            Self::ran_builtin(
                before,
                after,
                path[0],
                crate::tokenizer::split_on_space(line).skip(1),
                line,
                r,
            )
        }
    }

    /// Whether `r` refuses the arguments as too many.
    pub open spec fn refuses_args(r: Result<String, ShiError>, args: Seq<Seq<char>>) -> bool {
        r is Err && (r->Err_0 matches ShiError::ExtraArgs { got } && got.deep_view() == args)
    }

    /// What running the builtin of the given name on the arguments does.
    ///
    /// `help` answers with its listing or explanation, `helptree` with its
    /// drawing, and `history` with the lines of the history; these three
    /// leave the shell alone. `exit` asks the shell to stop and answers
    /// `bye`. All but `help` refuse arguments, and change nothing then.
    pub open spec fn ran_builtin(
        before: Self,
        after: Self,
        name: Seq<char>,
        args: Seq<Seq<char>>,
        line: Seq<char>,
        r: Result<String, ShiError>,
    ) -> bool {
        if name == "help"@ {
            &&& after == before
            &&& HelpCommand::<'a, S>::helps(before, args, r)
        } else if name == "helptree"@ {
            &&& after == before
            &&& if args.len() > 0 {
                Self::refuses_args(r, args)
            } else {
                crate::command::helptree::draws(before, r)
            }
        } else if name == "exit"@ {
            if args.len() > 0 {
                after == before && Self::refuses_args(r, args)
            } else {
                &&& after.terminated()
                &&& after.same_but_terminated(before)
                &&& r is Ok
                &&& r->Ok_0@ == "bye"@
            }
        } else if name == "history"@ {
            &&& after == before
            &&& if args.len() > 0 {
                Self::refuses_args(r, args)
            } else {
                r is Ok && r->Ok_0@ == crate::command::history::history_text(
                    before.history_entries(),
                )
            }
        } else {
            &&& after == before
            &&& r is Err
            &&& r->Err_0 matches ShiError::UnrecognizedCommand { got }
            &&& got@ == line
        }
    }

    /// Runs the builtin of the given name on the arguments: it validates
    /// them and, where it accepts them, runs on the shell.
    pub fn run_builtin(&mut self, name: &str, args: &[String], line: &str) -> (r: Result<
        String,
        ShiError,
    >) where S: 'a
        ensures
            Self::ran_builtin(*old(self), *final(self), name@, args.deep_view(), line@, r),
    {
        if same_text(name, "help") {
            let cmd = HelpCommand::new();
            match cmd.validate_args(args) {
                Err(e) => {
                    return Err(e);
                },
                Ok(_) => {},
            }
            cmd.execute(self, args)
        } else if same_text(name, "helptree") {
            let cmd = HelpTreeCommand::new();
            match cmd.validate_args(args) {
                Err(e) => {
                    return Err(e);
                },
                Ok(_) => {},
            }
            cmd.execute(self, args)
        } else if same_text(name, "exit") {
            let cmd = ExitCommand::new();
            match cmd.validate_args(args) {
                Err(e) => {
                    return Err(e);
                },
                Ok(_) => {},
            }
            cmd.execute(self, args)
        } else if same_text(name, "history") {
            let cmd = HistoryCommand::new();
            match cmd.validate_args(args) {
                Err(e) => {
                    return Err(e);
                },
                Ok(_) => {},
            }
            cmd.execute(self, args)
        } else {
            Err(ShiError::UnrecognizedCommand { got: String::from_str(line) })
        }
    }

    /// `exit` ends the session: where a line consists of the word `exit` and
    /// no custom command has that name, evaluating it answers `bye`, asks the
    /// shell to stop, and changes nothing else.
    pub proof fn lemma_exit_stops(
        before: Self,
        after: Self,
        line: Seq<char>,
        r: Result<String, ShiError>,
    )
        requires
            crate::tokenizer::tokens_of(line, before.quotes()) == seq!["exit"@],
            crate::tokenizer::split_on_space(line) == seq!["exit"@],
            !before.commands().has("exit"@),
            Self::evaluates(before, after, line, r),
        ensures
            after.terminated(),
            after.same_but_terminated(before),
            r is Ok,
            r->Ok_0@ == "bye"@,
    {
        let tokens = seq!["exit"@];
        reveal_strlit("help");
        reveal_strlit("helptree");
        reveal_strlit("exit");
        reveal_strlit("history");
        assert("exit"@[0] != "help"@[0]);
        assert("exit"@[0] != "helptree"@[0]);
        assert(builtin_names()[2] == "exit"@);
        assert(is_builtin(tokens[0]));
        assert(crate::parser::resolve(tokens, before.commands(), 0).matched == 0);
        assert(tokens.take(1)[0] == "exit"@);
        assert(crate::tokenizer::split_on_space(line).skip(1).len() == 0);
    }

    /// Evaluates one line: resolves it, and runs the command that it leads
    /// to on the arguments behind the first word.
    pub fn eval(&mut self, line: &str) -> (r: Result<String, ShiError>) where S: 'a
        ensures
            Self::evaluates(*old(self), *final(self), line@, r),
    {
        let builtins = Self::build_builtins();
        let outcome = self.parser.parse(line, &self.cmds, &builtins);
        let ghost tokens = crate::tokenizer::tokens_of(line@, self.quotes());
        proof {
            crate::parser::lemma_resolve_bounds(tokens, self.commands(), 0);
            crate::parser::lemma_resolve_bounds(tokens, builtins, 0);
            Self::lemma_builtin_resolution(tokens, self.commands(), builtins);
        }
        if !outcome.complete {
            let r = Err(outcome.error().unwrap());
            assert(Self::evaluates(*old(self), *self, line@, r));
            return r;
        }
        match outcome.cmd_type {
            CommandType::Custom => {
                let r = run_in(&self.cmds, &mut self.state, &outcome, line);
                assert(Self::evaluates(*old(self), *self, line@, r));
                r
            },
            CommandType::Builtin => {
                let pieces = split_spaces(line);
                proof {
                    crate::tokenizer::lemma_split_has_piece(line@);
                }
                let args = vstd::slice::slice_subrange(pieces.as_slice(), 1, pieces.len());
                assert(args.deep_view() =~= crate::tokenizer::split_on_space(line@).skip(1));
                proof {
                    let both = resolve_in_shell(tokens, self.commands());
                    assert(both.0.matched >= 1);
                    assert(outcome.cmd_path.deep_view().len() == both.0.matched);
                    assert(outcome.cmd_path@.len() == outcome.cmd_path.deep_view().len());
                    assert(outcome.cmd_path.deep_view()[0] == outcome.cmd_path@[0]@);
                }
                let r = self.run_builtin(outcome.cmd_path[0], args, line);
                assert(Self::evaluates(*old(self), *self, line@, r));
                r
            },
            CommandType::Unknown => {
                assert(false);
                Err(ShiError::UnrecognizedCommand { got: String::from_str(line) })
            },
        }
    }

    /// What `update` answers to a line that was read. The line is evaluated;
    /// its output, or its error behind `Error: `, is to be shown, and the
    /// shell wants another round.
    pub open spec fn answers(
        before: Self,
        after: Self,
        line: Seq<char>,
        evaluated: Result<String, ShiError>,
        reply: Reply,
    ) -> bool {
        &&& Self::evaluates(before, after, line, evaluated)
        &&& reply.proceed
        &&& reply.output@ == match evaluated {
            Ok(output) => output@,
            Err(e) => "Error: "@ + crate::error::error_text(e),
        }
    }

    /// One round of the shell, after the attempt to read a line. A line is
    /// evaluated. An interruption or the end of the input ends the session
    /// in peace; any other failure to read ends it with an error that holds
    /// the description of the failure.
    pub fn update(&mut self, input: Result<String, rustyline::error::ReadlineError>) -> (r: Result<
        Reply,
        ShiError,
    >) where S: 'a
        ensures
            input matches Ok(line) ==> r is Ok && exists|evaluated: Result<String, ShiError>|
                #[trigger] Self::answers(*old(self), *final(self), line@, evaluated, r->Ok_0),
            input is Err ==> *final(self) == *old(self) && exists|
                kind: ReadFailure,
                text: Seq<char>,
            | #[trigger] follows_failure(kind, text, r),
    {
        match input {
            Ok(line) => {
                let evaluated = self.eval(line.as_str());
                let ghost seen = evaluated;
                let output = match evaluated {
                    Ok(output) => output,
                    Err(err) => {
                        let mut text = String::from_str("Error: ");
                        let message = err.message();
                        text.append(message.as_str());
                        text
                    },
                };
                let r = Ok(Reply { output, proceed: true });
                assert(Self::answers(*old(self), *self, line@, seen, r->Ok_0));
                r
            },
            Err(err) => {
                let kind = read_failure(&err);
                let text = failure_text(&err);
                let ghost described = text@;
                let r = after_read_failure(kind, text);
                assert(follows_failure(kind, described, r));
                r
            },
        }
    }

    /// The builtin `help`, as a leaf.
    fn builtin_help() -> (cmd: Command<'a, Shell<'a, S>>) where S: 'a
        ensures
            cmd is Leaf,
            cmd.spec_name() == builtin_names()[0],
            cmd.spec_help() == builtin_helps()[0],
    {
        Command::Leaf(
            LeafCommand::from_parts(
                String::from_str("help"),
                String::from_str(
                    "Prints help info for root commands or explains a given command invocation",
                ),
                Box::new(HelpCommand::new()),
            ),
        )
    }

    /// The builtin `helptree`, as a leaf.
    fn builtin_helptree() -> (cmd: Command<'a, Shell<'a, S>>) where S: 'a
        ensures
            cmd is Leaf,
            cmd.spec_name() == builtin_names()[1],
            cmd.spec_help() == builtin_helps()[1],
    {
        Command::Leaf(
            LeafCommand::from_parts(
                String::from_str("helptree"),
                String::from_str("Prints a tree depiction of all commands in this shell"),
                Box::new(HelpTreeCommand::new()),
            ),
        )
    }

    /// The builtin `exit`, as a leaf.
    fn builtin_exit() -> (cmd: Command<'a, Shell<'a, S>>) where S: 'a
        ensures
            cmd is Leaf,
            cmd.spec_name() == builtin_names()[2],
            cmd.spec_help() == builtin_helps()[2],
    {
        Command::Leaf(
            LeafCommand::from_parts(
                String::from_str("exit"),
                String::from_str("Exits the shell session"),
                Box::new(ExitCommand::new()),
            ),
        )
    }

    /// The builtin `history`, as a leaf.
    fn builtin_history() -> (cmd: Command<'a, Shell<'a, S>>) where S: 'a
        ensures
            cmd is Leaf,
            cmd.spec_name() == builtin_names()[3],
            cmd.spec_help() == builtin_helps()[3],
    {
        Command::Leaf(
            LeafCommand::from_parts(
                String::from_str("history"),
                String::from_str("Prints the history of commands"),
                Box::new(HistoryCommand::new()),
            ),
        )
    }

    /// The builtins of the shell.
    pub fn build_builtins() -> (builtins: CommandSet<'a, Shell<'a, S>>) where S: 'a
        ensures
            Self::is_builtin_set(builtins),
    {
        let mut builtins: CommandSet<'a, Shell<'a, S>> = CommandSet::new();
        proof {
            reveal_strlit("help");
            reveal_strlit("helptree");
            reveal_strlit("exit");
            reveal_strlit("history");
            assert("help"@.len() != "helptree"@.len());
            assert("help"@[0] != "exit"@[0]);
            assert("help"@[1] != "history"@[1]);
            assert("helptree"@[0] != "exit"@[0]);
            assert("helptree"@[1] != "history"@[1]);
            assert("exit"@[0] != "history"@[0]);
        }
        let help = Self::builtin_help();
        let helptree = Self::builtin_helptree();
        let exit = Self::builtin_exit();
        let history = Self::builtin_history();
        let _ = builtins.add(help);
        assert(builtins.keys() =~= seq!["help"@]);
        assert(builtins.entries() =~= seq![help]);
        let _ = builtins.add(helptree);
        assert(builtins.keys() =~= seq!["help"@, "helptree"@]);
        assert(builtins.entries() =~= seq![help, helptree]);
        let _ = builtins.add(exit);
        assert(builtins.keys() =~= seq!["help"@, "helptree"@, "exit"@]);
        assert(builtins.entries() =~= seq![help, helptree, exit]);
        let _ = builtins.add(history);
        assert(builtins.keys() =~= builtin_names());
        assert(builtins.entries() =~= seq![help, helptree, exit, history]);
        builtins
    }
}

} // verus!
