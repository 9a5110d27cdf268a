//! Resolving an input line against the command tree.

use vstd::prelude::*;
use vstd::string::StringExecFns;
use crate::command::BaseCommand;
use crate::command::Command;
use crate::command::Completion;
use crate::command_set::CommandSet;
use crate::error::ShiError;
use crate::text::join_strings;
use crate::text::join_strs;
use crate::text::repeat;
use crate::text::to_strings;
use crate::tokenizer::DefaultTokenizer;
use crate::tokenizer::Tokenization;
use crate::tokenizer::Tokenizer;

verus! {

/// A parser that resolves input lines into command invocations.
pub struct Parser {
    tokenizer: DefaultTokenizer,
}

/// Which of the two command sets a line was resolved in.
#[derive(Debug, PartialEq)]
pub enum CommandType {
    /// One of the shell's own commands.
    Builtin,
    /// A command that the user registered.
    Custom,
    /// Not known: nothing of the line was resolved.
    Unknown,
}

/// What resolving a line gave.
#[derive(Debug, PartialEq)]
pub struct Outcome<'a> {
    /// The tokens that named commands, from the root down.
    pub cmd_path: Vec<&'a str>,
    /// The tokens behind the path: the arguments of the leaf, or what could
    /// not be resolved.
    pub remaining: Vec<&'a str>,
    /// The set in which the line was resolved.
    pub cmd_type: CommandType,
    /// The names that could come next where the resolution stopped, in
    /// alphabetical order.
    pub possibilities: Vec<String>,
    /// What the leaf offers to complete its arguments.
    pub leaf_completion: Option<Completion>,
    /// Whether the line led to a leaf.
    pub complete: bool,
}

/// How far a list of tokens leads into a command set.
pub struct Resolution {
    /// How many tokens named commands.
    pub matched: int,
    /// Whether the last of them named a leaf.
    pub complete: bool,
    /// The names that could come next, in alphabetical order; none after a
    /// leaf.
    pub possibilities: Seq<Seq<char>>,
}

/// Resolves the tokens from place `at` on in `set`. Each token that names a
/// parent leads into the sub commands of that parent; a token that names a
/// leaf ends the resolution with success; a token that names nothing, or the
/// end of the tokens, ends it without.
pub open spec fn resolve<'a, S>(tokens: Seq<Seq<char>>, set: CommandSet<'a, S>, at: int) -> Resolution
    decreases tokens.len() - at,
{
    if at < 0 || at >= tokens.len() {
        Resolution { matched: at, complete: false, possibilities: crate::text::sorted(set.keys()) }
    } else {
        match set.spec_get(tokens[at]) {
            None => Resolution {
                matched: at,
                complete: false,
                possibilities: crate::text::sorted(set.keys()),
            },
            Some(Command::Leaf(_)) => Resolution {
                matched: at + 1,
                complete: true,
                possibilities: Seq::empty(),
            },
            Some(Command::Parent(p)) => resolve(tokens, p.children(), at + 1),
        }
    }
}

/// The resolution against both sets: the custom set decides wherever it
/// leads to a leaf, then the builtin set wherever that leads to a leaf, and
/// else the custom set again.
pub open spec fn resolve_both<'a, S, B>(
    tokens: Seq<Seq<char>>,
    cmds: CommandSet<'a, S>,
    builtins: CommandSet<'a, B>,
) -> (Resolution, CommandType) {
    let custom = resolve(tokens, cmds, 0);
    let builtin = resolve(tokens, builtins, 0);
    if custom.complete {
        (custom, CommandType::Custom)
    } else if builtin.complete {
        (builtin, CommandType::Builtin)
    } else {
        (custom, CommandType::Custom)
    }
}

/// Whether an outcome reports the resolution `res` of `tokens` in a set of
/// kind `tag`. The kind is unknown where no token was resolved. What a leaf
/// offers for completion is the leaf's own business: the outcome holds it
/// exactly when the resolution is complete.
pub open spec fn reports(
    outcome: Outcome,
    tokens: Seq<Seq<char>>,
    res: Resolution,
    tag: CommandType,
) -> bool {
    &&& outcome.cmd_path.deep_view() == tokens.take(res.matched)
    &&& outcome.remaining.deep_view() == tokens.skip(res.matched)
    &&& outcome.cmd_type == if res.matched == 0 {
        CommandType::Unknown
    } else {
        tag
    }
    &&& outcome.possibilities.deep_view() == res.possibilities
    &&& outcome.complete == res.complete
    &&& outcome.leaf_completion is Some <==> res.complete
}

/// A resolution stops inside the tokens, and its possibilities are in
/// alphabetical order.
pub proof fn lemma_resolve_bounds<'a, S>(tokens: Seq<Seq<char>>, set: CommandSet<'a, S>, at: int)
    requires
        0 <= at <= tokens.len(),
    ensures
        at <= resolve(tokens, set, at).matched <= tokens.len(),
        resolve(tokens, set, at).complete ==> resolve(tokens, set, at).matched > at,
        crate::text::ascending(resolve(tokens, set, at).possibilities),
    decreases tokens.len() - at,
{
    crate::text::lemma_sorted_ascending(set.keys());
    if at < tokens.len() {
        match set.spec_get(tokens[at]) {
            Some(Command::Parent(p)) => {
                lemma_resolve_bounds(tokens, p.children(), at + 1);
            },
            _ => {},
        }
    }
}

/// No token is lost: the path of an outcome and what remains behind it
/// are the tokens, in order.
pub proof fn lemma_outcome_splits_tokens<'a, S, B>(
    outcome: Outcome,
    tokens: Seq<Seq<char>>,
    cmds: CommandSet<'a, S>,
    builtins: CommandSet<'a, B>,
)
    requires
        reports(
            outcome,
            tokens,
            resolve_both(tokens, cmds, builtins).0,
            resolve_both(tokens, cmds, builtins).1,
        ),
    ensures
        outcome.cmd_path.deep_view() + outcome.remaining.deep_view() == tokens,
        outcome.complete ==> outcome.cmd_path@.len() >= 1 && outcome.possibilities@.len() == 0
            && !(outcome.cmd_type is Unknown),
{
    lemma_resolve_bounds(tokens, cmds, 0);
    lemma_resolve_bounds(tokens, builtins, 0);
    let matched = resolve_both(tokens, cmds, builtins).0.matched;
    assert(tokens.take(matched) + tokens.skip(matched) =~= tokens);
    lemma_complete_has_no_possibilities(tokens, cmds, 0);
    lemma_complete_has_no_possibilities(tokens, builtins, 0);
}

/// A resolution that led to a leaf names nothing that could come next.
pub proof fn lemma_complete_has_no_possibilities<'a, S>(
    tokens: Seq<Seq<char>>,
    set: CommandSet<'a, S>,
    at: int,
)
    requires
        0 <= at <= tokens.len(),
    ensures
        resolve(tokens, set, at).complete ==> resolve(tokens, set, at).possibilities.len() == 0,
    decreases tokens.len() - at,
{
    if at < tokens.len() {
        match set.spec_get(tokens[at]) {
            Some(Command::Parent(p)) => {
                lemma_complete_has_no_possibilities(tokens, p.children(), at + 1);
            },
            _ => {},
        }
    }
}

/// Custom commands win ties: where the custom set resolves the tokens to a
/// leaf, the resolution is the custom one, whatever the builtin set holds.
pub proof fn lemma_custom_wins<'a, S, B>(
    tokens: Seq<Seq<char>>,
    cmds: CommandSet<'a, S>,
    builtins: CommandSet<'a, B>,
)
    requires
        resolve(tokens, cmds, 0).complete,
    ensures
        resolve_both(tokens, cmds, builtins) == (resolve(tokens, cmds, 0), CommandType::Custom),
{
}

/// A text between single quotes.
pub open spec fn quoted(text: Seq<char>) -> Seq<char> {
    "'"@ + text + "'"@
}

/// Each name between single quotes.
pub open spec fn quote_all(names: Seq<Seq<char>>) -> Seq<Seq<char>> {
    Seq::new(names.len(), |i: int| quoted(names[i]))
}

/// The line of a message that shows the input as it was understood: the
/// resolved words, and behind them what was left over.
pub open spec fn shown_input(valid_prefix: Seq<char>, remaining: Seq<Seq<char>>) -> Seq<char> {
    if remaining.len() == 0 {
        "\t => '"@ + valid_prefix + "  '\n"@
    } else {
        "\t => '"@ + valid_prefix + " "@ + crate::text::joined(remaining, " "@) + "'\n"@
    }
}

/// The line of a message that puts a caret under the place just behind the
/// resolved words. The caret is moved right by one space for each byte of
/// those words, and one more.
pub open spec fn caret_line(valid_prefix: Seq<char>) -> Seq<char> {
    "\t     "@ + crate::text::repeated(
        " "@,
        (vstd::utf8::encode_utf8(valid_prefix).len() + 1) as nat,
    ) + "^\n"@
}

/// The part of a message that says what stood in place of a sub command.
pub open spec fn found_instead(remaining: Seq<Seq<char>>) -> Seq<char> {
    if remaining.len() > 0 {
        "'"@ + remaining[0] + "';\n"@
    } else {
        "nothing;\n"@
    }
}

/// What a message says of the failure itself.
pub open spec fn failure_text(path: Seq<Seq<char>>, remaining: Seq<Seq<char>>) -> Seq<char> {
    if path.len() == 0 && remaining.len() == 0 {
        "Empty string could not be parsed as a command."@
    } else if path.len() == 0 {
        "'"@ + remaining[0] + "' is not a recognized command."@
    } else {
        let valid_prefix = crate::text::joined(path, " "@);
        "Failed to parse fully:\n"@ + "\n"@ + "\t    (spaces trimmed)\n"@ + shown_input(
            valid_prefix,
            remaining,
        ) + caret_line(valid_prefix) + "expected a valid subcommand\n"@ + "instead, got: "@
            + found_instead(remaining) + "\n"@ + "Run '"@ + valid_prefix
            + " help' for more info on the command."@
    }
}

/// What a message says of the names that could have come next; nothing where
/// there are none.
pub open spec fn expectation_text(possibilities: Seq<Seq<char>>) -> Seq<char> {
    if possibilities.len() == 0 {
        Seq::empty()
    } else {
        "\n\n"@ + "\t => expected one of "@ + crate::text::joined(
            quote_all(possibilities),
            " or "@,
        ) + ".\n"@
    }
}

/// The message for a resolution that did not lead to a leaf; empty for one
/// that did.
pub open spec fn error_msg_text(
    complete: bool,
    path: Seq<Seq<char>>,
    remaining: Seq<Seq<char>>,
    possibilities: Seq<Seq<char>>,
) -> Seq<char> {
    if complete {
        Seq::empty()
    } else {
        failure_text(path, remaining) + expectation_text(possibilities) + "\n"@
            + "Run 'helptree' for more info on the entire command tree.\n"@
    }
}

/// Writes the line that shows the input as it was understood.
fn shown_input_line(valid_prefix: &str, remaining: &Vec<&str>) -> (line: String)
    ensures
        line@ == shown_input(valid_prefix@, remaining.deep_view()),
{
    let mut line = String::from_str("\t => '");
    line.append(valid_prefix);
    if remaining.len() == 0 {
        line.append("  '\n");
    } else {
        let invalid_suffix = join_strs(remaining, " ");
        line.append(" ");
        line.append(invalid_suffix.as_str());
        line.append("'\n");
    }
    line
}

/// Writes the line with the caret.
fn caret_under(valid_prefix: &str) -> (line: String)
    ensures
        line@ == caret_line(valid_prefix@),
{
    let mut line = String::from_str("\t     ");
    let width = valid_prefix.as_bytes().len();
    let mut spaces = repeat(" ", width);
    spaces.append(" ");
    assert(spaces@ == crate::text::repeated(" "@, (width + 1) as nat));
    line.append(spaces.as_str());
    line.append("^\n");
    line
}

/// Writes what stood in place of a sub command.
fn found_instead_part(remaining: &Vec<&str>) -> (part: String)
    ensures
        part@ == found_instead(remaining.deep_view()),
{
    if remaining.len() > 0 {
        let mut part = String::from_str("'");
        part.append(remaining[0]);
        part.append("';\n");
        part
    } else {
        String::from_str("nothing;\n")
    }
}

/// Writes what a message says of the failure itself.
fn failure_part(cmd_path: &Vec<&str>, remaining: &Vec<&str>) -> (msg: String)
    ensures
        msg@ == failure_text(cmd_path.deep_view(), remaining.deep_view()),
{
    if cmd_path.len() == 0 && remaining.len() == 0 {
        String::from_str("Empty string could not be parsed as a command.")
    } else if cmd_path.len() == 0 {
        let mut msg = String::from_str("'");
        msg.append(remaining[0]);
        msg.append("' is not a recognized command.");
        msg
    } else {
        let valid_prefix = join_strs(cmd_path, " ");
        let mut msg = String::from_str("Failed to parse fully:\n");
        msg.append("\n");
        msg.append("\t    (spaces trimmed)\n");
        let shown = shown_input_line(valid_prefix.as_str(), remaining);
        msg.append(shown.as_str());
        let caret = caret_under(valid_prefix.as_str());
        msg.append(caret.as_str());
        msg.append("expected a valid subcommand\n");
        msg.append("instead, got: ");
        let found = found_instead_part(remaining);
        msg.append(found.as_str());
        msg.append("\n");
        msg.append("Run '");
        msg.append(valid_prefix.as_str());
        msg.append(" help' for more info on the command.");
        msg
    }
}

/// Writes what a message says of the names that could have come next.
fn expectation_part(possibilities: &Vec<String>) -> (part: String)
    ensures
        part@ == expectation_text(possibilities.deep_view()),
{
    if possibilities.len() == 0 {
        return String::new();
    }
    let mut names: Vec<String> = Vec::new();
    let mut i: usize = 0;
    let ghost all = quote_all(possibilities.deep_view());
    while i < possibilities.len()
        invariant
            i <= possibilities@.len(),
            all == quote_all(possibilities.deep_view()),
            names@.len() == i,
            names.deep_view() == all.take(i as int),
        decreases possibilities@.len() - i,
    {
        let mut name = String::from_str("'");
        name.append(possibilities[i].as_str());
        name.append("'");
        let ghost before = names;
        names.push(name);
        proof {
            crate::text::lemma_deep_view_push(before, names, name);
            assert(names.deep_view() =~= all.take(i + 1));
        }
        i += 1;
    }
    assert(all.take(possibilities@.len() as int) =~= all);
    let list = join_strings(&names, " or ");
    let mut part = String::from_str("\n\n");
    part.append("\t => expected one of ");
    part.append(list.as_str());
    part.append(".\n");
    part
}

impl<'a> Outcome<'a> {
    /// The error for a resolution that did not lead to a leaf; `None` for
    /// one that did.
    pub fn error(&self) -> (e: Option<ShiError>)
        ensures
            self.complete ==> e is None,
            !self.complete ==> (e matches Some(
                ShiError::ParseError { msg, possibilities, cmd_path, remaining },
            ) && msg@ == error_msg_text(
                false,
                self.cmd_path.deep_view(),
                self.remaining.deep_view(),
                self.possibilities.deep_view(),
            ) && possibilities.deep_view() == self.possibilities.deep_view() && cmd_path.deep_view()
                == self.cmd_path.deep_view() && remaining.deep_view()
                == self.remaining.deep_view()),
    {
        if !self.complete {
            Some(
                ShiError::ParseError {
                    msg: self.error_msg(),
                    cmd_path: to_strings(&self.cmd_path),
                    remaining: to_strings(&self.remaining),
                    possibilities: crate::command::parent::clone_strings(
                        self.possibilities.as_slice(),
                    ),
                },
            )
        } else {
            None
        }
    }

    /// The message for a resolution that did not lead to a leaf: what
    /// failed, what could have come next, and where to look further. It is
    /// empty for a resolution that did lead to a leaf.
    pub fn error_msg(&self) -> (msg: String)
        ensures
            msg@ == error_msg_text(
                self.complete,
                self.cmd_path.deep_view(),
                self.remaining.deep_view(),
                self.possibilities.deep_view(),
            ),
    {
        if self.complete {
            return String::new();
        }
        let mut msg = failure_part(&self.cmd_path, &self.remaining);
        let expected = expectation_part(&self.possibilities);
        msg.append(expected.as_str());
        msg.append("\n");
        msg.append("Run 'helptree' for more info on the entire command tree.\n");
        msg
    }
}

/// A leaf among the custom commands wins: where the first token names a leaf
/// of the custom set, the line resolves there after that one token, whatever
/// the builtin set holds under the same name.
pub proof fn lemma_custom_leaf_wins<'a, S, B>(
    tokens: Seq<Seq<char>>,
    cmds: CommandSet<'a, S>,
    builtins: CommandSet<'a, B>,
)
    requires
        tokens.len() > 0,
        cmds.spec_get(tokens[0]) matches Some(Command::Leaf(_)),
    ensures
        resolve_both(tokens, cmds, builtins).1 == CommandType::Custom,
        resolve_both(tokens, cmds, builtins).0.complete,
        resolve_both(tokens, cmds, builtins).0.matched == 1,
{
}

/// Descent takes one token for each level: a token that names a parent
/// leads to the resolution of the tokens behind it in the sub commands of
/// that parent.
pub proof fn lemma_descent_takes_one_token<'a, S>(
    tokens: Seq<Seq<char>>,
    set: CommandSet<'a, S>,
    at: int,
)
    requires
        0 <= at < tokens.len(),
        set.spec_get(tokens[at]) matches Some(Command::Parent(_)),
    ensures
        resolve(tokens, set, at) == resolve(
            tokens,
            set.spec_get(tokens[at])->0->Parent_0.children(),
            at + 1,
        ),
        resolve(tokens, set, at).matched >= at + 1,
{
    lemma_resolve_bounds(tokens, set.spec_get(tokens[at])->0->Parent_0.children(), at + 1);
}

/// The tokens from place `from` on.
pub fn tail<'a>(tokens: &Vec<&'a str>, from: usize) -> (rest: Vec<&'a str>)
    requires
        from <= tokens@.len(),
    ensures
        rest.deep_view() == tokens.deep_view().skip(from as int),
{
    let part = vstd::slice::slice_subrange(tokens.as_slice(), from, tokens.len());
    let rest = vstd::slice::slice_to_vec(part);
    assert(rest.deep_view() =~= tokens.deep_view().skip(from as int));
    rest
}

impl Parser {
    /// A parser that takes `'` and `"` for quotation marks.
    pub fn new() -> (parser: Parser)
        ensures
            parser.quotes() == seq!['\'', '"'],
    {
        let mut quotations: Vec<char> = Vec::new();
        quotations.push('\'');
        quotations.push('"');
        assert(quotations@ =~= seq!['\'', '"']);
        Parser { tokenizer: DefaultTokenizer::new(quotations) }
    }

    /// The characters that this parser takes for quotation marks.
    pub closed spec fn quotes(&self) -> Seq<char> {
        self.tokenizer.quotes()
    }

    /// Resolves the tokens in one command set. `cmd_type` says of which kind
    /// the set is.
    pub fn parse_tokens_with_set<'a, 'b, T>(
        &self,
        tokenization: &Tokenization<'a>,
        cmd_type: CommandType,
        set: &CommandSet<'b, T>,
    ) -> (outcome: Outcome<'a>)
        ensures
            reports(outcome, tokenization.tokens.deep_view(), resolve(
                tokenization.tokens.deep_view(),
                *set,
                0,
            ), cmd_type),
            crate::text::ascending(outcome.possibilities.deep_view()),
    {
        let tokens = &tokenization.tokens;
        let ghost words = tokens.deep_view();
        let mut cmd_path: Vec<&'a str> = Vec::new();
        let mut current_set = set;
        let mut i: usize = 0;
        assert(cmd_path.deep_view() =~= words.take(0));
        while i < tokens.len()
            invariant
                i <= tokens@.len(),
                words == tokens.deep_view(),
                words == tokenization.tokens.deep_view(),
                cmd_path.deep_view() == words.take(i as int),
                resolve(words, *set, 0) == resolve(words, *current_set, i as int),
            decreases tokens@.len() - i,
        {
            let token = tokens[i];
            assert(words[i as int] == token@);
            match current_set.get(token) {
                None => {
                    let remaining = tail(tokens, i);
                    let possibilities = current_set.names();
                    return Outcome {
                        cmd_path,
                        remaining,
                        cmd_type: if i == 0 {
                            CommandType::Unknown
                        } else {
                            cmd_type
                        },
                        possibilities,
                        leaf_completion: None,
                        complete: false,
                    };
                },
                Some(looked_up_cmd) => {
                    let ghost before = cmd_path;
                    cmd_path.push(token);
                    proof {
                        crate::text::lemma_deep_view_push(before, cmd_path, token);
                        assert(cmd_path.deep_view() =~= words.take(i + 1));
                    }
                    match &**looked_up_cmd {
                        Command::Leaf(cmd) => {
                            let remaining = tail(tokens, i + 1);
                            let args = tail(tokens, i + 1);
                            let completion = cmd.autocomplete(args, tokenization.trailing_space);
                            let possibilities: Vec<String> = Vec::new();
                            assert(possibilities.deep_view() =~= Seq::<Seq<char>>::empty());
                            return Outcome {
                                cmd_path,
                                remaining,
                                cmd_type,
                                possibilities,
                                leaf_completion: Some(completion),
                                complete: true,
                            };
                        },
                        Command::Parent(cmd) => {
                            current_set = cmd.sub_commands();
                        },
                    }
                },
            }
            i += 1;
        }
        let remaining: Vec<&'a str> = Vec::new();
        let possibilities = current_set.names();
        assert(remaining.deep_view() =~= words.skip(i as int));
        Outcome {
            cmd_path,
            remaining,
            cmd_type: if tokens.len() == 0 {
                CommandType::Unknown
            } else {
                cmd_type
            },
            possibilities,
            leaf_completion: None,
            complete: false,
        }
    }

    /// Resolves the tokens in both sets. Custom commands come first: the
    /// outcome is that of the custom set unless only the builtin set leads to
    /// a leaf.
    pub fn parse_tokens<'a, 'b, S, B>(
        &self,
        tokenization: &Tokenization<'a>,
        cmds: &CommandSet<'b, S>,
        builtins: &CommandSet<'b, B>,
    ) -> (outcome: Outcome<'a>)
        ensures
            reports(
                outcome,
                tokenization.tokens.deep_view(),
                resolve_both(tokenization.tokens.deep_view(), *cmds, *builtins).0,
                resolve_both(tokenization.tokens.deep_view(), *cmds, *builtins).1,
            ),
            crate::text::ascending(outcome.possibilities.deep_view()),
    {
        let cmd_outcome = self.parse_tokens_with_set(tokenization, CommandType::Custom, cmds);
        if cmd_outcome.complete {
            return cmd_outcome;
        }
        let builtin_outcome = self.parse_tokens_with_set(
            tokenization,
            CommandType::Builtin,
            builtins,
        );
        if builtin_outcome.complete {
            return builtin_outcome;
        }
        cmd_outcome
    }

    /// Splits the line into tokens and resolves them in both sets, custom
    /// commands first.
    pub fn parse<'a, 'b, S, B>(
        &self,
        line: &'a str,
        cmds: &CommandSet<'b, S>,
        builtins: &CommandSet<'b, B>,
    ) -> (outcome: Outcome<'a>)
        ensures
            reports(
                outcome,
                crate::tokenizer::tokens_of(line@, self.quotes()),
                resolve_both(crate::tokenizer::tokens_of(line@, self.quotes()), *cmds, *builtins).0,
                resolve_both(crate::tokenizer::tokens_of(line@, self.quotes()), *cmds, *builtins).1,
            ),
            crate::text::ascending(outcome.possibilities.deep_view()),
    {
        let tokenization = self.tokenizer.tokenize(line);
        self.parse_tokens(&tokenization, cmds, builtins)
    }
}

} // verus!
