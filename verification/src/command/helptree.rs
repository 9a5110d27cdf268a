//! The builtin that draws the command tree.

use core::marker::PhantomData;
use vstd::prelude::*;
use vstd::string::StringExecFns;
use crate::command::parent::clone_strings;
use crate::command::BaseCommand;
use crate::command::Command;
use crate::command_set::CommandSet;
use crate::error::ShiError;
use crate::shell::Shell;
use crate::text::join_strings;

verus! {

/// A command named `helptree` that draws all commands of the shell as a
/// tree, the custom commands first and the builtins below them:
///
/// ```plaintext
/// Normal commands
/// ├── dog
/// └── felid
///     ├── panther
///     └── felinae
///         ├── domestic-cat
///         └── dangerous-tiger
/// ```
#[derive(Debug)]
#[verifier::reject_recursive_types(S)]
pub struct HelpTreeCommand<'a, S> {
    phantom: &'a PhantomData<S>,
}

/// What is needed to draw the line of one command: whether the command is
/// the last of its level, and for each of its ancestors, from the root down,
/// whether that one was the last of its level.
pub struct IndentContext {
    last: bool,
    parent_lastness_chain: Vec<bool>,
}

/// The columns in front of a command's own connector: blank under an
/// ancestor that was the last of its level, a vertical line under any other.
pub open spec fn columns(chain: Seq<bool>) -> Seq<char>
    decreases chain.len(),
{
    if chain.len() == 0 {
        Seq::empty()
    } else {
        columns(chain.drop_last()) + if chain.last() {
            "    "@
        } else {
            "│   "@
        }
    }
}

/// The line of one command in the tree.
pub open spec fn name_line(chain: Seq<bool>, last: bool, name: Seq<char>) -> Seq<char> {
    columns(chain) + if last {
        "└"@
    } else {
        "├"@
    } + "── "@ + name
}

/// The lines of the commands of `set` from place `i` on, each followed by
/// the lines of its sub commands, which stand one level deeper.
pub open spec fn tree_lines<'a, T>(set: CommandSet<'a, T>, chain: Seq<bool>, i: int) -> Seq<Seq<char>>
    decreases set, set.entries().len() - i,
{
    if i < 0 || i >= set.entries().len() || set.entries().len() != set.keys().len() {
        Seq::empty()
    } else {
        let last = i == set.entries().len() - 1;
        let own = seq![name_line(chain, last, set.keys()[i])];
        let below = match set.entries()[i] {
            Command::Leaf(_) => Seq::empty(),
            Command::Parent(p) => {
                proof {
                    set.lemma_entry_decreases(i);
                    p.lemma_children_decrease();
                }
                tree_lines(p.children(), chain.push(last), 0)
            },
        };
        own + below + tree_lines(set, chain, i + 1)
    }
}

/// The lines of commands without sub commands, of the given names, from
/// place `i` on.
pub open spec fn flat_lines(names: Seq<Seq<char>>, chain: Seq<bool>, i: int) -> Seq<Seq<char>>
    decreases names.len() - i,
{
    if i < 0 || i >= names.len() {
        Seq::empty()
    } else {
        seq![name_line(chain, i == names.len() - 1, names[i])] + flat_lines(names, chain, i + 1)
    }
}

/// A set of leaves is drawn as the list of its names.
pub proof fn lemma_tree_of_leaves<'a, T>(set: CommandSet<'a, T>, chain: Seq<bool>, i: int)
    requires
        set.keys().len() == set.entries().len(),
        forall|k: int| 0 <= k < set.entries().len() ==> (#[trigger] set.entries()[k]) is Leaf,
        0 <= i <= set.keys().len(),
    ensures
        tree_lines(set, chain, i) == flat_lines(set.keys(), chain, i),
    decreases set.keys().len() - i,
{
    if i < set.keys().len() {
        lemma_tree_of_leaves(set, chain, i + 1);
        assert(set.entries()[i] is Leaf);
        assert(tree_lines(set, chain, i) =~= flat_lines(set.keys(), chain, i));
    }
}

/// The whole drawing of a shell with the given custom commands: they stand
/// under their heading, and the builtins under theirs.
pub open spec fn drawing<'a, S>(cmds: CommandSet<'a, S>) -> Seq<Seq<char>> {
    seq!["Normal commands"@] + tree_lines(cmds, Seq::empty(), 0) + seq!["\n"@, "Builtins"@]
        + flat_lines(crate::shell::builtin_names(), Seq::empty(), 0)
}

/// What `helptree` answers for a shell: the drawing of its commands, line
/// below line.
pub open spec fn draws<'a, S>(shell: Shell<'a, S>, r: Result<String, ShiError>) -> bool {
    r is Ok && r->Ok_0@ == crate::text::joined(drawing(shell.commands()), "\n"@)
}

impl IndentContext {
    /// Whether the command is the last of its level.
    pub closed spec fn is_last(&self) -> bool {
        self.last
    }

    /// For each ancestor, from the root down, whether it was the last of its
    /// level.
    pub closed spec fn chain(&self) -> Seq<bool> {
        self.parent_lastness_chain@
    }

    /// The context of the root level.
    pub fn root() -> (ctx: IndentContext)
        ensures
            !ctx.is_last(),
            ctx.chain() == Seq::<bool>::empty(),
    {
        IndentContext { last: false, parent_lastness_chain: Vec::new() }
    }

    /// The context one level deeper, below a command that was or was not the
    /// last of its level.
    pub fn indent(&self, last: bool) -> (ctx: IndentContext)
        ensures
            ctx.is_last() == last,
            ctx.chain() == self.chain().push(last),
    {
        let mut parent_chain_copy = self.parent_lastness_chain.clone();
        parent_chain_copy.push(last);
        IndentContext { last, parent_lastness_chain: parent_chain_copy }
    }

    /// The context of another command of the same level.
    pub fn with_last(&self, new_last: bool) -> (ctx: IndentContext)
        ensures
            ctx.is_last() == new_last,
            ctx.chain() == self.chain(),
    {
        IndentContext { last: new_last, parent_lastness_chain: self.parent_lastness_chain.clone() }
    }
}

impl<'a, S> HelpTreeCommand<'a, S> {
    /// A new `helptree` command.
    pub fn new() -> HelpTreeCommand<'a, S> {
        HelpTreeCommand { phantom: &PhantomData }
    }

    /// Adds the line of a command of the given name to the drawing.
    pub fn add_name_to_lines(&self, ctx: &IndentContext, lines: &mut Vec<String>, name: &str)
        ensures
            final(lines).deep_view() == old(lines).deep_view().push(
                name_line(ctx.chain(), ctx.is_last(), name@),
            ),
    {
        let mut line = String::new();
        let mut k: usize = 0;
        assert(ctx.parent_lastness_chain@.take(0) =~= Seq::<bool>::empty());
        while k < ctx.parent_lastness_chain.len()
            invariant
                k <= ctx.parent_lastness_chain@.len(),
                line@ == columns(ctx.parent_lastness_chain@.take(k as int)),
            decreases ctx.parent_lastness_chain@.len() - k,
        {
            proof {
                let next = ctx.parent_lastness_chain@.take(k + 1);
                assert(next.drop_last() =~= ctx.parent_lastness_chain@.take(k as int));
                assert(next.last() == ctx.parent_lastness_chain@[k as int]);
            }
            if ctx.parent_lastness_chain[k] {
                line.append("    ");
            } else {
                line.append("│   ");
            }
            k += 1;
        }
        assert(ctx.parent_lastness_chain@.take(k as int) =~= ctx.parent_lastness_chain@);
        if ctx.last {
            line.append("└");
        } else {
            line.append("├");
        }
        line.append("── ");
        line.append(name);
        let ghost before = *lines;
        lines.push(line);
        proof {
            crate::text::lemma_deep_view_push(before, *lines, line);
        }
    }

    /// Adds the lines of the commands of `cmds`, each followed by the lines
    /// of its sub commands.
    pub fn add_tree_lines_for_children<T>(
        &self,
        ctx: &IndentContext,
        lines: &mut Vec<String>,
        cmds: &CommandSet<'_, T>,
    )
        ensures
            final(lines).deep_view() == old(lines).deep_view() + tree_lines(*cmds, ctx.chain(), 0),
        decreases *cmds,
    {
        let n = cmds.len();
        let mut i: usize = 0;
        let ghost start = lines.deep_view();
        let ghost all = tree_lines(*cmds, ctx.chain(), 0);
        assert(start + all =~= start + tree_lines(*cmds, ctx.chain(), 0));
        while i < n
            invariant
                i <= n,
                n == cmds.keys().len(),
                cmds.well_formed(),
                lines.deep_view() + tree_lines(*cmds, ctx.chain(), i as int) == start + all,
            decreases n - i,
        {
            let last = i == n - 1;
            let ghost before = lines.deep_view();
            let ghost rest = tree_lines(*cmds, ctx.chain(), i as int);
            self.add_name_to_lines(&ctx.with_last(last), lines, cmds.name_at(i));
            let cmd = cmds.command_at(i);
            match &**cmd {
                Command::Leaf(_) => {},
                Command::Parent(parent_cmd) => {
                    proof {
                        cmds.lemma_entry_decreases(i as int);
                        parent_cmd.lemma_children_decrease();
                    }
                    self.add_tree_lines_for_children(
                        &ctx.indent(last),
                        lines,
                        parent_cmd.sub_commands(),
                    );
                },
            }
            assert(lines.deep_view() + tree_lines(*cmds, ctx.chain(), i + 1) =~= before + rest);
            i += 1;
        }
        assert(lines.deep_view() + tree_lines(*cmds, ctx.chain(), n as int) =~= lines.deep_view());
    }

    /// The lines of the drawing.
    pub fn to_lines(&self, shell: &Shell<'a, S>) -> (lines: Vec<String>) where S: 'a
        ensures
            lines.deep_view() == drawing(shell.commands()),
    {
        let ctx = IndentContext::root();
        let builtins = Shell::<'a, S>::build_builtins();
        let mut lines: Vec<String> = Vec::new();
        lines.push(String::from_str("Normal commands"));
        assert(lines.deep_view() =~= seq!["Normal commands"@]);
        self.add_tree_lines_for_children(&ctx.with_last(false), &mut lines, shell.cmds());
        let ghost upper = lines;
        let gap = String::from_str("\n");
        lines.push(gap);
        proof {
            crate::text::lemma_deep_view_push(upper, lines, gap);
        }
        let ghost middle = lines;
        let heading = String::from_str("Builtins");
        lines.push(heading);
        proof {
            crate::text::lemma_deep_view_push(middle, lines, heading);
        }
        self.add_tree_lines_for_children(&ctx.with_last(false), &mut lines, &builtins);
        proof {
            lemma_tree_of_leaves(builtins, Seq::empty(), 0);
        }
        assert(lines.deep_view() =~= drawing(shell.commands()));
        lines
    }
}

impl<'a, S> Default for HelpTreeCommand<'a, S> {
    fn default() -> Self {
        Self::new()
    }
}

impl<'a, S: 'a> BaseCommand<Shell<'a, S>> for HelpTreeCommand<'a, S> {
    fn name(&self) -> (name: &str)
        ensures
            name@ == "helptree"@,
    {
        "helptree"
    }

    /// No argument is accepted.
    fn validate_args(&self, args: &[String]) -> (r: Result<(), ShiError>)
        ensures
            args@.len() == 0 ==> r is Ok,
            args@.len() > 0 ==> r is Err && (r->Err_0 matches ShiError::ExtraArgs { got }
                && got.deep_view() == args.deep_view()),
    {
        if args.len() != 0 {
            return Err(ShiError::ExtraArgs { got: clone_strings(args) });
        }
        Ok(())
    }

    /// Draws the tree, and leaves the shell alone.
    fn execute(&self, shell: &mut Shell<'a, S>, args: &[String]) -> (r: Result<String, ShiError>)
        ensures
            *final(shell) == *old(shell),
            draws(*old(shell), r),
    {
        let help_lines = self.to_lines(shell);
        Ok(join_strings(&help_lines, "\n"))
    }

    fn help(&self) -> (text: String)
        ensures
            text@ == "Prints a tree depiction of all commands in this shell"@,
    {
        String::from_str("Prints a tree depiction of all commands in this shell")
    }
}

} // verus!
