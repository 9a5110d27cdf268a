use std::marker::PhantomData;

use shi::command::{BaseCommand, Command, Completion};
use shi::command_set::CommandSet;
use shi::error::ShiError;
use shi::parser::{tail, CommandType, Outcome, Parser};
use shi::shell::Shell;
use shi::tokenizer::Tokenization;

#[derive(Debug)]
struct ParseTestCommand<'a, S> {
    name: &'a str,
    autocompletions: Vec<&'a str>,
    phantom: PhantomData<S>,
}

impl<'a, S> ParseTestCommand<'a, S> {
    fn new(name: &'a str) -> ParseTestCommand<'a, S> {
        ParseTestCommand {
            name,
            autocompletions: Vec::new(),
            phantom: PhantomData,
        }
    }

    fn new_with_completions(name: &'a str, completions: Vec<&'a str>) -> ParseTestCommand<'a, S> {
        ParseTestCommand {
            name,
            autocompletions: completions,
            phantom: PhantomData,
        }
    }
}

impl<'a, S> BaseCommand<S> for ParseTestCommand<'a, S> {
    fn name(&self) -> &str {
        self.name
    }

    fn validate_args(&self, _: &[String]) -> Result<(), ShiError> {
        Ok(())
    }

    fn autocomplete(&self, args: Vec<&str>, _: bool) -> Completion {
        // If we don't have any autocompletions set, then just short-circuit out.
        if self.autocompletions.is_empty() {
            return Completion::Nothing;
        }

        match args.last() {
            Some(last) => {
                if self.autocompletions.iter().filter(|s| s == &last).count() > 0 {
                    // If the last argument is in our autocompletions, then we're good, nothing
                    // more to complete.
                    Completion::Nothing
                } else {
                    let prefix_matches: Vec<String> = self
                        .autocompletions
                        .iter()
                        .filter(|s| s.starts_with(last))
                        .map(|s| s.to_string())
                        .collect();

                    if prefix_matches.is_empty() {
                        // If nothing matched, then we have no completions.
                        return Completion::Nothing;
                    }
                    // If not, then perhaps it is a prefix of an autocompletion. Let's give
                    // back some partial arg completions if so!
                    Completion::PartialArgCompletion(prefix_matches)
                }
            }
            None => Completion::Possibilities(
                self.autocompletions.iter().map(|s| s.to_string()).collect(),
            ),
        }
    }

    fn execute(&self, _: &mut S, _: &[String]) -> Result<String, ShiError> {
        Ok(String::from(""))
    }
}

fn make_parser_cmds<'a>() -> (CommandSet<'a, ()>, CommandSet<'a, Shell<'a, ()>>) {
    (
        CommandSet::new_from_vec(vec![
            Command::new_parent(
                "foo-c",
                vec![
                    Command::new_leaf(ParseTestCommand::new("bar-c")),
                    Command::new_leaf(ParseTestCommand::new("baz-c")),
                    Command::new_parent(
                        "qux-c",
                        vec![
                            Command::new_leaf(ParseTestCommand::new("quux-c")),
                            Command::new_leaf(ParseTestCommand::new("corge-c")),
                        ],
                    ),
                ],
            ),
            Command::new_leaf(ParseTestCommand::new("grault-c")),
            Command::new_leaf(ParseTestCommand::new("conflict-tie")),
            Command::new_leaf(ParseTestCommand::new(
                "conflict-builtin-longer-match-but-still-loses",
            )),
            Command::new_parent(
                "conflict-custom-wins",
                vec![Command::new_leaf(ParseTestCommand::new("child"))],
            ),
        ]),
        CommandSet::new_from_vec(vec![
            Command::new_parent(
                "foo-b",
                vec![Command::new_leaf(ParseTestCommand::new_with_completions(
                    "bar-b",
                    vec!["ho", "he", "bum"],
                ))],
            ),
            Command::new_leaf(ParseTestCommand::new("conflict-tie")),
            Command::new_leaf(ParseTestCommand::new("conflict-custom-wins")),
            Command::new_parent(
                "conflict-builtin-longer-match-but-still-loses",
                vec![Command::new_leaf(ParseTestCommand::new("child"))],
            ),
        ]),
    )
}

fn top_level_names() -> Vec<String> {
    vec![
        String::from("conflict-builtin-longer-match-but-still-loses"),
        String::from("conflict-custom-wins"),
        String::from("conflict-tie"),
        String::from("foo-c"),
        String::from("grault-c"),
    ]
}

#[test]
fn nesting() {
    let cmds = make_parser_cmds();

    assert_eq!(
        Parser::new().parse("foo-c bar-c he", &cmds.0, &cmds.1),
        Outcome {
            cmd_path: vec!["foo-c", "bar-c"],
            remaining: vec!["he"],
            cmd_type: CommandType::Custom,
            possibilities: Vec::new(),
            leaf_completion: Some(Completion::Nothing),
            complete: true,
        }
    );
}

#[test]
fn no_nesting_no_args() {
    let cmds = make_parser_cmds();

    assert_eq!(
        Parser::new().parse("foo-c bar-c", &cmds.0, &cmds.1),
        Outcome {
            cmd_path: vec!["foo-c", "bar-c"],
            remaining: vec![],
            cmd_type: CommandType::Custom,
            possibilities: Vec::new(),
            leaf_completion: Some(Completion::Nothing),
            complete: true,
        }
    );
}

#[test]
fn end_with_no_args_but_is_parent() {
    let cmds = make_parser_cmds();

    assert_eq!(
        Parser::new().parse("foo-c qux-c", &cmds.0, &cmds.1),
        Outcome {
            cmd_path: vec!["foo-c", "qux-c"],
            remaining: vec![],
            cmd_type: CommandType::Custom,
            possibilities: vec![String::from("corge-c"), String::from("quux-c")],
            leaf_completion: None,
            complete: false,
        }
    );
}

#[test]
fn builtin_nesting() {
    let cmds = make_parser_cmds();

    assert_eq!(
        Parser::new().parse("foo-b bar-b he", &cmds.0, &cmds.1),
        Outcome {
            cmd_path: vec!["foo-b", "bar-b"],
            remaining: vec!["he"],
            cmd_type: CommandType::Builtin,
            possibilities: Vec::new(),
            leaf_completion: Some(Completion::Nothing),
            complete: true,
        }
    );
}

#[test]
fn empty() {
    let cmds = make_parser_cmds();

    assert_eq!(
        Parser::new().parse("", &cmds.0, &cmds.1),
        Outcome {
            cmd_path: vec![],
            remaining: vec![],
            cmd_type: CommandType::Unknown,
            possibilities: top_level_names(),
            leaf_completion: None,
            complete: false,
        }
    );
}

#[test]
fn invalid_subcmd() {
    let cmds = make_parser_cmds();

    assert_eq!(
        Parser::new().parse("foo-c he", &cmds.0, &cmds.1),
        Outcome {
            cmd_path: vec!["foo-c"],
            remaining: vec!["he"],
            cmd_type: CommandType::Custom,
            possibilities: vec![
                String::from("bar-c"),
                String::from("baz-c"),
                String::from("qux-c"),
            ],
            leaf_completion: None,
            complete: false,
        }
    );
}

#[test]
fn no_nesting() {
    let cmds = make_parser_cmds();

    assert_eq!(
        Parser::new().parse("grault-c la la", &cmds.0, &cmds.1),
        Outcome {
            cmd_path: vec!["grault-c"],
            remaining: vec!["la", "la"],
            cmd_type: CommandType::Custom,
            possibilities: Vec::new(),
            leaf_completion: Some(Completion::Nothing),
            complete: true,
        }
    );
}

#[test]
fn no_args_no_nesting() {
    let cmds = make_parser_cmds();

    assert_eq!(
        Parser::new().parse("grault-c", &cmds.0, &cmds.1),
        Outcome {
            cmd_path: vec!["grault-c"],
            remaining: vec![],
            cmd_type: CommandType::Custom,
            possibilities: Vec::new(),
            leaf_completion: Some(Completion::Nothing),
            complete: true,
        }
    );
}

#[test]
fn cmd_has_args_that_match_other_cmds() {
    let cmds = make_parser_cmds();

    assert_eq!(
        Parser::new().parse("grault-c foo-c bar-c", &cmds.0, &cmds.1),
        Outcome {
            cmd_path: vec!["grault-c"],
            // Although these match other command names, since they come after grault, we
            // expect them to be treated as basic arguments.
            remaining: vec!["foo-c", "bar-c"],
            cmd_type: CommandType::Custom,
            possibilities: Vec::new(),
            leaf_completion: Some(Completion::Nothing),
            complete: true,
        }
    );
}

#[test]
fn nonexistent_cmd() {
    let cmds = make_parser_cmds();

    assert_eq!(
        Parser::new().parse("notacmd", &cmds.0, &cmds.1),
        Outcome {
            cmd_path: vec![],
            remaining: vec!["notacmd"],
            cmd_type: CommandType::Unknown,
            possibilities: top_level_names(),
            leaf_completion: None,
            complete: false,
        }
    );
}

#[test]
fn args_with_nonexistent_cmd() {
    let cmds = make_parser_cmds();

    assert_eq!(
        Parser::new().parse("notacmd la la", &cmds.0, &cmds.1),
        Outcome {
            cmd_path: vec![],
            remaining: vec!["notacmd", "la", "la"],
            cmd_type: CommandType::Unknown,
            possibilities: top_level_names(),
            leaf_completion: None,
            complete: false,
        }
    );
}

#[test]
fn three_levels_deep() {
    let cmds = make_parser_cmds();

    assert_eq!(
        Parser::new().parse("foo-c qux-c quux-c la la", &cmds.0, &cmds.1),
        Outcome {
            cmd_path: vec!["foo-c", "qux-c", "quux-c"],
            remaining: vec!["la", "la"],
            cmd_type: CommandType::Custom,
            possibilities: Vec::new(),
            leaf_completion: Some(Completion::Nothing),
            complete: true,
        }
    );
}

#[test]
fn perfect_tie_custom_wins_tie_breaker() {
    let cmds = make_parser_cmds();

    assert_eq!(
        Parser::new().parse("conflict-tie ha ha", &cmds.0, &cmds.1),
        Outcome {
            cmd_path: vec!["conflict-tie"],
            remaining: vec!["ha", "ha"],
            cmd_type: CommandType::Custom,
            possibilities: Vec::new(),
            leaf_completion: Some(Completion::Nothing),
            complete: true,
        }
    );
}

#[test]
fn conflict_but_builtin_has_longer_match() {
    // We are testing that custom commands have a higher precedence. Although this command
    // exists identically in the builtin set, the custom variant is chosen.
    let cmds = make_parser_cmds();

    assert_eq!(
        Parser::new().parse(
            "conflict-builtin-longer-match-but-still-loses child ha",
            &cmds.0,
            &cmds.1
        ),
        Outcome {
            cmd_path: vec!["conflict-builtin-longer-match-but-still-loses"],
            remaining: vec!["child", "ha"],
            cmd_type: CommandType::Custom,
            possibilities: Vec::new(),
            leaf_completion: Some(Completion::Nothing),
            complete: true,
        }
    );
}

#[test]
fn conflict_but_custom_has_longer_match() {
    let cmds = make_parser_cmds();

    assert_eq!(
        Parser::new().parse("conflict-custom-wins child ha", &cmds.0, &cmds.1),
        Outcome {
            cmd_path: vec!["conflict-custom-wins", "child"],
            remaining: vec!["ha"],
            cmd_type: CommandType::Custom,
            possibilities: Vec::new(),
            leaf_completion: Some(Completion::Nothing),
            complete: true,
        }
    );
}

#[test]
fn cmd_level_partial_autocompletion_multiple_choices() {
    let cmds = make_parser_cmds();

    assert_eq!(
        Parser::new().parse("foo-b bar-b h", &cmds.0, &cmds.1),
        Outcome {
            cmd_path: vec!["foo-b", "bar-b"],
            remaining: vec!["h"],
            cmd_type: CommandType::Builtin,
            possibilities: Vec::new(),
            leaf_completion: Some(Completion::PartialArgCompletion(vec![
                String::from("ho"),
                String::from("he")
            ])),
            complete: true,
        }
    );
}

#[test]
fn cmd_level_partial_autocompletion_single_choice() {
    let cmds = make_parser_cmds();

    assert_eq!(
        Parser::new().parse("foo-b bar-b b", &cmds.0, &cmds.1),
        Outcome {
            cmd_path: vec!["foo-b", "bar-b"],
            remaining: vec!["b"],
            cmd_type: CommandType::Builtin,
            possibilities: Vec::new(),
            leaf_completion: Some(Completion::PartialArgCompletion(vec![String::from("bum"),])),
            complete: true,
        }
    );
}

#[test]
fn cmd_level_completion_all_options() {
    let cmds = make_parser_cmds();

    assert_eq!(
        Parser::new().parse("foo-b bar-b", &cmds.0, &cmds.1),
        Outcome {
            cmd_path: vec!["foo-b", "bar-b"],
            remaining: vec![],
            cmd_type: CommandType::Builtin,
            possibilities: Vec::new(),
            leaf_completion: Some(Completion::Possibilities(vec![
                String::from("ho"),
                String::from("he"),
                String::from("bum"),
            ])),
            complete: true,
        }
    );
}

#[test]
fn cmd_level_completion_no_matches() {
    let cmds = make_parser_cmds();

    assert_eq!(
        Parser::new().parse("foo-b bar-b z", &cmds.0, &cmds.1),
        Outcome {
            cmd_path: vec!["foo-b", "bar-b"],
            remaining: vec!["z"],
            cmd_type: CommandType::Builtin,
            possibilities: Vec::new(),
            leaf_completion: Some(Completion::Nothing),
            complete: true,
        }
    );
}

#[test]
fn cmd_level_completion_already_complete() {
    let cmds = make_parser_cmds();

    assert_eq!(
        Parser::new().parse("foo-b bar-b bum", &cmds.0, &cmds.1),
        Outcome {
            cmd_path: vec!["foo-b", "bar-b"],
            remaining: vec!["bum"],
            cmd_type: CommandType::Builtin,
            possibilities: Vec::new(),
            leaf_completion: Some(Completion::Nothing),
            complete: true,
        }
    );
}

#[test]
fn outcome_error_msg() {
    let outcome = Outcome {
        cmd_path: vec!["foo", "bar"],
        remaining: vec!["la", "la"],
        cmd_type: CommandType::Custom,
        possibilities: Vec::new(),
        leaf_completion: None,
        complete: false,
    };

    assert_eq!(
        outcome.error_msg(),
        [
            "Failed to parse fully:\n",
            "\n",
            "\t    (spaces trimmed)\n",
            "\t => 'foo bar la la'\n",
            "\t             ^\n",
            "expected a valid subcommand\n",
            "instead, got: 'la';\n",
            "\n",
            "Run 'foo bar help' for more info on the command.\n",
            "Run 'helptree' for more info on the entire command tree.\n",
        ]
        .join(""),
    );
}

#[test]
fn empty_remaining_in_outcome() {
    let outcome = Outcome {
        cmd_path: vec!["foo", "bar"],
        remaining: vec![],
        cmd_type: CommandType::Custom,
        possibilities: Vec::new(),
        leaf_completion: None,
        complete: false,
    };

    assert_eq!(
        outcome.error_msg(),
        [
            "Failed to parse fully:\n",
            "\n",
            "\t    (spaces trimmed)\n",
            "\t => 'foo bar  '\n",
            "\t             ^\n",
            "expected a valid subcommand\n",
            "instead, got: nothing;\n",
            "\n",
            "Run 'foo bar help' for more info on the command.\n",
            "Run 'helptree' for more info on the entire command tree.\n",
        ]
        .join(""),
    );
}

#[test]
fn parser_empty() {
    let outcome = Outcome {
        cmd_path: vec![],
        remaining: vec![],
        cmd_type: CommandType::Custom,
        possibilities: vec![
            String::from("conflict-tie"),
            String::from("conflict-builtin-longer-match-but-still-loses"),
            String::from("conflict-custom-wins"),
            String::from("foo-c"),
            String::from("grault-c"),
        ],
        leaf_completion: None,
        complete: false,
    };

    assert_eq!(
        outcome.error_msg(),
        [
            "Empty string could not be parsed as a command.\n",
            "\n",
            "\t => expected one of 'conflict-tie' or 'conflict-builtin-longer-match-but-still-loses' or 'conflict-custom-wins' or 'foo-c' or 'grault-c'.",
            "\n",
            "\n",
            "Run 'helptree' for more info on the entire command tree.\n",
        ]
        .join(""),
    );
}

#[test]
fn unrecognized_first_cmd() {
    let outcome = Outcome {
        cmd_path: vec![],
        remaining: vec!["notfound", "la"],
        cmd_type: CommandType::Custom,
        possibilities: Vec::new(),
        leaf_completion: None,
        complete: false,
    };

    assert_eq!(
        outcome.error_msg(),
        [
            "'notfound' is not a recognized command.\n",
            "Run 'helptree' for more info on the entire command tree.\n",
        ]
        .join(""),
    );
}

#[test]
fn error_msg_is_blank_for_complete_parse() {
    let outcome = Outcome {
        cmd_path: vec![],
        remaining: vec![],
        cmd_type: CommandType::Custom,
        possibilities: Vec::new(),
        leaf_completion: Some(Completion::Nothing),
        complete: true,
    };

    assert_eq!(outcome.error_msg(), String::from(""));
}

#[test]
fn custom_wins_where_both_sets_hold_the_name() {
    let custom: CommandSet<()> =
        CommandSet::new_from_vec(vec![Command::new_leaf(ParseTestCommand::new("x"))]);
    let builtin: CommandSet<u8> = CommandSet::new_from_vec(vec![Command::new_leaf(
        ParseTestCommand::new_with_completions("x", vec!["other"]),
    )]);

    let outcome = Parser::new().parse("x arg", &custom, &builtin);
    assert_eq!(outcome.cmd_type, CommandType::Custom);
    assert!(outcome.complete);
    // The custom leaf was asked, not the builtin one.
    assert_eq!(outcome.leaf_completion, Some(Completion::Nothing));
}

#[test]
fn builtin_decides_only_where_it_alone_leads_to_a_leaf() {
    let custom: CommandSet<()> = CommandSet::new_from_vec(vec![Command::new_parent(
        "x",
        vec![Command::new_leaf(ParseTestCommand::new("y"))],
    )]);
    let builtin: CommandSet<u8> =
        CommandSet::new_from_vec(vec![Command::new_leaf(ParseTestCommand::new("x"))]);

    // Only the builtin set leads to a leaf.
    let outcome = Parser::new().parse("x z", &custom, &builtin);
    assert_eq!(outcome.cmd_type, CommandType::Builtin);
    assert_eq!(outcome.cmd_path, vec!["x"]);
    assert_eq!(outcome.remaining, vec!["z"]);

    // Both lead to a leaf: custom.
    let outcome = Parser::new().parse("x y", &custom, &builtin);
    assert_eq!(outcome.cmd_type, CommandType::Custom);
    assert_eq!(outcome.cmd_path, vec!["x", "y"]);

    // Neither leads to a leaf: custom, although it is incomplete.
    let outcome = Parser::new().parse("w", &custom, &builtin);
    assert!(!outcome.complete);
    assert_eq!(outcome.cmd_type, CommandType::Unknown);
    assert_eq!(outcome.possibilities, vec!["x"]);
}

#[test]
fn descent_takes_one_token_for_each_level() {
    let custom: CommandSet<()> = CommandSet::new_from_vec(vec![Command::new_parent(
        "a",
        vec![Command::new_parent(
            "b",
            vec![Command::new_leaf(ParseTestCommand::new("c"))],
        )],
    )]);
    let builtin: CommandSet<u8> = CommandSet::new();

    let outcome = Parser::new().parse("a b c extra", &custom, &builtin);
    assert_eq!(outcome.cmd_path, vec!["a", "b", "c"]);
    assert_eq!(outcome.remaining, vec!["extra"]);
    assert!(outcome.complete);
}

#[test]
fn concrete_scenario() {
    let custom: CommandSet<()> = CommandSet::new_from_vec(vec![
        Command::new_parent(
            "foo-c",
            vec![
                Command::new_leaf(ParseTestCommand::new("bar-c")),
                Command::new_leaf(ParseTestCommand::new("baz-c")),
                Command::new_parent(
                    "qux-c",
                    vec![
                        Command::new_leaf(ParseTestCommand::new("quux-c")),
                        Command::new_leaf(ParseTestCommand::new("corge-c")),
                    ],
                ),
            ],
        ),
        Command::new_leaf(ParseTestCommand::new("grault-c")),
    ]);
    let builtin: CommandSet<u8> = CommandSet::new_from_vec(vec![Command::new_parent(
        "foo-b",
        vec![Command::new_leaf(ParseTestCommand::new("bar-b"))],
    )]);

    let outcome = Parser::new().parse("foo-c qux-c", &custom, &builtin);
    assert!(!outcome.complete);
    assert_eq!(outcome.cmd_path, vec!["foo-c", "qux-c"]);
    assert_eq!(outcome.possibilities, vec!["corge-c", "quux-c"]);

    let outcome = Parser::new().parse("grault-c la la", &custom, &builtin);
    assert!(outcome.complete);
    assert_eq!(outcome.cmd_path, vec!["grault-c"]);
    assert_eq!(outcome.remaining, vec!["la", "la"]);
}

#[test]
fn possibilities_are_sorted_whatever_the_order_of_registration() {
    let one: CommandSet<()> = CommandSet::new_from_vec(vec![
        Command::new_leaf(ParseTestCommand::new("zeta")),
        Command::new_leaf(ParseTestCommand::new("alpha")),
        Command::new_leaf(ParseTestCommand::new("mu")),
    ]);
    let other: CommandSet<()> = CommandSet::new_from_vec(vec![
        Command::new_leaf(ParseTestCommand::new("mu")),
        Command::new_leaf(ParseTestCommand::new("zeta")),
        Command::new_leaf(ParseTestCommand::new("alpha")),
    ]);
    let builtin: CommandSet<u8> = CommandSet::new();

    let first = Parser::new().parse("nope", &one, &builtin);
    let second = Parser::new().parse("nope", &other, &builtin);
    assert_eq!(first.possibilities, vec!["alpha", "mu", "zeta"]);
    assert_eq!(first.possibilities, second.possibilities);
}

#[test]
fn quoted_tokens_resolve_as_one_word() {
    let custom: CommandSet<()> = CommandSet::new_from_vec(vec![
        Command::new_leaf(ParseTestCommand::new("two words")),
    ]);
    let builtin: CommandSet<u8> = CommandSet::new();

    let outcome = Parser::new().parse("'two words' \"an arg\" b", &custom, &builtin);
    assert!(outcome.complete);
    assert_eq!(outcome.cmd_path, vec!["two words"]);
    assert_eq!(outcome.remaining, vec!["an arg", "b"]);
}

#[test]
fn parse_tokens_with_set_tags_the_outcome() {
    let cmds = make_parser_cmds();
    let parser = Parser::new();

    let tokenization = Tokenization { tokens: vec!["foo-c", "nope"], trailing_space: false };
    let outcome = parser.parse_tokens_with_set(&tokenization, CommandType::Builtin, &cmds.0);
    assert_eq!(outcome.cmd_type, CommandType::Builtin);
    assert_eq!(outcome.cmd_path, vec!["foo-c"]);
    assert_eq!(outcome.remaining, vec!["nope"]);

    let tokenization = Tokenization { tokens: vec!["nope"], trailing_space: false };
    let outcome = parser.parse_tokens_with_set(&tokenization, CommandType::Builtin, &cmds.0);
    assert_eq!(outcome.cmd_type, CommandType::Unknown);

    let tokenization = Tokenization { tokens: vec!["foo-b", "bar-b"], trailing_space: true };
    let outcome = parser.parse_tokens(&tokenization, &cmds.0, &cmds.1);
    assert_eq!(outcome.cmd_type, CommandType::Builtin);
    assert!(outcome.complete);
}

#[test]
fn error_holds_the_parts_of_the_outcome() {
    let outcome = Outcome {
        cmd_path: vec!["foo"],
        remaining: vec!["la"],
        cmd_type: CommandType::Custom,
        possibilities: vec![String::from("bar")],
        leaf_completion: None,
        complete: false,
    };

    match outcome.error() {
        Some(ShiError::ParseError { msg, possibilities, cmd_path, remaining }) => {
            assert_eq!(msg, outcome.error_msg());
            assert_eq!(possibilities, vec!["bar"]);
            assert_eq!(cmd_path, vec!["foo"]);
            assert_eq!(remaining, vec!["la"]);
        }
        other => panic!("expected a parse error, got {:?}", other),
    }

    let done = Outcome {
        cmd_path: vec!["foo"],
        remaining: vec![],
        cmd_type: CommandType::Custom,
        possibilities: Vec::new(),
        leaf_completion: Some(Completion::Nothing),
        complete: true,
    };
    assert!(done.error().is_none());
}

#[test]
fn error_msg_with_possibilities_after_a_path() {
    let outcome = Outcome {
        cmd_path: vec!["foo"],
        remaining: vec!["x", "y"],
        cmd_type: CommandType::Custom,
        possibilities: vec![String::from("bar"), String::from("baz")],
        leaf_completion: None,
        complete: false,
    };

    assert_eq!(
        outcome.error_msg(),
        [
            "Failed to parse fully:\n",
            "\n",
            "\t    (spaces trimmed)\n",
            "\t => 'foo x y'\n",
            "\t         ^\n",
            "expected a valid subcommand\n",
            "instead, got: 'x';\n",
            "\n",
            "Run 'foo help' for more info on the command.",
            "\n\n",
            "\t => expected one of 'bar' or 'baz'.\n",
            "\n",
            "Run 'helptree' for more info on the entire command tree.\n",
        ]
        .join(""),
    );
}

#[test]
fn caret_moves_by_the_bytes_of_the_path() {
    let outcome = Outcome {
        cmd_path: vec!["é"],
        remaining: vec![],
        cmd_type: CommandType::Custom,
        possibilities: Vec::new(),
        leaf_completion: None,
        complete: false,
    };

    // "é" takes two bytes, so the caret stands behind three spaces.
    assert!(outcome.error_msg().contains("\t        ^\n"));
}

#[test]
fn tail_hands_back_the_rest() {
    let tokens = vec!["a", "b", "c"];
    assert_eq!(tail(&tokens, 0), vec!["a", "b", "c"]);
    assert_eq!(tail(&tokens, 2), vec!["c"]);
    assert!(tail(&tokens, 3).is_empty());
}
