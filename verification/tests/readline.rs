use std::marker::PhantomData;

use shi::command::{BaseCommand, Command, Completion};
use shi::command_set::CommandSet;
use shi::error::ShiError;
use shi::parser::{CommandType, Outcome, Parser};
use shi::readline::{candidates, join_continued_lines, prefix_at};
use shi::readline::{ExecCompleter, ExecValidator, Pair, ValidationResult};
use shi::shell::Shell;

#[derive(Debug)]
struct ParseTestCommand<'a, S> {
    name: &'a str,
    autocompletions: Vec<&'a str>,
    phantom: PhantomData<S>,
}

impl<'a, S> ParseTestCommand<'a, S> {
    fn new(name: &'a str) -> ParseTestCommand<'a, S> {
        ParseTestCommand {
            name,
            autocompletions: Vec::new(),
            phantom: PhantomData,
        }
    }

    fn new_with_completions(name: &'a str, completions: Vec<&'a str>) -> ParseTestCommand<'a, S> {
        ParseTestCommand {
            name,
            autocompletions: completions,
            phantom: PhantomData,
        }
    }
}

impl<'a, S> BaseCommand<S> for ParseTestCommand<'a, S> {
    fn name(&self) -> &str {
        self.name
    }

    fn validate_args(&self, _: &[String]) -> Result<(), ShiError> {
        Ok(())
    }

    fn autocomplete(&self, args: Vec<&str>, _: bool) -> Completion {
        // If we don't have any autocompletions set, then just short-circuit out.
        if self.autocompletions.is_empty() {
            return Completion::Nothing;
        }

        match args.last() {
            Some(last) => {
                if self.autocompletions.iter().filter(|s| s == &last).count() > 0 {
                    // If the last argument is in our autocompletions, then we're good, nothing
                    // more to complete.
                    Completion::Nothing
                } else {
                    let prefix_matches: Vec<String> = self
                        .autocompletions
                        .iter()
                        .filter(|s| s.starts_with(last))
                        .map(|s| s.to_string())
                        .collect();

                    if prefix_matches.is_empty() {
                        // If nothing matched, then we have no completions.
                        return Completion::Nothing;
                    }
                    // If not, then perhaps it is a prefix of an autocompletion. Let's give
                    // back some partial arg completions if so!
                    Completion::PartialArgCompletion(prefix_matches)
                }
            }
            None => Completion::Possibilities(
                self.autocompletions.iter().map(|s| s.to_string()).collect(),
            ),
        }
    }

    fn execute(&self, _: &mut S, _: &[String]) -> Result<String, ShiError> {
        Ok(String::from(""))
    }
}

fn make_parser_cmds<'a>() -> (CommandSet<'a, ()>, CommandSet<'a, Shell<'a, ()>>) {
    (
        CommandSet::new_from_vec(vec![
            Command::new_parent(
                "foo-c",
                vec![
                    Command::new_leaf(ParseTestCommand::new("bar-c")),
                    Command::new_leaf(ParseTestCommand::new("baz-c")),
                    Command::new_parent(
                        "qux-c",
                        vec![
                            Command::new_leaf(ParseTestCommand::new("quux-c")),
                            Command::new_leaf(ParseTestCommand::new("corge-c")),
                        ],
                    ),
                ],
            ),
            Command::new_leaf(ParseTestCommand::new("grault-c")),
            Command::new_leaf(ParseTestCommand::new("conflict-tie")),
            Command::new_leaf(ParseTestCommand::new(
                "conflict-builtin-longer-match-but-still-loses",
            )),
            Command::new_parent(
                "conflict-custom-wins",
                vec![Command::new_leaf(ParseTestCommand::new("child"))],
            ),
        ]),
        CommandSet::new_from_vec(vec![
            Command::new_parent(
                "foo-b",
                vec![Command::new_leaf(ParseTestCommand::new_with_completions(
                    "bar-b",
                    vec!["ho", "he", "bum"],
                ))],
            ),
            Command::new_leaf(ParseTestCommand::new("conflict-tie")),
            Command::new_leaf(ParseTestCommand::new("conflict-custom-wins")),
            Command::new_parent(
                "conflict-builtin-longer-match-but-still-loses",
                vec![Command::new_leaf(ParseTestCommand::new("child"))],
            ),
        ]),
    )
}

fn test_completion(line: &str, pos: usize, expected_pairs: Vec<Pair>) {
    let (cmds, builtins) = make_parser_cmds();
    let completer = ExecCompleter::new(Parser::new(), &cmds, &builtins);

    let cmpl_res = completer.complete(line, pos);
    let (cmpl_pos, pairs) = cmpl_res;
    // We should always be returning a position that is the given position.
    assert_eq!(cmpl_pos, pos, "mismatched positions");

    assert_eq!(
        pairs.len(),
        expected_pairs.len(),
        "mismatched number of completions"
    );

    for (p1, p2) in pairs.iter().zip(expected_pairs.iter()) {
        assert_eq!(p1.display, p2.display, "non-matching display strings");
        assert_eq!(
            p1.replacement, p2.replacement,
            "non-matching replacement strings"
        );
    }
}

#[test]
fn simple() {
    let line = "grau";

    test_completion(
        line,
        line.len(),
        vec![Pair {
            display: "lt-c".to_string(),
            replacement: "lt-c".to_string(),
        }],
    )
}

#[test]
fn no_matches() {
    let line = "idontexistlol";

    test_completion(line, line.len(), vec![])
}

#[test]
fn multiple_matches() {
    let line = "conflict-";

    test_completion(
        line,
        line.len(),
        vec![
            Pair {
                display: "builtin-longer-match-but-still-loses".to_string(),
                replacement: "builtin-longer-match-but-still-loses".to_string(),
            },
            Pair {
                display: "custom-wins".to_string(),
                replacement: "custom-wins".to_string(),
            },
            Pair {
                display: "tie".to_string(),
                replacement: "tie".to_string(),
            },
        ],
    )
}

#[test]
fn nested() {
    let line = "foo-c qu";

    test_completion(
        line,
        line.len(),
        vec![Pair {
            display: "x-c".to_string(),
            replacement: "x-c".to_string(),
        }],
    )
}

#[test]
fn already_completed() {
    let line = "foo-c qux-c quux-c";

    test_completion(line, line.len(), vec![])
}

#[test]
fn completely_blank_for_last_command() {
    let line = "foo-c qux-c ";

    test_completion(
        line,
        line.len(),
        vec![
            Pair {
                display: "corge-c".to_string(),
                replacement: "corge-c".to_string(),
            },
            Pair {
                display: "quux-c".to_string(),
                replacement: "quux-c".to_string(),
            },
        ],
    )
}

#[test]
fn completion_includes_a_space() {
    let line = "foo-c qux-c";

    test_completion(
        line,
        line.len(),
        vec![Pair {
            display: " ".to_string(),
            replacement: " ".to_string(),
        }],
    )
}

#[test]
fn nothing_typed() {
    let line = "";

    test_completion(
        line,
        line.len(),
        vec![
            Pair {
                display: "conflict-builtin-longer-match-but-still-loses".to_string(),
                replacement: "conflict-builtin-longer-match-but-still-loses".to_string(),
            },
            Pair {
                display: "conflict-custom-wins".to_string(),
                replacement: "conflict-custom-wins".to_string(),
            },
            Pair {
                display: "conflict-tie".to_string(),
                replacement: "conflict-tie".to_string(),
            },
            Pair {
                display: "foo-c".to_string(),
                replacement: "foo-c".to_string(),
            },
            Pair {
                display: "grault-c".to_string(),
                replacement: "grault-c".to_string(),
            },
        ],
    )
}

#[test]
fn non_end_pos() {
    let line = "grault-c";

    test_completion(
        line, // 'grault-c'
        3,    //     ^
        vec![Pair {
            display: "ult-c".to_string(),
            replacement: "ult-c".to_string(),
        }],
    )
}

#[test]
fn nested_non_end_pos() {
    let line = "foo-c qux-c quux-c";

    test_completion(
        line, // 'foo-c qux-c quux-c'
        8,    //          ^
        vec![Pair {
            display: "x-c".to_string(),
            replacement: "x-c".to_string(),
        }],
    )
}

fn test_validation_quotes(input: &str, expected_validity: ValidationResult) {
    let validator = ExecValidator::new();

    let validation_res = validator.validate_quotes(input);

    assert_eq!(validation_res, expected_validity);
}

fn test_validation_multiline(input: &str, expected_validity: ValidationResult) {
    let validator = ExecValidator::new();

    let validation_res = validator.validate_multiline(input);

    assert_eq!(validation_res, expected_validity);
}

#[test]
fn one_single_quote() {
    test_validation_quotes("\'", ValidationResult::Incomplete);
}

#[test]
fn one_double_quote() {
    test_validation_quotes("\"", ValidationResult::Incomplete);
}

#[test]
fn balanced_single() {
    test_validation_quotes("\'\'", ValidationResult::Valid(None));
}

#[test]
fn balanced_double() {
    test_validation_quotes("\"\"", ValidationResult::Valid(None));
}

#[test]
fn unbalanced_but_escaped_is_ok() {
    test_validation_quotes("\\'", ValidationResult::Valid(None));
}

#[test]
fn balanced_but_mismatched_quote_types_is_incomplete() {
    test_validation_quotes("\'\"", ValidationResult::Incomplete);
}

#[test]
fn nested_quotes_unbalanced_still_incomplete() {
    test_validation_quotes("\'\"\'\"\'", ValidationResult::Incomplete);
}

#[test]
fn overlapping_but_balanced_quotes_is_incomplete() {
    test_validation_quotes("\' \" \' \"", ValidationResult::Incomplete);
}

#[test]
fn multiple_escapes_valid() {
    // This is actually the literal string `\\\'`, meaning the last quote is escaped and
    // therefore valid.
    test_validation_quotes("\\\\\\'", ValidationResult::Valid(None));
}

#[test]
fn multiple_escapes_incomplete() {
    // This is actually the literal string `\\\\'`, meaning the last quote is unescaped and
    // therefore incomplete.
    test_validation_quotes("\\\\\\\\'", ValidationResult::Incomplete);
}

#[test]
fn closed_quote_block_with_unmatched_quote_inside_is_valid() {
    test_validation_quotes("\"'\"", ValidationResult::Valid(None));
}

#[test]
fn many_quoted_blocks() {
    test_validation_quotes(
        "\'hey how are you?\' \"im doing ok\" \'please thank me for asking\'",
        ValidationResult::Valid(None),
    );

    test_validation_quotes(
        "'hey how are you?' \"im doing ok\" \\\\'please thank me for asking'",
        ValidationResult::Valid(None),
    );
}

#[test]
fn slash_at_end_is_incomplete() {
    test_validation_multiline("hello world\\", ValidationResult::Incomplete);
}

#[test]
fn slash_with_trailing_character_is_complete() {
    test_validation_multiline("hello world\\g", ValidationResult::Valid(None));
}

#[test]
fn slash_with_trailing_space_is_complete() {
    test_validation_multiline("hello world\\ ", ValidationResult::Valid(None));
}

#[test]
fn no_issues_is_complete() {
    test_validation_multiline("hello world", ValidationResult::Valid(None));
}

#[test]
fn leaf_completion_decides_after_a_leaf() {
    // Possibilities: a space first, while the line does not end in one.
    test_completion(
        "foo-b bar-b",
        11,
        vec![Pair { display: " ".to_string(), replacement: " ".to_string() }],
    );
    test_completion(
        "foo-b bar-b ",
        12,
        vec![
            Pair { display: "ho".to_string(), replacement: "ho".to_string() },
            Pair { display: "he".to_string(), replacement: "he".to_string() },
            Pair { display: "bum".to_string(), replacement: "bum".to_string() },
        ],
    );
    // Partial completion: what the leaf hands back, as it is.
    test_completion(
        "foo-b bar-b h",
        13,
        vec![
            Pair { display: "ho".to_string(), replacement: "ho".to_string() },
            Pair { display: "he".to_string(), replacement: "he".to_string() },
        ],
    );
    // Nothing.
    test_completion("foo-b bar-b bum", 15, vec![]);
}

#[test]
fn position_inside_a_character_offers_nothing_at_zero() {
    let (cmds, builtins) = make_parser_cmds();
    let completer = ExecCompleter::new(Parser::new(), &cmds, &builtins);

    // 'é' takes two bytes: byte 1 lies inside it.
    let (pos, pairs) = completer.complete("é", 1);
    assert_eq!(pos, 0);
    assert!(pairs.is_empty());

    // Behind the end of the line.
    let (pos, pairs) = completer.complete("gr", 5);
    assert_eq!(pos, 0);
    assert!(pairs.is_empty());
}

#[test]
fn prefix_at_cuts_at_the_byte() {
    assert_eq!(prefix_at("grault-c", 3), Some("gra"));
    assert_eq!(prefix_at("grault-c", 0), Some(""));
    assert_eq!(prefix_at("grault-c", 8), Some("grault-c"));
    assert_eq!(prefix_at("grault-c", 9), None);
    assert_eq!(prefix_at("aé", 3), Some("aé"));
    assert_eq!(prefix_at("aé", 2), None);
}

#[test]
fn candidates_follow_the_outcome() {
    let incomplete = Outcome {
        cmd_path: vec!["foo"],
        remaining: vec!["ba", "x"],
        cmd_type: CommandType::Custom,
        possibilities: vec![String::from("bar"), String::from("qux"), String::from("baz")],
        leaf_completion: None,
        complete: false,
    };
    assert_eq!(
        candidates("foo ba x", &incomplete),
        vec![
            Pair { display: "r".to_string(), replacement: "r".to_string() },
            Pair { display: "z".to_string(), replacement: "z".to_string() },
        ]
    );

    let partial = Outcome {
        cmd_path: vec!["foo"],
        remaining: vec!["1"],
        cmd_type: CommandType::Custom,
        possibilities: vec![],
        leaf_completion: Some(Completion::PartialArgCompletion(vec![String::from(".5")])),
        complete: true,
    };
    assert_eq!(
        candidates("foo 1", &partial),
        vec![Pair { display: ".5".to_string(), replacement: ".5".to_string() }]
    );

    let without = Outcome {
        cmd_path: vec!["foo"],
        remaining: vec![],
        cmd_type: CommandType::Custom,
        possibilities: vec![],
        leaf_completion: None,
        complete: true,
    };
    assert!(candidates("foo", &without).is_empty());
}

#[test]
fn a_whole_name_completes_to_nothing_more() {
    let incomplete = Outcome {
        cmd_path: vec![],
        remaining: vec!["bar"],
        cmd_type: CommandType::Unknown,
        possibilities: vec![String::from("bar"), String::from("barn")],
        leaf_completion: None,
        complete: false,
    };
    assert_eq!(
        candidates("bar", &incomplete),
        vec![
            Pair { display: "".to_string(), replacement: "".to_string() },
            Pair { display: "n".to_string(), replacement: "n".to_string() },
        ]
    );
}

#[test]
fn quote_state_at_the_end_of_input() {
    let validator = ExecValidator::new();
    assert!(!validator.is_currently_in_quote(""));
    assert!(validator.is_currently_in_quote("say 'hi"));
    assert!(!validator.is_currently_in_quote("say 'hi'"));
    assert!(validator.is_currently_in_quote("say \"it's"));
    assert!(!validator.is_currently_in_quote("say \\\"hi"));
    assert!(validator.is_currently_in_quote("'a\\'"));
}

#[test]
fn merge_takes_the_first_that_is_not_valid() {
    let validator = ExecValidator::new();
    assert_eq!(validator.merge_validation_results(vec![]), ValidationResult::Valid(None));
    assert_eq!(
        validator.merge_validation_results(vec![
            ValidationResult::Valid(Some(String::from("fine"))),
            ValidationResult::Valid(None),
        ]),
        ValidationResult::Valid(None)
    );
    assert_eq!(
        validator.merge_validation_results(vec![
            ValidationResult::Valid(None),
            ValidationResult::Invalid(Some(String::from("bad"))),
            ValidationResult::Incomplete,
        ]),
        ValidationResult::Invalid(Some(String::from("bad")))
    );
    assert_eq!(
        validator.merge_validation_results(vec![
            ValidationResult::Incomplete,
            ValidationResult::Invalid(None),
        ]),
        ValidationResult::Incomplete
    );
}

#[test]
fn validate_puts_the_three_checks_together() {
    let validator = ExecValidator::new();
    assert_eq!(
        validator.validate(ValidationResult::Valid(None), "hello world"),
        ValidationResult::Valid(None)
    );
    assert_eq!(
        validator.validate(ValidationResult::Valid(None), "hello 'world"),
        ValidationResult::Incomplete
    );
    assert_eq!(
        validator.validate(ValidationResult::Valid(None), "hello world\\"),
        ValidationResult::Incomplete
    );
    assert_eq!(
        validator.validate(ValidationResult::Invalid(Some(String::from("brackets"))), "hello 'world"),
        ValidationResult::Invalid(Some(String::from("brackets")))
    );
}

#[test]
fn continued_lines_are_joined() {
    assert_eq!(join_continued_lines("one \\\ntwo"), "one two");
    assert_eq!(join_continued_lines("a\\\n\\\nb\\\n"), "ab");
    assert_eq!(join_continued_lines("\\\n"), "");
    assert_eq!(join_continued_lines(""), "");
    // A backslash or a line feed alone stays.
    assert_eq!(join_continued_lines("a\\b\nc\\"), "a\\b\nc\\");
    assert_eq!(join_continued_lines("\\\\\n"), "\\");
    assert_eq!(join_continued_lines("é\\\nü"), "éü");
}
