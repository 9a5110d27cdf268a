use std::marker::PhantomData;

use shi::command::{BaseCommand, Command, HelpCommand, ParentCommand};
use shi::command::help::{explain_args, explain_segment};
use shi::command_set::CommandSet;
use shi::error::ShiError;
use shi::shell::Shell;

#[derive(Debug)]
struct TestCommand<'a, S> {
    name: &'a str,
    help: &'a str,
    phantom: PhantomData<S>,
}

impl<'a, S> TestCommand<'a, S> {
    fn new(name: &'a str, help: &'a str) -> TestCommand<'a, S> {
        TestCommand {
            name,
            help,
            phantom: PhantomData,
        }
    }
}

impl<'a, S> BaseCommand<S> for TestCommand<'a, S> {
    fn name(&self) -> &str {
        self.name
    }

    fn validate_args(&self, _: &[String]) -> Result<(), ShiError> {
        Ok(())
    }

    fn execute(&self, _: &mut S, _: &[String]) -> Result<String, ShiError> {
        Ok(String::from(""))
    }

    fn help(&self) -> String {
        self.help.to_string()
    }
}

fn run_help_test(args: Vec<String>, expected: String) -> Result<(), ShiError> {
    let mut shell = Shell::new("");
    shell.register(Command::new_leaf(TestCommand::new("leaf", "1")))?;
    shell.register(Command::Parent(ParentCommand::new_with_help(
        "foo",
        "2",
        vec![
            Command::new_leaf(TestCommand::new("bar", "2.1")),
            Command::new_leaf(TestCommand::new("baz", "2.2")),
            Command::Parent(ParentCommand::new_with_help(
                "qux",
                "2.3",
                vec![
                    Command::new_leaf(TestCommand::new("quuz", "2.3.1")),
                    Command::new_leaf(TestCommand::new("corge", "2.3.2")),
                ],
            )),
            Command::new_leaf(TestCommand::new("quux", "2.4")),
        ],
    )))?;

    verify_help_output(&mut shell, args, expected);

    Ok(())
}

fn run_help_test_no_cmds(args: Vec<String>, expected: String) -> Result<(), ShiError> {
    let mut shell = Shell::new("");

    verify_help_output(&mut shell, args, expected);

    Ok(())
}

fn verify_help_output(shell: &mut Shell<()>, args: Vec<String>, expected: String) {
    let help_cmd = HelpCommand::new();
    match help_cmd.execute(shell, &args) {
        Ok(help_output) => {
            println!("{}", help_output);
            assert_eq!(help_output, expected);
        }
        Err(err) => {
            assert_eq!(err.message(), expected)
        }
    };
}

#[test]
fn help_with_no_args_gives_list() -> Result<(), ShiError> {
    run_help_test(
        vec![],
        String::from(
            "\
        Normal commands:\n\t\
            \'leaf\' - 1\n\t\
            \'foo\' - 2\n\
        Built-in commands:\n\t\
            \'help\' - Prints help info for root commands or explains a given command invocation\n\t\
            \'helptree\' - Prints a tree depiction of all commands in this shell\n\t\
            \'exit\' - Exits the shell session\n\t\
            \'history\' - Prints the history of commands",
        ),
    )
}

#[test]
fn help_with_no_args_and_no_cmds() {
    run_help_test_no_cmds(
        vec![],
        String::from(
            "\
                Normal commands:\n\
                Built-in commands:\n\t\
                    \'help\' - Prints help info for root commands or explains a given command invocation\n\t\
                    \'helptree\' - Prints a tree depiction of all commands in this shell\n\t\
                    \'exit\' - Exits the shell session\n\t\
                    \'history\' - Prints the history of commands\
            "),
    ).expect("Failed to run test for help with no cmds")
}

// NOTE: In some of the tests below, we can't use escaped multi-line strings because the escape
// removes the spacing that creates the tree-like structure.
#[test]
fn help_on_root_leaf_cmd() -> Result<(), ShiError> {
    run_help_test(
        vec![String::from("leaf")],
        String::from("└─ leaf - 1\n   └─ Called with no args"),
    )
}

#[test]
fn help_on_root_parent_cmd() -> Result<(), ShiError> {
    run_help_test(vec![String::from("foo")], String::from("└─ foo - 2"))
}

#[test]
fn help_on_depth_2() -> Result<(), ShiError> {
    run_help_test(
        vec![String::from("foo"), String::from("bar")],
        String::from("└─ foo - 2\n   └─ bar - 2.1\n      └─ Called with no args"),
    )
}

#[test]
fn help_on_depth_3() -> Result<(), ShiError> {
    run_help_test(
        vec![
            String::from("foo"),
            String::from("qux"),
            String::from("quuz"),
        ],
        String::from(
            "└─ foo - 2\n   └─ qux - 2.3\n      └─ quuz - 2.3.1\n         └─ Called with no args",
        ),
    )
}

#[test]
fn help_on_depth_2_with_1_leaf_arg() -> Result<(), ShiError> {
    run_help_test(
        vec![
            String::from("foo"),
            String::from("bar"),
            String::from("hello"),
        ],
        String::from("└─ foo - 2\n   └─ bar - 2.1\n      └─ Called with args: [hello]"),
    )
}

#[test]
fn help_on_depth_2_with_2_leaf_args() -> Result<(), ShiError> {
    run_help_test(
        vec![
            String::from("foo"),
            String::from("bar"),
            String::from("hello"),
            String::from("world"),
        ],
        String::from("└─ foo - 2\n   └─ bar - 2.1\n      └─ Called with args: [hello, world]"),
    )
}

#[test]
fn invalid_command_invocation() -> Result<(), ShiError> {
    run_help_test(
        vec![String::from("DNE")],
        r#"command failed to parse: 'DNE' is not a recognized command.
                        @
                        @	 => expected one of 'foo' or 'leaf'.
                        @
                        Run 'helptree' for more info on the entire command tree.
                        @"#
        .replace("@", "")
        .replace("                        ", ""),
    )
}

#[test]
fn help_explains_builtins_too() -> Result<(), ShiError> {
    run_help_test(
        vec![String::from("exit"), String::from("now")],
        String::from("└─ exit - Exits the shell session\n   └─ Called with args: [now]"),
    )
}

#[test]
fn help_leaves_the_shell_alone() {
    let mut shell = Shell::new_with_state("", 3u8);
    shell.register(Command::new_leaf(TestCommand::new("leaf", "1"))).unwrap();
    let help_cmd = HelpCommand::new();
    assert!(help_cmd.execute(&mut shell, &[String::from("leaf")]).is_ok());
    assert!(help_cmd.validate_args(&[String::from("anything")]).is_ok());
    assert_eq!(*shell.state(), 3);
    assert_eq!(shell.cmds().len(), 1);
    assert!(!shell.is_terminated());
    assert_eq!(
        help_cmd.help(),
        "Prints help info for root commands or explains a given command invocation"
    );
}

#[test]
fn breakdown_stops_at_the_first_word_that_names_nothing() {
    let cmds: CommandSet<()> = CommandSet::new_from_vec(vec![Command::Parent(
        ParentCommand::new_with_help(
            "foo",
            "2",
            vec![Command::new_leaf(TestCommand::new("bar", "2.1"))],
        ),
    )]);
    let help_cmd: HelpCommand<()> = HelpCommand::new();

    match help_cmd.help_breakdown(vec!["foo", "nope", "bar"], vec![], &cmds) {
        Err(ShiError::UnrecognizedCommand { got }) => assert_eq!(got, "nope"),
        other => panic!("expected UnrecognizedCommand, got {:?}", other),
    }
    assert_eq!(help_cmd.help_breakdown(vec![], vec!["x"], &cmds).unwrap(), "");
    assert_eq!(
        help_cmd.help_breakdown(vec!["foo", "bar"], vec!["x", "y"], &cmds).unwrap(),
        "└─ foo - 2\n   └─ bar - 2.1\n      └─ Called with args: [x, y]"
    );
}

#[test]
fn lines_of_a_breakdown() {
    assert_eq!(explain_segment(0, "foo", "helps"), "└─ foo - helps");
    assert_eq!(explain_segment(2, "foo", ""), "      └─ foo - ");
    assert_eq!(explain_args(1, &vec![]), "   └─ Called with no args");
    assert_eq!(explain_args(0, &vec!["a"]), "└─ Called with args: [a]");
}

#[test]
fn default_help_is_the_name_in_quotes() {
    struct Plain;
    impl BaseCommand<()> for Plain {
        fn name(&self) -> &str {
            "plain"
        }
        fn validate_args(&self, _: &[String]) -> Result<(), ShiError> {
            Ok(())
        }
        fn execute(&self, _: &mut (), _: &[String]) -> Result<String, ShiError> {
            Ok(String::new())
        }
    }

    assert_eq!(Plain.help(), "'plain'");
    assert_eq!(Plain.autocomplete(vec!["a"], true), shi::command::Completion::Nothing);
}
