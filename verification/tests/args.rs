use humane_commands::command::Command;
use humane_commands::environment::Environment;
use humane_commands::grammar::{args, check_line, Group, Marker, Token, Value};
use humane_commands::output::{ExitStatus, Output, OutputExt};

/// What `echo` prints for a command: its arguments with a space between
/// them, and a newline.
fn output_of_echo(command: &Command) -> Output {
    assert_eq!(command.get_program(), "echo");
    let mut line = command.get_args().join(" ");
    line.push('\n');
    Output {
        status: ExitStatus::new(Some(0), "exit status: 0"),
        stdout: line.into_bytes(),
        stderr: Vec::new(),
    }
}

#[test]
fn args_macro() {
    let env = Environment::new();
    let mut x = Command::new("echo");
    let name = "Steve";
    let tokens = vec![
        Token::Word("Hello"),
        Token::Group(Group { flag: None, value: Value::Single(name), marker: Marker::Bare }),
    ];
    assert!(check_line(&tokens));
    x.args(&args(&tokens, &env).args);
    let result = output_of_echo(&x);
    assert_eq!(format!("Hello Steve"), result.stdout().unwrap());
}

#[test]
fn args_macro_optional() {
    let env = Environment::new();
    let mut x = Command::new("echo");
    let name = "Steve";
    let other = Some("Paul");
    let tokens = vec![
        Token::Word("Hello"),
        Token::Group(Group { flag: None, value: Value::Single(name), marker: Marker::Bare }),
        Token::Group(Group {
            flag: Some(Box::new(Token::Word("and"))),
            value: Value::Optional(other),
            marker: Marker::Optional,
        }),
    ];
    assert!(check_line(&tokens));
    x.args(&args(&tokens, &env).args);
    let result = output_of_echo(&x);
    assert_eq!(format!("Hello Steve and Paul"), result.stdout().unwrap());
}
