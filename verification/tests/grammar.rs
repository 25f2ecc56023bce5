use humane_commands::environment::{same_text, Environment};
use humane_commands::grammar::{
    arg, args, check_line, check_single, check_token, classify, cmd, cmd_partial, Group, Marker,
    Rule, Token, Value,
};
use humane_commands::args::ArgContainer;

fn bare<'a>(value: &'a str) -> Token<'a> {
    Token::Group(Group { flag: None, value: Value::Single(value), marker: Marker::Bare })
}

fn spread<'a>(items: Vec<&'a str>) -> Token<'a> {
    Token::Group(Group { flag: None, value: Value::List(items), marker: Marker::Spread })
}

fn optional<'a>(value: Option<&'a str>) -> Token<'a> {
    Token::Group(Group { flag: None, value: Value::Optional(value), marker: Marker::Optional })
}

fn flagged<'a>(flag: Token<'a>, value: Value<'a>) -> Token<'a> {
    Token::Group(Group { flag: Some(Box::new(flag)), value, marker: Marker::Optional })
}

fn built(tokens: Vec<Token>, env: &Environment) -> (String, Vec<String>) {
    assert!(check_line(&tokens));
    let command = cmd(&tokens, env);
    (command.program.clone(), command.args.clone())
}

#[test]
fn words_become_arguments() {
    let env = Environment::new();
    let (program, arguments) =
        built(vec![Token::Word("echo"), Token::Word("Hello"), Token::Word("World")], &env);
    assert_eq!(program, "echo");
    assert_eq!(arguments, vec!["Hello", "World"]);
}

#[test]
fn program_alone_has_no_arguments() {
    let env = Environment::new();
    let (program, arguments) = built(vec![Token::Word("echo")], &env);
    assert_eq!(program, "echo");
    assert!(arguments.is_empty());
}

#[test]
fn quoted_literal_keeps_its_spaces() {
    let env = Environment::new();
    let (_, arguments) = built(vec![Token::Word("echo"), Token::QuotedLiteral("a  b ")], &env);
    assert_eq!(arguments, vec!["a  b "]);
}

#[test]
fn variable_that_is_set() {
    let mut env = Environment::new();
    env.set("MY_VAR", "my_value");
    let (_, arguments) = built(vec![Token::Word("echo"), Token::EnvRef("MY_VAR")], &env);
    assert_eq!(arguments, vec!["my_value"]);
}

#[test]
fn variable_that_is_not_set_keeps_its_slot() {
    let env = Environment::new();
    let (_, arguments) = built(
        vec![Token::Word("echo"), Token::Word("a"), Token::EnvRef("MY_VAR"), Token::Word("b")],
        &env,
    );
    assert_eq!(arguments, vec!["a", "", "b"]);
}

#[test]
fn program_name_from_variable_and_group() {
    let mut env = Environment::new();
    env.set("SHELL", "/bin/sh");
    let (program, arguments) = built(vec![Token::EnvRef("SHELL"), Token::Word("-c")], &env);
    assert_eq!(program, "/bin/sh");
    assert_eq!(arguments, vec!["-c"]);
    let (program, arguments) = built(vec![bare("ls"), Token::Word("-l")], &env);
    assert_eq!(program, "ls");
    assert_eq!(arguments, vec!["-l"]);
}

#[test]
fn spread_gives_one_argument_per_item() {
    let env = Environment::new();
    let (_, arguments) = built(vec![Token::Word("echo"), spread(vec!["a", "b", "c"])], &env);
    assert_eq!(arguments, vec!["a", "b", "c"]);
}

#[test]
fn empty_spread_leaves_the_order() {
    let env = Environment::new();
    let (_, arguments) = built(
        vec![Token::Word("echo"), Token::Word("x"), spread(vec![]), Token::Word("y")],
        &env,
    );
    assert_eq!(arguments, vec!["x", "y"]);
}

#[test]
fn spread_of_an_optional_value() {
    let env = Environment::new();
    let some = Token::Group(Group {
        flag: None,
        value: Value::Optional(Some("v")),
        marker: Marker::Spread,
    });
    let none =
        Token::Group(Group { flag: None, value: Value::Optional(None), marker: Marker::Spread });
    let (_, arguments) = built(vec![Token::Word("echo"), some, none, Token::Word("z")], &env);
    assert_eq!(arguments, vec!["v", "z"]);
}

#[test]
fn optional_groups() {
    let env = Environment::new();
    let (_, arguments) = built(
        vec![
            Token::Word("echo"),
            optional(Some("a")),
            optional(None),
            flagged(Token::Word("-f"), Value::Optional(Some("b"))),
            flagged(Token::Word("-g"), Value::Optional(None)),
            flagged(Token::QuotedLiteral("-p"), Value::List(vec!["c", "d"])),
            flagged(Token::QuotedLiteral("-q"), Value::List(vec![])),
            Token::Word("end"),
        ],
        &env,
    );
    assert_eq!(arguments, vec!["a", "-f", "b", "-p", "c", "d", "end"]);
}

#[test]
fn flag_is_itself_interpolated() {
    let mut env = Environment::new();
    env.set("FLAG", "--name");
    let (_, arguments) = built(
        vec![
            Token::Word("echo"),
            flagged(Token::EnvRef("FLAG"), Value::Optional(Some("a"))),
            flagged(bare("--other"), Value::List(vec!["b"])),
            flagged(Token::EnvRef("MISSING"), Value::Optional(Some("c"))),
        ],
        &env,
    );
    assert_eq!(arguments, vec!["--name", "a", "--other", "b", "", "c"]);
}

#[test]
fn duplicates_are_kept() {
    let env = Environment::new();
    let (_, arguments) =
        built(vec![Token::Word("echo"), Token::Word("a"), Token::Word("a"), bare("a")], &env);
    assert_eq!(arguments, vec!["a", "a", "a"]);
}

#[test]
fn rules_in_order_of_precedence() {
    assert_eq!(classify(&Token::EnvRef("X")), Rule::EnvLookup);
    assert_eq!(classify(&flagged(Token::Word("f"), Value::Optional(None))), Rule::FlaggedOptional);
    assert_eq!(classify(&optional(None)), Rule::PlainOptional);
    assert_eq!(classify(&spread(vec![])), Rule::Spread);
    assert_eq!(classify(&bare("v")), Rule::Expression);
    assert_eq!(classify(&Token::Word("w")), Rule::Literal);
    assert_eq!(classify(&Token::QuotedLiteral("q")), Rule::Literal);
    let flag_and_spread = Token::Group(Group {
        flag: Some(Box::new(Token::Word("f"))),
        value: Value::List(vec![]),
        marker: Marker::Spread,
    });
    assert_eq!(classify(&flag_and_spread), Rule::Spread);
}

#[test]
fn single_tokens() {
    assert!(check_single(&Token::Word("w")));
    assert!(check_single(&Token::QuotedLiteral("q")));
    assert!(check_single(&Token::EnvRef("X")));
    assert!(check_single(&bare("v")));
    assert!(!check_single(&optional(Some("v"))));
    assert!(!check_single(&spread(vec!["v"])));
    assert!(!check_single(&flagged(Token::Word("f"), Value::Optional(None))));
}

#[test]
fn malformed_tokens_are_told_apart() {
    let flag_and_spread = Token::Group(Group {
        flag: Some(Box::new(Token::Word("f"))),
        value: Value::List(vec![]),
        marker: Marker::Spread,
    });
    assert!(!check_token(&flag_and_spread));
    let flag_without_marker = Token::Group(Group {
        flag: Some(Box::new(Token::Word("f"))),
        value: Value::Single("v"),
        marker: Marker::Bare,
    });
    assert!(!check_token(&flag_without_marker));
    let flag_that_is_a_list = flagged(spread(vec!["f"]), Value::Optional(Some("v")));
    assert!(!check_token(&flag_that_is_a_list));
    let list_without_flag =
        Token::Group(Group { flag: None, value: Value::List(vec![]), marker: Marker::Optional });
    assert!(!check_token(&list_without_flag));
    let spread_of_one =
        Token::Group(Group { flag: None, value: Value::Single("v"), marker: Marker::Spread });
    assert!(!check_token(&spread_of_one));
    let optional_of_one =
        Token::Group(Group { flag: None, value: Value::Single("v"), marker: Marker::Optional });
    assert!(!check_token(&optional_of_one));
    assert!(check_token(&flagged(bare("f"), Value::List(vec![]))));
    assert!(check_token(&Token::Word("w")));
}

#[test]
fn malformed_lines_are_told_apart() {
    assert!(!check_line(&Vec::new()));
    assert!(!check_line(&vec![optional(Some("echo"))]));
    assert!(!check_line(&vec![spread(vec!["echo"]), Token::Word("a")]));
    let spread_of_one =
        Token::Group(Group { flag: None, value: Value::Single("v"), marker: Marker::Spread });
    assert!(!check_line(&vec![Token::Word("echo"), Token::Word("a"), spread_of_one]));
    assert!(check_line(&vec![Token::Word("echo"), optional(None)]));
}

#[test]
fn text_of_single_tokens() {
    let mut env = Environment::new();
    env.set("A", "1");
    assert_eq!(cmd_partial(&Token::Word("w"), &env), "w");
    assert_eq!(cmd_partial(&Token::QuotedLiteral("q q"), &env), "q q");
    assert_eq!(cmd_partial(&Token::EnvRef("A"), &env), "1");
    assert_eq!(cmd_partial(&Token::EnvRef("B"), &env), "");
    assert_eq!(cmd_partial(&bare("v"), &env), "v");
}

#[test]
fn one_token_at_a_time() {
    let env = Environment::new();
    let mut list = ArgContainer::new("first");
    arg(&mut list, &spread(vec!["a", "b"]), &env);
    arg(&mut list, &optional(None), &env);
    arg(&mut list, &Token::EnvRef("UNSET"), &env);
    arg(&mut list, &flagged(Token::Word("-f"), Value::Optional(Some("v"))), &env);
    assert_eq!(list.args, vec!["first", "a", "b", "", "-f", "v"]);
}

#[test]
fn argument_list_starts_with_the_first_token() {
    let env = Environment::new();
    let tokens = vec![Token::Word("Hello"), bare("Steve"), spread(vec!["and", "Paul"])];
    assert!(check_line(&tokens));
    assert_eq!(args(&tokens, &env).args, vec!["Hello", "Steve", "and", "Paul"]);
}

#[test]
fn environment_keeps_the_last_value() {
    let mut env = Environment::new();
    assert_eq!(env.get("A"), None);
    assert_eq!(env.var("A"), "");
    env.set("A", "1");
    env.set("B", "2");
    env.set("A", "3");
    assert_eq!(env.get("A"), Some("3"));
    assert_eq!(env.get("B"), Some("2"));
    assert_eq!(env.get("C"), None);
    assert_eq!(env.var("A"), "3");
    env.set("E", "");
    assert_eq!(env.get("E"), Some(""));
}

#[test]
fn texts_are_compared_as_a_whole() {
    assert!(same_text("", ""));
    assert!(same_text("abc", "abc"));
    assert!(!same_text("abc", "abd"));
    assert!(!same_text("abc", "ab"));
    assert!(!same_text("ab", "abc"));
    assert!(same_text("h\u{e9}llo", "h\u{e9}llo"));
    assert!(!same_text("h\u{e9}llo", "hello"));
}
