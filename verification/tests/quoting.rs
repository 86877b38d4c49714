//! Shell quoting: exact quoted forms, and the round trip through an
//! independent POSIX-compatible tokenizer.

use ci_tool::command::format_command;
use ci_tool::shell::{quote_arg, quote_join};

#[test]
fn safe_words_stand_unquoted() {
    assert_eq!(quote_arg("safe-1.2/ok_:=@%+,"), "safe-1.2/ok_:=@%+,");
    assert_eq!(format_command(vec!["echo".to_string(), "hi".to_string()]), "echo hi");
}

#[test]
fn spaces_and_metacharacters_are_single_quoted() {
    assert_eq!(quote_arg("a b"), "'a b'");
    assert_eq!(quote_arg("$HOME"), "'$HOME'");
    assert_eq!(quote_arg(""), "''");
    assert_eq!(quote_arg("it's"), "'it'\\''s'");
}

#[test]
fn quoting_round_trips_through_posix_tokenizer() {
    let args: Vec<String> = vec![
        "a b".to_string(),
        "it's".to_string(),
        "$HOME".to_string(),
        "x;y|z&&w".to_string(),
        "".to_string(),
        "safe-1.2/ok".to_string(),
        "*glob*?".to_string(),
        "tab\tsep".to_string(),
        "quote\"inside".to_string(),
        "back\\slash".to_string(),
        "(sub) `tick`".to_string(),
    ];
    let line = quote_join(&args);
    let back = shell_words::split(&line).expect("tokenizes");
    assert_eq!(back, args);
}

#[test]
fn joined_command_round_trips() {
    let args = vec!["deploy".to_string(), "--name".to_string(), "my app".to_string()];
    let line = format_command(args.clone());
    assert_eq!(line, "deploy --name 'my app'");
    assert_eq!(shell_words::split(&line).expect("tokenizes"), args);
}

#[test]
fn empty_argument_list_joins_to_empty_line() {
    assert_eq!(format_command(vec![]), "");
    assert_eq!(shell_words::split("").expect("tokenizes"), Vec::<String>::new());
}
