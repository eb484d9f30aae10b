use sshs::ssh::{command_from_words, parse_command, CommandError};

#[test]
fn command_is_split_like_a_shell() {
    let c = parse_command("ssh \"my host\" -p 22").unwrap();
    assert_eq!(c.program, "ssh");
    assert_eq!(c.arguments, vec!["my host", "-p", "22"]);
}

#[test]
fn command_without_arguments() {
    let c = parse_command("  ssh  ").unwrap();
    assert_eq!(c.program, "ssh");
    assert!(c.arguments.is_empty());
}

#[test]
fn open_quotation_is_unparsable() {
    assert_eq!(parse_command("ssh \"abc").err(), Some(CommandError::Unparsable));
}

#[test]
fn empty_line_has_no_program() {
    assert_eq!(parse_command("").err(), Some(CommandError::Empty));
    assert_eq!(parse_command("   ").err(), Some(CommandError::Empty));
}

#[test]
fn command_from_given_words() {
    assert_eq!(command_from_words(None).err(), Some(CommandError::Unparsable));
    assert_eq!(command_from_words(Some(Vec::new())).err(), Some(CommandError::Empty));
    let c = command_from_words(Some(vec!["a".to_string(), "b".to_string(), "c".to_string()]))
        .unwrap();
    assert_eq!(c.program, "a");
    assert_eq!(c.arguments, vec!["b", "c"]);
}
