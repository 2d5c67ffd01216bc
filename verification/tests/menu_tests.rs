use flashcards::menu::MenuCommand;
use flashcards::menu::is_quit_ack;
use flashcards::menu::parse_command;

#[test]
fn all_six_commands_parse_case_insensitively() {
    assert_eq!(parse_command("a\n"), MenuCommand::Create);
    assert_eq!(parse_command("A\n"), MenuCommand::Create);
    assert_eq!(parse_command("l\n"), MenuCommand::List);
    assert_eq!(parse_command("L\n"), MenuCommand::List);
    assert_eq!(parse_command("m\n"), MenuCommand::Manage);
    assert_eq!(parse_command("i\n"), MenuCommand::Import);
    assert_eq!(parse_command("e\n"), MenuCommand::Export);
    assert_eq!(parse_command("q\n"), MenuCommand::Quit);
    assert_eq!(parse_command("Q\n"), MenuCommand::Quit);
}

#[test]
fn surrounding_whitespace_is_ignored() {
    assert_eq!(parse_command("  a  \n"), MenuCommand::Create);
    assert_eq!(parse_command("\tQ\r\n"), MenuCommand::Quit);
}

#[test]
fn anything_else_is_invalid() {
    assert_eq!(parse_command("x\n"), MenuCommand::Invalid);
    assert_eq!(parse_command("aa\n"), MenuCommand::Invalid);
    assert_eq!(parse_command("create\n"), MenuCommand::Invalid);
}

#[test]
fn listing_quits_on_q_only() {
    assert!(is_quit_ack("q\n"));
    assert!(is_quit_ack(" Q \n"));
    assert!(!is_quit_ack("quit\n"));
    assert!(!is_quit_ack("x\n"));
}
