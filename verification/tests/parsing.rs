use relay::protocol::{parse_command, Command};

#[test]
fn nick_parses_with_name() {
    match parse_command("nick Alice") {
        Ok(Command::Nick(n)) => assert_eq!(n, "Alice"),
        other => panic!("expected Nick, got {:?}", other),
    }
}

#[test]
fn join_uppercases_the_code() {
    match parse_command("JOIN ab12") {
        Ok(Command::Join(c)) => assert_eq!(c, "AB12"),
        other => panic!("expected Join, got {:?}", other),
    }
}

#[test]
fn msg_without_text_is_rejected() {
    match parse_command("msg ") {
        Err(e) => assert_eq!(e, "usage: MSG <text>"),
        other => panic!("expected an error, got {:?}", other),
    }
}

#[test]
fn unknown_word_is_echoed_uppercased() {
    match parse_command("dance") {
        Err(e) => assert_eq!(e, "unknown command: DANCE"),
        other => panic!("expected an error, got {:?}", other),
    }
}

#[test]
fn keywords_are_case_insensitive() {
    assert!(matches!(parse_command("HeLp"), Ok(Command::Help)));
    assert!(matches!(parse_command("quit"), Ok(Command::Quit)));
    assert!(matches!(parse_command("Create"), Ok(Command::Create)));
}

#[test]
fn nick_without_name_is_rejected() {
    match parse_command("NICK") {
        Err(e) => assert_eq!(e, "usage: NICK <name>"),
        other => panic!("expected an error, got {:?}", other),
    }
}

#[test]
fn join_without_code_is_rejected() {
    match parse_command("join") {
        Err(e) => assert_eq!(e, "usage: JOIN <CODE>"),
        other => panic!("expected an error, got {:?}", other),
    }
}

#[test]
fn surrounding_whitespace_is_trimmed() {
    match parse_command("  msg  hello world  ") {
        Ok(Command::Msg(t)) => assert_eq!(t, "hello world"),
        other => panic!("expected Msg, got {:?}", other),
    }
}

#[test]
fn msg_keeps_inner_text_verbatim() {
    match parse_command("MSG a: b, c") {
        Ok(Command::Msg(t)) => assert_eq!(t, "a: b, c"),
        other => panic!("expected Msg, got {:?}", other),
    }
}

#[test]
fn empty_line_is_an_unknown_command() {
    match parse_command("") {
        Err(e) => assert_eq!(e, "unknown command: "),
        other => panic!("expected an error, got {:?}", other),
    }
}
