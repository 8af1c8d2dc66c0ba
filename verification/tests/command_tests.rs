use cmcli::command::{
    blank_hint, crop_letters, help_lines, missing_name_message, next_state, parse_command, prompt,
    Command, LoopState, OpKind,
};

#[test]
fn whitespace_only_line_is_blank() {
    assert!(matches!(parse_command(""), Command::Blank));
    assert!(matches!(parse_command("   "), Command::Blank));
    assert!(matches!(parse_command(" \t \r\n"), Command::Blank));
    assert_eq!(blank_hint(), "Enter a command, q for quit");
}

#[test]
fn show_and_file_verbs() {
    assert!(matches!(parse_command("show"), Command::Show));
    assert!(matches!(parse_command("  show  "), Command::Show));
    assert!(matches!(parse_command("file"), Command::File));
    assert!(matches!(parse_command("file extra"), Command::File));
}

#[test]
fn get_with_argument() {
    match parse_command("get mykey") {
        Command::Get(name) => assert_eq!(name, "mykey"),
        _ => panic!("expected a get command"),
    }
}

#[test]
fn argument_keeps_embedded_spaces() {
    match parse_command("  put  my secret name  ") {
        Command::Put(name) => assert_eq!(name, "my secret name"),
        _ => panic!("expected a put command"),
    }
}

#[test]
fn delete_with_argument() {
    match parse_command("delete k1") {
        Command::Delete(name) => assert_eq!(name, "k1"),
        _ => panic!("expected a delete command"),
    }
}

#[test]
fn missing_argument_is_rejected_before_dispatch() {
    assert!(matches!(
        parse_command("get"),
        Command::MissingName(OpKind::Get)
    ));
    assert!(matches!(
        parse_command("get   "),
        Command::MissingName(OpKind::Get)
    ));
    assert!(matches!(
        parse_command("put"),
        Command::MissingName(OpKind::Put)
    ));
    assert!(matches!(
        parse_command("delete \t"),
        Command::MissingName(OpKind::Delete)
    ));
}

#[test]
fn missing_name_messages_name_the_verb() {
    assert_eq!(missing_name_message(OpKind::Get), "Missing secret name to get");
    assert_eq!(missing_name_message(OpKind::Put), "Missing secret name to put");
    assert_eq!(
        missing_name_message(OpKind::Delete),
        "Missing secret name to delete"
    );
}

#[test]
fn quit_verbs_exit_the_loop() {
    assert!(matches!(parse_command("q"), Command::Quit));
    assert!(matches!(parse_command("quit"), Command::Quit));
    assert!(matches!(parse_command("  quit  "), Command::Quit));
    assert_eq!(next_state(&parse_command("q")), LoopState::Exiting);
    assert_eq!(next_state(&parse_command("quit")), LoopState::Exiting);
}

#[test]
fn unknown_verb_keeps_the_loop_running() {
    match parse_command("frobnicate") {
        Command::Unknown(verb) => assert_eq!(verb, "frobnicate"),
        _ => panic!("expected an unknown command"),
    }
    assert_eq!(next_state(&parse_command("frobnicate")), LoopState::Running);
    assert_eq!(next_state(&parse_command("show")), LoopState::Running);
    assert_eq!(next_state(&parse_command("   ")), LoopState::Running);
}

#[test]
fn help_text_lists_every_verb() {
    let lines = help_lines();
    assert_eq!(lines.len(), 10);
    assert_eq!(lines[0], "Valid commands are:");
    assert_eq!(lines[2], "show                 | Show all secrets");
    assert_eq!(lines[3], "file                 | Show file secrets");
    assert_eq!(
        lines[4],
        "get <SECRET_NAME>    | Get the value of the secret name provided"
    );
    assert_eq!(lines[5], "put <SECRET_NAME>    | Put a secret at the name provided,");
    assert_eq!(
        lines[7],
        "delete <SECRET_NAME> | Delete the value of the secret name provided"
    );
    assert_eq!(lines[8], "q | quit             | Quit the program");
    assert_eq!(lines[1], lines[9]);
}

#[test]
fn prompt_literal() {
    assert_eq!(prompt(), "cmcli> ");
}

#[test]
fn crop_letters_drops_a_prefix() {
    assert_eq!(crop_letters("show rest", 4), " rest");
    assert_eq!(crop_letters("abc", 0), "abc");
    assert_eq!(crop_letters("abc", 3), "");
    assert_eq!(crop_letters("abc", 7), "");
}
