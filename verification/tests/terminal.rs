use my_kernel::terminal::{Command, Terminal, TerminalAction};

fn type_line(t: &mut Terminal, text: &str) -> Vec<TerminalAction> {
    text.bytes().map(|b| t.input(b)).collect()
}

fn execute(t: &mut Terminal) -> (Vec<u8>, Command) {
    match t.input(b'\n') {
        TerminalAction::Execute { line, command } => (line, command),
        _ => panic!("enter must execute"),
    }
}

#[test]
fn new_terminal_has_empty_line() {
    let t = Terminal::new();
    assert!(t.current_line().is_empty());
}

#[test]
fn printable_keys_are_echoed_and_collected() {
    let mut t = Terminal::new();
    let actions = type_line(&mut t, "hi!");
    assert!(matches!(actions[0], TerminalAction::Echo(b'h')));
    assert!(matches!(actions[1], TerminalAction::Echo(b'i')));
    assert!(matches!(actions[2], TerminalAction::Echo(b'!')));
    assert_eq!(t.current_line(), b"hi!".to_vec());
}

#[test]
fn known_commands() {
    for (word, cmd) in [
        ("help", Command::Help),
        ("clear", Command::Clear),
        ("color", Command::Color),
        ("reboot", Command::Reboot),
    ] {
        let mut t = Terminal::new();
        type_line(&mut t, word);
        let (line, command) = execute(&mut t);
        assert_eq!(line, word.as_bytes().to_vec());
        assert_eq!(command, cmd);
        assert!(t.current_line().is_empty());
    }
}

#[test]
fn unknown_and_empty_commands() {
    let mut t = Terminal::new();
    type_line(&mut t, "Help");
    assert_eq!(execute(&mut t), (b"Help".to_vec(), Command::Unknown));
    type_line(&mut t, "help ");
    assert_eq!(execute(&mut t), (b"help ".to_vec(), Command::Unknown));
    assert_eq!(execute(&mut t), (Vec::new(), Command::Unknown));
}

#[test]
fn backspace_removes_last_key() {
    let mut t = Terminal::new();
    type_line(&mut t, "helpx");
    assert!(matches!(t.input(8), TerminalAction::Erase));
    assert_eq!(t.current_line(), b"help".to_vec());
    assert_eq!(execute(&mut t).1, Command::Help);
}

#[test]
fn backspace_on_empty_line_is_ignored() {
    let mut t = Terminal::new();
    assert!(matches!(t.input(8), TerminalAction::Ignore));
    assert!(t.current_line().is_empty());
}

#[test]
fn control_and_high_bytes_are_ignored() {
    let mut t = Terminal::new();
    assert!(matches!(t.input(0), TerminalAction::Ignore));
    assert!(matches!(t.input(31), TerminalAction::Ignore));
    assert!(matches!(t.input(127), TerminalAction::Ignore));
    assert!(matches!(t.input(200), TerminalAction::Ignore));
    assert!(matches!(t.input(b'\r'), TerminalAction::Ignore));
    assert!(matches!(t.input(b' '), TerminalAction::Echo(b' ')));
    assert!(matches!(t.input(b'~'), TerminalAction::Echo(b'~')));
    assert_eq!(t.current_line(), b" ~".to_vec());
}

#[test]
fn line_holds_at_most_49_bytes() {
    let mut t = Terminal::new();
    let long = "a".repeat(60);
    let actions = type_line(&mut t, &long);
    assert_eq!(actions.iter().filter(|a| matches!(a, TerminalAction::Echo(_))).count(), 49);
    assert!(matches!(actions[49], TerminalAction::Ignore));
    assert_eq!(t.current_line().len(), 49);
    assert!(matches!(t.input(8), TerminalAction::Erase));
    assert!(matches!(t.input(b'b'), TerminalAction::Echo(b'b')));
    let (line, cmd) = execute(&mut t);
    assert_eq!(line.len(), 49);
    assert_eq!(line[48], b'b');
    assert_eq!(cmd, Command::Unknown);
}

#[test]
fn backspace_after_each_printable_key_restores_the_line() {
    for key in 32u8..=126 {
        let mut t = Terminal::new();
        type_line(&mut t, "ab");
        t.input(key);
        t.input(8);
        assert_eq!(t.current_line(), b"ab".to_vec());
    }
}

