use boss_engine::command::{command_uses_shell_operators, normalize_terminal_command};

#[test]
fn normalize_terminal_command_uses_structured_args() {
    let (program, args, mode) =
        normalize_terminal_command("javac".to_owned(), Some(vec!["/tmp/hello.java".to_owned()]));
    assert_eq!(program, "javac");
    assert_eq!(args, vec!["/tmp/hello.java"]);
    assert_eq!(mode, "structured");
}

#[test]
fn normalize_terminal_command_splits_shell_words() {
    let (program, args, mode) =
        normalize_terminal_command("javac /tmp/hello.java".to_owned(), None);
    assert_eq!(program, "javac");
    assert_eq!(args, vec!["/tmp/hello.java"]);
    assert_eq!(mode, "shlex");
}

#[test]
fn normalize_terminal_command_uses_shell_for_operators() {
    let (program, args, mode) = normalize_terminal_command("cd /tmp && ls".to_owned(), None);
    assert_eq!(program, "/bin/bash");
    assert_eq!(args, vec!["-lc", "cd /tmp && ls"]);
    assert_eq!(mode, "shell");
}

#[test]
fn normalize_terminal_command_quoted_words() {
    let (program, args, mode) =
        normalize_terminal_command("echo 'hello world'".to_owned(), None);
    assert_eq!(program, "echo");
    assert_eq!(args, vec!["hello world"]);
    assert_eq!(mode, "shlex");
}

#[test]
fn normalize_terminal_command_unparsable_is_raw() {
    let (program, args, mode) = normalize_terminal_command("echo 'unclosed".to_owned(), None);
    assert_eq!(program, "echo 'unclosed");
    assert!(args.is_empty());
    assert_eq!(mode, "raw");
}

#[test]
fn normalize_terminal_command_empty_is_raw() {
    let (program, args, mode) = normalize_terminal_command(String::new(), None);
    assert_eq!(program, "");
    assert!(args.is_empty());
    assert_eq!(mode, "raw");
}

#[test]
fn shell_operator_detection() {
    assert!(command_uses_shell_operators("a && b"));
    assert!(command_uses_shell_operators("a || b"));
    assert!(command_uses_shell_operators("a | b"));
    assert!(command_uses_shell_operators("a; b"));
    assert!(command_uses_shell_operators("echo $(date)"));
    assert!(command_uses_shell_operators("echo `date`"));
    assert!(command_uses_shell_operators("a > b"));
    assert!(command_uses_shell_operators("a < b"));
    assert!(!command_uses_shell_operators("plain command -x value"));
    assert!(!command_uses_shell_operators("a & b"));
    assert!(!command_uses_shell_operators("price $100"));
    assert!(!command_uses_shell_operators(""));
}
