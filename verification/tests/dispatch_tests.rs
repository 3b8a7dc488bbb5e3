use minishell::dispatch::classify;
use minishell::dispatch::command_not_found_message;
use minishell::dispatch::is_exit_command;
use minishell::dispatch::process_command;
use minishell::dispatch::CommandKind;

#[test]
fn exit_zero_terminates() {
    assert!(is_exit_command("exit 0"));
    assert!(is_exit_command("exit 0\n"));
    assert!(is_exit_command("  exit 0  \n"));
}

#[test]
fn other_exit_forms_do_not_terminate() {
    assert!(!is_exit_command("exit 1"));
    assert!(!is_exit_command("exit 1\n"));
    assert!(!is_exit_command("exit"));
    assert!(!is_exit_command("exit\n"));
    assert!(!is_exit_command("exit  0"));
}

#[test]
fn plan_for_redirected_echo() {
    let plan = process_command("echo hi > out.txt\n").unwrap();
    assert_eq!(plan.kind, CommandKind::Echo);
    assert_eq!(plan.args, vec!["echo".to_string(), "hi".to_string()]);
    assert_eq!(plan.stdout_target, Some("out.txt".to_string()));
    assert_eq!(plan.stderr_target, None);
}

#[test]
fn plan_for_external_command() {
    let plan = process_command("ls -l /tmp 2> err.txt\n").unwrap();
    assert_eq!(plan.kind, CommandKind::External);
    assert_eq!(
        plan.args,
        vec!["ls".to_string(), "-l".to_string(), "/tmp".to_string()]
    );
    assert_eq!(plan.stdout_target, None);
    assert_eq!(plan.stderr_target, Some("err.txt".to_string()));
}

#[test]
fn plan_keeps_quoted_words_whole() {
    let plan = process_command("cat 'a b.txt'\n").unwrap();
    assert_eq!(plan.kind, CommandKind::Cat);
    assert_eq!(plan.args, vec!["cat".to_string(), "a b.txt".to_string()]);
}

#[test]
fn empty_line_yields_no_plan() {
    assert!(process_command("").is_none());
    assert!(process_command("   \n").is_none());
}

#[test]
fn line_of_only_redirections_yields_no_plan() {
    assert!(process_command("> out.txt\n").is_none());
}

#[test]
fn exit_is_classified_but_runs_nothing() {
    let plan = process_command("exit 1\n").unwrap();
    assert_eq!(plan.kind, CommandKind::Exit);
}

#[test]
fn classification_covers_all_builtins() {
    assert_eq!(classify(&"echo".to_string()), CommandKind::Echo);
    assert_eq!(classify(&"pwd".to_string()), CommandKind::Pwd);
    assert_eq!(classify(&"cd".to_string()), CommandKind::Cd);
    assert_eq!(classify(&"type".to_string()), CommandKind::Type);
    assert_eq!(classify(&"cat".to_string()), CommandKind::Cat);
    assert_eq!(classify(&"exit".to_string()), CommandKind::Exit);
    assert_eq!(classify(&"grep".to_string()), CommandKind::External);
}

#[test]
fn not_found_message_names_the_command() {
    assert_eq!(
        command_not_found_message("wat"),
        "wat: command not found".to_string()
    );
}
