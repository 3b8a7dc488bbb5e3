use minishell::redirect::handle_redirection;

fn args(words: &[&str]) -> Vec<String> {
    words.iter().map(|w| w.to_string()).collect()
}

#[test]
fn stdout_redirection_extracted() {
    let (residual, stdout_target, stderr_target) =
        handle_redirection(&args(&["echo", "hi", ">", "out.txt"])).unwrap();
    assert_eq!(residual, args(&["echo", "hi"]));
    assert_eq!(stdout_target, Some("out.txt".to_string()));
    assert_eq!(stderr_target, None);
}

#[test]
fn both_targets_extracted_with_stderr_first() {
    let (residual, stdout_target, stderr_target) =
        handle_redirection(&args(&["ls", "2>", "err.txt", "1>", "out.txt"])).unwrap();
    assert_eq!(residual, args(&["ls"]));
    assert_eq!(stdout_target, Some("out.txt".to_string()));
    assert_eq!(stderr_target, Some("err.txt".to_string()));
}

#[test]
fn both_targets_extracted_with_stdout_first() {
    let (residual, stdout_target, stderr_target) =
        handle_redirection(&args(&["ls", "1>", "out.txt", "2>", "err.txt"])).unwrap();
    assert_eq!(residual, args(&["ls"]));
    assert_eq!(stdout_target, Some("out.txt".to_string()));
    assert_eq!(stderr_target, Some("err.txt".to_string()));
}

#[test]
fn plain_gt_and_one_gt_are_the_same_operator() {
    let (residual, stdout_target, _) =
        handle_redirection(&args(&["cat", "a.txt", "1>", "b.txt"])).unwrap();
    assert_eq!(residual, args(&["cat", "a.txt"]));
    assert_eq!(stdout_target, Some("b.txt".to_string()));
}

#[test]
fn operator_without_filename_stays_in_place() {
    let (residual, stdout_target, stderr_target) =
        handle_redirection(&args(&["echo", "hi", ">"])).unwrap();
    assert_eq!(residual, args(&["echo", "hi", ">"]));
    assert_eq!(stdout_target, None);
    assert_eq!(stderr_target, None);
}

#[test]
fn no_operators_leave_args_unchanged() {
    let (residual, stdout_target, stderr_target) =
        handle_redirection(&args(&["echo", "a", "b"])).unwrap();
    assert_eq!(residual, args(&["echo", "a", "b"]));
    assert_eq!(stdout_target, None);
    assert_eq!(stderr_target, None);
}

#[test]
fn only_first_stdout_operator_is_consumed() {
    let (residual, stdout_target, stderr_target) =
        handle_redirection(&args(&["x", ">", "a", ">", "b"])).unwrap();
    assert_eq!(residual, args(&["x", ">", "b"]));
    assert_eq!(stdout_target, Some("a".to_string()));
    assert_eq!(stderr_target, None);
}

#[test]
fn residual_preserves_relative_order() {
    let (residual, stdout_target, stderr_target) =
        handle_redirection(&args(&["cmd", "a", "2>", "e", "b", ">", "o", "c"])).unwrap();
    assert_eq!(residual, args(&["cmd", "a", "b", "c"]));
    assert_eq!(stdout_target, Some("o".to_string()));
    assert_eq!(stderr_target, Some("e".to_string()));
}
