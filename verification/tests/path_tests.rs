use minishell::path_search::base_name;
use minishell::path_search::find_command_in_path;
use minishell::path_search::join_path;
use minishell::path_search::split_paths;

fn dirs(words: &[&str]) -> Vec<String> {
    words.iter().map(|w| w.to_string()).collect()
}

#[test]
fn first_directory_in_order_wins() {
    let directories = dirs(&["/a", "/b"]);
    let present = vec![false, true];
    let resolved = find_command_in_path("tool", &directories, &present);
    assert_eq!(resolved, Some("/b/tool".to_string()));
}

#[test]
fn earlier_directory_shadows_later_one() {
    let directories = dirs(&["/a", "/b"]);
    let present = vec![true, true];
    let resolved = find_command_in_path("tool", &directories, &present);
    assert_eq!(resolved, Some("/a/tool".to_string()));
}

#[test]
fn absent_everywhere_resolves_to_none() {
    let directories = dirs(&["/a", "/b", "/c"]);
    let present = vec![false, false, false];
    assert_eq!(find_command_in_path("tool", &directories, &present), None);
}

#[test]
fn empty_search_path_resolves_to_none() {
    assert_eq!(find_command_in_path("tool", &dirs(&[]), &vec![]), None);
}

#[test]
fn join_path_inserts_separator() {
    assert_eq!(join_path("/usr/bin", "ls"), "/usr/bin/ls".to_string());
}

#[test]
fn join_path_keeps_single_separator() {
    assert_eq!(join_path("/usr/bin/", "ls"), "/usr/bin/ls".to_string());
}

#[test]
fn join_path_with_empty_directory() {
    assert_eq!(join_path("", "ls"), "ls".to_string());
}

#[test]
fn join_path_lets_an_absolute_name_stand_alone() {
    assert_eq!(join_path("/usr/bin", "/bin/ls"), "/bin/ls".to_string());
}

#[test]
fn absolute_command_name_resolves_to_itself() {
    let directories = dirs(&["/usr/bin", "/bin"]);
    let present = vec![true, true];
    let resolved = find_command_in_path("/bin/ls", &directories, &present);
    assert_eq!(resolved, Some("/bin/ls".to_string()));
}

#[test]
fn split_paths_on_colons() {
    assert_eq!(
        split_paths("/usr/bin:/bin:/usr/local/bin"),
        dirs(&["/usr/bin", "/bin", "/usr/local/bin"])
    );
}

#[test]
fn split_paths_keeps_empty_segments() {
    assert_eq!(split_paths(""), dirs(&[""]));
    assert_eq!(split_paths(":"), dirs(&["", ""]));
    assert_eq!(split_paths("/bin::/sbin"), dirs(&["/bin", "", "/sbin"]));
}

#[test]
fn base_name_takes_last_component() {
    assert_eq!(base_name("/usr/bin/ls"), "ls".to_string());
    assert_eq!(base_name("ls"), "ls".to_string());
    assert_eq!(base_name("/usr/bin/"), "".to_string());
    assert_eq!(base_name(""), "".to_string());
}
