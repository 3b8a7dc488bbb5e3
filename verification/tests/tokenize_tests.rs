use minishell::tokenize::escape_quotes;

fn toks(line: &str) -> Vec<String> {
    escape_quotes(line)
}

#[test]
fn single_quotes_preserve_spaces() {
    assert_eq!(
        toks("echo 'a  b' \"c d\""),
        vec!["echo".to_string(), "a  b".to_string(), "c d".to_string()]
    );
}

#[test]
fn backslash_escapes_space_outside_quotes() {
    assert_eq!(
        toks("echo hello\\ world"),
        vec!["echo".to_string(), "hello world".to_string()]
    );
}

#[test]
fn double_quote_escapes() {
    assert_eq!(
        toks("echo \"say \\\"hi\\\"\""),
        vec!["echo".to_string(), "say \"hi\"".to_string()]
    );
}

#[test]
fn backslash_n_stays_literal_in_double_quotes() {
    assert_eq!(
        toks("echo \"a\\nb\""),
        vec!["echo".to_string(), "a\\nb".to_string()]
    );
}

#[test]
fn dollar_and_backslash_escapable_in_double_quotes() {
    assert_eq!(
        toks("echo \"\\$HOME \\\\\""),
        vec!["echo".to_string(), "$HOME \\".to_string()]
    );
}

#[test]
fn backslash_stays_literal_inside_single_quotes() {
    assert_eq!(
        toks("echo 'a\\nb'"),
        vec!["echo".to_string(), "a\\nb".to_string()]
    );
}

#[test]
fn multiple_spaces_separate_words() {
    assert_eq!(
        toks("a   b  c"),
        vec!["a".to_string(), "b".to_string(), "c".to_string()]
    );
}

#[test]
fn trailing_newline_is_skipped() {
    assert_eq!(toks("pwd\n"), vec!["pwd".to_string()]);
}

#[test]
fn empty_line_yields_no_tokens() {
    assert_eq!(toks(""), Vec::<String>::new());
    assert_eq!(toks("   "), Vec::<String>::new());
    assert_eq!(toks("\n"), Vec::<String>::new());
}

#[test]
fn quotes_with_no_content_yield_no_tokens() {
    assert_eq!(toks("''"), Vec::<String>::new());
    assert_eq!(toks("\"\" ''"), Vec::<String>::new());
}

#[test]
fn adjacent_quoted_parts_join_into_one_word() {
    assert_eq!(toks("a'b c'd"), vec!["ab cd".to_string()]);
    assert_eq!(toks("\"a\"'b'"), vec!["ab".to_string()]);
}

#[test]
fn unterminated_quote_closes_at_end_of_line() {
    assert_eq!(toks("echo 'abc"), vec!["echo".to_string(), "abc".to_string()]);
    assert_eq!(toks("echo \"a b"), vec!["echo".to_string(), "a b".to_string()]);
}

#[test]
fn trailing_backslash_is_dropped() {
    assert_eq!(toks("echo a\\"), vec!["echo".to_string(), "a".to_string()]);
}

#[test]
fn no_token_is_empty() {
    let lines = [
        "",
        "   ",
        "''",
        "\"\"",
        "a '' b",
        "echo 'a  b' \"c d\"",
        "  x  ",
        "'' \"\" ' ' y",
    ];
    for line in lines {
        for t in toks(line) {
            assert!(!t.is_empty());
        }
    }
}
