//! The dispatcher: one raw input line becomes a command plan.  The line is
//! tokenized, the redirection targets are extracted, and the first residual
//! word is classified against the fixed builtin set.  Executing the plan —
//! writing, reading, changing directory, spawning — is the caller's part.

use vstd::prelude::*;

use crate::builtins::compose2;
use crate::redirect::extract_redirections;
use crate::redirect::handle_redirection;
use crate::strutil::opt_view;
use crate::strutil::string_eq_str;
use crate::strutil::views;
use crate::tokenize::escape_quotes;
use crate::tokenize::tokenize_spec;

verus! {

/// The closed set of commands the shell knows, with `External` for
/// everything resolved over the search path.
#[derive(PartialEq, Eq, Structural, Clone, Copy, Debug)]
pub enum CommandKind {
    Exit,
    Echo,
    Pwd,
    Cd,
    Type,
    Cat,
    External,
}

/// The classification of a command name.
pub open spec fn classify_spec(name: Seq<char>) -> CommandKind {
    if name == "exit"@ {
        CommandKind::Exit
    } else if name == "echo"@ {
        CommandKind::Echo
    } else if name == "pwd"@ {
        CommandKind::Pwd
    } else if name == "cd"@ {
        CommandKind::Cd
    } else if name == "type"@ {
        CommandKind::Type
    } else if name == "cat"@ {
        CommandKind::Cat
    } else {
        CommandKind::External
    }
}

/// Classifies a command name against the fixed builtin set.
pub fn classify(name: &String) -> (r: CommandKind)
    ensures
        r == classify_spec(name@),
{
    if string_eq_str(name, "exit") {
        CommandKind::Exit
    } else if string_eq_str(name, "echo") {
        CommandKind::Echo
    } else if string_eq_str(name, "pwd") {
        CommandKind::Pwd
    } else if string_eq_str(name, "cd") {
        CommandKind::Cd
    } else if string_eq_str(name, "type") {
        CommandKind::Type
    } else if string_eq_str(name, "cat") {
        CommandKind::Cat
    } else {
        CommandKind::External
    }
}

/// Everything the shell needs to run one command: its classification, the
/// residual words (the command name at index 0), and the redirection
/// targets.
pub struct CommandPlan {
    pub kind: CommandKind,
    pub args: Vec<String>,
    pub stdout_target: Option<String>,
    pub stderr_target: Option<String>,
}

/// Turns one raw input line into a command plan: tokenize, extract the
/// redirections, classify the first residual word.  A line with no words,
/// or one whose words are all consumed by redirections, runs no command
/// and yields no plan.
pub fn process_command(input: &str) -> (r: Option<CommandPlan>)
    ensures
        ({
            let toks = tokenize_spec(input@);
            let e = extract_redirections(toks);
            if e.0.len() == 0 {
                r is None
            } else {
                r matches Some(plan) && views(plan.args@) == e.0 && opt_view(plan.stdout_target)
                    == e.1 && opt_view(plan.stderr_target) == e.2 && plan.kind == classify_spec(
                    e.0[0],
                )
            }
        }),
        r matches Some(plan) ==> plan.args@.len() > 0,
{
    let tokens = escape_quotes(input);
    if tokens.is_empty() {
        proof {
            assert(views(tokens@) =~= Seq::<Seq<char>>::empty());
        }
        return None;
    }
    let extracted = handle_redirection(&tokens);
    match extracted {
        Some((residual, stdout_target, stderr_target)) => {
            if residual.is_empty() {
                return None;
            }
            let kind = classify(&residual[0]);
            Some(CommandPlan { kind, args: residual, stdout_target, stderr_target })
        },
        None => None,
    }
}

/// A whitespace character at a line's edge: space, tab, or a line break.
pub open spec fn is_blank_char(c: char) -> bool {
    c == ' ' || c == '\t' || c == '\n' || c == '\r'
}

/// `s` without its leading whitespace.
pub open spec fn trim_start_spec(s: Seq<char>) -> Seq<char>
    decreases s.len(),
{
    if s.len() > 0 && is_blank_char(s[0]) {
        trim_start_spec(s.drop_first())
    } else {
        s
    }
}

/// `s` without its trailing whitespace.
pub open spec fn trim_end_spec(s: Seq<char>) -> Seq<char>
    decreases s.len(),
{
    if s.len() > 0 && is_blank_char(s.last()) {
        trim_end_spec(s.drop_last())
    } else {
        s
    }
}

/// `s` without leading and trailing whitespace.
pub open spec fn trim_spec(s: Seq<char>) -> Seq<char> {
    trim_end_spec(trim_start_spec(s))
}

proof fn lemma_trim_start_skip(s: Seq<char>, k: int)
    requires
        0 <= k <= s.len(),
        forall|j: int| 0 <= j < k ==> is_blank_char(s[j]),
        k < s.len() ==> !is_blank_char(s[k]),
    ensures
        trim_start_spec(s) == s.skip(k),
    decreases k,
{
    if k == 0 {
        assert(s.skip(0) =~= s);
    } else {
        assert(is_blank_char(s[0]));
        lemma_trim_start_skip(s.drop_first(), k - 1);
        assert(s.drop_first().skip(k - 1) =~= s.skip(k));
    }
}

proof fn lemma_trim_end_take(s: Seq<char>, e: int)
    requires
        0 <= e <= s.len(),
        forall|j: int| e <= j < s.len() ==> is_blank_char(s[j]),
        e > 0 ==> !is_blank_char(s[e - 1]),
    ensures
        trim_end_spec(s) == s.take(e),
    decreases s.len(),
{
    if s.len() == 0 {
        assert(s.take(0) =~= s);
    } else if e == s.len() {
        assert(!is_blank_char(s.last()));
        assert(s.take(e) =~= s);
    } else {
        assert(is_blank_char(s.last()));
        lemma_trim_end_take(s.drop_last(), e);
        assert(s.drop_last().take(e) =~= s.take(e));
    }
}

/// Whether the raw line, with surrounding whitespace ignored, is the exact
/// exit command `exit 0` — the only input that terminates the shell.  The
/// check runs on the raw line, before tokenization.
pub fn is_exit_command(input: &str) -> (r: bool)
    ensures
        r == (trim_spec(input@) == "exit 0"@),
{
    let n = input.unicode_len();
    let mut start: usize = 0;
    while start < n
        invariant
            n == input@.len(),
            start <= n,
            forall|j: int| 0 <= j < start ==> is_blank_char(input@[j]),
        ensures
            start <= n,
            forall|j: int| 0 <= j < start ==> is_blank_char(input@[j]),
            start < n ==> !is_blank_char(input@[start as int]),
        decreases n - start,
    {
        let c = input.get_char(start);
        if !(c == ' ' || c == '\t' || c == '\n' || c == '\r') {
            break ;
        }
        start = start + 1;
    }
    let mut end = n;
    while end > start
        invariant
            n == input@.len(),
            start <= end <= n,
            forall|j: int| end <= j < n ==> is_blank_char(input@[j]),
        ensures
            start <= end <= n,
            forall|j: int| end <= j < n ==> is_blank_char(input@[j]),
            end > start ==> !is_blank_char(input@[end - 1]),
        decreases end,
    {
        let c = input.get_char(end - 1);
        if !(c == ' ' || c == '\t' || c == '\n' || c == '\r') {
            break ;
        }
        end = end - 1;
    }
    proof {
        lemma_trim_start_skip(input@, start as int);
        let tail = input@.skip(start as int);
        if end == start {
            lemma_trim_end_take(tail, 0);
        } else {
            lemma_trim_end_take(tail, end - start);
        }
        assert(tail.take(end - start) =~= input@.subrange(start as int, end as int));
    }
    let trimmed = String::from_str(input.substring_char(start, end));
    string_eq_str(&trimmed, "exit 0")
}

/// The line reported for a command that the search path does not hold.
pub fn command_not_found_message(name: &str) -> (r: String)
    ensures
        r@ == name@ + ": command not found"@,
{
    compose2(name, ": command not found")
}

} // verus!
