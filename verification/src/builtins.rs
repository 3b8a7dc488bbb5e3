//! The pure logic of the builtin commands.  Each builtin's decisions and
//! output text are computed here from plain values; reading files, querying
//! the working directory or the environment, and writing to streams are the
//! caller's part.

use vstd::prelude::*;

use crate::strutil::lemma_views_push;
use crate::strutil::str_eq;
use crate::strutil::string_eq_str;
use crate::strutil::views;

verus! {

/// `prefix + suffix` as one string.
pub fn compose2(prefix: &str, suffix: &str) -> (r: String)
    ensures
        r@ == prefix@ + suffix@,
{
    let mut s = String::from_str(prefix);
    s.append(suffix);
    s
}

/// `prefix + middle + suffix`, the shape of most shell messages.
pub fn compose3(prefix: &str, middle: &str, suffix: &str) -> (r: String)
    ensures
        r@ == prefix@ + middle@ + suffix@,
{
    let mut s = String::from_str(prefix);
    s.append(middle);
    s.append(suffix);
    s
}

/// The words joined with one space between each pair.
pub open spec fn join_spaces(ts: Seq<Seq<char>>) -> Seq<char>
    decreases ts.len(),
{
    if ts.len() == 0 {
        Seq::empty()
    } else if ts.len() == 1 {
        ts[0]
    } else {
        join_spaces(ts.drop_last()) + " "@ + ts.last()
    }
}

/// Joins the words from index `from` on with single spaces.
pub fn join_with_spaces(args: &Vec<String>, from: usize) -> (r: String)
    requires
        from <= args@.len(),
    ensures
        r@ == join_spaces(views(args@).skip(from as int)),
{
    let n = args.len();
    let mut s = String::new();
    let mut k = from;
    if from >= n {
        proof {
            assert(views(args@).skip(from as int) =~= Seq::<Seq<char>>::empty());
        }
        return s;
    }
    while k < n
        invariant
            n == args@.len(),
            from <= k <= n,
            s@ == join_spaces(views(args@).subrange(from as int, k as int)),
        decreases n - k,
    {
        let ghost before = views(args@).subrange(from as int, k as int);
        let ghost after = views(args@).subrange(from as int, k as int + 1);
        proof {
            assert(after.drop_last() =~= before);
            assert(after.last() == args@[k as int]@);
        }
        if k > from {
            s.append(" ");
        } else {
            proof {
                assert(after.len() == 1);
                assert(after[0] == args@[k as int]@);
            }
        }
        s.append(args[k].as_str());
        k = k + 1;
    }
    proof {
        assert(views(args@).subrange(from as int, n as int) =~= views(args@).skip(from as int));
    }
    s
}

/// What `echo` writes: the text, and whether a line break follows it.
pub struct EchoOutput {
    pub text: String,
    pub newline: bool,
}

/// The output of `echo`, given the full word list with `echo` itself at
/// index 0: the remaining words joined with single spaces, followed by a
/// line break, except that a literal first argument `-n` is excluded from
/// the joined text and suppresses the line break.  With no arguments at
/// all, nothing is written.
pub fn echo_output(args: &Vec<String>) -> (r: Option<EchoOutput>)
    ensures
        args@.len() <= 1 ==> r is None,
        args@.len() > 1 && args@[1]@ == "-n"@ ==> (r matches Some(e) && e.text@ == join_spaces(
            views(args@).skip(2),
        ) && !e.newline),
        args@.len() > 1 && args@[1]@ != "-n"@ ==> (r matches Some(e) && e.text@ == join_spaces(
            views(args@).skip(1),
        ) && e.newline),
{
    if args.len() <= 1 {
        return None;
    }
    if string_eq_str(&args[1], "-n") {
        Some(EchoOutput { text: join_with_spaces(args, 2), newline: false })
    } else {
        Some(EchoOutput { text: join_with_spaces(args, 1), newline: true })
    }
}

/// What `cd` decides to do, before the filesystem is consulted.
pub enum CdRequest {
    /// No path argument was given; the shell reports a missing argument.
    MissingArgument,
    /// Change into the held path if it exists.
    ChangeTo(String),
}

/// The target that `cd` chooses: none without an argument; the home
/// directory for a literal `~`; otherwise the argument itself.  `home` is
/// the value of the home-directory variable, empty when unset.
pub fn cd_target(args: &Vec<String>, home: &str) -> (r: CdRequest)
    ensures
        args@.len() < 2 ==> r is MissingArgument,
        args@.len() >= 2 && args@[1]@ == "~"@ ==> (r matches CdRequest::ChangeTo(p) && p@
            == home@),
        args@.len() >= 2 && args@[1]@ != "~"@ ==> (r matches CdRequest::ChangeTo(p) && p@
            == args@[1]@),
{
    if args.len() < 2 {
        CdRequest::MissingArgument
    } else if string_eq_str(&args[1], "~") {
        CdRequest::ChangeTo(String::from_str(home))
    } else {
        CdRequest::ChangeTo(args[1].clone())
    }
}

/// What `cd` does once its target is chosen and the filesystem has said
/// whether it exists.
pub enum CdAction {
    /// Change the working directory to the held path; a failure of the
    /// change itself is reported with the underlying error.
    ChangeDirectory(String),
    /// Write the held line to stderr and change nothing.
    Report(String),
}

/// The action `cd` takes for its chosen target: change into it when it
/// exists, report "No such file or directory" when it does not.
/// `target_exists` is the filesystem's answer for `path`, probed by the
/// caller.
pub fn cd_decide(path: &String, target_exists: bool) -> (r: CdAction)
    ensures
        target_exists ==> (r matches CdAction::ChangeDirectory(p) && p@ == path@),
        !target_exists ==> (r matches CdAction::Report(m) && m@ == "cd: "@ + path@
            + ": No such file or directory"@),
{
    if target_exists {
        CdAction::ChangeDirectory(path.clone())
    } else {
        CdAction::Report(cd_no_such_directory_message(path.as_str()))
    }
}

/// The line `cd` reports when it has no argument.
pub fn cd_missing_argument_message() -> (r: String)
    ensures
        r@ == "cd: missing argument"@,
{
    String::from_str("cd: missing argument")
}

/// The line `cd` reports for a path that does not exist.
pub fn cd_no_such_directory_message(path: &str) -> (r: String)
    ensures
        r@ == "cd: "@ + path@ + ": No such file or directory"@,
{
    compose3("cd: ", path, ": No such file or directory")
}

/// The names that `type` reports as shell builtins.  `cat` is dispatched
/// as a builtin but deliberately left out here, so that `type` looks it up
/// on the search path, as the shell's observed behaviour has it.
pub open spec fn is_type_builtin_spec(name: Seq<char>) -> bool {
    name == "echo"@ || name == "type"@ || name == "exit"@ || name == "pwd"@ || name == "cd"@
}

/// Whether `type` reports the name as a shell builtin.
pub fn is_type_builtin(name: &str) -> (r: bool)
    ensures
        r == is_type_builtin_spec(name@),
{
    str_eq(name, "echo") || str_eq(name, "type")
        || str_eq(name, "exit") || str_eq(name, "pwd")
        || str_eq(name, "cd")
}

/// One line of shell output, and the stream it belongs on.
pub struct ShellMessage {
    pub text: String,
    pub to_stderr: bool,
}

/// The line `type` reports for a name: builtins are announced as such;
/// otherwise the resolved path is shown when the search found one, and a
/// not-found error goes to stderr when it did not.  `resolved` is the
/// search-path resolution of the name, ignored for builtins.
pub fn type_report(name: &str, resolved: &Option<String>) -> (r: ShellMessage)
    ensures
        is_type_builtin_spec(name@) ==> r.text@ == name@ + " is a shell builtin"@ && !r.to_stderr,
        !is_type_builtin_spec(name@) ==> (resolved matches Some(p) ==> r.text@ == name@ + " is "@
            + p@ && !r.to_stderr),
        !is_type_builtin_spec(name@) && resolved is None ==> r.text@ == name@ + ": not found"@
            && r.to_stderr,
{
    if is_type_builtin(name) {
        ShellMessage { text: compose2(name, " is a shell builtin"), to_stderr: false }
    } else {
        match resolved {
            Some(p) => ShellMessage { text: compose3(name, " is ", p.as_str()), to_stderr: false },
            None => ShellMessage { text: compose2(name, ": not found"), to_stderr: true },
        }
    }
}

/// What `type` decides from its word list, before any lookup.
pub enum TypeRequest {
    /// No command name was given; the shell reports a missing operand.
    MissingOperand,
    /// Classify this name, and resolve it on the search path when it is
    /// not a builtin.
    Lookup(String),
}

/// The request that `type` derives from the full word list with `type`
/// itself at index 0: the name to look up, or a missing operand when no
/// name was given.
pub fn type_request(args: &Vec<String>) -> (r: TypeRequest)
    ensures
        args@.len() < 2 ==> r is MissingOperand,
        args@.len() >= 2 ==> (r matches TypeRequest::Lookup(name) && name@ == args@[1]@),
{
    if args.len() < 2 {
        TypeRequest::MissingOperand
    } else {
        TypeRequest::Lookup(args[1].clone())
    }
}

/// The line `type` reports when it has no argument.
pub fn type_missing_operand_message() -> (r: String)
    ensures
        r@ == "type: missing operand"@,
{
    String::from_str("type: missing operand")
}

/// What reading one file for `cat` came to.
pub enum ReadOutcome {
    /// The file was opened and read fully.
    Data(String),
    /// The file could not be opened.
    Missing,
    /// The file was opened but could not be read as text.
    Unreadable,
}

/// One file name handed to `cat`, with the outcome of reading it.
pub struct FileRead {
    pub name: String,
    pub outcome: ReadOutcome,
}

/// The error line `cat` reports for a file it could not open.
pub open spec fn cat_missing_message_spec(name: Seq<char>) -> Seq<char> {
    "cat: "@ + name + ": No such file or directory"@
}

/// The error line `cat` reports for a file it opened but could not read.
pub open spec fn cat_unreadable_message_spec(name: Seq<char>) -> Seq<char> {
    "cat: error reading "@ + name
}

/// What one read outcome adds to `cat`'s output: the file's text exactly
/// as read, or nothing on an error.
pub open spec fn cat_piece(r: FileRead) -> Seq<char> {
    match r.outcome {
        ReadOutcome::Data(s) => s@,
        ReadOutcome::Missing => Seq::empty(),
        ReadOutcome::Unreadable => Seq::empty(),
    }
}

/// The concatenated output of `cat` over the files in order.
pub open spec fn cat_text_spec(reads: Seq<FileRead>) -> Seq<char>
    decreases reads.len(),
{
    if reads.len() == 0 {
        Seq::empty()
    } else {
        cat_text_spec(reads.drop_last()) + cat_piece(reads.last())
    }
}

/// What one read outcome adds to `cat`'s error lines.
pub open spec fn cat_error_pieces(r: FileRead) -> Seq<Seq<char>> {
    match r.outcome {
        ReadOutcome::Data(s) => Seq::empty(),
        ReadOutcome::Missing => seq![cat_missing_message_spec(r.name@)],
        ReadOutcome::Unreadable => seq![cat_unreadable_message_spec(r.name@)],
    }
}

/// The error lines of `cat` over the files in order.
pub open spec fn cat_errors_spec(reads: Seq<FileRead>) -> Seq<Seq<char>>
    decreases reads.len(),
{
    if reads.len() == 0 {
        Seq::empty()
    } else {
        cat_errors_spec(reads.drop_last()) + cat_error_pieces(reads.last())
    }
}

/// Collects `cat`'s output over the files in order: the readable files'
/// texts concatenated unmodified, and one error line for each file that
/// could not be opened or read.  A failing file never stops the files
/// after it from being shown.
pub fn cat_collect(reads: &Vec<FileRead>) -> (r: (String, Vec<String>))
    ensures
        r.0@ == cat_text_spec(reads@),
        views(r.1@) == cat_errors_spec(reads@),
{
    let mut text = String::new();
    let mut errors: Vec<String> = Vec::new();
    let mut k: usize = 0;
    let n = reads.len();
    proof {
        assert(reads@.take(0) =~= Seq::<FileRead>::empty());
        assert(views(errors@) =~= Seq::<Seq<char>>::empty());
    }
    while k < n
        invariant
            n == reads@.len(),
            k <= n,
            text@ == cat_text_spec(reads@.take(k as int)),
            views(errors@) == cat_errors_spec(reads@.take(k as int)),
        decreases n - k,
    {
        let ghost before = reads@.take(k as int);
        let ghost after = reads@.take(k as int + 1);
        proof {
            assert(after.drop_last() =~= before);
            assert(after.last() == reads@[k as int]);
        }
        match &reads[k].outcome {
            ReadOutcome::Data(s) => {
                text.append(s.as_str());
                proof {
                    assert(views(errors@) + cat_error_pieces(reads@[k as int]) =~= views(errors@));
                }
            },
            ReadOutcome::Missing => {
                let msg = compose3("cat: ", reads[k].name.as_str(), ": No such file or directory");
                errors.push(msg);
                proof {
                    assert(views(errors@) =~= cat_errors_spec(before) + cat_error_pieces(
                        reads@[k as int],
                    ));
                }
            },
            ReadOutcome::Unreadable => {
                let msg = compose2("cat: error reading ", reads[k].name.as_str());
                errors.push(msg);
                proof {
                    assert(views(errors@) =~= cat_errors_spec(before) + cat_error_pieces(
                        reads@[k as int],
                    ));
                }
            },
        }
        k = k + 1;
    }
    proof {
        assert(reads@.take(n as int) =~= reads@);
    }
    (text, errors)
}

/// One failing file contributes nothing to `cat`'s output: the text is
/// the same as if that file had not been named at all, so a file that
/// cannot be read never stops the files around it from being shown.
pub proof fn lemma_cat_failure_keeps_other_files(
    prefix: Seq<FileRead>,
    failing: FileRead,
    suffix: Seq<FileRead>,
)
    requires
        !(failing.outcome is Data),
    ensures
        cat_text_spec(prefix + seq![failing] + suffix) == cat_text_spec(prefix + suffix),
    decreases suffix.len(),
{
    if suffix.len() == 0 {
        let whole = prefix + seq![failing] + suffix;
        assert(whole =~= prefix.push(failing));
        assert(prefix.push(failing).drop_last() =~= prefix);
        assert(cat_piece(failing) =~= Seq::<char>::empty());
        assert(cat_text_spec(prefix) + Seq::<char>::empty() =~= cat_text_spec(prefix));
        assert(prefix + suffix =~= prefix);
    } else {
        let shorter = suffix.drop_last();
        lemma_cat_failure_keeps_other_files(prefix, failing, shorter);
        let whole = prefix + seq![failing] + suffix;
        let other = prefix + suffix;
        assert(whole.drop_last() =~= prefix + seq![failing] + shorter);
        assert(other.drop_last() =~= prefix + shorter);
        assert(whole.last() == suffix.last());
        assert(other.last() == suffix.last());
    }
}

/// What `cat` decides from its word list, before any file is touched.
pub enum CatRequest {
    /// No file argument was given; the shell reports a missing operand.
    MissingOperand,
    /// Read these files, in this order.
    ReadFiles(Vec<String>),
}

/// The request that `cat` derives from the full word list with `cat`
/// itself at index 0: the files to read, in order, or a missing operand
/// when no file was named.
pub fn cat_request(args: &Vec<String>) -> (r: CatRequest)
    ensures
        args@.len() < 2 ==> r is MissingOperand,
        args@.len() >= 2 ==> (r matches CatRequest::ReadFiles(names) && views(names@) == views(
            args@,
        ).skip(1)),
{
    if args.len() < 2 {
        CatRequest::MissingOperand
    } else {
        let mut names: Vec<String> = Vec::new();
        let mut k: usize = 1;
        proof {
            assert(views(names@) =~= views(args@).subrange(1, 1));
        }
        while k < args.len()
            invariant
                1 <= k <= args@.len(),
                views(names@) == views(args@).subrange(1, k as int),
            decreases args@.len() - k,
        {
            let name = args[k].clone();
            proof {
                lemma_views_push(names@, name);
                assert(views(args@).subrange(1, k as int + 1) =~= views(args@).subrange(
                    1,
                    k as int,
                ).push(args@[k as int]@));
            }
            names.push(name);
            k = k + 1;
        }
        proof {
            assert(views(args@).subrange(1, args@.len() as int) =~= views(args@).skip(1));
        }
        CatRequest::ReadFiles(names)
    }
}

/// The line `cat` reports when it has no file argument.
pub fn cat_missing_operand_message() -> (r: String)
    ensures
        r@ == "cat: missing file operand"@,
{
    String::from_str("cat: missing file operand")
}

/// The line `pwd` writes: the working directory's path, as the shell was
/// told it.
pub open spec fn pwd_output_spec(cwd: Seq<char>) -> Seq<char> {
    cwd
}

/// The line `pwd` writes for a working directory.
pub fn pwd_output(cwd: &str) -> (r: String)
    ensures
        r@ == pwd_output_spec(cwd@),
{
    String::from_str(cwd)
}

/// Two `pwd` invocations with no working-directory change between them
/// write the same line: the output is a function of the working directory
/// alone.
pub proof fn lemma_pwd_deterministic(cwd_first: Seq<char>, cwd_second: Seq<char>)
    requires
        cwd_first == cwd_second,
    ensures
        pwd_output_spec(cwd_first) == pwd_output_spec(cwd_second),
{
}

/// The line `pwd` reports when the working directory cannot be read.
pub fn pwd_error_message() -> (r: String)
    ensures
        r@ == "pwd: error retrieving current directory"@,
{
    String::from_str("pwd: error retrieving current directory")
}

} // verus!
