//! Redirection extraction: a tokenized word list is scanned for the first
//! stdout operator (`>` or `1>`) and then, on the residue, for the first
//! stderr operator (`2>`).  Each operator found is removed together with the
//! word that follows it, which names the target file.  An operator that is
//! the last word has no target; it stays in place and no target is
//! recorded.  The residual words keep their relative order.

use vstd::prelude::*;

use crate::strutil::opt_view;
use crate::strutil::string_eq_str;
use crate::strutil::views;

verus! {

/// A word that redirects standard output: `>` or `1>`.
pub open spec fn is_stdout_op(t: Seq<char>) -> bool {
    t == ">"@ || t == "1>"@
}

/// A word that redirects standard error: `2>`.
pub open spec fn is_stderr_op(t: Seq<char>) -> bool {
    t == "2>"@
}

/// The operator words of one output stream: stderr's when `stderr_op`,
/// stdout's otherwise.
pub open spec fn op_pred(stderr_op: bool, t: Seq<char>) -> bool {
    if stderr_op {
        is_stderr_op(t)
    } else {
        is_stdout_op(t)
    }
}

/// The first index at or after `from` whose word is an operator of the
/// chosen stream.
pub open spec fn find_op(ts: Seq<Seq<char>>, stderr_op: bool, from: int) -> Option<int>
    decreases ts.len() - from,
{
    if from < 0 || from >= ts.len() {
        None
    } else if op_pred(stderr_op, ts[from]) {
        Some(from)
    } else {
        find_op(ts, stderr_op, from + 1)
    }
}

/// Removes the first operator of the chosen stream together with the word
/// after it, and yields that word as the target; when no operator with a
/// following word exists, the words stay as they are and there is no
/// target.
pub open spec fn extract_op(ts: Seq<Seq<char>>, stderr_op: bool) -> (Seq<Seq<char>>, Option<
    Seq<char>,
>) {
    match find_op(ts, stderr_op, 0) {
        Some(i) => if i + 1 < ts.len() {
            (ts.subrange(0, i) + ts.subrange(i + 2, ts.len() as int), Some(ts[i + 1]))
        } else {
            (ts, None)
        },
        None => (ts, None),
    }
}

/// Stdout extraction first, then stderr extraction on the residue: the
/// residual words, the stdout target and the stderr target.
pub open spec fn extract_redirections(ts: Seq<Seq<char>>) -> (Seq<Seq<char>>, Option<Seq<char>>, Option<
    Seq<char>,
>) {
    let stdout_step = extract_op(ts, false);
    let stderr_step = extract_op(stdout_step.0, true);
    (stderr_step.0, stdout_step.1, stderr_step.1)
}

proof fn lemma_find_op_step(ts: Seq<Seq<char>>, stderr_op: bool, from: int, k: int)
    requires
        0 <= from <= k <= ts.len(),
        forall|j: int| from <= j < k ==> !op_pred(stderr_op, ts[j]),
    ensures
        find_op(ts, stderr_op, from) == find_op(ts, stderr_op, k),
    decreases k - from,
{
    if from < k {
        assert(!op_pred(stderr_op, ts[from]));
        lemma_find_op_step(ts, stderr_op, from + 1, k);
    }
}

fn is_op_exec(t: &String, stderr_op: bool) -> (r: bool)
    ensures
        r == op_pred(stderr_op, t@),
{
    if stderr_op {
        string_eq_str(t, "2>")
    } else {
        string_eq_str(t, ">") || string_eq_str(t, "1>")
    }
}

/// Extracts the target of one stream from the word list, removing the
/// operator and the target word.
fn extract_stream(args: &Vec<String>, stderr_op: bool) -> (res: (Vec<String>, Option<String>))
    ensures
        (views(res.0@), opt_view(res.1)) == extract_op(views(args@), stderr_op),
{
    let ghost ts = views(args@);
    let n = args.len();
    let mut idx: usize = 0;
    while idx < n
        invariant
            n == args@.len(),
            ts == views(args@),
            idx <= n,
            forall|j: int| 0 <= j < idx ==> !op_pred(stderr_op, ts[j]),
        ensures
            n == args@.len(),
            idx <= n,
            forall|j: int| 0 <= j < idx ==> !op_pred(stderr_op, ts[j]),
            idx < n ==> op_pred(stderr_op, ts[idx as int]),
        decreases n - idx,
    {
        if is_op_exec(&args[idx], stderr_op) {
            break ;
        }
        idx = idx + 1;
    }
    proof {
        lemma_find_op_step(ts, stderr_op, 0, idx as int);
    }
    if idx < n && idx + 1 < n {
        let mut residual = args.clone();
        let target = residual.remove(idx + 1);
        residual.remove(idx);
        proof {
            assert(find_op(ts, stderr_op, idx as int) == Some(idx as int));
            let removed = args@.remove(idx + 1).remove(idx as int);
            assert(views(removed) =~= ts.subrange(0, idx as int) + ts.subrange(
                idx as int + 2,
                ts.len() as int,
            ));
        }
        (residual, Some(target))
    } else {
        proof {
            if idx < n {
                assert(find_op(ts, stderr_op, idx as int) == Some(idx as int));
            } else {
                assert(find_op(ts, stderr_op, idx as int) is None);
            }
        }
        (args.clone(), None)
    }
}

/// Extracts the redirection targets from a tokenized word list: the
/// residual words, the stdout target (`>` or `1>`) and the stderr target
/// (`2>`).  Extraction cannot fail, so the optional result always holds a
/// value; a word list without operators comes back unchanged.
pub fn handle_redirection(args: &Vec<String>) -> (r: Option<(Vec<String>, Option<String>, Option<
    String,
>)>)
    ensures
        r matches Some(t) && ({
            let e = extract_redirections(views(args@));
            views(t.0@) == e.0 && opt_view(t.1) == e.1 && opt_view(t.2) == e.2
        }),
{
    let (residual, stdout_target) = extract_stream(args, false);
    let (residual, stderr_target) = extract_stream(&residual, true);
    Some((residual, stdout_target, stderr_target))
}

} // verus!
