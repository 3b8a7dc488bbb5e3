//! Search-path resolution: the ordered list of directories is walked from
//! the front, and the first directory that contains the command gives the
//! resolved path.  Whether a directory contains the command is a fact about
//! the filesystem; the caller probes the joined paths and hands the
//! outcomes in as a list of booleans, one per directory, so that the
//! first-match rule itself is verified.

use vstd::prelude::*;

use crate::strutil::lemma_views_push;
use crate::strutil::opt_view;
use crate::strutil::push_char;
use crate::strutil::views;

verus! {

/// A directory joined with a file name: a single `/` between them, none
/// doubled.  A name that is itself absolute (it begins with `/`) replaces
/// the directory and stands alone, and an empty directory also leaves the
/// name alone.
pub open spec fn join_path_spec(dir: Seq<char>, name: Seq<char>) -> Seq<char> {
    if name.len() > 0 && name[0] == '/' {
        name
    } else if dir.len() == 0 {
        name
    } else if dir.last() == '/' {
        dir + name
    } else {
        dir + "/"@ + name
    }
}

/// Joins a directory with a file name.
pub fn join_path(dir: &str, name: &str) -> (r: String)
    ensures
        r@ == join_path_spec(dir@, name@),
{
    let m = name.unicode_len();
    if m > 0 && name.get_char(0) == '/' {
        return String::from_str(name);
    }
    let n = dir.unicode_len();
    if n == 0 {
        String::from_str(name)
    } else {
        let mut s = String::from_str(dir);
        let last = dir.get_char(n - 1);
        if last != '/' {
            s.append("/");
        }
        s.append(name);
        s
    }
}

/// The resolved path, walking the directories from index `from`: the first
/// directory marked present gives its join with the name.
pub open spec fn resolve_from(
    name: Seq<char>,
    dirs: Seq<Seq<char>>,
    present: Seq<bool>,
    from: int,
) -> Option<Seq<char>>
    decreases dirs.len() - from,
{
    if from < 0 || from >= dirs.len() {
        None
    } else if from < present.len() && present[from] {
        Some(join_path_spec(dirs[from], name))
    } else {
        resolve_from(name, dirs, present, from + 1)
    }
}

/// The path that searching the directories in order resolves the command
/// name to, given which directories contain it.
pub open spec fn resolve_spec(name: Seq<char>, dirs: Seq<Seq<char>>, present: Seq<bool>) -> Option<
    Seq<char>,
> {
    resolve_from(name, dirs, present, 0)
}

proof fn lemma_resolve_from_step(
    name: Seq<char>,
    dirs: Seq<Seq<char>>,
    present: Seq<bool>,
    from: int,
    k: int,
)
    requires
        0 <= from <= k <= dirs.len(),
        present.len() == dirs.len(),
        forall|j: int| from <= j < k ==> !present[j],
    ensures
        resolve_from(name, dirs, present, from) == resolve_from(name, dirs, present, k),
    decreases k - from,
{
    if from < k {
        assert(!present[from]);
        lemma_resolve_from_step(name, dirs, present, from + 1, k);
    }
}

/// Finds the command on the search path: the first directory, in list
/// order, that contains it wins.  `present[i]` says whether `directories[i]`
/// contains the command; the caller probes the filesystem for these facts.
pub fn find_command_in_path(command: &str, directories: &Vec<String>, present: &Vec<bool>) -> (r:
    Option<String>)
    requires
        directories@.len() == present@.len(),
    ensures
        opt_view(r) == resolve_spec(command@, views(directories@), present@),
        r matches Some(p) ==> exists|i: int|
            0 <= i < directories@.len() && present@[i] && p@ == join_path_spec(
                directories@[i]@,
                command@,
            ) && (forall|j: int| 0 <= j < i ==> !present@[j]),
        r is None ==> forall|i: int| 0 <= i < present@.len() ==> !present@[i],
{
    let ghost dirs = views(directories@);
    let n = directories.len();
    let mut idx: usize = 0;
    while idx < n
        invariant
            n == directories@.len(),
            n == present@.len(),
            dirs == views(directories@),
            idx <= n,
            forall|j: int| 0 <= j < idx ==> !present@[j],
        decreases n - idx,
    {
        if present[idx] {
            let joined = join_path(directories[idx].as_str(), command);
            proof {
                lemma_resolve_from_step(command@, dirs, present@, 0, idx as int);
                assert(resolve_from(command@, dirs, present@, idx as int) == Some(
                    join_path_spec(dirs[idx as int], command@),
                ));
            }
            return Some(joined);
        }
        idx = idx + 1;
    }
    proof {
        lemma_resolve_from_step(command@, dirs, present@, 0, n as int);
    }
    None
}

/// The segments of the search-path variable that remain, given that `s` is
/// the input left to scan, `cur` the segment collected so far and `acc` the
/// segments already finished.  A colon ends a segment; empty segments are
/// kept.
pub open spec fn split_colon_from(s: Seq<char>, cur: Seq<char>, acc: Seq<Seq<char>>) -> Seq<
    Seq<char>,
>
    decreases s.len(),
{
    if s.len() == 0 {
        acc.push(cur)
    } else if s[0] == ':' {
        split_colon_from(s.drop_first(), Seq::empty(), acc.push(cur))
    } else {
        split_colon_from(s.drop_first(), cur.push(s[0]), acc)
    }
}

/// The colon-separated segments of the search-path variable's value.  An
/// empty value has one empty segment.
pub open spec fn split_colon_spec(s: Seq<char>) -> Seq<Seq<char>> {
    split_colon_from(s, Seq::empty(), Seq::empty())
}

/// Splits the search-path variable's value on colons, keeping empty
/// segments.
pub fn split_paths(s: &str) -> (r: Vec<String>)
    ensures
        views(r@) == split_colon_spec(s@),
{
    let n = s.unicode_len();
    let mut i: usize = 0;
    let mut cur = String::new();
    let mut segments: Vec<String> = Vec::new();
    proof {
        assert(s@.skip(0) =~= s@);
        assert(views(segments@) =~= Seq::<Seq<char>>::empty());
    }
    while i < n
        invariant
            n == s@.len(),
            i <= n,
            split_colon_from(s@.skip(i as int), cur@, views(segments@)) == split_colon_spec(s@),
        decreases n - i,
    {
        let ghost s_i = s@.skip(i as int);
        proof {
            assert(s_i[0] == s@[i as int]);
            assert(s_i.drop_first() =~= s@.skip(i as int + 1));
        }
        let c = s.get_char(i);
        if c == ':' {
            proof {
                lemma_views_push(segments@, cur);
            }
            segments.push(cur);
            cur = String::new();
        } else {
            push_char(&mut cur, c);
        }
        i = i + 1;
    }
    proof {
        assert(s@.skip(n as int) =~= Seq::<char>::empty());
        lemma_views_push(segments@, cur);
    }
    segments.push(cur);
    segments
}

/// The file name under which a resolved path's command is started: the
/// part of the path after its last `/`, and the whole path when it has
/// none.
pub open spec fn base_name_spec(p: Seq<char>) -> Seq<char>
    decreases p.len(),
{
    if p.len() == 0 {
        p
    } else if p.last() == '/' {
        Seq::empty()
    } else {
        base_name_spec(p.drop_last()).push(p.last())
    }
}

proof fn lemma_base_name_subrange(p: Seq<char>, start: int)
    requires
        0 <= start <= p.len(),
        forall|j: int| start <= j < p.len() ==> p[j] != '/',
        start > 0 ==> p[start - 1] == '/',
    ensures
        base_name_spec(p) == p.subrange(start, p.len() as int),
    decreases p.len(),
{
    if p.len() == 0 {
        assert(p.subrange(0, 0) =~= p);
    } else if start == p.len() {
        assert(p.last() == '/');
        assert(p.subrange(start, p.len() as int) =~= Seq::<char>::empty());
    } else {
        assert(p.last() != '/');
        lemma_base_name_subrange(p.drop_last(), start);
        assert(p.drop_last().subrange(start, p.len() - 1) =~= p.subrange(start, p.len() - 1));
        assert(p.subrange(start, p.len() - 1).push(p.last()) =~= p.subrange(
            start,
            p.len() as int,
        ));
    }
}

/// The part of the path after its last `/`: the name a spawned command is
/// given as its own.
pub fn base_name(p: &str) -> (r: String)
    ensures
        r@ == base_name_spec(p@),
{
    let n = p.unicode_len();
    let mut start = n;
    while start > 0
        invariant
            n == p@.len(),
            start <= n,
            forall|j: int| start <= j < n ==> p@[j] != '/',
        ensures
            start <= n,
            forall|j: int| start <= j < n ==> p@[j] != '/',
            start > 0 ==> p@[start - 1] == '/',
        decreases start,
    {
        if p.get_char(start - 1) == '/' {
            break ;
        }
        start = start - 1;
    }
    proof {
        lemma_base_name_subrange(p@, start as int);
    }
    String::from_str(p.substring_char(start, n))
}

} // verus!
