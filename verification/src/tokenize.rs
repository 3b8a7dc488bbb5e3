//! The tokenizer: one raw input line becomes an ordered sequence of words.
//!
//! The line is scanned character by character, left to right, under two
//! quote flags and the escaping rules below, in priority order:
//!
//! 1. a line-break character (`'\n'` or `'\r'`) is skipped and never
//!    contributes to output;
//! 2. an apostrophe outside double quotes toggles single-quote state and
//!    contributes nothing; between apostrophes everything is copied
//!    verbatim;
//! 3. a double quote outside single quotes toggles double-quote state and
//!    contributes nothing;
//! 4. a backslash outside quotes makes the following character literal and
//!    is itself dropped (a trailing backslash escapes nothing and is
//!    dropped); inside double quotes it escapes only `\`, `$` and `"`, and
//!    otherwise stays a literal backslash;
//! 5. a space outside quotes ends the current word; an empty word is not
//!    emitted;
//! 6. any other character joins the current word.
//!
//! Unterminated quotes are closed silently at the end of the input.

use vstd::prelude::*;

use crate::strutil::lemma_views_push;
use crate::strutil::push_char;
use crate::strutil::views;

verus! {

/// The words of the whole line, given that `s` is the input that remains,
/// the quote flags are as given, `cur` is the word collected so far and
/// `acc` holds the words already finished.
pub open spec fn tokenize_from(
    s: Seq<char>,
    in_single: bool,
    in_double: bool,
    cur: Seq<char>,
    acc: Seq<Seq<char>>,
) -> Seq<Seq<char>>
    decreases s.len(),
{
    if s.len() == 0 {
        if cur.len() > 0 {
            acc.push(cur)
        } else {
            acc
        }
    } else {
        let c = s[0];
        let rest = s.drop_first();
        if c == '\n' || c == '\r' {
            tokenize_from(rest, in_single, in_double, cur, acc)
        } else if c == '\'' && !in_double {
            tokenize_from(rest, !in_single, in_double, cur, acc)
        } else if c == '"' && !in_single {
            tokenize_from(rest, in_single, !in_double, cur, acc)
        } else if c == '\\' && !in_single && !in_double {
            if rest.len() == 0 {
                tokenize_from(rest, in_single, in_double, cur, acc)
            } else {
                tokenize_from(rest.drop_first(), in_single, in_double, cur.push(rest[0]), acc)
            }
        } else if c == '\\' && in_double {
            if rest.len() > 0 && (rest[0] == '\\' || rest[0] == '$' || rest[0] == '"') {
                tokenize_from(rest.drop_first(), in_single, in_double, cur.push(rest[0]), acc)
            } else {
                tokenize_from(rest, in_single, in_double, cur.push('\\'), acc)
            }
        } else if c == ' ' && !in_single && !in_double {
            if cur.len() > 0 {
                tokenize_from(rest, in_single, in_double, Seq::empty(), acc.push(cur))
            } else {
                tokenize_from(rest, in_single, in_double, cur, acc)
            }
        } else {
            tokenize_from(rest, in_single, in_double, cur.push(c), acc)
        }
    }
}

/// The sequence of words that the line `s` tokenizes to.
pub open spec fn tokenize_spec(s: Seq<char>) -> Seq<Seq<char>> {
    tokenize_from(s, false, false, Seq::empty(), Seq::empty())
}

proof fn lemma_tokenize_from_nonempty(
    s: Seq<char>,
    in_single: bool,
    in_double: bool,
    cur: Seq<char>,
    acc: Seq<Seq<char>>,
)
    requires
        forall|i: int| 0 <= i < acc.len() ==> acc[i].len() > 0,
    ensures
        forall|i: int|
            0 <= i < tokenize_from(s, in_single, in_double, cur, acc).len()
                ==> tokenize_from(s, in_single, in_double, cur, acc)[i].len() > 0,
    decreases s.len(),
{
    let result = tokenize_from(s, in_single, in_double, cur, acc);
    if s.len() == 0 {
        if cur.len() > 0 {
            assert(result == acc.push(cur));
            assert forall|i: int| 0 <= i < result.len() implies result[i].len() > 0 by {
                if i < acc.len() {
                    assert(result[i] == acc[i]);
                } else {
                    assert(result[i] == cur);
                }
            }
        }
    } else {
        let c = s[0];
        let rest = s.drop_first();
        if c == '\n' || c == '\r' {
            lemma_tokenize_from_nonempty(rest, in_single, in_double, cur, acc);
            assert(result == tokenize_from(rest, in_single, in_double, cur, acc));
        } else if c == '\'' && !in_double {
            lemma_tokenize_from_nonempty(rest, !in_single, in_double, cur, acc);
            assert(result == tokenize_from(rest, !in_single, in_double, cur, acc));
        } else if c == '"' && !in_single {
            lemma_tokenize_from_nonempty(rest, in_single, !in_double, cur, acc);
            assert(result == tokenize_from(rest, in_single, !in_double, cur, acc));
        } else if c == '\\' && !in_single && !in_double {
            if rest.len() == 0 {
                lemma_tokenize_from_nonempty(rest, in_single, in_double, cur, acc);
                assert(result == tokenize_from(rest, in_single, in_double, cur, acc));
            } else {
                lemma_tokenize_from_nonempty(
                    rest.drop_first(),
                    in_single,
                    in_double,
                    cur.push(rest[0]),
                    acc,
                );
                assert(result == tokenize_from(
                    rest.drop_first(),
                    in_single,
                    in_double,
                    cur.push(rest[0]),
                    acc,
                ));
            }
        } else if c == '\\' && in_double {
            if rest.len() > 0 && (rest[0] == '\\' || rest[0] == '$' || rest[0] == '"') {
                lemma_tokenize_from_nonempty(
                    rest.drop_first(),
                    in_single,
                    in_double,
                    cur.push(rest[0]),
                    acc,
                );
                assert(result == tokenize_from(
                    rest.drop_first(),
                    in_single,
                    in_double,
                    cur.push(rest[0]),
                    acc,
                ));
            } else {
                lemma_tokenize_from_nonempty(rest, in_single, in_double, cur.push('\\'), acc);
                assert(result == tokenize_from(rest, in_single, in_double, cur.push('\\'), acc));
            }
        } else if c == ' ' && !in_single && !in_double {
            if cur.len() > 0 {
                assert forall|i: int| 0 <= i < acc.push(cur).len() implies acc.push(
                    cur,
                )[i].len() > 0 by {
                    if i < acc.len() {
                        assert(acc.push(cur)[i] == acc[i]);
                    } else {
                        assert(acc.push(cur)[i] == cur);
                    }
                }
                lemma_tokenize_from_nonempty(rest, in_single, in_double, Seq::empty(), acc.push(cur));
                assert(result == tokenize_from(rest, in_single, in_double, Seq::empty(), acc.push(cur)));
            } else {
                lemma_tokenize_from_nonempty(rest, in_single, in_double, cur, acc);
                assert(result == tokenize_from(rest, in_single, in_double, cur, acc));
            }
        } else {
            lemma_tokenize_from_nonempty(rest, in_single, in_double, cur.push(c), acc);
            assert(result == tokenize_from(rest, in_single, in_double, cur.push(c), acc));
        }
    }
}

/// No word that tokenizing yields is the empty string: whitespace outside
/// quotes only separates, and empty words are dropped.
pub proof fn lemma_tokens_nonempty(s: Seq<char>)
    ensures
        forall|i: int| 0 <= i < tokenize_spec(s).len() ==> tokenize_spec(s)[i].len() > 0,
{
    lemma_tokenize_from_nonempty(s, false, false, Seq::empty(), Seq::empty());
}

/// Splits one raw input line into its words, applying the quoting and
/// escaping rules described at the top of this module.
pub fn escape_quotes(input: &str) -> (tokens: Vec<String>)
    ensures
        views(tokens@) == tokenize_spec(input@),
        forall|i: int| 0 <= i < tokens@.len() ==> tokens@[i]@.len() > 0,
{
    let n = input.unicode_len();
    let mut i: usize = 0;
    let mut in_single = false;
    let mut in_double = false;
    let mut cur = String::new();
    let mut tokens: Vec<String> = Vec::new();
    proof {
        assert(input@.skip(0) =~= input@);
        assert(views(tokens@) =~= Seq::<Seq<char>>::empty());
    }
    while i < n
        invariant
            n == input@.len(),
            i <= n,
            // entering one kind of quote is possible only outside the other,
            // so the two flags are never set together
            !(in_single && in_double),
            tokenize_from(input@.skip(i as int), in_single, in_double, cur@, views(tokens@))
                == tokenize_spec(input@),
        decreases n - i,
    {
        let ghost s_i = input@.skip(i as int);
        proof {
            assert(s_i.len() == n - i);
            assert(s_i[0] == input@[i as int]);
            assert(s_i.drop_first() =~= input@.skip(i as int + 1));
        }
        let c = input.get_char(i);
        if c == '\n' || c == '\r' {
            i = i + 1;
        } else if c == '\'' && !in_double {
            in_single = !in_single;
            i = i + 1;
        } else if c == '"' && !in_single {
            in_double = !in_double;
            i = i + 1;
        } else if c == '\\' && !in_single && !in_double {
            if i + 1 < n {
                proof {
                    assert(s_i.drop_first()[0] == input@[i + 1]);
                    assert(s_i.drop_first().drop_first() =~= input@.skip(i as int + 2));
                }
                let c2 = input.get_char(i + 1);
                push_char(&mut cur, c2);
                i = i + 2;
            } else {
                i = i + 1;
            }
        } else if c == '\\' && in_double {
            if i + 1 < n {
                proof {
                    assert(s_i.drop_first()[0] == input@[i + 1]);
                    assert(s_i.drop_first().drop_first() =~= input@.skip(i as int + 2));
                }
                let c2 = input.get_char(i + 1);
                if c2 == '\\' || c2 == '$' || c2 == '"' {
                    push_char(&mut cur, c2);
                    i = i + 2;
                } else {
                    push_char(&mut cur, '\\');
                    i = i + 1;
                }
            } else {
                push_char(&mut cur, '\\');
                i = i + 1;
            }
        } else if c == ' ' && !in_single && !in_double {
            if !cur.as_str().is_empty() {
                proof {
                    lemma_views_push(tokens@, cur);
                }
                tokens.push(cur);
                cur = String::new();
            }
            i = i + 1;
        } else {
            push_char(&mut cur, c);
            i = i + 1;
        }
    }
    proof {
        assert(input@.skip(n as int) =~= Seq::<char>::empty());
    }
    if !cur.as_str().is_empty() {
        proof {
            lemma_views_push(tokens@, cur);
        }
        tokens.push(cur);
    }
    proof {
        lemma_tokens_nonempty(input@);
        assert forall|i: int| 0 <= i < tokens@.len() implies tokens@[i]@.len() > 0 by {
            assert(tokens@[i]@ == views(tokens@)[i]);
        }
    }
    tokens
}

} // verus!
