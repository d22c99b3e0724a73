//! Dictionaries: external word lists of plaintext virtual paths.
//!
//! The archive format is lossy — entries are addressed by hash only — so a
//! dictionary of candidate paths is maintained separately. A dictionary is
//! plain text, one virtual path per line; blank lines and comment lines
//! (starting with `#`) are ignored. Callers may supply a custom dictionary
//! with the same line format.

use vstd::prelude::*;

use crate::strings::string_push;

verus! {

broadcast use vstd::string::group_string_axioms;

use vstd::std_specs::iter::IteratorSpec;

/// The position of the first line feed, or the text's length when none.
pub open spec fn first_newline(s: Seq<char>) -> nat
    decreases s.len(),
{
    if s.len() == 0 {
        0
    } else if s[0] == '\n' {
        0
    } else {
        1 + first_newline(s.drop_first())
    }
}

/// The first line of the text: everything before the first line feed, with
/// a carriage return before the line feed dropped.
pub open spec fn line_at(s: Seq<char>) -> Seq<char> {
    let i = first_newline(s) as int;
    if i < s.len() && i > 0 && s[i - 1] == '\r' {
        s.take(i - 1)
    } else {
        s.take(i)
    }
}

/// The text split into lines at line feeds, with a carriage return before
/// each line feed dropped; the final line needs no trailing line feed.
pub open spec fn split_lines(s: Seq<char>) -> Seq<Seq<char>>
    decreases s.len(),
{
    if s.len() == 0 {
        Seq::empty()
    } else {
        let i = first_newline(s) as int;
        if i >= s.len() {
            seq![line_at(s)]
        } else {
            seq![line_at(s)] + split_lines(s.skip(i + 1))
        }
    }
}

/// Whether a dictionary line names a candidate path: blank lines and
/// comment lines are ignored.
pub open spec fn keep_line(l: Seq<char>) -> bool {
    l.len() > 0 && l[0] != '#'
}

/// The candidate lines among the given lines, in order.
pub open spec fn filter_keep(ls: Seq<Seq<char>>) -> Seq<Seq<char>> {
    ls.filter(|l: Seq<char>| keep_line(l))
}

/// The candidate paths of a dictionary's text, in order.
pub open spec fn dictionary_lines(s: Seq<char>) -> Seq<Seq<char>> {
    filter_keep(split_lines(s))
}

/// The first line feed is the first position carrying one.
proof fn lemma_first_newline_at(u: Seq<char>, k: int)
    requires
        0 <= k <= u.len(),
        forall|j: int| 0 <= j < k ==> u[j] != '\n',
        k < u.len() ==> u[k] == '\n',
    ensures
        k < u.len() ==> first_newline(u) == k,
        k == u.len() ==> first_newline(u) == u.len(),
    decreases k,
{
    if u.len() > 0 && k > 0 {
        assert forall|j: int| 0 <= j < k - 1 implies u.drop_first()[j] != '\n' by {
            assert(u.drop_first()[j] == u[j + 1]);
        }
        lemma_first_newline_at(u.drop_first(), k - 1);
    }
}

/// Filtering keeps a leading line exactly when it is a candidate.
proof fn lemma_filter_keep_one(line: Seq<char>, rest: Seq<Seq<char>>)
    ensures
        filter_keep(seq![line] + rest) == (if keep_line(line) {
            seq![line]
        } else {
            Seq::<Seq<char>>::empty()
        }) + filter_keep(rest),
    decreases rest.len(),
{
    reveal(Seq::filter);
    let target = (if keep_line(line) {
        seq![line]
    } else {
        Seq::<Seq<char>>::empty()
    }) + filter_keep(rest);
    if rest.len() == 0 {
        assert((seq![line] + rest) =~= seq![line]);
        assert(seq![line].drop_last() =~= Seq::<Seq<char>>::empty());
        assert(filter_keep(seq![line] + rest) =~= target);
    } else {
        let whole = seq![line] + rest;
        assert(whole.drop_last() =~= seq![line] + rest.drop_last());
        assert(whole.last() == rest.last());
        lemma_filter_keep_one(line, rest.drop_last());
        assert(filter_keep(whole) =~= target);
    }
}

/// The empty list filters to the empty list.
proof fn lemma_filter_keep_empty()
    ensures
        filter_keep(Seq::<Seq<char>>::empty()) == Seq::<Seq<char>>::empty(),
{
    reveal(Seq::filter);
}

/// Read a dictionary's text into its candidate paths: one virtual path per
/// line, blank and comment lines ignored. Exposed so custom dictionaries
/// can be used.
pub fn dictionary(data_file_contents: &str) -> (r: Vec<String>)
    ensures
        r.deep_view() == dictionary_lines(data_file_contents@),
{
    let ghost s = data_file_contents@;
    let n: usize = data_file_contents.unicode_len();
    let mut it = data_file_contents.chars();
    let mut out: Vec<String> = Vec::new();
    let mut cur: String = String::new();
    let mut pending_cr: bool = false;
    let mut i: usize = 0;
    let ghost mut pos: int = 0;
    let ghost mut line_start: int = 0;
    proof {
        assert(s.skip(0) =~= s);
        assert(out.deep_view() =~= Seq::<Seq<char>>::empty());
        assert(dictionary_lines(s) =~= out.deep_view() + dictionary_lines(s.skip(0)));
    }
    while i < n
        invariant
            n == s.len(),
            i == pos,
            0 <= line_start <= pos <= s.len(),
            IteratorSpec::remaining(&it) == s.skip(pos),
            forall|j: int| line_start <= j < pos ==> s[j] != '\n',
            pending_cr ==> pos > line_start && s[pos - 1] == '\r' && cur@ == s.subrange(
                line_start,
                pos - 1,
            ),
            !pending_cr ==> cur@ == s.subrange(line_start, pos),
            !pending_cr && pos > line_start ==> s[pos - 1] != '\r',
            dictionary_lines(s) == out.deep_view() + dictionary_lines(s.skip(line_start)),
        decreases s.len() - pos,
    {
        let c: Option<char> = it.next();
        match c {
            Some(ch) => {
                proof {
                    assert(s.skip(pos).len() > 0);
                    assert(s.skip(pos)[0] == s[pos]);
                    assert(s.skip(pos).drop_first() =~= s.skip(pos + 1));
                    assert(ch == s[pos]);
                }
                if ch == '\n' {
                    proof {
                        let u = s.skip(line_start);
                        let k = pos - line_start;
                        assert forall|j: int| 0 <= j < k implies u[j] != '\n' by {
                            assert(u[j] == s[line_start + j]);
                        }
                        assert(u[k] == s[pos]);
                        lemma_first_newline_at(u, k);
                        if pending_cr {
                            assert(u[k - 1] == s[pos - 1]);
                            assert(u.take(k - 1) =~= s.subrange(line_start, pos - 1));
                            assert(line_at(u) == cur@);
                        } else {
                            assert(u.take(k) =~= s.subrange(line_start, pos));
                            assert(line_at(u) == cur@);
                        }
                        assert(u.skip(k + 1) =~= s.skip(pos + 1));
                        assert(split_lines(u) == seq![line_at(u)] + split_lines(s.skip(pos + 1)));
                        lemma_filter_keep_one(line_at(u), split_lines(s.skip(pos + 1)));
                    }
                    let keep: bool = if cur.as_str().is_empty() {
                        false
                    } else {
                        let c0: char = cur.as_str().get_char(0);
                        c0 != '#'
                    };
                    let ghost old_out = out.deep_view();
                    let ghost line = cur@;
                    if keep {
                        out.push(cur);
                        cur = String::new();
                        proof {
                            assert(out.deep_view() =~= old_out.push(line));
                            assert(old_out.push(line) =~= old_out + seq![line]);
                        }
                    } else {
                        cur = String::new();
                    }
                    pending_cr = false;
                    proof {
                        pos = pos + 1;
                        line_start = pos;
                        assert(dictionary_lines(s) == out.deep_view() + dictionary_lines(
                            s.skip(line_start),
                        ));
                    }
                } else if ch == '\r' {
                    if pending_cr {
                        string_push(&mut cur, '\r');
                        proof {
                            assert(cur@ =~= s.subrange(line_start, pos));
                        }
                    }
                    pending_cr = true;
                    proof {
                        pos = pos + 1;
                        assert(cur@ =~= s.subrange(line_start, pos - 1));
                    }
                } else {
                    if pending_cr {
                        string_push(&mut cur, '\r');
                        pending_cr = false;
                        proof {
                            assert(cur@ =~= s.subrange(line_start, pos));
                        }
                    }
                    string_push(&mut cur, ch);
                    proof {
                        pos = pos + 1;
                        assert(cur@ =~= s.subrange(line_start, pos));
                    }
                }
            },
            None => {
                proof {
                    assert(s.skip(pos).len() > 0);
                    assert(false);
                }
            },
        }
        i = i + 1;
        proof {
            assert(i == pos);
        }
    }
    proof {
        let u = s.skip(line_start);
        let k = s.len() - line_start;
        assert forall|j: int| 0 <= j < k implies u[j] != '\n' by {
            assert(u[j] == s[line_start + j]);
        }
        lemma_first_newline_at(u, k);
    }
    if pending_cr {
        string_push(&mut cur, '\r');
        proof {
            assert(cur@ =~= s.subrange(line_start, s.len() as int));
        }
    }
    if !cur.as_str().is_empty() {
        proof {
            let u = s.skip(line_start);
            assert(u =~= s.subrange(line_start, s.len() as int));
            assert(u.len() > 0);
            assert(u.take(u.len() as int) =~= u);
            assert(line_at(u) == u);
            assert(line_at(u) == cur@);
            assert(split_lines(u) == seq![line_at(u)]);
            assert(seq![line_at(u)] =~= seq![line_at(u)] + Seq::<Seq<char>>::empty());
            lemma_filter_keep_one(line_at(u), Seq::<Seq<char>>::empty());
            lemma_filter_keep_empty();
        }
        let keep: bool = {
            let c0: char = cur.as_str().get_char(0);
            c0 != '#'
        };
        let ghost old_out = out.deep_view();
        let ghost line = cur@;
        if keep {
            out.push(cur);
            proof {
                assert(out.deep_view() =~= old_out.push(line));
                assert(old_out.push(line) =~= old_out + seq![line]);
            }
        }
        proof {
            assert(dictionary_lines(s) =~= out.deep_view());
        }
    } else {
        proof {
            let u = s.skip(line_start);
            assert(u =~= s.subrange(line_start, s.len() as int));
            assert(u.len() == 0);
            assert(u =~= Seq::<char>::empty());
            lemma_filter_keep_empty();
            assert(dictionary_lines(s) =~= out.deep_view());
        }
    }
    out
}

} // verus!
