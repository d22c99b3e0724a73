//! Small text helpers: building strings a character at a time, and
//! substring search.

use vstd::prelude::*;

verus! {

use vstd::string::StrSliceExecFns;

/// Relies on `String::push`: appends one character.
#[verifier::external_body]
pub(crate) fn string_push(s: &mut String, c: char)
    ensures
        final(s)@ == old(s)@.push(c),
{
    s.push(c);
}

/// Whether the needle occurs in the haystack starting at position `i`.
pub open spec fn is_substring_at(hay: Seq<char>, needle: Seq<char>, i: int) -> bool {
    hay.subrange(i, i + needle.len()) == needle
}

/// Whether the needle occurs anywhere in the haystack.
pub open spec fn contains_seq(hay: Seq<char>, needle: Seq<char>) -> bool {
    exists|i: int| 0 <= i <= hay.len() - needle.len() && is_substring_at(hay, needle, i)
}

/// Whether `needle` occurs as a substring of `hay`.
pub fn contains_substring(hay: &str, needle: &str) -> (r: bool)
    ensures
        r == contains_seq(hay@, needle@),
{
    let n: usize = hay.unicode_len();
    let m: usize = needle.unicode_len();
    if m > n {
        return false;
    }
    let mut i: usize = 0;
    while i <= n - m
        invariant
            n == hay@.len(),
            m == needle@.len(),
            m <= n,
            0 <= i <= n - m + 1,
            forall|k: int| 0 <= k < i ==> !is_substring_at(hay@, needle@, k),
        decreases n - m - i + 1,
    {
        let mut j: usize = 0;
        let mut matched: bool = true;
        proof {
            assert(hay@.subrange(i as int, i as int) =~= needle@.take(0));
        }
        while j < m
            invariant
                n == hay@.len(),
                m == needle@.len(),
                i + m <= n,
                0 <= j <= m,
                matched == (hay@.subrange(i as int, i + j) == needle@.take(j as int)),
            decreases m - j,
        {
            let ghost old_matched = matched;
            let hc: char = hay.get_char(i + j);
            let nc: char = needle.get_char(j);
            if hc != nc {
                matched = false;
                proof {
                    assert(hay@.subrange(i as int, i + j + 1)[j as int] != needle@.take(j + 1)[
                        j as int
                    ]);
                }
            } else {
                proof {
                    if old_matched {
                        assert(hay@.subrange(i as int, i + j + 1) =~= needle@.take(j + 1));
                    } else {
                        assert(hay@.subrange(i as int, i + j) != needle@.take(j as int));
                        assert(hay@.subrange(i as int, i + j + 1).take(j as int) =~= hay@.subrange(
                            i as int,
                            i + j,
                        ));
                        assert(needle@.take(j + 1).take(j as int) =~= needle@.take(j as int));
                        assert(hay@.subrange(i as int, i + j + 1) != needle@.take(j + 1));
                    }
                }
            }
            j = j + 1;
        }
        if matched {
            proof {
                assert(needle@.take(m as int) =~= needle@);
                assert(is_substring_at(hay@, needle@, i as int));
            }
            return true;
        }
        proof {
            assert(needle@.take(m as int) =~= needle@);
            assert(i + 1 <= n);
        }
        i = i + 1;
    }
    false
}

/// Whether a character is a directory separator.
pub open spec fn is_sep_char(c: char) -> bool {
    c == '/' || c == '\\'
}

/// The final component of a path: the longest suffix holding no separator.
pub open spec fn final_component_chars(p: Seq<char>) -> Seq<char>
    decreases p.len(),
{
    if p.len() == 0 {
        Seq::empty()
    } else if is_sep_char(p.last()) {
        Seq::empty()
    } else {
        final_component_chars(p.drop_last()).push(p.last())
    }
}

/// The final component is the suffix after the last separator.
pub proof fn lemma_final_component_chars_suffix(p: Seq<char>, start: int)
    requires
        0 <= start <= p.len(),
        forall|j: int| start <= j < p.len() ==> !is_sep_char(#[trigger] p[j]),
        start > 0 ==> is_sep_char(p[start - 1]),
    ensures
        final_component_chars(p) == p.skip(start),
    decreases p.len(),
{
    if p.len() == 0 {
        assert(p.skip(start) =~= Seq::<char>::empty());
    } else if start == p.len() {
        assert(is_sep_char(p.last()));
        assert(p.skip(start) =~= Seq::<char>::empty());
    } else {
        assert(!is_sep_char(p.last()));
        assert forall|j: int| start <= j < p.drop_last().len() implies !is_sep_char(
            #[trigger] p.drop_last()[j],
        ) by {
            assert(p.drop_last()[j] == p[j]);
        }
        lemma_final_component_chars_suffix(p.drop_last(), start);
        assert(p.drop_last().skip(start).push(p.last()) =~= p.skip(start));
    }
}

} // verus!
