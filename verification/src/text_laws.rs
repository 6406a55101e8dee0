//! What holds of the text helpers and of what a session remembers.

use vstd::prelude::*;

use crate::state::with_code;
use crate::text::{begins_with, trim_end, trim_start, trimmed, white_space};

verus! {

/// Whether `s` is made of white space alone.
pub open spec fn all_white(s: Seq<char>) -> bool {
    forall|i: int| 0 <= i < s.len() ==> white_space(#[trigger] s[i])
}

proof fn lemma_trim_start(s: Seq<char>) -> (n: int)
    ensures
        0 <= n <= s.len(),
        trim_start(s) == s.skip(n),
        all_white(s.take(n)),
        n < s.len() ==> !white_space(s[n]),
    decreases s.len(),
{
    if s.len() > 0 && white_space(s[0]) {
        let m = lemma_trim_start(s.skip(1));
        assert(s.skip(1).skip(m) =~= s.skip(m + 1));
        assert forall|i: int| 0 <= i < m + 1 implies white_space(#[trigger] s.take(m + 1)[i]) by {
            if i > 0 {
                assert(s.skip(1).take(m)[i - 1] == s[i]);
            }
        }
        if m + 1 < s.len() {
            assert(s.skip(1)[m] == s[m + 1]);
        }
        m + 1
    } else {
        assert(s.skip(0) =~= s);
        0
    }
}

proof fn lemma_trim_end(s: Seq<char>) -> (n: int)
    ensures
        0 <= n <= s.len(),
        trim_end(s) == s.take(n),
        all_white(s.skip(n)),
        n > 0 ==> !white_space(s[n - 1]),
    decreases s.len(),
{
    if s.len() > 0 && white_space(s.last()) {
        let n = lemma_trim_end(s.drop_last());
        assert(s.drop_last().take(n) =~= s.take(n));
        assert forall|i: int| 0 <= i < s.skip(n).len() implies white_space(
            #[trigger] s.skip(n)[i],
        ) by {
            if n + i < s.len() - 1 {
                assert(s.drop_last().skip(n)[i] == s[n + i]);
            }
        }
        n
    } else {
        assert(s.take(s.len() as int) =~= s);
        s.len() as int
    }
}

/// Law: trimming takes away the white space around a text and nothing else: what is left neither
/// begins nor ends with white space, and what was taken away is white space alone.
pub proof fn law_trimming_takes_white_space_alone(s: Seq<char>)
    ensures
        exists|head: Seq<char>, tail: Seq<char>|
            #![trigger all_white(head), all_white(tail)]
            s == head + trimmed(s) + tail && all_white(head) && all_white(tail),
        trimmed(s).len() > 0 ==> !white_space(trimmed(s)[0]) && !white_space(trimmed(s).last()),
        trimmed(s).len() == 0 <==> all_white(s),
{
    let n = lemma_trim_start(s);
    let rest = s.skip(n);
    let m = lemma_trim_end(rest);
    let head = s.take(n);
    let tail = rest.skip(m);
    assert(s =~= head + trimmed(s) + tail);
    assert(all_white(head) && all_white(tail));
    if trimmed(s).len() > 0 {
        assert(trimmed(s)[0] == s[n]);
        assert(trimmed(s).last() == rest[m - 1]);
    }
    if trimmed(s).len() == 0 {
        assert forall|i: int| 0 <= i < s.len() implies white_space(#[trigger] s[i]) by {
            if i < n {
                assert(head[i] == s[i]);
            } else {
                assert(tail[i - n] == s[i]);
            }
        }
    } else {
        assert(!white_space(s[n]));
    }
}

/// Law: the white space around a text makes no difference once the text is trimmed.
pub proof fn law_surrounding_white_space_makes_no_difference(
    head: Seq<char>,
    s: Seq<char>,
    tail: Seq<char>,
)
    requires
        all_white(head),
        all_white(tail),
    ensures
        trimmed(head + s + tail) == trimmed(s),
{
    lemma_leading_white(head, s + tail);
    assert(head + s + tail =~= head + (s + tail));
    let n = lemma_trim_start(s);
    if n < s.len() {
        // The first character that is no white space is the same in both.
        let m = lemma_trim_start(s + tail);
        assert((s + tail)[n] == s[n]);
        if m < n {
            assert(s.take(n)[m] == s[m]);
            assert((s + tail)[m] == s[m]);
        }
        if m > n {
            assert((s + tail).take(m)[n] == s[n]);
        }
        assert((s + tail).skip(n) =~= s.skip(n) + tail);
        lemma_trailing_white(s.skip(n), tail);
    } else {
        assert forall|i: int| 0 <= i < (s + tail).len() implies white_space(
            #[trigger] (s + tail)[i],
        ) by {
            if i < s.len() {
                assert(s.take(n)[i] == s[i]);
            } else {
                assert(tail[i - s.len()] == (s + tail)[i]);
            }
        }
        law_trimming_takes_white_space_alone(s + tail);
        assert(all_white(s)) by {
            assert(s.take(n) =~= s);
        }
        law_trimming_takes_white_space_alone(s);
        assert(trimmed(s + tail) =~= trimmed(s));
    }
}

proof fn lemma_leading_white(head: Seq<char>, s: Seq<char>)
    requires
        all_white(head),
    ensures
        trim_start(head + s) == trim_start(s),
    decreases head.len(),
{
    if head.len() > 0 {
        assert((head + s)[0] == head[0]);
        assert((head + s).skip(1) =~= head.skip(1) + s);
        assert forall|i: int| 0 <= i < head.skip(1).len() implies white_space(
            #[trigger] head.skip(1)[i],
        ) by {
            assert(head.skip(1)[i] == head[i + 1]);
        }
        lemma_leading_white(head.skip(1), s);
    } else {
        assert(head + s =~= s);
    }
}

proof fn lemma_trailing_white(s: Seq<char>, tail: Seq<char>)
    requires
        all_white(tail),
    ensures
        trim_end(s + tail) == trim_end(s),
    decreases tail.len(),
{
    if tail.len() > 0 {
        assert((s + tail).last() == tail[tail.len() - 1]);
        assert((s + tail).drop_last() =~= s + tail.drop_last());
        assert forall|i: int| 0 <= i < tail.drop_last().len() implies white_space(
            #[trigger] tail.drop_last()[i],
        ) by {
            assert(tail.drop_last()[i] == tail[i]);
        }
        lemma_trailing_white(s, tail.drop_last());
    } else {
        assert(s + tail =~= s);
    }
}

/// Law: white space is what Unicode calls so: of ASCII the space and the characters from tab to
/// carriage return, and never a letter, a digit or a character that paths are written with.
pub proof fn law_white_space_is_no_part_of_a_path(c: char)
    ensures
        c < '\u{80}' ==> (white_space(c) <==> c == ' ' || '\u{9}' <= c <= '\u{d}'),
        'a' <= c <= 'z' || 'A' <= c <= 'Z' || '0' <= c <= '9' ==> !white_space(c),
        c == '/' || c == '\\' || c == '.' || c == '~' || c == ':' ==> !white_space(c),
{
}

/// Law: a text begins with another one if and only if it is that one with something behind it.
pub proof fn law_beginnings_can_be_completed(s: Seq<char>, prefix: Seq<char>)
    ensures
        begins_with(s, prefix) <==> exists|rest: Seq<char>| s == #[trigger] (prefix + rest),
{
    if begins_with(s, prefix) {
        assert(s =~= prefix + s.skip(prefix.len() as int));
    }
    if exists|rest: Seq<char>| s == #[trigger] (prefix + rest) {
        let rest = choose|rest: Seq<char>| s == #[trigger] (prefix + rest);
        assert((prefix + rest).take(prefix.len() as int) =~= prefix);
    }
}

/// Law: a code that is noted is there from then on, behind all that were noted before, and noting
/// it once more changes nothing.
pub proof fn law_codes_are_noted_once(list: Seq<Seq<char>>, code: Seq<char>)
    ensures
        with_code(list, code).contains(code),
        list.contains(code) ==> with_code(list, code) == list,
        !list.contains(code) ==> with_code(list, code) == list.push(code),
        with_code(with_code(list, code), code) == with_code(list, code),
        list.no_duplicates() ==> with_code(list, code).no_duplicates(),
{
    if !list.contains(code) {
        assert(list.push(code)[list.len() as int] == code);
    }
}

} // verus!
