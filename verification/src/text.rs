//! Character-level helpers that the renderers share.

use vstd::prelude::*;
use vstd::std_specs::iter::IteratorSpec;

verus! {

/// `String::push` appends one character to the end of the string.
pub assume_specification[ String::push ](s: &mut String, c: char)
    ensures
        final(s)@ == old(s)@.push(c),
;

/// A space, tab, line feed, form feed or carriage return.
pub open spec fn is_blank(c: char) -> bool {
    c == ' ' || c == '\t' || c == '\n' || c == '\u{c}' || c == '\r'
}

/// A curly brace, as written around a type.
pub open spec fn is_brace(c: char) -> bool {
    c == '{' || c == '}'
}

/// `s` with every curly brace taken out.
pub open spec fn without_braces(s: Seq<char>) -> Seq<char> {
    s.filter(|c: char| !is_brace(c))
}

/// The first index at or after `from` that holds a blank, or the length of `s`
/// where none follows.
pub open spec fn word_end(s: Seq<char>, from: int) -> int
    decreases s.len() - from,
{
    if from < 0 || from >= s.len() || is_blank(s[from]) {
        from
    } else {
        word_end(s, from + 1)
    }
}

/// The first index at or after `from` that holds no blank, or the length of `s`
/// where only blanks follow.
pub open spec fn blank_end(s: Seq<char>, from: int) -> int
    decreases s.len() - from,
{
    if from < 0 || from >= s.len() || !is_blank(s[from]) {
        from
    } else {
        blank_end(s, from + 1)
    }
}

/// `word_end` stops on the first blank: nothing before it is blank, and it is
/// the end of `s` or a blank itself.
pub proof fn word_end_is_first_blank(s: Seq<char>, from: int)
    requires
        0 <= from <= s.len(),
    ensures
        from <= word_end(s, from) <= s.len(),
        forall|i: int| from <= i < word_end(s, from) ==> !is_blank(#[trigger] s[i]),
        word_end(s, from) < s.len() ==> is_blank(s[word_end(s, from)]),
    decreases s.len() - from,
{
    if from < s.len() && !is_blank(s[from]) {
        word_end_is_first_blank(s, from + 1);
    }
}

/// `blank_end` stops on the first character that is no blank.
pub proof fn blank_end_is_first_other(s: Seq<char>, from: int)
    requires
        0 <= from <= s.len(),
    ensures
        from <= blank_end(s, from) <= s.len(),
        forall|i: int| from <= i < blank_end(s, from) ==> is_blank(#[trigger] s[i]),
        blank_end(s, from) < s.len() ==> !is_blank(s[blank_end(s, from)]),
    decreases s.len() - from,
{
    if from < s.len() && is_blank(s[from]) {
        blank_end_is_first_other(s, from + 1);
    }
}

/// The characters of `s`, in order.
pub fn chars_of(s: &str) -> (out: Vec<char>)
    ensures
        out@ == s@,
{
    let mut out: Vec<char> = Vec::new();
    let mut it = s.chars();
    loop
        invariant
            out@ + it.remaining() == s@,
            it.obeys_prophetic_iter_laws(),
            it.decrease() is Some,
        ensures
            out@ == s@,
        decreases it.decrease()->0,
    {
        match it.next() {
            Some(c) => {
                out.push(c);
            },
            None => {
                assert(out@ =~= s@);
                break;
            },
        }
    }
    out
}

/// Whether `c` is a blank.
pub fn blank(c: char) -> (b: bool)
    ensures
        b == is_blank(c),
{
    c == ' ' || c == '\t' || c == '\n' || c == '\u{c}' || c == '\r'
}

/// The index where the word that starts at `from` ends.
pub fn find_word_end(s: &Vec<char>, from: usize) -> (end: usize)
    requires
        from <= s.len(),
    ensures
        end == word_end(s@, from as int),
        from <= end <= s.len(),
{
    let mut i: usize = from;
    while i < s.len() && !blank(s[i])
        invariant
            from <= i <= s.len(),
            word_end(s@, i as int) == word_end(s@, from as int),
        decreases s.len() - i,
    {
        i += 1;
    }
    i
}

/// The index where the run of blanks that starts at `from` ends.
pub fn find_blank_end(s: &Vec<char>, from: usize) -> (end: usize)
    requires
        from <= s.len(),
    ensures
        end == blank_end(s@, from as int),
        from <= end <= s.len(),
{
    let mut i: usize = from;
    while i < s.len() && blank(s[i])
        invariant
            from <= i <= s.len(),
            blank_end(s@, i as int) == blank_end(s@, from as int),
        decreases s.len() - i,
    {
        i += 1;
    }
    i
}

/// Appends the characters of `s` from `from` up to `to` to `out`.
pub fn push_range(out: &mut String, s: &Vec<char>, from: usize, to: usize)
    requires
        from <= to <= s.len(),
    ensures
        final(out)@ == old(out)@ + s@.subrange(from as int, to as int),
{
    let mut i: usize = from;
    while i < to
        invariant
            from <= i <= to <= s.len(),
            out@ == old(out)@ + s@.subrange(from as int, i as int),
        decreases to - i,
    {
        out.push(s[i]);
        i += 1;
        assert(out@ =~= old(out)@ + s@.subrange(from as int, i as int));
    }
}

/// Appends `s` to `out`, leaving out its curly braces.
pub fn push_without_braces(out: &mut String, s: &str)
    ensures
        final(out)@ == old(out)@ + without_braces(s@),
{
    let chars = chars_of(s);
    let ghost keep = |c: char| !is_brace(c);
    let mut i: usize = 0;
    proof {
        reveal(Seq::filter);
        assert(chars@.take(0).filter(keep) =~= Seq::<char>::empty());
        assert(out@ =~= old(out)@ + chars@.take(0).filter(keep));
    }
    while i < chars.len()
        invariant
            i <= chars.len(),
            keep == |c: char| !is_brace(c),
            out@ == old(out)@ + chars@.take(i as int).filter(keep),
        decreases chars.len() - i,
    {
        let c = chars[i];
        proof {
            reveal(Seq::filter);
            assert(chars@.take(i + 1).drop_last() =~= chars@.take(i as int));
        }
        if c != '{' && c != '}' {
            out.push(c);
        }
        i += 1;
        assert(out@ =~= old(out)@ + chars@.take(i as int).filter(keep));
    }
    assert(chars@.take(i as int) =~= s@);
}

} // verus!
