//! Where the files are looked for, and where each document goes.

use vstd::prelude::*;
use crate::text::{chars_of, push_range};

verus! {

/// The pattern that finds the files with the given extension anywhere under
/// `input_dir`.
pub open spec fn search_pattern_text(input_dir: Seq<char>, extension: Seq<char>) -> Seq<char> {
    input_dir + "/**/*."@ + extension
}

/// One past the index of the last `c` among the first `upto` characters of
/// `s`, or 0 where `c` is not among them.
pub open spec fn after_last(s: Seq<char>, c: char, upto: int) -> int
    decreases upto,
{
    if upto <= 0 || upto > s.len() {
        0
    } else if s[upto - 1] == c {
        upto
    } else {
        after_last(s, c, upto - 1)
    }
}

/// `path` with `input_dir` at its start replaced by `output_dir`; `path`
/// itself where it does not start with `input_dir`.
pub open spec fn moved_path(path: Seq<char>, input_dir: Seq<char>, output_dir: Seq<char>) -> Seq<
    char,
> {
    if input_dir.is_prefix_of(path) {
        output_dir + path.skip(input_dir.len() as int)
    } else {
        path
    }
}

/// A file name without its extension: what stands before its last dot. A
/// name without a dot, or with its only dot in front, is kept whole.
pub open spec fn file_stem(name: Seq<char>) -> Seq<char> {
    let dot = after_last(name, '.', name.len() as int);
    if dot <= 1 {
        name
    } else {
        name.take(dot - 1)
    }
}

/// Where the document of the file at `path` is written: the path moved from
/// `input_dir` to `output_dir`, with `.md` in place of the file's extension.
/// A moved path without a directory part is placed directly in
/// `output_dir`.
pub open spec fn output_path_text(
    path: Seq<char>,
    input_dir: Seq<char>,
    output_dir: Seq<char>,
) -> Seq<char> {
    let moved = moved_path(path, input_dir, output_dir);
    let name_start = after_last(moved, '/', moved.len() as int);
    let dir = if name_start > 0 {
        moved.take(name_start - 1)
    } else {
        output_dir
    };
    dir + "/"@ + file_stem(moved.skip(name_start)) + ".md"@
}

/// `after_last` points behind the last `c`: a `c` stands before it, and none
/// between it and `upto`.
pub proof fn after_last_is_last(s: Seq<char>, c: char, upto: int)
    requires
        0 <= upto <= s.len(),
    ensures
        0 <= after_last(s, c, upto) <= upto,
        after_last(s, c, upto) > 0 ==> s[after_last(s, c, upto) - 1] == c,
        forall|i: int| after_last(s, c, upto) <= i < upto ==> #[trigger] s[i] != c,
    decreases upto,
{
    if upto > 0 && s[upto - 1] != c {
        after_last_is_last(s, c, upto - 1);
    }
}

/// The pattern that finds the files with the given extension anywhere under
/// `input_dir`.
pub fn search_pattern(input_dir: &str, extension: &str) -> (pattern: String)
    ensures
        pattern@ == search_pattern_text(input_dir@, extension@),
{
    let mut pattern = String::from_str(input_dir);
    pattern.append("/**/*.");
    pattern.append(extension);
    pattern
}

/// One past the index of the last `c` in `s`, or 0.
fn find_after_last(s: &Vec<char>, c: char) -> (at: usize)
    ensures
        at == after_last(s@, c, s.len() as int),
        at <= s.len(),
{
    let mut i: usize = s.len();
    while i > 0 && s[i - 1] != c
        invariant
            i <= s.len(),
            after_last(s@, c, i as int) == after_last(s@, c, s.len() as int),
        decreases i,
    {
        i -= 1;
    }
    i
}

/// Whether `s` starts with `prefix`.
fn starts_with(s: &Vec<char>, prefix: &Vec<char>) -> (yes: bool)
    ensures
        yes == prefix@.is_prefix_of(s@),
{
    if prefix.len() > s.len() {
        return false;
    }
    let mut i: usize = 0;
    while i < prefix.len()
        invariant
            i <= prefix.len() <= s.len(),
            s@.subrange(0, i as int) == prefix@.subrange(0, i as int),
        decreases prefix.len() - i,
    {
        if s[i] != prefix[i] {
            assert(s@.subrange(0, prefix.len() as int)[i as int] != prefix@[i as int]);
            return false;
        }
        i += 1;
        assert(s@.subrange(0, i as int) =~= s@.subrange(0, i - 1).push(s@[i - 1]));
        assert(prefix@.subrange(0, i as int) =~= prefix@.subrange(0, i - 1).push(prefix@[i - 1]));
    }
    assert(prefix@.subrange(0, i as int) =~= prefix@);
    true
}

/// The characters of `s` from `from` up to `to`.
fn slice_of(s: &Vec<char>, from: usize, to: usize) -> (part: Vec<char>)
    requires
        from <= to <= s.len(),
    ensures
        part@ == s@.subrange(from as int, to as int),
{
    let mut part: Vec<char> = Vec::new();
    let mut i: usize = from;
    while i < to
        invariant
            from <= i <= to <= s.len(),
            part@ == s@.subrange(from as int, i as int),
        decreases to - i,
    {
        part.push(s[i]);
        i += 1;
        assert(part@ =~= s@.subrange(from as int, i as int));
    }
    part
}

/// Where the document of the file at `file_path` is written: `file_path`
/// with `input_dir` at its start replaced by `output_dir`, and `.md` in place
/// of the file's extension. Where that leaves no directory part, the document
/// goes directly into `output_dir`.
pub fn output_path(file_path: &str, input_dir: &str, output_dir: &str) -> (out: String)
    ensures
        out@ == output_path_text(file_path@, input_dir@, output_dir@),
{
    let path = chars_of(file_path);
    let from = chars_of(input_dir);
    let mut moved = chars_of(output_dir);
    if starts_with(&path, &from) {
        let mut tail = slice_of(&path, from.len(), path.len());
        moved.append(&mut tail);
    } else {
        moved = path;
    }
    assert(moved@ =~= moved_path(file_path@, input_dir@, output_dir@));
    let name_start = find_after_last(&moved, '/');
    let name = slice_of(&moved, name_start, moved.len());
    let dot = find_after_last(&name, '.');
    let mut out = String::new();
    if name_start > 0 {
        push_range(&mut out, &moved, 0, name_start - 1);
    } else {
        out.append(output_dir);
    }
    out.append("/");
    if dot <= 1 {
        push_range(&mut out, &name, 0, name.len());
        assert(name@.subrange(0, name.len() as int) =~= name@);
    } else {
        push_range(&mut out, &name, 0, dot - 1);
    }
    out.append(".md");
    out
}

} // verus!
