//! Character-level text primitives shared by the rest of the crate.
//!
//! Strings are modelled by their view, a `Seq<char>`. Executable code reads a
//! string once into a `Vec<char>`, works on that, and writes the result back.

use vstd::prelude::*;

verus! {

/// `String::push` appends exactly one character at the end.
pub assume_specification[ String::push ](s: &mut String, c: char)
    ensures
        final(s)@ == old(s)@.push(c),
;

/// The characters of `s`, in order.
pub fn chars_of(s: &str) -> (r: Vec<char>)
    ensures
        r@ == s@,
{
    let mut r: Vec<char> = Vec::new();
    for c in it: s.chars()
        invariant
            it.seq() == s@,
            r@ == s@.take(it.index() as int),
    {
        r.push(c);
    }
    r
}

/// The string made of the characters of `v`.
pub fn string_of(v: &[char]) -> (r: String)
    ensures
        r@ == v@,
{
    let mut r = String::new();
    let mut i: usize = 0;
    while i < v.len()
        invariant
            i <= v@.len(),
            r@ == v@.take(i as int),
        decreases v.len() - i,
    {
        r.push(v[i]);
        i += 1;
    }
    r
}

/// A copy of `v[from..to]`.
pub(crate) fn copy_range(v: &[char], from: usize, to: usize) -> (r: Vec<char>)
    requires
        from <= to <= v@.len(),
    ensures
        r@ == v@.subrange(from as int, to as int),
{
    let mut r: Vec<char> = Vec::new();
    let mut i: usize = from;
    while i < to
        invariant
            from <= i <= to <= v@.len(),
            r@ == v@.subrange(from as int, i as int),
        decreases to - i,
    {
        r.push(v[i]);
        i += 1;
    }
    r
}

/// The texts that a vector of character vectors holds.
pub open spec fn rows_of(v: Seq<Vec<char>>) -> Seq<Seq<char>> {
    v.map_values(|row: Vec<char>| row@)
}

/// The texts that a vector of strings holds.
pub open spec fn names_of(v: Seq<String>) -> Seq<Seq<char>> {
    v.map_values(|s: String| s@)
}

/// Appends the characters of `tail` to `out`.
pub fn push_str(out: &mut Vec<char>, tail: &str)
    ensures
        final(out)@ == old(out)@ + tail@,
{
    let chars = chars_of(tail);
    push_all(out, chars.as_slice());
}

/// Appends the characters of `tail` to `out`.
pub fn push_all(out: &mut Vec<char>, tail: &[char])
    ensures
        final(out)@ == old(out)@ + tail@,
{
    let mut i: usize = 0;
    while i < tail.len()
        invariant
            i <= tail@.len(),
            out@ == old(out)@ + tail@.take(i as int),
        decreases tail.len() - i,
    {
        out.push(tail[i]);
        i += 1;
    }
}

/// Tests whether `a` and `b` hold the same characters.
pub fn same_text(a: &[char], b: &str) -> (r: bool)
    ensures
        r == (a@ == b@),
{
    let b = chars_of(b);
    if a.len() != b.len() {
        return false;
    }
    let r = matches_at(a, b.as_slice(), 0);
    assert(a@.subrange(0, a@.len() as int) == a@);
    r
}

/// Whether `pattern` occurs in `text` starting at index `at`.
pub open spec fn occurs_at(text: Seq<char>, pattern: Seq<char>, at: int) -> bool {
    &&& 0 <= at
    &&& at + pattern.len() <= text.len()
    &&& text.subrange(at, at + pattern.len()) == pattern
}

/// `text` with every occurrence of `pattern` replaced by `replacement`.
///
/// Occurrences are found from left to right and do not overlap: after a match
/// the search goes on behind it. An empty pattern occurs nowhere.
pub open spec fn replaced(text: Seq<char>, pattern: Seq<char>, replacement: Seq<char>) -> Seq<
    char,
>
    decreases text.len(),
{
    if pattern.len() == 0 || text.len() < pattern.len() {
        text
    } else if occurs_at(text, pattern, 0) {
        replacement + replaced(text.skip(pattern.len() as int), pattern, replacement)
    } else {
        seq![text[0]] + replaced(text.skip(1), pattern, replacement)
    }
}

/// Tests whether `pattern` occurs in `text` at index `at`.
pub fn matches_at(text: &[char], pattern: &[char], at: usize) -> (r: bool)
    ensures
        r == occurs_at(text@, pattern@, at as int),
{
    if at > text.len() || pattern.len() > text.len() - at {
        return false;
    }
    let mut k: usize = 0;
    while k < pattern.len()
        invariant
            at + pattern.len() <= text.len(),
            k <= pattern.len(),
            forall|j: int| 0 <= j < k ==> text@[at + j] == pattern@[j],
        decreases pattern.len() - k,
    {
        if text[at + k] != pattern[k] {
            return false;
        }
        k += 1;
    }
    assert(text@.subrange(at as int, at + pattern@.len()) =~= pattern@);
    true
}

/// Replaces every occurrence of `pattern` in `text` by `replacement`.
pub fn replace(text: &[char], pattern: &[char], replacement: &[char]) -> (r: Vec<char>)
    ensures
        r@ == replaced(text@, pattern@, replacement@),
{
    let mut out: Vec<char> = Vec::new();
    let mut i: usize = 0;
    assert(text@.skip(0) == text@);
    while i < text.len()
        invariant
            i <= text@.len(),
            replaced(text@, pattern@, replacement@) == out@ + replaced(
                text@.skip(i as int),
                pattern@,
                replacement@,
            ),
        decreases text.len() - i,
    {
        let ghost rest = text@.skip(i as int);
        if pattern.len() > 0 && matches_at(text, pattern, i) {
            assert(rest.subrange(0, pattern@.len() as int) == text@.subrange(
                i as int,
                i + pattern@.len(),
            ));
            assert(rest.skip(pattern@.len() as int) == text@.skip(i + pattern@.len()));
            push_all(&mut out, replacement);
            i += pattern.len();
        } else {
            assert(rest.skip(1) == text@.skip(i + 1));
            assert(replaced(rest, pattern@, replacement@) == seq![rest[0]] + replaced(
                rest.skip(1),
                pattern@,
                replacement@,
            )) by {
                if pattern@.len() > 0 && rest.len() >= pattern@.len() {
                    assert(rest.subrange(0, pattern@.len() as int) == text@.subrange(
                        i as int,
                        i + pattern@.len(),
                    ));
                }
            }
            out.push(text[i]);
            i += 1;
        }
    }
    out
}

/// `path` with each doubled separator collapsed into one, in a single pass
/// from left to right: of three separators in a row, two are left.
pub open spec fn collapsed(path: Seq<char>) -> Seq<char> {
    replaced(path, seq!['/', '/'], seq!['/'])
}

/// Collapses each doubled separator of `path` into one.
pub fn collapse(path: &[char]) -> (r: Vec<char>)
    ensures
        r@ == collapsed(path@),
{
    let doubled: Vec<char> = vec!['/', '/'];
    let single: Vec<char> = vec!['/'];
    assert(single@ == seq!['/']);
    replace(path, doubled.as_slice(), single.as_slice())
}

/// Tests whether `text` ends with `suffix`.
pub fn ends_with(text: &[char], suffix: &[char]) -> (r: bool)
    ensures
        r == suffix@.is_suffix_of(text@),
{
    if suffix.len() > text.len() {
        return false;
    }
    let r = matches_at(text, suffix, text.len() - suffix.len());
    r
}

/// Whether `path` neither is empty nor ends with a separator.
pub open spec fn ends_in_name(path: Seq<char>) -> bool {
    path.len() > 0 && path.last() != '/'
}

/// Whether `path` neither is empty nor starts with a separator.
pub open spec fn starts_with_name(path: Seq<char>) -> bool {
    path.len() > 0 && path[0] != '/'
}

/// A separator between two parts of a path, single or doubled.
pub open spec fn separator(doubled: bool) -> Seq<char> {
    if doubled {
        seq!['/', '/']
    } else {
        seq!['/']
    }
}

/// Where one or two separators stand between a part that does not end with
/// one and a part that does not start with one, the parts are collapsed each
/// for itself and joined by a single separator.
pub proof fn lemma_collapsed_at_separator(head: Seq<char>, doubled: bool, tail: Seq<char>)
    requires
        head.len() == 0 || ends_in_name(head),
        tail.len() == 0 || starts_with_name(tail),
    ensures
        collapsed(head + separator(doubled) + tail) == collapsed(head).push('/') + collapsed(tail),
    decreases head.len(),
{
    let pattern = seq!['/', '/'];
    let whole = head + separator(doubled) + tail;
    if head.len() == 0 {
        if doubled {
            assert(whole.subrange(0, 2) == pattern);
            assert(whole.skip(2) == tail);
        } else if tail.len() > 0 {
            assert(whole.skip(1) == tail);
        }
    } else if head.len() >= 2 && occurs_at(head, pattern, 0) {
        let rest = head.skip(2);
        lemma_collapsed_at_separator(rest, doubled, tail);
        assert(whole.subrange(0, 2) == head.subrange(0, 2));
        assert(whole.skip(2) == rest + separator(doubled) + tail);
    } else {
        let rest = head.skip(1);
        lemma_collapsed_at_separator(rest, doubled, tail);
        assert(whole.skip(1) == rest + separator(doubled) + tail);
        assert(!occurs_at(whole, pattern, 0)) by {
            if head.len() >= 2 {
                assert(whole.subrange(0, 2) == head.subrange(0, 2));
            }
        }
        assert(collapsed(head) == seq![head[0]] + collapsed(rest));
    }
}

/// A doubled separator between two names is read as a single one: a path
/// written with `//` between a part that ends in a name and a part that
/// starts with one collapses to what the path written with `/` collapses to.
pub proof fn lemma_doubled_separator_is_single(head: Seq<char>, tail: Seq<char>)
    requires
        head.len() == 0 || ends_in_name(head),
        tail.len() == 0 || starts_with_name(tail),
    ensures
        collapsed(head + seq!['/', '/'] + tail) == collapsed(head + seq!['/'] + tail),
{
    lemma_collapsed_at_separator(head, true, tail);
    lemma_collapsed_at_separator(head, false, tail);
}

/// A path without a doubled separator is its own collapsed form.
pub proof fn lemma_collapsed_leaves_clean_path(path: Seq<char>)
    requires
        forall|at: int| !occurs_at(path, seq!['/', '/'], at),
    ensures
        collapsed(path) == path,
    decreases path.len(),
{
    let pattern = seq!['/', '/'];
    if path.len() >= 2 {
        let rest = path.skip(1);
        assert forall|at: int| !occurs_at(rest, pattern, at) by {
            if occurs_at(rest, pattern, at) {
                assert(path.subrange(at + 1, at + 1 + 2) == rest.subrange(at, at + 2));
                assert(occurs_at(path, pattern, at + 1));
            }
        }
        lemma_collapsed_leaves_clean_path(rest);
    }
}

} // verus!
