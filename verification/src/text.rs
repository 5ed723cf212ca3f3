//! Character sequences: the model that every rewriting pass is stated over,
//! and the executable primitives that the passes share.

use vstd::prelude::*;

verus! {

/// `String::push` appends one character.
pub assume_specification[ String::push ](s: &mut String, c: char)
    ensures
        final(s)@ == old(s)@.push(c),
;

/// White space: the characters to which Unicode gives the property
/// `White_Space`.
pub open spec fn is_whitespace(c: char) -> bool {
    ||| '\u{9}' <= c <= '\u{d}'
    ||| c == ' '
    ||| c == '\u{85}'
    ||| c == '\u{a0}'
    ||| c == '\u{1680}'
    ||| '\u{2000}' <= c <= '\u{200a}'
    ||| c == '\u{2028}'
    ||| c == '\u{2029}'
    ||| c == '\u{202f}'
    ||| c == '\u{205f}'
    ||| c == '\u{3000}'
}

/// `pat` stands in `s` at position `at`.
pub open spec fn occurs_at(s: Seq<char>, pat: Seq<char>, at: int) -> bool {
    &&& 0 <= at
    &&& at + pat.len() <= s.len()
    &&& s.subrange(at, at + pat.len()) == pat
}

/// `pat` stands somewhere in `s`.
pub open spec fn contains(s: Seq<char>, pat: Seq<char>) -> bool {
    exists|at: int| occurs_at(s, pat, at)
}

/// The number of characters at the start of `s` that differ from `stop`.
pub open spec fn run_until(s: Seq<char>, stop: char) -> nat
    decreases s.len(),
{
    if s.len() > 0 && s[0] != stop {
        1 + run_until(s.skip(1), stop)
    } else {
        0
    }
}

/// `s` without the white space at its start.
pub open spec fn trim_start(s: Seq<char>) -> Seq<char>
    decreases s.len(),
{
    if s.len() > 0 && is_whitespace(s[0]) {
        trim_start(s.skip(1))
    } else {
        s
    }
}

/// `s` without the white space at its end.
pub open spec fn trim_end(s: Seq<char>) -> Seq<char>
    decreases s.len(),
{
    if s.len() > 0 && is_whitespace(s.last()) {
        trim_end(s.drop_last())
    } else {
        s
    }
}

/// `s` without the white space at either end.
pub open spec fn trim(s: Seq<char>) -> Seq<char> {
    trim_end(trim_start(s))
}

/// The pieces of `s` between the occurrences of `sep`: one more than there
/// are separators, empty pieces included.
pub open spec fn split(s: Seq<char>, sep: char) -> Seq<Seq<char>>
    decreases s.len(),
{
    if s.len() == 0 {
        seq![Seq::<char>::empty()]
    } else {
        let before = split(s.drop_last(), sep);
        if s.last() == sep {
            before.push(Seq::<char>::empty())
        } else {
            before.update(before.len() - 1, before.last().push(s.last()))
        }
    }
}

/// `s` with every occurrence of `pat` replaced by `rep`. The occurrences are
/// taken from left to right and do not overlap. An empty `pat` occurs nowhere.
pub open spec fn replaced(s: Seq<char>, pat: Seq<char>, rep: Seq<char>) -> Seq<char>
    decreases s.len(),
{
    if s.len() == 0 || pat.len() == 0 {
        s
    } else if occurs_at(s, pat, 0) {
        rep + replaced(s.skip(pat.len() as int), pat, rep)
    } else {
        seq![s[0]] + replaced(s.skip(1), pat, rep)
    }
}

/// An occurrence in a tail of `s` is an occurrence in `s`, further right.
pub proof fn lemma_occurs_in_tail(s: Seq<char>, pat: Seq<char>, from: int, at: int)
    requires
        0 <= from <= s.len(),
        0 <= at,
    ensures
        occurs_at(s.skip(from), pat, at) == occurs_at(s, pat, from + at),
{
    if at + pat.len() <= s.len() - from {
        assert(s.skip(from).subrange(at, at + pat.len()) == s.subrange(
            from + at,
            from + at + pat.len(),
        ));
    }
}

/// The character sequences that a vector of texts holds.
pub open spec fn views(texts: Seq<Vec<char>>) -> Seq<Seq<char>> {
    Seq::new(texts.len(), |i: int| texts[i]@)
}

/// Where a run ends stands the character that stops it, or nothing, and the
/// run itself holds no such character.
pub proof fn lemma_run_until(s: Seq<char>, stop: char)
    ensures
        run_until(s, stop) <= s.len(),
        run_until(s, stop) < s.len() ==> s[run_until(s, stop) as int] == stop,
        forall|k: int| 0 <= k < run_until(s, stop) ==> s[k] != stop,
    decreases s.len(),
{
    if s.len() > 0 && s[0] != stop {
        lemma_run_until(s.skip(1), stop);
        let run = run_until(s.skip(1), stop);
        assert forall|k: int| 0 <= k < run + 1 implies s[k] != stop by {
            if k > 0 {
                assert(s.skip(1)[k - 1] == s[k]);
            }
        }
    }
}

/// The characters of a string slice.
pub(crate) fn to_chars(s: &str) -> (out: Vec<char>)
    ensures
        out@ == s@,
{
    let mut out: Vec<char> = Vec::new();
    for c in it: s.chars()
        invariant
            out@ == it.seq().take(it.index()),
            it.seq() == s@,
    {
        out.push(c);
    }
    out
}

/// The string made of the characters `text[from..to]`.
pub(crate) fn to_text(text: &Vec<char>, from: usize, to: usize) -> (out: String)
    requires
        from <= to <= text.len(),
    ensures
        out@ == text@.subrange(from as int, to as int),
{
    let mut out = String::new();
    let mut i: usize = from;
    while i < to
        invariant
            from <= i <= to <= text.len(),
            out@ == text@.subrange(from as int, i as int),
        decreases to - i,
    {
        out.push(text[i]);
        i += 1;
    }
    out
}

/// Appends the characters of `piece` to `out`.
pub(crate) fn push_str(out: &mut Vec<char>, piece: &str)
    ensures
        final(out)@ == old(out)@ + piece@,
{
    let ghost before = out@;
    for c in it: piece.chars()
        invariant
            out@ == before + it.seq().take(it.index()),
            it.seq() == piece@,
    {
        out.push(c);
    }
}

/// Appends the characters `text[from..to]` to `out`.
pub(crate) fn push_range(out: &mut Vec<char>, text: &Vec<char>, from: usize, to: usize)
    requires
        from <= to <= text.len(),
    ensures
        final(out)@ == old(out)@ + text@.subrange(from as int, to as int),
{
    let ghost before = out@;
    let mut i: usize = from;
    while i < to
        invariant
            from <= i <= to <= text.len(),
            out@ == before + text@.subrange(from as int, i as int),
        decreases to - i,
    {
        out.push(text[i]);
        i += 1;
    }
}

/// Whether `pat` stands in `text` at position `at`.
pub(crate) fn matches_at(text: &Vec<char>, at: usize, pat: &Vec<char>) -> (found: bool)
    ensures
        found == occurs_at(text@, pat@, at as int),
{
    if pat.len() > text.len() || at > text.len() - pat.len() {
        return false;
    }
    let mut k: usize = 0;
    while k < pat.len()
        invariant
            0 <= k <= pat.len(),
            at + pat.len() <= text.len(),
            text@.subrange(at as int, at + k) == pat@.take(k as int),
        decreases pat.len() - k,
    {
        if text[at + k] != pat[k] {
            proof {
                let window = text@.subrange(at as int, at + pat.len());
                assert(window[k as int] != pat@[k as int]);
            }
            return false;
        }
        k += 1;
    }
    assert(pat@.take(pat.len() as int) == pat@);
    true
}

/// Whether `c` is white space.
pub(crate) fn white_space(c: char) -> (white: bool)
    ensures
        white == is_whitespace(c),
{
    ('\u{9}' <= c && c <= '\u{d}') || c == ' ' || c == '\u{85}' || c == '\u{a0}' || c
        == '\u{1680}' || ('\u{2000}' <= c && c <= '\u{200a}') || c == '\u{2028}' || c
        == '\u{2029}' || c == '\u{202f}' || c == '\u{205f}' || c == '\u{3000}'
}

/// The bounds of `text` without the white space at either end.
pub(crate) fn trim_bounds(text: &Vec<char>) -> (bounds: (usize, usize))
    ensures
        bounds.0 <= bounds.1 <= text.len(),
        text@.subrange(bounds.0 as int, bounds.1 as int) == trim(text@),
{
    let mut lo: usize = 0;
    assert(text@.skip(0) == text@);
    while lo < text.len() && white_space(text[lo])
        invariant
            0 <= lo <= text.len(),
            trim_start(text@.skip(lo as int)) == trim_start(text@),
        decreases text.len() - lo,
    {
        assert(text@.skip(lo as int).skip(1) == text@.skip(lo + 1));
        lo += 1;
    }
    let mut hi: usize = text.len();
    assert(text@.subrange(lo as int, hi as int) == text@.skip(lo as int));
    while lo < hi && white_space(text[hi - 1])
        invariant
            lo <= hi <= text.len(),
            trim_end(text@.subrange(lo as int, hi as int)) == trim(text@),
        decreases hi - lo,
    {
        assert(text@.subrange(lo as int, hi as int).drop_last() == text@.subrange(
            lo as int,
            hi - 1,
        ));
        hi -= 1;
    }
    (lo, hi)
}

/// The position of the first `stop` in `text` at or after `from`, or the
/// length of `text` if there is none.
pub(crate) fn find_char(text: &Vec<char>, from: usize, stop: char) -> (at: usize)
    requires
        from <= text.len(),
    ensures
        at == from + run_until(text@.skip(from as int), stop),
        at <= text.len(),
{
    let mut at: usize = from;
    while at < text.len() && text[at] != stop
        invariant
            from <= at <= text.len(),
            from + run_until(text@.skip(from as int), stop) == at + run_until(
                text@.skip(at as int),
                stop,
            ),
        decreases text.len() - at,
    {
        assert(text@.skip(at as int).skip(1) == text@.skip(at + 1));
        at += 1;
    }
    at
}

/// Whether `pat` stands somewhere in `text[from..to]`.
pub(crate) fn contains_in(text: &Vec<char>, from: usize, to: usize, pat: &Vec<char>) -> (found: bool)
    requires
        from <= to <= text.len(),
    ensures
        found == contains(text@.subrange(from as int, to as int), pat@),
{
    let ghost window = text@.subrange(from as int, to as int);
    if pat.len() > to - from {
        return false;
    }
    let last: usize = to - pat.len();
    let mut at: usize = from;
    loop
        invariant
            from <= at <= last,
            last + pat.len() == to <= text.len(),
            window == text@.subrange(from as int, to as int),
            forall|k: int| 0 <= k < at - from ==> !occurs_at(window, pat@, k),
        decreases last - at,
    {
        proof {
            assert(window.subrange(at - from, at - from + pat.len()) == text@.subrange(
                at as int,
                at + pat.len(),
            ));
        }
        if matches_at(text, at, pat) {
            assert(occurs_at(window, pat@, at - from));
            return true;
        }
        if at == last {
            return false;
        }
        at += 1;
    }
}

/// Cuts `text` at each `sep`.
pub(crate) fn split_at_each(text: &Vec<char>, sep: char) -> (parts: Vec<Vec<char>>)
    ensures
        views(parts@) == split(text@, sep),
{
    let mut parts: Vec<Vec<char>> = Vec::new();
    let mut part: Vec<char> = Vec::new();
    let mut i: usize = 0;
    assert(text@.take(0) == Seq::<char>::empty());
    assert(views(parts@).push(part@) == seq![Seq::<char>::empty()]);
    while i < text.len()
        invariant
            0 <= i <= text.len(),
            views(parts@).push(part@) == split(text@.take(i as int), sep),
        decreases text.len() - i,
    {
        let c = text[i];
        let ghost closed = views(parts@);
        let ghost open = part@;
        proof {
            let upto = text@.take(i + 1);
            assert(upto.drop_last() == text@.take(i as int));
            assert(closed.push(open).last() == open);
        }
        if c == sep {
            parts.push(part);
            part = Vec::new();
            assert(views(parts@) == closed.push(open));
        } else {
            part.push(c);
            assert(closed.push(open).update(closed.len() as int, part@) == closed.push(part@));
        }
        i += 1;
    }
    assert(text@.take(text.len() as int) == text@);
    let ghost closed = views(parts@);
    parts.push(part);
    assert(views(parts@) == closed.push(part@));
    parts
}

/// The position of the first occurrence of `pat` in `text` at or after
/// `from`.
pub(crate) fn find_from(text: &Vec<char>, from: usize, pat: &Vec<char>) -> (found: Option<usize>)
    ensures
        match found {
            Some(at) => from <= at && occurs_at(text@, pat@, at as int) && forall|k: int|
                from <= k < at ==> !occurs_at(text@, pat@, k),
            None => forall|k: int| from <= k ==> !occurs_at(text@, pat@, k),
        },
{
    if pat.len() > text.len() || from > text.len() - pat.len() {
        return None;
    }
    let last: usize = text.len() - pat.len();
    let mut at: usize = from;
    loop
        invariant
            from <= at <= last,
            last + pat.len() == text.len(),
            forall|k: int| from <= k < at ==> !occurs_at(text@, pat@, k),
        decreases last - at,
    {
        if matches_at(text, at, pat) {
            return Some(at);
        }
        if at == last {
            return None;
        }
        at += 1;
    }
}

/// Whether two string slices hold the same characters.
pub(crate) fn same_text(a: &str, b: &str) -> (same: bool)
    ensures
        same == (a@ == b@),
{
    let a = to_chars(a);
    let b = to_chars(b);
    if a.len() != b.len() {
        return false;
    }
    let same = matches_at(&a, 0, &b);
    assert(a@.subrange(0, a.len() as int) == a@);
    same
}

/// Replaces every occurrence of `pat` in `text` by `rep`, from left to right.
pub(crate) fn replace_all(text: &Vec<char>, pat: &Vec<char>, rep: &Vec<char>) -> (out: Vec<char>)
    ensures
        out@ == replaced(text@, pat@, rep@),
{
    let mut out: Vec<char> = Vec::new();
    if pat.len() == 0 {
        push_range(&mut out, text, 0, text.len());
        assert(text@.subrange(0, text.len() as int) == text@);
        return out;
    }
    let mut i: usize = 0;
    assert(text@.skip(0) == text@);
    while i < text.len()
        invariant
            0 <= i <= text.len(),
            pat.len() > 0,
            out@ + replaced(text@.skip(i as int), pat@, rep@) == replaced(text@, pat@, rep@),
        decreases text.len() - i,
    {
        let ghost rest = text@.skip(i as int);
        let ghost done = out@;
        proof {
            lemma_occurs_in_tail(text@, pat@, i as int, 0);
        }
        if matches_at(text, i, pat) {
            push_range(&mut out, rep, 0, rep.len());
            i += pat.len();
            proof {
                let tail = replaced(text@.skip(i as int), pat@, rep@);
                assert(rep@.subrange(0, rep.len() as int) == rep@);
                assert(rest.skip(pat.len() as int) == text@.skip(i as int));
                assert((done + rep@) + tail == done + (rep@ + tail));
            }
        } else {
            out.push(text[i]);
            i += 1;
            proof {
                let tail = replaced(text@.skip(i as int), pat@, rep@);
                assert(rest.skip(1) == text@.skip(i as int));
                assert(done.push(rest[0]) + tail == done + (seq![rest[0]] + tail));
            }
        }
    }
    out
}

} // verus!
