//! What replacing does and does not do to a text: the lemmas behind the laws
//! of attribute renaming.

use vstd::prelude::*;
use crate::text::{lemma_occurs_in_tail, occurs_at, replaced};

verus! {

/// `s` holds no equals sign.
pub open spec fn no_equals(s: Seq<char>) -> bool {
    forall|i: int| 0 <= i < s.len() ==> s[i] != '='
}

/// `name` followed by an equals sign: the form in which an attribute's name
/// stands before its value.
pub open spec fn key(name: Seq<char>) -> Seq<char> {
    name.push('=')
}

/// `pat` stands nowhere in `s`.
pub open spec fn free_of(s: Seq<char>, pat: Seq<char>) -> bool {
    forall|at: int| !occurs_at(s, pat, at)
}

/// Replacing what does not occur changes nothing.
pub proof fn lemma_nothing_to_replace(s: Seq<char>, pat: Seq<char>, rep: Seq<char>)
    requires
        free_of(s, pat),
    ensures
        replaced(s, pat, rep) == s,
    decreases s.len(),
{
    if s.len() > 0 && pat.len() > 0 {
        assert(!occurs_at(s, pat, 0));
        assert forall|at: int| !occurs_at(s.skip(1), pat, at) by {
            if at >= 0 {
                lemma_occurs_in_tail(s, pat, 1, at);
            }
        }
        lemma_nothing_to_replace(s.skip(1), pat, rep);
        assert(seq![s[0]] + s.skip(1) == s);
    }
}

/// Replacing a text by itself changes nothing.
pub proof fn lemma_replaced_by_itself(s: Seq<char>, pat: Seq<char>)
    ensures
        replaced(s, pat, pat) == s,
    decreases s.len(),
{
    if s.len() > 0 && pat.len() > 0 {
        if occurs_at(s, pat, 0) {
            lemma_replaced_by_itself(s.skip(pat.len() as int), pat);
            assert(s.subrange(0, pat.len() as int) + s.skip(pat.len() as int) == s);
        } else {
            lemma_replaced_by_itself(s.skip(1), pat);
            assert(seq![s[0]] + s.skip(1) == s);
        }
    }
}

/// A key that occurs in `x + z`, where `x` ends in an equals sign, occurs in
/// `x` or in `z`: it cannot reach across the equals sign.
proof fn lemma_key_on_one_side(x: Seq<char>, z: Seq<char>, name: Seq<char>, at: int)
    requires
        no_equals(name),
        x.len() > 0,
        x.last() == '=',
        occurs_at(x + z, key(name), at),
    ensures
        at + key(name).len() <= x.len() ==> occurs_at(x, key(name), at),
        at + key(name).len() > x.len() ==> at >= x.len() && occurs_at(z, key(name), at - x.len()),
{
    let q = key(name);
    let t = x + z;
    let window = t.subrange(at, at + q.len());
    if at + q.len() <= x.len() {
        assert(x.subrange(at, at + q.len()) == window);
    } else {
        if at < x.len() {
            let inside = x.len() - 1 - at;
            assert(window[inside] == t[x.len() - 1]);
            assert(q[inside] == name[inside]);
        }
        assert(z.subrange(at - x.len(), at - x.len() + q.len()) == window);
    }
}

/// A name at the end of `m + y` is at the end of `y`, or `y` is at its end.
proof fn lemma_suffix_of_sum(m: Seq<char>, y: Seq<char>, name: Seq<char>)
    requires
        name.is_suffix_of(m + y),
    ensures
        name.is_suffix_of(y) || y.is_suffix_of(name),
{
    let t = m + y;
    let tail = t.subrange(t.len() - name.len(), t.len() as int);
    if name.len() <= y.len() {
        assert(y.subrange(y.len() - name.len(), y.len() as int) == tail);
    } else {
        assert(name.subrange(name.len() - y.len(), name.len() as int) == y) by {
            assert forall|i: int| 0 <= i < y.len() implies name[name.len() - y.len() + i]
                == y[i] by {
                assert(tail[name.len() - y.len() + i] == t[t.len() - y.len() + i]);
            }
        }
    }
}

/// In a text with one equals sign, which follows `name`, a key can only
/// stand where its name ends `before + name`.
pub proof fn lemma_key_before_only_equals(
    before: Seq<char>,
    name: Seq<char>,
    after: Seq<char>,
    other: Seq<char>,
    at: int,
)
    requires
        no_equals(before),
        no_equals(name),
        no_equals(after),
        no_equals(other),
        occurs_at(before + key(name) + after, key(other), at),
    ensures
        other.is_suffix_of(before + name),
{
    let t = before + key(name) + after;
    let q = key(other);
    let window = t.subrange(at, at + q.len());
    let sign = before.len() + name.len();
    assert(window[other.len() as int] == '=');
    assert(at + other.len() == sign) by {
        let i = at + other.len();
        if i < before.len() {
            assert(t[i] == before[i]);
        } else if i < sign {
            assert(t[i] == name[i - before.len()]);
        } else if i > sign {
            assert(t[i] == after[i - sign - 1]);
        }
    }
    let whole = before + name;
    assert(whole.subrange(whole.len() - other.len(), whole.len() as int) == other) by {
        assert forall|i: int| 0 <= i < other.len() implies whole[whole.len() - other.len() + i]
            == other[i] by {
            assert(window[i] == t[at + i]);
            assert(q[i] == other[i]);
        }
    }
}

/// A name at the end of `before + name` that holds nowhere the character
/// that `before` ends in stands at the end of `name`.
pub proof fn lemma_suffix_stops_at(before: Seq<char>, name: Seq<char>, other: Seq<char>)
    requires
        before.len() > 0,
        forall|i: int| 0 <= i < other.len() ==> other[i] != before.last(),
        other.is_suffix_of(before + name),
    ensures
        other.is_suffix_of(name),
{
    let whole = before + name;
    let tail = whole.subrange(whole.len() - other.len(), whole.len() as int);
    if other.len() > name.len() {
        assert(tail[other.len() - name.len() - 1] == whole[before.len() - 1]);
    } else {
        assert(name.subrange(name.len() - other.len(), name.len() as int) == tail);
    }
}

/// In a text with one equals sign, which follows `from`, replacing the key
/// of `from` changes just this name.
pub proof fn lemma_replaced_before_only_equals(
    before: Seq<char>,
    from: Seq<char>,
    to: Seq<char>,
    after: Seq<char>,
)
    requires
        no_equals(before),
        no_equals(from),
        no_equals(after),
    ensures
        replaced(before + key(from) + after, key(from), key(to)) == before + key(to) + after,
    decreases before.len(),
{
    let pat = key(from);
    let s = before + pat + after;
    if before.len() == 0 {
        assert(s.subrange(0, pat.len() as int) == pat);
        assert(s.skip(pat.len() as int) == after);
        assert forall|at: int| !occurs_at(after, pat, at) by {
            if occurs_at(after, pat, at) {
                assert(after.subrange(at, at + pat.len())[from.len() as int] == '=');
            }
        }
        lemma_nothing_to_replace(after, pat, key(to));
        assert(before + key(to) + after == key(to) + after);
    } else {
        if occurs_at(s, pat, 0) {
            assert(s.subrange(0, pat.len() as int)[from.len() as int] == '=');
            if from.len() < before.len() {
                assert(s[from.len() as int] == before[from.len() as int]);
            } else {
                assert(s[from.len() as int] == from[from.len() - before.len()]);
            }
        }
        assert(s.skip(1) == before.skip(1) + pat + after);
        lemma_replaced_before_only_equals(before.skip(1), from, to, after);
        assert(seq![s[0]] + (before.skip(1) + key(to) + after) == before + key(to) + after);
    }
}

/// The step behind `lemma_no_new_key`. `u` is what has been copied since
/// the last equals sign; the key `key(name)` may occur in `u + s` only as
/// the key that is being replaced, and only where the replacement has yet
/// to pass.
proof fn lemma_no_new_key_after(
    u: Seq<char>,
    s: Seq<char>,
    from: Seq<char>,
    to: Seq<char>,
    name: Seq<char>,
)
    requires
        no_equals(u),
        no_equals(to),
        no_equals(name),
        !name.is_suffix_of(to),
        !to.is_suffix_of(name),
        forall|at: int| occurs_at(u + s, key(name), at) ==> name == from && at >= u.len(),
    ensures
        free_of(u + replaced(s, key(from), key(to)), key(name)),
    decreases s.len(),
{
    let pat = key(from);
    let rep = key(to);
    let q = key(name);
    let out = u + replaced(s, pat, rep);
    let nothing = Seq::<char>::empty();
    if s.len() == 0 {
        assert forall|at: int| !occurs_at(out, q, at) by {
            if occurs_at(out, q, at) {
                assert(out == u + s);
            }
        }
    } else if occurs_at(s, pat, 0) {
        let rest = s.skip(pat.len() as int);
        let x = u + rep;
        let z = replaced(rest, pat, rep);
        assert(x + z == out);
        assert((u + s).skip((u.len() + pat.len()) as int) == rest);
        assert(nothing + rest == rest);
        assert forall|at: int| occurs_at(nothing + rest, q, at) implies name == from && at
            >= 0 by {
            lemma_occurs_in_tail(u + s, q, (u.len() + pat.len()) as int, at);
        }
        lemma_no_new_key_after(nothing, rest, from, to, name);
        assert(nothing + z == z);
        assert forall|at: int| !occurs_at(out, q, at) by {
            if occurs_at(out, q, at) {
                lemma_key_on_one_side(x, z, name, at);
                if at + q.len() <= x.len() {
                    let window = x.subrange(at, at + q.len());
                    assert(window[name.len() as int] == '=');
                    assert(at + name.len() == x.len() - 1);
                    let copied = u + to;
                    assert(copied.subrange(copied.len() - name.len(), copied.len() as int)
                        == name) by {
                        assert forall|i: int| 0 <= i < name.len() implies copied[copied.len()
                            - name.len() + i] == name[i] by {
                            assert(window[i] == x[at + i]);
                            assert(q[i] == name[i]);
                        }
                    }
                    lemma_suffix_of_sum(u, to, name);
                }
            }
        }
    } else {
        let c = s[0];
        let rest = s.skip(1);
        let z = replaced(rest, pat, rep);
        if c == '=' {
            let x = u.push(c);
            assert(x + z == out);
            assert((u + s).skip((u.len() + 1) as int) == rest);
            assert(nothing + rest == rest);
            assert forall|at: int| occurs_at(nothing + rest, q, at) implies name == from && at
                >= 0 by {
                lemma_occurs_in_tail(u + s, q, (u.len() + 1) as int, at);
            }
            lemma_no_new_key_after(nothing, rest, from, to, name);
            assert(nothing + z == z);
            assert forall|at: int| !occurs_at(out, q, at) by {
                if occurs_at(out, q, at) {
                    lemma_key_on_one_side(x, z, name, at);
                    if at + q.len() <= x.len() {
                        assert((u + s).subrange(at, at + q.len()) == x.subrange(
                            at,
                            at + q.len(),
                        ));
                        assert(occurs_at(u + s, q, at));
                        assert(name.len() == 0);
                        assert(from.len() == 0);
                        assert(s.subrange(0, 1) == pat);
                    }
                }
            }
        } else {
            let longer = u.push(c);
            assert(longer + rest == u + s);
            assert(longer + z == out);
            assert forall|at: int| occurs_at(longer + rest, q, at) implies name == from && at
                >= longer.len() by {
                if at == u.len() {
                    assert((u + s).skip(u.len() as int) == s);
                    lemma_occurs_in_tail(u + s, q, u.len() as int, 0);
                }
            }
            lemma_no_new_key_after(longer, rest, from, to, name);
        }
    }
}

/// Replacing the key of `from` by the key of `to` leaves no key of `name`
/// behind, if `name` and `to` do not end alike and the key of `name`
/// occurred nowhere before, or is the very key that is replaced.
pub proof fn lemma_no_new_key(s: Seq<char>, from: Seq<char>, to: Seq<char>, name: Seq<char>)
    requires
        no_equals(to),
        no_equals(name),
        !name.is_suffix_of(to),
        !to.is_suffix_of(name),
        name == from || free_of(s, key(name)),
    ensures
        free_of(replaced(s, key(from), key(to)), key(name)),
{
    let nothing = Seq::<char>::empty();
    assert(nothing + s == s);
    lemma_no_new_key_after(nothing, s, from, to, name);
    assert(nothing + replaced(s, key(from), key(to)) == replaced(s, key(from), key(to)));
}

} // verus!
