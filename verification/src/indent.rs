//! Indentation: the markup is cut into tokens, one tag or one run of text
//! each, and every token is written on a line of its own, as deep as the
//! tags around it are nested.

use vstd::prelude::*;
use crate::component::SvgToReact;
use crate::text::{
    matches_at, occurs_at, push_range, to_chars, to_text, trim, trim_bounds, views,
};

verus! {

/// The pieces that `s` is cut into: a piece ends before each `<`, after each
/// `>` and at each line feed, which belongs to no piece.
pub open spec fn pieces(s: Seq<char>) -> Seq<Seq<char>>
    decreases s.len(),
{
    if s.len() == 0 {
        seq![Seq::<char>::empty()]
    } else {
        let before = pieces(s.drop_last());
        let c = s.last();
        if c == '\n' {
            before.push(Seq::<char>::empty())
        } else if c == '<' {
            before.push(seq!['<'])
        } else if c == '>' {
            before.update(before.len() - 1, before.last().push('>')).push(Seq::<char>::empty())
        } else {
            before.update(before.len() - 1, before.last().push(c))
        }
    }
}

/// The pieces without the white space around them; those that are then empty
/// are left out.
pub open spec fn trimmed_pieces(pieces: Seq<Seq<char>>) -> Seq<Seq<char>>
    decreases pieces.len(),
{
    if pieces.len() == 0 {
        Seq::<Seq<char>>::empty()
    } else {
        let before = trimmed_pieces(pieces.drop_last());
        let token = trim(pieces.last());
        if token.len() > 0 {
            before.push(token)
        } else {
            before
        }
    }
}

/// The tokens of `s`: its tags and the runs of text between them.
pub open spec fn tokens(s: Seq<char>) -> Seq<Seq<char>> {
    trimmed_pieces(pieces(s))
}

/// A closing tag: the token starts with `</`.
pub open spec fn is_closing(token: Seq<char>) -> bool {
    occurs_at(token, "</"@, 0)
}

/// A tag that closes itself: the token starts with `<`, ends in `/>` and is
/// no closing tag.
pub open spec fn is_self_closing(token: Seq<char>) -> bool {
    &&& !is_closing(token)
    &&& occurs_at(token, "<"@, 0)
    &&& occurs_at(token, "/>"@, token.len() - 2)
}

/// An opening tag: the token starts with `<` and is neither a closing tag nor
/// one that closes itself.
pub open spec fn is_opening(token: Seq<char>) -> bool {
    &&& !is_closing(token)
    &&& !is_self_closing(token)
    &&& occurs_at(token, "<"@, 0)
}

/// The depth at which `token` is written when the depth before it is
/// `depth`: a closing tag stands one level higher, but never above level 0.
pub open spec fn depth_of(token: Seq<char>, depth: nat) -> nat {
    if is_closing(token) && depth > 0 {
        (depth - 1) as nat
    } else {
        depth
    }
}

/// The depth after `token`: what follows an opening tag stands one level
/// deeper, what follows a closing tag stands where the tag stands.
pub open spec fn depth_after(token: Seq<char>, depth: nat) -> nat {
    if is_opening(token) {
        depth + 1
    } else {
        depth_of(token, depth)
    }
}

/// The depth after all of `tokens`, starting from `depth`.
pub open spec fn depth_after_all(tokens: Seq<Seq<char>>, depth: nat) -> nat
    decreases tokens.len(),
{
    if tokens.len() == 0 {
        depth
    } else {
        depth_after(tokens.last(), depth_after_all(tokens.drop_last(), depth))
    }
}

/// `count` spaces.
pub open spec fn spaces(count: nat) -> Seq<char> {
    Seq::new(count, |i: int| ' ')
}

/// The line that holds `token` at `depth`: `width` spaces for each level,
/// the token, a line feed.
pub open spec fn line(token: Seq<char>, depth: nat, width: nat) -> Seq<char> {
    spaces(depth * width) + token + seq!['\n']
}

/// The lines of `tokens`, with the first at `depth`.
pub open spec fn lines(tokens: Seq<Seq<char>>, depth: nat, width: nat) -> Seq<char>
    decreases tokens.len(),
{
    if tokens.len() == 0 {
        Seq::<char>::empty()
    } else {
        let before = tokens.drop_last();
        lines(before, depth, width) + line(
            tokens.last(),
            depth_of(tokens.last(), depth_after_all(before, depth)),
            width,
        )
    }
}

/// `s` with one token on each line, the first two levels deep.
pub open spec fn indented(s: Seq<char>, width: nat) -> Seq<char> {
    lines(tokens(s), 2, width)
}

/// Puts `piece`, without the white space around it, at the end of `tokens`,
/// unless nothing is left of it.
fn close_piece(tokens: &mut Vec<Vec<char>>, piece: &Vec<char>, Ghost(closed): Ghost<Seq<Seq<char>>>)
    requires
        views(old(tokens)@) == trimmed_pieces(closed),
    ensures
        views(final(tokens)@) == trimmed_pieces(closed.push(piece@)),
{
    let (lo, hi) = trim_bounds(piece);
    assert(closed.push(piece@).drop_last() == closed);
    if lo < hi {
        let mut token: Vec<char> = Vec::new();
        push_range(&mut token, piece, lo, hi);
        tokens.push(token);
        assert(views(tokens@) == views(old(tokens)@).push(trim(piece@)));
    }
}

/// Cuts `svg` into its tokens.
pub(crate) fn tokenize(svg: &Vec<char>) -> (tokens: Vec<Vec<char>>)
    ensures
        views(tokens@) == self::tokens(svg@),
{
    let mut tokens: Vec<Vec<char>> = Vec::new();
    let mut piece: Vec<char> = Vec::new();
    let ghost mut closed: Seq<Seq<char>> = Seq::empty();
    let mut i: usize = 0;
    assert(views(tokens@) == trimmed_pieces(closed));
    assert(svg@.take(0) == Seq::<char>::empty());
    while i < svg.len()
        invariant
            0 <= i <= svg.len(),
            pieces(svg@.take(i as int)) == closed.push(piece@),
            views(tokens@) == trimmed_pieces(closed),
        decreases svg.len() - i,
    {
        let c = svg[i];
        proof {
            let upto = svg@.take(i + 1);
            assert(upto.drop_last() == svg@.take(i as int));
            assert(upto.last() == c);
            assert(closed.push(piece@).last() == piece@);
        }
        if c == '\n' {
            close_piece(&mut tokens, &piece, Ghost(closed));
            proof {
                closed = closed.push(piece@);
            }
            piece = Vec::new();
        } else if c == '<' {
            close_piece(&mut tokens, &piece, Ghost(closed));
            proof {
                closed = closed.push(piece@);
            }
            piece = Vec::new();
            piece.push('<');
            assert(piece@ == seq!['<']);
        } else if c == '>' {
            let ghost open = piece@;
            piece.push('>');
            close_piece(&mut tokens, &piece, Ghost(closed));
            proof {
                assert(closed.push(open).update(closed.len() as int, piece@) == closed.push(
                    piece@,
                ));
                closed = closed.push(piece@);
            }
            piece = Vec::new();
        } else {
            let ghost open = piece@;
            piece.push(c);
            assert(closed.push(open).update(closed.len() as int, piece@) == closed.push(piece@));
        }
        i += 1;
    }
    assert(svg@.take(svg.len() as int) == svg@);
    close_piece(&mut tokens, &piece, Ghost(closed));
    tokens
}

/// Appends `depth * width` spaces to `out`.
fn push_indent(out: &mut Vec<char>, depth: u128, width: usize)
    ensures
        final(out)@ == old(out)@ + spaces(depth as nat * width as nat),
{
    let ghost before = out@;
    let mut level: u128 = 0;
    assert(out@ == before + spaces(0));
    while level < depth
        invariant
            0 <= level <= depth,
            out@ == before + spaces(level as nat * width as nat),
        decreases depth - level,
    {
        let ghost start = out@;
        let mut column: usize = 0;
        assert(out@ == start + spaces(0));
        while column < width
            invariant
                0 <= column <= width,
                out@ == start + spaces(column as nat),
            decreases width - column,
        {
            out.push(' ');
            column += 1;
            assert(out@ == start + spaces(column as nat));
        }
        level += 1;
        proof {
            assert(level as nat * width as nat == (level - 1) as nat * width as nat + width as nat)
                by (nonlinear_arith)
                requires
                    level >= 1,
            ;
            assert(out@ == before + spaces(level as nat * width as nat));
        }
    }
}

/// Whether `token` starts with `start`.
fn starts_with(token: &Vec<char>, start: &str) -> (found: bool)
    ensures
        found == occurs_at(token@, start@, 0),
{
    let start = to_chars(start);
    matches_at(token, 0, &start)
}

/// Whether `token` ends in `end`.
fn ends_with(token: &Vec<char>, end: &str) -> (found: bool)
    ensures
        found == occurs_at(token@, end@, token.len() - end@.len()),
{
    let end = to_chars(end);
    if end.len() > token.len() {
        return false;
    }
    matches_at(token, token.len() - end.len(), &end)
}

impl SvgToReact {
    /// Writes each token of `svg` on a line of its own, indented by `spaces`
    /// spaces for each level, the first token two levels deep.
    pub fn indent_svg(&self, svg: &str, spaces: usize) -> (out: String)
        ensures
            out@ == indented(svg@, spaces as nat),
    {
        let tokens = tokenize(&to_chars(svg));
        let ghost all = views(tokens@);
        let mut result: Vec<char> = Vec::new();
        // Each token may open a level, so the depth can pass the largest `usize` by two.
        let mut level: u128 = 2;
        let mut i: usize = 0;
        assert(all.take(0) == Seq::<Seq<char>>::empty());
        while i < tokens.len()
            invariant
                0 <= i <= tokens.len(),
                all == views(tokens@),
                all == self::tokens(svg@),
                level <= 2 + i,
                level == depth_after_all(all.take(i as int), 2),
                result@ == lines(all.take(i as int), 2, spaces as nat),
            decreases tokens.len() - i,
        {
            let token = &tokens[i];
            proof {
                let upto = all.take(i + 1);
                assert(upto.drop_last() == all.take(i as int));
                assert(upto.last() == token@);
                reveal_strlit("/>");
            }
            let closing = starts_with(token, "</");
            let tag = starts_with(token, "<");
            let open = tag && !closing && !ends_with(token, "/>");
            if closing && level > 0 {
                level -= 1;
            }
            push_indent(&mut result, level, spaces);
            push_range(&mut result, token, 0, token.len());
            result.push('\n');
            proof {
                assert(token@.subrange(0, token.len() as int) == token@);
            }
            if open {
                level += 1;
            }
            i += 1;
        }
        assert(all.take(tokens.len() as int) == all);
        to_text(&result, 0, result.len())
    }
}

} // verus!
