//! Splitting text into lines and into words.

use vstd::prelude::*;

verus! {

/// What parts one piece of a text from the next.
#[derive(Debug, Clone, Copy, PartialEq, Eq, Structural)]
pub enum Separator {
    /// The line feed.
    Newline,
    /// Any character that Unicode counts as whitespace.
    Whitespace,
}

/// Whether Unicode counts `c` as whitespace (`White_Space`).
pub open spec fn is_whitespace(c: char) -> bool {
    ||| '\u{9}' <= c <= '\u{d}'
    ||| c == ' '
    ||| c == '\u{85}'
    ||| c == '\u{a0}'
    ||| c == '\u{1680}'
    ||| '\u{2000}' <= c <= '\u{200a}'
    ||| c == '\u{2028}'
    ||| c == '\u{2029}'
    ||| c == '\u{202f}'
    ||| c == '\u{205f}'
    ||| c == '\u{3000}'
}

impl Separator {
    /// Whether `c` is a separator of this kind.
    pub open spec fn holds(self, c: char) -> bool {
        match self {
            Separator::Newline => c == '\n',
            Separator::Whitespace => is_whitespace(c),
        }
    }

    /// Whether `c` is a separator of this kind.
    pub fn test(self, c: char) -> (yes: bool)
        ensures
            yes == self.holds(c),
    {
        match self {
            Separator::Newline => c == '\n',
            Separator::Whitespace => {
                ('\u{9}' <= c && c <= '\u{d}') || c == ' ' || c == '\u{85}' || c == '\u{a0}' || c
                    == '\u{1680}' || ('\u{2000}' <= c && c <= '\u{200a}') || c == '\u{2028}' || c
                    == '\u{2029}' || c == '\u{202f}' || c == '\u{205f}' || c == '\u{3000}'
            },
        }
    }
}

/// The pieces of `s` between its separators: one more piece than there are
/// separators, each piece free of separators, empty pieces included.
pub open spec fn split(s: Seq<char>, sep: Separator) -> Seq<Seq<char>>
    decreases s.len(),
{
    if s.len() == 0 {
        seq![Seq::<char>::empty()]
    } else {
        let before = split(s.drop_last(), sep);
        if sep.holds(s.last()) {
            before.push(Seq::<char>::empty())
        } else {
            before.drop_last().push(before.last().push(s.last()))
        }
    }
}

/// The lines of `s`: its pieces between line feeds, without the empty piece
/// after a final line feed.
pub open spec fn lines(s: Seq<char>) -> Seq<Seq<char>> {
    let pieces = split(s, Separator::Newline);
    if pieces.last().len() == 0 {
        pieces.drop_last()
    } else {
        pieces
    }
}

/// The words of `s`: its non-empty pieces between whitespace characters.
pub open spec fn words(s: Seq<char>) -> Seq<Seq<char>> {
    split(s, Separator::Whitespace).filter(|piece: Seq<char>| piece.len() > 0)
}

/// The texts that the vectors of `pieces` hold.
pub open spec fn views(pieces: Seq<Vec<char>>) -> Seq<Seq<char>> {
    Seq::new(pieces.len(), |i: int| pieces[i]@)
}

/// A text splits into at least one piece.
pub proof fn lemma_split_len(s: Seq<char>, sep: Separator)
    ensures
        split(s, sep).len() >= 1,
    decreases s.len(),
{
    if s.len() > 0 {
        lemma_split_len(s.drop_last(), sep);
    }
}

/// No piece of a text holds a separator.
pub proof fn lemma_pieces_hold_no_separator(s: Seq<char>, sep: Separator)
    ensures
        forall|i: int, k: int|
            0 <= i < split(s, sep).len() && 0 <= k < split(s, sep)[i].len() ==> !sep.holds(
                #[trigger] split(s, sep)[i][k],
            ),
    decreases s.len(),
{
    if s.len() > 0 {
        lemma_pieces_hold_no_separator(s.drop_last(), sep);
        lemma_split_len(s.drop_last(), sep);
        let before = split(s.drop_last(), sep);
        let pieces = split(s, sep);
        assert forall|i: int, k: int|
            0 <= i < pieces.len() && 0 <= k < pieces[i].len() implies !sep.holds(
            #[trigger] pieces[i][k],
        ) by {
            if sep.holds(s.last()) {
                if i < before.len() {
                    assert(pieces[i][k] == before[i][k]);
                }
            } else {
                if i < before.len() - 1 {
                    assert(pieces[i][k] == before[i][k]);
                } else if k < before.last().len() {
                    assert(pieces[i][k] == before[before.len() - 1][k]);
                }
            }
        }
    }
}

/// No line of a text holds a line feed.
pub proof fn lemma_lines_hold_no_line_feed(s: Seq<char>)
    ensures
        forall|i: int, k: int|
            0 <= i < lines(s).len() && 0 <= k < lines(s)[i].len() ==> #[trigger] lines(s)[i][k]
                != '\n',
{
    let sep = Separator::Newline;
    lemma_pieces_hold_no_separator(s, sep);
    lemma_split_len(s, sep);
    let pieces = split(s, sep);
    assert forall|i: int, k: int|
        0 <= i < lines(s).len() && 0 <= k < lines(s)[i].len() implies #[trigger] lines(s)[i][k]
        != '\n' by {
        assert(lines(s)[i] == pieces[i]);
        assert(!sep.holds(pieces[i][k]));
    }
}

/// What a filter keeps was there before.
proof fn lemma_filter_keeps(pieces: Seq<Seq<char>>, keep: spec_fn(Seq<char>) -> bool, i: int)
    requires
        0 <= i < pieces.filter(keep).len(),
    ensures
        keep(pieces.filter(keep)[i]),
        pieces.contains(pieces.filter(keep)[i]),
    decreases pieces.len(),
{
    reveal(Seq::filter);
    if pieces.len() > 0 {
        let before = pieces.drop_last().filter(keep);
        if i < before.len() {
            lemma_filter_keeps(pieces.drop_last(), keep, i);
            let found = choose|k: int|
                0 <= k < pieces.drop_last().len() && pieces.drop_last()[k] == before[i];
            assert(pieces[found] == before[i]);
        } else {
            assert(pieces[pieces.len() - 1] == pieces.last());
        }
    }
}

/// Every word of a text holds a character, and none holds whitespace.
pub proof fn lemma_words_hold_no_whitespace(s: Seq<char>)
    ensures
        forall|i: int| 0 <= i < words(s).len() ==> (#[trigger] words(s)[i]).len() > 0,
        forall|i: int, k: int|
            0 <= i < words(s).len() && 0 <= k < words(s)[i].len() ==> !is_whitespace(
                #[trigger] words(s)[i][k],
            ),
{
    let sep = Separator::Whitespace;
    let pieces = split(s, sep);
    let keep = |piece: Seq<char>| piece.len() > 0;
    lemma_pieces_hold_no_separator(s, sep);
    assert forall|i: int| 0 <= i < words(s).len() implies (#[trigger] words(s)[i]).len() > 0 by {
        lemma_filter_keeps(pieces, keep, i);
    }
    assert forall|i: int, k: int|
        0 <= i < words(s).len() && 0 <= k < words(s)[i].len() implies !is_whitespace(
        #[trigger] words(s)[i][k],
    ) by {
        lemma_filter_keeps(pieces, keep, i);
        let found = choose|m: int| 0 <= m < pieces.len() && pieces[m] == words(s)[i];
        assert(!sep.holds(pieces[found][k]));
    }
}

/// The pieces of `text` between its separators.
pub fn split_chars(text: &Vec<char>, sep: Separator) -> (pieces: Vec<Vec<char>>)
    ensures
        views(pieces@) == split(text@, sep),
{
    let mut done: Vec<Vec<char>> = Vec::new();
    let mut current: Vec<char> = Vec::new();
    let mut i: usize = 0;
    while i < text.len()
        invariant
            i <= text.len(),
            views(done@).push(current@) == split(text@.take(i as int), sep),
        decreases text.len() - i,
    {
        let c = text[i];
        proof {
            assert(text@.take(i + 1).drop_last() == text@.take(i as int));
            lemma_split_len(text@.take(i as int), sep);
            assert(views(done@).push(current@).drop_last() == views(done@));
        }
        if sep.test(c) {
            proof {
                assert(views(done@.push(current)) == views(done@).push(current@));
            }
            done.push(current);
            current = Vec::new();
        } else {
            current.push(c);
        }
        i = i + 1;
    }
    proof {
        assert(text@.take(text.len() as int) == text@);
        assert(views(done@.push(current)) == views(done@).push(current@));
    }
    done.push(current);
    done
}

/// The lines of `text`.
pub fn split_lines(text: &Vec<char>) -> (found: Vec<Vec<char>>)
    ensures
        views(found@) == lines(text@),
{
    let mut pieces = split_chars(text, Separator::Newline);
    proof {
        lemma_split_len(text@, Separator::Newline);
    }
    let n: usize = pieces.len();
    if pieces[n - 1].len() == 0 {
        let ghost before = pieces@;
        pieces.pop();
        proof {
            assert(views(pieces@) == views(before).drop_last());
        }
    }
    pieces
}

/// The words of `text`.
pub fn split_words(text: &Vec<char>) -> (found: Vec<Vec<char>>)
    ensures
        views(found@) == words(text@),
{
    let pieces = split_chars(text, Separator::Whitespace);
    let ghost all = views(pieces@);
    let ghost keep = |piece: Seq<char>| piece.len() > 0;
    let mut found: Vec<Vec<char>> = Vec::new();
    let mut i: usize = 0;
    while i < pieces.len()
        invariant
            i <= pieces.len(),
            all == views(pieces@),
            keep == |piece: Seq<char>| piece.len() > 0,
            views(found@) == all.take(i as int).filter(keep),
        decreases pieces.len() - i,
    {
        proof {
            assert(all.take(i + 1).drop_last() == all.take(i as int));
            reveal(Seq::filter);
        }
        if pieces[i].len() > 0 {
            let piece = pieces[i].clone();
            proof {
                assert(views(found@.push(piece)) == views(found@).push(piece@));
            }
            found.push(piece);
        }
        i = i + 1;
    }
    proof {
        assert(all.take(pieces.len() as int) == all);
    }
    found
}

} // verus!
