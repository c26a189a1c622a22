//! The lexical grammar of the notation, stated on sequences of characters.
//!
//! Nothing here is executable: these functions say which tokens a text denotes, not
//! how a scanner finds them.

use vstd::prelude::*;
use crate::tokens::{DurationKind, RestKind, TokenView};

verus! {

/// The token that a one-character symbol stands for, if `c` is such a symbol.
pub open spec fn marker_token(c: char) -> Option<TokenView> {
    if c == 'O' {
        Some(TokenView::Duration(DurationKind::Whole))
    } else if c == '_' {
        Some(TokenView::Rest(RestKind::Whole))
    } else if c == 'L' {
        Some(TokenView::Duration(DurationKind::Half))
    } else if c == '~' {
        Some(TokenView::Rest(RestKind::Half))
    } else if c == 'l' {
        Some(TokenView::Duration(DurationKind::Quarter))
    } else if c == '}' {
        Some(TokenView::Rest(RestKind::Quarter))
    } else if c == ',' {
        Some(TokenView::Duration(DurationKind::Eighth))
    } else if c == '.' {
        Some(TokenView::Rest(RestKind::Eighth))
    } else {
        None
    }
}

/// Bar lines and white space: they part tokens and yield none.
pub open spec fn is_separator(c: char) -> bool {
    c == '|' || c == ' ' || c == '\t' || c == '\n' || c == '\r'
}

/// A reserved character is a symbol or a separator. Every other character is chord
/// material.
pub open spec fn is_reserved(c: char) -> bool {
    marker_token(c) is Some || is_separator(c)
}

/// The first position at or after `from` that holds a reserved character, or the end of
/// the text if chord material runs that far.
pub open spec fn run_end(text: Seq<char>, from: int) -> int
    decreases text.len() - from,
{
    if 0 <= from < text.len() && !is_reserved(text[from]) {
        run_end(text, from + 1)
    } else {
        from
    }
}

/// The position just after the lexeme that starts at `pos`: a reserved character stands
/// alone, chord material runs on as far as it can.
pub open spec fn lexeme_end(text: Seq<char>, pos: int) -> int {
    if is_reserved(text[pos]) {
        pos + 1
    } else {
        run_end(text, pos)
    }
}

/// The token that the lexeme starting at `pos` yields: none for a separator, the mapped
/// token for a symbol, and otherwise a chord that holds the whole run verbatim.
pub open spec fn lexeme_token(text: Seq<char>, pos: int) -> Option<TokenView> {
    if is_separator(text[pos]) {
        None
    } else if marker_token(text[pos]) is Some {
        marker_token(text[pos])
    } else {
        Some(TokenView::Chord(text.subrange(pos, run_end(text, pos))))
    }
}

/// The tokens of `text` from position `pos` on, closed by the end marker.
pub open spec fn scan_from(text: Seq<char>, pos: int) -> Seq<TokenView>
    decreases text.len() - pos,
{
    if 0 <= pos < text.len() {
        proof {
            run_end_bounds(text, pos);
        }
        let rest = scan_from(text, lexeme_end(text, pos));
        match lexeme_token(text, pos) {
            Some(token) => seq![token] + rest,
            None => rest,
        }
    } else {
        seq![TokenView::EndOfInput]
    }
}

/// The tokens that a whole text denotes.
pub open spec fn scan(text: Seq<char>) -> Seq<TokenView> {
    scan_from(text, 0)
}

/// A run ends at or after its start, and inside the text when it starts there.
pub proof fn run_end_bounds(text: Seq<char>, from: int)
    ensures
        from <= run_end(text, from),
        0 <= from <= text.len() ==> run_end(text, from) <= text.len(),
        0 <= from < text.len() && !is_reserved(text[from]) ==> from < run_end(text, from),
    decreases text.len() - from,
{
    if 0 <= from < text.len() && !is_reserved(text[from]) {
        run_end_bounds(text, from + 1);
    }
}

/// A run is the longest stretch of chord material: nothing in it is reserved, and it
/// stops only before a reserved character or at the end of the text.
pub proof fn run_end_is_greedy(text: Seq<char>, from: int)
    requires
        0 <= from <= text.len(),
    ensures
        forall|i: int| from <= i < run_end(text, from) ==> !is_reserved(#[trigger] text[i]),
        run_end(text, from) == text.len() || is_reserved(text[run_end(text, from)]),
    decreases text.len() - from,
{
    run_end_bounds(text, from);
    if from < text.len() && !is_reserved(text[from]) {
        run_end_is_greedy(text, from + 1);
    }
}

/// From any position on, the tokens end in the end marker, and it stands nowhere else
/// among them.
pub proof fn scan_from_ends_once(text: Seq<char>, pos: int)
    ensures
        scan_from(text, pos).len() >= 1,
        scan_from(text, pos).last() == TokenView::EndOfInput,
        forall|i: int|
            0 <= i < scan_from(text, pos).len() - 1 ==> #[trigger] scan_from(text, pos)[i]
                != TokenView::EndOfInput,
    decreases text.len() - pos,
{
    if 0 <= pos < text.len() {
        run_end_bounds(text, pos);
        scan_from_ends_once(text, lexeme_end(text, pos));
    }
}

} // verus!
