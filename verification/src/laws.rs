//! Laws of the grammar: facts about `scan` that hold for every text.

use vstd::prelude::*;
use crate::grammar::{
    is_reserved, is_separator, lexeme_end, lexeme_token, marker_token, run_end, run_end_bounds,
    run_end_is_greedy, scan, scan_from, scan_from_ends_once,
};
use crate::lexer::LexerState;
use crate::tokens::{DurationKind, RestKind, TokenView};

verus! {

/// How many characters of the text a token accounts for: one for a symbol, the length
/// of its name for a chord, none for the end marker.
pub open spec fn token_width(token: TokenView) -> nat {
    match token {
        TokenView::Duration(_) => 1,
        TokenView::Rest(_) => 1,
        TokenView::Chord(name) => name.len(),
        TokenView::EndOfInput => 0,
    }
}

/// The characters that a sequence of tokens accounts for, all together.
pub open spec fn total_width(tokens: Seq<TokenView>) -> nat
    decreases tokens.len(),
{
    if tokens.len() == 0 {
        0
    } else {
        token_width(tokens[0]) + total_width(tokens.drop_first())
    }
}

/// The number of separators in the text at or after position `from`.
pub open spec fn separators_from(text: Seq<char>, from: int) -> nat
    decreases text.len() - from,
{
    if 0 <= from < text.len() {
        (if is_separator(text[from]) { 1nat } else { 0nat }) + separators_from(text, from + 1)
    } else {
        0
    }
}

/// How a token is written: a symbol's token with its symbol, a chord with its name, the
/// end marker with nothing.
pub open spec fn token_text(token: TokenView) -> Seq<char> {
    match token {
        TokenView::Duration(DurationKind::Whole) => seq!['O'],
        TokenView::Rest(RestKind::Whole) => seq!['_'],
        TokenView::Duration(DurationKind::Half) => seq!['L'],
        TokenView::Rest(RestKind::Half) => seq!['~'],
        TokenView::Duration(DurationKind::Quarter) => seq!['l'],
        TokenView::Rest(RestKind::Quarter) => seq!['}'],
        TokenView::Duration(DurationKind::Eighth) => seq![','],
        TokenView::Rest(RestKind::Eighth) => seq!['.'],
        TokenView::Chord(name) => name,
        TokenView::EndOfInput => Seq::empty(),
    }
}

/// A sequence of tokens written out, one after the other with nothing between them.
pub open spec fn written(tokens: Seq<TokenView>) -> Seq<char>
    decreases tokens.len(),
{
    if tokens.len() == 0 {
        Seq::empty()
    } else {
        token_text(tokens[0]) + written(tokens.drop_first())
    }
}

/// The text from position `from` on, with its separators left out.
pub open spec fn without_separators(text: Seq<char>, from: int) -> Seq<char>
    decreases text.len() - from,
{
    if 0 <= from < text.len() {
        if is_separator(text[from]) {
            without_separators(text, from + 1)
        } else {
            seq![text[from]] + without_separators(text, from + 1)
        }
    } else {
        Seq::empty()
    }
}

/// Every scan yields at least one token; the last one is the end marker, and no other
/// one is.
pub proof fn scan_ends_once(text: Seq<char>)
    ensures
        scan(text).len() >= 1,
        scan(text).last() == TokenView::EndOfInput,
        forall|i: int|
            0 <= i < scan(text).len() - 1 ==> #[trigger] scan(text)[i] != TokenView::EndOfInput,
{
    scan_from_ends_once(text, 0);
}

/// A text made of separators alone, the empty text among them, denotes the end marker
/// and nothing else.
pub proof fn separators_yield_no_token(text: Seq<char>)
    requires
        forall|i: int| 0 <= i < text.len() ==> is_separator(#[trigger] text[i]),
    ensures
        scan(text) == seq![TokenView::EndOfInput],
{
    separators_yield_no_token_from(text, 0);
}

proof fn separators_yield_no_token_from(text: Seq<char>, pos: int)
    requires
        forall|i: int| 0 <= i < text.len() ==> is_separator(#[trigger] text[i]),
        0 <= pos,
    ensures
        scan_from(text, pos) == seq![TokenView::EndOfInput],
    decreases text.len() - pos,
{
    if pos < text.len() {
        separators_yield_no_token_from(text, pos + 1);
    }
}

/// A symbol that stands alone denotes its token, followed by the end marker.
pub proof fn lone_symbol_yields_its_token(c: char)
    requires
        marker_token(c) is Some,
    ensures
        scan(seq![c]) == seq![marker_token(c)->0, TokenView::EndOfInput],
{
    let text = seq![c];
    assert(scan_from(text, 1) == seq![TokenView::EndOfInput]);
    assert(scan_from(text, 0) =~= seq![marker_token(c)->0] + scan_from(text, 1));
}

/// A stretch of chord material that stands alone denotes one chord with that very
/// name, followed by the end marker.
pub proof fn lone_chord_yields_its_name(name: Seq<char>)
    requires
        name.len() >= 1,
        forall|i: int| 0 <= i < name.len() ==> !is_reserved(#[trigger] name[i]),
    ensures
        scan(name) == seq![TokenView::Chord(name), TokenView::EndOfInput],
{
    run_end_is_greedy(name, 0);
    run_end_bounds(name, 0);
    assert(run_end(name, 0) == name.len());
    assert(name.subrange(0, name.len() as int) =~= name);
    assert(scan_from(name, name.len() as int) == seq![TokenView::EndOfInput]);
    assert(scan_from(name, 0) =~= seq![TokenView::Chord(name)] + scan_from(
        name,
        name.len() as int,
    ));
}

/// Every chord among the tokens has a name of at least one character, none of them
/// reserved.
pub proof fn chords_hold_chord_material(text: Seq<char>)
    ensures
        forall|i: int|
            0 <= i < scan(text).len() ==> (#[trigger] scan(text)[i] matches TokenView::Chord(
                name,
            ) ==> name.len() >= 1 && forall|j: int|
                0 <= j < name.len() ==> !is_reserved(#[trigger] name[j])),
{
    chords_hold_chord_material_from(text, 0);
}

proof fn chords_hold_chord_material_from(text: Seq<char>, pos: int)
    requires
        0 <= pos,
    ensures
        forall|i: int|
            0 <= i < scan_from(text, pos).len() ==> (#[trigger] scan_from(text, pos)[i] matches TokenView::Chord(
                name,
            ) ==> name.len() >= 1 && forall|j: int|
                0 <= j < name.len() ==> !is_reserved(#[trigger] name[j])),
    decreases text.len() - pos,
{
    if pos < text.len() {
        run_end_bounds(text, pos);
        run_end_is_greedy(text, pos);
        chords_hold_chord_material_from(text, lexeme_end(text, pos));
    }
}

/// Scanning a lexeme moves the cursor forward, and never past the end of the text.
pub proof fn step_moves_forward(state: LexerState)
    requires
        0 <= state.cursor < state.source.len(),
    ensures
        state.cursor < state.step().cursor <= state.source.len(),
        state.step().source == state.source,
{
    run_end_bounds(state.source, state.cursor);
}

/// Every character of the text is accounted for once: the widths of the tokens and the
/// number of separators add up to the length of the text.
pub proof fn scan_accounts_for_every_character(text: Seq<char>)
    ensures
        total_width(scan(text)) + separators_from(text, 0) == text.len(),
{
    scan_from_accounts_for_the_rest(text, 0);
}

proof fn scan_from_accounts_for_the_rest(text: Seq<char>, pos: int)
    requires
        0 <= pos <= text.len(),
    ensures
        total_width(scan_from(text, pos)) + separators_from(text, pos) == text.len() - pos,
    decreases text.len() - pos,
{
    if pos < text.len() {
        let end = lexeme_end(text, pos);
        let rest = scan_from(text, end);
        run_end_bounds(text, pos);
        scan_from_accounts_for_the_rest(text, end);
        match lexeme_token(text, pos) {
            Some(token) => {
                assert((seq![token] + rest).drop_first() =~= rest);
                if !is_reserved(text[pos]) {
                    run_holds_no_separator(text, pos);
                }
            },
            None => {},
        }
    } else {
        let only = seq![TokenView::EndOfInput];
        assert(total_width(only.drop_first()) == 0);
    }
}

/// Nothing but separators is lost, and nothing changes place: the tokens, written out
/// in order, are the text without its separators.
pub proof fn scan_keeps_all_but_separators(text: Seq<char>)
    ensures
        written(scan(text)) == without_separators(text, 0),
{
    scan_from_keeps_all_but_separators(text, 0);
}

proof fn scan_from_keeps_all_but_separators(text: Seq<char>, pos: int)
    requires
        0 <= pos <= text.len(),
    ensures
        written(scan_from(text, pos)) == without_separators(text, pos),
    decreases text.len() - pos,
{
    if pos < text.len() {
        let end = lexeme_end(text, pos);
        let rest = scan_from(text, end);
        run_end_bounds(text, pos);
        scan_from_keeps_all_but_separators(text, end);
        match lexeme_token(text, pos) {
            Some(token) => {
                assert((seq![token] + rest).drop_first() =~= rest);
                if !is_reserved(text[pos]) {
                    run_is_kept_whole(text, pos);
                }
            },
            None => {},
        }
    } else {
        let only = seq![TokenView::EndOfInput];
        assert(written(only.drop_first()) =~= Seq::<char>::empty());
        assert(written(only) =~= Seq::<char>::empty());
    }
}

/// Leaving out the separators keeps a run of chord material as it is.
proof fn run_is_kept_whole(text: Seq<char>, from: int)
    requires
        0 <= from <= text.len(),
    ensures
        without_separators(text, from) == text.subrange(from, run_end(text, from))
            + without_separators(text, run_end(text, from)),
    decreases text.len() - from,
{
    run_end_bounds(text, from);
    if from < text.len() && !is_reserved(text[from]) {
        run_is_kept_whole(text, from + 1);
        run_end_bounds(text, from + 1);
        assert(text.subrange(from, run_end(text, from)) =~= seq![text[from]] + text.subrange(
            from + 1,
            run_end(text, from),
        ));
    }
    assert(without_separators(text, from) =~= text.subrange(from, run_end(text, from))
        + without_separators(text, run_end(text, from)));
}

/// No separator stands inside a run of chord material.
proof fn run_holds_no_separator(text: Seq<char>, from: int)
    ensures
        separators_from(text, from) == separators_from(text, run_end(text, from)),
    decreases text.len() - from,
{
    if 0 <= from < text.len() && !is_reserved(text[from]) {
        run_holds_no_separator(text, from + 1);
    }
}

} // verus!
