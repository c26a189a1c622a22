//! The tokens that a scan produces, and their mathematical view.

use vstd::prelude::*;
use vstd::std_specs::cmp::PartialEqSpecImpl;

verus! {

/// Relative length of a played note.
#[derive(Clone, Copy, Debug, PartialEq, Eq, Hash, Structural)]
pub enum DurationKind {
    Whole,
    Half,
    Quarter,
    Eighth,
}

/// Relative length of a silence.
#[derive(Clone, Copy, Debug, PartialEq, Eq, Hash, Structural)]
pub enum RestKind {
    Whole,
    Half,
    Quarter,
    Eighth,
}

/// One unit of scanner output.
#[derive(Debug, Hash)]
pub enum Token {
    /// A played note of the given length.
    Duration(DurationKind),
    /// A silence of the given length.
    Rest(RestKind),
    /// The name of a chord, exactly as it stood in the text.
    Chord(String),
    /// Marks the end of a scan.
    EndOfInput,
}

/// What a [`Token`] denotes: the same four cases, with the chord name as a sequence of
/// characters.
pub enum TokenView {
    Duration(DurationKind),
    Rest(RestKind),
    Chord(Seq<char>),
    EndOfInput,
}

impl View for Token {
    type V = TokenView;

    open spec fn view(&self) -> TokenView {
        match *self {
            Token::Duration(kind) => TokenView::Duration(kind),
            Token::Rest(kind) => TokenView::Rest(kind),
            Token::Chord(name) => TokenView::Chord(name@),
            Token::EndOfInput => TokenView::EndOfInput,
        }
    }
}

impl DeepView for Token {
    type V = TokenView;

    open spec fn deep_view(&self) -> TokenView {
        self@
    }
}

impl Clone for Token {
    /// The copy denotes what the original denotes.
    fn clone(&self) -> (copy: Token)
        ensures
            copy@ == self@,
    {
        match self {
            Token::Duration(kind) => Token::Duration(*kind),
            Token::Rest(kind) => Token::Rest(*kind),
            Token::Chord(name) => Token::Chord(name.clone()),
            Token::EndOfInput => Token::EndOfInput,
        }
    }
}

impl PartialEq for Token {
    /// Two tokens are equal when they denote the same thing.
    fn eq(&self, other: &Token) -> (equal: bool) {
        match (self, other) {
            (Token::Duration(a), Token::Duration(b)) => *a == *b,
            (Token::Rest(a), Token::Rest(b)) => *a == *b,
            (Token::Chord(a), Token::Chord(b)) => *a == *b,
            (Token::EndOfInput, Token::EndOfInput) => true,
            _ => false,
        }
    }
}

impl Eq for Token {

}

impl PartialEqSpecImpl for Token {
    open spec fn obeys_eq_spec() -> bool {
        true
    }

    open spec fn eq_spec(&self, other: &Token) -> bool {
        self@ == other@
    }
}

} // verus!
