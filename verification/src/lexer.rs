//! The scanner: one pass over the text, one character of lookahead.

use vstd::prelude::*;
use crate::grammar::{
    is_reserved, lexeme_end, lexeme_token, run_end, run_end_bounds, scan, scan_from,
    scan_from_ends_once,
};
use crate::tokens::{DurationKind, RestKind, Token, TokenView};

verus! {

/// Cuts a text of musical shorthand into tokens.
///
/// A lexer is cheap to make and can scan any number of texts, one after the other.
/// Between scans it is idle: it keeps nothing of the text it scanned last.
pub struct Lexer {
    source: Vec<char>,
    tokens: Vec<Token>,
    current: usize,
}

/// What a [`Lexer`] holds at some moment of a scan.
pub struct LexerState {
    /// The text under scan.
    pub source: Seq<char>,
    /// The tokens found so far, in the order of the text.
    pub tokens: Seq<TokenView>,
    /// How many characters of the text have been consumed.
    pub cursor: int,
}

impl LexerState {
    /// The state between scans: no text, no tokens, the cursor at zero.
    pub open spec fn idle() -> LexerState {
        LexerState { source: Seq::empty(), tokens: Seq::empty(), cursor: 0 }
    }

    /// The cursor has reached the end of the text.
    pub open spec fn at_end(self) -> bool {
        self.cursor >= self.source.len()
    }

    /// The character under the cursor, if there is one.
    pub open spec fn lookahead(self) -> Option<char> {
        if 0 <= self.cursor < self.source.len() {
            Some(self.source[self.cursor])
        } else {
            None
        }
    }

    /// The state after the lexeme under the cursor has been scanned: the cursor stands
    /// just after it, and its token, if it yields one, has joined the output. At the
    /// end of the text nothing moves.
    pub open spec fn step(self) -> LexerState {
        if 0 <= self.cursor < self.source.len() {
            LexerState {
                source: self.source,
                tokens: match lexeme_token(self.source, self.cursor) {
                    Some(token) => self.tokens.push(token),
                    None => self.tokens,
                },
                cursor: lexeme_end(self.source, self.cursor),
            }
        } else {
            self
        }
    }

    /// The tokens found so far, followed by those that the rest of the text denotes.
    pub open spec fn outcome(self) -> Seq<TokenView> {
        self.tokens + scan_from(self.source, self.cursor)
    }
}

/// Scanning one lexeme moves a token from what is still to come to what has been found:
/// the outcome of the scan stays what it was.
pub proof fn step_keeps_outcome(state: LexerState)
    ensures
        state.step().outcome() == state.outcome(),
{
    assert(state.step().outcome() =~= state.outcome());
}

impl View for Lexer {
    type V = LexerState;

    closed spec fn view(&self) -> LexerState {
        LexerState {
            source: self.source@,
            tokens: self.tokens.deep_view(),
            cursor: self.current as int,
        }
    }
}

impl Lexer {
    /// A new lexer, idle.
    pub fn new() -> (lexer: Lexer)
        ensures
            lexer@ == LexerState::idle(),
    {
        let lexer = Lexer { source: Vec::new(), tokens: Vec::new(), current: 0 };
        assert(lexer.tokens.deep_view() =~= Seq::<TokenView>::empty());
        lexer
    }

    fn is_at_end(&self) -> (at_end: bool)
        ensures
            at_end == self@.at_end(),
    {
        self.current >= self.source.len()
    }

    /// Replaces the text under scan, decoding it into characters.
    fn set_source(&mut self, source: &str)
        ensures
            final(self)@ == (LexerState { source: source@, ..old(self)@ }),
    {
        let mut decoded: Vec<char> = Vec::new();
        for c in it: source.chars()
            invariant
                it.seq() == source@,
                decoded@ == source@.take(it.index()),
        {
            decoded.push(c);
        }
        assert(decoded@ =~= source@);
        self.source = decoded;
    }

    fn add_token(&mut self, token: Token)
        ensures
            final(self)@ == (LexerState {
                tokens: old(self)@.tokens.push(token@),
                ..old(self)@
            }),
    {
        self.tokens.push(token);
        assert(self.tokens.deep_view() =~= old(self).tokens.deep_view().push(token@));
    }

    /// Consumes the character under the cursor and hands it out. At the end of the text
    /// there is none, and the cursor stays.
    fn advance(&mut self) -> (next: Option<char>)
        ensures
            next == old(self)@.lookahead(),
            final(self)@ == (LexerState {
                cursor: if next is Some {
                    old(self)@.cursor + 1
                } else {
                    old(self)@.cursor
                },
                ..old(self)@
            }),
    {
        if self.current < self.source.len() {
            let c = self.source[self.current];
            self.current += 1;
            Some(c)
        } else {
            None
        }
    }

    /// The character under the cursor, left where it is.
    fn peek(&self) -> (next: Option<char>)
        ensures
            next == self@.lookahead(),
    {
        if self.current < self.source.len() {
            Some(self.source[self.current])
        } else {
            None
        }
    }

    fn is_chord_character(&self, c: &char) -> (chord_material: bool)
        ensures
            chord_material == !is_reserved(*c),
    {
        let c = *c;
        !(c == 'O' || c == '_' || c == 'L' || c == '~' || c == 'l' || c == '}' || c == ','
            || c == '.' || c == '|' || c == ' ' || c == '\t' || c == '\n' || c == '\r')
    }

    /// Scans `source` from its first character to its last and returns its tokens.
    ///
    /// The result is the token sequence that the grammar gives to the text, whatever the
    /// lexer did before: it ends in `EndOfInput`, which occurs nowhere else in it. The
    /// lexer is idle again afterwards.
    pub fn scan_tokens(&mut self, source: &str) -> (tokens: Vec<Token>)
        ensures
            tokens.deep_view() == scan(source@),
            tokens.len() >= 1,
            tokens[tokens.len() - 1] == Token::EndOfInput,
            forall|i: int| 0 <= i < tokens.len() - 1 ==> tokens[i] != Token::EndOfInput,
            final(self)@ == LexerState::idle(),
    {
        self.reset();
        self.set_source(source);
        while !self.is_at_end()
            invariant
                self@.source == source@,
                self@.cursor >= 0,
                self@.outcome() == scan(source@),
            decreases source@.len() - self@.cursor,
        {
            proof {
                step_keeps_outcome(self@);
                run_end_bounds(source@, self@.cursor);
            }
            self.scan_token();
        }
        self.add_token(Token::EndOfInput);
        let mut tokens: Vec<Token> = Vec::new();
        core::mem::swap(&mut self.tokens, &mut tokens);
        proof {
            scan_from_ends_once(source@, 0);
            assert(tokens.deep_view() =~= scan(source@));
            assert forall|i: int| 0 <= i < tokens.len() - 1 implies tokens[i]
                != Token::EndOfInput by {
                assert(tokens.deep_view()[i] == tokens[i]@);
            }
        }
        self.reset();
        tokens
    }

    /// Brings the lexer back to its idle state.
    fn reset(&mut self)
        ensures
            final(self)@ == LexerState::idle(),
    {
        self.source = Vec::new();
        self.tokens = Vec::new();
        self.current = 0;
        assert(self.tokens.deep_view() =~= Seq::<TokenView>::empty());
    }

    /// Scans one lexeme at the cursor and adds its token, if it has one, to the output.
    fn scan_token(&mut self)
        ensures
            final(self)@ == old(self)@.step(),
    {
        let ghost text = self@.source;
        let ghost start = self@.cursor;
        let c = self.advance();
        match c {
            None => (),
            Some(c) => match c {
                'O' => self.add_token(Token::Duration(DurationKind::Whole)),
                '_' => self.add_token(Token::Rest(RestKind::Whole)),
                'L' => self.add_token(Token::Duration(DurationKind::Half)),
                '~' => self.add_token(Token::Rest(RestKind::Half)),
                'l' => self.add_token(Token::Duration(DurationKind::Quarter)),
                '}' => self.add_token(Token::Rest(RestKind::Quarter)),
                ',' => self.add_token(Token::Duration(DurationKind::Eighth)),
                '.' => self.add_token(Token::Rest(RestKind::Eighth)),
                '|' | ' ' | '\n' | '\t' | '\r' => (),
                _ => {
                    let mut chord = String::new();
                    chord.push(c);
                    let p = self.peek();
                    let mut cond = p.is_some() && self.is_chord_character(&p.unwrap());
                    assert(chord@ =~= text.subrange(start, start + 1));
                    while cond
                        invariant
                            self@.source == text,
                            self@.tokens == old(self)@.tokens,
                            0 <= start < self@.cursor <= text.len(),
                            chord@ == text.subrange(start, self@.cursor),
                            run_end(text, start) == run_end(text, self@.cursor),
                            cond == (self@.cursor < text.len() && !is_reserved(
                                text[self@.cursor],
                            )),
                        decreases text.len() - self@.cursor,
                    {
                        let ghost before = self@.cursor;
                        let c = self.advance().unwrap();
                        chord.push(c);
                        let p = self.peek();
                        cond = p.is_some() && self.is_chord_character(&p.unwrap());
                        assert(chord@ =~= text.subrange(start, before + 1));
                    }
                    self.add_token(Token::Chord(chord))
                },
            },
        }
    }
}

impl Default for Lexer {
    fn default() -> (lexer: Lexer)
        ensures
            lexer@ == LexerState::idle(),
    {
        Lexer::new()
    }
}

} // verus!
