use notation_lexer::{DurationKind, Lexer, RestKind, Token};

fn scan(text: &str) -> Vec<Token> {
    Lexer::new().scan_tokens(text)
}

fn chord(name: &str) -> Token {
    Token::Chord(String::from(name))
}

#[test]
fn empty_text_yields_only_the_end_marker() {
    assert_eq!(scan(""), vec![Token::EndOfInput]);
}

#[test]
fn separators_alone_yield_only_the_end_marker() {
    assert_eq!(scan("|"), vec![Token::EndOfInput]);
    assert_eq!(scan(" "), vec![Token::EndOfInput]);
    assert_eq!(scan("\t"), vec![Token::EndOfInput]);
    assert_eq!(scan("\n"), vec![Token::EndOfInput]);
    assert_eq!(scan("\r"), vec![Token::EndOfInput]);
    assert_eq!(scan("| \t\r\n ||  \n\n|"), vec![Token::EndOfInput]);
}

#[test]
fn whole_note_symbol() {
    assert_eq!(scan("O"), vec![Token::Duration(DurationKind::Whole), Token::EndOfInput]);
}

#[test]
fn whole_rest_symbol() {
    assert_eq!(scan("_"), vec![Token::Rest(RestKind::Whole), Token::EndOfInput]);
}

#[test]
fn half_note_symbol() {
    assert_eq!(scan("L"), vec![Token::Duration(DurationKind::Half), Token::EndOfInput]);
}

#[test]
fn half_rest_symbol() {
    assert_eq!(scan("~"), vec![Token::Rest(RestKind::Half), Token::EndOfInput]);
}

#[test]
fn quarter_note_symbol() {
    assert_eq!(scan("l"), vec![Token::Duration(DurationKind::Quarter), Token::EndOfInput]);
}

#[test]
fn quarter_rest_symbol() {
    assert_eq!(scan("}"), vec![Token::Rest(RestKind::Quarter), Token::EndOfInput]);
}

#[test]
fn eighth_note_symbol() {
    assert_eq!(scan(","), vec![Token::Duration(DurationKind::Eighth), Token::EndOfInput]);
}

#[test]
fn eighth_rest_symbol() {
    assert_eq!(scan("."), vec![Token::Rest(RestKind::Eighth), Token::EndOfInput]);
}

#[test]
fn lone_chord() {
    assert_eq!(scan("Am"), vec![chord("Am"), Token::EndOfInput]);
}

#[test]
fn chord_of_one_character() {
    assert_eq!(scan("G"), vec![chord("G"), Token::EndOfInput]);
    assert_eq!(scan("OGO"), vec![
        Token::Duration(DurationKind::Whole),
        chord("G"),
        Token::Duration(DurationKind::Whole),
        Token::EndOfInput,
    ]);
}

#[test]
fn symbols_end_a_chord_without_a_separator() {
    assert_eq!(scan("OAmL"), vec![
        Token::Duration(DurationKind::Whole),
        chord("Am"),
        Token::Duration(DurationKind::Half),
        Token::EndOfInput,
    ]);
}

#[test]
fn space_ends_a_chord_and_yields_nothing() {
    assert_eq!(scan("Am G"), vec![chord("Am"), chord("G"), Token::EndOfInput]);
}

#[test]
fn every_separator_ends_a_chord() {
    let expected = vec![chord("Am"), chord("G"), Token::EndOfInput];
    assert_eq!(scan("Am|G"), expected);
    assert_eq!(scan("Am\tG"), expected);
    assert_eq!(scan("Am\nG"), expected);
    assert_eq!(scan("Am\rG"), expected);
    assert_eq!(scan("Am \t|\r\n G"), expected);
}

#[test]
fn comma_between_chords_is_an_eighth_note() {
    assert_eq!(scan("Am,G"), vec![
        chord("Am"),
        Token::Duration(DurationKind::Eighth),
        chord("G"),
        Token::EndOfInput,
    ]);
}

#[test]
fn every_symbol_ends_a_chord() {
    assert_eq!(scan("C7OC7_C7LC7~C7lC7}C7,C7."), vec![
        chord("C7"),
        Token::Duration(DurationKind::Whole),
        chord("C7"),
        Token::Rest(RestKind::Whole),
        chord("C7"),
        Token::Duration(DurationKind::Half),
        chord("C7"),
        Token::Rest(RestKind::Half),
        chord("C7"),
        Token::Duration(DurationKind::Quarter),
        chord("C7"),
        Token::Rest(RestKind::Quarter),
        chord("C7"),
        Token::Duration(DurationKind::Eighth),
        chord("C7"),
        Token::Rest(RestKind::Eighth),
        Token::EndOfInput,
    ]);
}

#[test]
fn symbols_in_a_row_yield_no_empty_chord() {
    assert_eq!(scan("O_L~l},."), vec![
        Token::Duration(DurationKind::Whole),
        Token::Rest(RestKind::Whole),
        Token::Duration(DurationKind::Half),
        Token::Rest(RestKind::Half),
        Token::Duration(DurationKind::Quarter),
        Token::Rest(RestKind::Quarter),
        Token::Duration(DurationKind::Eighth),
        Token::Rest(RestKind::Eighth),
        Token::EndOfInput,
    ]);
    assert_eq!(scan("O | L"), vec![
        Token::Duration(DurationKind::Whole),
        Token::Duration(DurationKind::Half),
        Token::EndOfInput,
    ]);
}

#[test]
fn chord_text_is_kept_verbatim() {
    assert_eq!(scan("F#m7b5/C"), vec![chord("F#m7b5/C"), Token::EndOfInput]);
    assert_eq!(scan("am AM"), vec![chord("am"), chord("AM"), Token::EndOfInput]);
    assert_eq!(scan("?!{x"), vec![chord("?!{x"), Token::EndOfInput]);
}

#[test]
fn letters_that_are_symbols_split_a_word() {
    assert_eq!(scan("Sol"), vec![
        chord("So"),
        Token::Duration(DurationKind::Quarter),
        Token::EndOfInput,
    ]);
    assert_eq!(scan("DOL"), vec![
        chord("D"),
        Token::Duration(DurationKind::Whole),
        Token::Duration(DurationKind::Half),
        Token::EndOfInput,
    ]);
}

#[test]
fn characters_beyond_ascii_are_chord_material() {
    assert_eq!(scan("Ré♯ Mi♭,"), vec![
        chord("Ré♯"),
        chord("Mi♭"),
        Token::Duration(DurationKind::Eighth),
        Token::EndOfInput,
    ]);
    assert_eq!(scan("é"), vec![chord("é"), Token::EndOfInput]);
    assert_eq!(scan("\u{a0}"), vec![chord("\u{a0}"), Token::EndOfInput]);
}

#[test]
fn a_line_of_music() {
    assert_eq!(scan("| Am O | G L L |\n| C l l l l | ~ F , . |"), vec![
        chord("Am"),
        Token::Duration(DurationKind::Whole),
        chord("G"),
        Token::Duration(DurationKind::Half),
        Token::Duration(DurationKind::Half),
        chord("C"),
        Token::Duration(DurationKind::Quarter),
        Token::Duration(DurationKind::Quarter),
        Token::Duration(DurationKind::Quarter),
        Token::Duration(DurationKind::Quarter),
        Token::Rest(RestKind::Half),
        chord("F"),
        Token::Duration(DurationKind::Eighth),
        Token::Rest(RestKind::Eighth),
        Token::EndOfInput,
    ]);
}

#[test]
fn a_whole_note_is_not_a_whole_rest() {
    assert_ne!(Token::Duration(DurationKind::Whole), Token::Rest(RestKind::Whole));
    assert_ne!(scan("O"), scan("_"));
}

#[test]
fn tokens_compare_by_what_they_denote() {
    assert_eq!(chord("Am"), chord("Am"));
    assert_ne!(chord("Am"), chord("am"));
    assert_ne!(chord("O"), Token::Duration(DurationKind::Whole));
    assert_ne!(Token::Duration(DurationKind::Half), Token::Duration(DurationKind::Quarter));
    assert_ne!(Token::Rest(RestKind::Half), Token::Rest(RestKind::Eighth));
    assert_eq!(Token::EndOfInput, Token::EndOfInput);
    assert_ne!(Token::EndOfInput, chord(""));
}

#[test]
fn a_cloned_token_equals_its_original() {
    let tokens = scan("Am,_");
    let copies: Vec<Token> = tokens.iter().map(|token| token.clone()).collect();
    assert_eq!(copies, tokens);
    assert_eq!(copies, vec![
        chord("Am"),
        Token::Duration(DurationKind::Eighth),
        Token::Rest(RestKind::Whole),
        Token::EndOfInput,
    ]);
}
