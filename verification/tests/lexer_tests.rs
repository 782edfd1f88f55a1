use gur::diagnostics::lexical_message;
use gur::errors::Error;
use gur::lexer::{decode, scan, token_to_symbol, tokenize, LexError, Token};

fn chars(text: &str) -> Vec<char> {
    text.chars().collect()
}

#[test]
fn tokenize_small_program() {
    let tokens = tokenize("#5U.").unwrap();
    assert_eq!(tokens, vec![Token::CreatingNumber, Token::Digit(5), Token::Unload, Token::Stop]);
}

#[test]
fn tokenize_empty_text_is_valid() {
    assert_eq!(tokenize(""), Ok(vec![]));
    assert_eq!(tokenize("  \n\t "), Ok(vec![]));
}

#[test]
fn tokenize_strips_whitespace() {
    let tokens = tokenize(" # 1\n2\tU\r\n . ").unwrap();
    assert_eq!(
        tokens,
        vec![Token::CreatingNumber, Token::Digit(1), Token::Digit(2), Token::Unload, Token::Stop]
    );
}

#[test]
fn tokenize_strips_comments() {
    let tokens = tokenize("`set five` #5 `store\nit` U `x``y` .").unwrap();
    assert_eq!(tokens, vec![Token::CreatingNumber, Token::Digit(5), Token::Unload, Token::Stop]);
}

#[test]
fn tokenize_comment_is_shortest_match() {
    let tokens = tokenize("`a`+`b`").unwrap();
    assert_eq!(tokens, vec![Token::Add]);
}

#[test]
fn tokenize_is_deterministic() {
    let text = "#12U `c` ?_@ FfNnGgLl .";
    assert_eq!(tokenize(text), tokenize(text));
}

#[test]
fn tokenize_unknown_symbol_names_character_and_position() {
    assert_eq!(tokenize("#5x."), Err(LexError::UnknownSymbol { symbol: 'x', index: 2 }));
    assert_eq!(tokenize("z"), Err(LexError::UnknownSymbol { symbol: 'z', index: 0 }));
}

#[test]
fn tokenize_position_counts_after_stripping() {
    assert_eq!(
        tokenize(" # `note` 5\n  x ."),
        Err(LexError::UnknownSymbol { symbol: 'x', index: 2 })
    );
}

#[test]
fn tokenize_reports_first_unknown_symbol() {
    assert_eq!(tokenize("_y_z"), Err(LexError::UnknownSymbol { symbol: 'y', index: 1 }));
}

#[test]
fn tokenize_unclosed_comment_is_unknown_symbol() {
    assert_eq!(tokenize("#`5"), Err(LexError::UnknownSymbol { symbol: '`', index: 1 }));
}

#[test]
fn lex_error_kinds() {
    assert_eq!(LexError::UnknownSymbol { symbol: 'x', index: 0 }.kind(), Error::UnknownSymbolError);
    assert_eq!(LexError::Pattern.kind(), Error::FileError);
}

#[test]
fn scan_reads_left_to_right() {
    assert_eq!(
        scan(&chars("?!TtAa@")),
        Ok(vec![
            Token::ZeroOrEmpty,
            Token::NotZeroOrEmpty,
            Token::TgtZeroOrEmpty,
            Token::TgtNotZeroOrEmpty,
            Token::AccZeroOrEmpty,
            Token::AccNotZeroOrEmpty,
            Token::DestinationIfTrue,
        ])
    );
}

#[test]
fn scan_does_not_strip() {
    assert_eq!(scan(&chars("# 5")), Err(LexError::UnknownSymbol { symbol: ' ', index: 1 }));
}

#[test]
fn decode_digits_carry_value() {
    assert_eq!(decode('0'), Some(Token::Digit(0)));
    assert_eq!(decode('7'), Some(Token::Digit(7)));
    assert_eq!(decode('9'), Some(Token::Digit(9)));
}

#[test]
fn decode_polarity_flags() {
    assert_eq!(decode('F'), Some(Token::FlipD(true)));
    assert_eq!(decode('f'), Some(Token::FlipD(false)));
    assert_eq!(decode('N'), Some(Token::NotEq(true)));
    assert_eq!(decode('n'), Some(Token::NotEq(false)));
    assert_eq!(decode('G'), Some(Token::GE(true)));
    assert_eq!(decode('g'), Some(Token::GE(false)));
    assert_eq!(decode('L'), Some(Token::LE(true)));
    assert_eq!(decode('l'), Some(Token::LE(false)));
}

#[test]
fn decode_unknown_characters() {
    assert_eq!(decode('x'), None);
    assert_eq!(decode(' '), None);
    assert_eq!(decode('`'), None);
    assert_eq!(decode('é'), None);
}

#[test]
fn every_symbol_round_trips() {
    let table = "_.#0123456789UuRrCc?!TtAa@JjKkFfMm+-*/%=Nn>Gg<Ll&|~^isIS";
    let tokens = tokenize(table).unwrap();
    assert_eq!(tokens.len(), 56);
    let mut shown = String::new();
    for t in tokens.iter() {
        shown.push_str(token_to_symbol(Some(t)));
    }
    assert_eq!(shown, table);
}

#[test]
fn token_to_symbol_of_nothing() {
    assert_eq!(token_to_symbol(None), "<none>");
}

#[test]
fn token_to_symbol_of_bad_digit_is_empty() {
    assert_eq!(token_to_symbol(Some(&Token::Digit(10))), "");
    assert_eq!(token_to_symbol(Some(&Token::Digit(-1))), "");
    assert_eq!(token_to_symbol(Some(&Token::Digit(3))), "3");
}

#[test]
fn lexical_message_names_symbol_and_place() {
    assert_eq!(
        lexical_message(&LexError::UnknownSymbol { symbol: 'x', index: 2 }),
        "unrecognized symbol x found at index 2"
    );
    assert_eq!(
        lexical_message(&LexError::UnknownSymbol { symbol: 'é', index: 1203 }),
        "unrecognized symbol é found at index 1203"
    );
    assert_eq!(
        lexical_message(&tokenize(" # `note` 5\n  x .").unwrap_err()),
        "unrecognized symbol x found at index 2"
    );
    assert_eq!(lexical_message(&LexError::Pattern), "the comment pattern was not accepted");
}
