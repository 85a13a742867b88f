//! Tests for the token layer of the textual object format.

use hieratika::format::{render_tokens, tokenize, usize_to_string, Token};

#[test]
fn decimal_rendering_is_canonical() {
    assert_eq!(usize_to_string(0), "0");
    assert_eq!(usize_to_string(7), "7");
    assert_eq!(usize_to_string(90210), "90210");
}

#[test]
fn token_round_trip() {
    let tokens = vec![
        Token::Open,
        Token::Num(0),
        Token::Num(12345),
        Token::Text("hello world".to_string()),
        Token::Text("".to_string()),
        Token::Text("s7:tricky ( ) 12".to_string()),
        Token::Close,
    ];
    let text = render_tokens(&tokens);
    let back = tokenize(&text).expect("a rendering must tokenize");
    assert_eq!(back, tokens);
}

#[test]
fn tokenizer_rejects_garbage() {
    assert!(tokenize("( x )").is_none());
    assert!(tokenize("s99:short ").is_none());
    assert!(tokenize("(").is_none());
}
