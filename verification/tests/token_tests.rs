use crablox::token::{Token, TokenData};

#[test]
fn lox_token_construct_identifier() {
    let my_token = Token {
        data : TokenData::Identifier(String::from("println")),
        line : 5,
    };

    assert_eq!(
        "[5] Identifier | println",
        my_token.to_string(),
    );

    let my_token = TokenData::Identifier(String::from("println"));
    assert_eq!(
        "Identifier | println",
        my_token.to_string(),
    );
}

#[test]
fn construct_left_paren() {
    let my_token = TokenData::LeftParen;
    assert_eq!(
        "(",
        my_token.to_string(),
    );
}

#[test]
fn construct_string() {
    let my_token = TokenData::StringData(String::from("Hello world!"));
    assert_eq!(
        "String | \"Hello world!\"",
        my_token.to_string(),
    );
}

#[test]
fn construct_number() {
    let my_token = TokenData::Number(42.0f64.to_bits());
    assert_eq!(
        "Number | 42",
        my_token.to_string(),
    );
}
