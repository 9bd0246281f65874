use crablox::scanner::LoxScanner;
use crablox::token::Token;
use crablox::token::TokenData::{
    And, Bang, BangEqual, Class, Comma, Dot, Else, EndOfFile, Equal, EqualEqual, False, For, Fun,
    Greater, GreaterEqual, Identifier, If, LeftBrace, LeftParen, Less, LessEqual, Minus, Nil,
    Number, Or, Percent, Plus, Print, Return, RightBrace, RightParen, Semicolon, Slash, Star,
    StringData, Super, This, True, Var, While,
};

fn num(x: f64) -> u64 {
    x.to_bits()
}

fn test_scan_generic(in_string: &str, expected_tokens: Vec<Token>) {
    let mut scanner = LoxScanner::new(in_string);
    let tokens = scanner.scan_tokens().expect("Unknown scanning failure.");

    let mut i = 0;
    for expected in expected_tokens {
        assert_eq!(
            expected,
            tokens[i],
            "Expected to recieve token on left, got token on right."
        );
        i += 1;
    };
}

#[test]
fn scanner_test_scan_delimiters() {
    let expected_tokens = vec![
        Token::new(LeftParen, 1),
        Token::new(RightParen, 1),
        Token::new(LeftBrace, 1),
        Token::new(RightBrace, 1),
        Token::new(Dot, 1),
        Token::new(Comma, 1),
        Token::new(Semicolon, 1),
        Token::new(EndOfFile, 1),
    ];
    test_scan_generic("(){}.,;", expected_tokens);
}

#[test]
fn scanner_test_scan_math_ops() {
    let expected_tokens = vec![
        Token::new(Plus, 1),
        Token::new(Minus, 1),
        Token::new(Star, 1),
        Token::new(Slash, 1),
        Token::new(Percent, 1),
        Token::new(EndOfFile, 1),
    ];
    test_scan_generic("+-*/%", expected_tokens);
}

#[test]
fn scanner_test_scan_comparators() {
    let expected_tokens = vec![
        Token::new(Less, 1),
        Token::new(Greater, 1),
        Token::new(LessEqual, 1),
        Token::new(GreaterEqual, 1),
        Token::new(BangEqual, 1),
        Token::new(EqualEqual, 1),
        Token::new(EndOfFile, 1),
    ];
    test_scan_generic("<><=>=!===", expected_tokens);
}

#[test]
fn scanner_test_scan_comments() {
    let comment_str = "\
//This comment should be ignored.
//Same with this one.";
    let expected_tokens = vec![
        Token::new(EndOfFile, 2),
    ];
    test_scan_generic(comment_str, expected_tokens);
}

#[test]
fn scanner_test_scan_strings() {
    let string_str = "\
\"This string should be processed.\"
\"Same with this one.\"";
    let expected_tokens = vec![
        Token::new(StringData(String::from("This string should be processed.")), 1),
        Token::new(StringData(String::from("Same with this one.")), 2),
        Token::new(EndOfFile, 2),
    ];
    test_scan_generic(string_str, expected_tokens);
}

#[test]
fn scanner_test_scan_numbers() {
    let number_str = "\
3.45
83
245.30";
    let expected_tokens = vec![
        Token::new(Number(num(3.45)), 1),
        Token::new(Number(num(83.0)), 2),
        Token::new(Number(num(245.3)), 3),
        Token::new(EndOfFile, 3),
    ];
    test_scan_generic(number_str, expected_tokens);
}

#[test]
fn scanner_test_scan_identifiers() {
    let identifier_str = "\
nil true false and class else
fun for if or print return super
this var while foo bar foobar2 cr4b";
    let expected_tokens = vec![
        Token::new(Nil, 1),
        Token::new(True, 1),
        Token::new(False, 1),
        Token::new(And, 1),
        Token::new(Class, 1),
        Token::new(Else, 1),
        Token::new(Fun, 2),
        Token::new(For, 2),
        Token::new(If, 2),
        Token::new(Or, 2),
        Token::new(Print, 2),
        Token::new(Return, 2),
        Token::new(Super, 2),
        Token::new(This, 3),
        Token::new(Var, 3),
        Token::new(While, 3),
        Token::new(Identifier(String::from("foo")), 3),
        Token::new(Identifier(String::from("bar")), 3),
        Token::new(Identifier(String::from("foobar2")), 3),
        Token::new(Identifier(String::from("cr4b")), 3),
        Token::new(EndOfFile, 3),
    ];
    test_scan_generic(identifier_str, expected_tokens);
}

#[test]
fn scanner_test_scan_misc() {
    let misc_str = "= !";
    let expected_tokens = vec![
        Token::new(Equal, 1),
        Token::new(Bang, 1),
        Token::new(EndOfFile, 1),
    ];
    test_scan_generic(misc_str, expected_tokens);
}

#[test]
fn test_scan_range_edges() {
    let misc_str = "000.0 999.9 AAA zzz \"AAA\" \"zzz\"";
    let expected_tokens = vec![
        Token::new(Number(num(0.0)), 1),
        Token::new(Number(num(999.9)), 1),
        Token::new(Identifier(String::from("AAA")), 1),
        Token::new(Identifier(String::from("zzz")), 1),
        Token::new(StringData(String::from("AAA")), 1),
        Token::new(StringData(String::from("zzz")), 1),
        Token::new(EndOfFile, 1),
    ];
    test_scan_generic(misc_str, expected_tokens);
}

#[test]
fn scanner_test_scan_program() {
        let program_str = "\
for (var i = 0; i <= 10; i = i + 1) {
    print \"Looping once again~\";
    print i;
    myFunction();
    // Helpful documentation
}";
        let expected_tokens = vec![
            Token::new(For, 1),
            Token::new(LeftParen, 1),
            Token::new(Var, 1),
            Token::new(Identifier(String::from("i")), 1),
            Token::new(Equal, 1),
            Token::new(Number(num(0.0)), 1),
            Token::new(Semicolon, 1),
            Token::new(Identifier(String::from("i")), 1),
            Token::new(LessEqual, 1),
            Token::new(Number(num(10.0)), 1),
            Token::new(Semicolon, 1),
            Token::new(Identifier(String::from("i")), 1),
            Token::new(Equal, 1),
            Token::new(Identifier(String::from("i")), 1),
            Token::new(Plus, 1),
            Token::new(Number(num(1.0)), 1),
            Token::new(RightParen, 1),
            Token::new(LeftBrace, 1),

            Token::new(Print, 2),
            Token::new(StringData(String::from("Looping once again~")), 2),
            Token::new(Semicolon, 2),

            Token::new(Print, 3),
            Token::new(Identifier(String::from("i")), 3),
            Token::new(Semicolon, 3),

            Token::new(Identifier(String::from("myFunction")), 4),
            Token::new(LeftParen, 4),
            Token::new(RightParen, 4),
            Token::new(Semicolon, 4),

            // Comment on line 5 yields no tokens

            Token::new(RightBrace, 6),
            Token::new(EndOfFile, 6),
        ];
        test_scan_generic(program_str, expected_tokens);
}

#[test]
fn test_error_unexpected_char() {
    let string_str = "\
#@
$";
    let mut scanner = LoxScanner::new(string_str);
    let outcome = scanner.scan_tokens();
    if let Err(error_strings) = outcome {
        assert_eq!(
            3,
            error_strings.len(),
            "Expected to recieve 3 errors, got {}.", error_strings.len()
        );
        assert_eq!(
            vec![
                String::from("[Line 1] Error: Unexpected character '#'."),
                String::from("[Line 1] Error: Unexpected character '@'."),
                String::from("[Line 2] Error: Unexpected character '$'."),
            ],
            error_strings,
            "Expected to recieve error message on left, got error message on right."
        );
    } else {
        panic!("Unterminated string failed to return an error.");
    }
}

#[test]
fn scanner_test_error_unterminated_string() {
    let string_str = "\
        \"This string is unterminated.
        It even trails onto a second line. Yikes.";
    let mut scanner = LoxScanner::new(string_str);
    let outcome = scanner.scan_tokens();
    if let Err(error_strings) = outcome {
        assert_eq!(
            1,
            error_strings.len(),
            "Expected to recieve 1 error, got {}.", error_strings.len()
        );
        assert_eq!(
            String::from("[Line 2] Error: Unterminated string starting at line [1]."),
            error_strings[0],
            "Expected to recieve error message on left, got error message on right."
        );
    } else {
        panic!("Unterminated string failed to return an error.");
    }
}

#[test]
fn test_repeated_calls() {
    let mut valid_scanner = LoxScanner::new("...");
    let _ = valid_scanner.scan_tokens(); // discard
    let tokens = valid_scanner.scan_tokens().expect("Unknown scanning failure.");
    let expected_tokens = vec![Token::new(Dot, 1), Token::new(Dot, 1), Token::new(Dot, 1), Token::new(EndOfFile, 1)];
    assert_eq!(
        tokens,
        expected_tokens,
        "Was unable to accurately fetch scan_tokens() on a repeated call to a valid LoxScanner object."
    );

    let mut invalid_scanner = LoxScanner::new("@");
    let _ = invalid_scanner.scan_tokens(); // discard
    let error = invalid_scanner.scan_tokens();
    let expected_error_str = String::from("[Line 1] Error: Unexpected character '@'.");
    let expected_error: Result<Vec<Token>, Vec<String>> = Err(vec![expected_error_str]);
    assert_eq!(
        error,
        expected_error,
        "Was unable to accurately fetch scan_tokens() on a repeated call to an invalid LoxScanner object."
    );
}
