use lexer::{LexError, Lexer, Token};

fn scan_all(input: &str) -> Vec<Token> {
    let mut lexer = Lexer::new(String::from(input));
    let mut res = vec![];
    loop {
        let t = lexer.next_token().unwrap();
        let done = t == Token::EOF;
        res.push(t);
        if done {
            return res;
        }
    }
}

#[test]
fn test_next_token() {
    let input = String::from("=let+             192Batu{},;Umut Damla");
    let mut lexer = Lexer::new(input);
    let expected = vec![
        Token::Assign,
        Token::Let,
        Token::Plus,
        Token::Integer(192),
        Token::Identifier("Batu".into()),
        Token::LSquirly,
        Token::RSquirly,
        Token::Comma,
        Token::Semicolon,
        Token::Identifier("Umut".into()),
        Token::Identifier("Damla".into()),
        Token::EOF,
    ];
    let mut res = vec![];
    while lexer.ch() != 0 {
        res.push(lexer.next_token().unwrap());
    }
    res.push(lexer.next_token().unwrap());
    assert_eq!(res, expected);
}

#[test]
fn test_expression() {
    let input = String::from("let x = y + 15");
    let mut lexer = Lexer::new(input);
    let expected = vec![
        Token::Let,
        Token::Identifier("x".into()),
        Token::Assign,
        Token::Identifier("y".into()),
        Token::Plus,
        Token::Integer(15),
        Token::EOF,
    ];
    let mut res = vec![];
    while lexer.ch() != 0 {
        res.push(lexer.next_token().unwrap());
    }
    res.push(lexer.next_token().unwrap());
    assert_eq!(res, expected);
}

#[test]
fn empty_input_yields_end_of_input() {
    let mut lexer = Lexer::new(String::new());
    assert_eq!(lexer.ch(), 0);
    assert_eq!(lexer.next_token(), Ok(Token::EOF));
    assert_eq!(lexer.next_token(), Ok(Token::EOF));
    assert_eq!(lexer.position(), 0);
}

#[test]
fn end_of_input_repeats() {
    let mut lexer = Lexer::new(String::from("a  "));
    assert_eq!(lexer.next_token(), Ok(Token::Identifier("a".into())));
    for _ in 0..5 {
        assert_eq!(lexer.next_token(), Ok(Token::EOF));
        assert_eq!(lexer.position(), 3);
    }
}

#[test]
fn illegal_byte_advances_cursor() {
    let mut lexer = Lexer::new(String::from("@"));
    assert_eq!(lexer.next_token(), Ok(Token::Illegal));
    assert_eq!(lexer.position(), 1);
    assert_eq!(lexer.next_token(), Ok(Token::EOF));
}

#[test]
fn nul_byte_inside_input_is_illegal() {
    assert_eq!(
        scan_all("a\0b"),
        vec![Token::Identifier("a".into()), Token::Illegal, Token::Identifier("b".into()), Token::EOF]
    );
}

#[test]
fn non_ascii_bytes_are_illegal() {
    assert_eq!(scan_all("é"), vec![Token::Illegal, Token::Illegal, Token::EOF]);
}

#[test]
fn overflowing_literal_is_reported() {
    let mut lexer = Lexer::new(String::from("999999999999999999999999999999 x"));
    assert_eq!(lexer.next_token(), Err(LexError::Overflow));
    assert_eq!(lexer.position(), 30);
    assert_eq!(lexer.next_token(), Ok(Token::Identifier("x".into())));
}

#[test]
fn largest_literal_fits() {
    let max = usize::MAX.to_string();
    let mut lexer = Lexer::new(max.clone());
    assert_eq!(lexer.next_token(), Ok(Token::Integer(usize::MAX)));
    let over = (usize::MAX as u128 + 1).to_string();
    let mut lexer = Lexer::new(over);
    assert_eq!(lexer.next_token(), Err(LexError::Overflow));
}

#[test]
fn leading_zeros_are_decimal() {
    assert_eq!(scan_all("007"), vec![Token::Integer(7), Token::EOF]);
}

#[test]
fn keywords_take_precedence() {
    assert_eq!(
        scan_all("fn let lets _let f"),
        vec![
            Token::Function,
            Token::Let,
            Token::Identifier("lets".into()),
            Token::Identifier("_let".into()),
            Token::Identifier("f".into()),
            Token::EOF,
        ]
    );
}

#[test]
fn runs_are_maximal() {
    assert_eq!(
        scan_all("abc123def_G 4 5"),
        vec![
            Token::Identifier("abc".into()),
            Token::Integer(123),
            Token::Identifier("def_G".into()),
            Token::Integer(4),
            Token::Integer(5),
            Token::EOF,
        ]
    );
}

#[test]
fn all_punctuation() {
    assert_eq!(
        scan_all("=+,;(){}"),
        vec![
            Token::Assign,
            Token::Plus,
            Token::Comma,
            Token::Semicolon,
            Token::Lparen,
            Token::Rparen,
            Token::LSquirly,
            Token::RSquirly,
            Token::EOF,
        ]
    );
}

#[test]
fn every_whitespace_kind_is_skipped() {
    let mut lexer = Lexer::new(String::from(" \t\r\n x"));
    lexer.skip_whitespace();
    assert_eq!(lexer.position(), 5);
    assert_eq!(lexer.ch(), b'x');
    assert_eq!(scan_all("\t\n\r "), vec![Token::EOF]);
}

#[test]
fn cursor_follows_each_token() {
    let mut lexer = Lexer::new(String::from(" ab = 12;"));
    let mut ends = vec![];
    loop {
        let t = lexer.next_token().unwrap();
        ends.push(lexer.position());
        if t == Token::EOF {
            break;
        }
    }
    assert_eq!(ends, vec![3, 5, 8, 9, 9]);
}

#[test]
fn read_identifier_takes_the_run() {
    let mut lexer = Lexer::new(String::from("ab_C1"));
    assert!(lexer.is_letter());
    assert_eq!(lexer.read_identifier(), b"ab_C".to_vec());
    assert_eq!(lexer.position(), 4);
    assert!(!lexer.is_letter());
    assert!(lexer.is_number());
}

#[test]
fn read_number_takes_the_run() {
    let mut lexer = Lexer::new(String::from("4096x"));
    assert!(lexer.is_number());
    assert_eq!(lexer.read_number(), Ok(4096));
    assert_eq!(lexer.position(), 4);
    assert_eq!(lexer.ch(), b'x');
}

#[test]
fn letter_and_digit_classes() {
    for (input, letter, digit) in [("a", true, false), ("z", true, false), ("A", true, false), ("Z", true, false), ("_", true, false), ("0", false, true), ("9", false, true), ("@", false, false), ("`", false, false), ("[", false, false), ("/", false, false), (":", false, false)] {
        let lexer = Lexer::new(String::from(input));
        assert_eq!(lexer.is_letter(), letter, "{}", input);
        assert_eq!(lexer.is_number(), digit, "{}", input);
    }
}
