use vstd::prelude::*;

verus! {

/// One classified lexical unit, as handed to the caller.
#[derive(Debug, PartialEq)]
pub enum Token {
    Illegal,
    EOF,
    Identifier(Vec<u8>),
    Integer(usize),
    Assign,
    Plus,
    Comma,
    Semicolon,
    Lparen,
    Rparen,
    LSquirly,
    RSquirly,
    Function,
    Let,
}

/// The mathematical meaning of a token: identifier text as a byte sequence,
/// integer literals as unbounded naturals.
pub enum Lexeme {
    Illegal,
    EndOfInput,
    Identifier(Seq<u8>),
    Integer(nat),
    Assign,
    Plus,
    Comma,
    Semicolon,
    LParen,
    RParen,
    LBrace,
    RBrace,
    Function,
    Let,
}

/// The one way scanning can fail: a digit run whose value does not fit in `usize`.
#[derive(Debug, PartialEq, Eq, Structural, Clone, Copy)]
pub enum LexError {
    Overflow,
}

impl View for Token {
    type V = Lexeme;

    open spec fn view(&self) -> Lexeme {
        match self {
            Token::Illegal => Lexeme::Illegal,
            Token::EOF => Lexeme::EndOfInput,
            Token::Identifier(v) => Lexeme::Identifier(v@),
            Token::Integer(n) => Lexeme::Integer(*n as nat),
            Token::Assign => Lexeme::Assign,
            Token::Plus => Lexeme::Plus,
            Token::Comma => Lexeme::Comma,
            Token::Semicolon => Lexeme::Semicolon,
            Token::Lparen => Lexeme::LParen,
            Token::Rparen => Lexeme::RParen,
            Token::LSquirly => Lexeme::LBrace,
            Token::RSquirly => Lexeme::RBrace,
            Token::Function => Lexeme::Function,
            Token::Let => Lexeme::Let,
        }
    }
}

} // verus!
