use vstd::prelude::*;

use crate::token::Lexeme;

verus! {

// The ASCII bytes that the scanner tells apart.
pub const LOWER_A: u8 = 97;
pub const LOWER_Z: u8 = 122;
pub const UPPER_A: u8 = 65;
pub const UPPER_Z: u8 = 90;
pub const UNDERSCORE: u8 = 95;
pub const DIGIT_ZERO: u8 = 48;
pub const DIGIT_NINE: u8 = 57;
pub const SPACE: u8 = 32;
pub const TAB: u8 = 9;
pub const NEWLINE: u8 = 10;
pub const CARRIAGE_RETURN: u8 = 13;
pub const EQUALS: u8 = 61;
pub const PLUS_SIGN: u8 = 43;
pub const COMMA: u8 = 44;
pub const SEMICOLON: u8 = 59;
pub const LEFT_PAREN: u8 = 40;
pub const RIGHT_PAREN: u8 = 41;
pub const LEFT_BRACE: u8 = 123;
pub const RIGHT_BRACE: u8 = 125;

/// The bytes of the reserved word `let`.
pub open spec fn let_word() -> Seq<u8> {
    seq![108u8, 101u8, 116u8]
}

/// The bytes of the reserved word `fn`.
pub open spec fn fn_word() -> Seq<u8> {
    seq![102u8, 110u8]
}

/// ASCII letters and the underscore: the bytes an identifier is made of.
pub open spec fn is_letter_byte(b: u8) -> bool {
    (LOWER_A <= b && b <= LOWER_Z) || (UPPER_A <= b && b <= UPPER_Z) || b == UNDERSCORE
}

/// ASCII decimal digits.
pub open spec fn is_digit_byte(b: u8) -> bool {
    DIGIT_ZERO <= b && b <= DIGIT_NINE
}

/// Space, tab, newline and carriage return separate tokens and are skipped.
pub open spec fn is_whitespace_byte(b: u8) -> bool {
    b == SPACE || b == TAB || b == NEWLINE || b == CARRIAGE_RETURN
}

/// The token of a single-byte punctuation mark, if `b` is one.
pub open spec fn punctuation(b: u8) -> Option<Lexeme> {
    if b == EQUALS {
        Some(Lexeme::Assign)
    } else if b == PLUS_SIGN {
        Some(Lexeme::Plus)
    } else if b == COMMA {
        Some(Lexeme::Comma)
    } else if b == SEMICOLON {
        Some(Lexeme::Semicolon)
    } else if b == LEFT_PAREN {
        Some(Lexeme::LParen)
    } else if b == RIGHT_PAREN {
        Some(Lexeme::RParen)
    } else if b == LEFT_BRACE {
        Some(Lexeme::LBrace)
    } else if b == RIGHT_BRACE {
        Some(Lexeme::RBrace)
    } else {
        None
    }
}

/// The byte under the cursor at `p`, or `0` once the cursor is past the input.
pub open spec fn byte_at(s: Seq<u8>, p: int) -> u8 {
    if 0 <= p < s.len() {
        s[p]
    } else {
        0
    }
}

/// The first position at or after `p` that does not hold whitespace.
pub open spec fn skip_whitespace_from(s: Seq<u8>, p: int) -> int
    decreases s.len() - p,
{
    if 0 <= p < s.len() && is_whitespace_byte(s[p]) {
        skip_whitespace_from(s, p + 1)
    } else {
        p
    }
}

/// The end of the maximal run of letters that starts at `p`.
pub open spec fn letter_run_end(s: Seq<u8>, p: int) -> int
    decreases s.len() - p,
{
    if 0 <= p < s.len() && is_letter_byte(s[p]) {
        letter_run_end(s, p + 1)
    } else {
        p
    }
}

/// The end of the maximal run of digits that starts at `p`.
pub open spec fn digit_run_end(s: Seq<u8>, p: int) -> int
    decreases s.len() - p,
{
    if 0 <= p < s.len() && is_digit_byte(s[p]) {
        digit_run_end(s, p + 1)
    } else {
        p
    }
}

/// The value of a sequence of decimal digits, most significant first.
pub open spec fn decimal_value(d: Seq<u8>) -> nat
    decreases d.len(),
{
    if d.len() == 0 {
        0
    } else {
        decimal_value(d.drop_last()) * 10 + (d.last() - DIGIT_ZERO) as nat
    }
}

/// The reserved word spelled by `word`, if any.
pub open spec fn keyword(word: Seq<u8>) -> Option<Lexeme> {
    if word == let_word() {
        Some(Lexeme::Let)
    } else if word == fn_word() {
        Some(Lexeme::Function)
    } else {
        None
    }
}

/// The token that starts at position `q`, where no whitespace stands.
pub open spec fn lexeme_at(s: Seq<u8>, q: int) -> Lexeme {
    if q >= s.len() {
        Lexeme::EndOfInput
    } else if punctuation(s[q]) is Some {
        punctuation(s[q])->0
    } else if is_letter_byte(s[q]) {
        let word = s.subrange(q, letter_run_end(s, q));
        match keyword(word) {
            Some(k) => k,
            None => Lexeme::Identifier(word),
        }
    } else if is_digit_byte(s[q]) {
        Lexeme::Integer(decimal_value(s.subrange(q, digit_run_end(s, q))))
    } else {
        Lexeme::Illegal
    }
}

/// Where the cursor stands after the token that starts at `q`.
pub open spec fn lexeme_end(s: Seq<u8>, q: int) -> int {
    if q >= s.len() {
        s.len() as int
    } else if punctuation(s[q]) is Some {
        q + 1
    } else if is_letter_byte(s[q]) {
        letter_run_end(s, q)
    } else if is_digit_byte(s[q]) {
        digit_run_end(s, q)
    } else {
        q + 1
    }
}

/// The token that one call produces with the cursor at `p`.
pub open spec fn next_lexeme(s: Seq<u8>, p: int) -> Lexeme {
    lexeme_at(s, skip_whitespace_from(s, p))
}

/// Where one call leaves a cursor that stood at `p`.
pub open spec fn next_position(s: Seq<u8>, p: int) -> int {
    lexeme_end(s, skip_whitespace_from(s, p))
}

/// Whether the call with the cursor at `p` meets an integer literal too large for `usize`.
pub open spec fn next_overflows(s: Seq<u8>, p: int) -> bool {
    match next_lexeme(s, p) {
        Lexeme::Integer(n) => n > usize::MAX,
        _ => false,
    }
}

} // verus!
