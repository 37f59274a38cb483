use vstd::prelude::*;
use vstd::slice::slice_to_vec;
use vstd::utf8::encode_utf8;

use crate::model::{
    byte_at, decimal_value, digit_run_end, fn_word, is_digit_byte, is_letter_byte, keyword,
    let_word, letter_run_end, next_lexeme, next_overflows, next_position, punctuation,
    skip_whitespace_from, CARRIAGE_RETURN, COMMA, DIGIT_NINE, DIGIT_ZERO, EQUALS, LEFT_BRACE,
    LEFT_PAREN, LOWER_A, LOWER_Z, NEWLINE, PLUS_SIGN, RIGHT_BRACE, RIGHT_PAREN, SEMICOLON, SPACE,
    TAB, UNDERSCORE, UPPER_A, UPPER_Z,
};
use crate::token::{LexError, Lexeme, Token};

verus! {

/// A cursor over an immutable byte buffer that hands out one token per call.
pub struct Lexer {
    input: Vec<u8>,
    /// Index of the byte under examination; equals the input length once exhausted.
    position: usize,
    /// Index of the next byte to read; stays at the input length once exhausted.
    read_position: usize,
    /// The byte at `position`, or `0` past the end of the input.
    ch: u8,
}

/// The token of a single-byte punctuation mark, if `b` is one.
fn punctuation_token(b: u8) -> (r: Option<Token>)
    ensures
        match r {
            Some(t) => punctuation(b) == Some(t@),
            None => punctuation(b) is None,
        },
{
    if b == EQUALS {
        Some(Token::Assign)
    } else if b == PLUS_SIGN {
        Some(Token::Plus)
    } else if b == COMMA {
        Some(Token::Comma)
    } else if b == SEMICOLON {
        Some(Token::Semicolon)
    } else if b == LEFT_PAREN {
        Some(Token::Lparen)
    } else if b == RIGHT_PAREN {
        Some(Token::Rparen)
    } else if b == LEFT_BRACE {
        Some(Token::LSquirly)
    } else if b == RIGHT_BRACE {
        Some(Token::RSquirly)
    } else {
        None
    }
}

/// The reserved-word token spelled by `word`, or an identifier holding it.
fn keyword_or_identifier(word: Vec<u8>) -> (t: Token)
    ensures
        t@ == match keyword(word@) {
            Some(k) => k,
            None => Lexeme::Identifier(word@),
        },
{
    // `let` is 108, 101, 116 and `fn` is 102, 110.
    if word.len() == 3 && word[0] == 108 && word[1] == 101 && word[2] == 116 {
        assert(word@ =~= let_word());
        Token::Let
    } else if word.len() == 2 && word[0] == 102 && word[1] == 110 {
        assert(word@ =~= fn_word());
        Token::Function
    } else {
        assert(word@ != let_word() && word@ != fn_word()) by {
            if word@ == let_word() {
                assert(let_word()[1] == 101u8);
            }
            if word@ == fn_word() {
                assert(fn_word()[1] == 110u8);
            }
        }
        Token::Identifier(word)
    }
}

impl Lexer {
    /// The bytes being scanned.
    pub closed spec fn bytes(&self) -> Seq<u8> {
        self.input@
    }

    /// The cursor: the index of the byte under examination.
    pub closed spec fn pos(&self) -> int {
        self.position as int
    }

    /// The cursor lies within the input (or just past it), the lookahead index
    /// follows it, and the examined byte is the one under the cursor.
    pub closed spec fn wf(&self) -> bool {
        &&& self.position <= self.input.len()
        &&& self.read_position == if self.position < self.input.len() {
            self.position + 1
        } else {
            self.position as int
        }
        &&& self.ch == byte_at(self.input@, self.position as int)
    }

    /// The cursor of a well-formed scanner lies between the start and the end of
    /// its input, which is what the laws of scanning ask of a starting point.
    pub proof fn lemma_cursor_in_bounds(&self)
        requires
            self.wf(),
        ensures
            0 <= self.pos() <= self.bytes().len(),
    {
    }

    /// A scanner over the UTF-8 bytes of `input`, with the cursor on the first byte.
    pub fn new(input: String) -> (r: Lexer)
        ensures
            r.wf(),
            r.bytes() == encode_utf8(input@),
            r.pos() == 0,
    {
        let mut lexer = Lexer {
            read_position: 0,
            ch: 0,
            input: slice_to_vec(input.as_str().as_bytes()),
            position: 0,
        };
        lexer.read_char();
        lexer
    }

    /// Moves the cursor to the lookahead index and reads the byte there.
    fn read_char(&mut self)
        requires
            old(self).read_position <= old(self).input.len(),
        ensures
            final(self).wf(),
            final(self).input == old(self).input,
            final(self).position == old(self).read_position,
    {
        if self.read_position >= self.input.len() {
            self.ch = 0;
            self.position = self.input.len();
            self.read_position = self.input.len();
        } else {
            self.ch = self.input[self.read_position];
            self.position = self.read_position;
            self.read_position = self.read_position + 1;
        }
    }

    /// Advances the cursor past any space, tab, newline or carriage return.
    pub fn skip_whitespace(&mut self)
        requires
            old(self).wf(),
        ensures
            final(self).wf(),
            final(self).bytes() == old(self).bytes(),
            final(self).pos() == skip_whitespace_from(old(self).bytes(), old(self).pos()),
    {
        while self.ch == SPACE || self.ch == TAB || self.ch == NEWLINE || self.ch
            == CARRIAGE_RETURN
            invariant
                self.wf(),
                self.input@ == old(self).input@,
                skip_whitespace_from(self.input@, self.position as int) == skip_whitespace_from(
                    old(self).input@,
                    old(self).position as int,
                ),
            decreases self.input.len() - self.position,
        {
            self.read_char();
        }
    }

    /// Skips whitespace and scans one token, leaving the cursor just past it.
    /// Past the end of the input every call yields `EOF` and leaves the cursor
    /// where it is. A digit run whose value exceeds `usize::MAX` is consumed
    /// and reported as `Overflow`.
    pub fn next_token(&mut self) -> (r: Result<Token, LexError>)
        requires
            old(self).wf(),
        ensures
            final(self).wf(),
            final(self).bytes() == old(self).bytes(),
            final(self).pos() == next_position(old(self).bytes(), old(self).pos()),
            r is Err <==> next_overflows(old(self).bytes(), old(self).pos()),
            r matches Ok(t) ==> t@ == next_lexeme(old(self).bytes(), old(self).pos()),
    {
        self.skip_whitespace();
        let token = match punctuation_token(self.ch) {
            Some(t) => t,
            None => {
                if self.position >= self.input.len() {
                    Token::EOF
                } else if self.is_letter() {
                    let word = self.read_identifier();
                    return Ok(keyword_or_identifier(word));
                } else if self.is_number() {
                    return match self.read_number() {
                        Ok(n) => Ok(Token::Integer(n)),
                        Err(e) => Err(e),
                    };
                } else {
                    Token::Illegal
                }
            },
        };
        self.read_char();
        Ok(token)
    }

    /// Scans the maximal run of letters under the cursor and returns its bytes.
    pub fn read_identifier(&mut self) -> (r: Vec<u8>)
        requires
            old(self).wf(),
        ensures
            final(self).wf(),
            final(self).bytes() == old(self).bytes(),
            final(self).pos() == letter_run_end(old(self).bytes(), old(self).pos()),
            r@ == old(self).bytes().subrange(old(self).pos(), final(self).pos()),
    {
        let start = self.position;
        while self.is_letter()
            invariant
                self.wf(),
                self.input@ == old(self).input@,
                start <= self.position,
                letter_run_end(self.input@, self.position as int) == letter_run_end(
                    self.input@,
                    start as int,
                ),
            decreases self.input.len() - self.position,
        {
            self.read_char();
        }
        let mut word: Vec<u8> = Vec::new();
        let mut i: usize = start;
        while i < self.position
            invariant
                start <= i <= self.position <= self.input.len(),
                word@ == self.input@.subrange(start as int, i as int),
            decreases self.position - i,
        {
            word.push(self.input[i]);
            i = i + 1;
            assert(word@ =~= self.input@.subrange(start as int, i as int));
        }
        word
    }

    /// Scans the maximal run of digits under the cursor and returns its decimal
    /// value, or `Overflow` where that value exceeds `usize::MAX`.
    pub fn read_number(&mut self) -> (r: Result<usize, LexError>)
        requires
            old(self).wf(),
        ensures
            final(self).wf(),
            final(self).bytes() == old(self).bytes(),
            final(self).pos() == digit_run_end(old(self).bytes(), old(self).pos()),
            ({
                let v = decimal_value(old(self).bytes().subrange(old(self).pos(), final(self).pos()));
                match r {
                    Ok(n) => v <= usize::MAX && n as nat == v,
                    Err(_) => v > usize::MAX,
                }
            }),
    {
        let start = self.position;
        while self.is_number()
            invariant
                self.wf(),
                self.input@ == old(self).input@,
                start <= self.position,
                digit_run_end(self.input@, self.position as int) == digit_run_end(
                    self.input@,
                    start as int,
                ),
                forall|k: int| start <= k < self.position ==> is_digit_byte(#[trigger] self.input@[k]),
            decreases self.input.len() - self.position,
        {
            self.read_char();
        }
        let mut value: usize = 0;
        let mut overflow = false;
        let mut i: usize = start;
        while i < self.position
            invariant
                start <= i <= self.position <= self.input.len(),
                forall|k: int| start <= k < self.position ==> is_digit_byte(#[trigger] self.input@[k]),
                overflow ==> decimal_value(self.input@.subrange(start as int, i as int)) > usize::MAX,
                !overflow ==> decimal_value(self.input@.subrange(start as int, i as int)) == value as nat,
            decreases self.position - i,
        {
            let digit = self.input[i] - DIGIT_ZERO;
            assert(self.input@.subrange(start as int, i + 1).drop_last() =~= self.input@.subrange(start as int, i as int));
            if !overflow {
                match value.checked_mul(10) {
                    Some(m) => match m.checked_add(digit as usize) {
                        Some(a) => value = a,
                        None => overflow = true,
                    },
                    None => overflow = true,
                }
            }
            i = i + 1;
        }
        if overflow {
            Err(LexError::Overflow)
        } else {
            Ok(value)
        }
    }

    /// Whether the examined byte is an ASCII letter or an underscore.
    pub fn is_letter(&self) -> (r: bool)
        requires
            self.wf(),
        ensures
            r == is_letter_byte(byte_at(self.bytes(), self.pos())),
    {
        (self.ch >= LOWER_A && self.ch <= LOWER_Z) || (self.ch >= UPPER_A && self.ch <= UPPER_Z)
            || self.ch == UNDERSCORE
    }

    /// Whether the examined byte is an ASCII digit.
    pub fn is_number(&self) -> (r: bool)
        requires
            self.wf(),
        ensures
            r == is_digit_byte(byte_at(self.bytes(), self.pos())),
    {
        self.ch >= DIGIT_ZERO && self.ch <= DIGIT_NINE
    }

    /// The examined byte: the one under the cursor, or `0` past the end.
    pub fn ch(&self) -> (r: u8)
        requires
            self.wf(),
        ensures
            r == byte_at(self.bytes(), self.pos()),
    {
        self.ch
    }

    /// The cursor position.
    pub fn position(&self) -> (r: usize)
        ensures
            r as int == self.pos(),
    {
        self.position
    }
}

} // verus!
