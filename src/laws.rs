use vstd::prelude::*;

use crate::model::{
    digit_run_end, fn_word, is_digit_byte, is_letter_byte, is_whitespace_byte, let_word,
    letter_run_end, lexeme_at, lexeme_end, next_lexeme, next_position, punctuation,
    skip_whitespace_from,
};
use crate::token::Lexeme;

verus! {

/// Where the cursor stands after `k` calls that start with it at `p`.
pub open spec fn position_after(s: Seq<u8>, p: int, k: nat) -> int
    decreases k,
{
    if k == 0 {
        p
    } else {
        position_after(s, next_position(s, p), (k - 1) as nat)
    }
}

/// The bytes that the tokens scanned from `p` onwards cover, in order:
/// each token contributes the span between its first byte and the cursor
/// after it; the end-of-input token covers nothing.
pub open spec fn consumed_from(s: Seq<u8>, p: int) -> Seq<u8>
    decreases s.len() - p,
{
    let q = skip_whitespace_from(s, p);
    let e = lexeme_end(s, q);
    if 0 <= p && q < s.len() && p < e <= s.len() {
        s.subrange(q, e) + consumed_from(s, e)
    } else {
        Seq::empty()
    }
}

/// `t` with every whitespace byte taken out.
pub open spec fn without_whitespace(t: Seq<u8>) -> Seq<u8>
    decreases t.len(),
{
    if t.len() == 0 {
        Seq::empty()
    } else if is_whitespace_byte(t[0]) {
        without_whitespace(t.drop_first())
    } else {
        seq![t[0]] + without_whitespace(t.drop_first())
    }
}

proof fn lemma_skip_bounds(s: Seq<u8>, p: int)
    requires
        0 <= p <= s.len(),
    ensures
        p <= skip_whitespace_from(s, p) <= s.len(),
        skip_whitespace_from(s, p) < s.len() ==> !is_whitespace_byte(
            s[skip_whitespace_from(s, p)],
        ),
    decreases s.len() - p,
{
    if p < s.len() && is_whitespace_byte(s[p]) {
        lemma_skip_bounds(s, p + 1);
    }
}

proof fn lemma_letter_run(s: Seq<u8>, q: int)
    requires
        0 <= q <= s.len(),
    ensures
        q <= letter_run_end(s, q) <= s.len(),
        forall|k: int| q <= k < letter_run_end(s, q) ==> is_letter_byte(#[trigger] s[k]),
        letter_run_end(s, q) < s.len() ==> !is_letter_byte(s[letter_run_end(s, q)]),
    decreases s.len() - q,
{
    if q < s.len() && is_letter_byte(s[q]) {
        lemma_letter_run(s, q + 1);
    }
}

proof fn lemma_digit_run(s: Seq<u8>, q: int)
    requires
        0 <= q <= s.len(),
    ensures
        q <= digit_run_end(s, q) <= s.len(),
        forall|k: int| q <= k < digit_run_end(s, q) ==> is_digit_byte(#[trigger] s[k]),
        digit_run_end(s, q) < s.len() ==> !is_digit_byte(s[digit_run_end(s, q)]),
    decreases s.len() - q,
{
    if q < s.len() && is_digit_byte(s[q]) {
        lemma_digit_run(s, q + 1);
    }
}

/// One call never moves the cursor past the end of the input, moves it
/// forward when it has not reached the end, and leaves it there when it has.
proof fn lemma_step(s: Seq<u8>, p: int)
    requires
        0 <= p <= s.len(),
    ensures
        next_position(s, p) <= s.len(),
        p < s.len() ==> p < next_position(s, p),
        skip_whitespace_from(s, p) < s.len() ==> skip_whitespace_from(s, p) < next_position(s, p),
        p == s.len() ==> next_position(s, p) == p && next_lexeme(s, p) == Lexeme::EndOfInput,
        skip_whitespace_from(s, p) < s.len() ==> forall|k: int|
            skip_whitespace_from(s, p) <= k < next_position(s, p) ==> !is_whitespace_byte(
                #[trigger] s[k],
            ),
{
    let q = skip_whitespace_from(s, p);
    lemma_skip_bounds(s, p);
    if q < s.len() {
        lemma_letter_run(s, q);
        lemma_digit_run(s, q);
    }
}

/// Scanning terminates: from any cursor position `p`, at most `len - p` calls
/// bring the cursor to the end of the input, and every call made from there
/// on yields `EndOfInput` and leaves the cursor where it is.
pub proof fn lemma_scanning_terminates(s: Seq<u8>, p: int, k: nat)
    requires
        0 <= p <= s.len(),
        k >= s.len() - p,
    ensures
        position_after(s, p, k) == s.len(),
        next_lexeme(s, position_after(s, p, k)) == Lexeme::EndOfInput,
        next_position(s, position_after(s, p, k)) == s.len(),
    decreases k,
{
    lemma_step(s, p);
    if k > 0 {
        lemma_scanning_terminates(s, next_position(s, p), (k - 1) as nat);
    }
}

/// Once a call has yielded `EndOfInput`, the cursor is at the end of the
/// input, and the next call yields `EndOfInput` again.
pub proof fn lemma_end_of_input_repeats(s: Seq<u8>, p: int)
    requires
        0 <= p <= s.len(),
        next_lexeme(s, p) == Lexeme::EndOfInput,
    ensures
        next_position(s, p) == s.len(),
        next_lexeme(s, next_position(s, p)) == Lexeme::EndOfInput,
        next_position(s, next_position(s, p)) == s.len(),
{
    lemma_skip_bounds(s, p);
    lemma_step(s, s.len() as int);
}

proof fn lemma_whitespace_run_vanishes(s: Seq<u8>, p: int)
    requires
        0 <= p <= s.len(),
    ensures
        without_whitespace(s.subrange(p, s.len() as int)) == without_whitespace(
            s.subrange(skip_whitespace_from(s, p), s.len() as int),
        ),
    decreases s.len() - p,
{
    if p < s.len() && is_whitespace_byte(s[p]) {
        assert(s.subrange(p, s.len() as int).drop_first() =~= s.subrange(p + 1, s.len() as int));
        lemma_whitespace_run_vanishes(s, p + 1);
    }
}

proof fn lemma_solid_span_kept(s: Seq<u8>, q: int, e: int)
    requires
        0 <= q <= e <= s.len(),
        forall|k: int| q <= k < e ==> !is_whitespace_byte(#[trigger] s[k]),
    ensures
        without_whitespace(s.subrange(q, s.len() as int)) == s.subrange(q, e) + without_whitespace(
            s.subrange(e, s.len() as int),
        ),
    decreases e - q,
{
    if q == e {
        assert(s.subrange(q, e) + without_whitespace(s.subrange(e, s.len() as int))
            =~= without_whitespace(s.subrange(e, s.len() as int)));
    } else {
        assert(s.subrange(q, s.len() as int).drop_first() =~= s.subrange(q + 1, s.len() as int));
        assert(!is_whitespace_byte(s[q]));
        lemma_solid_span_kept(s, q + 1, e);
        assert(seq![s[q]] + (s.subrange(q + 1, e) + without_whitespace(
            s.subrange(e, s.len() as int),
        )) =~= s.subrange(q, e) + without_whitespace(s.subrange(e, s.len() as int)));
    }
}

/// Scanning covers the input exactly: the spans consumed by successive tokens
/// from `p` onwards, put together, are the bytes from `p` to the end with the
/// whitespace taken out, each once and in order.
pub proof fn lemma_tokens_cover_input(s: Seq<u8>, p: int)
    requires
        0 <= p <= s.len(),
    ensures
        consumed_from(s, p) == without_whitespace(s.subrange(p, s.len() as int)),
    decreases s.len() - p,
{
    let q = skip_whitespace_from(s, p);
    let e = lexeme_end(s, q);
    lemma_skip_bounds(s, p);
    lemma_whitespace_run_vanishes(s, p);
    lemma_step(s, p);
    if q < s.len() {
        lemma_solid_span_kept(s, q, e);
        lemma_tokens_cover_input(s, e);
    } else {
        assert(s.subrange(q, s.len() as int) =~= Seq::<u8>::empty());
    }
}

/// Reserved words take precedence: a maximal run of letters that spells `let`
/// or `fn` yields the keyword's token, and an identifier token never holds a
/// reserved word.
pub proof fn lemma_keyword_precedence(s: Seq<u8>, p: int)
    requires
        0 <= p <= s.len(),
    ensures
        ({
            let q = skip_whitespace_from(s, p);
            q < s.len() && is_letter_byte(s[q]) ==> {
                let word = s.subrange(q, letter_run_end(s, q));
                &&& word == let_word() ==> next_lexeme(s, p) == Lexeme::Let
                &&& word == fn_word() ==> next_lexeme(s, p) == Lexeme::Function
            }
        }),
        next_lexeme(s, p) matches Lexeme::Identifier(w) ==> w != let_word() && w != fn_word(),
{
    lemma_skip_bounds(s, p);
    let q = skip_whitespace_from(s, p);
    if q < s.len() && is_letter_byte(s[q]) {
        assert(punctuation(s[q]) is None);
    }
}

/// Runs are maximal: a token that starts with a letter (a digit) spans only
/// letters (digits), and the byte after it, if any, is not a letter (digit),
/// so no run of letters or digits is ever split between two tokens.
pub proof fn lemma_maximal_munch(s: Seq<u8>, p: int)
    requires
        0 <= p <= s.len(),
    ensures
        ({
            let q = skip_whitespace_from(s, p);
            let e = next_position(s, p);
            &&& q < s.len() && is_letter_byte(s[q]) ==> {
                &&& forall|k: int| q <= k < e ==> is_letter_byte(#[trigger] s[k])
                &&& e < s.len() ==> !is_letter_byte(s[e])
            }
            &&& q < s.len() && is_digit_byte(s[q]) ==> {
                &&& forall|k: int| q <= k < e ==> is_digit_byte(#[trigger] s[k])
                &&& e < s.len() ==> !is_digit_byte(s[e])
            }
        }),
{
    lemma_skip_bounds(s, p);
    let q = skip_whitespace_from(s, p);
    if q < s.len() {
        lemma_letter_run(s, q);
        lemma_digit_run(s, q);
    }
}

/// Empty input yields `EndOfInput` on the first call and on every call after it.
pub proof fn lemma_empty_input(s: Seq<u8>)
    requires
        s.len() == 0,
    ensures
        next_lexeme(s, 0) == Lexeme::EndOfInput,
        next_position(s, 0) == 0,
{
}

} // verus!
