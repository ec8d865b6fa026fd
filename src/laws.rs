//! General properties of the lexical grammar, proved over its spec functions.
use vstd::prelude::*;

use crate::grammar::{
    decimal_value, is_digit, is_ident_char, is_ident_start, is_space, keyword, lemma_run_end,
    lemma_scan_advances, lex_from, run_end, scan, tokenize, Run,
};
use crate::lexer::Lexer;
use crate::token::TokenView;

verus! {

/// The two-character operator spelled by `a` followed by `b`, if any.
pub open spec fn paired(a: char, b: char) -> Option<TokenView> {
    if a == '>' && b == '=' {
        Some(TokenView::GreaterThanOrEquals)
    } else if a == '>' && b == '>' {
        Some(TokenView::BitShiftRight)
    } else if a == '<' && b == '=' {
        Some(TokenView::LessThanOrEquals)
    } else if a == '<' && b == '<' {
        Some(TokenView::BitShiftLeft)
    } else if a == '+' && b == '+' {
        Some(TokenView::Increment)
    } else if a == '-' && b == '-' {
        Some(TokenView::Decrement)
    } else if a == '!' && b == '=' {
        Some(TokenView::NotEquals)
    } else {
        None
    }
}

/// Lexing from any offset yields no end-of-input marker.
pub proof fn law_no_end_marker(s: Seq<char>, i: int)
    requires
        0 <= i <= s.len(),
    ensures
        forall|k: int| 0 <= k < lex_from(s, i).len() ==> !(#[trigger] lex_from(s, i)[k] is Eof),
    decreases s.len() - i,
{
    lemma_run_end(s, i, Run::Space);
    let j = run_end(s, i, Run::Space);
    if j < s.len() {
        lemma_scan_advances(s, j);
        let k = scan(s, j).1;
        law_no_end_marker(s, k);
        assert(lex_from(s, i) == seq![scan(s, j).0] + lex_from(s, k));
        assert forall|m: int| 0 <= m < lex_from(s, i).len() implies !(
        #[trigger] lex_from(s, i)[m] is Eof) by {
            if m > 0 {
                assert(lex_from(s, i)[m] == lex_from(s, k)[m - 1]);
            }
        }
    }
}

/// A text made only of spaces, tabs and newlines has no tokens.
pub proof fn law_whitespace_only(s: Seq<char>)
    requires
        forall|k: int| 0 <= k < s.len() ==> is_space(#[trigger] s[k]),
    ensures
        tokenize(s) == Seq::<TokenView>::empty(),
{
    lemma_run_end(s, 0, Run::Space);
    assert(run_end(s, 0, Run::Space) == s.len());
}

/// Where a token starts at the first non-space offset `p` at or after `i`,
/// lexing from `i` gives the token that `scan` finds at `p`, then lexes on
/// from where it ends.
proof fn lemma_first_token(s: Seq<char>, i: int)
    requires
        0 <= i <= s.len(),
        run_end(s, i, Run::Space) < s.len(),
    ensures
        ({
            let p = run_end(s, i, Run::Space);
            lex_from(s, i) == seq![scan(s, p).0] + lex_from(s, scan(s, p).1)
        }),
{
    lemma_run_end(s, i, Run::Space);
    lemma_scan_advances(s, run_end(s, i, Run::Space));
}

/// Where the next token begins with a letter or an underscore, it is the
/// maximal run of identifier characters from there; if that run is no
/// keyword, the token is an identifier carrying exactly the run.
pub proof fn law_identifier_is_its_run(s: Seq<char>, i: int)
    requires
        0 <= i <= s.len(),
        run_end(s, i, Run::Space) < s.len(),
        is_ident_start(s[run_end(s, i, Run::Space)]),
        keyword(
            s.subrange(
                run_end(s, i, Run::Space),
                run_end(s, run_end(s, i, Run::Space) + 1, Run::Ident),
            ),
        ) is None,
    ensures
        ({
            let p = run_end(s, i, Run::Space);
            let e = run_end(s, p + 1, Run::Ident);
            &&& lex_from(s, i) == seq![TokenView::Identifier(s.subrange(p, e))] + lex_from(s, e)
            &&& forall|k: int| p < k < e ==> is_ident_char(#[trigger] s[k])
            &&& e < s.len() ==> !is_ident_char(s[e])
        }),
{
    lemma_run_end(s, i, Run::Space);
    let p = run_end(s, i, Run::Space);
    lemma_run_end(s, p + 1, Run::Ident);
    lemma_first_token(s, i);
}

/// Where the next token begins with a digit, it is the maximal run of digits
/// from there, and its kind is the narrowest unsigned width that holds the
/// run's value: `Uint8`, then `Uint16`, else `Invalid` carrying the first
/// digit, as it is for a run of two or more digits that starts with `0`.
pub proof fn law_number_width(s: Seq<char>, i: int)
    requires
        0 <= i <= s.len(),
        run_end(s, i, Run::Space) < s.len(),
        is_digit(s[run_end(s, i, Run::Space)]),
    ensures
        ({
            let p = run_end(s, i, Run::Space);
            let e = run_end(s, p + 1, Run::Digits);
            let w = s.subrange(p, e);
            let n = decimal_value(w);
            let t = if e > p + 1 && s[p] == '0' {
                TokenView::Invalid(seq![s[p]])
            } else if n <= 0xff {
                TokenView::Uint8(n as u8)
            } else if n <= 0xffff {
                TokenView::Uint16(n as u16)
            } else {
                TokenView::Invalid(seq![s[p]])
            };
            &&& lex_from(s, i) == seq![t] + lex_from(s, e)
            &&& forall|k: int| p <= k < e ==> is_digit(#[trigger] s[k])
            &&& e < s.len() ==> !is_digit(s[e])
        }),
{
    lemma_run_end(s, i, Run::Space);
    let p = run_end(s, i, Run::Space);
    lemma_run_end(s, p + 1, Run::Digits);
    lemma_first_token(s, i);
}

/// Where the next token begins with two characters that spell a
/// two-character operator, that operator is one token that consumes both.
pub proof fn law_maximal_munch(s: Seq<char>, i: int)
    requires
        0 <= i <= s.len(),
        run_end(s, i, Run::Space) + 1 < s.len(),
        paired(s[run_end(s, i, Run::Space)], s[run_end(s, i, Run::Space) + 1]) is Some,
    ensures
        ({
            let p = run_end(s, i, Run::Space);
            lex_from(s, i) == seq![paired(s[p], s[p + 1])->0] + lex_from(s, p + 2)
        }),
{
    lemma_run_end(s, i, Run::Space);
    lemma_first_token(s, i);
}

/// Two lexers over the same text, at the same offset, yield the same tokens.
pub proof fn law_same_text_same_tokens(a: Lexer, b: Lexer)
    requires
        a.source() == b.source(),
        a.cursor() == b.cursor(),
    ensures
        lex_from(a.source(), a.cursor()) == lex_from(b.source(), b.cursor()),
{
}

} // verus!
