//! The lexical grammar as spec functions over the input's characters.
//!
//! `scan(s, i)` gives the token that starts at offset `i` and the offset just
//! past it; `lex_from(s, i)` gives every token from offset `i` to the end.
use vstd::prelude::*;

use crate::token::TokenView;

verus! {

/// What `char::is_alphanumeric` returns for `c` (Unicode's alphabetic or
/// numeric property).
pub uninterp spec fn alphanumeric(c: char) -> bool;

/// The characters that the lexer skips between tokens.
pub open spec fn is_space(c: char) -> bool {
    c == ' ' || c == '\t' || c == '\n'
}

/// The characters that may start an identifier or a keyword.
pub open spec fn is_ident_start(c: char) -> bool {
    ('a' <= c && c <= 'z') || ('A' <= c && c <= 'Z') || c == '_'
}

/// The characters that may continue an identifier or a keyword.
pub open spec fn is_ident_char(c: char) -> bool {
    alphanumeric(c) || c == '_'
}

/// The decimal digits.
pub open spec fn is_digit(c: char) -> bool {
    '0' <= c && c <= '9'
}

/// The classes of characters that the lexer consumes as a maximal run.
pub enum Run {
    Space,
    Ident,
    Digits,
    /// Anything up to a newline: the body of a line comment.
    Line,
}

/// Whether `c` belongs to the class `k`.
pub open spec fn in_run(c: char, k: Run) -> bool {
    match k {
        Run::Space => is_space(c),
        Run::Ident => is_ident_char(c),
        Run::Digits => is_digit(c),
        Run::Line => c != '\n',
    }
}

/// The length of the maximal run of class `k` that starts at offset `i`.
pub open spec fn run_len(s: Seq<char>, i: int, k: Run) -> nat
    decreases s.len() - i,
{
    if 0 <= i < s.len() && in_run(s[i], k) {
        1 + run_len(s, i + 1, k)
    } else {
        0
    }
}

/// The end of the maximal run of class `k` that starts at offset `i`.
pub open spec fn run_end(s: Seq<char>, i: int, k: Run) -> int {
    i + run_len(s, i, k)
}

/// The number of characters from offset `i` up to the first `*/`, or up to
/// the end of `s` if there is none.
pub open spec fn close_len(s: Seq<char>, i: int) -> nat
    decreases s.len() - i,
{
    if i >= s.len() || i < 0 {
        0
    } else if i + 1 < s.len() && s[i] == '*' && s[i + 1] == '/' {
        0
    } else {
        1 + close_len(s, i + 1)
    }
}

/// The offset of the first `*/` at or after offset `i`, or the length of `s`
/// if there is none.
pub open spec fn block_close(s: Seq<char>, i: int) -> int {
    i + close_len(s, i)
}

/// The character at offset `i` of `s`, if there is one.
pub open spec fn char_at(s: Seq<char>, i: int) -> Option<char> {
    if 0 <= i < s.len() {
        Some(s[i])
    } else {
        None
    }
}

/// Whether offset `i` of `s` holds `c`.
pub open spec fn has_at(s: Seq<char>, i: int, c: char) -> bool {
    0 <= i < s.len() && s[i] == c
}

/// The value of a decimal digit.
pub open spec fn digit_value(c: char) -> nat {
    (c as u32 - '0' as u32) as nat
}

/// The value of a sequence of decimal digits, most significant first.
pub open spec fn decimal_value(w: Seq<char>) -> nat
    decreases w.len(),
{
    if w.len() == 0 {
        0
    } else {
        10 * decimal_value(w.drop_last()) + digit_value(w.last())
    }
}

/// The token of a run of digits: the narrowest unsigned width that holds its
/// value, else `Invalid` with the first digit. A run of two or more digits
/// that starts with `0` fits no width.
pub open spec fn number_token(w: Seq<char>) -> TokenView {
    let v = decimal_value(w);
    if w.len() > 1 && w[0] == '0' {
        TokenView::Invalid(seq![w[0]])
    } else if v <= 0xff {
        TokenView::Uint8(v as u8)
    } else if v <= 0xffff {
        TokenView::Uint16(v as u16)
    } else {
        TokenView::Invalid(seq![w[0]])
    }
}

/// The keyword spelled exactly by `w`, if any.
pub open spec fn keyword(w: Seq<char>) -> Option<TokenView> {
    if w == seq!['m', 'a', 'i', 'n'] {
        Some(TokenView::Main)
    } else if w == seq!['f', 'n'] {
        Some(TokenView::Function)
    } else if w == seq!['i', 'f'] {
        Some(TokenView::If)
    } else if w == seq!['e', 'l', 's', 'e'] {
        Some(TokenView::Else)
    } else if w == seq!['r', 'e', 't', 'u', 'r', 'n'] {
        Some(TokenView::Return)
    } else if w == seq!['t', 'r', 'u', 'e'] {
        Some(TokenView::True)
    } else if w == seq!['f', 'a', 'l', 's', 'e'] {
        Some(TokenView::False)
    } else {
        None
    }
}

/// The token of a word: its keyword, else an identifier carrying it.
pub open spec fn word_token(w: Seq<char>) -> TokenView {
    match keyword(w) {
        Some(t) => t,
        None => TokenView::Identifier(w),
    }
}

/// The token that a character stands for alone, if it is one of the
/// single-character punctuation marks.
pub open spec fn punctuation(c: char) -> Option<TokenView> {
    if c == '(' {
        Some(TokenView::OpenParen)
    } else if c == ')' {
        Some(TokenView::CloseParen)
    } else if c == '{' {
        Some(TokenView::OpenBrace)
    } else if c == '}' {
        Some(TokenView::CloseBrace)
    } else if c == '[' {
        Some(TokenView::OpenBracket)
    } else if c == ']' {
        Some(TokenView::CloseBracket)
    } else if c == ',' {
        Some(TokenView::Comma)
    } else if c == '*' {
        Some(TokenView::Star)
    } else if c == ':' {
        Some(TokenView::Colon)
    } else if c == ';' {
        Some(TokenView::Semicolon)
    } else {
        None
    }
}

/// The token that starts at offset `i` (a character that is not a space),
/// with the offset just past what it consumes.
pub open spec fn scan(s: Seq<char>, i: int) -> (TokenView, int)
    recommends
        0 <= i < s.len(),
{
    let c = s[i];
    if punctuation(c) is Some {
        (punctuation(c)->0, i + 1)
    } else if c == '>' {
        if has_at(s, i + 1, '=') {
            (TokenView::GreaterThanOrEquals, i + 2)
        } else if has_at(s, i + 1, '>') {
            (TokenView::BitShiftRight, i + 2)
        } else {
            (TokenView::GreaterThan, i + 1)
        }
    } else if c == '<' {
        if has_at(s, i + 1, '=') {
            (TokenView::LessThanOrEquals, i + 2)
        } else if has_at(s, i + 1, '<') {
            (TokenView::BitShiftLeft, i + 2)
        } else {
            (TokenView::LessThan, i + 1)
        }
    } else if c == '+' {
        if has_at(s, i + 1, '+') {
            (TokenView::Increment, i + 2)
        } else {
            (TokenView::Plus, i + 1)
        }
    } else if c == '-' {
        if has_at(s, i + 1, '-') {
            (TokenView::Decrement, i + 2)
        } else {
            (TokenView::Dash, i + 1)
        }
    } else if c == '!' {
        if has_at(s, i + 1, '=') {
            (TokenView::NotEquals, i + 2)
        } else {
            (TokenView::Bang, i + 1)
        }
    } else if c == '=' {
        // Any following character is taken as the second half of `==`.
        if i + 1 < s.len() {
            (TokenView::Equals, i + 2)
        } else {
            (TokenView::Assign, i + 1)
        }
    } else if c == '/' {
        if has_at(s, i + 1, '/') {
            let b = run_end(s, i + 2, Run::Space);
            let e = run_end(s, b, Run::Line);
            (TokenView::Comment(s.subrange(b, e)), e)
        } else if has_at(s, i + 1, '*') {
            let b = run_end(s, i + 2, Run::Space);
            let e = block_close(s, b);
            (TokenView::Comment(s.subrange(b, e)), if e < s.len() { e + 2 } else { e })
        } else {
            (TokenView::Slash, i + 1)
        }
    } else if is_ident_start(c) {
        let e = run_end(s, i + 1, Run::Ident);
        (word_token(s.subrange(i, e)), e)
    } else if is_digit(c) {
        let e = run_end(s, i + 1, Run::Digits);
        (number_token(s.subrange(i, e)), e)
    } else {
        (TokenView::Invalid(seq![c]), i + 1)
    }
}

/// A run ends within the input, holds only characters of its class, and
/// stops before one that is not.
pub proof fn lemma_run_end(s: Seq<char>, i: int, k: Run)
    requires
        0 <= i <= s.len(),
    ensures
        i <= run_end(s, i, k) <= s.len(),
        forall|j: int| i <= j < run_end(s, i, k) ==> in_run(#[trigger] s[j], k),
        run_end(s, i, k) < s.len() ==> !in_run(s[run_end(s, i, k)], k),
    decreases s.len() - i,
{
    if i < s.len() && in_run(s[i], k) {
        lemma_run_end(s, i + 1, k);
    }
}

/// The closing `*/` lies within the input, both of its characters.
pub proof fn lemma_block_close(s: Seq<char>, i: int)
    requires
        0 <= i <= s.len(),
    ensures
        i <= block_close(s, i) <= s.len(),
        block_close(s, i) < s.len() ==> block_close(s, i) + 1 < s.len(),
    decreases s.len() - i,
{
    if i < s.len() && !(i + 1 < s.len() && s[i] == '*' && s[i + 1] == '/') {
        lemma_block_close(s, i + 1);
    }
}

/// `scan` consumes at least one character and stays within the input.
pub proof fn lemma_scan_advances(s: Seq<char>, i: int)
    requires
        0 <= i < s.len(),
    ensures
        i < scan(s, i).1 <= s.len(),
{
    let c = s[i];
    if c == '/' {
        if has_at(s, i + 1, '/') {
            lemma_run_end(s, i + 2, Run::Space);
            lemma_run_end(s, run_end(s, i + 2, Run::Space), Run::Line);
        } else if has_at(s, i + 1, '*') {
            lemma_run_end(s, i + 2, Run::Space);
            lemma_block_close(s, run_end(s, i + 2, Run::Space));
        }
    } else if is_ident_start(c) {
        lemma_run_end(s, i + 1, Run::Ident);
    } else if is_digit(c) {
        lemma_run_end(s, i + 1, Run::Digits);
    }
}

/// Every token from offset `i` to the end of `s`, in order.
pub open spec fn lex_from(s: Seq<char>, i: int) -> Seq<TokenView>
    decreases s.len() - i,
{
    let j = run_end(s, i, Run::Space);
    if i < 0 || j >= s.len() {
        Seq::empty()
    } else {
        let (t, k) = scan(s, j);
        // `k <= s.len()` always holds (`lemma_scan_advances`); the test lets
        // the definition terminate without that lemma.
        if k <= s.len() {
            seq![t] + lex_from(s, k)
        } else {
            seq![t]
        }
    }
}

/// Every token of the text `s`, in order.
pub open spec fn tokenize(s: Seq<char>) -> Seq<TokenView> {
    lex_from(s, 0)
}

} // verus!
