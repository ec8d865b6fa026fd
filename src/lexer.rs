//! The scanner: a character buffer with a read position, and the tokenizer
//! that drives it.
use vstd::prelude::*;

use crate::grammar::{
    alphanumeric, block_close, char_at, decimal_value, is_digit, lemma_run_end,
    lemma_scan_advances, lex_from, number_token, run_end, scan, word_token, Run,
};
use crate::token::{Token, TokenView};

verus! {

broadcast use vstd::string::axiom_spec_iter;

/// Relies on `char::is_alphanumeric`: whether `c` is alphabetic or numeric.
/// ASCII letters and digits are; the underscore, space, tab and newline are
/// not.
#[verifier::external_body]
fn is_alphanumeric(c: char) -> (r: bool)
    ensures
        r == alphanumeric(c),
        ('a' <= c && c <= 'z') || ('A' <= c && c <= 'Z') || ('0' <= c && c <= '9') ==> r,
        c == '_' || c == ' ' || c == '\t' || c == '\n' ==> !r,
{
    c.is_alphanumeric()
}

/// Relies on `String`'s `FromIterator<&char>`: the string holds the
/// characters in order.
#[verifier::external_body]
fn string_of(v: &Vec<char>) -> (r: String)
    ensures
        r@ == v@,
{
    v.iter().collect()
}

/// A source text as a sequence of characters, and the offset of the next
/// character to read.
pub struct Lexer {
    input: Vec<char>,
    pos: usize,
}

impl Lexer {
    /// The characters of the source text.
    pub closed spec fn source(&self) -> Seq<char> {
        self.input@
    }

    /// The offset of the next character to read.
    pub closed spec fn cursor(&self) -> int {
        self.pos as int
    }

    /// The cursor lies within the input or just past its end, and the
    /// input's length fits in `usize`.
    pub closed spec fn wf(&self) -> bool {
        &&& self.pos <= self.input.len()
        &&& self.input.len() <= usize::MAX
    }

    /// A lexer over the characters of `input`, with the cursor at the start.
    pub fn new(input: String) -> (r: Lexer)
        ensures
            r.wf(),
            r.source() == input@,
            r.cursor() == 0,
    {
        let mut chars: Vec<char> = Vec::new();
        for c in it: input.as_str().chars()
            invariant
                chars@ == it.seq().take(it.index() as int),
        {
            chars.push(c);
        }
        // Reading the length as a `usize` shows that it fits in one.
        let len: usize = chars.len();
        assert(chars@.len() == len);
        Lexer { input: chars, pos: 0 }
    }

    fn char_at(&self, pos: usize) -> (r: Option<char>)
        ensures
            r == char_at(self.input@, pos as int),
    {
        if pos < self.input.len() {
            Some(self.input[pos])
        } else {
            None
        }
    }

    /// The character under the cursor, if any.
    fn peek(&self) -> (r: Option<char>)
        ensures
            r == char_at(self.input@, self.pos as int),
    {
        self.char_at(self.pos)
    }

    /// The character `offset` places after the cursor, if any.
    fn peek_at(&self, offset: usize) -> (r: Option<char>)
        requires
            self.wf(),
        ensures
            r == char_at(self.input@, self.pos + offset),
    {
        if offset < self.input.len() - self.pos {
            self.char_at(self.pos + offset)
        } else {
            None
        }
    }

    /// Gives the character under the cursor, if any, and moves the cursor on
    /// by one in either case.
    fn next(&mut self) -> (c: Option<char>)
        requires
            old(self).pos < usize::MAX,
        ensures
            final(self).input == old(self).input,
            final(self).pos == old(self).pos + 1,
            c == char_at(old(self).input@, old(self).pos as int),
    {
        let c = self.char_at(self.pos);
        self.pos = self.pos + 1;
        c
    }

    /// Moves the cursor past a maximal run of spaces, tabs and newlines.
    fn skip_whitespace(&mut self)
        requires
            old(self).wf(),
        ensures
            final(self).wf(),
            final(self).input == old(self).input,
            final(self).pos == run_end(old(self).input@, old(self).pos as int, Run::Space),
    {
        loop
            invariant
                self.wf(),
                self.input == old(self).input,
                old(self).pos <= self.pos,
                run_end(self.input@, self.pos as int, Run::Space) == run_end(
                    self.input@,
                    old(self).pos as int,
                    Run::Space,
                ),
            ensures
                self.wf(),
                self.input == old(self).input,
                self.pos == run_end(old(self).input@, old(self).pos as int, Run::Space),
            decreases self.input.len() - self.pos,
        {
            if let Some(c) = self.peek() {
                match c {
                    ' ' | '\t' | '\n' => {
                        self.pos = self.pos + 1;
                    },
                    _ => {
                        break ;
                    },
                }
            } else {
                break ;
            }
        }
    }
}

impl Lexer {
    /// Every token from the cursor to the end of the input, in order; the
    /// end-of-input marker is not among them.
    pub fn get_tokens(&mut self) -> (out: Vec<Token>)
        requires
            old(self).wf(),
        ensures
            final(self).wf(),
            final(self).source() == old(self).source(),
            final(self).cursor() == old(self).source().len(),
            out@.map_values(|t: Token| t@) == lex_from(old(self).source(), old(self).cursor()),
            forall|k: int| 0 <= k < out.len() ==> !(out@[k] is Eof),
    {
        let ghost s = self.input@;
        let ghost start = self.pos as int;
        let mut out = Vec::<Token>::new();
        loop
            invariant_except_break
                out@.map_values(|t: Token| t@) + lex_from(s, self.pos as int) == lex_from(
                    s,
                    start,
                ),
            invariant
                self.wf(),
                self.input@ == s,
                forall|k: int| 0 <= k < out.len() ==> !(out@[k] is Eof),
            ensures
                self.pos == s.len(),
                out@.map_values(|t: Token| t@) == lex_from(s, start),
            decreases s.len() - self.pos,
        {
            let ghost before = out@.map_values(|t: Token| t@);
            let ghost p = self.pos as int;
            let t = self.next_token();
            if let Token::Eof = t {
                proof {
                    lemma_run_end(s, p, Run::Space);
                    assert(lex_from(s, p) =~= Seq::<TokenView>::empty());
                    assert(before =~= before + lex_from(s, p));
                }
                break ;
            }
            proof {
                let j = run_end(s, p, Run::Space);
                lemma_run_end(s, p, Run::Space);
                lemma_scan_advances(s, j);
                assert(lex_from(s, p) == seq![t@] + lex_from(s, self.pos as int));
            }
            out.push(t);
            assert(out@.map_values(|t: Token| t@) =~= before.push(t@));
            assert(before.push(t@) + lex_from(s, self.pos as int) =~= before + (seq![t@]
                + lex_from(s, self.pos as int)));
        }
        out
    }

    /// Skips whitespace, then consumes and classifies the next token; at the
    /// end of the input, gives the end-of-input marker.
    fn next_token(&mut self) -> (t: Token)
        requires
            old(self).wf(),
        ensures
            final(self).wf(),
            final(self).input@ == old(self).input@,
            ({
                let s = old(self).input@;
                let j = run_end(s, old(self).pos as int, Run::Space);
                if j >= s.len() {
                    t@ == TokenView::Eof && final(self).pos == j
                } else {
                    (t@, final(self).pos as int) == scan(s, j)
                }
            }),
    {
        self.skip_whitespace();
        let ghost s = self.input@;
        let ghost j = self.pos as int;
        if let Some(c) = self.peek() {
            self.next();
            match c {
                '(' => Token::OpenParen,
                ')' => Token::CloseParen,
                '{' => Token::OpenBrace,
                '}' => Token::CloseBrace,
                '[' => Token::OpenBracket,
                ']' => Token::CloseBracket,
                ',' => Token::Comma,
                '>' => {
                    if is_expected(self.peek(), '=') {
                        self.next();
                        Token::GreaterThanOrEquals
                    } else if is_expected(self.peek(), '>') {
                        self.next();
                        Token::BitShiftRight
                    } else {
                        Token::GreaterThan
                    }
                },
                '<' => {
                    if is_expected(self.peek(), '=') {
                        self.next();
                        Token::LessThanOrEquals
                    } else if is_expected(self.peek(), '<') {
                        self.next();
                        Token::BitShiftLeft
                    } else {
                        Token::LessThan
                    }
                },
                '+' => {
                    if is_expected(self.peek(), '+') {
                        self.next();
                        Token::Increment
                    } else {
                        Token::Plus
                    }
                },
                '-' => {
                    if is_expected(self.peek(), '-') {
                        self.next();
                        Token::Decrement
                    } else {
                        Token::Dash
                    }
                },
                '*' => Token::Star,
                '/' => {
                    if is_expected(self.peek(), '/') {
                        self.next();
                        self.line_comment()
                    } else if is_expected(self.peek(), '*') {
                        self.next();
                        self.block_comment()
                    } else {
                        Token::Slash
                    }
                },
                ':' => Token::Colon,
                ';' => Token::Semicolon,
                '!' => {
                    if is_expected(self.peek(), '=') {
                        self.next();
                        Token::NotEquals
                    } else {
                        Token::Bang
                    }
                },
                '=' => {
                    // Any following character completes `==`, not only `=`.
                    if let Some(_) = self.peek() {
                        self.next();
                        Token::Equals
                    } else {
                        Token::Assign
                    }
                },
                'a'..='z' | 'A'..='Z' | '_' => self.word(c),
                '0'..='9' => self.number(c),
                _ => {
                    let mut text: Vec<char> = Vec::new();
                    text.push(c);
                    Token::Invalid(string_of(&text))
                },
            }
        } else {
            Token::Eof
        }
    }

    /// Reads the body of a line comment; the cursor stands just past `//`.
    fn line_comment(&mut self) -> (t: Token)
        requires
            old(self).wf(),
        ensures
            final(self).wf(),
            final(self).input == old(self).input,
            ({
                let s = old(self).input@;
                let b = run_end(s, old(self).pos as int, Run::Space);
                let e = run_end(s, b, Run::Line);
                t@ == TokenView::Comment(s.subrange(b, e)) && final(self).pos == e
            }),
    {
        self.skip_whitespace();
        let ghost s = self.input@;
        let ghost b = self.pos as int;
        let mut comment: Vec<char> = Vec::new();
        loop
            invariant
                self.wf(),
                self.input == old(self).input,
                self.input@ == s,
                0 <= b <= self.pos,
                comment@ == s.subrange(b, self.pos as int),
                run_end(s, self.pos as int, Run::Line) == run_end(s, b, Run::Line),
            ensures
                self.wf(),
                self.input == old(self).input,
                self.input@ == s,
                self.pos == run_end(s, b, Run::Line),
                comment@ == s.subrange(b, self.pos as int),
            decreases self.input.len() - self.pos,
        {
            if let Some(c) = self.peek() {
                if c == '\n' {
                    break ;
                }
                self.next();
                comment.push(c);
                assert(comment@ =~= s.subrange(b, self.pos as int));
            } else {
                break ;
            }
        }
        Token::Comment(string_of(&comment))
    }

    /// Reads the body of a block comment up to and past its closing `*/`, or
    /// to the end of the input; the cursor stands just past `/*`.
    fn block_comment(&mut self) -> (t: Token)
        requires
            old(self).wf(),
        ensures
            final(self).wf(),
            final(self).input == old(self).input,
            ({
                let s = old(self).input@;
                let b = run_end(s, old(self).pos as int, Run::Space);
                let e = block_close(s, b);
                &&& t@ == TokenView::Comment(s.subrange(b, e))
                &&& final(self).pos == if e < s.len() {
                    e + 2
                } else {
                    e
                }
            }),
    {
        self.skip_whitespace();
        let ghost s = self.input@;
        let ghost b = self.pos as int;
        let mut comment: Vec<char> = Vec::new();
        loop
            invariant_except_break
                comment@ == s.subrange(b, self.pos as int),
                block_close(s, self.pos as int) == block_close(s, b),
            invariant
                self.wf(),
                self.input == old(self).input,
                self.input@ == s,
                0 <= b <= self.pos,
            ensures
                self.wf(),
                self.input == old(self).input,
                self.input@ == s,
                comment@ == s.subrange(b, block_close(s, b)),
                self.pos == if block_close(s, b) < s.len() {
                    block_close(s, b) + 2
                } else {
                    block_close(s, b)
                },
            decreases self.input.len() - self.pos,
        {
            if let Some(c) = self.peek() {
                if c == '*' && is_expected(self.peek_at(1), '/') {
                    self.next();
                    self.next();
                    break ;
                }
                self.next();
                comment.push(c);
                assert(comment@ =~= s.subrange(b, self.pos as int));
            } else {
                break ;
            }
        }
        Token::Comment(string_of(&comment))
    }

    /// Reads an identifier or a keyword whose first character `c` has just
    /// been consumed.
    fn word(&mut self, c: char) -> (t: Token)
        requires
            old(self).wf(),
            0 < old(self).pos,
            old(self).input@[old(self).pos - 1] == c,
        ensures
            final(self).wf(),
            final(self).input == old(self).input,
            ({
                let s = old(self).input@;
                let e = run_end(s, old(self).pos as int, Run::Ident);
                t@ == word_token(s.subrange(old(self).pos - 1, e)) && final(self).pos == e
            }),
    {
        let ghost s = self.input@;
        let ghost start = self.pos - 1;
        let mut ident: Vec<char> = Vec::new();
        ident.push(c);
        assert(ident@ =~= s.subrange(start, self.pos as int));
        loop
            invariant
                self.wf(),
                self.input == old(self).input,
                self.input@ == s,
                0 <= start < self.pos,
                ident@ == s.subrange(start, self.pos as int),
                run_end(s, self.pos as int, Run::Ident) == run_end(s, old(self).pos as int, Run::Ident),
            ensures
                self.wf(),
                self.input == old(self).input,
                self.input@ == s,
                self.pos == run_end(s, old(self).pos as int, Run::Ident),
                ident@ == s.subrange(start, self.pos as int),
            decreases self.input.len() - self.pos,
        {
            if let Some(n) = self.peek() {
                if !is_alphanumeric(n) && n != '_' {
                    break ;
                }
                self.next();
                ident.push(n);
                assert(ident@ =~= s.subrange(start, self.pos as int));
            } else {
                break ;
            }
        }
        word_of(ident)
    }

    /// Reads a decimal literal whose first digit `c` has just been consumed.
    fn number(&mut self, c: char) -> (t: Token)
        requires
            old(self).wf(),
            0 < old(self).pos,
            old(self).input@[old(self).pos - 1] == c,
            is_digit(c),
        ensures
            final(self).wf(),
            final(self).input == old(self).input,
            ({
                let s = old(self).input@;
                let e = run_end(s, old(self).pos as int, Run::Digits);
                t@ == number_token(s.subrange(old(self).pos - 1, e)) && final(self).pos == e
            }),
    {
        let ghost s = self.input@;
        let start: usize = self.pos - 1;
        let mut value: u32 = (c as u32) - ('0' as u32);
        // Set once the value is known to exceed the widest unsigned kind.
        let mut wide = false;
        assert(s.subrange(start as int, self.pos as int).drop_last() =~= Seq::<char>::empty());
        assert(decimal_value(Seq::<char>::empty()) == 0);
        loop
            invariant
                self.wf(),
                self.input == old(self).input,
                self.input@ == s,
                0 <= start < self.pos,
                run_end(s, self.pos as int, Run::Digits) == run_end(
                    s,
                    old(self).pos as int,
                    Run::Digits,
                ),
                wide ==> decimal_value(s.subrange(start as int, self.pos as int)) > 0xffff,
                !wide ==> value == decimal_value(s.subrange(start as int, self.pos as int)) && value
                    <= 0xffff,
            ensures
                self.wf(),
                self.input == old(self).input,
                self.input@ == s,
                self.pos == run_end(s, old(self).pos as int, Run::Digits),
                wide ==> decimal_value(s.subrange(start as int, self.pos as int)) > 0xffff,
                !wide ==> value == decimal_value(s.subrange(start as int, self.pos as int)) && value
                    <= 0xffff,
            decreases self.input.len() - self.pos,
        {
            if let Some(n) = self.peek() {
                if !('0' <= n && n <= '9') {
                    break ;
                }
                self.next();
                assert(s.subrange(start as int, self.pos as int).drop_last() =~= s.subrange(
                    start as int,
                    self.pos - 1,
                ));
                if !wide {
                    value = value * 10 + ((n as u32) - ('0' as u32));
                    if value > 0xffff {
                        wide = true;
                    }
                }
            } else {
                break ;
            }
        }
        // A run of two or more digits that starts with `0` fits no width.
        if wide || (c == '0' && self.pos - start > 1) {
            let mut first: Vec<char> = Vec::new();
            first.push(c);
            Token::Invalid(string_of(&first))
        } else if value <= 0xff {
            Token::Uint8(value as u8)
        } else {
            Token::Uint16(value as u16)
        }
    }
}

/// Whether `w` spells exactly `kw`.
fn spells(w: &Vec<char>, kw: &[char]) -> (r: bool)
    ensures
        r == (w@ == kw@),
{
    if w.len() != kw.len() {
        return false;
    }
    let mut i: usize = 0;
    while i < w.len()
        invariant
            w.len() == kw@.len(),
            i <= w.len(),
            forall|k: int| 0 <= k < i ==> w@[k] == kw@[k],
        decreases w.len() - i,
    {
        if w[i] != kw[i] {
            return false;
        }
        i = i + 1;
    }
    assert(w@ =~= kw@);
    true
}

/// The keyword that `w` spells, else an identifier carrying `w`.
fn word_of(w: Vec<char>) -> (t: Token)
    ensures
        t@ == word_token(w@),
{
    if spells(&w, &['m', 'a', 'i', 'n']) {
        Token::Main
    } else if spells(&w, &['f', 'n']) {
        Token::Function
    } else if spells(&w, &['i', 'f']) {
        Token::If
    } else if spells(&w, &['e', 'l', 's', 'e']) {
        Token::Else
    } else if spells(&w, &['r', 'e', 't', 'u', 'r', 'n']) {
        Token::Return
    } else if spells(&w, &['t', 'r', 'u', 'e']) {
        Token::True
    } else if spells(&w, &['f', 'a', 'l', 's', 'e']) {
        Token::False
    } else {
        Token::Identifier(string_of(&w))
    }
}

/// Whether `current` holds the character `expect`.
fn is_expected(current: Option<char>, expect: char) -> (r: bool)
    ensures
        r == (current == Some(expect)),
{
    if let Some(c) = current {
        c == expect
    } else {
        false
    }
}

} // verus!

