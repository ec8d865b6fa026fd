//! Tokens, and the mathematical value that each one stands for.
use vstd::prelude::*;

verus! {

/// A classified unit of lexical output.
///
/// `Int8`, `Int16`, `BitRotateLeft` and `BitRotateRight` belong to the
/// vocabulary but no scanning rule produces them. `Eof` marks the end of the
/// input and never appears in the output of `Lexer::get_tokens`.
#[derive(Debug, PartialEq, Eq)]
pub enum Token {
    Invalid(String),
    Identifier(String),
    Int8(i8),
    Uint8(u8),
    Int16(i16),
    Uint16(u16),
    Comment(String),
    Main,
    Function,
    If,
    Else,
    Return,
    True,
    False,
    OpenBrace,
    CloseBrace,
    OpenBracket,
    CloseBracket,
    OpenParen,
    CloseParen,
    Bang,
    Plus,
    Dash,
    Star,
    Slash,
    Increment,
    Decrement,
    BitShiftLeft,
    BitShiftRight,
    BitRotateLeft,
    BitRotateRight,
    Comma,
    Colon,
    Semicolon,
    Assign,
    Equals,
    NotEquals,
    GreaterThan,
    GreaterThanOrEquals,
    LessThan,
    LessThanOrEquals,
    Eof,
}

/// The mathematical value of a `Token`: the same variants, with the text
/// payloads as sequences of characters.
pub enum TokenView {
    Invalid(Seq<char>),
    Identifier(Seq<char>),
    Int8(i8),
    Uint8(u8),
    Int16(i16),
    Uint16(u16),
    Comment(Seq<char>),
    Main,
    Function,
    If,
    Else,
    Return,
    True,
    False,
    OpenBrace,
    CloseBrace,
    OpenBracket,
    CloseBracket,
    OpenParen,
    CloseParen,
    Bang,
    Plus,
    Dash,
    Star,
    Slash,
    Increment,
    Decrement,
    BitShiftLeft,
    BitShiftRight,
    BitRotateLeft,
    BitRotateRight,
    Comma,
    Colon,
    Semicolon,
    Assign,
    Equals,
    NotEquals,
    GreaterThan,
    GreaterThanOrEquals,
    LessThan,
    LessThanOrEquals,
    Eof,
}

impl View for Token {
    type V = TokenView;

    open spec fn view(&self) -> TokenView {
        match self {
            Token::Invalid(s) => TokenView::Invalid(s@),
            Token::Identifier(s) => TokenView::Identifier(s@),
            Token::Int8(v) => TokenView::Int8(*v),
            Token::Uint8(v) => TokenView::Uint8(*v),
            Token::Int16(v) => TokenView::Int16(*v),
            Token::Uint16(v) => TokenView::Uint16(*v),
            Token::Comment(s) => TokenView::Comment(s@),
            Token::Main => TokenView::Main,
            Token::Function => TokenView::Function,
            Token::If => TokenView::If,
            Token::Else => TokenView::Else,
            Token::Return => TokenView::Return,
            Token::True => TokenView::True,
            Token::False => TokenView::False,
            Token::OpenBrace => TokenView::OpenBrace,
            Token::CloseBrace => TokenView::CloseBrace,
            Token::OpenBracket => TokenView::OpenBracket,
            Token::CloseBracket => TokenView::CloseBracket,
            Token::OpenParen => TokenView::OpenParen,
            Token::CloseParen => TokenView::CloseParen,
            Token::Bang => TokenView::Bang,
            Token::Plus => TokenView::Plus,
            Token::Dash => TokenView::Dash,
            Token::Star => TokenView::Star,
            Token::Slash => TokenView::Slash,
            Token::Increment => TokenView::Increment,
            Token::Decrement => TokenView::Decrement,
            Token::BitShiftLeft => TokenView::BitShiftLeft,
            Token::BitShiftRight => TokenView::BitShiftRight,
            Token::BitRotateLeft => TokenView::BitRotateLeft,
            Token::BitRotateRight => TokenView::BitRotateRight,
            Token::Comma => TokenView::Comma,
            Token::Colon => TokenView::Colon,
            Token::Semicolon => TokenView::Semicolon,
            Token::Assign => TokenView::Assign,
            Token::Equals => TokenView::Equals,
            Token::NotEquals => TokenView::NotEquals,
            Token::GreaterThan => TokenView::GreaterThan,
            Token::GreaterThanOrEquals => TokenView::GreaterThanOrEquals,
            Token::LessThan => TokenView::LessThan,
            Token::LessThanOrEquals => TokenView::LessThanOrEquals,
            Token::Eof => TokenView::Eof,
        }
    }
}

} // verus!
