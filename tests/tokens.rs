use toy_lexer::{Lexer, Token};

fn lex(text: &str) -> Vec<Token> {
    Lexer::new(text.to_string()).get_tokens()
}

fn ident(text: &str) -> Token {
    Token::Identifier(text.to_string())
}

fn comment(text: &str) -> Token {
    Token::Comment(text.to_string())
}

fn invalid(text: &str) -> Token {
    Token::Invalid(text.to_string())
}

#[test]
fn empty_input_has_no_tokens() {
    assert_eq!(lex(""), vec![]);
}

#[test]
fn whitespace_only_input_has_no_tokens() {
    assert_eq!(lex("  \t\n  \n\t"), vec![]);
}

#[test]
fn no_end_marker_in_output() {
    let tokens = lex("fn main() { x = 1; } // done");
    assert!(!tokens.is_empty());
    assert!(tokens.iter().all(|t| *t != Token::Eof));
}

#[test]
fn small_program() {
    assert_eq!(
        lex("fn main() {\n\treturn x_1 + 2;\n}"),
        vec![
            Token::Function,
            Token::Main,
            Token::OpenParen,
            Token::CloseParen,
            Token::OpenBrace,
            Token::Return,
            ident("x_1"),
            Token::Plus,
            Token::Uint8(2),
            Token::Semicolon,
            Token::CloseBrace,
        ]
    );
}

#[test]
fn punctuation() {
    assert_eq!(
        lex("(){}[],:;*"),
        vec![
            Token::OpenParen,
            Token::CloseParen,
            Token::OpenBrace,
            Token::CloseBrace,
            Token::OpenBracket,
            Token::CloseBracket,
            Token::Comma,
            Token::Colon,
            Token::Semicolon,
            Token::Star,
        ]
    );
}

#[test]
fn identifier_is_exact_run() {
    assert_eq!(lex("Foo_bar9 baz"), vec![ident("Foo_bar9"), ident("baz")]);
    assert_eq!(lex("_x+y"), vec![ident("_x"), Token::Plus, ident("y")]);
}

#[test]
fn identifier_continues_with_unicode_letters() {
    assert_eq!(lex("héllo wörld"), vec![ident("héllo"), ident("wörld")]);
}

#[test]
fn keywords() {
    assert_eq!(
        lex("main fn if else return true false"),
        vec![
            Token::Main,
            Token::Function,
            Token::If,
            Token::Else,
            Token::Return,
            Token::True,
            Token::False,
        ]
    );
}

#[test]
fn keywords_are_case_sensitive() {
    assert_eq!(lex("IF"), vec![ident("IF")]);
    assert_eq!(lex("If"), vec![ident("If")]);
    assert_eq!(lex("if"), vec![Token::If]);
}

#[test]
fn keyword_prefix_is_identifier() {
    assert_eq!(lex("iffy fn_ mains"), vec![ident("iffy"), ident("fn_"), ident("mains")]);
}

#[test]
fn number_widths() {
    assert_eq!(lex("5"), vec![Token::Uint8(5)]);
    assert_eq!(lex("300"), vec![Token::Uint16(300)]);
    assert_eq!(lex("99999"), vec![invalid("9")]);
}

#[test]
fn number_width_boundaries() {
    assert_eq!(lex("0"), vec![Token::Uint8(0)]);
    assert_eq!(lex("255"), vec![Token::Uint8(255)]);
    assert_eq!(lex("256"), vec![Token::Uint16(256)]);
    assert_eq!(lex("65535"), vec![Token::Uint16(65535)]);
    assert_eq!(lex("65536"), vec![invalid("6")]);
    assert_eq!(lex("123456789012345678901234567890"), vec![invalid("1")]);
}

#[test]
fn number_with_leading_zero_is_invalid() {
    assert_eq!(lex("007"), vec![invalid("0")]);
    assert_eq!(lex("00"), vec![invalid("0")]);
    assert_eq!(lex("0 7"), vec![Token::Uint8(0), Token::Uint8(7)]);
    assert_eq!(lex("10"), vec![Token::Uint8(10)]);
}

#[test]
fn number_then_letters() {
    assert_eq!(lex("12ab"), vec![Token::Uint8(12), ident("ab")]);
}

#[test]
fn paired_operators_take_the_longer_form() {
    assert_eq!(lex("++"), vec![Token::Increment]);
    assert_eq!(lex(">="), vec![Token::GreaterThanOrEquals]);
    assert_eq!(lex(">"), vec![Token::GreaterThan]);
    assert_eq!(lex(">>"), vec![Token::BitShiftRight]);
    assert_eq!(lex("<="), vec![Token::LessThanOrEquals]);
    assert_eq!(lex("<<"), vec![Token::BitShiftLeft]);
    assert_eq!(lex("<"), vec![Token::LessThan]);
    assert_eq!(lex("--"), vec![Token::Decrement]);
    assert_eq!(lex("-"), vec![Token::Dash]);
    assert_eq!(lex("!="), vec![Token::NotEquals]);
    assert_eq!(lex("!"), vec![Token::Bang]);
    assert_eq!(lex("+"), vec![Token::Plus]);
}

#[test]
fn operators_followed_by_other_characters() {
    assert_eq!(lex("+++"), vec![Token::Increment, Token::Plus]);
    assert_eq!(lex(">x"), vec![Token::GreaterThan, ident("x")]);
    assert_eq!(lex("<-"), vec![Token::LessThan, Token::Dash]);
    assert_eq!(lex("!a"), vec![Token::Bang, ident("a")]);
    assert_eq!(lex("a-b"), vec![ident("a"), Token::Dash, ident("b")]);
}

#[test]
fn line_comment() {
    assert_eq!(lex("// hello\nfn"), vec![comment("hello"), Token::Function]);
}

#[test]
fn line_comment_keeps_inner_spaces_to_end() {
    assert_eq!(lex("//   a  b  "), vec![comment("a  b  ")]);
    assert_eq!(lex("//"), vec![comment("")]);
}

#[test]
fn line_comment_skips_newline_right_after_slashes() {
    assert_eq!(lex("//\nfn"), vec![comment("fn")]);
}

#[test]
fn block_comment() {
    assert_eq!(lex("/* a * b */fn"), vec![comment("a * b "), Token::Function]);
}

#[test]
fn block_comment_unterminated() {
    assert_eq!(lex("/* no end"), vec![comment("no end")]);
    assert_eq!(lex("/* ends in star *"), vec![comment("ends in star *")]);
}

#[test]
fn block_comment_spans_lines() {
    assert_eq!(lex("/*\n x\n y */ z"), vec![comment("x\n y "), ident("z")]);
}

#[test]
fn slash_alone() {
    assert_eq!(lex("a / b"), vec![ident("a"), Token::Slash, ident("b")]);
    assert_eq!(lex("/"), vec![Token::Slash]);
}

#[test]
fn equals_takes_any_following_character() {
    assert_eq!(lex("=x"), vec![Token::Equals]);
    assert_eq!(lex("=="), vec![Token::Equals]);
    assert_eq!(lex("= 1"), vec![Token::Equals, Token::Uint8(1)]);
}

#[test]
fn assign_only_at_end_of_input() {
    assert_eq!(lex("="), vec![Token::Assign]);
    assert_eq!(lex("x ="), vec![ident("x"), Token::Assign]);
}

#[test]
fn unrecognised_characters_are_invalid() {
    assert_eq!(lex("@"), vec![invalid("@")]);
    assert_eq!(lex("a # b"), vec![ident("a"), invalid("#"), ident("b")]);
    assert_eq!(lex("é"), vec![invalid("é")]);
}

#[test]
fn tokenizing_twice_gives_the_same_tokens() {
    let text = "fn main() { /* c */ if x >= 300 { return y--; } } // end";
    let first = lex(text);
    let second = lex(text);
    assert_eq!(first, second);
    assert_eq!(first.len(), 18);
}

#[test]
fn get_tokens_drains_the_lexer() {
    let mut lexer = Lexer::new("a b".to_string());
    assert_eq!(lexer.get_tokens(), vec![ident("a"), ident("b")]);
    assert_eq!(lexer.get_tokens(), vec![]);
}
