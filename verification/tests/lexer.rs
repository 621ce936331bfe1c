use jqawk::lexer::{Lexer, Token, TokenKind};

fn kinds(src: &str) -> Vec<TokenKind> {
    let mut lexer = Lexer::new(src);
    let mut out = Vec::new();
    loop {
        let t = lexer.next_token();
        let kind = t.kind;
        out.push(kind);
        if kind == TokenKind::EOF || kind == TokenKind::Error {
            return out;
        }
    }
}

fn text(kind: TokenKind, s: &str, line: usize) -> Token {
    Token { kind, str: Some(s.to_string()), line }
}

#[test]
fn token_new_has_no_text() {
    let t = Token::new(TokenKind::Plus, 7);
    assert_eq!(t, Token { kind: TokenKind::Plus, str: None, line: 7 });
}

#[test]
fn empty_source_is_end_of_text_again_and_again() {
    let mut lexer = Lexer::new("");
    assert_eq!(lexer.next_token(), Token::new(TokenKind::EOF, 1));
    assert_eq!(lexer.next_token(), Token::new(TokenKind::EOF, 1));
    let mut blank = Lexer::new("  \r\n ");
    assert_eq!(blank.next_token(), Token::new(TokenKind::EOF, 2));
}

#[test]
fn single_character_tokens() {
    assert_eq!(
        kinds("$ . + - * / { } [ ] < > , ; ~"),
        vec![
            TokenKind::Dollar,
            TokenKind::Dot,
            TokenKind::Plus,
            TokenKind::Minus,
            TokenKind::Star,
            TokenKind::Slash,
            TokenKind::LCurly,
            TokenKind::RCurly,
            TokenKind::LSquare,
            TokenKind::RSquare,
            TokenKind::LAngle,
            TokenKind::RAngle,
            TokenKind::Comma,
            TokenKind::Semicolon,
            TokenKind::Tilde,
            TokenKind::EOF,
        ]
    );
}

#[test]
fn two_character_tokens() {
    assert_eq!(
        kinds("= == === !~ && ||"),
        vec![
            TokenKind::Equal,
            TokenKind::EqualEqual,
            TokenKind::EqualEqual,
            TokenKind::Equal,
            TokenKind::BangTilde,
            TokenKind::And,
            TokenKind::Or,
            TokenKind::EOF,
        ]
    );
}

#[test]
fn half_an_operator_is_an_error() {
    for (src, c) in [("!", '!'), ("&", '&'), ("|", '|'), ("!x", '!'), ("& &", '&')] {
        let mut lexer = Lexer::new(src);
        assert_eq!(
            lexer.next_token(),
            text(TokenKind::Error, &format!("unexpected character '{}'", c), 1)
        );
    }
}

#[test]
fn unknown_character_is_an_error() {
    let mut lexer = Lexer::new("  #");
    assert_eq!(lexer.next_token(), text(TokenKind::Error, "unexpected character '#'", 1));
    assert_eq!(lexer.next_token(), Token::new(TokenKind::EOF, 1));
    let mut lexer = Lexer::new("é");
    assert_eq!(lexer.next_token(), text(TokenKind::Error, "unexpected character 'é'", 1));
}

#[test]
fn keywords_and_identifiers() {
    let mut lexer = Lexer::new("print BEGIN END printer begin Print x");
    assert_eq!(lexer.next_token(), Token::new(TokenKind::Print, 1));
    assert_eq!(lexer.next_token(), Token::new(TokenKind::Begin, 1));
    assert_eq!(lexer.next_token(), Token::new(TokenKind::End, 1));
    assert_eq!(lexer.next_token(), text(TokenKind::Identifier, "printer", 1));
    assert_eq!(lexer.next_token(), text(TokenKind::Identifier, "begin", 1));
    assert_eq!(lexer.next_token(), text(TokenKind::Identifier, "Print", 1));
    assert_eq!(lexer.next_token(), text(TokenKind::Identifier, "x", 1));
    assert_eq!(lexer.next_token(), Token::new(TokenKind::EOF, 1));
}

#[test]
fn identifiers_hold_letters_only() {
    let mut lexer = Lexer::new("ab1c");
    assert_eq!(lexer.next_token(), text(TokenKind::Identifier, "ab", 1));
    assert_eq!(lexer.next_token(), text(TokenKind::Num, "1", 1));
    assert_eq!(lexer.next_token(), text(TokenKind::Identifier, "c", 1));
    let mut lexer = Lexer::new("a_b");
    assert_eq!(lexer.next_token(), text(TokenKind::Identifier, "a", 1));
    assert_eq!(lexer.next_token(), text(TokenKind::Error, "unexpected character '_'", 1));
}

#[test]
fn numbers_are_runs_of_digits() {
    let mut lexer = Lexer::new("007 12.5");
    assert_eq!(lexer.next_token(), text(TokenKind::Num, "007", 1));
    assert_eq!(lexer.next_token(), text(TokenKind::Num, "12", 1));
    assert_eq!(lexer.next_token(), Token::new(TokenKind::Dot, 1));
    assert_eq!(lexer.next_token(), text(TokenKind::Num, "5", 1));
    assert_eq!(lexer.next_token(), Token::new(TokenKind::EOF, 1));
}

#[test]
fn strings_lose_their_quotes() {
    let mut lexer = Lexer::new("\"begin\" \"\" \"a b\"x");
    assert_eq!(lexer.next_token(), text(TokenKind::Str, "begin", 1));
    assert_eq!(lexer.next_token(), text(TokenKind::Str, "", 1));
    assert_eq!(lexer.next_token(), text(TokenKind::Str, "a b", 1));
    assert_eq!(lexer.next_token(), text(TokenKind::Identifier, "x", 1));
}

#[test]
fn strings_may_hold_any_character() {
    let mut lexer = Lexer::new("\"£ 5\" \"a\nb\" z");
    assert_eq!(lexer.next_token(), text(TokenKind::Str, "£ 5", 1));
    assert_eq!(lexer.next_token(), text(TokenKind::Str, "a\nb", 1));
    assert_eq!(lexer.next_token(), text(TokenKind::Identifier, "z", 1));
}

#[test]
fn unterminated_string_is_an_error() {
    let mut lexer = Lexer::new("\n\"abc");
    assert_eq!(lexer.next_token(), text(TokenKind::Error, "unexpected EOF in string", 2));
    assert_eq!(lexer.next_token(), Token::new(TokenKind::EOF, 2));
}

#[test]
fn lines_are_counted_at_line_breaks() {
    let mut lexer = Lexer::new("a\nb\r\n\n  c");
    assert_eq!(lexer.next_token(), text(TokenKind::Identifier, "a", 1));
    assert_eq!(lexer.next_token(), text(TokenKind::Identifier, "b", 2));
    assert_eq!(lexer.next_token(), text(TokenKind::Identifier, "c", 4));
    assert_eq!(lexer.next_token(), Token::new(TokenKind::EOF, 4));
}

#[test]
fn tabs_are_no_blank_space() {
    let mut lexer = Lexer::new("\tx");
    assert_eq!(lexer.next_token(), text(TokenKind::Error, "unexpected character '\t'", 1));
}

#[test]
fn regex_is_read_up_to_the_closing_slash() {
    let mut lexer = Lexer::new("/Asia/ x");
    assert_eq!(lexer.next_token(), Token::new(TokenKind::Slash, 1));
    assert_eq!(lexer.read_regex(), text(TokenKind::Str, "Asia", 1));
    assert_eq!(lexer.next_token(), text(TokenKind::Identifier, "x", 1));
}

#[test]
fn regex_unescapes_the_slash_only() {
    let mut lexer = Lexer::new("a\\/b\\$c\\\\/rest");
    assert_eq!(lexer.read_regex(), text(TokenKind::Str, "a/b\\$c\\\\", 1));
    assert_eq!(lexer.next_token(), text(TokenKind::Identifier, "rest", 1));
}

#[test]
fn regex_may_be_empty() {
    let mut lexer = Lexer::new("/");
    assert_eq!(lexer.read_regex(), text(TokenKind::Str, "", 1));
    assert_eq!(lexer.next_token(), Token::new(TokenKind::EOF, 1));
}

#[test]
fn unterminated_regex_is_an_error() {
    for src in ["abc", "", "abc\\", "abc\\/"] {
        let mut lexer = Lexer::new(src);
        assert_eq!(lexer.read_regex(), text(TokenKind::Error, "unexpected EOF in regex", 1));
        assert_eq!(lexer.next_token(), Token::new(TokenKind::EOF, 1));
    }
}

#[test]
fn kinds_and_tokens_describe_themselves() {
    assert_eq!(TokenKind::Dollar.describe(), "$");
    assert_eq!(TokenKind::EqualEqual.describe(), "==");
    assert_eq!(TokenKind::BangTilde.describe(), "!~");
    assert_eq!(TokenKind::And.describe(), "&&");
    assert_eq!(TokenKind::Or.describe(), "||");
    assert_eq!(TokenKind::Tilde.describe(), "~");
    assert_eq!(TokenKind::Str.describe(), "<string>");
    assert_eq!(TokenKind::Num.describe(), "<num>");
    assert_eq!(TokenKind::Identifier.describe(), "<identifier>");
    assert_eq!(TokenKind::Begin.describe(), "BEGIN");
    assert_eq!(TokenKind::End.describe(), "END");
    assert_eq!(TokenKind::Print.describe(), "print");
    assert_eq!(TokenKind::Error.describe(), "<error>");
    assert_eq!(TokenKind::EOF.describe(), "<eof>");
    assert_eq!(text(TokenKind::Identifier, "total", 1).describe(), "total");
    assert_eq!(text(TokenKind::Num, "42", 1).describe(), "42");
    assert_eq!(text(TokenKind::Str, "hi", 1).describe(), "hi");
    assert_eq!(text(TokenKind::Error, "oops", 1).describe(), "<error>");
    assert_eq!(Token::new(TokenKind::LCurly, 1).describe(), "{");
    assert_eq!(Token::new(TokenKind::Str, 1).describe(), "<string>");
}

#[test]
fn duplicate_is_an_equal_token() {
    let t = text(TokenKind::Str, "hello", 3);
    assert_eq!(t.duplicate(), t);
}
