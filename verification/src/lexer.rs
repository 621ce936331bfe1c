//! The scanner: turns program text into tokens, one at a time.
use vstd::prelude::*;
use crate::text::{chars_of, push_char, same_text, string_of};

verus! {

/// The kinds of token that the language knows.
#[derive(Copy, Clone, PartialEq, Eq, Debug, Structural)]
pub enum TokenKind {
    Dollar,
    Dot,
    Plus,
    Minus,
    Star,
    Slash,
    Equal,
    EqualEqual,
    Tilde,
    BangTilde,
    And,
    Or,
    LCurly,
    RCurly,
    LSquare,
    RSquare,
    LAngle,
    RAngle,
    Comma,
    Semicolon,
    Str,
    Num,
    Identifier,
    Print,
    Begin,
    End,
    Error,
    EOF,
}

/// How a kind of token is written in a message.
pub open spec fn kind_text(kind: TokenKind) -> Seq<char> {
    match kind {
        TokenKind::Dollar => "$"@,
        TokenKind::Dot => "."@,
        TokenKind::Plus => "+"@,
        TokenKind::Minus => "-"@,
        TokenKind::Star => "*"@,
        TokenKind::Slash => "/"@,
        TokenKind::Equal => "="@,
        TokenKind::EqualEqual => "=="@,
        TokenKind::Tilde => "~"@,
        TokenKind::BangTilde => "!~"@,
        TokenKind::And => "&&"@,
        TokenKind::Or => "||"@,
        TokenKind::LCurly => "{"@,
        TokenKind::RCurly => "}"@,
        TokenKind::LSquare => "["@,
        TokenKind::RSquare => "]"@,
        TokenKind::LAngle => "<"@,
        TokenKind::RAngle => ">"@,
        TokenKind::Comma => ","@,
        TokenKind::Semicolon => ";"@,
        TokenKind::Print => "print"@,
        TokenKind::Str => "<string>"@,
        TokenKind::Num => "<num>"@,
        TokenKind::Identifier => "<identifier>"@,
        TokenKind::Begin => "BEGIN"@,
        TokenKind::End => "END"@,
        TokenKind::Error => "<error>"@,
        TokenKind::EOF => "<eof>"@,
    }
}

impl TokenKind {
    /// The kind as it is written in a message.
    pub fn describe(&self) -> (r: String)
        ensures
            r@ == kind_text(*self),
    {
        let s: &str = match self {
            TokenKind::Dollar => "$",
            TokenKind::Dot => ".",
            TokenKind::Plus => "+",
            TokenKind::Minus => "-",
            TokenKind::Star => "*",
            TokenKind::Slash => "/",
            TokenKind::Equal => "=",
            TokenKind::EqualEqual => "==",
            TokenKind::Tilde => "~",
            TokenKind::BangTilde => "!~",
            TokenKind::And => "&&",
            TokenKind::Or => "||",
            TokenKind::LCurly => "{",
            TokenKind::RCurly => "}",
            TokenKind::LSquare => "[",
            TokenKind::RSquare => "]",
            TokenKind::LAngle => "<",
            TokenKind::RAngle => ">",
            TokenKind::Comma => ",",
            TokenKind::Semicolon => ";",
            TokenKind::Print => "print",
            TokenKind::Str => "<string>",
            TokenKind::Num => "<num>",
            TokenKind::Identifier => "<identifier>",
            TokenKind::Begin => "BEGIN",
            TokenKind::End => "END",
            TokenKind::Error => "<error>",
            TokenKind::EOF => "<eof>",
        };
        String::from_str(s)
    }
}

/// One token: its kind, its text where the kind carries one, and the line it
/// started on.
#[derive(Clone, Debug, PartialEq)]
pub struct Token {
    pub kind: TokenKind,
    pub str: Option<String>,
    pub line: usize,
}

/// A token as a mathematical value.
pub struct TokenView {
    pub kind: TokenKind,
    pub text: Option<Seq<char>>,
    pub line: nat,
}

impl View for Token {
    type V = TokenView;

    open spec fn view(&self) -> TokenView {
        TokenView {
            kind: self.kind,
            text: match self.str {
                Some(s) => Some(s@),
                None => None,
            },
            line: self.line as nat,
        }
    }
}

/// A token without text.
pub open spec fn plain_token(kind: TokenKind, line: nat) -> TokenView {
    TokenView { kind, text: None, line }
}

/// A token that carries text.
pub open spec fn text_token(kind: TokenKind, text: Seq<char>, line: nat) -> TokenView {
    TokenView { kind, text: Some(text), line }
}

/// How a token is written in a message: its own text for strings, numbers
/// and identifiers, the kind's text otherwise.
pub open spec fn token_text(t: TokenView) -> Seq<char> {
    match t.kind {
        TokenKind::Str | TokenKind::Identifier | TokenKind::Num => match t.text {
            Some(s) => s,
            None => kind_text(t.kind),
        },
        _ => kind_text(t.kind),
    }
}

impl Token {
    /// A token of the given kind, without text.
    pub fn new(kind: TokenKind, line: usize) -> (t: Token)
        ensures
            t@ == plain_token(kind, line as nat),
    {
        Token { kind, str: None, line }
    }

    /// A copy of the token.
    pub fn duplicate(&self) -> (t: Token)
        ensures
            t@ == self@,
    {
        Token {
            kind: self.kind,
            str: match &self.str {
                Some(s) => Some(s.clone()),
                None => None,
            },
            line: self.line,
        }
    }

    /// The token as it is written in a message.
    pub fn describe(&self) -> (r: String)
        ensures
            r@ == token_text(self@),
    {
        match self.kind {
            TokenKind::Str | TokenKind::Identifier | TokenKind::Num => match &self.str {
                Some(s) => s.clone(),
                None => self.kind.describe(),
            },
            _ => self.kind.describe(),
        }
    }
}

/// Whether `c` is blank space between tokens.
pub open spec fn is_space(c: char) -> bool {
    c == ' ' || c == '\r' || c == '\n'
}

/// Whether `c` is an ASCII letter.
pub open spec fn is_letter(c: char) -> bool {
    ('a' <= c && c <= 'z') || ('A' <= c && c <= 'Z')
}

/// Whether `c` is an ASCII digit.
pub open spec fn is_digit(c: char) -> bool {
    '0' <= c && c <= '9'
}

/// The line number after one more line break. It stops at the largest
/// number the machine can hold.
pub open spec fn next_line(line: nat) -> nat {
    if line < usize::MAX {
        line + 1
    } else {
        line
    }
}

/// The state of a scanner: the text, the offset of the next character and
/// the line that offset is on.
pub struct LexerView {
    pub src: Seq<char>,
    pub pos: nat,
    pub line: nat,
}

/// The scanner at `pos`, on `line`, over the same text.
pub open spec fn moved(v: LexerView, pos: nat, line: nat) -> LexerView {
    LexerView { src: v.src, pos, line }
}

/// The scanner after the blank space that starts at its offset.
pub open spec fn skip_space(v: LexerView) -> LexerView
    decreases v.src.len() - v.pos,
{
    if v.pos < v.src.len() && is_space(v.src[v.pos as int]) {
        let line = if v.src[v.pos as int] == '\n' {
            next_line(v.line)
        } else {
            v.line
        };
        skip_space(moved(v, v.pos + 1, line))
    } else {
        v
    }
}

/// The end of the longest run of letters that starts at `pos`.
pub open spec fn letters_end(src: Seq<char>, pos: nat) -> nat
    decreases src.len() - pos,
{
    if pos < src.len() && is_letter(src[pos as int]) {
        letters_end(src, pos + 1)
    } else {
        pos
    }
}

/// The end of the longest run of digits that starts at `pos`.
pub open spec fn digits_end(src: Seq<char>, pos: nat) -> nat
    decreases src.len() - pos,
{
    if pos < src.len() && is_digit(src[pos as int]) {
        digits_end(src, pos + 1)
    } else {
        pos
    }
}

/// The offset of the first double quote at or after `pos`, if there is one.
pub open spec fn quote_at(src: Seq<char>, pos: nat) -> Option<nat>
    decreases src.len() - pos,
{
    if pos >= src.len() {
        None
    } else if src[pos as int] == '"' {
        Some(pos)
    } else {
        quote_at(src, pos + 1)
    }
}

/// The token for a word: a keyword, or else an identifier.
pub open spec fn word_token(word: Seq<char>, line: nat) -> TokenView {
    if word == "print"@ {
        plain_token(TokenKind::Print, line)
    } else if word == "BEGIN"@ {
        plain_token(TokenKind::Begin, line)
    } else if word == "END"@ {
        plain_token(TokenKind::End, line)
    } else {
        text_token(TokenKind::Identifier, word, line)
    }
}

/// The message for a character that starts no token.
pub open spec fn unexpected_character(c: char) -> Seq<char> {
    "unexpected character '"@.push(c) + "'"@
}

/// The kind of the token that the single character `c` makes, for the
/// characters that need no look ahead.
pub open spec fn single_kind(c: char) -> Option<TokenKind> {
    if c == '$' {
        Some(TokenKind::Dollar)
    } else if c == '.' {
        Some(TokenKind::Dot)
    } else if c == '+' {
        Some(TokenKind::Plus)
    } else if c == '-' {
        Some(TokenKind::Minus)
    } else if c == '*' {
        Some(TokenKind::Star)
    } else if c == '/' {
        Some(TokenKind::Slash)
    } else if c == '~' {
        Some(TokenKind::Tilde)
    } else if c == '{' {
        Some(TokenKind::LCurly)
    } else if c == '}' {
        Some(TokenKind::RCurly)
    } else if c == '[' {
        Some(TokenKind::LSquare)
    } else if c == ']' {
        Some(TokenKind::RSquare)
    } else if c == '<' {
        Some(TokenKind::LAngle)
    } else if c == '>' {
        Some(TokenKind::RAngle)
    } else if c == ',' {
        Some(TokenKind::Comma)
    } else if c == ';' {
        Some(TokenKind::Semicolon)
    } else {
        None
    }
}

/// The kind of the token that `c` makes when `follower` comes directly
/// after it, and the kind it makes alone, for the characters that start a
/// token of two characters.
pub open spec fn double_kind(c: char) -> Option<(char, TokenKind, Option<TokenKind>)> {
    if c == '=' {
        Some(('=', TokenKind::EqualEqual, Some(TokenKind::Equal)))
    } else if c == '!' {
        Some(('~', TokenKind::BangTilde, None))
    } else if c == '&' {
        Some(('&', TokenKind::And, None))
    } else if c == '|' {
        Some(('|', TokenKind::Or, None))
    } else {
        None
    }
}

/// The token that starts at the scanner's offset, which is not on blank
/// space, and the scanner after it.
pub open spec fn token_at(v: LexerView) -> (TokenView, LexerView) {
    if v.pos >= v.src.len() {
        (plain_token(TokenKind::EOF, v.line), v)
    } else {
        let c = v.src[v.pos as int];
        let after = v.pos + 1;
        if is_letter(c) {
            let end = letters_end(v.src, after);
            (word_token(v.src.subrange(v.pos as int, end as int), v.line), moved(v, end, v.line))
        } else if is_digit(c) {
            let end = digits_end(v.src, after);
            (
                text_token(TokenKind::Num, v.src.subrange(v.pos as int, end as int), v.line),
                moved(v, end, v.line),
            )
        } else if c == '"' {
            match quote_at(v.src, after) {
                Some(q) => (
                    text_token(TokenKind::Str, v.src.subrange(after as int, q as int), v.line),
                    moved(v, q + 1, v.line),
                ),
                None => (
                    text_token(TokenKind::Error, "unexpected EOF in string"@, v.line),
                    moved(v, v.src.len(), v.line),
                ),
            }
        } else if single_kind(c) is Some {
            (plain_token(single_kind(c)->0, v.line), moved(v, after, v.line))
        } else if double_kind(c) is Some {
            let (follower, joined, alone) = double_kind(c)->0;
            if after < v.src.len() && v.src[after as int] == follower {
                (plain_token(joined, v.line), moved(v, after + 1, v.line))
            } else if alone is Some {
                (plain_token(alone->0, v.line), moved(v, after, v.line))
            } else {
                (
                    text_token(TokenKind::Error, unexpected_character(c), v.line),
                    moved(v, after, v.line),
                )
            }
        } else {
            (text_token(TokenKind::Error, unexpected_character(c), v.line), moved(v, after, v.line))
        }
    }
}

/// The next token and the scanner after it: blank space is passed over
/// first.
pub open spec fn next_token(v: LexerView) -> (TokenView, LexerView) {
    token_at(skip_space(v))
}

/// Reads the body of a regular expression from `pos` on: the text gathered
/// so far is `acc`. Gives the body and the offset after the closing slash,
/// or nothing and the end of the text when no unescaped slash closes it.
pub open spec fn regex_body(src: Seq<char>, pos: nat, acc: Seq<char>) -> (Option<Seq<char>>, nat)
    decreases src.len() - pos,
{
    if pos >= src.len() {
        (None, src.len())
    } else if src[pos as int] == '/' {
        (Some(acc), pos + 1)
    } else if src[pos as int] == '\\' {
        if pos + 1 >= src.len() {
            (None, src.len())
        } else if src[(pos + 1) as int] == '/' {
            regex_body(src, pos + 2, acc.push('/'))
        } else {
            regex_body(src, pos + 2, acc.push('\\').push(src[(pos + 1) as int]))
        }
    } else {
        regex_body(src, pos + 1, acc.push(src[pos as int]))
    }
}

/// The token for the regular expression whose body starts at the scanner's
/// offset, and the scanner after it.
pub open spec fn read_regex(v: LexerView) -> (TokenView, LexerView) {
    let (body, end) = regex_body(v.src, v.pos, Seq::empty());
    match body {
        Some(text) => (text_token(TokenKind::Str, text, v.line), moved(v, end, v.line)),
        None => (
            text_token(TokenKind::Error, "unexpected EOF in regex"@, v.line),
            moved(v, end, v.line),
        ),
    }
}

/// How many characters the scanner has still to read.
pub open spec fn unread(v: LexerView) -> nat {
    if v.pos < v.src.len() {
        (v.src.len() - v.pos) as nat
    } else {
        0
    }
}

/// Passing over blank space keeps the text and never goes back.
pub proof fn lemma_skip_space(v: LexerView)
    ensures
        skip_space(v).src == v.src,
        skip_space(v).pos >= v.pos,
        v.pos <= v.src.len() ==> skip_space(v).pos <= v.src.len(),
    decreases v.src.len() - v.pos,
{
    if v.pos < v.src.len() && is_space(v.src[v.pos as int]) {
        let line = if v.src[v.pos as int] == '\n' {
            next_line(v.line)
        } else {
            v.line
        };
        lemma_skip_space(moved(v, v.pos + 1, line));
    }
}

/// A run of letters ends at or after its start, within the text.
pub proof fn lemma_letters_end(src: Seq<char>, pos: nat)
    ensures
        letters_end(src, pos) >= pos,
        pos <= src.len() ==> letters_end(src, pos) <= src.len(),
    decreases src.len() - pos,
{
    if pos < src.len() && is_letter(src[pos as int]) {
        lemma_letters_end(src, pos + 1);
    }
}

/// A run of digits ends at or after its start, within the text.
pub proof fn lemma_digits_end(src: Seq<char>, pos: nat)
    ensures
        digits_end(src, pos) >= pos,
        pos <= src.len() ==> digits_end(src, pos) <= src.len(),
    decreases src.len() - pos,
{
    if pos < src.len() && is_digit(src[pos as int]) {
        lemma_digits_end(src, pos + 1);
    }
}

/// A quote that is found lies at or after the start of the search, within
/// the text.
pub proof fn lemma_quote_at(src: Seq<char>, pos: nat)
    ensures
        quote_at(src, pos) is Some ==> pos <= quote_at(src, pos)->0 < src.len(),
    decreases src.len() - pos,
{
    if pos < src.len() && src[pos as int] != '"' {
        lemma_quote_at(src, pos + 1);
    }
}

/// Reading a token keeps the text and never goes back; every token but the
/// end of the text uses up at least one character.
pub proof fn lemma_next_token(v: LexerView)
    ensures
        next_token(v).1.src == v.src,
        unread(next_token(v).1) <= unread(v),
        !(next_token(v).0.kind is EOF) ==> unread(next_token(v).1) < unread(v),
        v.pos <= v.src.len() ==> next_token(v).1.pos <= v.src.len(),
{
    lemma_skip_space(v);
    let s = skip_space(v);
    if s.pos < s.src.len() {
        lemma_letters_end(s.src, s.pos + 1);
        lemma_digits_end(s.src, s.pos + 1);
        lemma_quote_at(s.src, s.pos + 1);
    }
}

/// The body of a regular expression ends at or after its start, within
/// the text; where it is closed, at least the closing slash was read.
pub proof fn lemma_regex_body(src: Seq<char>, pos: nat, acc: Seq<char>)
    ensures
        regex_body(src, pos, acc).1 >= pos || regex_body(src, pos, acc).1 == src.len(),
        pos <= src.len() ==> regex_body(src, pos, acc).1 <= src.len(),
        regex_body(src, pos, acc).0 is Some ==> regex_body(src, pos, acc).1 > pos,
    decreases src.len() - pos,
{
    if pos < src.len() && src[pos as int] != '/' {
        if src[pos as int] == '\\' {
            if pos + 1 < src.len() {
                if src[(pos + 1) as int] == '/' {
                    lemma_regex_body(src, pos + 2, acc.push('/'));
                } else {
                    lemma_regex_body(src, pos + 2, acc.push('\\').push(src[(pos + 1) as int]));
                }
            }
        } else {
            lemma_regex_body(src, pos + 1, acc.push(src[pos as int]));
        }
    }
}

/// Reading a regular expression keeps the text and never goes back; where
/// it gives no error, at least one character was read.
pub proof fn lemma_read_regex(v: LexerView)
    ensures
        read_regex(v).1.src == v.src,
        unread(read_regex(v).1) <= unread(v),
        !(read_regex(v).0.kind is Error) ==> unread(read_regex(v).1) < unread(v),
        v.pos <= v.src.len() ==> read_regex(v).1.pos <= v.src.len(),
{
    lemma_regex_body(v.src, v.pos, Seq::empty());
}

/// The scanner.
#[derive(Debug)]
pub struct Lexer {
    src: Vec<char>,
    pos: usize,
    token_start: usize,
    line: usize,
}

impl View for Lexer {
    type V = LexerView;

    closed spec fn view(&self) -> LexerView {
        LexerView { src: self.src@, pos: self.pos as nat, line: self.line as nat }
    }
}

/// Whether `c` is an ASCII letter.
fn letter(c: char) -> (r: bool)
    ensures
        r == is_letter(c),
{
    ('a' <= c && c <= 'z') || ('A' <= c && c <= 'Z')
}

/// Whether `c` is blank space between tokens.
fn blank(c: char) -> (r: bool)
    ensures
        r == is_space(c),
{
    c == ' ' || c == '\r' || c == '\n'
}

/// Whether `c` is an ASCII digit.
fn digit(c: char) -> (r: bool)
    ensures
        r == is_digit(c),
{
    '0' <= c && c <= '9'
}

impl Lexer {
    #[verifier::type_invariant]
    spec fn inv(self) -> bool {
        self.pos <= self.src@.len()
    }

    /// A scanner at the start of `src`, on line 1.
    pub fn new(src: &str) -> (lexer: Lexer)
        ensures
            lexer@ == (LexerView { src: src@, pos: 0, line: 1 }),
    {
        Lexer { src: chars_of(src), pos: 0, token_start: 0, line: 1 }
    }

    /// A token without text, on the current line.
    fn simple_token(&self, kind: TokenKind) -> (t: Token)
        ensures
            t@ == plain_token(kind, self@.line),
    {
        Token { kind, str: None, line: self.line }
    }

    /// A token with text, on the current line.
    fn str_token(&self, kind: TokenKind, text: String) -> (t: Token)
        ensures
            t@ == text_token(kind, text@, self@.line),
    {
        Token { kind, str: Some(text), line: self.line }
    }

    /// An error token with a message, on the current line.
    fn err_token(&self, message: String) -> (t: Token)
        ensures
            t@ == text_token(TokenKind::Error, message@, self@.line),
    {
        Token { kind: TokenKind::Error, str: Some(message), line: self.line }
    }

    /// The character at the offset, if there is one.
    fn peek(&self) -> (c: Option<char>)
        ensures
            c == if self@.pos < self@.src.len() {
                Some(self@.src[self@.pos as int])
            } else {
                None
            },
            c is Some ==> self@.pos < usize::MAX,
    {
        if self.pos < self.src.len() {
            Some(self.src[self.pos])
        } else {
            None
        }
    }

    /// Reads the character at the offset, if there is one.
    fn advance(&mut self) -> (c: Option<char>)
        ensures
            final(self).token_start == old(self).token_start,
            c == if old(self)@.pos < old(self)@.src.len() {
                Some(old(self)@.src[old(self)@.pos as int])
            } else {
                None
            },
            final(self)@ == if old(self)@.pos < old(self)@.src.len() {
                moved(old(self)@, old(self)@.pos + 1, old(self)@.line)
            } else {
                old(self)@
            },
    {
        proof {
            use_type_invariant(&*self);
        }
        if self.pos < self.src.len() {
            let c = self.src[self.pos];
            self.pos += 1;
            Some(c)
        } else {
            None
        }
    }

    /// Passes over blank space, counting the lines.
    fn skip_whitespace(&mut self)
        ensures
            final(self)@ == skip_space(old(self)@),
    {
        proof {
            use_type_invariant(&*self);
        }
        while self.pos < self.src.len() && blank(self.src[self.pos])
            invariant
                self.pos <= self.src@.len(),
                skip_space(self@) == skip_space(old(self)@),
            decreases self.src@.len() - self.pos,
        {
            if self.src[self.pos] == '\n' && self.line < usize::MAX {
                self.line += 1;
            }
            self.pos += 1;
        }
    }

    /// Reads the rest of a word whose first letter has been read.
    fn identifier(&mut self) -> (t: Token)
        requires
            old(self).token_start < old(self).pos,
        ensures
            final(self)@ == moved(
                old(self)@,
                letters_end(old(self)@.src, old(self)@.pos),
                old(self)@.line,
            ),
            t@ == word_token(
                old(self)@.src.subrange(
                    old(self).token_start as int,
                    letters_end(old(self)@.src, old(self)@.pos) as int,
                ),
                old(self)@.line,
            ),
    {
        proof {
            use_type_invariant(&*self);
        }
        while self.pos < self.src.len() && letter(self.src[self.pos])
            invariant
                self.pos <= self.src@.len(),
                self.src == old(self).src,
                self.line == old(self).line,
                self.token_start == old(self).token_start,
                self.token_start < self.pos,
                letters_end(self.src@, self.pos as nat) == letters_end(
                    old(self).src@,
                    old(self).pos as nat,
                ),
            decreases self.src@.len() - self.pos,
        {
            self.pos += 1;
        }
        let ident = string_of(&self.src, self.token_start, self.pos);
        if same_text(ident.as_str(), "print") {
            self.simple_token(TokenKind::Print)
        } else if same_text(ident.as_str(), "BEGIN") {
            self.simple_token(TokenKind::Begin)
        } else if same_text(ident.as_str(), "END") {
            self.simple_token(TokenKind::End)
        } else {
            self.str_token(TokenKind::Identifier, ident)
        }
    }

    /// Reads the rest of a number whose first digit has been read.
    fn number(&mut self) -> (t: Token)
        requires
            old(self).token_start < old(self).pos,
        ensures
            final(self)@ == moved(
                old(self)@,
                digits_end(old(self)@.src, old(self)@.pos),
                old(self)@.line,
            ),
            t@ == text_token(
                TokenKind::Num,
                old(self)@.src.subrange(
                    old(self).token_start as int,
                    digits_end(old(self)@.src, old(self)@.pos) as int,
                ),
                old(self)@.line,
            ),
    {
        proof {
            use_type_invariant(&*self);
        }
        while self.pos < self.src.len() && digit(self.src[self.pos])
            invariant
                self.pos <= self.src@.len(),
                self.src == old(self).src,
                self.line == old(self).line,
                self.token_start == old(self).token_start,
                self.token_start < self.pos,
                digits_end(self.src@, self.pos as nat) == digits_end(
                    old(self).src@,
                    old(self).pos as nat,
                ),
            decreases self.src@.len() - self.pos,
        {
            self.pos += 1;
        }
        let num = string_of(&self.src, self.token_start, self.pos);
        self.str_token(TokenKind::Num, num)
    }

    /// Reads a string whose opening quote has been read.
    fn string(&mut self) -> (t: Token)
        requires
            old(self).token_start + 1 == old(self).pos,
        ensures
            match quote_at(old(self)@.src, old(self)@.pos) {
                Some(q) => {
                    &&& final(self)@ == moved(old(self)@, q + 1, old(self)@.line)
                    &&& t@ == text_token(
                        TokenKind::Str,
                        old(self)@.src.subrange(old(self)@.pos as int, q as int),
                        old(self)@.line,
                    )
                },
                None => {
                    &&& final(self)@ == moved(old(self)@, old(self)@.src.len(), old(self)@.line)
                    &&& t@ == text_token(
                        TokenKind::Error,
                        "unexpected EOF in string"@,
                        old(self)@.line,
                    )
                },
            },
    {
        proof {
            use_type_invariant(&*self);
        }
        while self.pos < self.src.len() && self.src[self.pos] != '"'
            invariant
                self.pos <= self.src@.len(),
                self.src == old(self).src,
                self.line == old(self).line,
                self.token_start == old(self).token_start,
                self.token_start < self.pos,
                quote_at(self.src@, self.pos as nat) == quote_at(
                    old(self).src@,
                    old(self).pos as nat,
                ),
            decreases self.src@.len() - self.pos,
        {
            self.pos += 1;
        }
        if self.pos >= self.src.len() {
            return self.err_token(String::from_str("unexpected EOF in string"));
        }
        let content = string_of(&self.src, self.token_start + 1, self.pos);
        self.pos += 1;
        self.str_token(TokenKind::Str, content)
    }

    /// The error token for a character that starts no token.
    fn unexpected(&self, c: char) -> (t: Token)
        ensures
            t@ == text_token(TokenKind::Error, unexpected_character(c), self@.line),
    {
        let mut message = String::from_str("unexpected character '");
        push_char(&mut message, c);
        message.append("'");
        self.err_token(message)
    }

    /// Reads the second character of a token of two characters, where it
    /// is there.
    fn double(&mut self, follower: char, joined: TokenKind, alone: Option<TokenKind>, c: char) -> (t:
        Token)
        ensures
            (t@, final(self)@) == (if old(self)@.pos < old(self)@.src.len() && old(
                self,
            )@.src[old(self)@.pos as int] == follower {
                (
                    plain_token(joined, old(self)@.line),
                    moved(old(self)@, old(self)@.pos + 1, old(self)@.line),
                )
            } else if alone is Some {
                (plain_token(alone->0, old(self)@.line), old(self)@)
            } else {
                (text_token(TokenKind::Error, unexpected_character(c), old(self)@.line), old(self)@)
            }),
    {
        proof {
            use_type_invariant(&*self);
        }
        let follows = match self.peek() {
            Some(next) => next == follower,
            None => false,
        };
        if follows {
            self.pos += 1;
            self.simple_token(joined)
        } else {
            match alone {
                Some(kind) => self.simple_token(kind),
                None => self.unexpected(c),
            }
        }
    }

    /// Passes over blank space and reads one token.
    pub fn next_token(&mut self) -> (t: Token)
        ensures
            (t@, final(self)@) == next_token(old(self)@),
    {
        self.skip_whitespace();
        proof {
            use_type_invariant(&*self);
        }
        self.token_start = self.pos;
        let c = match self.advance() {
            Some(c) => c,
            None => {
                return self.simple_token(TokenKind::EOF);
            },
        };
        if letter(c) {
            return self.identifier();
        }
        if digit(c) {
            return self.number();
        }
        if c == '"' {
            return self.string();
        }
        match c {
            '$' => self.simple_token(TokenKind::Dollar),
            '.' => self.simple_token(TokenKind::Dot),
            '+' => self.simple_token(TokenKind::Plus),
            '-' => self.simple_token(TokenKind::Minus),
            '*' => self.simple_token(TokenKind::Star),
            '/' => self.simple_token(TokenKind::Slash),
            '~' => self.simple_token(TokenKind::Tilde),
            '{' => self.simple_token(TokenKind::LCurly),
            '}' => self.simple_token(TokenKind::RCurly),
            '[' => self.simple_token(TokenKind::LSquare),
            ']' => self.simple_token(TokenKind::RSquare),
            '<' => self.simple_token(TokenKind::LAngle),
            '>' => self.simple_token(TokenKind::RAngle),
            ',' => self.simple_token(TokenKind::Comma),
            ';' => self.simple_token(TokenKind::Semicolon),
            '=' => self.double('=', TokenKind::EqualEqual, Some(TokenKind::Equal), c),
            '!' => self.double('~', TokenKind::BangTilde, None, c),
            '&' => self.double('&', TokenKind::And, None, c),
            '|' => self.double('|', TokenKind::Or, None, c),
            _ => self.unexpected(c),
        }
    }

    /// Reads the body of a regular expression, up to the slash that closes
    /// it. The slash that opened it has been read already.
    pub fn read_regex(&mut self) -> (t: Token)
        ensures
            (t@, final(self)@) == read_regex(old(self)@),
    {
        proof {
            use_type_invariant(&*self);
        }
        let mut body = String::new();
        loop
            invariant
                self.pos <= self.src@.len(),
                self@.src == old(self)@.src,
                self.line == old(self).line,
                regex_body(self.src@, self.pos as nat, body@) == regex_body(
                    old(self).src@,
                    old(self).pos as nat,
                    Seq::empty(),
                ),
            decreases self.src@.len() - self.pos,
        {
            match self.advance() {
                None => {
                    return self.err_token(String::from_str("unexpected EOF in regex"));
                },
                Some('/') => {
                    return self.str_token(TokenKind::Str, body);
                },
                Some('\\') => {
                    match self.advance() {
                        None => {
                            return self.err_token(String::from_str("unexpected EOF in regex"));
                        },
                        Some('/') => {
                            push_char(&mut body, '/');
                        },
                        Some(c) => {
                            push_char(&mut body, '\\');
                            push_char(&mut body, c);
                        },
                    }
                },
                Some(c) => {
                    push_char(&mut body, c);
                },
            }
        }
    }
}

} // verus!
