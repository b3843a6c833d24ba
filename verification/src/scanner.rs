//! Tokens and the scanner that produces them.

use vstd::prelude::*;
use vstd::string::StringExecFns;
use std::rc::Rc;
use crate::number::Number;
use crate::number::NumberView;
use crate::text::texts;

verus! {

/// The kind of a token; string and number literals carry their value.
#[derive(Debug, PartialEq)]
pub enum TokenType {
    LeftParen,
    RightParen,
    LeftBrace,
    RightBrace,
    Comma,
    Dot,
    Minus,
    Plus,
    Semicolon,
    Slash,
    Star,
    Bang,
    BangEqual,
    Equal,
    EqualEqual,
    Greater,
    GreaterEqual,
    Less,
    LessEqual,
    Identifier,
    String(String),
    Number(Number),
    And,
    Else,
    False,
    Fn,
    For,
    If,
    Null,
    Or,
    Print,
    Return,
    True,
    Let,
    While,
    EOF,
}

/// A token kind in contracts: literals carry sequences in place of strings.
pub enum TokenTypeView {
    LeftParen,
    RightParen,
    LeftBrace,
    RightBrace,
    Comma,
    Dot,
    Minus,
    Plus,
    Semicolon,
    Slash,
    Star,
    Bang,
    BangEqual,
    Equal,
    EqualEqual,
    Greater,
    GreaterEqual,
    Less,
    LessEqual,
    Identifier,
    String(Seq<char>),
    Number(NumberView),
    And,
    Else,
    False,
    Fn,
    For,
    If,
    Null,
    Or,
    Print,
    Return,
    True,
    Let,
    While,
    EOF,
}

impl View for TokenType {
    type V = TokenTypeView;

    open spec fn view(&self) -> TokenTypeView {
        match *self {
            TokenType::LeftParen => TokenTypeView::LeftParen,
            TokenType::RightParen => TokenTypeView::RightParen,
            TokenType::LeftBrace => TokenTypeView::LeftBrace,
            TokenType::RightBrace => TokenTypeView::RightBrace,
            TokenType::Comma => TokenTypeView::Comma,
            TokenType::Dot => TokenTypeView::Dot,
            TokenType::Minus => TokenTypeView::Minus,
            TokenType::Plus => TokenTypeView::Plus,
            TokenType::Semicolon => TokenTypeView::Semicolon,
            TokenType::Slash => TokenTypeView::Slash,
            TokenType::Star => TokenTypeView::Star,
            TokenType::Bang => TokenTypeView::Bang,
            TokenType::BangEqual => TokenTypeView::BangEqual,
            TokenType::Equal => TokenTypeView::Equal,
            TokenType::EqualEqual => TokenTypeView::EqualEqual,
            TokenType::Greater => TokenTypeView::Greater,
            TokenType::GreaterEqual => TokenTypeView::GreaterEqual,
            TokenType::Less => TokenTypeView::Less,
            TokenType::LessEqual => TokenTypeView::LessEqual,
            TokenType::Identifier => TokenTypeView::Identifier,
            TokenType::String(s) => TokenTypeView::String(s@),
            TokenType::Number(n) => TokenTypeView::Number(n@),
            TokenType::And => TokenTypeView::And,
            TokenType::Else => TokenTypeView::Else,
            TokenType::False => TokenTypeView::False,
            TokenType::Fn => TokenTypeView::Fn,
            TokenType::For => TokenTypeView::For,
            TokenType::If => TokenTypeView::If,
            TokenType::Null => TokenTypeView::Null,
            TokenType::Or => TokenTypeView::Or,
            TokenType::Print => TokenTypeView::Print,
            TokenType::Return => TokenTypeView::Return,
            TokenType::True => TokenTypeView::True,
            TokenType::Let => TokenTypeView::Let,
            TokenType::While => TokenTypeView::While,
            TokenType::EOF => TokenTypeView::EOF,
        }
    }
}

/// A lexical unit: its text, the line it stands on and its kind.
#[derive(Debug, PartialEq)]
pub struct Token {
    pub lexeme: String,
    pub line: u32,
    pub typ: TokenType,
}

/// The views of a list of tokens.
pub open spec fn token_views(tokens: Seq<Rc<Token>>) -> Seq<TokenView> {
    tokens.map_values(|t: Rc<Token>| t@)
}

/// A token in contracts.
pub struct TokenView {
    pub lexeme: Seq<char>,
    pub line: u32,
    pub typ: TokenTypeView,
}

impl View for Token {
    type V = TokenView;

    open spec fn view(&self) -> TokenView {
        TokenView { lexeme: self.lexeme@, line: self.line, typ: self.typ@ }
    }
}

impl Clone for TokenType {
    fn clone(&self) -> (copy: Self)
        ensures
            copy == *self,
    {
        match self {
            TokenType::String(s) => TokenType::String(s.clone()),
            TokenType::Number(n) => TokenType::Number(n.clone()),
            TokenType::LeftParen => TokenType::LeftParen,
            TokenType::RightParen => TokenType::RightParen,
            TokenType::LeftBrace => TokenType::LeftBrace,
            TokenType::RightBrace => TokenType::RightBrace,
            TokenType::Comma => TokenType::Comma,
            TokenType::Dot => TokenType::Dot,
            TokenType::Minus => TokenType::Minus,
            TokenType::Plus => TokenType::Plus,
            TokenType::Semicolon => TokenType::Semicolon,
            TokenType::Slash => TokenType::Slash,
            TokenType::Star => TokenType::Star,
            TokenType::Bang => TokenType::Bang,
            TokenType::BangEqual => TokenType::BangEqual,
            TokenType::Equal => TokenType::Equal,
            TokenType::EqualEqual => TokenType::EqualEqual,
            TokenType::Greater => TokenType::Greater,
            TokenType::GreaterEqual => TokenType::GreaterEqual,
            TokenType::Less => TokenType::Less,
            TokenType::LessEqual => TokenType::LessEqual,
            TokenType::Identifier => TokenType::Identifier,
            TokenType::And => TokenType::And,
            TokenType::Else => TokenType::Else,
            TokenType::False => TokenType::False,
            TokenType::Fn => TokenType::Fn,
            TokenType::For => TokenType::For,
            TokenType::If => TokenType::If,
            TokenType::Null => TokenType::Null,
            TokenType::Or => TokenType::Or,
            TokenType::Print => TokenType::Print,
            TokenType::Return => TokenType::Return,
            TokenType::True => TokenType::True,
            TokenType::Let => TokenType::Let,
            TokenType::While => TokenType::While,
            TokenType::EOF => TokenType::EOF,
        }
    }
}

impl Clone for Token {
    fn clone(&self) -> (copy: Self)
        ensures
            copy == *self,
    {
        Token { lexeme: self.lexeme.clone(), line: self.line, typ: self.typ.clone() }
    }
}

impl Token {
    /// Makes a token from its parts.
    pub fn new(lexeme: &str, line: u32, typ: TokenType) -> (token: Token)
        ensures
            token@ == (TokenView { lexeme: lexeme@, line, typ: typ@ }),
            token.typ == typ,
    {
        Token { lexeme: String::from_str(lexeme), line, typ }
    }
}

/// `String::push`: the character is appended.
pub assume_specification[ std::string::String::push ](text: &mut std::string::String, c: char)
    ensures
        final(text)@ == old(text)@.push(c),
;

/// The characters of a text.
fn characters(s: &str) -> (v: Vec<char>)
    ensures
        v@ == s@,
{
    let mut v: Vec<char> = Vec::new();
    for c in it: s.chars()
        invariant
            v@ == it.seq().take(it.index() as int),
            it.seq() == s@,
    {
        v.push(c);
        assert(v@ =~= it.seq().take(it.index() + 1));
    }
    assert(v@ =~= s@);
    v
}

/// The text between two positions of a list of characters.
fn text_between(chars: &Vec<char>, from: usize, to: usize) -> (s: String)
    requires
        from <= to <= chars.len(),
    ensures
        s@ == chars@.subrange(from as int, to as int),
{
    let mut s = String::new();
    let mut i: usize = from;
    while i < to
        invariant
            from <= i <= to <= chars.len(),
            s@ == chars@.subrange(from as int, i as int),
        decreases to - i,
    {
        s.push(chars[i]);
        assert(s@ =~= chars@.subrange(from as int, i + 1));
        i += 1;
    }
    s
}

/// Whether the characters between two positions spell `word`.
fn spells(chars: &Vec<char>, from: usize, to: usize, word: &str) -> (b: bool)
    requires
        from <= to <= chars.len(),
    ensures
        b == (chars@.subrange(from as int, to as int) == word@),
{
    let n: usize = word.unicode_len();
    if n != to - from {
        return false;
    }
    let mut i: usize = 0;
    while i < n
        invariant
            i <= n,
            n == to - from,
            n == word@.len(),
            from <= to <= chars.len(),
            forall|k: int| 0 <= k < i ==> chars@[from + k] == word@[k],
        decreases n - i,
    {
        if chars[from + i] != word.get_char(i) {
            assert(chars@.subrange(from as int, to as int)[i as int] != word@[i as int]);
            return false;
        }
        i += 1;
    }
    assert(chars@.subrange(from as int, to as int) =~= word@);
    true
}

/// A class of characters that a lexeme runs through.
pub enum CharClass {
    Digit,
    AlphaNumeric,
    NotNewline,
    NotQuote,
}

/// A decimal digit.
pub open spec fn is_digit(c: char) -> bool {
    '0' <= c && c <= '9'
}

/// A letter of the basic alphabet, or an underscore.
pub open spec fn is_alpha(c: char) -> bool {
    ('a' <= c && c <= 'z') || ('A' <= c && c <= 'Z') || c == '_'
}

/// A character that an identifier may hold.
pub open spec fn is_alpha_numeric(c: char) -> bool {
    is_digit(c) || is_alpha(c)
}

/// Whether a character belongs to a class.
pub open spec fn in_class(class: CharClass, c: char) -> bool {
    match class {
        CharClass::Digit => is_digit(c),
        CharClass::AlphaNumeric => is_alpha_numeric(c),
        CharClass::NotNewline => c != '\n',
        CharClass::NotQuote => c != '"',
    }
}

/// The first position at or after `pos` whose character is not of the
/// class; the end of the text when there is none.
pub open spec fn skip(src: Seq<char>, pos: int, class: CharClass) -> int
    decreases src.len() - pos,
{
    if 0 <= pos < src.len() && in_class(class, src[pos]) {
        skip(src, pos + 1, class)
    } else {
        pos
    }
}

/// How many line ends stand between two positions.
pub open spec fn newlines(src: Seq<char>, from: int, to: int) -> int
    decreases to - from,
{
    if from >= to {
        0
    } else {
        newlines(src, from, to - 1) + if src[to - 1] == '\n' {
            1int
        } else {
            0int
        }
    }
}

/// What one step of the scanner finds: a token or none, an error or none,
/// the position after the lexeme, and the line there.
pub struct Lexeme {
    pub token: Option<TokenView>,
    pub error: Option<Seq<char>>,
    pub end: int,
    pub line: int,
}

/// A lexeme of `len` characters at `pos` that is a token of kind `typ`.
pub open spec fn plain(src: Seq<char>, pos: int, len: int, line: int, typ: TokenTypeView) -> Lexeme {
    Lexeme {
        token: Some(TokenView { lexeme: src.subrange(pos, pos + len), line: line as u32, typ }),
        error: None,
        end: pos + len,
        line,
    }
}

/// Whether the character after `pos` is `c`.
pub open spec fn followed_by(src: Seq<char>, pos: int, c: char) -> bool {
    pos + 1 < src.len() && src[pos + 1] == c
}

/// An operator of one character that, followed by `=`, is another of two.
pub open spec fn operator(
    src: Seq<char>,
    pos: int,
    line: int,
    single: TokenTypeView,
    double: TokenTypeView,
) -> Lexeme {
    if followed_by(src, pos, '=') {
        plain(src, pos, 2, line, double)
    } else {
        plain(src, pos, 1, line, single)
    }
}

/// A string literal that opens at `pos`: it runs to the next quote, over
/// line ends, and holds what stands between the quotes; its token is on
/// the line of the closing quote. Without a closing quote the rest of the
/// text is consumed and an error is reported on the line of the opening
/// quote.
pub open spec fn string_lexeme(src: Seq<char>, pos: int, line: int) -> Lexeme {
    let close = skip(src, pos + 1, CharClass::NotQuote);
    let last_line = line + newlines(src, pos + 1, close);
    if close >= src.len() {
        Lexeme {
            token: None,
            error: Some(crate::error_text(line as u32, "Unterminated string."@)),
            end: close,
            line: last_line,
        }
    } else {
        Lexeme {
            token: Some(
                TokenView {
                    lexeme: src.subrange(pos, close + 1),
                    line: last_line as u32,
                    typ: TokenTypeView::String(src.subrange(pos + 1, close)),
                },
            ),
            error: None,
            end: close + 1,
            line: last_line,
        }
    }
}

/// Where the number that starts at `pos` ends: after its digits, and after
/// a fraction when a dot and a digit follow them.
pub open spec fn number_end(src: Seq<char>, pos: int) -> int {
    let whole = skip(src, pos, CharClass::Digit);
    if whole + 1 < src.len() && src[whole] == '.' && is_digit(src[whole + 1]) {
        skip(src, whole + 1, CharClass::Digit)
    } else {
        whole
    }
}

/// A number literal at `pos`; its value is what the reader makes of its text.
pub open spec fn number_lexeme(
    src: Seq<char>,
    pos: int,
    line: int,
    read: spec_fn(Seq<char>) -> NumberView,
) -> Lexeme {
    let end = number_end(src, pos);
    plain(src, pos, end - pos, line, TokenTypeView::Number(read(src.subrange(pos, end))))
}

/// The kind of a word: a reserved word's own, and identifier otherwise.
pub open spec fn keyword(word: Seq<char>) -> TokenTypeView {
    if word == "and"@ {
        TokenTypeView::And
    } else if word == "else"@ {
        TokenTypeView::Else
    } else if word == "false"@ {
        TokenTypeView::False
    } else if word == "for"@ {
        TokenTypeView::For
    } else if word == "fn"@ {
        TokenTypeView::Fn
    } else if word == "if"@ {
        TokenTypeView::If
    } else if word == "null"@ {
        TokenTypeView::Null
    } else if word == "or"@ {
        TokenTypeView::Or
    } else if word == "print"@ {
        TokenTypeView::Print
    } else if word == "return"@ {
        TokenTypeView::Return
    } else if word == "true"@ {
        TokenTypeView::True
    } else if word == "let"@ {
        TokenTypeView::Let
    } else if word == "while"@ {
        TokenTypeView::While
    } else {
        TokenTypeView::Identifier
    }
}

/// A word at `pos`: letters, digits and underscores.
pub open spec fn identifier_lexeme(src: Seq<char>, pos: int, line: int) -> Lexeme {
    let end = skip(src, pos, CharClass::AlphaNumeric);
    plain(src, pos, end - pos, line, keyword(src.subrange(pos, end)))
}

/// The message for a character that starts no lexeme.
pub open spec fn unexpected_text(c: char) -> Seq<char> {
    "Unexpected token '"@ + seq![c] + "'."@
}

/// The lexeme at `pos`, scanned on line `line`.
///
/// Blanks give nothing, a line end gives nothing and counts a line, `//`
/// opens a comment that runs to the end of the line, and a character that
/// starts no lexeme is reported and passed over.
pub open spec fn lexeme_at(
    src: Seq<char>,
    pos: int,
    line: int,
    read: spec_fn(Seq<char>) -> NumberView,
) -> Lexeme {
    let c = src[pos];
    if c == '(' {
        plain(src, pos, 1, line, TokenTypeView::LeftParen)
    } else if c == ')' {
        plain(src, pos, 1, line, TokenTypeView::RightParen)
    } else if c == '{' {
        plain(src, pos, 1, line, TokenTypeView::LeftBrace)
    } else if c == '}' {
        plain(src, pos, 1, line, TokenTypeView::RightBrace)
    } else if c == ',' {
        plain(src, pos, 1, line, TokenTypeView::Comma)
    } else if c == '.' {
        plain(src, pos, 1, line, TokenTypeView::Dot)
    } else if c == '-' {
        plain(src, pos, 1, line, TokenTypeView::Minus)
    } else if c == '+' {
        plain(src, pos, 1, line, TokenTypeView::Plus)
    } else if c == ';' {
        plain(src, pos, 1, line, TokenTypeView::Semicolon)
    } else if c == '*' {
        plain(src, pos, 1, line, TokenTypeView::Star)
    } else if c == '!' {
        operator(src, pos, line, TokenTypeView::Bang, TokenTypeView::BangEqual)
    } else if c == '=' {
        operator(src, pos, line, TokenTypeView::Equal, TokenTypeView::EqualEqual)
    } else if c == '<' {
        operator(src, pos, line, TokenTypeView::Less, TokenTypeView::LessEqual)
    } else if c == '>' {
        operator(src, pos, line, TokenTypeView::Greater, TokenTypeView::GreaterEqual)
    } else if c == '/' {
        if followed_by(src, pos, '/') {
            Lexeme {
                token: None,
                error: None,
                end: skip(src, pos + 2, CharClass::NotNewline),
                line,
            }
        } else {
            plain(src, pos, 1, line, TokenTypeView::Slash)
        }
    } else if c == '"' {
        string_lexeme(src, pos, line)
    } else if c == ' ' || c == '\r' || c == '\t' {
        Lexeme { token: None, error: None, end: pos + 1, line }
    } else if c == '\n' {
        Lexeme { token: None, error: None, end: pos + 1, line: line + 1 }
    } else if is_digit(c) {
        number_lexeme(src, pos, line, read)
    } else if is_alpha(c) {
        identifier_lexeme(src, pos, line)
    } else {
        Lexeme {
            token: None,
            error: Some(crate::error_text(line as u32, unexpected_text(c))),
            end: pos + 1,
            line,
        }
    }
}

/// What a scan yields: the tokens, the errors, and the line it ended on.
pub struct Scan {
    pub tokens: Seq<TokenView>,
    pub errors: Seq<Seq<char>>,
    pub line: int,
}

/// One element, or none.
pub open spec fn optional<T>(item: Option<T>) -> Seq<T> {
    match item {
        Some(t) => seq![t],
        None => Seq::empty(),
    }
}

/// The token that ends every scan.
pub open spec fn end_token(line: int) -> TokenView {
    TokenView { lexeme: Seq::empty(), line: line as u32, typ: TokenTypeView::EOF }
}

/// The position after a lexeme at `pos` that ends at `end`: a scan always
/// moves on.
pub open spec fn forward(pos: int, end: int) -> int {
    if end > pos {
        end
    } else {
        pos + 1
    }
}

/// The scan of a text from position `pos` on: the tokens of its lexemes in
/// order, then the end token, and the errors in order.
pub open spec fn scan(
    src: Seq<char>,
    pos: int,
    line: int,
    read: spec_fn(Seq<char>) -> NumberView,
) -> Scan
    decreases
        (if pos < src.len() {
            src.len() - pos
        } else {
            0
        }),
{
    if pos < 0 || pos >= src.len() {
        Scan { tokens: seq![end_token(line)], errors: Seq::empty(), line }
    } else {
        let step = lexeme_at(src, pos, line, read);
        let rest = scan(src, forward(pos, step.end), step.line, read);
        Scan {
            tokens: optional(step.token) + rest.tokens,
            errors: optional(step.error) + rest.errors,
            line: rest.line,
        }
    }
}

/// Every scan ends with the end token.
pub proof fn lemma_scan_is_well_ended(
    src: Seq<char>,
    pos: int,
    line: int,
    read: spec_fn(Seq<char>) -> NumberView,
)
    ensures
        well_ended(scan(src, pos, line, read).tokens),
    decreases
        (if pos < src.len() {
            src.len() - pos
        } else {
            0
        }),
{
    if 0 <= pos < src.len() {
        let step = lexeme_at(src, pos, line, read);
        lemma_scan_is_well_ended(src, forward(pos, step.end), step.line, read);
        let rest = scan(src, forward(pos, step.end), step.line, read).tokens;
        let all = optional(step.token) + rest;
        assert(all[all.len() - 1] == rest[rest.len() - 1]);
    }
}

/// The scanner: the source text, the tokens found so far, the start of the
/// lexeme being scanned, the position of the next character and the
/// current line.
pub struct Scanner {
    pub source: String,
    pub tokens: Vec<Rc<Token>>,
    pub start: usize,
    pub current: usize,
    pub line: u32,
}

/// A token list that a parser can walk: not empty, and closed by the end
/// token.
pub open spec fn well_ended(ts: Seq<TokenView>) -> bool {
    ts.len() > 0 && ts[ts.len() - 1].typ is EOF
}

/// A reader of number literals that answers every text, and equal texts
/// equally.
pub open spec fn reader_ready<P: Fn(String) -> Number>(read: &P) -> bool {
    &&& forall|text: String| #[trigger] read.requires((text,))
    &&& forall|t1: String, t2: String, n1: Number, n2: Number|
        t1@ == t2@ && #[trigger] read.ensures((t1,), n1) && #[trigger] read.ensures((t2,), n2)
            ==> n1@ == n2@
}

/// The answers of a reader, as a function of the text.
pub open spec fn reader_model<P: Fn(String) -> Number>(read: &P) -> spec_fn(
    Seq<char>,
) -> NumberView {
    |text: Seq<char>|
        {
            let (t, n) = choose|t: String, n: Number| t@ == text && #[trigger] read.ensures((t,), n);
            n@
        }
}

/// Reads a number literal.
fn read_number<P: Fn(String) -> Number>(read: &P, text: String) -> (n: Number)
    requires
        reader_ready(read),
    ensures
        n@ == reader_model(read)(text@),
{
    let ghost sent = text;
    let n = read(text);
    proof {
        assert(sent@ == sent@ && read.ensures((sent,), n));
        let (t, other): (String, Number) = choose|t: String, other: Number|
            t@ == sent@ && #[trigger] read.ensures((t,), other);
        assert(other@ == n@);
    }
    n
}

/// The error of a step, if it reported one.
pub open spec fn failure(r: Result<(), String>) -> Option<Seq<char>> {
    match r {
        Ok(_) => None,
        Err(e) => Some(e@),
    }
}

/// Whether the scanner went from `before` to `after` by scanning `step`.
pub open spec fn stepped(
    before: Scanner,
    after: Scanner,
    r: Result<(), String>,
    step: Lexeme,
) -> bool {
    &&& after.source == before.source
    &&& after.start == before.start
    &&& after.current == step.end
    &&& after.line == step.line
    &&& token_views(after.tokens@) == token_views(before.tokens@) + optional(step.token)
    &&& failure(r) == step.error
}

fn digit(c: char) -> (b: bool)
    ensures
        b == is_digit(c),
{
    c >= '0' && c <= '9'
}

fn alpha(c: char) -> (b: bool)
    ensures
        b == is_alpha(c),
{
    (c >= 'a' && c <= 'z') || (c >= 'A' && c <= 'Z') || c == '_'
}

fn belongs(class: &CharClass, c: char) -> (b: bool)
    ensures
        b == in_class(*class, c),
{
    match class {
        CharClass::Digit => digit(c),
        CharClass::AlphaNumeric => digit(c) || alpha(c),
        CharClass::NotNewline => c != '\n',
        CharClass::NotQuote => c != '"',
    }
}

impl Scanner {
    /// Whether the scanner stands inside `chars`, its source, with room
    /// left to count the remaining lines.
    pub open spec fn ready(&self, chars: Seq<char>) -> bool {
        &&& chars == self.source@
        &&& self.start <= self.current <= chars.len()
        &&& self.line + (chars.len() - self.current) <= u32::MAX
    }

    fn is_at_end(&self, chars: &Vec<char>) -> (b: bool)
        ensures
            b == (self.current >= chars.len()),
    {
        self.current >= chars.len()
    }

    fn advance(&mut self, chars: &Vec<char>) -> (c: char)
        requires
            old(self).current < chars.len(),
        ensures
            c == chars@[old(self).current as int],
            *final(self) == (Scanner { current: (old(self).current + 1) as usize, ..*old(self) }),
    {
        let c = chars[self.current];
        self.current += 1;
        c
    }

    fn char_match(&mut self, chars: &Vec<char>, expected: char) -> (b: bool)
        requires
            old(self).current >= 1,
        ensures
            b == followed_by(chars@, old(self).current - 1, expected),
            *final(self) == (Scanner {
                current: if b {
                    (old(self).current + 1) as usize
                } else {
                    old(self).current
                },
                ..*old(self)
            }),
    {
        if self.is_at_end(chars) {
            return false;
        }
        if chars[self.current] != expected {
            return false;
        }
        self.current += 1;
        true
    }

    fn peek(&self, chars: &Vec<char>) -> (c: char)
        ensures
            c == if self.current < chars.len() {
                chars@[self.current as int]
            } else {
                '\0'
            },
    {
        if self.is_at_end(chars) {
            return '\0';
        }
        chars[self.current]
    }

    fn peek_next(&self, chars: &Vec<char>) -> (c: char)
        requires
            self.current <= chars.len(),
        ensures
            c == if self.current + 1 < chars.len() {
                chars@[self.current + 1]
            } else {
                '\0'
            },
    {
        if self.current >= chars.len() || self.current + 1 >= chars.len() {
            return '\0';
        }
        chars[self.current + 1]
    }

    /// Moves on over the characters of a class.
    fn pass(&mut self, chars: &Vec<char>, class: CharClass)
        requires
            old(self).current <= chars.len(),
        ensures
            old(self).current <= final(self).current <= chars.len(),
            final(self).current == skip(chars@, old(self).current as int, class),
            *final(self) == (Scanner { current: final(self).current, ..*old(self) }),
    {
        while self.current < chars.len() && belongs(&class, chars[self.current])
            invariant
                old(self).current <= self.current <= chars.len(),
                skip(chars@, self.current as int, class) == skip(
                    chars@,
                    old(self).current as int,
                    class,
                ),
                *self == (Scanner { current: self.current, ..*old(self) }),
            decreases chars.len() - self.current,
        {
            self.current += 1;
        }
    }

    fn add_token(&mut self, chars: &Vec<char>, typ: TokenType)
        requires
            old(self).start <= old(self).current <= chars.len(),
        ensures
            final(self).source == old(self).source,
            final(self).start == old(self).start,
            final(self).current == old(self).current,
            final(self).line == old(self).line,
            token_views(final(self).tokens@) == token_views(old(self).tokens@).push(
                TokenView {
                    lexeme: chars@.subrange(old(self).start as int, old(self).current as int),
                    line: old(self).line,
                    typ: typ@,
                },
            ),
    {
        let lexeme = text_between(chars, self.start, self.current);
        let token = Token { lexeme, line: self.line, typ };
        self.tokens.push(Rc::new(token));
        assert(token_views(self.tokens@) =~= token_views(old(self).tokens@).push(token@));
    }

    fn string(&mut self, chars: &Vec<char>) -> (r: Result<(), String>)
        requires
            old(self).ready(chars@),
            old(self).start + 1 == old(self).current,
        ensures
            stepped(
                *old(self),
                *final(self),
                r,
                string_lexeme(chars@, old(self).start as int, old(self).line as int),
            ),
            final(self).ready(chars@),
            final(self).current >= old(self).current,
    {
        let opened: u32 = self.line;
        while self.current < chars.len() && chars[self.current] != '"'
            invariant
                self.ready(chars@),
                old(self).start + 1 <= self.current,
                skip(chars@, self.current as int, CharClass::NotQuote) == skip(
                    chars@,
                    old(self).start + 1,
                    CharClass::NotQuote,
                ),
                self.line == old(self).line + newlines(
                    chars@,
                    old(self).start + 1,
                    self.current as int,
                ),
                *self == (Scanner { current: self.current, line: self.line, ..*old(self) }),
            decreases chars.len() - self.current,
        {
            if chars[self.current] == '\n' {
                self.line += 1;
            }
            self.current += 1;
        }
        if self.is_at_end(chars) {
            assert(token_views(self.tokens@) + Seq::<TokenView>::empty() =~= token_views(
                self.tokens@,
            ));
            return Err(crate::error(opened, "Unterminated string."));
        }
        self.current += 1;
        let value = text_between(chars, self.start + 1, self.current - 1);
        self.add_token(chars, TokenType::String(value));
        proof {
            let step = string_lexeme(chars@, old(self).start as int, old(self).line as int);
            assert(token_views(old(self).tokens@).push(step.token->0) =~= token_views(
                old(self).tokens@,
            ) + optional(step.token));
        }
        Ok(())
    }

    fn number<P: Fn(String) -> Number>(&mut self, chars: &Vec<char>, read: &P)
        requires
            old(self).ready(chars@),
            old(self).start + 1 == old(self).current,
            is_digit(chars@[old(self).start as int]),
            reader_ready(read),
        ensures
            stepped(
                *old(self),
                *final(self),
                Ok(()),
                number_lexeme(
                    chars@,
                    old(self).start as int,
                    old(self).line as int,
                    reader_model(read),
                ),
            ),
            final(self).ready(chars@),
            final(self).current >= old(self).current,
    {
        self.pass(chars, CharClass::Digit);
        if self.peek(chars) == '.' && digit(self.peek_next(chars)) {
            self.current += 1;
            self.pass(chars, CharClass::Digit);
        }
        let text = text_between(chars, self.start, self.current);
        let value = read_number(read, text);
        self.add_token(chars, TokenType::Number(value));
        proof {
            let step = number_lexeme(
                chars@,
                old(self).start as int,
                old(self).line as int,
                reader_model(read),
            );
            assert(token_views(old(self).tokens@).push(step.token->0) =~= token_views(
                old(self).tokens@,
            ) + optional(step.token));
        }
    }

    fn identifier(&mut self, chars: &Vec<char>)
        requires
            old(self).ready(chars@),
            old(self).start + 1 == old(self).current,
            is_alpha(chars@[old(self).start as int]),
        ensures
            stepped(
                *old(self),
                *final(self),
                Ok(()),
                identifier_lexeme(chars@, old(self).start as int, old(self).line as int),
            ),
            final(self).ready(chars@),
            final(self).current >= old(self).current,
    {
        self.pass(chars, CharClass::AlphaNumeric);
        let from: usize = self.start;
        let to: usize = self.current;
        let typ = if spells(chars, from, to, "and") {
            TokenType::And
        } else if spells(chars, from, to, "else") {
            TokenType::Else
        } else if spells(chars, from, to, "false") {
            TokenType::False
        } else if spells(chars, from, to, "for") {
            TokenType::For
        } else if spells(chars, from, to, "fn") {
            TokenType::Fn
        } else if spells(chars, from, to, "if") {
            TokenType::If
        } else if spells(chars, from, to, "null") {
            TokenType::Null
        } else if spells(chars, from, to, "or") {
            TokenType::Or
        } else if spells(chars, from, to, "print") {
            TokenType::Print
        } else if spells(chars, from, to, "return") {
            TokenType::Return
        } else if spells(chars, from, to, "true") {
            TokenType::True
        } else if spells(chars, from, to, "let") {
            TokenType::Let
        } else if spells(chars, from, to, "while") {
            TokenType::While
        } else {
            TokenType::Identifier
        };
        self.add_token(chars, typ);
        proof {
            let step = identifier_lexeme(chars@, old(self).start as int, old(self).line as int);
            assert(token_views(old(self).tokens@).push(step.token->0) =~= token_views(
                old(self).tokens@,
            ) + optional(step.token));
        }
    }

    /// Adds the token of a lexeme that is complete.
    fn finish(&mut self, chars: &Vec<char>, typ: TokenType)
        requires
            old(self).ready(chars@),
        ensures
            stepped(
                *old(self),
                *final(self),
                Ok(()),
                plain(
                    chars@,
                    old(self).start as int,
                    old(self).current - old(self).start,
                    old(self).line as int,
                    typ@,
                ),
            ),
            final(self).ready(chars@),
            final(self).current >= old(self).current,
    {
        self.add_token(chars, typ);
        proof {
            let step = plain(
                chars@,
                old(self).start as int,
                old(self).current - old(self).start,
                old(self).line as int,
                typ@,
            );
            assert(token_views(old(self).tokens@).push(step.token->0) =~= token_views(
                old(self).tokens@,
            ) + optional(step.token));
        }
    }

    /// Scans the lexeme at the current position.
    fn scan_token<P: Fn(String) -> Number>(&mut self, chars: &Vec<char>, read: &P) -> (r: Result<
        (),
        String,
    >)
        requires
            old(self).ready(chars@),
            old(self).start == old(self).current,
            old(self).current < chars.len(),
            reader_ready(read),
        ensures
            stepped(
                *old(self),
                *final(self),
                r,
                lexeme_at(
                    chars@,
                    old(self).current as int,
                    old(self).line as int,
                    reader_model(read),
                ),
            ),
            final(self).ready(chars@),
            final(self).current > old(self).current,
    {
        let ghost none = Seq::<TokenView>::empty();
        assert(token_views(self.tokens@) + none =~= token_views(self.tokens@));
        let c = self.advance(chars);
        if c == '(' {
            self.finish(chars, TokenType::LeftParen);
        } else if c == ')' {
            self.finish(chars, TokenType::RightParen);
        } else if c == '{' {
            self.finish(chars, TokenType::LeftBrace);
        } else if c == '}' {
            self.finish(chars, TokenType::RightBrace);
        } else if c == ',' {
            self.finish(chars, TokenType::Comma);
        } else if c == '.' {
            self.finish(chars, TokenType::Dot);
        } else if c == '-' {
            self.finish(chars, TokenType::Minus);
        } else if c == '+' {
            self.finish(chars, TokenType::Plus);
        } else if c == ';' {
            self.finish(chars, TokenType::Semicolon);
        } else if c == '*' {
            self.finish(chars, TokenType::Star);
        } else if c == '!' {
            if self.char_match(chars, '=') {
                self.finish(chars, TokenType::BangEqual);
            } else {
                self.finish(chars, TokenType::Bang);
            }
        } else if c == '=' {
            if self.char_match(chars, '=') {
                self.finish(chars, TokenType::EqualEqual);
            } else {
                self.finish(chars, TokenType::Equal);
            }
        } else if c == '<' {
            if self.char_match(chars, '=') {
                self.finish(chars, TokenType::LessEqual);
            } else {
                self.finish(chars, TokenType::Less);
            }
        } else if c == '>' {
            if self.char_match(chars, '=') {
                self.finish(chars, TokenType::GreaterEqual);
            } else {
                self.finish(chars, TokenType::Greater);
            }
        } else if c == '/' {
            if self.char_match(chars, '/') {
                self.pass(chars, CharClass::NotNewline);
            } else {
                self.finish(chars, TokenType::Slash);
            }
        } else if c == '"' {
            return self.string(chars);
        } else if c == ' ' || c == '\r' || c == '\t' {
        } else if c == '\n' {
            self.line += 1;
        } else if digit(c) {
            self.number(chars, read);
        } else if alpha(c) {
            self.identifier(chars);
        } else {
            let mut message = String::from_str("Unexpected token '");
            message.push(c);
            message.append("'.");
            assert(message@ =~= unexpected_text(c));
            return Err(crate::error(self.line, message.as_str()));
        }
        Ok(())
    }

    /// Scans the source from the current position to its end. Returns the
    /// tokens, which end with the end token, and the errors met on the way.
    pub fn scan_tokens<P: Fn(String) -> Number>(self, read: &P) -> (r: (
        Vec<Rc<Token>>,
        Vec<String>,
    ))
        requires
            self.line + self.source@.len() <= u32::MAX,
            reader_ready(read),
        ensures
            well_ended(token_views(r.0@)),
            token_views(r.0@) == token_views(self.tokens@) + scan(
                self.source@,
                self.current as int,
                self.line as int,
                reader_model(read),
            ).tokens,
            texts(r.1@) == scan(
                self.source@,
                self.current as int,
                self.line as int,
                reader_model(read),
            ).errors,
    {
        let ghost first = self;
        let mut scanner = self;
        let ghost model = reader_model(read);
        let ghost total = scan(first.source@, first.current as int, first.line as int, model);
        let chars = characters(scanner.source.as_str());
        let mut errors: Vec<String> = Vec::new();
        assert(texts(errors@) =~= Seq::<Seq<char>>::empty());
        while !scanner.is_at_end(&chars)
            invariant
                chars@ == scanner.source@,
                scanner.source == first.source,
                reader_ready(read),
                model == reader_model(read),
                scanner.current <= chars.len() ==> scanner.line + (chars.len() - scanner.current)
                    <= u32::MAX,
                token_views(scanner.tokens@) + scan(
                    chars@,
                    scanner.current as int,
                    scanner.line as int,
                    model,
                ).tokens == token_views(first.tokens@) + total.tokens,
                texts(errors@) + scan(
                    chars@,
                    scanner.current as int,
                    scanner.line as int,
                    model,
                ).errors == total.errors,
            decreases chars.len() - scanner.current,
        {
            scanner.start = scanner.current;
            let ghost before = scanner;
            let ghost found = texts(errors@);
            let ghost step = lexeme_at(chars@, before.current as int, before.line as int, model);
            let ghost rest = scan(chars@, step.end, step.line, model);
            let r = scanner.scan_token(&chars, read);
            match r {
                Err(e) => {
                    errors.push(e);
                    assert(texts(errors@) =~= found + optional(step.error));
                },
                Ok(()) => {
                    assert(texts(errors@) =~= found + optional(step.error));
                },
            }
            proof {
                assert(forward(before.current as int, step.end) == step.end);
                assert((token_views(before.tokens@) + optional(step.token)) + rest.tokens
                    =~= token_views(before.tokens@) + (optional(step.token) + rest.tokens));
                assert((found + optional(step.error)) + rest.errors =~= found + (optional(
                    step.error,
                ) + rest.errors));
            }
        }
        let ghost before = scanner;
        scanner.tokens.push(Rc::new(Token::new("", scanner.line, TokenType::EOF)));
        proof {
            reveal_strlit("");
            assert(""@ =~= Seq::<char>::empty());
            assert(token_views(scanner.tokens@) =~= token_views(before.tokens@) + seq![
                end_token(before.line as int),
            ]);
            assert(texts(errors@) + Seq::<Seq<char>>::empty() =~= texts(errors@));
        }
        (scanner.tokens, errors)
    }
}

} // verus!
