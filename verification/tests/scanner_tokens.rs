use ceya::number::Number;
use ceya::scanner::{Scanner, Token, TokenType};

fn num(value: f64) -> Number {
    Number { bits: value.to_bits(), text: format!("{}", value) }
}

fn read(text: String) -> Number {
    num(text.parse::<f64>().unwrap())
}

fn scan(source: &str) -> (Vec<Token>, Vec<String>) {
    let scanner = Scanner { source: source.into(), tokens: vec![], start: 0, current: 0, line: 1 };
    let (tokens, errors) = scanner.scan_tokens(&read);
    (tokens.iter().map(|t| (**t).clone()).collect(), errors)
}

fn kinds(source: &str) -> Vec<TokenType> {
    let (tokens, errors) = scan(source);
    assert!(errors.is_empty(), "{:?}", errors);
    tokens.into_iter().map(|t| t.typ).collect()
}

fn token(lexeme: &str, line: u32, typ: TokenType) -> Token {
    Token { lexeme: lexeme.into(), line, typ }
}

#[test]
fn scans_a_print_statement() {
    let (tokens, errors) = scan("print 1 + 2;");
    assert!(errors.is_empty());
    assert_eq!(
        tokens,
        vec![
            token("print", 1, TokenType::Print),
            token("1", 1, TokenType::Number(num(1.0))),
            token("+", 1, TokenType::Plus),
            token("2", 1, TokenType::Number(num(2.0))),
            token(";", 1, TokenType::Semicolon),
            token("", 1, TokenType::EOF),
        ]
    );
}

#[test]
fn empty_source_is_the_end_token() {
    let (tokens, errors) = scan("");
    assert!(errors.is_empty());
    assert_eq!(tokens, vec![token("", 1, TokenType::EOF)]);
}

#[test]
fn scans_single_character_tokens() {
    assert_eq!(
        kinds("(){},.-+;*/"),
        vec![
            TokenType::LeftParen,
            TokenType::RightParen,
            TokenType::LeftBrace,
            TokenType::RightBrace,
            TokenType::Comma,
            TokenType::Dot,
            TokenType::Minus,
            TokenType::Plus,
            TokenType::Semicolon,
            TokenType::Star,
            TokenType::Slash,
            TokenType::EOF,
        ]
    );
}

#[test]
fn scans_operators_of_one_and_two_characters() {
    assert_eq!(
        kinds("! != = == < <= > >="),
        vec![
            TokenType::Bang,
            TokenType::BangEqual,
            TokenType::Equal,
            TokenType::EqualEqual,
            TokenType::Less,
            TokenType::LessEqual,
            TokenType::Greater,
            TokenType::GreaterEqual,
            TokenType::EOF,
        ]
    );
    assert_eq!(
        kinds("!===<"),
        vec![TokenType::BangEqual, TokenType::EqualEqual, TokenType::Less, TokenType::EOF]
    );
    assert_eq!(kinds("="), vec![TokenType::Equal, TokenType::EOF]);
}

#[test]
fn scans_reserved_words_and_identifiers() {
    assert_eq!(
        kinds("and else false for fn if null or print return true let while"),
        vec![
            TokenType::And,
            TokenType::Else,
            TokenType::False,
            TokenType::For,
            TokenType::Fn,
            TokenType::If,
            TokenType::Null,
            TokenType::Or,
            TokenType::Print,
            TokenType::Return,
            TokenType::True,
            TokenType::Let,
            TokenType::While,
            TokenType::EOF,
        ]
    );
    let (tokens, _) = scan("android _x a1 iff Print");
    let expected = ["android", "_x", "a1", "iff", "Print"];
    for (token, lexeme) in tokens.iter().zip(expected.iter()) {
        assert_eq!(token.typ, TokenType::Identifier);
        assert_eq!(&token.lexeme, lexeme);
    }
    assert_eq!(tokens.len(), 6);
}

#[test]
fn scans_numbers_with_and_without_fraction() {
    let (tokens, errors) = scan("12 12.5 0.1 7. .5 1.2.3");
    assert!(errors.is_empty());
    assert_eq!(
        tokens,
        vec![
            token("12", 1, TokenType::Number(num(12.0))),
            token("12.5", 1, TokenType::Number(num(12.5))),
            token("0.1", 1, TokenType::Number(num(0.1))),
            token("7", 1, TokenType::Number(num(7.0))),
            token(".", 1, TokenType::Dot),
            token(".", 1, TokenType::Dot),
            token("5", 1, TokenType::Number(num(5.0))),
            token("1.2", 1, TokenType::Number(num(1.2))),
            token(".", 1, TokenType::Dot),
            token("3", 1, TokenType::Number(num(3.0))),
            token("", 1, TokenType::EOF),
        ]
    );
}

#[test]
fn number_literal_carries_what_the_reader_returns() {
    let (tokens, _) = scan("1.50");
    assert_eq!(tokens[0].lexeme, "1.50");
    assert_eq!(tokens[0].typ, TokenType::Number(Number { bits: 1.5f64.to_bits(), text: "1.5".into() }));
}

#[test]
fn scans_strings_over_line_ends() {
    let (tokens, errors) = scan("\"one\" \"two\nlines\" x");
    assert!(errors.is_empty());
    assert_eq!(
        tokens,
        vec![
            token("\"one\"", 1, TokenType::String("one".into())),
            token("\"two\nlines\"", 2, TokenType::String("two\nlines".into())),
            token("x", 2, TokenType::Identifier),
            token("", 2, TokenType::EOF),
        ]
    );
}

#[test]
fn empty_string_is_a_token() {
    let (tokens, errors) = scan("\"\"");
    assert!(errors.is_empty());
    assert_eq!(tokens[0], token("\"\"", 1, TokenType::String("".into())));
}

#[test]
fn unterminated_string_is_reported_on_its_opening_line() {
    let (tokens, errors) = scan("print 1;\n\"open\nstill open\n");
    assert_eq!(errors, vec!["[line 2] Error: Unterminated string."]);
    assert_eq!(
        tokens,
        vec![
            token("print", 1, TokenType::Print),
            token("1", 1, TokenType::Number(num(1.0))),
            token(";", 1, TokenType::Semicolon),
            token("", 4, TokenType::EOF),
        ]
    );
}

#[test]
fn unexpected_character_is_reported_and_passed_over() {
    let (tokens, errors) = scan("1 @ 2\n# 3");
    assert_eq!(
        errors,
        vec!["[line 1] Error: Unexpected token '@'.", "[line 2] Error: Unexpected token '#'."]
    );
    assert_eq!(
        tokens,
        vec![
            token("1", 1, TokenType::Number(num(1.0))),
            token("2", 1, TokenType::Number(num(2.0))),
            token("3", 2, TokenType::Number(num(3.0))),
            token("", 2, TokenType::EOF),
        ]
    );
}

#[test]
fn character_outside_the_basic_alphabet_is_unexpected() {
    let (tokens, errors) = scan("é");
    assert_eq!(errors, vec!["[line 1] Error: Unexpected token 'é'."]);
    assert_eq!(tokens, vec![token("", 1, TokenType::EOF)]);
    let (tokens, errors) = scan("\"é\"");
    assert!(errors.is_empty());
    assert_eq!(tokens[0], token("\"é\"", 1, TokenType::String("é".into())));
}

#[test]
fn comments_and_blanks_give_no_tokens() {
    let (tokens, errors) = scan("// nothing here\n  \t\r\n1 // one\n/ // slash");
    assert!(errors.is_empty());
    assert_eq!(
        tokens,
        vec![
            token("1", 3, TokenType::Number(num(1.0))),
            token("/", 4, TokenType::Slash),
            token("", 4, TokenType::EOF),
        ]
    );
}

#[test]
fn scan_continues_from_the_given_position_and_tokens() {
    let before = std::rc::Rc::new(token("kept", 9, TokenType::Identifier));
    let scanner =
        Scanner { source: "ab cd".into(), tokens: vec![before], start: 0, current: 3, line: 5 };
    let (tokens, errors) = scanner.scan_tokens(&read);
    assert!(errors.is_empty());
    let tokens: Vec<Token> = tokens.iter().map(|t| (**t).clone()).collect();
    assert_eq!(
        tokens,
        vec![
            token("kept", 9, TokenType::Identifier),
            token("cd", 5, TokenType::Identifier),
            token("", 5, TokenType::EOF),
        ]
    );
}

#[test]
fn position_behind_the_source_gives_the_end_token() {
    let scanner = Scanner { source: "ab".into(), tokens: vec![], start: 0, current: 10, line: 3 };
    let (tokens, errors) = scanner.scan_tokens(&read);
    assert!(errors.is_empty());
    assert_eq!(tokens.len(), 1);
    assert_eq!(*tokens[0], token("", 3, TokenType::EOF));
}

#[test]
fn token_new_copies_its_parts() {
    assert_eq!(Token::new("x", 3, TokenType::Identifier), token("x", 3, TokenType::Identifier));
}
