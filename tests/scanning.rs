use lispy_lexer::{tokenize, Lexer, Token};

fn id(s: &str) -> Token {
    Token::Identifier(s.to_string())
}

fn num(s: &str) -> Token {
    Token::Number(s.to_string())
}

#[test]
fn double_equals_is_one_token() {
    assert_eq!(tokenize("=="), vec![Token::Equality, Token::EndOfInput]);
}

#[test]
fn equals_then_other_is_rescanned() {
    assert_eq!(
        tokenize("=x"),
        vec![Token::Assignment, id("x"), Token::EndOfInput]
    );
    assert_eq!(
        tokenize("= ="),
        vec![Token::Assignment, Token::Assignment, Token::EndOfInput]
    );
    assert_eq!(
        tokenize("==="),
        vec![Token::Equality, Token::Assignment, Token::EndOfInput]
    );
}

#[test]
fn less_and_greater_with_equals() {
    assert_eq!(
        tokenize("<= < >= >"),
        vec![
            Token::LessOrEqual,
            Token::LessThan,
            Token::GreaterOrEqual,
            Token::GreaterThan,
            Token::EndOfInput
        ]
    );
    assert_eq!(
        tokenize("<1"),
        vec![Token::LessThan, num("1"), Token::EndOfInput]
    );
}

#[test]
fn operator_at_end_of_line() {
    assert_eq!(tokenize("="), vec![Token::Assignment, Token::EndOfInput]);
    assert_eq!(tokenize("<"), vec![Token::LessThan, Token::EndOfInput]);
    assert_eq!(tokenize(">"), vec![Token::GreaterThan, Token::EndOfInput]);
}

#[test]
fn keywords_and_identifiers() {
    assert_eq!(tokenize("let"), vec![Token::Let, Token::EndOfInput]);
    assert_eq!(tokenize("lets"), vec![id("lets"), Token::EndOfInput]);
    assert_eq!(tokenize("fn"), vec![Token::Function, Token::EndOfInput]);
    assert_eq!(tokenize("fnx"), vec![id("fnx"), Token::EndOfInput]);
    assert_eq!(tokenize("le"), vec![id("le"), Token::EndOfInput]);
    assert_eq!(tokenize("f"), vec![id("f"), Token::EndOfInput]);
    assert_eq!(tokenize("Let"), vec![id("Let"), Token::EndOfInput]);
}

#[test]
fn digits_then_letters() {
    assert_eq!(
        tokenize("123abc"),
        vec![num("123"), id("abc"), Token::EndOfInput]
    );
    assert_eq!(
        tokenize("abc123"),
        vec![id("abc"), num("123"), Token::EndOfInput]
    );
}

#[test]
fn whitespace_is_transparent() {
    assert_eq!(
        tokenize("  let   x  "),
        vec![Token::Let, id("x"), Token::EndOfInput]
    );
    assert_eq!(
        tokenize("let x"),
        vec![Token::Let, id("x"), Token::EndOfInput]
    );
    assert_eq!(
        tokenize("\tlet\n\r x\u{a0}"),
        vec![Token::Let, id("x"), Token::EndOfInput]
    );
}

#[test]
fn illegal_character_does_not_stop_scanning() {
    assert_eq!(
        tokenize("a#b"),
        vec![id("a"), Token::Illegal, id("b"), Token::EndOfInput]
    );
    assert_eq!(
        tokenize("1.5"),
        vec![num("1"), Token::Illegal, num("5"), Token::EndOfInput]
    );
}

#[test]
fn empty_line() {
    assert_eq!(tokenize(""), vec![Token::EndOfInput]);
    assert_eq!(tokenize("   "), vec![Token::EndOfInput]);
}

#[test]
fn every_delimiter_and_operator() {
    assert_eq!(
        tokenize("(){},;+-"),
        vec![
            Token::LeftParen,
            Token::RightParen,
            Token::LeftBrace,
            Token::RightBrace,
            Token::Comma,
            Token::Semicolon,
            Token::Plus,
            Token::Minus,
            Token::EndOfInput
        ]
    );
}

#[test]
fn minus_is_never_part_of_a_number() {
    assert_eq!(
        tokenize("-42"),
        vec![Token::Minus, num("42"), Token::EndOfInput]
    );
}

#[test]
fn a_whole_line() {
    assert_eq!(
        tokenize("let add = fn(x, y) { x + y; };\n"),
        vec![
            Token::Let,
            id("add"),
            Token::Assignment,
            Token::Function,
            Token::LeftParen,
            id("x"),
            Token::Comma,
            id("y"),
            Token::RightParen,
            Token::LeftBrace,
            id("x"),
            Token::Plus,
            id("y"),
            Token::Semicolon,
            Token::RightBrace,
            Token::Semicolon,
            Token::EndOfInput
        ]
    );
}

#[test]
fn unicode_letters_and_digits() {
    assert_eq!(tokenize("héllo"), vec![id("héllo"), Token::EndOfInput]);
    assert_eq!(tokenize("٣4"), vec![num("٣4"), Token::EndOfInput]);
    assert_eq!(tokenize("💝"), vec![Token::Illegal, Token::EndOfInput]);
}

#[test]
fn end_of_input_repeats() {
    let mut lexer = Lexer::new("x ");
    assert_eq!(lexer.next_token(), id("x"));
    assert_eq!(lexer.next_token(), Token::EndOfInput);
    assert_eq!(lexer.next_token(), Token::EndOfInput);
    assert_eq!(lexer.next_token(), Token::EndOfInput);
}

#[test]
fn tokens_are_finitely_many() {
    let line = "a b c d e f g";
    let toks = tokenize(line);
    assert_eq!(toks.len(), 8);
    assert!(toks.len() <= line.chars().count() + 1);
}

#[test]
fn skip_whitespace_stops_at_text() {
    let mut lexer = Lexer::new(" \t\n+ ");
    lexer.skip_whitespace();
    assert_eq!(lexer.next_token(), Token::Plus);
    lexer.skip_whitespace();
    assert_eq!(lexer.next_token(), Token::EndOfInput);
}

#[test]
fn read_number_keeps_initial_and_stops() {
    let mut lexer = Lexer::new("23x");
    assert_eq!(lexer.read_number('1'), "123".to_string());
    assert_eq!(lexer.next_token(), id("x"));
    let mut rest = Lexer::new("");
    assert_eq!(rest.read_number('7'), "7".to_string());
}

#[test]
fn read_symbol_recognises_keywords() {
    let mut lexer = Lexer::new("et(");
    assert_eq!(lexer.read_symbol('l'), Token::Let);
    assert_eq!(lexer.next_token(), Token::LeftParen);
    let mut other = Lexer::new("n1");
    assert_eq!(other.read_symbol('f'), Token::Function);
    assert_eq!(other.next_token(), num("1"));
    let mut longer = Lexer::new("ets");
    assert_eq!(longer.read_symbol('l'), id("lets"));
}

#[test]
fn default_token_is_illegal() {
    assert_eq!(Token::default(), Token::Illegal);
}

#[test]
fn is_end_tells_the_sentinel() {
    assert!(Token::EndOfInput.is_end());
    assert!(!Token::Illegal.is_end());
    assert!(!num("0").is_end());
}
