use vstd::prelude::*;

verus! {

/// One lexical unit of a scanned line.
#[derive(Debug, PartialEq, Eq)]
pub enum Token {
    // Keywords
    Let,
    Function,
    // Operators
    Plus,
    Minus,
    Assignment,
    Equality,
    LessThan,
    GreaterThan,
    LessOrEqual,
    GreaterOrEqual,
    // Delimiters
    LeftParen,
    RightParen,
    LeftBrace,
    RightBrace,
    Comma,
    Semicolon,
    // Literals
    Identifier(String),
    Number(String),
    // Sentinels
    EndOfInput,
    Illegal,
}

/// The mathematical model of a token: literal text as a sequence of characters.
pub enum TokenView {
    Let,
    Function,
    Plus,
    Minus,
    Assignment,
    Equality,
    LessThan,
    GreaterThan,
    LessOrEqual,
    GreaterOrEqual,
    LeftParen,
    RightParen,
    LeftBrace,
    RightBrace,
    Comma,
    Semicolon,
    Identifier(Seq<char>),
    Number(Seq<char>),
    EndOfInput,
    Illegal,
}

impl View for Token {
    type V = TokenView;

    open spec fn view(&self) -> TokenView {
        match self {
            Token::Let => TokenView::Let,
            Token::Function => TokenView::Function,
            Token::Plus => TokenView::Plus,
            Token::Minus => TokenView::Minus,
            Token::Assignment => TokenView::Assignment,
            Token::Equality => TokenView::Equality,
            Token::LessThan => TokenView::LessThan,
            Token::GreaterThan => TokenView::GreaterThan,
            Token::LessOrEqual => TokenView::LessOrEqual,
            Token::GreaterOrEqual => TokenView::GreaterOrEqual,
            Token::LeftParen => TokenView::LeftParen,
            Token::RightParen => TokenView::RightParen,
            Token::LeftBrace => TokenView::LeftBrace,
            Token::RightBrace => TokenView::RightBrace,
            Token::Comma => TokenView::Comma,
            Token::Semicolon => TokenView::Semicolon,
            Token::Identifier(s) => TokenView::Identifier(s@),
            Token::Number(s) => TokenView::Number(s@),
            Token::EndOfInput => TokenView::EndOfInput,
            Token::Illegal => TokenView::Illegal,
        }
    }
}

impl Token {
    /// Whether this is the end-of-input sentinel.
    pub fn is_end(&self) -> (r: bool)
        ensures
            r <==> self@ is EndOfInput,
    {
        match self {
            Token::EndOfInput => true,
            _ => false,
        }
    }
}

impl Default for Token {
    /// The zero value of a token is `Illegal`.
    fn default() -> (r: Token)
        ensures
            r@ is Illegal,
    {
        Token::Illegal
    }
}

} // verus!
