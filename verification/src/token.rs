//! The closed set of lexical categories the language recognizes. Tokens are
//! immutable, produced on demand by the scanner, and never mutated.

use vstd::prelude::*;

use vstd::string::*;

use crate::render::int_text;

verus! {

/// A lexical token. Identifiers carry their text, integer literals their
/// value, boolean literals their truth value.
#[derive(Debug, Clone, PartialEq)]
pub enum Token {
    Illegal,
    Eof,
    /// identifier
    Ident(String),
    /// integer literal
    Int(i64),
    /// boolean literal
    Bool(bool),
    If,
    Else,
    /// `=`
    Assign,
    /// `+`
    Plus,
    /// `-`
    Minus,
    /// `!`
    Bang,
    /// `*`
    Asterisk,
    /// `/`
    Slash,
    /// `<`
    LessThan,
    /// `>`
    GreaterThan,
    /// `==`
    Equal,
    /// `!=`
    NotEqual,
    /// `<=`
    LessThanEqual,
    /// `>=`
    GreaterThanEqual,
    /// `,`
    Comma,
    /// `;`
    Semicolon,
    /// `(`
    LParen,
    /// `)`
    RParen,
    /// `{`
    LBrace,
    /// `}`
    RBrace,
    /// `fn`
    Function,
    /// `let`
    Let,
    /// `return`
    Return,
}

/// The mathematical shape of a token: identifier text as a character
/// sequence, everything else as in `Token`.
pub enum TokenS {
    Illegal,
    Eof,
    Ident(Seq<char>),
    Int(i64),
    Bool(bool),
    If,
    Else,
    Assign,
    Plus,
    Minus,
    Bang,
    Asterisk,
    Slash,
    LessThan,
    GreaterThan,
    Equal,
    NotEqual,
    LessThanEqual,
    GreaterThanEqual,
    Comma,
    Semicolon,
    LParen,
    RParen,
    LBrace,
    RBrace,
    Function,
    Let,
    Return,
}

impl View for Token {
    type V = TokenS;

    open spec fn view(&self) -> TokenS {
        match self {
            Token::Illegal => TokenS::Illegal,
            Token::Eof => TokenS::Eof,
            Token::Ident(s) => TokenS::Ident(s@),
            Token::Int(n) => TokenS::Int(*n),
            Token::Bool(b) => TokenS::Bool(*b),
            Token::If => TokenS::If,
            Token::Else => TokenS::Else,
            Token::Assign => TokenS::Assign,
            Token::Plus => TokenS::Plus,
            Token::Minus => TokenS::Minus,
            Token::Bang => TokenS::Bang,
            Token::Asterisk => TokenS::Asterisk,
            Token::Slash => TokenS::Slash,
            Token::LessThan => TokenS::LessThan,
            Token::GreaterThan => TokenS::GreaterThan,
            Token::Equal => TokenS::Equal,
            Token::NotEqual => TokenS::NotEqual,
            Token::LessThanEqual => TokenS::LessThanEqual,
            Token::GreaterThanEqual => TokenS::GreaterThanEqual,
            Token::Comma => TokenS::Comma,
            Token::Semicolon => TokenS::Semicolon,
            Token::LParen => TokenS::LParen,
            Token::RParen => TokenS::RParen,
            Token::LBrace => TokenS::LBrace,
            Token::RBrace => TokenS::RBrace,
            Token::Function => TokenS::Function,
            Token::Let => TokenS::Let,
            Token::Return => TokenS::Return,
        }
    }
}

impl Token {
    /// Whether two tokens are the same token, identifier text and literal
    /// values included.
    pub fn same_as(&self, other: &Token) -> (r: bool)
        ensures
            r == (self@ == other@),
    {
        match (self, other) {
            (Token::Illegal, Token::Illegal) => true,
            (Token::Eof, Token::Eof) => true,
            (Token::Ident(a), Token::Ident(b)) => a.eq(b),
            (Token::Int(a), Token::Int(b)) => *a == *b,
            (Token::Bool(a), Token::Bool(b)) => *a == *b,
            (Token::If, Token::If) => true,
            (Token::Else, Token::Else) => true,
            (Token::Assign, Token::Assign) => true,
            (Token::Plus, Token::Plus) => true,
            (Token::Minus, Token::Minus) => true,
            (Token::Bang, Token::Bang) => true,
            (Token::Asterisk, Token::Asterisk) => true,
            (Token::Slash, Token::Slash) => true,
            (Token::LessThan, Token::LessThan) => true,
            (Token::GreaterThan, Token::GreaterThan) => true,
            (Token::Equal, Token::Equal) => true,
            (Token::NotEqual, Token::NotEqual) => true,
            (Token::LessThanEqual, Token::LessThanEqual) => true,
            (Token::GreaterThanEqual, Token::GreaterThanEqual) => true,
            (Token::Comma, Token::Comma) => true,
            (Token::Semicolon, Token::Semicolon) => true,
            (Token::LParen, Token::LParen) => true,
            (Token::RParen, Token::RParen) => true,
            (Token::LBrace, Token::LBrace) => true,
            (Token::RBrace, Token::RBrace) => true,
            (Token::Function, Token::Function) => true,
            (Token::Let, Token::Let) => true,
            (Token::Return, Token::Return) => true,
            _ => false,
        }
    }
}

/// The descriptive name of a token, as it appears in parse error messages.
pub open spec fn token_text(t: TokenS) -> Seq<char> {
    match t {
        TokenS::Illegal => "Illegal"@,
        TokenS::Eof => "Eof"@,
        TokenS::Ident(s) => "Ident(\""@ + s + "\")"@,
        TokenS::Int(n) => "Int("@ + int_text(n as int) + ")"@,
        TokenS::Bool(b) => if b {
            "Bool(true)"@
        } else {
            "Bool(false)"@
        },
        TokenS::If => "If"@,
        TokenS::Else => "Else"@,
        TokenS::Assign => "Assign"@,
        TokenS::Plus => "Plus"@,
        TokenS::Minus => "Minus"@,
        TokenS::Bang => "Bang"@,
        TokenS::Asterisk => "Asterisk"@,
        TokenS::Slash => "Slash"@,
        TokenS::LessThan => "LessThan"@,
        TokenS::GreaterThan => "GreaterThan"@,
        TokenS::Equal => "Equal"@,
        TokenS::NotEqual => "NotEqual"@,
        TokenS::LessThanEqual => "LessThanEqual"@,
        TokenS::GreaterThanEqual => "GreaterThanEqual"@,
        TokenS::Comma => "Comma"@,
        TokenS::Semicolon => "Semicolon"@,
        TokenS::LParen => "LParen"@,
        TokenS::RParen => "RParen"@,
        TokenS::LBrace => "LBrace"@,
        TokenS::RBrace => "RBrace"@,
        TokenS::Function => "Function"@,
        TokenS::Let => "Let"@,
        TokenS::Return => "Return"@,
    }
}

impl Token {
    /// The descriptive name of this token, used in parse error messages.
    pub fn describe(&self) -> (r: String)
        ensures
            r@ == token_text(self@),
    {
        match self {
            Token::Illegal => String::from_str("Illegal"),
            Token::Eof => String::from_str("Eof"),
            Token::Ident(s) => {
                let mut r = String::from_str("Ident(\"");
                r.append(s.as_str());
                r.append("\")");
                r
            },
            Token::Int(n) => {
                let mut r = String::from_str("Int(");
                let digits = crate::render::i64_text(*n);
                r.append(digits.as_str());
                r.append(")");
                r
            },
            Token::Bool(b) => {
                if *b {
                    String::from_str("Bool(true)")
                } else {
                    String::from_str("Bool(false)")
                }
            },
            Token::If => String::from_str("If"),
            Token::Else => String::from_str("Else"),
            Token::Assign => String::from_str("Assign"),
            Token::Plus => String::from_str("Plus"),
            Token::Minus => String::from_str("Minus"),
            Token::Bang => String::from_str("Bang"),
            Token::Asterisk => String::from_str("Asterisk"),
            Token::Slash => String::from_str("Slash"),
            Token::LessThan => String::from_str("LessThan"),
            Token::GreaterThan => String::from_str("GreaterThan"),
            Token::Equal => String::from_str("Equal"),
            Token::NotEqual => String::from_str("NotEqual"),
            Token::LessThanEqual => String::from_str("LessThanEqual"),
            Token::GreaterThanEqual => String::from_str("GreaterThanEqual"),
            Token::Comma => String::from_str("Comma"),
            Token::Semicolon => String::from_str("Semicolon"),
            Token::LParen => String::from_str("LParen"),
            Token::RParen => String::from_str("RParen"),
            Token::LBrace => String::from_str("LBrace"),
            Token::RBrace => String::from_str("RBrace"),
            Token::Function => String::from_str("Function"),
            Token::Let => String::from_str("Let"),
            Token::Return => String::from_str("Return"),
        }
    }
}

} // verus!
