//! Tokens produced by the lexer and read by the parser.
//!
//! A token's text is held in its lexeme: for numbers, strings and identifiers the
//! lexeme is the value (the number's digits, the string's contents, the name).

use vstd::prelude::*;

verus! {

/// The kind of a token.
#[derive(Debug, Clone, Copy, PartialEq, Eq, Structural)]
pub enum TokenType {
    // Literals (their text is the token's lexeme)
    Number,
    String,
    Boolean(bool),
    Identifier,
    // Keywords
    Fn,
    If,
    Elif,
    Else,
    While,
    For,
    In,
    Return,
    Use,
    Try,
    Catch,
    Throw,
    As,
    True,
    False,
    Null,
    Class,
    New,
    SelfKw,
    Super,
    // Operators
    Assign,
    Plus,
    Minus,
    Multiply,
    Divide,
    Modulo,
    // Comparison
    Equal,
    NotEqual,
    Less,
    LessEqual,
    Greater,
    GreaterEqual,
    // Logical
    And,
    Or,
    Not,
    // Delimiters
    LeftParen,
    RightParen,
    LeftBrace,
    RightBrace,
    LeftBracket,
    RightBracket,
    Comma,
    Dot,
    Colon,
    Semicolon,
    // Layout and special tokens
    Newline,
    Indent,
    Dedent,
    RustInline,
    AsmInline,
    EOF,
}

/// A token as a mathematical value.
pub struct SpecToken {
    pub kind: TokenType,
    pub lexeme: Seq<char>,
    pub line: nat,
    pub column: nat,
}

/// A token with the text it was made from and where it ended in the source.
#[derive(Debug, Clone)]
pub struct Token {
    pub token_type: TokenType,
    pub lexeme: String,
    pub line: usize,
    pub column: usize,
}

impl View for Token {
    type V = SpecToken;

    open spec fn view(&self) -> SpecToken {
        SpecToken {
            kind: self.token_type,
            lexeme: self.lexeme@,
            line: self.line as nat,
            column: self.column as nat,
        }
    }
}

impl Token {
    pub fn new(token_type: TokenType, lexeme: String, line: usize, column: usize) -> (r: Self)
        ensures
            r.token_type == token_type,
            r.lexeme@ == lexeme@,
            r.line == line,
            r.column == column,
    {
        Token { token_type, lexeme, line, column }
    }

    /// A copy of the token, field for field.
    pub fn duplicate(&self) -> (r: Token)
        ensures
            r@ == self@,
    {
        Token {
            token_type: self.token_type,
            lexeme: self.lexeme.clone(),
            line: self.line,
            column: self.column,
        }
    }
}

} // verus!
