use vstd::prelude::*;
use crate::kind::Kind;
use crate::expr::SymbolTable;
use crate::typing::name_text;
use vstd::string::StringExecFns;

verus! {

/// Lexical token categories produced by the scanner.
#[derive(Clone, Copy, Debug, PartialEq, Eq, Structural)]
pub enum TokenType {
    LeftParen,
    RightParen,
    LeftBrace,
    RightBrace,
    Comma,
    Dot,
    Minus,
    Plus,
    Semicolon,
    Colon,
    Slash,
    Star,
    Bang,
    BangEqual,
    Equal,
    EqualEqual,
    Greater,
    GreaterEqual,
    Less,
    LessEqual,
    Arrow,
    Identifier,
    String,
    Number,
    Bool,
    And,
    Class,
    Else,
    False,
    Fun,
    For,
    If,
    Void,
    Or,
    Print,
    Return,
    Super,
    This,
    True,
    Var,
    While,
    Eof,
}

/// Largest scale a decimal number literal may carry.
pub const MAX_SCALE: u32 = 28;

/// A decimal number literal: `mantissa * 10^(-scale)`.
#[derive(Clone, Copy, Debug, PartialEq, Eq, Structural)]
pub struct Num {
    pub mantissa: i64,
    pub scale: u32,
}

impl Num {
    /// A literal with the given mantissa and scale; `None` when the scale is
    /// larger than `MAX_SCALE`.
    pub fn new(mantissa: i64, scale: u32) -> (r: Option<Num>)
        ensures
            r is Some <==> scale <= MAX_SCALE,
            r is Some ==> r->0.mantissa == mantissa && r->0.scale == scale,
    {
        if scale <= MAX_SCALE {
            Some(Num { mantissa, scale })
        } else {
            None
        }
    }
}

/// Literal values carried by literal expressions.
#[derive(Clone, Debug)]
pub enum Literal {
    Str(String),
    Num(Num),
    True,
    False,
    Void,
}

/// A scanned token; `lexeme` is an interned symbol.
#[derive(Clone, Debug)]
pub struct Token {
    pub token_type: TokenType,
    pub lexeme: usize,
    pub literal: Literal,
    pub line: usize,
}

impl Token {
    pub fn new(token_type: TokenType, lexeme: usize, literal: Literal, line: usize) -> (r: Token)
        ensures
            r.token_type == token_type,
            r.lexeme == lexeme,
            r.literal == literal,
            r.line == line,
    {
        Token { token_type, lexeme, literal, line }
    }
}

/// A token prepared for an error report, with its lexeme spelled out.
#[derive(Clone, Debug)]
pub struct ErrorToken {
    pub token_type: TokenType,
    pub lexeme: String,
    pub literal: Literal,
    pub line: usize,
}

impl ErrorToken {
    pub fn new(token: &Token, symbol_table: &SymbolTable) -> (r: ErrorToken)
        ensures
            r.token_type == token.token_type,
            r.lexeme@ == name_text(symbol_table@, token.lexeme),
            same_literal(r.literal, token.literal),
            r.line == token.line,
    {
        let lexeme = String::from_str(symbol_table.resolve(token.lexeme));
        ErrorToken { token_type: token.token_type, lexeme, literal: token.literal.copy(), line: token.line }
    }
}

/// Two literals of the same variant and value.
pub open spec fn same_literal(a: Literal, b: Literal) -> bool {
    match (a, b) {
        (Literal::Str(x), Literal::Str(y)) => x@ == y@,
        (Literal::Num(x), Literal::Num(y)) => x == y,
        (Literal::True, Literal::True) => true,
        (Literal::False, Literal::False) => true,
        (Literal::Void, Literal::Void) => true,
        _ => false,
    }
}

impl Literal {
    /// A copy of the literal.
    pub fn copy(&self) -> (r: Literal)
        ensures
            same_literal(r, *self),
    {
        match self {
            Literal::Str(s) => Literal::Str(String::from_str(s.as_str())),
            Literal::Num(n) => Literal::Num(*n),
            Literal::True => Literal::True,
            Literal::False => Literal::False,
            Literal::Void => Literal::Void,
        }
    }

    /// The placeholder literal for a type keyword: an empty string, zero,
    /// `false`, or `Void`; `None` for a token that names no type.
    pub fn for_type(t: TokenType) -> (r: Option<Literal>)
        ensures
            r is Some <==> (t == TokenType::String || t == TokenType::Number || t == TokenType::Bool
                || t == TokenType::Void),
            t == TokenType::String ==> r is Some && r->0 is Str && r->0->Str_0@.len() == 0,
            t == TokenType::Number ==> r == Some(Literal::Num(Num { mantissa: 0, scale: 0 })),
            t == TokenType::Bool ==> r == Some(Literal::False),
            t == TokenType::Void ==> r == Some(Literal::Void),
    {
        match t {
            TokenType::String => Some(Literal::Str(String::new())),
            TokenType::Number => Some(Literal::Num(Num { mantissa: 0, scale: 0 })),
            TokenType::Bool => Some(Literal::False),
            TokenType::Void => Some(Literal::Void),
            _ => None,
        }
    }

    /// The kind of value the literal denotes.
    pub fn kind(&self) -> (r: Kind)
        ensures
            match *self {
                Literal::Str(_) => r == Kind::String,
                Literal::Num(_) => r == Kind::Number,
                Literal::True => r == Kind::Boolean,
                Literal::False => r == Kind::Boolean,
                Literal::Void => r == Kind::Void,
            },
    {
        match self {
            Literal::Str(_) => Kind::String,
            Literal::Num(_) => Kind::Number,
            Literal::True => Kind::Boolean,
            Literal::False => Kind::Boolean,
            Literal::Void => Kind::Void,
        }
    }
}

} // verus!
