//! The token vocabulary shared by the lexer and the parser.
use vstd::prelude::*;
use vstd::string::*;
use crate::precedence::Precedence;
use crate::text::{i64_to_string, int_decimal, str_eq};

verus! {

/// An atomic lexical unit.
#[derive(Debug)]
pub enum Token {
    Illegal,
    Eof,
    Ident(String),
    Int(i64),
    String(String),
    Assign,
    Plus,
    Minus,
    Asterisk,
    Slash,
    Comma,
    Semicolon,
    LParen,
    RParen,
    LBrace,
    RBrace,
    LBracket,
    RBracket,
    Function,
    Let,
    Bang,
    Lt,
    Gt,
    True,
    False,
    If,
    Else,
    Return,
    Eq,
    NotEq,
    Colon,
}

/// The mathematical value of a [`Token`]: the same variants, with text as a
/// sequence of characters.
pub enum TokenView {
    Illegal,
    Eof,
    Ident(Seq<char>),
    Int(i64),
    String(Seq<char>),
    Assign,
    Plus,
    Minus,
    Asterisk,
    Slash,
    Comma,
    Semicolon,
    LParen,
    RParen,
    LBrace,
    RBrace,
    LBracket,
    RBracket,
    Function,
    Let,
    Bang,
    Lt,
    Gt,
    True,
    False,
    If,
    Else,
    Return,
    Eq,
    NotEq,
    Colon,
}

impl View for Token {
    type V = TokenView;

    open spec fn view(&self) -> TokenView {
        match self {
            Token::Illegal => TokenView::Illegal,
            Token::Eof => TokenView::Eof,
            Token::Ident(s) => TokenView::Ident(s@),
            Token::Int(v) => TokenView::Int(*v),
            Token::String(s) => TokenView::String(s@),
            Token::Assign => TokenView::Assign,
            Token::Plus => TokenView::Plus,
            Token::Minus => TokenView::Minus,
            Token::Asterisk => TokenView::Asterisk,
            Token::Slash => TokenView::Slash,
            Token::Comma => TokenView::Comma,
            Token::Semicolon => TokenView::Semicolon,
            Token::LParen => TokenView::LParen,
            Token::RParen => TokenView::RParen,
            Token::LBrace => TokenView::LBrace,
            Token::RBrace => TokenView::RBrace,
            Token::LBracket => TokenView::LBracket,
            Token::RBracket => TokenView::RBracket,
            Token::Function => TokenView::Function,
            Token::Let => TokenView::Let,
            Token::Bang => TokenView::Bang,
            Token::Lt => TokenView::Lt,
            Token::Gt => TokenView::Gt,
            Token::True => TokenView::True,
            Token::False => TokenView::False,
            Token::If => TokenView::If,
            Token::Else => TokenView::Else,
            Token::Return => TokenView::Return,
            Token::Eq => TokenView::Eq,
            Token::NotEq => TokenView::NotEq,
            Token::Colon => TokenView::Colon,
        }
    }
}

impl TokenView {
    /// The binding power of the token when it stands where an infix
    /// operator, a call or an index may stand.
    pub open spec fn precedence(self) -> Precedence {
        match self {
            TokenView::Eq => Precedence::Equals,
            TokenView::NotEq => Precedence::Equals,
            TokenView::Lt => Precedence::LessGreater,
            TokenView::Gt => Precedence::LessGreater,
            TokenView::Plus => Precedence::Sum,
            TokenView::Minus => Precedence::Sum,
            TokenView::Slash => Precedence::Product,
            TokenView::Asterisk => Precedence::Product,
            TokenView::LParen => Precedence::Call,
            TokenView::LBracket => Precedence::Index,
            _ => Precedence::Lowest,
        }
    }

    /// The name of the token's kind.
    pub open spec fn name(self) -> Seq<char> {
        match self {
            TokenView::Illegal => "Illegal"@,
            TokenView::Eof => "Eof"@,
            TokenView::Ident(_) => "Ident"@,
            TokenView::Int(_) => "Int"@,
            TokenView::String(_) => "STRING"@,
            TokenView::Assign => "Assign"@,
            TokenView::Plus => "Plus"@,
            TokenView::Minus => "Minus"@,
            TokenView::Asterisk => "Asterisk"@,
            TokenView::Slash => "Slash"@,
            TokenView::Comma => "Comma"@,
            TokenView::Semicolon => "Semicolon"@,
            TokenView::LParen => "LParen"@,
            TokenView::RParen => "RParen"@,
            TokenView::LBrace => "LBrace"@,
            TokenView::RBrace => "RBrace"@,
            TokenView::LBracket => "LBracket"@,
            TokenView::RBracket => "RBracket"@,
            TokenView::Function => "Function"@,
            TokenView::Let => "Let"@,
            TokenView::Bang => "Bang"@,
            TokenView::Lt => "Lt"@,
            TokenView::Gt => "Gt"@,
            TokenView::True => "True"@,
            TokenView::False => "False"@,
            TokenView::If => "If"@,
            TokenView::Else => "Else"@,
            TokenView::Return => "Return"@,
            TokenView::Eq => "Eq"@,
            TokenView::NotEq => "NotEq"@,
            TokenView::Colon => "Colon"@,
        }
    }

    /// The token as it reads in source text; `Illegal` and `Eof` read as
    /// their names, and a string literal reads without its quotes.
    pub open spec fn text(self) -> Seq<char> {
        match self {
            TokenView::Illegal => "Illegal"@,
            TokenView::Eof => "Eof"@,
            TokenView::Ident(s) => s,
            TokenView::Int(v) => int_decimal(v as int),
            TokenView::String(s) => s,
            TokenView::Assign => "="@,
            TokenView::Plus => "+"@,
            TokenView::Minus => "-"@,
            TokenView::Asterisk => "*"@,
            TokenView::Slash => "/"@,
            TokenView::Comma => ","@,
            TokenView::Semicolon => ";"@,
            TokenView::LParen => "("@,
            TokenView::RParen => ")"@,
            TokenView::LBrace => "{"@,
            TokenView::RBrace => "}"@,
            TokenView::LBracket => "["@,
            TokenView::RBracket => "]"@,
            TokenView::Function => "fn"@,
            TokenView::Let => "let"@,
            TokenView::Bang => "!"@,
            TokenView::Lt => "<"@,
            TokenView::Gt => ">"@,
            TokenView::True => "true"@,
            TokenView::False => "false"@,
            TokenView::If => "if"@,
            TokenView::Else => "else"@,
            TokenView::Return => "return"@,
            TokenView::Eq => "=="@,
            TokenView::NotEq => "!="@,
            TokenView::Colon => ":"@,
        }
    }
}

impl Token {
    /// The binding power of the token when it stands where an infix
    /// operator, a call or an index may stand.
    pub fn cur_precedence(&self) -> (r: Precedence)
        ensures
            r == self@.precedence(),
    {
        match self {
            Token::Eq => Precedence::Equals,
            Token::NotEq => Precedence::Equals,
            Token::Lt => Precedence::LessGreater,
            Token::Gt => Precedence::LessGreater,
            Token::Plus => Precedence::Sum,
            Token::Minus => Precedence::Sum,
            Token::Slash => Precedence::Product,
            Token::Asterisk => Precedence::Product,
            Token::LParen => Precedence::Call,
            Token::LBracket => Precedence::Index,
            _ => Precedence::Lowest,
        }
    }

    /// The name of the token's kind.
    pub fn name(&self) -> (r: &'static str)
        ensures
            r@ == self@.name(),
    {
        match self {
            Token::Illegal => "Illegal",
            Token::Eof => "Eof",
            Token::Ident(_) => "Ident",
            Token::Int(_) => "Int",
            Token::Assign => "Assign",
            Token::Plus => "Plus",
            Token::Minus => "Minus",
            Token::Asterisk => "Asterisk",
            Token::Slash => "Slash",
            Token::Comma => "Comma",
            Token::Semicolon => "Semicolon",
            Token::LParen => "LParen",
            Token::RParen => "RParen",
            Token::LBrace => "LBrace",
            Token::RBrace => "RBrace",
            Token::LBracket => "LBracket",
            Token::RBracket => "RBracket",
            Token::Function => "Function",
            Token::Let => "Let",
            Token::Bang => "Bang",
            Token::Lt => "Lt",
            Token::Gt => "Gt",
            Token::True => "True",
            Token::False => "False",
            Token::If => "If",
            Token::Else => "Else",
            Token::Return => "Return",
            Token::Eq => "Eq",
            Token::NotEq => "NotEq",
            Token::String(_) => "STRING",
            Token::Colon => "Colon",
        }
    }

    /// The token as it reads in source text.
    pub fn to_string(&self) -> (r: String)
        ensures
            r@ == self@.text(),
    {
        match self {
            Token::Illegal => "Illegal".to_owned(),
            Token::Eof => "Eof".to_owned(),
            Token::Ident(val) => val.clone(),
            Token::Int(val) => i64_to_string(*val),
            Token::String(val) => val.clone(),
            Token::Assign => "=".to_owned(),
            Token::Plus => "+".to_owned(),
            Token::Comma => ",".to_owned(),
            Token::Semicolon => ";".to_owned(),
            Token::LParen => "(".to_owned(),
            Token::RParen => ")".to_owned(),
            Token::LBrace => "{".to_owned(),
            Token::RBrace => "}".to_owned(),
            Token::LBracket => "[".to_owned(),
            Token::RBracket => "]".to_owned(),
            Token::Function => "fn".to_owned(),
            Token::Let => "let".to_owned(),
            Token::Minus => "-".to_owned(),
            Token::Asterisk => "*".to_owned(),
            Token::Slash => "/".to_owned(),
            Token::Bang => "!".to_owned(),
            Token::Lt => "<".to_owned(),
            Token::Gt => ">".to_owned(),
            Token::True => "true".to_owned(),
            Token::False => "false".to_owned(),
            Token::If => "if".to_owned(),
            Token::Else => "else".to_owned(),
            Token::Return => "return".to_owned(),
            Token::Eq => "==".to_owned(),
            Token::NotEq => "!=".to_owned(),
            Token::Colon => ":".to_owned(),
        }
    }
}

impl Clone for Token {
    fn clone(&self) -> (r: Token)
        ensures
            r == *self,
    {
        match self {
            Token::Illegal => Token::Illegal,
            Token::Eof => Token::Eof,
            Token::Ident(s) => Token::Ident(s.clone()),
            Token::Int(v) => Token::Int(*v),
            Token::String(s) => Token::String(s.clone()),
            Token::Assign => Token::Assign,
            Token::Plus => Token::Plus,
            Token::Minus => Token::Minus,
            Token::Asterisk => Token::Asterisk,
            Token::Slash => Token::Slash,
            Token::Comma => Token::Comma,
            Token::Semicolon => Token::Semicolon,
            Token::LParen => Token::LParen,
            Token::RParen => Token::RParen,
            Token::LBrace => Token::LBrace,
            Token::RBrace => Token::RBrace,
            Token::LBracket => Token::LBracket,
            Token::RBracket => Token::RBracket,
            Token::Function => Token::Function,
            Token::Let => Token::Let,
            Token::Bang => Token::Bang,
            Token::Lt => Token::Lt,
            Token::Gt => Token::Gt,
            Token::True => Token::True,
            Token::False => Token::False,
            Token::If => Token::If,
            Token::Else => Token::Else,
            Token::Return => Token::Return,
            Token::Eq => Token::Eq,
            Token::NotEq => Token::NotEq,
            Token::Colon => Token::Colon,
        }
    }
}

impl PartialEq for Token {
    fn eq(&self, other: &Token) -> (r: bool) {
        match (self, other) {
            (Token::Ident(a), Token::Ident(b)) => *a == *b,
            (Token::Int(a), Token::Int(b)) => *a == *b,
            (Token::String(a), Token::String(b)) => *a == *b,
            (Token::Illegal, Token::Illegal) => true,
            (Token::Eof, Token::Eof) => true,
            (Token::Assign, Token::Assign) => true,
            (Token::Plus, Token::Plus) => true,
            (Token::Minus, Token::Minus) => true,
            (Token::Asterisk, Token::Asterisk) => true,
            (Token::Slash, Token::Slash) => true,
            (Token::Comma, Token::Comma) => true,
            (Token::Semicolon, Token::Semicolon) => true,
            (Token::LParen, Token::LParen) => true,
            (Token::RParen, Token::RParen) => true,
            (Token::LBrace, Token::LBrace) => true,
            (Token::RBrace, Token::RBrace) => true,
            (Token::LBracket, Token::LBracket) => true,
            (Token::RBracket, Token::RBracket) => true,
            (Token::Function, Token::Function) => true,
            (Token::Let, Token::Let) => true,
            (Token::Bang, Token::Bang) => true,
            (Token::Lt, Token::Lt) => true,
            (Token::Gt, Token::Gt) => true,
            (Token::True, Token::True) => true,
            (Token::False, Token::False) => true,
            (Token::If, Token::If) => true,
            (Token::Else, Token::Else) => true,
            (Token::Return, Token::Return) => true,
            (Token::Eq, Token::Eq) => true,
            (Token::NotEq, Token::NotEq) => true,
            (Token::Colon, Token::Colon) => true,
            _ => false,
        }
    }
}

impl vstd::std_specs::cmp::PartialEqSpecImpl for Token {
    open spec fn obeys_eq_spec() -> bool {
        true
    }

    open spec fn eq_spec(&self, other: &Token) -> bool {
        self@ == other@
    }
}

impl Eq for Token {

}

/// The keyword that `ident` spells, if it spells one.
pub open spec fn keyword(ident: Seq<char>) -> Option<TokenView> {
    if ident == "let"@ {
        Some(TokenView::Let)
    } else if ident == "fn"@ {
        Some(TokenView::Function)
    } else if ident == "true"@ {
        Some(TokenView::True)
    } else if ident == "false"@ {
        Some(TokenView::False)
    } else if ident == "if"@ {
        Some(TokenView::If)
    } else if ident == "else"@ {
        Some(TokenView::Else)
    } else if ident == "return"@ {
        Some(TokenView::Return)
    } else {
        None
    }
}

/// Looks `ident` up among the keywords of the language.
pub fn look_up_ident(ident: &str) -> (r: Option<Token>)
    ensures
        match r {
            Some(tok) => keyword(ident@) == Some(tok@),
            None => keyword(ident@) is None,
        },
{
    if str_eq(ident, "let") {
        Some(Token::Let)
    } else if str_eq(ident, "fn") {
        Some(Token::Function)
    } else if str_eq(ident, "true") {
        Some(Token::True)
    } else if str_eq(ident, "false") {
        Some(Token::False)
    } else if str_eq(ident, "if") {
        Some(Token::If)
    } else if str_eq(ident, "else") {
        Some(Token::Else)
    } else if str_eq(ident, "return") {
        Some(Token::Return)
    } else {
        None
    }
}

} // verus!
