//! Prefix and infix operators of the language.
use vstd::prelude::*;
use vstd::string::*;

verus! {

/// A unary operator written before its operand.
#[derive(Debug, Clone, Copy, Hash, PartialEq, Eq, Structural)]
pub enum Prefix {
    Minus,
    Bang,
}

impl Prefix {
    /// The operator as written in source text.
    pub open spec fn symbol(self) -> Seq<char> {
        match self {
            Prefix::Minus => "-"@,
            Prefix::Bang => "!"@,
        }
    }

    /// The operator as written in source text.
    pub fn as_str(&self) -> (r: &'static str)
        ensures
            r@ == self.symbol(),
    {
        match self {
            Prefix::Minus => "-",
            Prefix::Bang => "!",
        }
    }

    /// The operator as written in source text.
    pub fn to_string(&self) -> (r: String)
        ensures
            r@ == self.symbol(),
    {
        self.as_str().to_owned()
    }
}

/// A binary operator written between its operands.
#[derive(Debug, Clone, Copy, PartialEq, Eq, PartialOrd, Ord, Hash, Structural)]
pub enum Infix {
    Eq,
    NotEq,
    Lt,
    Gt,
    Plus,
    Minus,
    Slash,
    Asterisk,
}

impl Infix {
    /// The operator as written in source text.
    pub open spec fn symbol(self) -> Seq<char> {
        match self {
            Infix::Eq => "=="@,
            Infix::NotEq => "!="@,
            Infix::Lt => "<"@,
            Infix::Gt => ">"@,
            Infix::Plus => "+"@,
            Infix::Minus => "-"@,
            Infix::Slash => "/"@,
            Infix::Asterisk => "*"@,
        }
    }

    /// The operator as written in source text.
    pub fn as_str(&self) -> (r: &'static str)
        ensures
            r@ == self.symbol(),
    {
        match self {
            Infix::Eq => "==",
            Infix::NotEq => "!=",
            Infix::Lt => "<",
            Infix::Gt => ">",
            Infix::Plus => "+",
            Infix::Minus => "-",
            Infix::Slash => "/",
            Infix::Asterisk => "*",
        }
    }

    /// The operator as written in source text.
    pub fn to_string(&self) -> (r: String)
        ensures
            r@ == self.symbol(),
    {
        self.as_str().to_owned()
    }
}

} // verus!
