//! Errors of parsing and evaluation.
use vstd::prelude::*;
use vstd::string::*;
use crate::operator::{Infix, Prefix};
use crate::token::{Token, TokenView};

verus! {

/// Why an evaluation failed.
#[derive(Debug)]
#[allow(inconsistent_fields)]
pub enum EvalErrorKind {
    /// The operands of an infix operator have different types.
    TypeMismatch { op: Infix, left: String, right: String },
    /// The operands have the same type, which the operator does not take.
    UnknownInfixOperator { op: Infix, left: String, right: String },
    /// The operand has a type that the prefix operator does not take.
    UnknownPrefixOperator { op: Prefix, right: String },
    /// An identifier is bound neither in scope nor as a built-in.
    UncaughtRef { ident: String },
    /// An integer was divided by zero.
    DivisionByZero,
    /// A value that is no integer, boolean or string was used as a hash key.
    UnsupportedKeyType { key: String },
    /// The index operator was used on values it is not defined for.
    UnsupportedIndex { left: String, index: String },
    /// Function calls were nested deeper than the evaluator's limit.
    CallDepthExceeded,
}

/// The mathematical value of an [`EvalErrorKind`].
#[allow(inconsistent_fields)]
pub enum EvalErrorKindView {
    TypeMismatch { op: Infix, left: Seq<char>, right: Seq<char> },
    UnknownInfixOperator { op: Infix, left: Seq<char>, right: Seq<char> },
    UnknownPrefixOperator { op: Prefix, right: Seq<char> },
    UncaughtRef { ident: Seq<char> },
    DivisionByZero,
    UnsupportedKeyType { key: Seq<char> },
    UnsupportedIndex { left: Seq<char>, index: Seq<char> },
    CallDepthExceeded,
}

impl View for EvalErrorKind {
    type V = EvalErrorKindView;

    open spec fn view(&self) -> EvalErrorKindView {
        match self {
            EvalErrorKind::TypeMismatch { op, left, right } => EvalErrorKindView::TypeMismatch {
                op: *op,
                left: left@,
                right: right@,
            },
            EvalErrorKind::UnknownInfixOperator {
                op,
                left,
                right,
            } => EvalErrorKindView::UnknownInfixOperator { op: *op, left: left@, right: right@ },
            EvalErrorKind::UnknownPrefixOperator {
                op,
                right,
            } => EvalErrorKindView::UnknownPrefixOperator { op: *op, right: right@ },
            EvalErrorKind::UncaughtRef { ident } => EvalErrorKindView::UncaughtRef {
                ident: ident@,
            },
            EvalErrorKind::DivisionByZero => EvalErrorKindView::DivisionByZero,
            EvalErrorKind::UnsupportedKeyType { key } => EvalErrorKindView::UnsupportedKeyType {
                key: key@,
            },
            EvalErrorKind::UnsupportedIndex { left, index } => EvalErrorKindView::UnsupportedIndex {
                left: left@,
                index: index@,
            },
            EvalErrorKind::CallDepthExceeded => EvalErrorKindView::CallDepthExceeded,
        }
    }
}

impl EvalErrorKindView {
    /// The message of the error.
    pub open spec fn text(self) -> Seq<char> {
        match self {
            EvalErrorKindView::TypeMismatch { op, left, right } => "type mismatch: "@ + left
                + " "@ + op.symbol() + " "@ + right,
            EvalErrorKindView::UnknownInfixOperator { op, left, right } => "unknown operator: "@
                + left + " "@ + op.symbol() + " "@ + right,
            EvalErrorKindView::UnknownPrefixOperator { op, right } => "unknown prefix operator; "@
                + op.symbol() + right,
            EvalErrorKindView::UncaughtRef { ident } => "identifier not found: "@ + ident,
            EvalErrorKindView::DivisionByZero => "division by zero"@,
            EvalErrorKindView::UnsupportedKeyType { key } => "unusable as hash key: "@ + key,
            EvalErrorKindView::UnsupportedIndex { left, index } => "index operator not supported: "@
                + left + "["@ + index + "]"@,
            EvalErrorKindView::CallDepthExceeded => "call depth exceeded"@,
        }
    }
}

impl EvalErrorKind {
    /// The message of the error.
    pub fn to_string(&self) -> (r: String)
        ensures
            r@ == self@.text(),
    {
        let mut out = String::new();
        match self {
            EvalErrorKind::TypeMismatch { op, left, right } => {
                out.append("type mismatch: ");
                out.append(left.as_str());
                out.append(" ");
                out.append(op.as_str());
                out.append(" ");
                out.append(right.as_str());
            },
            EvalErrorKind::UnknownInfixOperator { op, left, right } => {
                out.append("unknown operator: ");
                out.append(left.as_str());
                out.append(" ");
                out.append(op.as_str());
                out.append(" ");
                out.append(right.as_str());
            },
            EvalErrorKind::UnknownPrefixOperator { op, right } => {
                out.append("unknown prefix operator; ");
                out.append(op.as_str());
                out.append(right.as_str());
            },
            EvalErrorKind::UncaughtRef { ident } => {
                out.append("identifier not found: ");
                out.append(ident.as_str());
            },
            EvalErrorKind::DivisionByZero => {
                out.append("division by zero");
            },
            EvalErrorKind::UnsupportedKeyType { key } => {
                out.append("unusable as hash key: ");
                out.append(key.as_str());
            },
            EvalErrorKind::UnsupportedIndex { left, index } => {
                out.append("index operator not supported: ");
                out.append(left.as_str());
                out.append("[");
                out.append(index.as_str());
                out.append("]");
            },
            EvalErrorKind::CallDepthExceeded => {
                out.append("call depth exceeded");
            },
        }
        proof {
            assert(out@ =~= self@.text());
        }
        out
    }
}

/// An error of the interpreter, from parsing or from evaluation.
#[derive(Debug)]
pub enum RMonkeyError {
    /// A token that the grammar requires at this point is absent.
    UnexpectedToken { expected: Token, got: Token },
    /// A token that cannot start an expression stands where one must start.
    InvalidPrefix { got: Token },
    /// A failure described by its message alone.
    Custom(String),
    /// A failure of evaluation.
    EvalError(EvalErrorKind),
}

/// The mathematical value of an [`RMonkeyError`].
pub enum ErrorView {
    UnexpectedToken { expected: TokenView, got: TokenView },
    InvalidPrefix { got: TokenView },
    Custom(Seq<char>),
    EvalError(EvalErrorKindView),
}

impl View for RMonkeyError {
    type V = ErrorView;

    open spec fn view(&self) -> ErrorView {
        match self {
            RMonkeyError::UnexpectedToken { expected, got } => ErrorView::UnexpectedToken {
                expected: expected@,
                got: got@,
            },
            RMonkeyError::InvalidPrefix { got } => ErrorView::InvalidPrefix { got: got@ },
            RMonkeyError::Custom(msg) => ErrorView::Custom(msg@),
            RMonkeyError::EvalError(kind) => ErrorView::EvalError(kind@),
        }
    }
}

impl ErrorView {
    /// The message of the error.
    pub open spec fn text(self) -> Seq<char> {
        match self {
            ErrorView::UnexpectedToken { expected, got } => "unexpected token error: expected "@
                + expected.text() + ", but got "@ + got.text(),
            ErrorView::InvalidPrefix { got } => "invalid prefix: "@ + got.text()
                + " is invalid for prefix"@,
            ErrorView::Custom(msg) => "custom error: "@ + msg,
            ErrorView::EvalError(kind) => kind.text(),
        }
    }
}

impl RMonkeyError {
    /// The message of the error.
    pub fn to_string(&self) -> (r: String)
        ensures
            r@ == self@.text(),
    {
        let mut out = String::new();
        match self {
            RMonkeyError::UnexpectedToken { expected, got } => {
                out.append("unexpected token error: expected ");
                out.append(expected.to_string().as_str());
                out.append(", but got ");
                out.append(got.to_string().as_str());
            },
            RMonkeyError::InvalidPrefix { got } => {
                out.append("invalid prefix: ");
                out.append(got.to_string().as_str());
                out.append(" is invalid for prefix");
            },
            RMonkeyError::Custom(msg) => {
                out.append("custom error: ");
                out.append(msg.as_str());
            },
            RMonkeyError::EvalError(kind) => {
                out.append(kind.to_string().as_str());
            },
        }
        proof {
            assert(out@ =~= self@.text());
        }
        out
    }
}

} // verus!
