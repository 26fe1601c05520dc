//! The expression tree the translator walks, and the error kinds a
//! translation can fail with.
//!
//! The tree holds as plain values exactly what the translator reads of the
//! front-end's syntax tree: literal token text, identifier names, operator
//! kinds, and the ordered parts of a string literal. A float literal is held
//! as the bit pattern of its 64-bit value.

use vstd::prelude::*;

verus! {

/// The binary operator kinds the translator understands. `Unsupported`
/// stands for any operator kind outside the supported set.
#[derive(Clone, Copy, PartialEq, Eq, Structural, Debug)]
pub enum BinOpKind {
    Add,
    Sub,
    Mul,
    Div,
    Less,
    LessOrEq,
    More,
    MoreOrEq,
    Equal,
    NotEqual,
    And,
    Or,
    Unsupported,
}

/// A literal: an integer (its decimal token text), a float (the bit pattern
/// of its 64-bit value), or a literal kind outside the supported set.
pub enum LiteralKind {
    Integer(String),
    Float(u64),
    Unsupported,
}

/// One expression node. `LetIn` holds a single binding; a `let` with several
/// bindings is the same as nested `LetIn` nodes, one per binding in source
/// order, since every binding is declared in the one shared namespace and
/// sees exactly the bindings declared before it.
pub enum Expr {
    Literal(LiteralKind),
    Ident(String),
    BinOp(BinOpKind, Box<Expr>, Box<Expr>),
    LetIn(String, Box<Expr>, Box<Expr>),
    Lambda(String, Box<Expr>),
    Str(Box<StrPart>),
    Unsupported,
}

/// The ordered parts of a string literal, as a list: plain text parts and
/// interpolation parts.
pub enum StrPart {
    End,
    Literal(String, Box<StrPart>),
    Interpolation(Box<Expr>, Box<StrPart>),
}

/// Every way a compilation can fail.
#[derive(Clone, Copy, PartialEq, Eq, Structural, Debug)]
pub enum Error {
    /// The front-end reported errors in the source text.
    SyntaxError,
    /// An identifier was used that no binding declares, or whose slot holds
    /// no value in the function being built.
    UnboundIdentifier,
    /// An expression node or literal kind outside the supported set.
    UnsupportedConstruct,
    /// An operator kind outside the supported set.
    UnsupportedOperator,
    /// An integer literal whose text does not parse into the 64-bit width.
    LiteralOutOfRange,
    /// A binding's value expression produced no value.
    MissingValue,
    /// A lambda body produced no value.
    EmptyLambdaBody,
    /// The top-level expression produced no value.
    NoReturnValue,
    /// The backend rejected the declaration of a constant data object.
    DataDeclarationError,
    /// The backend rejected the definition of a constant data object.
    DataDefinitionError,
    /// The backend failed to declare, define or link a function.
    BackendLinkError,
}

impl Error {
    /// A short description, for diagnostics outside the library.
    pub fn message(&self) -> &'static str {
        match self {
            Error::SyntaxError => "syntax error",
            Error::UnboundIdentifier => "unbound identifier",
            Error::UnsupportedConstruct => "unsupported construct",
            Error::UnsupportedOperator => "unsupported operator",
            Error::LiteralOutOfRange => "literal out of range",
            Error::MissingValue => "binding has no value",
            Error::EmptyLambdaBody => "lambda body has no value",
            Error::NoReturnValue => "no return value",
            Error::DataDeclarationError => "failed to declare data",
            Error::DataDefinitionError => "failed to define data",
            Error::BackendLinkError => "backend failed to link",
        }
    }
}

} // verus!
