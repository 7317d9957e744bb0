//! The syntax tree that the backend compiles.
//!
//! The tree is what the parser hands over: expressions, each with the span
//! of source text that it was read from. The backend looks at the
//! expressions only.

use std::ops::Range;
use vstd::prelude::*;

verus! {

/// The operators of the language.
#[derive(Debug, Copy, Clone, PartialEq, Eq, Structural)]
pub enum Operator {
    Plus,
    Equality,
    Inequality,
}

/// An expression and where it stands in the source text.
#[derive(Debug)]
pub struct ExpressionWithMetadata {
    pub expression: Expression,
    pub span: Range<usize>,
}

/// A name and where it stands in the source text.
#[derive(Debug)]
pub struct Label {
    pub label: String,
    pub span: Range<usize>,
}

/// An expression of the language.
#[derive(Debug)]
pub enum Expression {
    Id(String),
    Value(Value),
    Declaration(Label, Box<ExpressionWithMetadata>),
    Assignment(Label, Box<ExpressionWithMetadata>),
    Operation(Operator, Vec<ExpressionWithMetadata>),
    Scope(Vec<ExpressionWithMetadata>),
    NamedFunctionDefinition { name: Label, parameters: Vec<Label>, body: Box<ExpressionWithMetadata> },
    AnonymousFunctionDefinition { parameters: Vec<Label>, body: Box<ExpressionWithMetadata> },
    FunctionCall(Box<ExpressionWithMetadata>, Vec<ExpressionWithMetadata>),
    MethodCall { name: Label, this: Box<ExpressionWithMetadata>, arguments: Vec<ExpressionWithMetadata> },
    StaticField { class: String, field: String },
    If { guard: Box<ExpressionWithMetadata>, base_case: Box<ExpressionWithMetadata> },
    IfElse {
        guard: Box<ExpressionWithMetadata>,
        base_case: Box<ExpressionWithMetadata>,
        else_case: Box<ExpressionWithMetadata>,
    },
    While { guard: Box<ExpressionWithMetadata>, body: Box<ExpressionWithMetadata> },
}

/// A literal value. A floating-point value is held as its IEEE 754 bit
/// pattern.
#[derive(Debug)]
pub enum Value {
    Unit,
    Integer(i32),
    Float(u32),
    String(String),
    Boolean(bool),
}

} // verus!
