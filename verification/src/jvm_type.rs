//! Type tags of the operand stack, and the literals that can be pushed.

use vstd::prelude::*;

verus! {

/// The type of one value on the runtime's evaluation stack.
#[derive(Debug, Copy, Clone, PartialEq, Eq, Structural)]
pub enum JvmType {
    Boolean,
    Byte,
    Char,
    Short,
    Int,
    Long,
    Float,
    Double,
    Reference,
}

/// How a value of some type is moved between the stack and a local slot.
#[derive(Debug, Copy, Clone, PartialEq, Eq, Structural)]
pub enum Category {
    /// Moved with the integer load and store forms.
    Integral,
    /// Moved with the reference load and store forms.
    Reference,
    /// Wide or floating-point values, which have no load or store form here.
    Unsupported,
}

impl JvmType {
    /// The category that selects the load or store form for this type.
    pub open spec fn category(self) -> Category {
        match self {
            JvmType::Boolean | JvmType::Byte | JvmType::Char | JvmType::Short | JvmType::Int => {
                Category::Integral
            },
            JvmType::Reference => Category::Reference,
            JvmType::Long | JvmType::Float | JvmType::Double => Category::Unsupported,
        }
    }

    /// Computes `category`.
    pub fn get_category(self) -> (category: Category)
        ensures
            category == self.category(),
    {
        match self {
            JvmType::Boolean | JvmType::Byte | JvmType::Char | JvmType::Short | JvmType::Int => {
                Category::Integral
            },
            JvmType::Reference => Category::Reference,
            JvmType::Long | JvmType::Float | JvmType::Double => Category::Unsupported,
        }
    }
}

/// A literal operand of a push. Floating-point literals are held as their
/// IEEE 754 bit patterns.
#[derive(Debug, PartialEq, Eq)]
pub enum PushLiteral {
    Boolean(bool),
    Byte(u8),
    Char(i8),
    Short(i16),
    Int(i32),
    Long(i64),
    Float(u32),
    Double(u64),
    String(String),
}

/// What a `PushLiteral` stands for.
pub enum Literal {
    Boolean(bool),
    Byte(u8),
    Char(i8),
    Short(i16),
    Int(i32),
    Long(i64),
    Float(u32),
    Double(u64),
    String(Seq<char>),
}

impl View for PushLiteral {
    type V = Literal;

    open spec fn view(&self) -> Literal {
        match self {
            PushLiteral::Boolean(value) => Literal::Boolean(*value),
            PushLiteral::Byte(value) => Literal::Byte(*value),
            PushLiteral::Char(value) => Literal::Char(*value),
            PushLiteral::Short(value) => Literal::Short(*value),
            PushLiteral::Int(value) => Literal::Int(*value),
            PushLiteral::Long(value) => Literal::Long(*value),
            PushLiteral::Float(bits) => Literal::Float(*bits),
            PushLiteral::Double(bits) => Literal::Double(*bits),
            PushLiteral::String(text) => Literal::String(text@),
        }
    }
}

} // verus!
