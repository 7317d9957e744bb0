//! Why a compilation is abandoned.

use vstd::prelude::*;

verus! {

/// The reason for which no class file is produced. None of them is
/// recovered from: a compilation yields one complete class file or none.
#[derive(Debug, Copy, Clone, PartialEq, Eq, Structural)]
pub enum CompileError {
    /// A shape of syntax, an operator or a literal type for which there is
    /// no lowering rule.
    UnsupportedConstruct,
    /// A variable that was never declared, or a branch to a label that marks
    /// no place.
    UnresolvedReference,
    /// An operator applied to operand types that it does not take.
    TypeMismatch,
    /// More than the class file format can number: constants, local slots,
    /// labels, bytes of code or the distance of a branch.
    LimitExceeded,
}

} // verus!
