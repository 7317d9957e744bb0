//! Method descriptors.
//!
//! A method descriptor lists the types of a method's parameters between
//! round brackets, then its return type: `(I[Ljava/lang/String;)V` takes an
//! integer and an array of strings. A class type runs from `L` to `;`, an
//! array type is `[` before its element type, any other type is one byte.
//! A field descriptor is one such type.

use crate::jvm_type::JvmType;
use vstd::prelude::*;

verus! {

/// The number of parameter types from `at` to the closing bracket, or to the
/// end of the descriptor where there is none.
pub open spec fn parameters_from(descriptor: Seq<u8>, at: int) -> nat
    decreases descriptor.len() - at, 1int,
{
    if at < 0 || at >= descriptor.len() || descriptor[at] == 0x29 {
        0
    } else if descriptor[at] == 0x5b {
        parameters_from(descriptor, at + 1)
    } else if descriptor[at] == 0x4c {
        1 + class_then_parameters(descriptor, at + 1)
    } else {
        1 + parameters_from(descriptor, at + 1)
    }
}

/// The number of parameter types behind the class name that is read at `at`.
pub open spec fn class_then_parameters(descriptor: Seq<u8>, at: int) -> nat
    decreases descriptor.len() - at, 0int,
{
    if at < 0 || at >= descriptor.len() {
        0
    } else if descriptor[at] == 0x3b {
        parameters_from(descriptor, at + 1)
    } else {
        class_then_parameters(descriptor, at + 1)
    }
}

/// The number of parameters that a method with this descriptor takes. A
/// descriptor that does not open with a round bracket lists none.
pub open spec fn parameter_count(descriptor: Seq<u8>) -> nat {
    if descriptor.len() > 0 && descriptor[0] == 0x28 {
        parameters_from(descriptor, 1)
    } else {
        0
    }
}

/// The type of the values that a field with this descriptor holds: the one
/// that the descriptor's first byte names. Classes and arrays are
/// references. A descriptor that names no type has none.
pub open spec fn field_type(descriptor: Seq<u8>) -> Option<JvmType> {
    if descriptor.len() == 0 {
        None
    } else if descriptor[0] == 0x42 {
        Some(JvmType::Byte)
    } else if descriptor[0] == 0x43 {
        Some(JvmType::Char)
    } else if descriptor[0] == 0x44 {
        Some(JvmType::Double)
    } else if descriptor[0] == 0x46 {
        Some(JvmType::Float)
    } else if descriptor[0] == 0x49 {
        Some(JvmType::Int)
    } else if descriptor[0] == 0x4a {
        Some(JvmType::Long)
    } else if descriptor[0] == 0x53 {
        Some(JvmType::Short)
    } else if descriptor[0] == 0x5a {
        Some(JvmType::Boolean)
    } else if descriptor[0] == 0x4c || descriptor[0] == 0x5b {
        Some(JvmType::Reference)
    } else {
        None
    }
}

/// Reads the type of a field from its descriptor, given as UTF-8 bytes.
pub fn type_of_field(descriptor: &[u8]) -> (jvm_type: Option<JvmType>)
    ensures
        jvm_type == field_type(descriptor@),
{
    if descriptor.len() == 0 {
        return None;
    }
    let first = descriptor[0];
    if first == 0x42 {
        Some(JvmType::Byte)
    } else if first == 0x43 {
        Some(JvmType::Char)
    } else if first == 0x44 {
        Some(JvmType::Double)
    } else if first == 0x46 {
        Some(JvmType::Float)
    } else if first == 0x49 {
        Some(JvmType::Int)
    } else if first == 0x4a {
        Some(JvmType::Long)
    } else if first == 0x53 {
        Some(JvmType::Short)
    } else if first == 0x5a {
        Some(JvmType::Boolean)
    } else if first == 0x4c || first == 0x5b {
        Some(JvmType::Reference)
    } else {
        None
    }
}

/// Counts the parameters of a method descriptor, given as UTF-8 bytes.
pub fn count_parameters(descriptor: &[u8]) -> (count: usize)
    ensures
        count == parameter_count(descriptor@),
        count < usize::MAX,
{
    if descriptor.len() == 0 || descriptor[0] != 0x28 {
        return 0;
    }
    let mut count: usize = 0;
    let mut at: usize = 1;
    let mut in_class = false;
    while at < descriptor.len() && (in_class || descriptor[at] != 0x29)
        invariant
            1 <= at <= descriptor.len(),
            count < at,
            parameter_count(descriptor@) == count + if in_class {
                class_then_parameters(descriptor@, at as int)
            } else {
                parameters_from(descriptor@, at as int)
            },
        decreases descriptor.len() - at,
    {
        let byte = descriptor[at];
        if in_class {
            if byte == 0x3b {
                in_class = false;
            }
        } else if byte == 0x4c {
            count += 1;
            in_class = true;
        } else if byte != 0x5b {
            count += 1;
        }
        at += 1;
    }
    count
}

} // verus!
