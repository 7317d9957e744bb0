//! What holds of assembly and writing.
//!
//! Nothing but what a class holds decides its class file, and nothing but
//! what a class file holds decides its bytes: assembling or writing the
//! same twice gives the same twice.

use crate::class_file::{assembled, method_record, ClassFile};
use crate::constant_pool::Entry;
use crate::structs::{Class, Method};
use vstd::prelude::*;

verus! {

/// Two methods that hold the same, assembled on the same pool, give the
/// same record and the same pool, or fail alike: encoding the same
/// pseudo-instructions twice gives the same bytes.
pub proof fn lemma_same_method_same_record(first: Method, second: Method, pool: Seq<Entry>)
    requires
        first@ == second@,
    ensures
        method_record(pool, first@) == method_record(pool, second@),
{
}

/// Two classes that hold the same are assembled to class files that hold
/// the same, or fail alike.
pub proof fn lemma_same_class_same_class_file(first: Class, second: Class)
    requires
        first@ == second@,
    ensures
        assembled(first@) == assembled(second@),
{
}

/// Two class files that hold the same are written as the same bytes: what
/// `write_to_file` appends is `bytes` of what the class file holds, and of
/// nothing else.
pub proof fn lemma_same_class_file_same_bytes(
    first: ClassFile,
    second: ClassFile,
    sink: Seq<u8>,
)
    requires
        first@ == second@,
    ensures
        sink + first@.bytes() == sink + second@.bytes(),
{
}

} // verus!
