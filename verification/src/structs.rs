//! Classes and methods as they are handed to the assembler.

use crate::label_generator::LabelGenerator;
use crate::pseudo_instruction::{views, PseudoInstruction, PseudoOp};
use vstd::prelude::*;

verus! {

/// The properties that a class can be declared with.
pub enum ClassAccessFlags {
    Public,
    Final,
    Super,
    Interface,
    Abstract,
    Synthetic,
    Annotation,
    Enum,
}

impl ClassAccessFlags {
    /// The bit that stands for the property in a class file.
    pub open spec fn bit(self) -> u16 {
        match self {
            ClassAccessFlags::Public => 0x0001,
            ClassAccessFlags::Final => 0x0010,
            ClassAccessFlags::Super => 0x0020,
            ClassAccessFlags::Interface => 0x0200,
            ClassAccessFlags::Abstract => 0x0400,
            ClassAccessFlags::Synthetic => 0x1000,
            ClassAccessFlags::Annotation => 0x2000,
            ClassAccessFlags::Enum => 0x4000,
        }
    }

    /// Computes `bit`.
    pub fn mask(self) -> (mask: u16)
        ensures
            mask == self.bit(),
    {
        match self {
            ClassAccessFlags::Public => 0x0001,
            ClassAccessFlags::Final => 0x0010,
            ClassAccessFlags::Super => 0x0020,
            ClassAccessFlags::Interface => 0x0200,
            ClassAccessFlags::Abstract => 0x0400,
            ClassAccessFlags::Synthetic => 0x1000,
            ClassAccessFlags::Annotation => 0x2000,
            ClassAccessFlags::Enum => 0x4000,
        }
    }
}

/// The properties that a method can be declared with.
pub enum MethodAccessFlags {
    Public,
    Private,
    Protected,
    Static,
    Final,
    Synchronized,
    Bridge,
    Varargs,
    Native,
    Abstract,
    Strict,
    Synthetic,
}

impl MethodAccessFlags {
    /// The bit that stands for the property in a class file.
    pub open spec fn bit(self) -> u16 {
        match self {
            MethodAccessFlags::Public => 0x0001,
            MethodAccessFlags::Private => 0x0002,
            MethodAccessFlags::Protected => 0x0004,
            MethodAccessFlags::Static => 0x0008,
            MethodAccessFlags::Final => 0x0010,
            MethodAccessFlags::Synchronized => 0x0020,
            MethodAccessFlags::Bridge => 0x0040,
            MethodAccessFlags::Varargs => 0x0080,
            MethodAccessFlags::Native => 0x0100,
            MethodAccessFlags::Abstract => 0x0200,
            MethodAccessFlags::Strict => 0x0400,
            MethodAccessFlags::Synthetic => 0x0800,
        }
    }

    /// Computes `bit`.
    pub fn mask(self) -> (mask: u16)
        ensures
            mask == self.bit(),
    {
        match self {
            MethodAccessFlags::Public => 0x0001,
            MethodAccessFlags::Private => 0x0002,
            MethodAccessFlags::Protected => 0x0004,
            MethodAccessFlags::Static => 0x0008,
            MethodAccessFlags::Final => 0x0010,
            MethodAccessFlags::Synchronized => 0x0020,
            MethodAccessFlags::Bridge => 0x0040,
            MethodAccessFlags::Varargs => 0x0080,
            MethodAccessFlags::Native => 0x0100,
            MethodAccessFlags::Abstract => 0x0200,
            MethodAccessFlags::Strict => 0x0400,
            MethodAccessFlags::Synthetic => 0x0800,
        }
    }
}

/// The flags of a public class of the current kind: `Public` and `Super`.
pub const PUBLIC_CLASS: u16 = 0x0021;

/// The flags of a public static method: `Public` and `Static`.
pub const PUBLIC_STATIC_METHOD: u16 = 0x0009;

/// A method to assemble: its name and descriptor, its flags, its body as
/// pseudo-instructions, and the source of labels that the body's labels
/// came from.
pub struct Method {
    pub name: String,
    pub signature: String,
    pub access_flags: u16,
    pub label_generator: LabelGenerator,
    pub code: Vec<PseudoInstruction>,
}

/// What a `Method` stands for.
pub struct MethodSource {
    pub name: Seq<char>,
    pub signature: Seq<char>,
    pub access_flags: u16,
    pub next_label: nat,
    pub code: Seq<PseudoOp>,
}

impl View for Method {
    type V = MethodSource;

    open spec fn view(&self) -> MethodSource {
        MethodSource {
            name: self.name@,
            signature: self.signature@,
            access_flags: self.access_flags,
            next_label: self.label_generator.next(),
            code: views(self.code@),
        }
    }
}

impl Default for Method {
    /// A public static method named `Method` with no descriptor and no code.
    fn default() -> (method: Self)
        ensures
            method@ == (MethodSource {
                name: "Method"@,
                signature: ""@,
                access_flags: PUBLIC_STATIC_METHOD,
                next_label: 0,
                code: Seq::empty(),
            }),
    {
        let access_flags = MethodAccessFlags::Public.mask() | MethodAccessFlags::Static.mask();
        assert(0x0001u16 | 0x0008u16 == 0x0009u16) by (bit_vector);
        let method = Method {
            name: "Method".to_owned(),
            signature: "".to_owned(),
            access_flags,
            label_generator: LabelGenerator::new(),
            code: Vec::new(),
        };
        assert(method@.code =~= Seq::<PseudoOp>::empty());
        method
    }
}

/// A class to assemble: its name, its flags and its methods.
pub struct Class {
    pub name: String,
    pub access_flags: u16,
    pub methods: Vec<Method>,
}

/// What a `Class` stands for.
pub struct ClassSource {
    pub name: Seq<char>,
    pub access_flags: u16,
    pub methods: Seq<MethodSource>,
}

impl View for Class {
    type V = ClassSource;

    open spec fn view(&self) -> ClassSource {
        ClassSource {
            name: self.name@,
            access_flags: self.access_flags,
            methods: self.methods@.map_values(|method: Method| method@),
        }
    }
}

impl Default for Class {
    /// A public class named `Class` without methods.
    fn default() -> (class: Self)
        ensures
            class@ == (ClassSource {
                name: "Class"@,
                access_flags: PUBLIC_CLASS,
                methods: Seq::empty(),
            }),
    {
        let access_flags = ClassAccessFlags::Public.mask() | ClassAccessFlags::Super.mask();
        assert(0x0001u16 | 0x0020u16 == 0x0021u16) by (bit_vector);
        let class = Class { name: "Class".to_owned(), access_flags, methods: Vec::new() };
        assert(class@.methods =~= Seq::<MethodSource>::empty());
        class
    }
}

} // verus!
