//! The class file: its parts, how they are assembled and how they are
//! written.
//!
//! A class file holds the constant pool, the class's flags and names, its
//! methods and its attributes. Every attribute is written as the index of
//! its name, the length of its content in four bytes, and the content.

use crate::big_endian::{append_bytes, u16_be, u32_be, write_u16, write_u32};
use crate::bytecode::{compile_instructions, encode, label_offsets};
use crate::constant_pool::{
    fits, intern, table_bytes, well_formed, Constant, ConstantPool, Entry, PoolItem, Utf8,
};
use crate::constant_pool::Class as ClassName;
use crate::errors::CompileError;
use crate::encoding_laws::lemma_encoding_length;
use crate::pseudo_instruction::{add_constant, lower, lower_pseudo_instructions, start};
use crate::structs::{Class, ClassSource, Method, MethodSource, PUBLIC_CLASS};
use vstd::prelude::*;

verus! {

/// The largest number of methods, of attributes and of line numbers: each
/// count is stored in sixteen bits.
pub const MAX_COUNT: usize = 65535;

/// The largest number of bytes in an attribute: their number is stored in
/// thirty-two bits.
pub const MAX_ATTRIBUTE_LENGTH: usize = 0xffff_ffff;

/// An attribute in the form in which it is written.
pub struct GenericAttribute {
    name_index: u16,
    info: Vec<u8>,
}

/// What a `GenericAttribute` holds.
pub struct Attribute {
    pub name_index: u16,
    pub info: Seq<u8>,
}

impl View for GenericAttribute {
    type V = Attribute;

    closed spec fn view(&self) -> Attribute {
        Attribute { name_index: self.name_index, info: self.info@ }
    }
}

/// What each attribute of a sequence holds.
pub open spec fn attribute_views(attributes: Seq<GenericAttribute>) -> Seq<Attribute> {
    attributes.map_values(|attribute: GenericAttribute| attribute@)
}

/// The bytes of an attribute.
pub open spec fn attribute_bytes(attribute: Attribute) -> Seq<u8> {
    u16_be(attribute.name_index) + u32_be(attribute.info.len() as u32) + attribute.info
}

/// The bytes of attributes, one after the other.
pub open spec fn attributes_bytes(attributes: Seq<Attribute>) -> Seq<u8>
    decreases attributes.len(),
{
    if attributes.len() == 0 {
        Seq::empty()
    } else {
        attributes_bytes(attributes.drop_last()) + attribute_bytes(attributes.last())
    }
}

/// Whether the attributes can be written: their number and the length of
/// each fit the fields that hold them.
pub open spec fn attributes_fit(attributes: Seq<Attribute>) -> bool {
    &&& attributes.len() <= MAX_COUNT
    &&& forall|i: int|
        0 <= i < attributes.len() ==> (#[trigger] attributes[i]).info.len() <= MAX_ATTRIBUTE_LENGTH
}

/// Appends the attributes to `sink`.
fn write_attributes(sink: &mut Vec<u8>, attributes: &Vec<GenericAttribute>)
    requires
        attributes_fit(attribute_views(attributes@)),
    ensures
        final(sink)@ == old(sink)@ + attributes_bytes(attribute_views(attributes@)),
{
    let ghost all = attribute_views(attributes@);
    let mut i: usize = 0;
    assert(all.take(0) =~= Seq::<Attribute>::empty());
    assert(sink@ =~= old(sink)@ + attributes_bytes(all.take(0)));
    while i < attributes.len()
        invariant
            i <= attributes.len(),
            all == attribute_views(attributes@),
            attributes_fit(all),
            sink@ == old(sink)@ + attributes_bytes(all.take(i as int)),
        decreases attributes.len() - i,
    {
        let ghost before = sink@;
        let attribute = &attributes[i];
        proof {
            assert(all[i as int] == attribute@);
            assert(all.take(i as int + 1).drop_last() =~= all.take(i as int));
            assert(all.take(i as int + 1).last() == attribute@);
        }
        write_u16(sink, attribute.name_index);
        write_u32(sink, attribute.info.len() as u32);
        append_bytes(sink, attribute.info.as_slice());
        assert(sink@ =~= before + attribute_bytes(attribute@));
        assert(sink@ =~= old(sink)@ + attributes_bytes(all.take(i as int + 1)));
        i += 1;
    }
    assert(all.take(i as int) =~= all);
}

/// The code of a method with the limits it runs under and the attributes
/// that describe it.
pub struct CodeAttribute {
    pub name_index: u16,
    pub max_stack: u16,
    pub max_locals: u16,
    pub code: Vec<u8>,
    pub attributes: Vec<GenericAttribute>,
}

/// The content of a code attribute: the two limits, the code with its
/// length before it, an empty exception table, and the nested attributes
/// with their number before them.
pub open spec fn code_info(
    max_stack: u16,
    max_locals: u16,
    code: Seq<u8>,
    attributes: Seq<Attribute>,
) -> Seq<u8> {
    u16_be(max_stack) + u16_be(max_locals) + u32_be(code.len() as u32) + code + u16_be(0) + u16_be(
        attributes.len() as u16,
    ) + attributes_bytes(attributes)
}

impl CodeAttribute {
    /// Whether the attribute can be written: the code's length and the
    /// nested attributes fit the fields that hold them.
    pub open spec fn wf(&self) -> bool {
        &&& self.code@.len() <= MAX_ATTRIBUTE_LENGTH
        &&& attributes_fit(attribute_views(self.attributes@))
    }
}

/// One entry of a line-number table: where in the code a source line
/// starts.
pub struct LineNumberItem {
    pub start_pc: u16,
    pub line_number: u16,
}

/// The table that maps code to source lines.
pub struct LineNumberTableAttribute {
    pub name_index: u16,
    pub items: Vec<LineNumberItem>,
}

/// The bytes of the first `count` entries of a line-number table.
pub open spec fn line_number_bytes(items: Seq<LineNumberItem>, count: nat) -> Seq<u8>
    decreases count,
{
    if count == 0 || count > items.len() {
        Seq::empty()
    } else {
        line_number_bytes(items, (count - 1) as nat) + u16_be(items[count - 1].start_pc) + u16_be(
            items[count - 1].line_number,
        )
    }
}

/// The content of a line-number table: the number of its entries, then for
/// each where it starts and its line.
pub open spec fn line_number_info(items: Seq<LineNumberItem>) -> Seq<u8> {
    u16_be(items.len() as u16) + line_number_bytes(items, items.len())
}

/// The name of the source file that a class was compiled from.
pub struct SourceFileAttribute {
    pub name_index: u16,
    pub sourcefile_index: u16,
}

impl GenericAttribute {
    /// The index of the attribute's name in the constant pool.
    pub fn name_index(&self) -> (index: u16)
        ensures
            index == self@.name_index,
    {
        self.name_index
    }

    /// The attribute's content.
    pub fn info(&self) -> (info: &Vec<u8>)
        ensures
            info@ == self@.info,
    {
        &self.info
    }

    /// The written form of a code attribute.
    pub fn from_code(code_attribute: CodeAttribute) -> (attribute: Self)
        requires
            code_attribute.wf(),
        ensures
            attribute@ == (Attribute {
                name_index: code_attribute.name_index,
                info: code_info(
                    code_attribute.max_stack,
                    code_attribute.max_locals,
                    code_attribute.code@,
                    attribute_views(code_attribute.attributes@),
                ),
            }),
    {
        let mut info: Vec<u8> = Vec::new();
        write_u16(&mut info, code_attribute.max_stack);
        write_u16(&mut info, code_attribute.max_locals);
        write_u32(&mut info, code_attribute.code.len() as u32);
        append_bytes(&mut info, code_attribute.code.as_slice());
        write_u16(&mut info, 0);
        write_u16(&mut info, code_attribute.attributes.len() as u16);
        write_attributes(&mut info, &code_attribute.attributes);
        assert(info@ =~= code_info(
            code_attribute.max_stack,
            code_attribute.max_locals,
            code_attribute.code@,
            attribute_views(code_attribute.attributes@),
        ));
        GenericAttribute { name_index: code_attribute.name_index, info }
    }

    /// The written form of a line-number table.
    pub fn from_line_numbers(table: LineNumberTableAttribute) -> (attribute: Self)
        requires
            table.items@.len() <= MAX_COUNT,
        ensures
            attribute@ == (Attribute {
                name_index: table.name_index,
                info: line_number_info(table.items@),
            }),
    {
        let mut info: Vec<u8> = Vec::new();
        write_u16(&mut info, table.items.len() as u16);
        let ghost head = info@;
        let mut i: usize = 0;
        assert(info@ =~= head + line_number_bytes(table.items@, 0));
        while i < table.items.len()
            invariant
                i <= table.items.len(),
                info@ == head + line_number_bytes(table.items@, i as nat),
            decreases table.items.len() - i,
        {
            write_u16(&mut info, table.items[i].start_pc);
            write_u16(&mut info, table.items[i].line_number);
            assert(info@ =~= head + line_number_bytes(table.items@, (i + 1) as nat));
            i += 1;
        }
        GenericAttribute { name_index: table.name_index, info }
    }

    /// The written form of a source-file attribute: the index of the file's
    /// name.
    pub fn from_source_file(source_file: SourceFileAttribute) -> (attribute: Self)
        ensures
            attribute@ == (Attribute {
                name_index: source_file.name_index,
                info: u16_be(source_file.sourcefile_index),
            }),
    {
        let mut info: Vec<u8> = Vec::new();
        write_u16(&mut info, source_file.sourcefile_index);
        assert(info@ =~= u16_be(source_file.sourcefile_index));
        GenericAttribute { name_index: source_file.name_index, info }
    }
}

/// A method as a class file records it.
struct InternalMethod {
    access_flags: u16,
    name_index: u16,
    descriptor_index: u16,
    attributes: Vec<GenericAttribute>,
}

/// What the record of a method holds.
pub struct MethodRecord {
    pub access_flags: u16,
    pub name_index: u16,
    pub descriptor_index: u16,
    pub attributes: Seq<Attribute>,
}

impl View for InternalMethod {
    type V = MethodRecord;

    closed spec fn view(&self) -> MethodRecord {
        MethodRecord {
            access_flags: self.access_flags,
            name_index: self.name_index,
            descriptor_index: self.descriptor_index,
            attributes: attribute_views(self.attributes@),
        }
    }
}

/// The bytes of a method's record: its flags, the indices of its name and
/// descriptor, and its attributes with their number before them.
pub open spec fn method_bytes(method: MethodRecord) -> Seq<u8> {
    u16_be(method.access_flags) + u16_be(method.name_index) + u16_be(method.descriptor_index)
        + u16_be(method.attributes.len() as u16) + attributes_bytes(method.attributes)
}

/// The bytes of the records of methods, one after the other.
pub open spec fn methods_bytes(methods: Seq<MethodRecord>) -> Seq<u8>
    decreases methods.len(),
{
    if methods.len() == 0 {
        Seq::empty()
    } else {
        methods_bytes(methods.drop_last()) + method_bytes(methods.last())
    }
}

/// What a class file holds.
pub struct ClassImage {
    pub magic: u32,
    pub minor_version: u16,
    pub major_version: u16,
    pub pool: Seq<Entry>,
    pub access_flags: u16,
    pub this_class: u16,
    pub super_class: u16,
    pub methods: Seq<MethodRecord>,
    pub attributes: Seq<Attribute>,
}

impl ClassImage {
    /// Whether the class file can be written: the pool is well formed, and
    /// every count and length fits the field that holds it.
    pub open spec fn fits(self) -> bool {
        &&& well_formed(self.pool)
        &&& self.methods.len() <= MAX_COUNT
        &&& forall|i: int|
            0 <= i < self.methods.len() ==> attributes_fit((#[trigger] self.methods[i]).attributes)
        &&& attributes_fit(self.attributes)
    }

    /// The bytes before the methods: the magic number, the two parts of the
    /// version, the pool with its number of entries plus one before it, the
    /// flags, the indices of the class and of its superclass, no
    /// interfaces, no fields, and the number of methods.
    pub open spec fn header_bytes(self) -> Seq<u8> {
        u32_be(self.magic) + u16_be(self.minor_version) + u16_be(self.major_version) + u16_be(
            (self.pool.len() + 1) as u16,
        ) + table_bytes(self.pool) + u16_be(self.access_flags) + u16_be(self.this_class) + u16_be(
            self.super_class,
        ) + u16_be(0) + u16_be(0) + u16_be(self.methods.len() as u16)
    }

    /// The bytes of the class file: the header, the methods, and the
    /// attributes with their number before them.
    pub open spec fn bytes(self) -> Seq<u8> {
        self.header_bytes() + methods_bytes(self.methods) + u16_be(self.attributes.len() as u16)
            + attributes_bytes(self.attributes)
    }
}

/// The magic number that every class file starts with.
pub const MAGIC: u32 = 0xCAFEBABE;

/// The version of the class file format that is written.
pub const MAJOR_VERSION: u16 = 52;

/// A class file under assembly.
pub struct ClassFile {
    magic: u32,
    minor_version: u16,
    major_version: u16,
    constant_pool: ConstantPool,
    access_flags: u16,
    this_class: u16,
    super_class: u16,
    methods: Vec<InternalMethod>,
    attributes: Vec<GenericAttribute>,
}

impl View for ClassFile {
    type V = ClassImage;

    closed spec fn view(&self) -> ClassImage {
        ClassImage {
            magic: self.magic,
            minor_version: self.minor_version,
            major_version: self.major_version,
            pool: self.constant_pool@,
            access_flags: self.access_flags,
            this_class: self.this_class,
            super_class: self.super_class,
            methods: self.methods@.map_values(|method: InternalMethod| method@),
            attributes: attribute_views(self.attributes@),
        }
    }
}

/// The class file that nothing was added to yet.
pub open spec fn empty_image() -> ClassImage {
    ClassImage {
        magic: MAGIC,
        minor_version: 0,
        major_version: MAJOR_VERSION,
        pool: Seq::empty(),
        access_flags: PUBLIC_CLASS,
        this_class: 0,
        super_class: 0,
        methods: Seq::empty(),
        attributes: Seq::empty(),
    }
}

impl ClassFile {
    /// The invariant that assembly keeps: the class file can be written.
    pub open spec fn wf(&self) -> bool {
        self@.fits()
    }

    /// A class file of the current version for a public class, with
    /// nothing in it.
    pub fn new() -> (class_file: Self)
        ensures
            class_file.wf(),
            class_file@ == empty_image(),
    {
        let class_file = ClassFile {
            magic: MAGIC,
            minor_version: 0,
            major_version: MAJOR_VERSION,
            constant_pool: ConstantPool::new(),
            access_flags: PUBLIC_CLASS,
            this_class: 0,
            super_class: 0,
            methods: Vec::new(),
            attributes: Vec::new(),
        };
        assert(class_file@.methods =~= Seq::<MethodRecord>::empty());
        assert(class_file@.attributes =~= Seq::<Attribute>::empty());
        class_file
    }

    /// Appends the header of the class file to `file`.
    fn write_header(&self, file: &mut Vec<u8>)
        requires
            self.wf(),
        ensures
            final(file)@ == old(file)@ + self@.header_bytes(),
    {
        write_u32(file, self.magic);
        write_u16(file, self.minor_version);
        write_u16(file, self.major_version);
        write_u16(file, (self.constant_pool.len() + 1) as u16);
        self.constant_pool.write_to_file(file);
        write_u16(file, self.access_flags);
        write_u16(file, self.this_class);
        write_u16(file, self.super_class);
        write_u16(file, 0);
        write_u16(file, 0);
        write_u16(file, self.methods.len() as u16);
        assert(file@ =~= old(file)@ + self@.header_bytes());
    }

    /// Appends the records of the methods to `file`.
    fn write_methods(&self, file: &mut Vec<u8>)
        requires
            self.wf(),
        ensures
            final(file)@ == old(file)@ + methods_bytes(self@.methods),
    {
        let ghost methods = self@.methods;
        let mut i: usize = 0;
        assert(methods.take(0) =~= Seq::<MethodRecord>::empty());
        assert(file@ =~= old(file)@ + methods_bytes(methods.take(0)));
        while i < self.methods.len()
            invariant
                i <= self.methods.len(),
                self.wf(),
                methods == self@.methods,
                file@ == old(file)@ + methods_bytes(methods.take(i as int)),
            decreases self.methods.len() - i,
        {
            let ghost before = file@;
            let method = &self.methods[i];
            proof {
                assert(methods[i as int] == method@);
                assert(methods.take(i as int + 1).drop_last() =~= methods.take(i as int));
                assert(methods.take(i as int + 1).last() == method@);
            }
            write_u16(file, method.access_flags);
            write_u16(file, method.name_index);
            write_u16(file, method.descriptor_index);
            write_u16(file, method.attributes.len() as u16);
            write_attributes(file, &method.attributes);
            assert(file@ =~= before + method_bytes(method@));
            assert(file@ =~= old(file)@ + methods_bytes(methods.take(i as int + 1)));
            i += 1;
        }
        assert(methods.take(i as int) =~= methods);
    }

    /// Appends the class file to `file`, byte for byte as a class loader
    /// reads it.
    pub fn write_to_file(&self, file: &mut Vec<u8>)
        requires
            self.wf(),
        ensures
            final(file)@ == old(file)@ + self@.bytes(),
    {
        self.write_header(file);
        self.write_methods(file);
        write_u16(file, self.attributes.len() as u16);
        write_attributes(file, &self.attributes);
        assert(file@ =~= old(file)@ + self@.bytes());
    }
}

/// The pool with `constant` added and the constant's index, or the report
/// that the constant does not fit.
pub open spec fn added(pool: Seq<Entry>, constant: Constant) -> Result<
    (Seq<Entry>, u16),
    CompileError,
> {
    if fits(pool, constant) {
        Ok((intern(pool, constant).0, intern(pool, constant).1 as u16))
    } else {
        Err(CompileError::LimitExceeded)
    }
}

/// The record of `method` and the pool behind it. The method's name, its
/// descriptor and the name `Code` go to the pool, in this order. Then the
/// body is lowered, which adds the constants it uses, and encoded. The code
/// attribute that wraps the code gives the operand stack the greatest depth
/// that lowering saw it reach, and the locals as many slots as lowering
/// handed out; it has no attribute of its own. A stack deeper than sixteen
/// bits can count is refused.
#[verifier::opaque]
pub open spec fn method_record(pool: Seq<Entry>, method: MethodSource) -> Result<
    (Seq<Entry>, MethodRecord),
    CompileError,
> {
    match added(pool, Constant::Utf8(method.name)) {
        Err(error) => Err(error),
        Ok((named, name_index)) => match added(named, Constant::Utf8(method.signature)) {
            Err(error) => Err(error),
            Ok((described, descriptor_index)) => match added(described, Constant::Utf8("Code"@)) {
                Err(error) => Err(error),
                Ok((ready, code_index)) => match lower(
                    method.code,
                    start(ready, method.next_label),
                ) {
                    Err(error) => Err(error),
                    Ok((state, instructions)) => if state.deepest > u16::MAX {
                        Err(CompileError::LimitExceeded)
                    } else {
                        match encode(instructions) {
                            Err(error) => Err(error),
                            Ok(code) => Ok(
                                (
                                    state.pool,
                                    MethodRecord {
                                        access_flags: method.access_flags,
                                        name_index,
                                        descriptor_index,
                                        attributes: seq![
                                            Attribute {
                                                name_index: code_index,
                                                info: code_info(
                                                    state.deepest as u16,
                                                    state.next_slot as u16,
                                                    code,
                                                    Seq::empty(),
                                                ),
                                            },
                                        ],
                                    },
                                ),
                            ),
                        }
                    },
                },
            },
        },
    }
}

/// The records of the first `count` methods and the pool behind them, or
/// the error of the first method that cannot be assembled.
pub open spec fn method_records(pool: Seq<Entry>, methods: Seq<MethodSource>, count: nat) -> Result<
    (Seq<Entry>, Seq<MethodRecord>),
    CompileError,
>
    decreases count,
{
    if count == 0 || count > methods.len() {
        Ok((pool, Seq::empty()))
    } else {
        match method_records(pool, methods, (count - 1) as nat) {
            Err(error) => Err(error),
            Ok((reached, records)) => match method_record(reached, methods[count - 1]) {
                Err(error) => Err(error),
                Ok((next, record)) => Ok((next, records.push(record))),
            },
        }
    }
}

/// The class file of `class`. The class and its superclass
/// `java/lang/Object` go to an empty pool, then the methods are assembled
/// in order. A class with more methods than can be counted is refused.
pub open spec fn assembled(class: ClassSource) -> Result<ClassImage, CompileError> {
    match added(Seq::empty(), Constant::Class(class.name)) {
        Err(error) => Err(error),
        Ok((named, this_class)) => match added(named, Constant::Class("java/lang/Object"@)) {
            Err(error) => Err(error),
            Ok((rooted, super_class)) => if class.methods.len() > MAX_COUNT {
                Err(CompileError::LimitExceeded)
            } else {
                match method_records(rooted, class.methods, class.methods.len()) {
                    Err(error) => Err(error),
                    Ok((pool, methods)) => Ok(
                        ClassImage {
                            pool,
                            access_flags: class.access_flags,
                            this_class,
                            super_class,
                            methods,
                            ..empty_image()
                        },
                    ),
                }
            },
        },
    }
}

/// The class files of the first `count` classes, or the error of the first
/// class that cannot be assembled.
pub open spec fn assembled_all(classes: Seq<ClassSource>, count: nat) -> Result<
    Seq<ClassImage>,
    CompileError,
>
    decreases count,
{
    if count == 0 || count > classes.len() {
        Ok(Seq::empty())
    } else {
        match assembled_all(classes, (count - 1) as nat) {
            Err(error) => Err(error),
            Ok(images) => match assembled(classes[count - 1]) {
                Err(error) => Err(error),
                Ok(image) => Ok(images.push(image)),
            },
        }
    }
}

/// Once a method cannot be assembled, the methods cannot be.
pub proof fn lemma_methods_error_stays(pool: Seq<Entry>, methods: Seq<MethodSource>, count: nat)
    requires
        count <= methods.len(),
        method_records(pool, methods, count) is Err,
    ensures
        method_records(pool, methods, methods.len()) == method_records(pool, methods, count),
    decreases methods.len() - count,
{
    if count < methods.len() {
        lemma_methods_error_stays(pool, methods, count + 1);
    }
}

/// Once a class cannot be assembled, the classes cannot be.
pub proof fn lemma_classes_error_stays(classes: Seq<ClassSource>, count: nat)
    requires
        count <= classes.len(),
        assembled_all(classes, count) is Err,
    ensures
        assembled_all(classes, classes.len()) == assembled_all(classes, count),
    decreases classes.len() - count,
{
    if count < classes.len() {
        lemma_classes_error_stays(classes, count + 1);
    }
}

/// What each class of a sequence stands for.
pub open spec fn class_views(classes: Seq<Class>) -> Seq<ClassSource> {
    classes.map_values(|class: Class| class@)
}

/// What each class file of a sequence holds.
pub open spec fn images(class_files: Seq<ClassFile>) -> Seq<ClassImage> {
    class_files.map_values(|class_file: ClassFile| class_file@)
}

/// Assembles one method: see `method_record`.
fn assemble_method(pool: &mut ConstantPool, method: Method) -> (result: Result<
    InternalMethod,
    CompileError,
>)
    requires
        old(pool).wf(),
    ensures
        final(pool).wf(),
        match result {
            Ok(record) => method_record(old(pool)@, method@) == Ok::<
                (Seq<Entry>, MethodRecord),
                CompileError,
            >((final(pool)@, record@)) && attributes_fit(record@.attributes),
            Err(error) => method_record(old(pool)@, method@) == Err::<
                (Seq<Entry>, MethodRecord),
                CompileError,
            >(error),
        },
{
    reveal(method_record);
    let Method { name, signature, access_flags, mut label_generator, code } = method;
    let name_index = match add_constant(pool, PoolItem::Utf8(Utf8(name))) {
        Ok(index) => index,
        Err(error) => {
            return Err(error);
        },
    };
    let descriptor_index = match add_constant(pool, PoolItem::Utf8(Utf8(signature))) {
        Ok(index) => index,
        Err(error) => {
            return Err(error);
        },
    };
    let code_index = match add_constant(pool, PoolItem::Utf8(Utf8("Code".to_owned()))) {
        Ok(index) => index,
        Err(error) => {
            return Err(error);
        },
    };
    let lowered = match lower_pseudo_instructions(code, &mut label_generator, pool) {
        Ok(lowered) => lowered,
        Err(error) => {
            return Err(error);
        },
    };
    if lowered.max_stack > 0xffff {
        return Err(CompileError::LimitExceeded);
    }
    let instructions = lowered.instructions;
    let bytecode = match compile_instructions(&instructions) {
        Ok(bytecode) => bytecode,
        Err(error) => {
            return Err(error);
        },
    };
    proof {
        lemma_encoding_length(instructions@, label_offsets(instructions@));
    }
    let code_attribute = CodeAttribute {
        name_index: code_index,
        max_stack: lowered.max_stack as u16,
        max_locals: lowered.max_locals as u16,
        code: bytecode,
        attributes: Vec::new(),
    };
    assert(attribute_views(code_attribute.attributes@) =~= Seq::<Attribute>::empty());
    let attribute = GenericAttribute::from_code(code_attribute);
    let mut attributes: Vec<GenericAttribute> = Vec::new();
    attributes.push(attribute);
    let record = InternalMethod { access_flags, name_index, descriptor_index, attributes };
    proof {
        assert(record@.attributes =~= seq![attribute@]);
        assert(attributes_bytes(Seq::<Attribute>::empty()) =~= Seq::<u8>::empty());
    }
    Ok(record)
}

/// What each record of a sequence holds.
spec fn record_views(records: Seq<InternalMethod>) -> Seq<MethodRecord> {
    records.map_values(|record: InternalMethod| record@)
}

/// Assembles the methods of a class: see `method_records`.
fn assemble_methods(pool: &mut ConstantPool, methods: Vec<Method>) -> (result: Result<
    Vec<InternalMethod>,
    CompileError,
>)
    requires
        old(pool).wf(),
    ensures
        final(pool).wf(),
        match result {
            Ok(records) => {
                &&& method_records(
                    old(pool)@,
                    methods@.map_values(|method: Method| method@),
                    methods@.len(),
                ) == Ok::<(Seq<Entry>, Seq<MethodRecord>), CompileError>(
                    (final(pool)@, record_views(records@)),
                )
                &&& records@.len() == methods@.len()
                &&& forall|i: int|
                    0 <= i < records@.len() ==> attributes_fit(
                        (#[trigger] record_views(records@)[i]).attributes,
                    )
            },
            Err(error) => method_records(
                old(pool)@,
                methods@.map_values(|method: Method| method@),
                methods@.len(),
            ) == Err::<(Seq<Entry>, Seq<MethodRecord>), CompileError>(error),
        },
{
    let ghost rooted = pool@;
    let ghost all = methods@;
    let ghost sources = methods@.map_values(|method: Method| method@);
    let mut records: Vec<InternalMethod> = Vec::new();
    assert(record_views(records@) =~= Seq::<MethodRecord>::empty());
    for method in iter: methods.into_iter()
        invariant
            iter.seq() == all,
            sources == all.map_values(|method: Method| method@),
            rooted == old(pool)@,
            pool.wf(),
            records@.len() == iter.index(),
            forall|i: int|
                0 <= i < records@.len() ==> attributes_fit(
                    (#[trigger] record_views(records@)[i]).attributes,
                ),
            method_records(rooted, sources, iter.index() as nat) == Ok::<
                (Seq<Entry>, Seq<MethodRecord>),
                CompileError,
            >((pool@, record_views(records@))),
    {
        let ghost before = records@;
        let ghost count = iter.index();
        assert(sources[count] == method@);
        match assemble_method(pool, method) {
            Ok(record) => {
                records.push(record);
                assert(record_views(records@) =~= record_views(before).push(record@));
            },
            Err(error) => {
                proof {
                    lemma_methods_error_stays(rooted, sources, count as nat + 1);
                }
                return Err(error);
            },
        }
    }
    Ok(records)
}

/// Assembles one class: see `assembled`.
fn assemble_class(class: Class) -> (result: Result<ClassFile, CompileError>)
    ensures
        match result {
            Ok(class_file) => class_file.wf() && assembled(class@) == Ok::<
                ClassImage,
                CompileError,
            >(class_file@),
            Err(error) => assembled(class@) == Err::<ClassImage, CompileError>(error),
        },
{
    let Class { name, access_flags, methods } = class;
    let mut constant_pool = ConstantPool::new();
    let this_class = match add_constant(
        &mut constant_pool,
        PoolItem::Class(ClassName(Utf8(name))),
    ) {
        Ok(index) => index,
        Err(error) => {
            return Err(error);
        },
    };
    let super_class = match add_constant(
        &mut constant_pool,
        PoolItem::Class(ClassName(Utf8("java/lang/Object".to_owned()))),
    ) {
        Ok(index) => index,
        Err(error) => {
            return Err(error);
        },
    };
    if methods.len() > MAX_COUNT {
        return Err(CompileError::LimitExceeded);
    }
    let records = match assemble_methods(&mut constant_pool, methods) {
        Ok(records) => records,
        Err(error) => {
            return Err(error);
        },
    };
    let class_file = ClassFile {
        magic: MAGIC,
        minor_version: 0,
        major_version: MAJOR_VERSION,
        constant_pool,
        access_flags,
        this_class,
        super_class,
        methods: records,
        attributes: Vec::new(),
    };
    proof {
        assert(class_file@.methods =~= record_views(records@));
        assert(class_file@.attributes =~= Seq::<Attribute>::empty());
    }
    Ok(class_file)
}

/// Assembles each class into a class file. The first class that cannot be
/// assembled ends the assembly with its error.
pub fn compile(classes: Vec<Class>) -> (result: Result<Vec<ClassFile>, CompileError>)
    ensures
        match result {
            Ok(class_files) => assembled_all(class_views(classes@), classes@.len()) == Ok::<
                Seq<ClassImage>,
                CompileError,
            >(images(class_files@)) && forall|i: int|
                0 <= i < class_files@.len() ==> (#[trigger] class_files@[i]).wf(),
            Err(error) => assembled_all(class_views(classes@), classes@.len()) == Err::<
                Seq<ClassImage>,
                CompileError,
            >(error),
        },
{
    let ghost all = classes@;
    let ghost sources = class_views(classes@);
    let mut class_files: Vec<ClassFile> = Vec::new();
    assert(images(class_files@) =~= Seq::<ClassImage>::empty());
    for class in iter: classes.into_iter()
        invariant
            iter.seq() == all,
            sources == class_views(all),
            forall|i: int| 0 <= i < class_files@.len() ==> (#[trigger] class_files@[i]).wf(),
            assembled_all(sources, iter.index() as nat) == Ok::<Seq<ClassImage>, CompileError>(
                images(class_files@),
            ),
    {
        let ghost before = class_files@;
        let ghost count = iter.index();
        assert(sources[count] == class@);
        match assemble_class(class) {
            Ok(class_file) => {
                class_files.push(class_file);
                assert(images(class_files@) =~= images(before).push(class_file@));
            },
            Err(error) => {
                proof {
                    lemma_classes_error_stays(sources, count as nat + 1);
                }
                return Err(error);
            },
        }
    }
    Ok(class_files)
}

} // verus!
