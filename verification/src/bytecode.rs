//! Concrete instructions and their encoding.
//!
//! Encoding takes two passes. The first finds the byte offset of every
//! label marker. The second writes each instruction's opcode and operand;
//! a branch is written with the distance from itself to its target.

use crate::big_endian::{i16_be, u16_be, write_i16, write_u16};
use crate::errors::CompileError;
use std::collections::HashMap;
use vstd::prelude::*;

verus! {

broadcast use vstd::std_specs::hash::group_hash_axioms;

/// A symbolic jump target. It is resolved to a byte offset when the
/// instructions that mention it are encoded.
pub type Label = u64;

/// An index into the constant pool that fits in one byte.
pub type PoolIndex = u8;

/// An index into the constant pool.
pub type WidePoolIndex = u16;

/// The largest number of bytes in the code of one method that a class
/// loader accepts.
pub const MAX_CODE_LENGTH: usize = 65535;

/// An instruction with its operands resolved to numbers, or a label marker.
#[derive(Debug, Copy, Clone, PartialEq, Eq, Structural)]
pub enum Instruction {
    /// Marks the place that `Label` names. It takes no room in the code.
    Label(Label),
    Goto(Label),
    Bipush(u8),
    /// Loads the constant with the given index; encoded in the narrow form
    /// where the index fits in one byte, in the wide form otherwise.
    Ldc(WidePoolIndex),
    Istore(PoolIndex),
    Astore(PoolIndex),
    Iadd,
    Iload(PoolIndex),
    Aload(PoolIndex),
    GetStatic(WidePoolIndex),
    IfIcmpeq(Label),
    IfIcmpne(Label),
    Ifne(Label),
    Ifeq(Label),
    InvokeVirtual(WidePoolIndex),
    Return,
}

/// The instructions of the smallest method body: it pushes a byte, stores
/// it and returns.
#[derive(Debug, Copy, Clone, PartialEq, Eq, Structural)]
pub enum Bytecode {
    Bipush(u8),
    Istore(u8),
    Return,
}

impl Bytecode {
    /// The instruction of the full repertoire that this one is.
    pub open spec fn instruction(self) -> Instruction {
        match self {
            Bytecode::Bipush(byte) => Instruction::Bipush(byte),
            Bytecode::Istore(slot) => Instruction::Istore(slot),
            Bytecode::Return => Instruction::Return,
        }
    }

    /// The opcode of the instruction.
    pub open spec fn opcode(self) -> u8 {
        match self {
            Bytecode::Bipush(_) => 16,
            Bytecode::Istore(_) => 54,
            Bytecode::Return => 177,
        }
    }

    /// The opcode of the instruction: the first byte of its encoding in the
    /// full repertoire.
    pub fn to_machine_code(&self) -> (opcode: u8)
        ensures
            opcode == self.opcode(),
            encode_form(self.instruction().form(), 0, Map::empty()) is Ok,
            opcode == encode_form(self.instruction().form(), 0, Map::empty()).unwrap()[0],
    {
        match self {
            Bytecode::Bipush(_) => 16,
            Bytecode::Istore(_) => 54,
            Bytecode::Return => 177,
        }
    }
}

/// How an instruction is laid out in the code: its opcode and the kind of
/// operand that follows.
#[derive(Debug, Copy, Clone, PartialEq, Eq, Structural)]
pub enum Form {
    /// A label marker: no bytes.
    Marker(Label),
    /// The opcode alone.
    Bare(u8),
    /// The opcode and one byte.
    WithByte(u8, u8),
    /// The opcode and a 16-bit index, big-endian.
    WithIndex(u8, u16),
    /// The opcode and the signed 16-bit distance to the label, big-endian.
    Branch(u8, Label),
}

impl Form {
    /// The number of bytes of an instruction of this form.
    pub open spec fn len(self) -> nat {
        match self {
            Form::Marker(_) => 0,
            Form::Bare(_) => 1,
            Form::WithByte(_, _) => 2,
            Form::WithIndex(_, _) => 3,
            Form::Branch(_, _) => 3,
        }
    }
}

/// The low byte of an index that fits in one byte.
pub open spec fn narrow(index: u16) -> u8 {
    index as u8
}

/// Computes `narrow`.
fn get_narrow(index: u16) -> (byte: u8)
    requires
        index <= 0xff,
    ensures
        byte == narrow(index),
{
    index as u8
}

impl Instruction {
    /// The opcode and operand of this instruction.
    pub open spec fn form(self) -> Form {
        match self {
            Instruction::Label(label) => Form::Marker(label),
            Instruction::Goto(label) => Form::Branch(167, label),
            Instruction::Bipush(byte) => Form::WithByte(16, byte),
            Instruction::Ldc(index) => if index <= 0xff {
                Form::WithByte(18, narrow(index))
            } else {
                Form::WithIndex(19, index)
            },
            Instruction::Istore(slot) => Form::WithByte(54, slot),
            Instruction::Astore(slot) => Form::WithByte(58, slot),
            Instruction::Iadd => Form::Bare(96),
            Instruction::Iload(slot) => Form::WithByte(21, slot),
            Instruction::Aload(slot) => Form::WithByte(25, slot),
            Instruction::GetStatic(index) => Form::WithIndex(178, index),
            Instruction::IfIcmpeq(label) => Form::Branch(159, label),
            Instruction::IfIcmpne(label) => Form::Branch(160, label),
            Instruction::Ifne(label) => Form::Branch(154, label),
            Instruction::Ifeq(label) => Form::Branch(153, label),
            Instruction::InvokeVirtual(index) => Form::WithIndex(182, index),
            Instruction::Return => Form::Bare(177),
        }
    }

    /// Computes `form`.
    pub fn get_form(&self) -> (form: Form)
        ensures
            form == self.form(),
    {
        match self {
            Instruction::Label(label) => Form::Marker(*label),
            Instruction::Goto(label) => Form::Branch(167, *label),
            Instruction::Bipush(byte) => Form::WithByte(16, *byte),
            Instruction::Ldc(index) => if *index <= 0xff {
                Form::WithByte(18, get_narrow(*index))
            } else {
                Form::WithIndex(19, *index)
            },
            Instruction::Istore(slot) => Form::WithByte(54, *slot),
            Instruction::Astore(slot) => Form::WithByte(58, *slot),
            Instruction::Iadd => Form::Bare(96),
            Instruction::Iload(slot) => Form::WithByte(21, *slot),
            Instruction::Aload(slot) => Form::WithByte(25, *slot),
            Instruction::GetStatic(index) => Form::WithIndex(178, *index),
            Instruction::IfIcmpeq(label) => Form::Branch(159, *label),
            Instruction::IfIcmpne(label) => Form::Branch(160, *label),
            Instruction::Ifne(label) => Form::Branch(154, *label),
            Instruction::Ifeq(label) => Form::Branch(153, *label),
            Instruction::InvokeVirtual(index) => Form::WithIndex(182, *index),
            Instruction::Return => Form::Bare(177),
        }
    }

    /// The number of bytes that this instruction takes in the code: none for
    /// a marker, one for the opcode, and one or two for the operand.
    pub fn len(&self) -> (length: usize)
        ensures
            length == self.form().len(),
    {
        match self {
            Instruction::Label(_) => 0,
            Instruction::Goto(_) => 3,
            Instruction::Bipush(_) => 2,
            Instruction::Istore(_) => 2,
            Instruction::Astore(_) => 2,
            Instruction::Ldc(index) => if *index <= 0xff {
                2
            } else {
                3
            },
            Instruction::Iadd => 1,
            Instruction::Iload(_) => 2,
            Instruction::Aload(_) => 2,
            Instruction::GetStatic(_) => 3,
            Instruction::IfIcmpeq(_) => 3,
            Instruction::IfIcmpne(_) => 3,
            Instruction::Ifeq(_) => 3,
            Instruction::Ifne(_) => 3,
            Instruction::InvokeVirtual(_) => 3,
            Instruction::Return => 1,
        }
    }
}

/// The number of bytes that `code` takes.
pub open spec fn code_len(code: Seq<Instruction>) -> nat
    decreases code.len(),
{
    if code.len() == 0 {
        0
    } else {
        code_len(code.drop_last()) + code.last().form().len()
    }
}

/// The byte offset that each label stands for: that of its marker, and of
/// the last one where a label is marked more than once.
pub open spec fn label_offsets(code: Seq<Instruction>) -> Map<Label, nat>
    decreases code.len(),
{
    if code.len() == 0 {
        Map::empty()
    } else {
        let before = label_offsets(code.drop_last());
        match code.last().form() {
            Form::Marker(label) => before.insert(label, code_len(code.drop_last())),
            _ => before,
        }
    }
}

/// The bytes of one instruction that stands at byte offset `here`. A branch
/// to a label without an offset cannot be resolved; one whose distance is
/// not a signed 16-bit number cannot be written.
pub open spec fn encode_form(form: Form, here: nat, offsets: Map<Label, nat>) -> Result<
    Seq<u8>,
    CompileError,
> {
    match form {
        Form::Marker(_) => Ok(Seq::empty()),
        Form::Bare(opcode) => Ok(seq![opcode]),
        Form::WithByte(opcode, byte) => Ok(seq![opcode, byte]),
        Form::WithIndex(opcode, index) => Ok(seq![opcode] + u16_be(index)),
        Form::Branch(opcode, label) => if !offsets.contains_key(label) {
            Err(CompileError::UnresolvedReference)
        } else if !(i16::MIN <= offsets[label] - here <= i16::MAX) {
            Err(CompileError::LimitExceeded)
        } else {
            Ok(seq![opcode] + i16_be((offsets[label] - here) as i16))
        },
    }
}

/// The bytes of `code` with its labels at the given offsets, or the error of
/// the first instruction that cannot be written.
pub open spec fn encode_with(code: Seq<Instruction>, offsets: Map<Label, nat>) -> Result<
    Seq<u8>,
    CompileError,
>
    decreases code.len(),
{
    if code.len() == 0 {
        Ok(Seq::empty())
    } else {
        match encode_with(code.drop_last(), offsets) {
            Err(error) => Err(error),
            Ok(bytes) => match encode_form(
                code.last().form(),
                code_len(code.drop_last()),
                offsets,
            ) {
                Err(error) => Err(error),
                Ok(more) => Ok(bytes + more),
            },
        }
    }
}

/// The bytes of `code`: too long a code is refused, then every instruction
/// is written with the labels at the offsets of their markers.
pub open spec fn encode(code: Seq<Instruction>) -> Result<Seq<u8>, CompileError> {
    if code_len(code) > MAX_CODE_LENGTH {
        Err(CompileError::LimitExceeded)
    } else {
        encode_with(code, label_offsets(code))
    }
}

/// Whether a table of offsets holds exactly the given offsets.
pub open spec fn agrees(table: Map<Label, usize>, offsets: Map<Label, nat>) -> bool {
    &&& forall|label: Label| table.contains_key(label) <==> offsets.contains_key(label)
    &&& forall|label: Label| #[trigger]
        table.contains_key(label) ==> table[label] == offsets[label]
}

/// The first pass: the byte offset of every label marker. Code of more than
/// `MAX_CODE_LENGTH` bytes is refused.
pub fn scan_for_labels(code: &Vec<Instruction>) -> (result: Result<
    HashMap<Label, usize>,
    CompileError,
>)
    ensures
        match result {
            Ok(labels) => code_len(code@) <= MAX_CODE_LENGTH && agrees(
                labels@,
                label_offsets(code@),
            ),
            Err(error) => code_len(code@) > MAX_CODE_LENGTH && error
                == CompileError::LimitExceeded,
        },
{
    let mut labels: HashMap<Label, usize> = HashMap::new();
    let mut i: usize = 0;
    let mut k: usize = 0;
    assert(code@.take(0) =~= Seq::<Instruction>::empty());
    while k < code.len()
        invariant
            k <= code.len(),
            i == code_len(code@.take(k as int)),
            i <= MAX_CODE_LENGTH,
            agrees(labels@, label_offsets(code@.take(k as int))),
        decreases code.len() - k,
    {
        proof {
            assert(code@.take(k as int + 1).drop_last() =~= code@.take(k as int));
            assert(code@.take(k as int + 1).last() == code@[k as int]);
        }
        match code[k].get_form() {
            Form::Marker(label) => {
                labels.insert(label, i);
            },
            _ => {
                let length = code[k].len();
                if i > MAX_CODE_LENGTH - length {
                    proof {
                        lemma_code_len_grows(code@, k as int + 1);
                    }
                    return Err(CompileError::LimitExceeded);
                }
                i += length;
            },
        }
        k += 1;
    }
    assert(code@.take(k as int) =~= code@);
    Ok(labels)
}

/// The code up to some instruction is no longer than the whole.
pub proof fn lemma_code_len_grows(code: Seq<Instruction>, count: int)
    requires
        0 <= count <= code.len(),
    ensures
        code_len(code.take(count)) <= code_len(code),
    decreases code.len(),
{
    if count == code.len() {
        assert(code.take(count) =~= code);
    } else {
        assert(code.drop_last().take(count) =~= code.take(count));
        lemma_code_len_grows(code.drop_last(), count);
    }
}

/// Encodes `code`: the opcode of each instruction, then its operand, with
/// every branch resolved to the signed distance from the branch to the
/// marker of its label.
pub fn compile_instructions(code: &Vec<Instruction>) -> (result: Result<Vec<u8>, CompileError>)
    ensures
        match result {
            Ok(bytecode) => encode(code@) == Ok::<Seq<u8>, CompileError>(bytecode@),
            Err(error) => encode(code@) == Err::<Seq<u8>, CompileError>(error),
        },
{
    let labels = match scan_for_labels(code) {
        Ok(labels) => labels,
        Err(error) => {
            return Err(error);
        },
    };
    let ghost offsets = label_offsets(code@);
    let mut bytecode: Vec<u8> = Vec::new();
    let mut i: usize = 0;
    let mut k: usize = 0;
    assert(code@.take(0) =~= Seq::<Instruction>::empty());
    while k < code.len()
        invariant
            k <= code.len(),
            offsets == label_offsets(code@),
            agrees(labels@, offsets),
            code_len(code@) <= MAX_CODE_LENGTH,
            i == code_len(code@.take(k as int)),
            encode_with(code@.take(k as int), offsets) == Ok::<Seq<u8>, CompileError>(bytecode@),
        decreases code.len() - k,
    {
        proof {
            assert(code@.take(k as int + 1).drop_last() =~= code@.take(k as int));
            assert(code@.take(k as int + 1).last() == code@[k as int]);
            lemma_code_len_grows(code@, k as int + 1);
        }
        proof {
            lemma_offsets_within(code@);
        }
        match encode_instruction(&mut bytecode, code[k].get_form(), i, &labels, Ghost(offsets)) {
            Ok(()) => {},
            Err(error) => {
                proof {
                    lemma_error_stays(code@, offsets, k as int + 1);
                }
                return Err(error);
            },
        }
        i += code[k].len();
        k += 1;
    }
    assert(code@.take(k as int) =~= code@);
    Ok(bytecode)
}

/// Appends the bytes of one instruction that stands at byte offset `here`.
fn encode_instruction(
    bytecode: &mut Vec<u8>,
    form: Form,
    here: usize,
    labels: &HashMap<Label, usize>,
    Ghost(offsets): Ghost<Map<Label, nat>>,
) -> (result: Result<(), CompileError>)
    requires
        agrees(labels@, offsets),
        here <= MAX_CODE_LENGTH,
        forall|label: Label| offsets.contains_key(label) ==> offsets[label] <= MAX_CODE_LENGTH,
    ensures
        match result {
            Ok(()) => encode_form(form, here as nat, offsets) is Ok && final(bytecode)@ == old(
                bytecode,
            )@ + encode_form(form, here as nat, offsets).unwrap(),
            Err(error) => encode_form(form, here as nat, offsets) == Err::<
                Seq<u8>,
                CompileError,
            >(error),
        },
{
    let ghost before = bytecode@;
    match form {
        Form::Marker(_) => {},
        Form::Bare(opcode) => {
            bytecode.push(opcode);
        },
        Form::WithByte(opcode, byte) => {
            bytecode.push(opcode);
            bytecode.push(byte);
        },
        Form::WithIndex(opcode, index) => {
            bytecode.push(opcode);
            write_u16(bytecode, index);
        },
        Form::Branch(opcode, label) => {
            let target = match labels.get(&label) {
                Some(target) => *target,
                None => {
                    return Err(CompileError::UnresolvedReference);
                },
            };
            let distance: i64 = target as i64 - here as i64;
            if distance < i16::MIN as i64 || distance > i16::MAX as i64 {
                return Err(CompileError::LimitExceeded);
            }
            bytecode.push(opcode);
            write_i16(bytecode, distance as i16);
        },
    }
    proof {
        let added = encode_form(form, here as nat, offsets).unwrap();
        assert(bytecode@ =~= before + added);
    }
    Ok(())
}

/// Once an instruction cannot be written, the code cannot be.
pub proof fn lemma_error_stays(code: Seq<Instruction>, offsets: Map<Label, nat>, count: int)
    requires
        0 <= count <= code.len(),
        encode_with(code.take(count), offsets) is Err,
    ensures
        encode_with(code, offsets) == encode_with(code.take(count), offsets),
    decreases code.len(),
{
    if count == code.len() {
        assert(code.take(count) =~= code);
    } else {
        assert(code.drop_last().take(count) =~= code.take(count));
        lemma_error_stays(code.drop_last(), offsets, count);
    }
}

/// Every label's offset lies within the code.
pub proof fn lemma_offsets_within(code: Seq<Instruction>)
    ensures
        forall|label: Label| #[trigger]
            label_offsets(code).contains_key(label) ==> label_offsets(code)[label] <= code_len(
                code,
            ),
    decreases code.len(),
{
    if code.len() > 0 {
        let before = code.drop_last();
        lemma_offsets_within(before);
        assert forall|label: Label| #[trigger]
            label_offsets(code).contains_key(label) implies label_offsets(code)[label]
            <= code_len(code) by {
            if label_offsets(before).contains_key(label) {
                assert(label_offsets(before)[label] <= code_len(before));
            }
        }
    }
}

} // verus!
