//! Pseudo-instructions and their lowering.
//!
//! A pseudo-instruction names variables, fields and methods and leaves the
//! choice of opcode open. Lowering walks a sequence of them with a
//! simulation of the operand stack's types, a table of local slots, the
//! constant pool and a source of labels, and emits concrete instructions.

use crate::bytecode::{Instruction, Label};
use crate::constant_pool::{fits, intern, Constant, ConstantPool, Entry, PoolItem};
use crate::constant_pool::{Class, FieldRef, JString, MethodRef, NameAndType, Utf8};
use crate::descriptor::{count_parameters, field_type, parameter_count, type_of_field};
use crate::errors::CompileError;
use crate::jvm_type::{Category, JvmType, Literal, PushLiteral};
use crate::label_generator::LabelGenerator;
use crate::variable_stack::VariableStack;
use vstd::prelude::*;
use vstd::utf8::encode_utf8;

verus! {

/// An operation on the operand stack, on a named variable or on a label.
#[derive(Debug, PartialEq, Eq)]
pub enum PseudoInstruction {
    Label(Label),
    Goto(Label),
    Push(PushLiteral),
    Load(String),
    /// Stores the top of the stack in the named variable; the flag says
    /// whether this declares the variable.
    Store(String, bool),
    Drop(String),
    Add,
    CompareEqual,
    CompareNotEqual,
    BranchIfFalse(Label),
    BranchIfTrue(Label),
    GetStaticField { class: String, field: String, field_type: String },
    InvokeVirtual { class: String, method: String, descriptor: String },
    Return,
}

/// What a `PseudoInstruction` stands for: the same operation, with names as
/// the text they hold.
pub enum PseudoOp {
    Label(Label),
    Goto(Label),
    Push(Literal),
    Load(Seq<char>),
    Store(Seq<char>, bool),
    Drop(Seq<char>),
    Add,
    CompareEqual,
    CompareNotEqual,
    BranchIfFalse(Label),
    BranchIfTrue(Label),
    GetStaticField { class: Seq<char>, field: Seq<char>, field_type: Seq<char> },
    InvokeVirtual { class: Seq<char>, method: Seq<char>, descriptor: Seq<char> },
    Return,
}

impl View for PseudoInstruction {
    type V = PseudoOp;

    open spec fn view(&self) -> PseudoOp {
        match self {
            PseudoInstruction::Label(label) => PseudoOp::Label(*label),
            PseudoInstruction::Goto(label) => PseudoOp::Goto(*label),
            PseudoInstruction::Push(literal) => PseudoOp::Push(literal@),
            PseudoInstruction::Load(name) => PseudoOp::Load(name@),
            PseudoInstruction::Store(name, declare) => PseudoOp::Store(name@, *declare),
            PseudoInstruction::Drop(name) => PseudoOp::Drop(name@),
            PseudoInstruction::Add => PseudoOp::Add,
            PseudoInstruction::CompareEqual => PseudoOp::CompareEqual,
            PseudoInstruction::CompareNotEqual => PseudoOp::CompareNotEqual,
            PseudoInstruction::BranchIfFalse(label) => PseudoOp::BranchIfFalse(*label),
            PseudoInstruction::BranchIfTrue(label) => PseudoOp::BranchIfTrue(*label),
            PseudoInstruction::GetStaticField { class, field, field_type } => {
                PseudoOp::GetStaticField { class: class@, field: field@, field_type: field_type@ }
            },
            PseudoInstruction::InvokeVirtual { class, method, descriptor } => {
                PseudoOp::InvokeVirtual {
                    class: class@,
                    method: method@,
                    descriptor: descriptor@,
                }
            },
            PseudoInstruction::Return => PseudoOp::Return,
        }
    }
}

/// What each pseudo-instruction of a sequence stands for.
pub open spec fn views(code: Seq<PseudoInstruction>) -> Seq<PseudoOp> {
    code.map_values(|instruction: PseudoInstruction| instruction@)
}

/// What lowering knows between two pseudo-instructions.
#[verifier::ext_equal]
pub struct LoweringState {
    /// The entries of the constant pool.
    pub pool: Seq<Entry>,
    /// The next label that is free.
    pub next_label: nat,
    /// The slot and type of each variable in scope.
    pub variables: Map<Seq<char>, (u8, JvmType)>,
    /// The next local slot that is free.
    pub next_slot: nat,
    /// The types on the operand stack, the top last.
    pub operands: Seq<JvmType>,
    /// The greatest depth that the operand stack had behind any step so far.
    pub deepest: nat,
}

/// The state in which lowering starts: no variable, an empty operand stack.
pub open spec fn start(pool: Seq<Entry>, next_label: nat) -> LoweringState {
    LoweringState {
        pool,
        next_label,
        variables: Map::empty(),
        next_slot: 0,
        operands: Seq::empty(),
        deepest: 0,
    }
}

/// The operand stack without its top `count` types, or empty where it holds
/// fewer.
pub open spec fn popped(operands: Seq<JvmType>, count: nat) -> Seq<JvmType> {
    if count >= operands.len() {
        Seq::empty()
    } else {
        operands.take(operands.len() - count)
    }
}

/// The six instructions that leave 1 on the stack if a comparison of two
/// integers holds and 0 if not. The first branches to `false_label` where
/// the comparison fails; `equal` says whether equality is asked for.
pub open spec fn comparison(equal: bool, false_label: Label, out_label: Label) -> Seq<
    Instruction,
> {
    seq![
        if equal {
            Instruction::IfIcmpne(false_label)
        } else {
            Instruction::IfIcmpeq(false_label)
        },
        Instruction::Bipush(1),
        Instruction::Goto(out_label),
        Instruction::Label(false_label),
        Instruction::Bipush(0),
        Instruction::Label(out_label),
    ]
}

/// A step that adds `constant` to the pool and gives the instruction for
/// its index. It fails where the constant does not fit in the pool.
pub open spec fn step_constant(
    state: LoweringState,
    constant: Constant,
    operands: Seq<JvmType>,
    instruction: spec_fn(u16) -> Instruction,
) -> Result<(LoweringState, Seq<Instruction>), CompileError> {
    if !fits(state.pool, constant) {
        Err(CompileError::LimitExceeded)
    } else {
        let (pool, index) = intern(state.pool, constant);
        Ok((LoweringState { pool, operands, ..state }, seq![instruction(index as u16)]))
    }
}

/// Pushing a literal. Booleans and bytes are pushed as they are; integers
/// and strings are loaded from the pool; the other literals have no rule.
pub open spec fn step_push(state: LoweringState, literal: Literal) -> Result<
    (LoweringState, Seq<Instruction>),
    CompileError,
> {
    match literal {
        Literal::Boolean(value) => Ok(
            (
                LoweringState { operands: state.operands.push(JvmType::Boolean), ..state },
                seq![
                    Instruction::Bipush(
                        if value {
                            1
                        } else {
                            0
                        },
                    ),
                ],
            ),
        ),
        Literal::Byte(value) => Ok(
            (
                LoweringState { operands: state.operands.push(JvmType::Byte), ..state },
                seq![Instruction::Bipush(value)],
            ),
        ),
        Literal::Int(value) => step_constant(
            state,
            Constant::Integer(value),
            state.operands.push(JvmType::Int),
            |index: u16| Instruction::Ldc(index),
        ),
        Literal::String(text) => step_constant(
            state,
            Constant::String(text),
            state.operands.push(JvmType::Reference),
            |index: u16| Instruction::Ldc(index),
        ),
        _ => Err(CompileError::UnsupportedConstruct),
    }
}

/// Loading a variable: its type is pushed, and the load form is chosen by
/// the type's category. The variable must be in scope.
pub open spec fn step_load(state: LoweringState, name: Seq<char>) -> Result<
    (LoweringState, Seq<Instruction>),
    CompileError,
> {
    if !state.variables.contains_key(name) {
        Err(CompileError::UnresolvedReference)
    } else {
        let (slot, jvm_type) = state.variables[name];
        let next = LoweringState { operands: state.operands.push(jvm_type), ..state };
        match jvm_type.category() {
            Category::Integral => Ok((next, seq![Instruction::Iload(slot)])),
            Category::Reference => Ok((next, seq![Instruction::Aload(slot)])),
            Category::Unsupported => Err(CompileError::UnsupportedConstruct),
        }
    }
}

/// Storing the top of the stack: its type is popped, a declaration takes
/// the next free slot and an assignment the variable's own, and the store
/// form is chosen by the popped type's category.
pub open spec fn step_store(state: LoweringState, name: Seq<char>, declare: bool) -> Result<
    (LoweringState, Seq<Instruction>),
    CompileError,
> {
    if state.operands.len() == 0 {
        Err(CompileError::TypeMismatch)
    } else if !declare && !state.variables.contains_key(name) {
        Err(CompileError::UnresolvedReference)
    } else if declare && state.next_slot >= u8::MAX {
        Err(CompileError::LimitExceeded)
    } else {
        let jvm_type = state.operands.last();
        let slot = if declare {
            state.next_slot as u8
        } else {
            state.variables[name].0
        };
        let next = LoweringState {
            operands: state.operands.drop_last(),
            variables: if declare {
                state.variables.insert(name, (slot, jvm_type))
            } else {
                state.variables
            },
            next_slot: if declare {
                state.next_slot + 1
            } else {
                state.next_slot
            },
            ..state
        };
        match jvm_type.category() {
            Category::Integral => Ok((next, seq![Instruction::Istore(slot)])),
            Category::Reference => Ok((next, seq![Instruction::Astore(slot)])),
            Category::Unsupported => Err(CompileError::UnsupportedConstruct),
        }
    }
}

/// Whether the two types on top of the stack are both `Int`.
pub open spec fn two_ints(operands: Seq<JvmType>) -> bool {
    &&& operands.len() >= 2
    &&& operands[operands.len() - 1] == JvmType::Int
    &&& operands[operands.len() - 2] == JvmType::Int
}

/// Adding: two `Int`s are popped and one is pushed.
pub open spec fn step_add(state: LoweringState) -> Result<
    (LoweringState, Seq<Instruction>),
    CompileError,
> {
    if !two_ints(state.operands) {
        Err(CompileError::TypeMismatch)
    } else {
        Ok(
            (
                LoweringState {
                    operands: popped(state.operands, 2).push(JvmType::Int),
                    ..state
                },
                seq![Instruction::Iadd],
            ),
        )
    }
}

/// Comparing: two `Int`s are popped, the result is pushed as an `Int`, and
/// two fresh labels serve the six instructions of `comparison`.
pub open spec fn step_compare(state: LoweringState, equal: bool) -> Result<
    (LoweringState, Seq<Instruction>),
    CompileError,
> {
    if !two_ints(state.operands) {
        Err(CompileError::TypeMismatch)
    } else if state.next_label + 2 > u64::MAX {
        Err(CompileError::LimitExceeded)
    } else {
        Ok(
            (
                LoweringState {
                    operands: popped(state.operands, 2).push(JvmType::Int),
                    next_label: state.next_label + 2,
                    ..state
                },
                comparison(equal, state.next_label as u64, (state.next_label + 1) as u64),
            ),
        )
    }
}

/// What one pseudo-instruction does to the pool, the labels, the slots and
/// the operand stack, and what it emits.
///
/// Fetching a field puts a value of the field's type on the stack. An
/// invocation takes the receiver and one value for each parameter of the
/// descriptor off it, or all where the stack holds fewer; what the method
/// hands back is not put on it, and the one method that is called hands
/// nothing back.
#[verifier::opaque]
pub open spec fn effect(state: LoweringState, instruction: PseudoOp) -> Result<
    (LoweringState, Seq<Instruction>),
    CompileError,
> {
    match instruction {
        PseudoOp::Label(label) => Ok((state, seq![Instruction::Label(label)])),
        PseudoOp::Goto(label) => Ok((state, seq![Instruction::Goto(label)])),
        PseudoOp::Push(literal) => step_push(state, literal),
        PseudoOp::Load(name) => step_load(state, name),
        PseudoOp::Store(name, declare) => step_store(state, name, declare),
        PseudoOp::Drop(name) => Ok(
            (LoweringState { variables: state.variables.remove(name), ..state }, Seq::empty()),
        ),
        PseudoOp::Add => step_add(state),
        PseudoOp::CompareEqual => step_compare(state, true),
        PseudoOp::CompareNotEqual => step_compare(state, false),
        PseudoOp::BranchIfFalse(label) => Ok(
            (
                LoweringState { operands: popped(state.operands, 1), ..state },
                seq![Instruction::Ifeq(label)],
            ),
        ),
        PseudoOp::BranchIfTrue(label) => Ok(
            (
                LoweringState { operands: popped(state.operands, 1), ..state },
                seq![Instruction::Ifne(label)],
            ),
        ),
        PseudoOp::GetStaticField { class, field, field_type: descriptor } => match field_type(
            encode_utf8(descriptor),
        ) {
            None => Err(CompileError::UnsupportedConstruct),
            Some(jvm_type) => step_constant(
                state,
                Constant::FieldRef(class, field, descriptor),
                state.operands.push(jvm_type),
                |index: u16| Instruction::GetStatic(index),
            ),
        },
        PseudoOp::InvokeVirtual { class, method, descriptor } => step_constant(
            state,
            Constant::MethodRef(class, method, descriptor),
            popped(state.operands, 1 + parameter_count(encode_utf8(descriptor))),
            |index: u16| Instruction::InvokeVirtual(index),
        ),
        PseudoOp::Return => Ok((state, seq![Instruction::Return])),
    }
}

/// `outcome` with the depth of the operand stack behind the step taken into
/// the greatest depth so far.
pub open spec fn noted(outcome: Result<(LoweringState, Seq<Instruction>), CompileError>) -> Result<
    (LoweringState, Seq<Instruction>),
    CompileError,
> {
    match outcome {
        Err(error) => Err(error),
        Ok((next, emitted)) => Ok(
            (
                LoweringState {
                    deepest: if next.operands.len() > next.deepest {
                        next.operands.len()
                    } else {
                        next.deepest
                    },
                    ..next
                },
                emitted,
            ),
        ),
    }
}

/// What one pseudo-instruction does to the state, and what it emits: its
/// `effect`, and the greatest depth of the operand stack brought up to date.
pub open spec fn step(state: LoweringState, instruction: PseudoOp) -> Result<
    (LoweringState, Seq<Instruction>),
    CompileError,
> {
    noted(effect(state, instruction))
}

/// What a sequence of pseudo-instructions does to the state, and what it
/// emits: the steps in order, up to the first that fails. Behind them
/// `deepest` is the greatest depth that the operand stack had, and
/// `next_slot` the number of slots handed out.
///
/// The operand stack follows the pseudo-instructions in the order in which
/// they are written. A branch and the marker of its label are steps like
/// any other: that the stack has the same shape on every way by which a
/// marker is reached, as at the end of the two arms of a condition, is not
/// checked here and not relied on. It is for the producer of the
/// pseudo-instructions to see to it.
pub open spec fn lower(code: Seq<PseudoOp>, state: LoweringState) -> Result<
    (LoweringState, Seq<Instruction>),
    CompileError,
>
    decreases code.len(),
{
    if code.len() == 0 {
        Ok((state, Seq::empty()))
    } else {
        match lower(code.drop_last(), state) {
            Err(error) => Err(error),
            Ok((reached, emitted)) => match step(reached, code.last()) {
                Err(error) => Err(error),
                Ok((next, more)) => Ok((next, emitted + more)),
            },
        }
    }
}

/// Whether a step that returned `result` and left the state `after` and the
/// instructions `now` did what `outcome` asks for.
spec fn follows(
    outcome: Result<(LoweringState, Seq<Instruction>), CompileError>,
    result: Result<(), CompileError>,
    after: LoweringState,
    before: Seq<Instruction>,
    now: Seq<Instruction>,
) -> bool {
    match result {
        Ok(()) => outcome is Ok && outcome.unwrap().0 == after && now == before
            + outcome.unwrap().1,
        Err(error) => outcome == Err::<(LoweringState, Seq<Instruction>), CompileError>(error),
    }
}

/// Adds `item` to the pool, or reports that it does not fit.
pub(crate) fn add_constant(pool: &mut ConstantPool, item: PoolItem) -> (result: Result<u16, CompileError>)
    requires
        old(pool).wf(),
    ensures
        final(pool).wf(),
        match result {
            Ok(index) => fits(old(pool)@, item@) && (final(pool)@, index as int) == intern(
                old(pool)@,
                item@,
            ),
            Err(error) => !fits(old(pool)@, item@) && error == CompileError::LimitExceeded,
        },
{
    match pool.try_add_item(item) {
        Some(index) => Ok(index),
        None => Err(CompileError::LimitExceeded),
    }
}

/// Pops `count` types, or all where the stack holds fewer.
fn pop_operands(operands: &mut Vec<JvmType>, count: usize)
    ensures
        final(operands)@ == popped(old(operands)@, count as nat),
{
    if count >= operands.len() {
        operands.truncate(0);
        assert(operands@ =~= Seq::<JvmType>::empty());
    } else {
        let keep = operands.len() - count;
        operands.truncate(keep);
        assert(operands@ =~= old(operands)@.take(keep as int));
    }
}

/// Whether the two types on top of the stack are both `Int`.
fn has_two_ints(operands: &Vec<JvmType>) -> (both: bool)
    ensures
        both == two_ints(operands@),
{
    let depth = operands.len();
    depth >= 2 && operands[depth - 1] == JvmType::Int && operands[depth - 2] == JvmType::Int
}

/// The instructions emitted so far, with the slots, the operand stack and
/// its greatest depth so far.
struct Lowering {
    instructions: Vec<Instruction>,
    variables: VariableStack,
    operands: Vec<JvmType>,
    deepest: usize,
}

impl Lowering {
    /// The state that the fields, the labels and the pool stand for.
    spec fn state(&self, labels: &LabelGenerator, pool: &ConstantPool) -> LoweringState {
        LoweringState {
            pool: pool@,
            next_label: labels.next(),
            variables: self.variables@,
            next_slot: self.variables.next_index(),
            operands: self.operands@,
            deepest: self.deepest as nat,
        }
    }

    /// Appends one instruction.
    fn emit(&mut self, instruction: Instruction)
        ensures
            final(self).instructions@ == old(self).instructions@ + seq![instruction],
            final(self).variables == old(self).variables,
            final(self).operands == old(self).operands,
            final(self).deepest == old(self).deepest,
    {
        self.instructions.push(instruction);
        assert(self.instructions@ =~= old(self).instructions@ + seq![instruction]);
    }

    /// Appends the six instructions of a comparison.
    fn emit_comparison(&mut self, equal: bool, false_label: Label, out_label: Label)
        ensures
            final(self).instructions@ == old(self).instructions@ + comparison(
                equal,
                false_label,
                out_label,
            ),
            final(self).variables == old(self).variables,
            final(self).operands == old(self).operands,
            final(self).deepest == old(self).deepest,
    {
        if equal {
            self.instructions.push(Instruction::IfIcmpne(false_label));
        } else {
            self.instructions.push(Instruction::IfIcmpeq(false_label));
        }
        self.instructions.push(Instruction::Bipush(1));
        self.instructions.push(Instruction::Goto(out_label));
        self.instructions.push(Instruction::Label(false_label));
        self.instructions.push(Instruction::Bipush(0));
        self.instructions.push(Instruction::Label(out_label));
        assert(self.instructions@ =~= old(self).instructions@ + comparison(
            equal,
            false_label,
            out_label,
        ));
    }

    /// Lowers a push.
    fn push(&mut self, literal: &PushLiteral, labels: &LabelGenerator, pool: &mut ConstantPool) -> (result:
        Result<(), CompileError>)
        requires
            old(self).variables.wf(),
            old(pool).wf(),
        ensures
            final(self).variables.wf(),
            final(pool).wf(),
            follows(
                step_push(old(self).state(labels, old(pool)), literal@),
                result,
                final(self).state(labels, final(pool)),
                old(self).instructions@,
                final(self).instructions@,
            ),
    {
        match literal {
            PushLiteral::Boolean(value) => {
                self.operands.push(JvmType::Boolean);
                self.emit(
                    Instruction::Bipush(
                        if *value {
                            1
                        } else {
                            0
                        },
                    ),
                );
            },
            PushLiteral::Byte(value) => {
                self.operands.push(JvmType::Byte);
                self.emit(Instruction::Bipush(*value));
            },
            PushLiteral::Int(value) => {
                self.operands.push(JvmType::Int);
                let index = match add_constant(pool, PoolItem::Integer(*value)) {
                    Ok(index) => index,
                    Err(error) => {
                        return Err(error);
                    },
                };
                self.emit(Instruction::Ldc(index));
            },
            PushLiteral::String(text) => {
                self.operands.push(JvmType::Reference);
                let item = PoolItem::String(JString(Utf8(text.clone())));
                let index = match add_constant(pool, item) {
                    Ok(index) => index,
                    Err(error) => {
                        return Err(error);
                    },
                };
                self.emit(Instruction::Ldc(index));
            },
            _ => {
                return Err(CompileError::UnsupportedConstruct);
            },
        }
        Ok(())
    }

    /// Lowers a load.
    fn load(&mut self, name: &String, labels: &LabelGenerator, pool: &ConstantPool) -> (result:
        Result<(), CompileError>)
        requires
            old(self).variables.wf(),
        ensures
            final(self).variables.wf(),
            follows(
                step_load(old(self).state(labels, pool), name@),
                result,
                final(self).state(labels, pool),
                old(self).instructions@,
                final(self).instructions@,
            ),
    {
        match self.variables.get(name) {
            None => Err(CompileError::UnresolvedReference),
            Some((index, jvm_type)) => {
                self.operands.push(jvm_type);
                match jvm_type.get_category() {
                    Category::Integral => {
                        self.emit(Instruction::Iload(index));
                        Ok(())
                    },
                    Category::Reference => {
                        self.emit(Instruction::Aload(index));
                        Ok(())
                    },
                    Category::Unsupported => Err(CompileError::UnsupportedConstruct),
                }
            },
        }
    }

    /// Lowers a store.
    fn store(
        &mut self,
        name: &String,
        declare: bool,
        labels: &LabelGenerator,
        pool: &ConstantPool,
    ) -> (result: Result<(), CompileError>)
        requires
            old(self).variables.wf(),
        ensures
            final(self).variables.wf(),
            follows(
                step_store(old(self).state(labels, pool), name@, declare),
                result,
                final(self).state(labels, pool),
                old(self).instructions@,
                final(self).instructions@,
            ),
    {
        let jvm_type = match self.operands.pop() {
            None => {
                return Err(CompileError::TypeMismatch);
            },
            Some(jvm_type) => jvm_type,
        };
        let index = if declare {
            if self.variables.is_full() {
                return Err(CompileError::LimitExceeded);
            }
            self.variables.create(name.clone(), jvm_type)
        } else {
            match self.variables.get(name) {
                None => {
                    return Err(CompileError::UnresolvedReference);
                },
                Some((index, _)) => index,
            }
        };
        match jvm_type.get_category() {
            Category::Integral => {
                self.emit(Instruction::Istore(index));
                Ok(())
            },
            Category::Reference => {
                self.emit(Instruction::Astore(index));
                Ok(())
            },
            Category::Unsupported => Err(CompileError::UnsupportedConstruct),
        }
    }

    /// Lowers an addition.
    fn add(&mut self, labels: &LabelGenerator, pool: &ConstantPool) -> (result: Result<
        (),
        CompileError,
    >)
        requires
            old(self).variables.wf(),
        ensures
            final(self).variables.wf(),
            follows(
                step_add(old(self).state(labels, pool)),
                result,
                final(self).state(labels, pool),
                old(self).instructions@,
                final(self).instructions@,
            ),
    {
        if !has_two_ints(&self.operands) {
            return Err(CompileError::TypeMismatch);
        }
        pop_operands(&mut self.operands, 2);
        self.operands.push(JvmType::Int);
        self.emit(Instruction::Iadd);
        Ok(())
    }

    /// Lowers a comparison.
    fn compare(&mut self, equal: bool, labels: &mut LabelGenerator, pool: &ConstantPool) -> (result:
        Result<(), CompileError>)
        requires
            old(self).variables.wf(),
        ensures
            final(self).variables.wf(),
            follows(
                step_compare(old(self).state(old(labels), pool), equal),
                result,
                final(self).state(final(labels), pool),
                old(self).instructions@,
                final(self).instructions@,
            ),
    {
        if !has_two_ints(&self.operands) {
            return Err(CompileError::TypeMismatch);
        }
        pop_operands(&mut self.operands, 2);
        self.operands.push(JvmType::Int);
        if labels.is_exhausted() {
            return Err(CompileError::LimitExceeded);
        }
        let false_label = labels.get_new_label();
        if labels.is_exhausted() {
            return Err(CompileError::LimitExceeded);
        }
        let out_label = labels.get_new_label();
        self.emit_comparison(equal, false_label, out_label);
        Ok(())
    }

    /// Lowers one pseudo-instruction and brings the greatest depth of the
    /// operand stack up to date.
    fn step(
        &mut self,
        instruction: &PseudoInstruction,
        labels: &mut LabelGenerator,
        pool: &mut ConstantPool,
    ) -> (result: Result<(), CompileError>)
        requires
            old(self).variables.wf(),
            old(pool).wf(),
        ensures
            final(self).variables.wf(),
            final(pool).wf(),
            follows(
                step(old(self).state(old(labels), old(pool)), instruction@),
                result,
                final(self).state(final(labels), final(pool)),
                old(self).instructions@,
                final(self).instructions@,
            ),
    {
        match self.apply(instruction, labels, pool) {
            Ok(()) => {},
            Err(error) => {
                return Err(error);
            },
        }
        if self.operands.len() > self.deepest {
            self.deepest = self.operands.len();
        }
        Ok(())
    }

    /// Lowers one pseudo-instruction.
    fn apply(
        &mut self,
        instruction: &PseudoInstruction,
        labels: &mut LabelGenerator,
        pool: &mut ConstantPool,
    ) -> (result: Result<(), CompileError>)
        requires
            old(self).variables.wf(),
            old(pool).wf(),
        ensures
            final(self).variables.wf(),
            final(pool).wf(),
            follows(
                effect(old(self).state(old(labels), old(pool)), instruction@),
                result,
                final(self).state(final(labels), final(pool)),
                old(self).instructions@,
                final(self).instructions@,
            ),
    {
        reveal(effect);
        match instruction {
            PseudoInstruction::Label(label) => {
                self.emit(Instruction::Label(*label));
                Ok(())
            },
            PseudoInstruction::Goto(label) => {
                self.emit(Instruction::Goto(*label));
                Ok(())
            },
            PseudoInstruction::Push(literal) => self.push(literal, labels, pool),
            PseudoInstruction::Load(name) => self.load(name, labels, pool),
            PseudoInstruction::Store(name, declare) => self.store(name, *declare, labels, pool),
            PseudoInstruction::Drop(name) => {
                self.variables.drop(name.as_str());
                assert(self.instructions@ =~= old(self).instructions@ + Seq::<
                    Instruction,
                >::empty());
                Ok(())
            },
            PseudoInstruction::Add => self.add(labels, pool),
            PseudoInstruction::CompareEqual => self.compare(true, labels, pool),
            PseudoInstruction::CompareNotEqual => self.compare(false, labels, pool),
            PseudoInstruction::BranchIfFalse(label) => {
                pop_operands(&mut self.operands, 1);
                self.emit(Instruction::Ifeq(*label));
                Ok(())
            },
            PseudoInstruction::BranchIfTrue(label) => {
                pop_operands(&mut self.operands, 1);
                self.emit(Instruction::Ifne(*label));
                Ok(())
            },
            PseudoInstruction::GetStaticField { class, field, field_type } => {
                let jvm_type = match type_of_field(field_type.as_str().as_bytes()) {
                    Some(jvm_type) => jvm_type,
                    None => {
                        return Err(CompileError::UnsupportedConstruct);
                    },
                };
                self.operands.push(jvm_type);
                let item = PoolItem::FieldRef(
                    FieldRef(
                        Class(Utf8(class.clone())),
                        NameAndType(Utf8(field.clone()), Utf8(field_type.clone())),
                    ),
                );
                let index = match add_constant(pool, item) {
                    Ok(index) => index,
                    Err(error) => {
                        return Err(error);
                    },
                };
                self.emit(Instruction::GetStatic(index));
                Ok(())
            },
            PseudoInstruction::InvokeVirtual { class, method, descriptor } => {
                let item = PoolItem::MethodRef(
                    MethodRef(
                        Class(Utf8(class.clone())),
                        NameAndType(Utf8(method.clone()), Utf8(descriptor.clone())),
                    ),
                );
                let index = match add_constant(pool, item) {
                    Ok(index) => index,
                    Err(error) => {
                        return Err(error);
                    },
                };
                let parameters = count_parameters(descriptor.as_str().as_bytes());
                pop_operands(&mut self.operands, 1 + parameters);
                self.emit(Instruction::InvokeVirtual(index));
                Ok(())
            },
            PseudoInstruction::Return => {
                self.emit(Instruction::Return);
                Ok(())
            },
        }
    }
}

/// Concrete instructions with the room that they need at run time.
pub struct Lowered {
    pub instructions: Vec<Instruction>,
    /// The greatest depth that the operand stack reaches.
    pub max_stack: usize,
    /// The number of local slots that are handed out.
    pub max_locals: u8,
}

/// Lowers `pseudo_instructions` to concrete instructions, starting with no
/// variable in scope and an empty operand stack, and says how deep the
/// operand stack gets and how many slots the variables take. Constants go
/// to `constant_pool`, and fresh labels come from `label_generator`. The
/// first pseudo-instruction that cannot be lowered ends the lowering with
/// its error.
pub fn lower_pseudo_instructions(
    pseudo_instructions: Vec<PseudoInstruction>,
    label_generator: &mut LabelGenerator,
    constant_pool: &mut ConstantPool,
) -> (result: Result<Lowered, CompileError>)
    requires
        old(constant_pool).wf(),
    ensures
        final(constant_pool).wf(),
        match result {
            Ok(lowered) => {
                let outcome = lower(
                    views(pseudo_instructions@),
                    start(old(constant_pool)@, old(label_generator).next()),
                );
                &&& outcome is Ok
                &&& outcome.unwrap().1 == lowered.instructions@
                &&& outcome.unwrap().0.pool == final(constant_pool)@
                &&& outcome.unwrap().0.next_label == final(label_generator).next()
                &&& outcome.unwrap().0.deepest == lowered.max_stack
                &&& outcome.unwrap().0.next_slot == lowered.max_locals
            },
            Err(error) => lower(
                views(pseudo_instructions@),
                start(old(constant_pool)@, old(label_generator).next()),
            ) == Err::<(LoweringState, Seq<Instruction>), CompileError>(error),
        },
{
    let ghost initial = start(constant_pool@, label_generator.next());
    let mut lowering = Lowering {
        instructions: Vec::new(),
        variables: VariableStack::new(),
        operands: Vec::new(),
        deepest: 0,
    };
    let mut k: usize = 0;
    let ghost code = views(pseudo_instructions@);
    assert(code.take(0) =~= Seq::<PseudoOp>::empty());
    assert(lowering.state(label_generator, constant_pool) =~= initial);
    while k < pseudo_instructions.len()
        invariant
            k <= pseudo_instructions.len(),
            initial == start(old(constant_pool)@, old(label_generator).next()),
            lowering.variables.wf(),
            constant_pool.wf(),
            code == views(pseudo_instructions@),
            lower(code.take(k as int), initial) == Ok::<
                (LoweringState, Seq<Instruction>),
                CompileError,
            >((lowering.state(label_generator, constant_pool), lowering.instructions@)),
        decreases pseudo_instructions.len() - k,
    {
        proof {
            let upto = code.take(k as int + 1);
            assert(upto.drop_last() =~= code.take(k as int));
            assert(upto.last() == pseudo_instructions@[k as int]@);
        }
        match lowering.step(&pseudo_instructions[k], label_generator, constant_pool) {
            Ok(()) => {},
            Err(error) => {
                proof {
                    lemma_lowering_error_stays(code, initial, k as int + 1);
                }
                return Err(error);
            },
        }
        k += 1;
    }
    assert(code.take(k as int) =~= code);
    let max_locals = lowering.variables.slots();
    Ok(Lowered { instructions: lowering.instructions, max_stack: lowering.deepest, max_locals })
}

/// Lowers `pseudo_instructions` to concrete instructions, starting with no
/// variable in scope and an empty operand stack. Constants go to
/// `constant_pool`, and fresh labels come from `label_generator`. The first
/// pseudo-instruction that cannot be lowered ends the lowering with its
/// error.
pub fn compile_to_jvm_instructions(
    pseudo_instructions: Vec<PseudoInstruction>,
    label_generator: &mut LabelGenerator,
    constant_pool: &mut ConstantPool,
) -> (result: Result<Vec<Instruction>, CompileError>)
    requires
        old(constant_pool).wf(),
    ensures
        final(constant_pool).wf(),
        match result {
            Ok(instructions) => {
                let lowered = lower(
                    views(pseudo_instructions@),
                    start(old(constant_pool)@, old(label_generator).next()),
                );
                &&& lowered is Ok
                &&& lowered.unwrap().1 == instructions@
                &&& lowered.unwrap().0.pool == final(constant_pool)@
                &&& lowered.unwrap().0.next_label == final(label_generator).next()
            },
            Err(error) => lower(
                views(pseudo_instructions@),
                start(old(constant_pool)@, old(label_generator).next()),
            ) == Err::<(LoweringState, Seq<Instruction>), CompileError>(error),
        },
{
    match lower_pseudo_instructions(pseudo_instructions, label_generator, constant_pool) {
        Ok(lowered) => Ok(lowered.instructions),
        Err(error) => Err(error),
    }
}

/// Once a pseudo-instruction cannot be lowered, the sequence cannot be.
pub proof fn lemma_lowering_error_stays(
    code: Seq<PseudoOp>,
    state: LoweringState,
    count: int,
)
    requires
        0 <= count <= code.len(),
        lower(code.take(count), state) is Err,
    ensures
        lower(code, state) == lower(code.take(count), state),
    decreases code.len(),
{
    if count == code.len() {
        assert(code.take(count) =~= code);
    } else {
        assert(code.drop_last().take(count) =~= code.take(count));
        lemma_lowering_error_stays(code.drop_last(), state, count);
    }
}

} // verus!
