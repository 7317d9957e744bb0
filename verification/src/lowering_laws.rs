//! What holds of lowering.
//!
//! A comparison of two integers leaves one integer where the two were, in
//! the simulation of the operand stack and on both ways through the
//! instructions that it emits. An assignment keeps to its variable's slot,
//! and the slots handed out are as many as the declarations. The greatest
//! depth that lowering records is the greatest that the operand stack has.
//! And what lowering yields depends on the text of the names in the
//! pseudo-instructions only.

use crate::bytecode::Instruction;
use crate::constant_pool::{fits, intern, Constant};
use crate::errors::CompileError;
use crate::jvm_type::{Category, JvmType, Literal};
use crate::pseudo_instruction::{
    comparison, effect, lemma_lowering_error_stays, lower, noted, step, step_compare, step_store,
    two_ints, views, LoweringState, PseudoInstruction, PseudoOp,
};
use vstd::prelude::*;

verus! {

/// By how much the instruction changes the depth of the operand stack when
/// it runs. An invocation takes what its descriptor says, which the
/// instruction does not show: for it there is no answer.
pub open spec fn depth_change(instruction: Instruction) -> Option<int> {
    match instruction {
        Instruction::Label(_) | Instruction::Goto(_) | Instruction::Return => Some(0),
        Instruction::Bipush(_) | Instruction::Ldc(_) | Instruction::Iload(_) | Instruction::Aload(
            _,
        ) | Instruction::GetStatic(_) => Some(1),
        Instruction::Istore(_) | Instruction::Astore(_) | Instruction::Iadd | Instruction::Ifeq(
            _,
        ) | Instruction::Ifne(_) => Some(-1),
        Instruction::IfIcmpeq(_) | Instruction::IfIcmpne(_) => Some(-2),
        Instruction::InvokeVirtual(_) => None,
    }
}

/// By how much the instructions of `path`, run one after the other, change
/// the depth of the operand stack.
pub open spec fn path_change(path: Seq<Instruction>) -> Option<int>
    decreases path.len(),
{
    if path.len() == 0 {
        Some(0)
    } else {
        match (path_change(path.drop_last()), depth_change(path.last())) {
            (Some(before), Some(last)) => Some(before + last),
            _ => None,
        }
    }
}

/// The instructions of a comparison that run when the branch at its head
/// is not taken: up to the jump, then the marker that the jump leads to.
pub open spec fn straight_path(code: Seq<Instruction>) -> Seq<Instruction> {
    seq![code[0], code[1], code[2], code[5]]
}

/// The instructions of a comparison that run when the branch at its head
/// is taken: the branch, then all from the marker that it leads to.
pub open spec fn branching_path(code: Seq<Instruction>) -> Seq<Instruction> {
    seq![code[0], code[3], code[4], code[5]]
}

/// The change in depth along a path of four instructions.
proof fn lemma_four(path: Seq<Instruction>)
    requires
        path.len() == 4,
        depth_change(path[0]) is Some,
        depth_change(path[1]) is Some,
        depth_change(path[2]) is Some,
        depth_change(path[3]) is Some,
    ensures
        path_change(path) == Some(
            depth_change(path[0]).unwrap() + depth_change(path[1]).unwrap() + depth_change(
                path[2],
            ).unwrap() + depth_change(path[3]).unwrap(),
        ),
{
    let three = path.drop_last();
    let two = three.drop_last();
    let one = two.drop_last();
    assert(one.drop_last().len() == 0);
    assert(path_change(one.drop_last()) == Some(0int));
    assert(path_change(one) == Some(depth_change(path[0]).unwrap()));
    assert(path_change(two) == Some(
        depth_change(path[0]).unwrap() + depth_change(path[1]).unwrap(),
    ));
    assert(path_change(three) == Some(
        depth_change(path[0]).unwrap() + depth_change(path[1]).unwrap() + depth_change(
            path[2],
        ).unwrap(),
    ));
}

/// Whichever way a comparison's instructions are run through, they leave
/// the operand stack one value less deep: two operands go, one result comes.
pub proof fn lemma_comparison_paths(equal: bool, false_label: u64, out_label: u64)
    ensures
        path_change(straight_path(comparison(equal, false_label, out_label))) == Some(-1int),
        path_change(branching_path(comparison(equal, false_label, out_label))) == Some(-1int),
{
    let code = comparison(equal, false_label, out_label);
    lemma_four(straight_path(code));
    lemma_four(branching_path(code));
}

/// Lowering a comparison with two `Int`s on top of the stack succeeds while
/// two labels are left. In the simulated stack one `Int` stands where the
/// two were. The six instructions of `comparison` are emitted with the next
/// two labels, which differ and are then used up, and they change the depth
/// by as much as the simulation on both of their paths.
pub proof fn lemma_comparison_nets_one_int(state: LoweringState, equal: bool)
    requires
        two_ints(state.operands),
        state.next_label + 2 <= u64::MAX,
    ensures
        step_compare(state, equal) is Ok,
        effect(
            state,
            if equal {
                PseudoOp::CompareEqual
            } else {
                PseudoOp::CompareNotEqual
            },
        ) == step_compare(state, equal),
        step_compare(state, equal).unwrap().0.operands == state.operands.drop_last().drop_last().push(
            JvmType::Int,
        ),
        step_compare(state, equal).unwrap().0.operands.len() == state.operands.len() - 1,
        step(
            state,
            if equal {
                PseudoOp::CompareEqual
            } else {
                PseudoOp::CompareNotEqual
            },
        ) == noted(step_compare(state, equal)),
        step_compare(state, equal).unwrap().0.next_label == state.next_label + 2,
        step_compare(state, equal).unwrap().1 == comparison(
            equal,
            state.next_label as u64,
            (state.next_label + 1) as u64,
        ),
        step_compare(state, equal).unwrap().1.len() == 6,
        state.next_label as u64 != (state.next_label + 1) as u64,
        path_change(straight_path(step_compare(state, equal).unwrap().1)) == Some(-1int),
        path_change(branching_path(step_compare(state, equal).unwrap().1)) == Some(-1int),
{
    reveal(effect);
    let next = state.next_label;
    lemma_comparison_paths(equal, next as u64, (next + 1) as u64);
    assert(state.operands.take(state.operands.len() - 2) =~= state.operands.drop_last().drop_last());
}

/// An assignment to a variable in scope stores to the variable's own slot
/// and hands out none: the slots and the variables stay as they were.
pub proof fn lemma_assignment_keeps_the_slot(state: LoweringState, name: Seq<char>)
    requires
        state.variables.contains_key(name),
        state.operands.len() > 0,
        state.operands.last().category() != Category::Unsupported,
    ensures
        step_store(state, name, false) is Ok,
        effect(state, PseudoOp::Store(name, false)) == step_store(state, name, false),
        step_store(state, name, false).unwrap().0.next_slot == state.next_slot,
        step_store(state, name, false).unwrap().0.variables == state.variables,
        step_store(state, name, false).unwrap().0.operands == state.operands.drop_last(),
        step_store(state, name, false).unwrap().1 == seq![
            if state.operands.last().category() == Category::Integral {
                Instruction::Istore(state.variables[name].0)
            } else {
                Instruction::Astore(state.variables[name].0)
            },
        ],
{
    reveal(effect);
}

/// A declaration, while a slot is left, stores to the next free slot and
/// binds the name to it: the slot is the number of slots handed out before.
pub proof fn lemma_declaration_takes_the_next_slot(state: LoweringState, name: Seq<char>)
    requires
        state.operands.len() > 0,
        state.operands.last().category() != Category::Unsupported,
        state.next_slot < u8::MAX,
    ensures
        step_store(state, name, true) is Ok,
        effect(state, PseudoOp::Store(name, true)) == step_store(state, name, true),
        step_store(state, name, true).unwrap().0.next_slot == state.next_slot + 1,
        step_store(state, name, true).unwrap().0.variables == state.variables.insert(
            name,
            (state.next_slot as u8, state.operands.last()),
        ),
        step_store(state, name, true).unwrap().1 == seq![
            if state.operands.last().category() == Category::Integral {
                Instruction::Istore(state.next_slot as u8)
            } else {
                Instruction::Astore(state.next_slot as u8)
            },
        ],
{
    reveal(effect);
}

/// The number of declarations among pseudo-instructions.
pub open spec fn declarations(code: Seq<PseudoOp>) -> nat
    decreases code.len(),
{
    if code.len() == 0 {
        0
    } else {
        declarations(code.drop_last()) + if code.last() matches PseudoOp::Store(_, true) {
            1nat
        } else {
            0nat
        }
    }
}

/// A step that succeeds keeps the greatest depth where it was or raises it
/// to the depth behind the step, and hands out a slot exactly if it is a
/// declaration.
pub proof fn lemma_step_marks(state: LoweringState, instruction: PseudoOp)
    requires
        step(state, instruction) is Ok,
    ensures
        step(state, instruction).unwrap().0.deepest == if step(
            state,
            instruction,
        ).unwrap().0.operands.len() > state.deepest {
            step(state, instruction).unwrap().0.operands.len()
        } else {
            state.deepest
        },
        step(state, instruction).unwrap().0.next_slot == state.next_slot + declarations(
            seq![instruction],
        ),
{
    reveal(effect);
    assert(seq![instruction].drop_last().len() == 0);
    assert(seq![instruction].last() == instruction);
    assert(declarations(seq![instruction].drop_last()) == 0);
}

/// Where a sequence can be lowered, so can each of its beginnings.
pub proof fn lemma_beginning_lowers(code: Seq<PseudoOp>, state: LoweringState, count: int)
    requires
        lower(code, state) is Ok,
        0 <= count <= code.len(),
    ensures
        lower(code.take(count), state) is Ok,
{
    if lower(code.take(count), state) is Err {
        lemma_lowering_error_stays(code, state, count);
    }
}

/// Behind a lowering, the slots handed out are as many as the sequence has
/// declarations: each declaration takes one, and nothing else does.
pub proof fn lemma_slots_count_declarations(code: Seq<PseudoOp>, state: LoweringState)
    requires
        lower(code, state) is Ok,
    ensures
        lower(code, state).unwrap().0.next_slot == state.next_slot + declarations(code),
    decreases code.len(),
{
    if code.len() > 0 {
        let before = code.drop_last();
        lemma_slots_count_declarations(before, state);
        let reached = lower(before, state).unwrap().0;
        lemma_step_marks(reached, code.last());
        assert(seq![code.last()].drop_last().len() == 0);
        assert(seq![code.last()].last() == code.last());
        assert(declarations(seq![code.last()].drop_last()) == 0);
    }
}

/// Behind a lowering, `deepest` is the greatest depth of the operand stack:
/// no step leaves the stack deeper, and unless `deepest` is what it was at
/// the start, some step leaves the stack exactly that deep.
pub proof fn lemma_deepest_is_the_greatest_depth(code: Seq<PseudoOp>, state: LoweringState)
    requires
        lower(code, state) is Ok,
    ensures
        state.deepest <= lower(code, state).unwrap().0.deepest,
        forall|count: int|
            1 <= count <= code.len() ==> (#[trigger] lower(
                code.take(count),
                state,
            )).unwrap().0.operands.len() <= lower(code, state).unwrap().0.deepest,
        lower(code, state).unwrap().0.deepest == state.deepest || exists|count: int|
            1 <= count <= code.len() && (#[trigger] lower(
                code.take(count),
                state,
            )).unwrap().0.operands.len() == lower(code, state).unwrap().0.deepest,
    decreases code.len(),
{
    if code.len() > 0 {
        let before = code.drop_last();
        let last = code.len() as int;
        lemma_deepest_is_the_greatest_depth(before, state);
        let reached = lower(before, state).unwrap().0;
        let end = lower(code, state).unwrap().0;
        lemma_step_marks(reached, code.last());
        assert(code.take(last) =~= code);
        assert forall|count: int| 1 <= count <= code.len() implies (#[trigger] lower(
            code.take(count),
            state,
        )).unwrap().0.operands.len() <= end.deepest by {
            if count < last {
                assert(before.take(count) =~= code.take(count));
            }
        }
        if end.deepest != state.deepest {
            if end.deepest == reached.deepest {
                let count = choose|count: int|
                    1 <= count <= before.len() && (#[trigger] lower(
                        before.take(count),
                        state,
                    )).unwrap().0.operands.len() == reached.deepest;
                assert(before.take(count) =~= code.take(count));
                assert(lower(code.take(count), state).unwrap().0.operands.len() == end.deepest);
            } else {
                assert(lower(code.take(last), state).unwrap().0.operands.len() == end.deepest);
            }
        }
    }
}

/// Lowering one sequence behind another is lowering the second from the
/// state that the first leaves, with the code of the first before that of
/// the second; the first error ends both.
pub proof fn lemma_lowering_in_two_parts(
    first: Seq<PseudoOp>,
    second: Seq<PseudoOp>,
    state: LoweringState,
)
    ensures
        lower(first + second, state) == match lower(first, state) {
            Err(error) => Err::<(LoweringState, Seq<Instruction>), CompileError>(error),
            Ok((reached, emitted)) => match lower(second, reached) {
                Err(error) => Err(error),
                Ok((end, more)) => Ok((end, emitted + more)),
            },
        },
    decreases second.len(),
{
    if second.len() == 0 {
        assert(first + second =~= first);
        if lower(first, state) is Ok {
            let emitted = lower(first, state).unwrap().1;
            assert(emitted + Seq::<Instruction>::empty() =~= emitted);
        }
    } else {
        lemma_lowering_in_two_parts(first, second.drop_last(), state);
        assert((first + second).drop_last() =~= first + second.drop_last());
        assert((first + second).last() == second.last());
        if lower(first, state) is Ok {
            let (reached, emitted) = lower(first, state).unwrap();
            if lower(second.drop_last(), reached) is Ok {
                let (before, more) = lower(second.drop_last(), reached).unwrap();
                if step(before, second.last()) is Ok {
                    let last = step(before, second.last()).unwrap().1;
                    assert(emitted + more + last =~= emitted + (more + last));
                }
            }
        }
    }
}

/// Pushing an integer that the pool has room for loads it from the pool:
/// the pool holds it then, an `Int` is on the stack, and nothing else
/// changes.
pub proof fn lemma_integer_is_loaded_from_the_pool(state: LoweringState, value: i32)
    requires
        fits(state.pool, Constant::Integer(value)),
    ensures
        step(state, PseudoOp::Push(Literal::Int(value))) is Ok,
        step(state, PseudoOp::Push(Literal::Int(value))).unwrap().0.pool == intern(
            state.pool,
            Constant::Integer(value),
        ).0,
        step(state, PseudoOp::Push(Literal::Int(value))).unwrap().0.operands
            == state.operands.push(JvmType::Int),
        step(state, PseudoOp::Push(Literal::Int(value))).unwrap().0.next_label
            == state.next_label,
        step(state, PseudoOp::Push(Literal::Int(value))).unwrap().0.next_slot == state.next_slot,
        step(state, PseudoOp::Push(Literal::Int(value))).unwrap().0.variables == state.variables,
        step(state, PseudoOp::Push(Literal::Int(value))).unwrap().1 == seq![
            Instruction::Ldc(intern(state.pool, Constant::Integer(value)).1 as u16),
        ],
{
    reveal(effect);
}

/// A store finds nothing to store on an empty operand stack.
pub proof fn lemma_nothing_to_store(state: LoweringState, name: Seq<char>, declare: bool)
    requires
        state.operands.len() == 0,
    ensures
        step(state, PseudoOp::Store(name, declare)) == Err::<
            (LoweringState, Seq<Instruction>),
            CompileError,
        >(CompileError::TypeMismatch),
{
    reveal(effect);
}

/// The pseudo-instructions that compare two integer literals and declare a
/// variable with the result.
pub open spec fn compared_and_stored(a: i32, b: i32, equal: bool, name: Seq<char>) -> Seq<
    PseudoOp,
> {
    seq![
        PseudoOp::Push(Literal::Int(a)),
        PseudoOp::Push(Literal::Int(b)),
        if equal {
            PseudoOp::CompareEqual
        } else {
            PseudoOp::CompareNotEqual
        },
        PseudoOp::Store(name, true),
    ]
}

/// On an empty operand stack, with room for the two literals, two labels
/// and a slot left, comparing two integers and declaring a variable with
/// the result lowers to code that ends with an integer store to the next
/// free slot, and leaves the stack empty: the comparison leaves exactly one
/// value, so that a second store behind the first finds none.
pub proof fn lemma_comparison_leaves_exactly_one_value(
    state: LoweringState,
    a: i32,
    b: i32,
    equal: bool,
    name: Seq<char>,
    other: Seq<char>,
)
    requires
        state.operands.len() == 0,
        state.next_label + 2 <= u64::MAX,
        state.next_slot < u8::MAX,
        fits(state.pool, Constant::Integer(a)),
        fits(intern(state.pool, Constant::Integer(a)).0, Constant::Integer(b)),
    ensures
        lower(compared_and_stored(a, b, equal, name), state) is Ok,
        lower(compared_and_stored(a, b, equal, name), state).unwrap().0.operands.len() == 0,
        lower(compared_and_stored(a, b, equal, name), state).unwrap().0.next_slot
            == state.next_slot + 1,
        lower(compared_and_stored(a, b, equal, name), state).unwrap().1.len() == 9,
        lower(compared_and_stored(a, b, equal, name), state).unwrap().1.last()
            == Instruction::Istore(state.next_slot as u8),
        lower(
            compared_and_stored(a, b, equal, name).push(PseudoOp::Store(other, true)),
            state,
        ) == Err::<(LoweringState, Seq<Instruction>), CompileError>(CompileError::TypeMismatch),
{
    let code = compared_and_stored(a, b, equal, name);
    let three = code.drop_last();
    let two = three.drop_last();
    let one = two.drop_last();
    assert(one.drop_last().len() == 0);
    assert(one.last() == code[0]);
    assert(two.last() == code[1]);
    assert(three.last() == code[2]);
    assert(code.last() == code[3]);
    assert(lower(one.drop_last(), state) == Ok::<
        (LoweringState, Seq<Instruction>),
        CompileError,
    >((state, Seq::empty())));

    lemma_integer_is_loaded_from_the_pool(state, a);
    assert(lower(one, state) is Ok);
    let (first, first_code) = lower(one, state).unwrap();
    assert(first.operands =~= seq![JvmType::Int]);
    assert(first_code.len() == 1);

    lemma_integer_is_loaded_from_the_pool(first, b);
    assert(lower(two, state) is Ok);
    let (second, second_code) = lower(two, state).unwrap();
    assert(second.operands =~= seq![JvmType::Int, JvmType::Int]);
    assert(second_code.len() == 2);

    lemma_comparison_nets_one_int(second, equal);
    assert(lower(three, state) is Ok);
    let (third, third_code) = lower(three, state).unwrap();
    assert(third.operands =~= seq![JvmType::Int]);
    assert(third.next_slot == state.next_slot);
    assert(third_code.len() == 8);

    lemma_declaration_takes_the_next_slot(third, name);
    assert(lower(code, state) is Ok);
    let (end, end_code) = lower(code, state).unwrap();
    assert(end.operands =~= Seq::<JvmType>::empty());
    assert(end_code.len() == 9);
    assert(end_code.last() == Instruction::Istore(state.next_slot as u8));

    let longer = code.push(PseudoOp::Store(other, true));
    assert(longer.drop_last() =~= code);
    assert(longer.last() == PseudoOp::Store(other, true));
    lemma_nothing_to_store(end, other, true);
}

/// Two sequences of pseudo-instructions that hold the same text lower to
/// the same instructions, constants and labels: nothing but the text
/// decides, so lowering a sequence twice gives the same twice.
pub proof fn lemma_same_text_same_lowering(
    first: Seq<PseudoInstruction>,
    second: Seq<PseudoInstruction>,
    state: LoweringState,
)
    requires
        first.len() == second.len(),
        forall|i: int| 0 <= i < first.len() ==> first[i]@ == second[i]@,
    ensures
        lower(views(first), state) == lower(views(second), state),
{
    assert(views(first) =~= views(second));
}

} // verus!
