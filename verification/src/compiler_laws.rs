//! What holds of compiled expressions.
//!
//! A condition without an alternative is its guard, one branch, its body
//! and one marker; a loop jumps back to the marker before its guard; only
//! conditions with an alternative and loops emit a jump; and a call of
//! anything but `println` ends the compilation of the program.

use crate::compiler::{
    call_println, compiled, compiled_list, compiled_terms, fetch_output, lemma_list_error_stays,
    main_body, program,
};
use crate::errors::CompileError;
use crate::jvm_type::Literal;
use crate::parser::{Expression, ExpressionWithMetadata, Operator, Value};
use crate::pseudo_instruction::PseudoOp;
use vstd::prelude::*;

verus! {

broadcast use vstd::std_specs::vec::axiom_vec_index_decreases;

/// The pseudo-instructions of an expression that can be compiled.
pub open spec fn code_of(expression: Expression, next_label: nat) -> Seq<PseudoOp> {
    compiled(expression, next_label).unwrap().0
}

/// The next free label behind an expression that can be compiled.
pub open spec fn label_behind(expression: Expression, next_label: nat) -> nat {
    compiled(expression, next_label).unwrap().1
}

/// A condition without an alternative takes one label. Its code is the
/// guard's, one branch to that label for a guard that fails, the body's,
/// and, last, the one marker of that label.
pub proof fn lemma_condition_shape(
    guard: Box<ExpressionWithMetadata>,
    base_case: Box<ExpressionWithMetadata>,
    next_label: nat,
)
    requires
        next_label < u64::MAX,
        compiled(guard.expression, next_label + 1) is Ok,
        compiled(base_case.expression, label_behind(guard.expression, next_label + 1)) is Ok,
    ensures
        compiled(Expression::If { guard, base_case }, next_label) == Ok::<
            (Seq<PseudoOp>, nat),
            CompileError,
        >(
            (
                code_of(guard.expression, next_label + 1) + seq![
                    PseudoOp::BranchIfFalse(next_label as u64),
                ] + code_of(base_case.expression, label_behind(guard.expression, next_label + 1))
                    + seq![PseudoOp::Label(next_label as u64)],
                label_behind(base_case.expression, label_behind(guard.expression, next_label + 1)),
            ),
        ),
{
    let guard_code = code_of(guard.expression, next_label + 1);
    let after_guard = label_behind(guard.expression, next_label + 1);
    let base_code = code_of(base_case.expression, after_guard);
    let out_label = next_label as u64;
    assert(guard_code + seq![PseudoOp::BranchIfFalse(out_label)] + (base_code + seq![
        PseudoOp::Label(out_label),
    ]) =~= guard_code + seq![PseudoOp::BranchIfFalse(out_label)] + base_code + seq![
        PseudoOp::Label(out_label),
    ]);
}

/// A loop takes two labels that differ. Its code is the marker of the
/// first, the guard's code, one branch to the second for a guard that
/// fails, the body's code, one jump to the first, which stands before it,
/// and, last, the marker of the second.
pub proof fn lemma_loop_shape(
    guard: Box<ExpressionWithMetadata>,
    body: Box<ExpressionWithMetadata>,
    next_label: nat,
)
    requires
        next_label + 2 <= u64::MAX,
        compiled(guard.expression, next_label + 2) is Ok,
        compiled(body.expression, label_behind(guard.expression, next_label + 2)) is Ok,
    ensures
        next_label as u64 != (next_label + 1) as u64,
        compiled(Expression::While { guard, body }, next_label) == Ok::<
            (Seq<PseudoOp>, nat),
            CompileError,
        >(
            (
                seq![PseudoOp::Label(next_label as u64)] + code_of(
                    guard.expression,
                    next_label + 2,
                ) + seq![PseudoOp::BranchIfFalse((next_label + 1) as u64)] + code_of(
                    body.expression,
                    label_behind(guard.expression, next_label + 2),
                ) + seq![
                    PseudoOp::Goto(next_label as u64),
                    PseudoOp::Label((next_label + 1) as u64),
                ],
                label_behind(body.expression, label_behind(guard.expression, next_label + 2)),
            ),
        ),
{
    let guard_code = code_of(guard.expression, next_label + 2);
    let after_guard = label_behind(guard.expression, next_label + 2);
    let body_code = code_of(body.expression, after_guard);
    let guard_label = next_label as u64;
    let out_label = (next_label + 1) as u64;
    assert(seq![PseudoOp::Label(guard_label)] + guard_code + seq![
        PseudoOp::BranchIfFalse(out_label),
    ] + (body_code + seq![PseudoOp::Goto(guard_label), PseudoOp::Label(out_label)]) =~= seq![
        PseudoOp::Label(guard_label),
    ] + guard_code + seq![PseudoOp::BranchIfFalse(out_label)] + body_code + seq![
        PseudoOp::Goto(guard_label),
        PseudoOp::Label(out_label),
    ]);
}

/// Whether code holds no jump.
pub open spec fn jump_free(code: Seq<PseudoOp>) -> bool {
    forall|i: int| 0 <= i < code.len() ==> !((#[trigger] code[i]) is Goto)
}

/// Whether a condition with an alternative or a loop is among the parts of
/// `expression` that are compiled.
pub open spec fn has_jump(expression: Expression) -> bool
    decreases expression, 0nat,
{
    match expression {
        Expression::IfElse { guard, base_case, else_case } => true,
        Expression::While { guard, body } => true,
        Expression::Scope(expressions) => list_has_jump(expressions@, expressions@.len()),
        Expression::Declaration(name, rhs) => has_jump(rhs.expression),
        Expression::Assignment(name, rhs) => has_jump(rhs.expression),
        Expression::Operation(operator, terms) => list_has_jump(terms@, terms@.len()),
        Expression::If { guard, base_case } => has_jump(guard.expression) || has_jump(
            base_case.expression,
        ),
        Expression::FunctionCall(callee, arguments) => list_has_jump(
            arguments@,
            arguments@.len(),
        ),
        _ => false,
    }
}

/// Whether one of the first `count` expressions of `list` has a jump.
pub open spec fn list_has_jump(list: Seq<ExpressionWithMetadata>, count: nat) -> bool
    decreases list, count,
{
    if count == 0 || count > list.len() {
        false
    } else {
        list_has_jump(list, (count - 1) as nat) || has_jump(list[count - 1].expression)
    }
}

/// Only conditions with an alternative and loops emit a jump: the code of
/// an expression that holds neither holds no jump.
pub proof fn lemma_no_jump_without_alternative_or_loop(expression: Expression, next_label: nat)
    requires
        compiled(expression, next_label) is Ok,
        !has_jump(expression),
    ensures
        jump_free(code_of(expression, next_label)),
    decreases expression, 0nat,
{
    match expression {
        Expression::Scope(expressions) => {
            lemma_list_without_jump(expressions@, expressions@.len(), next_label);
        },
        Expression::Declaration(name, rhs) => {
            lemma_no_jump_without_alternative_or_loop(rhs.expression, next_label);
        },
        Expression::Assignment(name, rhs) => {
            lemma_no_jump_without_alternative_or_loop(rhs.expression, next_label);
        },
        Expression::Operation(operator, terms) => {
            lemma_terms_without_jump(operator, terms@, terms@.len(), next_label);
        },
        Expression::If { guard, base_case } => {
            lemma_no_jump_without_alternative_or_loop(guard.expression, next_label + 1);
            lemma_no_jump_without_alternative_or_loop(
                base_case.expression,
                label_behind(guard.expression, next_label + 1),
            );
        },
        Expression::FunctionCall(callee, arguments) => {
            lemma_list_without_jump(arguments@, arguments@.len(), next_label);
        },
        _ => {},
    }
}

/// The code of a list of expressions without a jump holds no jump.
proof fn lemma_list_without_jump(list: Seq<ExpressionWithMetadata>, count: nat, next_label: nat)
    requires
        compiled_list(list, count, next_label) is Ok,
        !list_has_jump(list, count),
    ensures
        jump_free(compiled_list(list, count, next_label).unwrap().0),
    decreases list, count,
{
    if count == 0 || count > list.len() {
    } else {
        lemma_list_without_jump(list, (count - 1) as nat, next_label);
        let reached = compiled_list(list, (count - 1) as nat, next_label).unwrap().1;
        lemma_no_jump_without_alternative_or_loop(list[count - 1].expression, reached);
    }
}

/// The code of an operation on terms without a jump holds no jump.
proof fn lemma_terms_without_jump(
    operator: Operator,
    list: Seq<ExpressionWithMetadata>,
    count: nat,
    next_label: nat,
)
    requires
        compiled_terms(operator, list, count, next_label) is Ok,
        !list_has_jump(list, count),
    ensures
        jump_free(compiled_terms(operator, list, count, next_label).unwrap().0),
    decreases list, count,
{
    if count == 0 || count > list.len() {
    } else if count == 1 {
        assert(!list_has_jump(list, 0));
        lemma_no_jump_without_alternative_or_loop(list[0].expression, next_label);
    } else {
        lemma_terms_without_jump(operator, list, (count - 1) as nat, next_label);
        let reached = compiled_terms(operator, list, (count - 1) as nat, next_label).unwrap().1;
        lemma_no_jump_without_alternative_or_loop(list[count - 1].expression, reached);
    }
}

/// Printing an integer literal fetches the output stream, pushes the
/// literal and calls `println`, and takes no label.
pub proof fn lemma_printing_an_integer(
    callee: Box<ExpressionWithMetadata>,
    arguments: Vec<ExpressionWithMetadata>,
    value: i32,
    next_label: nat,
)
    requires
        callee.expression matches Expression::Id(name) && name@ == "println"@,
        arguments@.len() == 1,
        arguments@[0].expression == Expression::Value(Value::Integer(value)),
    ensures
        compiled(Expression::FunctionCall(callee, arguments), next_label) == Ok::<
            (Seq<PseudoOp>, nat),
            CompileError,
        >((seq![fetch_output(), PseudoOp::Push(Literal::Int(value)), call_println()], next_label)),
{
    let list = arguments@;
    assert(compiled_list(list, 0, next_label) == Ok::<(Seq<PseudoOp>, nat), CompileError>(
        (Seq::empty(), next_label),
    ));
    let pushed = seq![PseudoOp::Push(Literal::Int(value))];
    assert(Seq::<PseudoOp>::empty() + pushed =~= pushed);
    assert(compiled(list[0].expression, next_label) == Ok::<(Seq<PseudoOp>, nat), CompileError>(
        (pushed, next_label),
    ));
    assert(compiled_list(list, (1 - 1) as nat, next_label) == compiled_list(list, 0, next_label));
    assert(compiled_list(list, 1, next_label) == Ok::<(Seq<PseudoOp>, nat), CompileError>(
        (pushed, next_label),
    ));
    assert(seq![fetch_output()] + (pushed + seq![call_println()]) =~= seq![
        fetch_output(),
        PseudoOp::Push(Literal::Int(value)),
        call_println(),
    ]);
}

/// Whether `expression` is a call of something other than `println`.
pub open spec fn calls_unknown_function(expression: Expression) -> bool {
    match expression {
        Expression::FunctionCall(callee, arguments) => match callee.expression {
            Expression::Id(name) => name@ != "println"@,
            _ => true,
        },
        _ => false,
    }
}

/// A call of anything but `println` is refused as unsupported, whatever its
/// arguments are.
pub proof fn lemma_unknown_call_is_refused(expression: Expression, next_label: nat)
    requires
        calls_unknown_function(expression),
    ensures
        compiled(expression, next_label) == Err::<(Seq<PseudoOp>, nat), CompileError>(
            CompileError::UnsupportedConstruct,
        ),
{
}

/// A list of expressions of which one is a call of an unknown function
/// cannot be compiled.
pub proof fn lemma_list_with_unknown_call(
    list: Seq<ExpressionWithMetadata>,
    at: int,
    next_label: nat,
)
    requires
        0 <= at < list.len(),
        calls_unknown_function(list[at].expression),
    ensures
        compiled_list(list, list.len(), next_label) is Err,
{
    if compiled_list(list, at as nat, next_label) is Ok {
        let reached = compiled_list(list, at as nat, next_label).unwrap().1;
        lemma_unknown_call_is_refused(list[at].expression, reached);
    } else {
        assert(compiled_list(list, (at + 1) as nat, next_label) is Err);
    }
    lemma_list_error_stays(list, (at + 1) as nat, next_label);
}

/// A program of which a statement of `main` is a call of an unknown
/// function yields no class file.
pub proof fn lemma_program_with_unknown_call(expressions: Seq<ExpressionWithMetadata>, at: int)
    requires
        main_body(expressions) is Some,
        0 <= at < main_body(expressions).unwrap().len(),
        calls_unknown_function(main_body(expressions).unwrap()[at].expression),
    ensures
        program(expressions) is Err,
{
    lemma_list_with_unknown_call(main_body(expressions).unwrap(), at, 0);
}

} // verus!
