//! From the syntax tree to pseudo-instructions.
//!
//! Each expression is compiled to the pseudo-instructions that leave its
//! value on the operand stack. Conditions and loops become branches to
//! fresh labels; the one function that can be called is `println`.

use crate::class_file::{assembled, assembled_all, class_views, compile, images, ClassImage};
use crate::errors::CompileError;
use crate::jvm_type::{Literal, PushLiteral};
use crate::label_generator::LabelGenerator;
use crate::parser::{Expression, ExpressionWithMetadata, Operator, Value};
use crate::pseudo_instruction::{views, PseudoInstruction, PseudoOp};
use crate::structs::{Class, ClassSource, Method, MethodSource, PUBLIC_CLASS, PUBLIC_STATIC_METHOD};
use crate::variable_stack::VariableStack;
use vstd::prelude::*;

verus! {

broadcast use vstd::std_specs::vec::axiom_vec_index_decreases;

/// The pseudo-instruction that applies `operator` to the two values on top
/// of the stack.
pub open spec fn operation(operator: Operator) -> PseudoOp {
    match operator {
        Operator::Plus => PseudoOp::Add,
        Operator::Equality => PseudoOp::CompareEqual,
        Operator::Inequality => PseudoOp::CompareNotEqual,
    }
}

/// The pseudo-instruction that fetches the standard output stream.
pub open spec fn fetch_output() -> PseudoOp {
    PseudoOp::GetStaticField {
        class: "java/lang/System"@,
        field: "out"@,
        field_type: "Ljava/io/PrintStream;"@,
    }
}

/// The pseudo-instruction that calls `println` on the stream.
pub open spec fn call_println() -> PseudoOp {
    PseudoOp::InvokeVirtual {
        class: "java/io/PrintStream"@,
        method: "println"@,
        descriptor: "(Ljava/lang/String;)V"@,
    }
}

/// `code` with `more` behind it, where there is code.
pub open spec fn followed_by(
    code: Result<(Seq<PseudoOp>, nat), CompileError>,
    more: Seq<PseudoOp>,
) -> Result<(Seq<PseudoOp>, nat), CompileError> {
    match code {
        Ok((code, next_label)) => Ok((code + more, next_label)),
        Err(error) => Err(error),
    }
}

/// `code` with `before` in front of it, where there is code.
pub open spec fn preceded_by(
    before: Seq<PseudoOp>,
    code: Result<(Seq<PseudoOp>, nat), CompileError>,
) -> Result<(Seq<PseudoOp>, nat), CompileError> {
    match code {
        Ok((code, next_label)) => Ok((before + code, next_label)),
        Err(error) => Err(error),
    }
}

/// The pseudo-instructions of `expression`, and the next free label behind
/// them, where `next_label` is the next free label before. An expression
/// for which there is no rule, or a part of it, yields an error.
pub open spec fn compiled(expression: Expression, next_label: nat) -> Result<
    (Seq<PseudoOp>, nat),
    CompileError,
>
    decreases expression, 0nat,
{
    match expression {
        Expression::Value(Value::Integer(value)) => Ok(
            (seq![PseudoOp::Push(Literal::Int(value))], next_label),
        ),
        Expression::Value(Value::String(text)) => Ok(
            (seq![PseudoOp::Push(Literal::String(text@))], next_label),
        ),
        Expression::Id(name) => Ok((seq![PseudoOp::Load(name@)], next_label)),
        Expression::Scope(expressions) => compiled_list(
            expressions@,
            expressions@.len(),
            next_label,
        ),
        Expression::Declaration(name, rhs) => followed_by(
            compiled(rhs.expression, next_label),
            seq![PseudoOp::Store(name.label@, true)],
        ),
        Expression::Assignment(name, rhs) => followed_by(
            compiled(rhs.expression, next_label),
            seq![PseudoOp::Store(name.label@, false)],
        ),
        Expression::Operation(operator, terms) => if terms@.len() == 0 {
            Err(CompileError::UnsupportedConstruct)
        } else {
            compiled_terms(operator, terms@, terms@.len(), next_label)
        },
        Expression::If { guard, base_case } => if next_label + 1 > u64::MAX {
            Err(CompileError::LimitExceeded)
        } else {
            let out_label = next_label as u64;
            match compiled(guard.expression, next_label + 1) {
                Err(error) => Err(error),
                Ok((guard_code, after_guard)) => preceded_by(
                    guard_code + seq![PseudoOp::BranchIfFalse(out_label)],
                    followed_by(
                        compiled(base_case.expression, after_guard),
                        seq![PseudoOp::Label(out_label)],
                    ),
                ),
            }
        },
        Expression::IfElse { guard, base_case, else_case } => if next_label + 2 > u64::MAX {
            Err(CompileError::LimitExceeded)
        } else {
            let else_label = next_label as u64;
            let out_label = (next_label + 1) as u64;
            match compiled(guard.expression, next_label + 2) {
                Err(error) => Err(error),
                Ok((guard_code, after_guard)) => match compiled(
                    base_case.expression,
                    after_guard,
                ) {
                    Err(error) => Err(error),
                    Ok((base_code, after_base)) => preceded_by(
                        guard_code + seq![PseudoOp::BranchIfFalse(else_label)] + base_code
                            + seq![PseudoOp::Goto(out_label), PseudoOp::Label(else_label)],
                        followed_by(
                            compiled(else_case.expression, after_base),
                            seq![PseudoOp::Label(out_label)],
                        ),
                    ),
                },
            }
        },
        Expression::While { guard, body } => if next_label + 2 > u64::MAX {
            Err(CompileError::LimitExceeded)
        } else {
            let guard_label = next_label as u64;
            let out_label = (next_label + 1) as u64;
            match compiled(guard.expression, next_label + 2) {
                Err(error) => Err(error),
                Ok((guard_code, after_guard)) => preceded_by(
                    seq![PseudoOp::Label(guard_label)] + guard_code
                        + seq![PseudoOp::BranchIfFalse(out_label)],
                    followed_by(
                        compiled(body.expression, after_guard),
                        seq![PseudoOp::Goto(guard_label), PseudoOp::Label(out_label)],
                    ),
                ),
            }
        },
        Expression::FunctionCall(callee, arguments) => match callee.expression {
            Expression::Id(name) => if name@ == "println"@ {
                preceded_by(
                    seq![fetch_output()],
                    followed_by(
                        compiled_list(arguments@, arguments@.len(), next_label),
                        seq![call_println()],
                    ),
                )
            } else {
                Err(CompileError::UnsupportedConstruct)
            },
            _ => Err(CompileError::UnsupportedConstruct),
        },
        _ => Err(CompileError::UnsupportedConstruct),
    }
}

/// The pseudo-instructions of the first `count` expressions of `list`, one
/// after the other.
pub open spec fn compiled_list(list: Seq<ExpressionWithMetadata>, count: nat, next_label: nat) -> Result<
    (Seq<PseudoOp>, nat),
    CompileError,
>
    decreases list, count,
{
    if count == 0 || count > list.len() {
        Ok((Seq::empty(), next_label))
    } else {
        match compiled_list(list, (count - 1) as nat, next_label) {
            Err(error) => Err(error),
            Ok((code, reached)) => preceded_by(
                code,
                compiled(list[count - 1].expression, reached),
            ),
        }
    }
}

/// The pseudo-instructions that fold `operator` over the first `count`
/// terms of `list`, from the left: the first term, then each further term
/// with the operator behind it.
pub open spec fn compiled_terms(
    operator: Operator,
    list: Seq<ExpressionWithMetadata>,
    count: nat,
    next_label: nat,
) -> Result<(Seq<PseudoOp>, nat), CompileError>
    decreases list, count,
{
    if count == 0 || count > list.len() {
        Ok((Seq::empty(), next_label))
    } else if count == 1 {
        compiled(list[0].expression, next_label)
    } else {
        match compiled_terms(operator, list, (count - 1) as nat, next_label) {
            Err(error) => Err(error),
            Ok((code, reached)) => preceded_by(
                code,
                followed_by(
                    compiled(list[count - 1].expression, reached),
                    seq![operation(operator)],
                ),
            ),
        }
    }
}

/// Whether a compilation that returned `result`, with the code `now` and
/// the next free label `next_label` behind it, did what `outcome` asks for
/// on top of the code `before`.
pub open spec fn carried_out(
    outcome: Result<(Seq<PseudoOp>, nat), CompileError>,
    result: Result<(), CompileError>,
    before: Seq<PseudoOp>,
    now: Seq<PseudoOp>,
    next_label: nat,
) -> bool {
    match result {
        Ok(()) => outcome is Ok && now == before + outcome.unwrap().0 && next_label
            == outcome.unwrap().1,
        Err(error) => outcome == Err::<(Seq<PseudoOp>, nat), CompileError>(error),
    }
}

/// Whether `name` is the text `println`.
fn is_println(name: &String) -> (same: bool)
    ensures
        same == (name@ == "println"@),
{
    let println = "println".to_owned();
    proof {
        assert((name@ == println@) == (name@ =~= println@));
    }
    *name == println
}

/// Compiles expressions to pseudo-instructions, which gather in `code`.
pub struct CodeCompiler {
    pub code: Vec<PseudoInstruction>,
    pub variables: VariableStack,
    pub label_generator: LabelGenerator,
}

impl CodeCompiler {
    /// A compiler that has emitted nothing, issued no label and handed out
    /// no slot.
    pub fn new() -> (compiler: Self)
        ensures
            compiler.code@ == Seq::<PseudoInstruction>::empty(),
            compiler.variables.wf(),
            compiler.variables@ == Map::<Seq<char>, (u8, crate::jvm_type::JvmType)>::empty(),
            compiler.variables.next_index() == 0,
            compiler.label_generator.next() == 0,
    {
        CodeCompiler {
            code: Vec::new(),
            variables: VariableStack::new(),
            label_generator: LabelGenerator::new(),
        }
    }

    /// Appends one pseudo-instruction.
    fn emit(&mut self, instruction: PseudoInstruction)
        ensures
            views(final(self).code@) == views(old(self).code@) + seq![instruction@],
            final(self).variables == old(self).variables,
            final(self).label_generator == old(self).label_generator,
    {
        self.code.push(instruction);
        assert(views(self.code@) =~= views(old(self).code@) + seq![instruction@]);
    }

    /// Issues a label, if one is left.
    fn new_label(&mut self) -> (label: Option<u64>)
        ensures
            final(self).code == old(self).code,
            final(self).variables == old(self).variables,
            match label {
                Some(label) => label == old(self).label_generator.next()
                    && final(self).label_generator.next() == old(self).label_generator.next() + 1
                    && old(self).label_generator.next() < u64::MAX,
                None => old(self).label_generator.next() >= u64::MAX && final(self).label_generator
                    == old(self).label_generator,
            },
    {
        if self.label_generator.is_exhausted() {
            None
        } else {
            Some(self.label_generator.get_new_label())
        }
    }

    /// Appends the pseudo-instructions of `expression` to `code`, taking the
    /// labels it needs from `label_generator`. An expression for which there
    /// is no rule ends the compilation with an error.
    pub fn compile_expression(&mut self, expression: &Expression) -> (result: Result<
        (),
        CompileError,
    >)
        ensures
            final(self).variables == old(self).variables,
            carried_out(
                compiled(*expression, old(self).label_generator.next()),
                result,
                views(old(self).code@),
                views(final(self).code@),
                final(self).label_generator.next(),
            ),
        decreases *expression, 1nat,
    {
        match expression {
            Expression::Value(Value::Integer(value)) => {
                self.emit(PseudoInstruction::Push(PushLiteral::Int(*value)));
                Ok(())
            },
            Expression::Value(Value::String(text)) => {
                self.emit(PseudoInstruction::Push(PushLiteral::String(text.clone())));
                Ok(())
            },
            Expression::Id(name) => {
                self.emit(PseudoInstruction::Load(name.clone()));
                Ok(())
            },
            Expression::Scope(expressions) => self.compile_list(expressions),
            Expression::Declaration(_, _) => self.compile_store(expression),
            Expression::Assignment(_, _) => self.compile_store(expression),
            Expression::Operation(operator, terms) => {
                if terms.len() == 0 {
                    return Err(CompileError::UnsupportedConstruct);
                }
                self.compile_terms(*operator, terms)
            },
            Expression::If { .. } => self.compile_if(expression),
            Expression::IfElse { .. } => self.compile_if_else(expression),
            Expression::While { .. } => self.compile_while(expression),
            Expression::FunctionCall(_, _) => self.compile_call(expression),
            _ => Err(CompileError::UnsupportedConstruct),
        }
    }

    /// Compiles a declaration or an assignment: the value, then the store.
    fn compile_store(&mut self, expression: &Expression) -> (result: Result<(), CompileError>)
        requires
            *expression is Declaration || *expression is Assignment,
        ensures
            final(self).variables == old(self).variables,
            carried_out(
                compiled(*expression, old(self).label_generator.next()),
                result,
                views(old(self).code@),
                views(final(self).code@),
                final(self).label_generator.next(),
            ),
        decreases *expression, 0nat,
    {
        let ghost before = views(self.code@);
        let ghost next = self.label_generator.next();
        let (name, rhs, declare) = match expression {
            Expression::Declaration(name, rhs) => (name, rhs, true),
            Expression::Assignment(name, rhs) => (name, rhs, false),
            _ => {
                return Err(CompileError::UnsupportedConstruct);
            },
        };
        match self.compile_expression(&rhs.expression) {
            Ok(()) => {},
            Err(error) => {
                return Err(error);
            },
        }
        self.emit(PseudoInstruction::Store(name.label.clone(), declare));
        proof {
            let value_code = compiled(rhs.expression, next).unwrap().0;
            assert(views(self.code@) =~= before + (value_code
                + seq![PseudoOp::Store(name.label@, declare)]));
        }
        Ok(())
    }

    /// Compiles a condition without an alternative.
    fn compile_if(&mut self, expression: &Expression) -> (result: Result<(), CompileError>)
        requires
            *expression is If,
        ensures
            final(self).variables == old(self).variables,
            carried_out(
                compiled(*expression, old(self).label_generator.next()),
                result,
                views(old(self).code@),
                views(final(self).code@),
                final(self).label_generator.next(),
            ),
        decreases *expression, 0nat,
    {
        let ghost before = views(self.code@);
        let ghost next = self.label_generator.next();
        let (guard, base_case) = match expression {
            Expression::If { guard, base_case } => (guard, base_case),
            _ => {
                return Err(CompileError::UnsupportedConstruct);
            },
        };
        let out_label = match self.new_label() {
            Some(label) => label,
            None => {
                return Err(CompileError::LimitExceeded);
            },
        };
        match self.compile_expression(&guard.expression) {
            Ok(()) => {},
            Err(error) => {
                return Err(error);
            },
        }
        self.emit(PseudoInstruction::BranchIfFalse(out_label));
        match self.compile_expression(&base_case.expression) {
            Ok(()) => {},
            Err(error) => {
                return Err(error);
            },
        }
        self.emit(PseudoInstruction::Label(out_label));
        proof {
            let guard_code = compiled(guard.expression, next + 1).unwrap().0;
            let after_guard = compiled(guard.expression, next + 1).unwrap().1;
            let base_code = compiled(base_case.expression, after_guard).unwrap().0;
            assert(views(self.code@) =~= before + (guard_code
                + seq![PseudoOp::BranchIfFalse(out_label)] + (base_code
                + seq![PseudoOp::Label(out_label)])));
        }
        Ok(())
    }

    /// Compiles a condition with an alternative.
    fn compile_if_else(&mut self, expression: &Expression) -> (result: Result<(), CompileError>)
        requires
            *expression is IfElse,
        ensures
            final(self).variables == old(self).variables,
            carried_out(
                compiled(*expression, old(self).label_generator.next()),
                result,
                views(old(self).code@),
                views(final(self).code@),
                final(self).label_generator.next(),
            ),
        decreases *expression, 0nat,
    {
        let ghost before = views(self.code@);
        let ghost next = self.label_generator.next();
        let (guard, base_case, else_case) = match expression {
            Expression::IfElse { guard, base_case, else_case } => (guard, base_case, else_case),
            _ => {
                return Err(CompileError::UnsupportedConstruct);
            },
        };
        let else_label = match self.new_label() {
            Some(label) => label,
            None => {
                return Err(CompileError::LimitExceeded);
            },
        };
        let out_label = match self.new_label() {
            Some(label) => label,
            None => {
                return Err(CompileError::LimitExceeded);
            },
        };
        match self.compile_expression(&guard.expression) {
            Ok(()) => {},
            Err(error) => {
                return Err(error);
            },
        }
        self.emit(PseudoInstruction::BranchIfFalse(else_label));
        match self.compile_expression(&base_case.expression) {
            Ok(()) => {},
            Err(error) => {
                return Err(error);
            },
        }
        self.emit(PseudoInstruction::Goto(out_label));
        self.emit(PseudoInstruction::Label(else_label));
        match self.compile_expression(&else_case.expression) {
            Ok(()) => {},
            Err(error) => {
                return Err(error);
            },
        }
        self.emit(PseudoInstruction::Label(out_label));
        proof {
            let guard_code = compiled(guard.expression, next + 2).unwrap().0;
            let after_guard = compiled(guard.expression, next + 2).unwrap().1;
            let base_code = compiled(base_case.expression, after_guard).unwrap().0;
            let after_base = compiled(base_case.expression, after_guard).unwrap().1;
            let else_code = compiled(else_case.expression, after_base).unwrap().0;
            assert(views(self.code@) =~= before + (guard_code
                + seq![PseudoOp::BranchIfFalse(else_label)] + base_code
                + seq![PseudoOp::Goto(out_label), PseudoOp::Label(else_label)] + (else_code
                + seq![PseudoOp::Label(out_label)])));
        }
        Ok(())
    }

    /// Compiles a loop.
    fn compile_while(&mut self, expression: &Expression) -> (result: Result<(), CompileError>)
        requires
            *expression is While,
        ensures
            final(self).variables == old(self).variables,
            carried_out(
                compiled(*expression, old(self).label_generator.next()),
                result,
                views(old(self).code@),
                views(final(self).code@),
                final(self).label_generator.next(),
            ),
        decreases *expression, 0nat,
    {
        let ghost before = views(self.code@);
        let ghost next = self.label_generator.next();
        let (guard, body) = match expression {
            Expression::While { guard, body } => (guard, body),
            _ => {
                return Err(CompileError::UnsupportedConstruct);
            },
        };
        let guard_label = match self.new_label() {
            Some(label) => label,
            None => {
                return Err(CompileError::LimitExceeded);
            },
        };
        let out_label = match self.new_label() {
            Some(label) => label,
            None => {
                return Err(CompileError::LimitExceeded);
            },
        };
        self.emit(PseudoInstruction::Label(guard_label));
        match self.compile_expression(&guard.expression) {
            Ok(()) => {},
            Err(error) => {
                return Err(error);
            },
        }
        self.emit(PseudoInstruction::BranchIfFalse(out_label));
        match self.compile_expression(&body.expression) {
            Ok(()) => {},
            Err(error) => {
                return Err(error);
            },
        }
        self.emit(PseudoInstruction::Goto(guard_label));
        self.emit(PseudoInstruction::Label(out_label));
        proof {
            let guard_code = compiled(guard.expression, next + 2).unwrap().0;
            let after_guard = compiled(guard.expression, next + 2).unwrap().1;
            let body_code = compiled(body.expression, after_guard).unwrap().0;
            assert(views(self.code@) =~= before + (seq![PseudoOp::Label(guard_label)] + guard_code
                + seq![PseudoOp::BranchIfFalse(out_label)] + (body_code
                + seq![PseudoOp::Goto(guard_label), PseudoOp::Label(out_label)])));
        }
        Ok(())
    }

    /// Compiles a call: only `println` can be called.
    fn compile_call(&mut self, expression: &Expression) -> (result: Result<(), CompileError>)
        requires
            *expression is FunctionCall,
        ensures
            final(self).variables == old(self).variables,
            carried_out(
                compiled(*expression, old(self).label_generator.next()),
                result,
                views(old(self).code@),
                views(final(self).code@),
                final(self).label_generator.next(),
            ),
        decreases *expression, 0nat,
    {
        let ghost before = views(self.code@);
        let ghost next = self.label_generator.next();
        let (callee, arguments) = match expression {
            Expression::FunctionCall(callee, arguments) => (callee, arguments),
            _ => {
                return Err(CompileError::UnsupportedConstruct);
            },
        };
        let name = match &callee.expression {
            Expression::Id(name) => name,
            _ => {
                return Err(CompileError::UnsupportedConstruct);
            },
        };
        if !is_println(name) {
            return Err(CompileError::UnsupportedConstruct);
        }
        self.emit(
            PseudoInstruction::GetStaticField {
                class: "java/lang/System".to_owned(),
                field: "out".to_owned(),
                field_type: "Ljava/io/PrintStream;".to_owned(),
            },
        );
        match self.compile_list(arguments) {
            Ok(()) => {},
            Err(error) => {
                return Err(error);
            },
        }
        self.emit(
            PseudoInstruction::InvokeVirtual {
                class: "java/io/PrintStream".to_owned(),
                method: "println".to_owned(),
                descriptor: "(Ljava/lang/String;)V".to_owned(),
            },
        );
        proof {
            let list = compiled_list(arguments@, arguments@.len(), next).unwrap().0;
            assert(views(self.code@) =~= before + (seq![fetch_output()] + (list
                + seq![call_println()])));
        }
        Ok(())
    }

    /// Compiles the expressions of `list`, one after the other.
    fn compile_list(&mut self, list: &Vec<ExpressionWithMetadata>) -> (result: Result<
        (),
        CompileError,
    >)
        ensures
            final(self).variables == old(self).variables,
            carried_out(
                compiled_list(list@, list@.len(), old(self).label_generator.next()),
                result,
                views(old(self).code@),
                views(final(self).code@),
                final(self).label_generator.next(),
            ),
        decreases *list, 0nat,
    {
        let ghost before = views(self.code@);
        let ghost next = self.label_generator.next();
        let mut i: usize = 0;
        assert(views(self.code@) =~= before + Seq::<PseudoOp>::empty());
        while i < list.len()
            invariant
                i <= list.len(),
                self.variables == old(self).variables,
                before == views(old(self).code@),
                next == old(self).label_generator.next(),
                carried_out(
                    compiled_list(list@, i as nat, next),
                    Ok::<(), CompileError>(()),
                    before,
                    views(self.code@),
                    self.label_generator.next(),
                ),
            decreases list.len() - i,
        {
            let ghost reached = compiled_list(list@, i as nat, next).unwrap();
            match self.compile_expression(&list[i].expression) {
                Ok(()) => {
                    proof {
                        let last = compiled(list@[i as int].expression, reached.1).unwrap();
                        assert(views(self.code@) =~= before + (reached.0 + last.0));
                    }
                },
                Err(error) => {
                    proof {
                        lemma_list_error_stays(list@, i as nat + 1, next);
                    }
                    return Err(error);
                },
            }
            i += 1;
        }
        Ok(())
    }

    /// Compiles the terms of an operation: the first, then each further one
    /// with the operator's pseudo-instruction behind it.
    fn compile_terms(&mut self, operator: Operator, terms: &Vec<ExpressionWithMetadata>) -> (result:
        Result<(), CompileError>)
        requires
            terms.len() > 0,
        ensures
            final(self).variables == old(self).variables,
            carried_out(
                compiled_terms(operator, terms@, terms@.len(), old(self).label_generator.next()),
                result,
                views(old(self).code@),
                views(final(self).code@),
                final(self).label_generator.next(),
            ),
        decreases *terms, 0nat,
    {
        let ghost before = views(self.code@);
        let ghost next = self.label_generator.next();
        match self.compile_expression(&terms[0].expression) {
            Ok(()) => {},
            Err(error) => {
                proof {
                    lemma_terms_error_stays(operator, terms@, 1, next);
                }
                return Err(error);
            },
        }
        let mut i: usize = 1;
        while i < terms.len()
            invariant
                1 <= i <= terms.len(),
                self.variables == old(self).variables,
                before == views(old(self).code@),
                next == old(self).label_generator.next(),
                carried_out(
                    compiled_terms(operator, terms@, i as nat, next),
                    Ok::<(), CompileError>(()),
                    before,
                    views(self.code@),
                    self.label_generator.next(),
                ),
            decreases terms.len() - i,
        {
            let ghost reached = compiled_terms(operator, terms@, i as nat, next).unwrap();
            match self.compile_expression(&terms[i].expression) {
                Ok(()) => {},
                Err(error) => {
                    proof {
                        lemma_terms_error_stays(operator, terms@, i as nat + 1, next);
                    }
                    return Err(error);
                },
            }
            match operator {
                Operator::Plus => self.emit(PseudoInstruction::Add),
                Operator::Equality => self.emit(PseudoInstruction::CompareEqual),
                Operator::Inequality => self.emit(PseudoInstruction::CompareNotEqual),
            }
            proof {
                let last = compiled(terms@[i as int].expression, reached.1).unwrap();
                assert(views(self.code@) =~= before + (reached.0 + (last.0
                    + seq![operation(operator)])));
            }
            i += 1;
        }
        Ok(())
    }
}

/// Once an expression of a list cannot be compiled, the list cannot be.
pub proof fn lemma_list_error_stays(list: Seq<ExpressionWithMetadata>, count: nat, next_label: nat)
    requires
        count <= list.len(),
        compiled_list(list, count, next_label) is Err,
    ensures
        compiled_list(list, list.len(), next_label) == compiled_list(list, count, next_label),
    decreases list.len() - count,
{
    if count < list.len() {
        lemma_list_error_stays(list, count + 1, next_label);
    }
}

/// Once a term of an operation cannot be compiled, the operation cannot be.
pub proof fn lemma_terms_error_stays(
    operator: Operator,
    list: Seq<ExpressionWithMetadata>,
    count: nat,
    next_label: nat,
)
    requires
        count <= list.len(),
        compiled_terms(operator, list, count, next_label) is Err,
    ensures
        compiled_terms(operator, list, list.len(), next_label) == compiled_terms(
            operator,
            list,
            count,
            next_label,
        ),
    decreases list.len() - count,
{
    if count < list.len() {
        lemma_terms_error_stays(operator, list, count + 1, next_label);
    }
}

/// Whether `expression` defines the function `main` with a block as its
/// body.
pub open spec fn is_main(expression: Expression) -> bool {
    match expression {
        Expression::NamedFunctionDefinition { name, parameters, body } => name.label@ == "main"@
            && body.expression is Scope,
        _ => false,
    }
}

/// The statements of the first definition of `main` among `expressions`,
/// if there is one.
pub open spec fn main_body(expressions: Seq<ExpressionWithMetadata>) -> Option<
    Seq<ExpressionWithMetadata>,
>
    decreases expressions.len(),
{
    if expressions.len() == 0 {
        None
    } else if is_main(expressions[0].expression) {
        match expressions[0].expression {
            Expression::NamedFunctionDefinition { name, parameters, body } => match body.expression {
                Expression::Scope(statements) => Some(statements@),
                _ => None,
            },
            _ => None,
        }
    } else {
        main_body(expressions.drop_first())
    }
}

/// The class `Main` whose one method, the public static `main`, has the
/// given body with a return behind it.
pub open spec fn main_class(code: Seq<PseudoOp>, next_label: nat) -> ClassSource {
    ClassSource {
        name: "Main"@,
        access_flags: PUBLIC_CLASS,
        methods: seq![
            MethodSource {
                name: "main"@,
                signature: "([Ljava/lang/String;)V"@,
                access_flags: PUBLIC_STATIC_METHOD,
                next_label,
                code: code.push(PseudoOp::Return),
            },
        ],
    }
}

/// The class file of a program: the statements of its `main` are compiled
/// one after the other, starting with the first label, and assembled as the
/// class `Main`. A program without `main` is refused.
pub open spec fn program(expressions: Seq<ExpressionWithMetadata>) -> Result<
    Seq<u8>,
    CompileError,
> {
    match main_body(expressions) {
        None => Err(CompileError::UnsupportedConstruct),
        Some(statements) => match compiled_list(statements, statements.len(), 0) {
            Err(error) => Err(error),
            Ok((code, next_label)) => match assembled(main_class(code, next_label)) {
                Err(error) => Err(error),
                Ok(image) => Ok(image.bytes()),
            },
        },
    }
}

/// The statements of the first definition of `main`, if there is one.
fn find_main(expressions: &Vec<ExpressionWithMetadata>) -> (body: Option<
    &Vec<ExpressionWithMetadata>,
>)
    ensures
        match body {
            Some(statements) => main_body(expressions@) == Some(statements@),
            None => main_body(expressions@) is None,
        },
{
    let mut i: usize = 0;
    assert(expressions@.skip(0) =~= expressions@);
    while i < expressions.len()
        invariant
            i <= expressions.len(),
            main_body(expressions@) == main_body(expressions@.skip(i as int)),
        decreases expressions.len() - i,
    {
        proof {
            assert(expressions@.skip(i as int)[0] == expressions@[i as int]);
            assert(expressions@.skip(i as int).drop_first() =~= expressions@.skip(i as int + 1));
        }
        match &expressions[i].expression {
            Expression::NamedFunctionDefinition { name, parameters, body } => {
                let main = "main".to_owned();
                proof {
                    assert((name.label@ == main@) == (name.label@ =~= main@));
                }
                if name.label == main {
                    match &body.expression {
                        Expression::Scope(statements) => {
                            return Some(statements);
                        },
                        _ => {},
                    }
                }
            },
            _ => {},
        }
        i += 1;
    }
    None
}

/// Compiles a program to the bytes of its class file: see `program`.
pub fn to_bytecode(expressions: Vec<ExpressionWithMetadata>) -> (result: Result<
    Vec<u8>,
    CompileError,
>)
    ensures
        match result {
            Ok(bytes) => program(expressions@) == Ok::<Seq<u8>, CompileError>(bytes@),
            Err(error) => program(expressions@) == Err::<Seq<u8>, CompileError>(error),
        },
{
    let statements = match find_main(&expressions) {
        Some(statements) => statements,
        None => {
            return Err(CompileError::UnsupportedConstruct);
        },
    };
    let mut code_compiler = CodeCompiler::new();
    match code_compiler.compile_list(statements) {
        Ok(()) => {},
        Err(error) => {
            return Err(error);
        },
    }
    let ghost body = views(code_compiler.code@);
    let ghost next_label = code_compiler.label_generator.next();
    assert(body =~= compiled_list(statements@, statements@.len(), 0).unwrap().0);
    let CodeCompiler { mut code, variables, label_generator } = code_compiler;
    code.push(PseudoInstruction::Return);
    assert(views(code@) =~= body.push(PseudoOp::Return));
    let method = Method {
        name: "main".to_owned(),
        signature: "([Ljava/lang/String;)V".to_owned(),
        access_flags: PUBLIC_STATIC_METHOD,
        label_generator,
        code,
    };
    let mut methods: Vec<Method> = Vec::new();
    methods.push(method);
    let class = Class { name: "Main".to_owned(), access_flags: PUBLIC_CLASS, methods };
    assert(class@.methods =~= seq![method@]);
    assert(class@ == main_class(body, next_label));
    let mut classes: Vec<Class> = Vec::new();
    classes.push(class);
    proof {
        let sources = class_views(classes@);
        assert(sources[0] == class@);
        assert(assembled_all(sources, 0) == Ok::<Seq<ClassImage>, CompileError>(Seq::empty()));
    }
    let class_files = match compile(classes) {
        Ok(class_files) => class_files,
        Err(error) => {
            return Err(error);
        },
    };
    let mut bytes: Vec<u8> = Vec::new();
    assert(images(class_files@).len() == 1);
    assert(images(class_files@)[0] == class_files@[0]@);
    class_files[0].write_to_file(&mut bytes);
    assert(bytes@ =~= class_files@[0]@.bytes());
    Ok(bytes)
}

} // verus!
