use rusp::bytecode::Instruction;
use rusp::constant_pool::ConstantPool;
use rusp::errors::CompileError;
use rusp::jvm_type::PushLiteral;
use rusp::label_generator::LabelGenerator;
use rusp::pseudo_instruction::{
    compile_to_jvm_instructions, lower_pseudo_instructions, PseudoInstruction,
};

fn lowered(code: Vec<PseudoInstruction>) -> Result<Vec<Instruction>, CompileError> {
    compile_to_jvm_instructions(code, &mut LabelGenerator::new(), &mut ConstantPool::new())
}

fn integer(value: i32) -> PseudoInstruction {
    PseudoInstruction::Push(PushLiteral::Int(value))
}

fn string(value: &str) -> PseudoInstruction {
    PseudoInstruction::Push(PushLiteral::String(value.to_string()))
}

fn store(name: &str, declare: bool) -> PseudoInstruction {
    PseudoInstruction::Store(name.to_string(), declare)
}

fn load(name: &str) -> PseudoInstruction {
    PseudoInstruction::Load(name.to_string())
}

fn println() -> PseudoInstruction {
    PseudoInstruction::InvokeVirtual {
        class: "java/io/PrintStream".to_string(),
        method: "println".to_string(),
        descriptor: "(Ljava/lang/String;)V".to_string(),
    }
}

fn stdout() -> PseudoInstruction {
    PseudoInstruction::GetStaticField {
        class: "java/lang/System".to_string(),
        field: "out".to_string(),
        field_type: "Ljava/io/PrintStream;".to_string(),
    }
}

#[test]
fn nothing_lowers_to_nothing() {
    assert_eq!(lowered(vec![]), Ok(vec![]));
}

#[test]
fn markers_and_jumps_carry_their_labels() {
    assert_eq!(
        lowered(vec![
            PseudoInstruction::Label(4),
            PseudoInstruction::Goto(4),
            PseudoInstruction::BranchIfFalse(5),
            PseudoInstruction::BranchIfTrue(6),
            PseudoInstruction::Return,
        ]),
        Ok(vec![
            Instruction::Label(4),
            Instruction::Goto(4),
            Instruction::Ifeq(5),
            Instruction::Ifne(6),
            Instruction::Return,
        ])
    );
}

#[test]
fn integers_and_strings_are_loaded_from_the_pool() {
    let mut pool = ConstantPool::new();
    let code = vec![integer(1), string("a"), integer(1), integer(2), string("a")];
    assert_eq!(
        compile_to_jvm_instructions(code, &mut LabelGenerator::new(), &mut pool),
        Ok(vec![
            Instruction::Ldc(1),
            Instruction::Ldc(3),
            Instruction::Ldc(1),
            Instruction::Ldc(4),
            Instruction::Ldc(3),
        ])
    );
    assert_eq!(pool.len(), 4);
    assert_eq!(pool.add_integer(1), 1);
    assert_eq!(pool.add_utf8("a".to_string()), 2);
    assert_eq!(pool.add_string("a".to_string()), 3);
    assert_eq!(pool.add_integer(2), 4);
}

#[test]
fn a_small_integer_goes_through_the_pool_too() {
    assert_eq!(lowered(vec![integer(0)]), Ok(vec![Instruction::Ldc(1)]));
}

#[test]
fn constants_go_behind_what_the_pool_holds() {
    let mut pool = ConstantPool::new();
    pool.add_utf8("x".to_string());
    pool.add_integer(5);
    assert_eq!(
        compile_to_jvm_instructions(vec![integer(6), integer(5)], &mut LabelGenerator::new(), &mut pool),
        Ok(vec![Instruction::Ldc(3), Instruction::Ldc(2)])
    );
}

#[test]
fn a_constant_past_index_255_is_loaded_wide() {
    let mut pool = ConstantPool::new();
    for value in 0..255 {
        pool.add_integer(value);
    }
    let result = compile_to_jvm_instructions(
        vec![integer(254), integer(1000), integer(1001)],
        &mut LabelGenerator::new(),
        &mut pool,
    );
    assert_eq!(
        result,
        Ok(vec![Instruction::Ldc(255), Instruction::Ldc(256), Instruction::Ldc(257)])
    );
}

#[test]
fn booleans_and_bytes_are_pushed_as_they_are() {
    let mut pool = ConstantPool::new();
    let code = vec![
        PseudoInstruction::Push(PushLiteral::Boolean(true)),
        PseudoInstruction::Push(PushLiteral::Boolean(false)),
        PseudoInstruction::Push(PushLiteral::Byte(200)),
    ];
    assert_eq!(
        compile_to_jvm_instructions(code, &mut LabelGenerator::new(), &mut pool),
        Ok(vec![Instruction::Bipush(1), Instruction::Bipush(0), Instruction::Bipush(200)])
    );
    assert_eq!(pool.len(), 0);
}

#[test]
fn other_literals_are_unsupported() {
    for literal in [
        PushLiteral::Char(1),
        PushLiteral::Short(1),
        PushLiteral::Long(1),
        PushLiteral::Float(1.5f32.to_bits()),
        PushLiteral::Double(1.5f64.to_bits()),
    ] {
        assert_eq!(
            lowered(vec![PseudoInstruction::Push(literal)]),
            Err(CompileError::UnsupportedConstruct)
        );
    }
}

#[test]
fn a_declaration_takes_the_next_slot_and_an_assignment_reuses_it() {
    assert_eq!(
        lowered(vec![
            integer(1),
            store("x", true),
            integer(2),
            store("y", true),
            integer(3),
            store("x", false),
            load("y"),
            load("x"),
        ]),
        Ok(vec![
            Instruction::Ldc(1),
            Instruction::Istore(0),
            Instruction::Ldc(2),
            Instruction::Istore(1),
            Instruction::Ldc(3),
            Instruction::Istore(0),
            Instruction::Iload(1),
            Instruction::Iload(0),
        ])
    );
}

#[test]
fn references_use_the_reference_forms() {
    assert_eq!(
        lowered(vec![string("s"), store("x", true), load("x"), store("y", true)]),
        Ok(vec![
            Instruction::Ldc(2),
            Instruction::Astore(0),
            Instruction::Aload(0),
            Instruction::Astore(1),
        ])
    );
}

#[test]
fn booleans_and_bytes_use_the_integer_forms() {
    assert_eq!(
        lowered(vec![
            PseudoInstruction::Push(PushLiteral::Boolean(true)),
            store("b", true),
            PseudoInstruction::Push(PushLiteral::Byte(3)),
            store("c", true),
            load("b"),
            load("c"),
        ]),
        Ok(vec![
            Instruction::Bipush(1),
            Instruction::Istore(0),
            Instruction::Bipush(3),
            Instruction::Istore(1),
            Instruction::Iload(0),
            Instruction::Iload(1),
        ])
    );
}

#[test]
fn a_redeclaration_shadows_with_a_new_slot() {
    assert_eq!(
        lowered(vec![integer(1), store("x", true), string("s"), store("x", true), load("x")]),
        Ok(vec![
            Instruction::Ldc(1),
            Instruction::Istore(0),
            Instruction::Ldc(3),
            Instruction::Astore(1),
            Instruction::Aload(1),
        ])
    );
}

#[test]
fn an_assignment_keeps_the_declared_type() {
    assert_eq!(
        lowered(vec![integer(1), store("x", true), string("s"), store("x", false), load("x")]),
        Ok(vec![
            Instruction::Ldc(1),
            Instruction::Istore(0),
            Instruction::Ldc(3),
            Instruction::Astore(0),
            Instruction::Iload(0),
        ])
    );
}

#[test]
fn loading_an_unknown_variable_is_unresolved() {
    assert_eq!(lowered(vec![load("x")]), Err(CompileError::UnresolvedReference));
}

#[test]
fn assigning_an_unknown_variable_is_unresolved() {
    assert_eq!(lowered(vec![integer(1), store("x", false)]), Err(CompileError::UnresolvedReference));
}

#[test]
fn storing_from_an_empty_stack_is_a_type_mismatch() {
    assert_eq!(lowered(vec![store("x", true)]), Err(CompileError::TypeMismatch));
    assert_eq!(lowered(vec![store("x", false)]), Err(CompileError::TypeMismatch));
}

#[test]
fn a_dropped_variable_is_out_of_scope_and_its_slot_stays_taken() {
    let drop = PseudoInstruction::Drop("x".to_string());
    assert_eq!(
        lowered(vec![integer(1), store("x", true), drop, load("x")]),
        Err(CompileError::UnresolvedReference)
    );
    let drop = PseudoInstruction::Drop("x".to_string());
    assert_eq!(
        lowered(vec![integer(1), store("x", true), drop, integer(1), store("y", true)]),
        Ok(vec![
            Instruction::Ldc(1),
            Instruction::Istore(0),
            Instruction::Ldc(1),
            Instruction::Istore(1),
        ])
    );
}

#[test]
fn the_256th_declaration_exceeds_the_slots() {
    let mut code = Vec::new();
    for i in 0..255 {
        code.push(integer(0));
        code.push(store(&format!("v{}", i), true));
    }
    assert_eq!(lowered(code).unwrap().len(), 510);
    let mut code = Vec::new();
    for i in 0..256 {
        code.push(integer(0));
        code.push(store(&format!("v{}", i), true));
    }
    assert_eq!(lowered(code), Err(CompileError::LimitExceeded));
}

#[test]
fn adding_two_integers() {
    assert_eq!(
        lowered(vec![integer(1), integer(2), PseudoInstruction::Add, store("x", true)]),
        Ok(vec![
            Instruction::Ldc(1),
            Instruction::Ldc(2),
            Instruction::Iadd,
            Instruction::Istore(0),
        ])
    );
}

#[test]
fn adding_anything_else_is_a_type_mismatch() {
    assert_eq!(lowered(vec![PseudoInstruction::Add]), Err(CompileError::TypeMismatch));
    assert_eq!(lowered(vec![integer(1), PseudoInstruction::Add]), Err(CompileError::TypeMismatch));
    assert_eq!(
        lowered(vec![integer(1), string("a"), PseudoInstruction::Add]),
        Err(CompileError::TypeMismatch)
    );
    assert_eq!(
        lowered(vec![string("a"), integer(1), PseudoInstruction::Add]),
        Err(CompileError::TypeMismatch)
    );
    assert_eq!(
        lowered(vec![
            PseudoInstruction::Push(PushLiteral::Boolean(true)),
            integer(1),
            PseudoInstruction::Add
        ]),
        Err(CompileError::TypeMismatch)
    );
}

#[test]
fn comparing_for_equality_branches_on_inequality() {
    assert_eq!(
        lowered(vec![integer(1), integer(1), PseudoInstruction::CompareEqual]),
        Ok(vec![
            Instruction::Ldc(1),
            Instruction::Ldc(1),
            Instruction::IfIcmpne(0),
            Instruction::Bipush(1),
            Instruction::Goto(1),
            Instruction::Label(0),
            Instruction::Bipush(0),
            Instruction::Label(1),
        ])
    );
}

#[test]
fn comparing_for_inequality_branches_on_equality() {
    let mut labels = LabelGenerator::new();
    labels.get_new_label();
    labels.get_new_label();
    labels.get_new_label();
    let result = compile_to_jvm_instructions(
        vec![integer(1), integer(2), PseudoInstruction::CompareNotEqual],
        &mut labels,
        &mut ConstantPool::new(),
    );
    assert_eq!(
        result,
        Ok(vec![
            Instruction::Ldc(1),
            Instruction::Ldc(2),
            Instruction::IfIcmpeq(3),
            Instruction::Bipush(1),
            Instruction::Goto(4),
            Instruction::Label(3),
            Instruction::Bipush(0),
            Instruction::Label(4),
        ])
    );
    assert_eq!(labels.get_new_label(), 5);
}

#[test]
fn a_comparison_leaves_one_integer() {
    let code = vec![
        integer(1),
        integer(2),
        PseudoInstruction::CompareEqual,
        integer(3),
        integer(4),
        PseudoInstruction::CompareNotEqual,
        PseudoInstruction::CompareEqual,
        store("x", true),
        store("nothing", true),
    ];
    assert_eq!(lowered(code), Err(CompileError::TypeMismatch));
    let code = vec![
        integer(1),
        integer(2),
        PseudoInstruction::CompareEqual,
        integer(3),
        PseudoInstruction::Add,
        store("x", true),
    ];
    let instructions = lowered(code).unwrap();
    assert_eq!(instructions[instructions.len() - 2], Instruction::Iadd);
    assert_eq!(instructions[instructions.len() - 1], Instruction::Istore(0));
}

#[test]
fn comparing_anything_else_is_a_type_mismatch() {
    assert_eq!(lowered(vec![PseudoInstruction::CompareEqual]), Err(CompileError::TypeMismatch));
    assert_eq!(
        lowered(vec![integer(1), PseudoInstruction::CompareNotEqual]),
        Err(CompileError::TypeMismatch)
    );
    assert_eq!(
        lowered(vec![string("a"), string("a"), PseudoInstruction::CompareEqual]),
        Err(CompileError::TypeMismatch)
    );
}

#[test]
fn a_branch_pops_its_guard() {
    assert_eq!(
        lowered(vec![integer(1), PseudoInstruction::BranchIfFalse(0), store("x", true)]),
        Err(CompileError::TypeMismatch)
    );
    assert_eq!(
        lowered(vec![integer(1), integer(2), PseudoInstruction::BranchIfTrue(0), store("x", true)]),
        Ok(vec![
            Instruction::Ldc(1),
            Instruction::Ldc(2),
            Instruction::Ifne(0),
            Instruction::Istore(0),
        ])
    );
}

#[test]
fn a_field_and_a_method_are_resolved_through_the_pool() {
    let mut pool = ConstantPool::new();
    let result = compile_to_jvm_instructions(
        vec![stdout(), string("hi"), println(), PseudoInstruction::Return],
        &mut LabelGenerator::new(),
        &mut pool,
    );
    assert_eq!(
        result,
        Ok(vec![
            Instruction::GetStatic(6),
            Instruction::Ldc(8),
            Instruction::InvokeVirtual(14),
            Instruction::Return,
        ])
    );
    assert_eq!(pool.len(), 14);
    assert_eq!(
        pool.add_field(
            "java/lang/System".to_string(),
            "out".to_string(),
            "Ljava/io/PrintStream;".to_string()
        ),
        6
    );
    assert_eq!(
        pool.add_method(
            "java/io/PrintStream".to_string(),
            "println".to_string(),
            "(Ljava/lang/String;)V".to_string()
        ),
        14
    );
}

#[test]
fn an_invocation_pops_the_receiver_and_the_arguments() {
    let call = |descriptor: &str| PseudoInstruction::InvokeVirtual {
        class: "C".to_string(),
        method: "m".to_string(),
        descriptor: descriptor.to_string(),
    };
    assert_eq!(
        lowered(vec![integer(1), integer(2), integer(3), call("(I)V"), store("x", true), store("y", true)]),
        Err(CompileError::TypeMismatch)
    );
    assert!(lowered(vec![integer(1), integer(2), integer(3), call("(I)V"), store("x", true)]).is_ok());
    assert!(lowered(vec![integer(1), integer(2), integer(3), call("()V"), store("x", true), store("y", true)])
        .is_ok());
    assert_eq!(
        lowered(vec![integer(1), integer(2), integer(3), call("(II)V"), store("x", true)]),
        Err(CompileError::TypeMismatch)
    );
    assert_eq!(
        lowered(vec![integer(1), call("(IIII)V"), store("x", true)]),
        Err(CompileError::TypeMismatch)
    );
}

fn field(descriptor: &str) -> PseudoInstruction {
    PseudoInstruction::GetStaticField {
        class: "K".to_string(),
        field: "f".to_string(),
        field_type: descriptor.to_string(),
    }
}

#[test]
fn fetching_a_field_pushes_a_value_of_its_type() {
    assert_eq!(
        lowered(vec![stdout(), store("x", true), store("y", true)]),
        Err(CompileError::TypeMismatch)
    );
    assert_eq!(
        lowered(vec![stdout(), store("x", true), load("x")]),
        Ok(vec![Instruction::GetStatic(6), Instruction::Astore(0), Instruction::Aload(0)])
    );
    for descriptor in ["I", "Z", "B", "C", "S"] {
        assert_eq!(
            lowered(vec![field(descriptor), store("x", true)]),
            Ok(vec![Instruction::GetStatic(6), Instruction::Istore(0)])
        );
    }
    for descriptor in ["Ljava/lang/String;", "[I", "[[Ljava/lang/Object;"] {
        assert_eq!(
            lowered(vec![field(descriptor), store("x", true)]),
            Ok(vec![Instruction::GetStatic(6), Instruction::Astore(0)])
        );
    }
    for descriptor in ["J", "F", "D"] {
        assert_eq!(lowered(vec![field(descriptor)]), Ok(vec![Instruction::GetStatic(6)]));
        assert_eq!(
            lowered(vec![field(descriptor), store("x", true)]),
            Err(CompileError::UnsupportedConstruct)
        );
    }
    assert_eq!(
        lowered(vec![field("I"), field("I"), PseudoInstruction::Add, store("x", true)]),
        Ok(vec![
            Instruction::GetStatic(6),
            Instruction::GetStatic(6),
            Instruction::Iadd,
            Instruction::Istore(0),
        ])
    );
}

#[test]
fn a_field_whose_descriptor_names_no_type_is_unsupported() {
    for descriptor in ["", "V", "x", "(I)V", ";"] {
        let mut pool = ConstantPool::new();
        let result =
            compile_to_jvm_instructions(vec![field(descriptor)], &mut LabelGenerator::new(), &mut pool);
        assert_eq!(result, Err(CompileError::UnsupportedConstruct));
        assert_eq!(pool.len(), 0);
    }
}

#[test]
fn an_invocation_takes_the_stream_and_its_argument_and_leaves_the_rest() {
    let mut pool = ConstantPool::new();
    let result = compile_to_jvm_instructions(
        vec![string("s"), stdout(), integer(1), println(), store("v", true)],
        &mut LabelGenerator::new(),
        &mut pool,
    );
    assert_eq!(
        result,
        Ok(vec![
            Instruction::Ldc(2),
            Instruction::GetStatic(8),
            Instruction::Ldc(9),
            Instruction::InvokeVirtual(15),
            Instruction::Astore(0),
        ])
    );
    assert_eq!(pool.len(), 15);
}

fn room(code: Vec<PseudoInstruction>) -> (usize, u8) {
    let lowered =
        lower_pseudo_instructions(code, &mut LabelGenerator::new(), &mut ConstantPool::new())
            .unwrap();
    (lowered.max_stack, lowered.max_locals)
}

#[test]
fn code_without_values_needs_no_room() {
    assert_eq!(room(vec![]), (0, 0));
    assert_eq!(
        room(vec![PseudoInstruction::Label(1), PseudoInstruction::Goto(1), PseudoInstruction::Return]),
        (0, 0)
    );
}

#[test]
fn the_stack_is_as_deep_as_it_ever_gets() {
    assert_eq!(room(vec![integer(1)]), (1, 0));
    assert_eq!(room(vec![integer(1), integer(2), integer(3)]), (3, 0));
    assert_eq!(room(vec![integer(1), store("x", true), integer(2), store("y", true)]), (1, 2));
    assert_eq!(
        room(vec![integer(1), integer(2), PseudoInstruction::Add, integer(3), PseudoInstruction::Add]),
        (2, 0)
    );
    assert_eq!(
        room(vec![
            integer(1),
            integer(2),
            integer(3),
            PseudoInstruction::CompareEqual,
            PseudoInstruction::BranchIfFalse(9),
            PseudoInstruction::BranchIfTrue(9),
            integer(4),
        ]),
        (3, 0)
    );
    assert_eq!(room(vec![stdout(), string("a"), println()]), (2, 0));
    assert_eq!(room(vec![stdout(), string("a"), println(), stdout(), string("b"), println()]), (2, 0));
    assert_eq!(room(vec![integer(1), store("x", true), load("x"), load("x"), load("x")]), (3, 1));
}

#[test]
fn every_declaration_takes_a_slot_and_no_assignment_does() {
    assert_eq!(
        room(vec![
            integer(1),
            store("x", true),
            integer(2),
            store("x", false),
            integer(3),
            store("y", true),
            integer(4),
            store("x", true),
            PseudoInstruction::Drop("y".to_string()),
        ]),
        (1, 3)
    );
    let mut code = Vec::new();
    for i in 0..255 {
        code.push(integer(0));
        code.push(store(&format!("v{}", i), true));
    }
    assert_eq!(room(code), (1, 255));
}

#[test]
fn the_instructions_come_with_their_room() {
    let mut pool = ConstantPool::new();
    let mut labels = LabelGenerator::new();
    let lowered = lower_pseudo_instructions(
        vec![integer(5), store("x", true), load("x"), load("x"), PseudoInstruction::Add],
        &mut labels,
        &mut pool,
    )
    .unwrap();
    assert_eq!(
        lowered.instructions,
        vec![
            Instruction::Ldc(1),
            Instruction::Istore(0),
            Instruction::Iload(0),
            Instruction::Iload(0),
            Instruction::Iadd,
        ]
    );
    assert_eq!((lowered.max_stack, lowered.max_locals), (2, 1));
    assert_eq!(
        lower_pseudo_instructions(vec![load("x")], &mut labels, &mut pool).err(),
        Some(CompileError::UnresolvedReference)
    );
}

#[test]
fn a_constant_that_does_not_fit_exceeds_the_limits() {
    let long = "x".repeat(65536);
    assert_eq!(lowered(vec![string(&long)]), Err(CompileError::LimitExceeded));
    let mut pool = ConstantPool::new();
    for value in 0..65534 {
        pool.add_integer(value);
    }
    let mut labels = LabelGenerator::new();
    assert_eq!(
        compile_to_jvm_instructions(vec![integer(5), integer(-1)], &mut labels, &mut pool),
        Err(CompileError::LimitExceeded)
    );
}

#[test]
fn the_first_pseudo_instruction_that_fails_gives_the_error() {
    assert_eq!(
        lowered(vec![load("x"), PseudoInstruction::Add]),
        Err(CompileError::UnresolvedReference)
    );
    assert_eq!(
        lowered(vec![PseudoInstruction::Add, load("x")]),
        Err(CompileError::TypeMismatch)
    );
}

#[test]
fn lowering_twice_gives_the_same_instructions() {
    let code = || vec![stdout(), integer(1), integer(2), PseudoInstruction::CompareEqual, println()];
    assert_eq!(lowered(code()), lowered(code()));
}
