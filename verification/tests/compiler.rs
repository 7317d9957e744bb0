use rusp::bytecode::{compile_instructions, Instruction};
use rusp::compiler::{to_bytecode, CodeCompiler};
use rusp::constant_pool::ConstantPool;
use rusp::errors::CompileError;
use rusp::jvm_type::PushLiteral;
use rusp::parser::{Expression, ExpressionWithMetadata, Label, Operator, Value};
use rusp::pseudo_instruction::{compile_to_jvm_instructions, PseudoInstruction};

fn node(expression: Expression) -> ExpressionWithMetadata {
    ExpressionWithMetadata { expression, span: 0..0 }
}

fn boxed(expression: Expression) -> Box<ExpressionWithMetadata> {
    Box::new(node(expression))
}

fn name(label: &str) -> Label {
    Label { label: label.to_string(), span: 0..0 }
}

fn number(value: i32) -> Expression {
    Expression::Value(Value::Integer(value))
}

fn id(label: &str) -> Expression {
    Expression::Id(label.to_string())
}

fn call(function: &str, arguments: Vec<Expression>) -> Expression {
    Expression::FunctionCall(boxed(id(function)), arguments.into_iter().map(node).collect())
}

fn operation(operator: Operator, terms: Vec<Expression>) -> Expression {
    Expression::Operation(operator, terms.into_iter().map(node).collect())
}

fn main_with(statements: Vec<Expression>) -> Vec<ExpressionWithMetadata> {
    vec![node(Expression::NamedFunctionDefinition {
        name: name("main"),
        parameters: vec![],
        body: boxed(Expression::Scope(statements.into_iter().map(node).collect())),
    })]
}

fn compiled(expression: Expression) -> Result<Vec<PseudoInstruction>, CompileError> {
    let mut compiler = CodeCompiler::new();
    compiler.compile_expression(&expression)?;
    Ok(compiler.code)
}

fn push(value: i32) -> PseudoInstruction {
    PseudoInstruction::Push(PushLiteral::Int(value))
}

fn stdout() -> PseudoInstruction {
    PseudoInstruction::GetStaticField {
        class: "java/lang/System".to_string(),
        field: "out".to_string(),
        field_type: "Ljava/io/PrintStream;".to_string(),
    }
}

fn println() -> PseudoInstruction {
    PseudoInstruction::InvokeVirtual {
        class: "java/io/PrintStream".to_string(),
        method: "println".to_string(),
        descriptor: "(Ljava/lang/String;)V".to_string(),
    }
}

fn lowered_main(statements: Vec<Expression>) -> (Vec<Instruction>, ConstantPool) {
    let mut compiler = CodeCompiler::new();
    for statement in &statements {
        compiler.compile_expression(statement).unwrap();
    }
    let mut code = compiler.code;
    code.push(PseudoInstruction::Return);
    let mut pool = ConstantPool::new();
    let instructions =
        compile_to_jvm_instructions(code, &mut compiler.label_generator, &mut pool).unwrap();
    (instructions, pool)
}

#[test]
fn a_new_compiler_has_emitted_nothing() {
    let mut compiler = CodeCompiler::new();
    assert!(compiler.code.is_empty());
    assert_eq!(compiler.label_generator.get_new_label(), 0);
    assert_eq!(compiler.variables.get(&"x".to_string()), None);
}

#[test]
fn literals_and_names() {
    assert_eq!(compiled(number(5)), Ok(vec![push(5)]));
    assert_eq!(
        compiled(Expression::Value(Value::String("hi".to_string()))),
        Ok(vec![PseudoInstruction::Push(PushLiteral::String("hi".to_string()))])
    );
    assert_eq!(compiled(id("x")), Ok(vec![PseudoInstruction::Load("x".to_string())]));
}

#[test]
fn other_values_are_unsupported() {
    assert_eq!(compiled(Expression::Value(Value::Unit)), Err(CompileError::UnsupportedConstruct));
    assert_eq!(
        compiled(Expression::Value(Value::Boolean(true))),
        Err(CompileError::UnsupportedConstruct)
    );
    assert_eq!(
        compiled(Expression::Value(Value::Float(2.5f32.to_bits()))),
        Err(CompileError::UnsupportedConstruct)
    );
}

#[test]
fn expressions_gather_in_the_compiler() {
    let mut compiler = CodeCompiler::new();
    assert_eq!(compiler.compile_expression(&number(1)), Ok(()));
    assert_eq!(compiler.compile_expression(&id("x")), Ok(()));
    assert_eq!(compiler.code, vec![push(1), PseudoInstruction::Load("x".to_string())]);
}

#[test]
fn a_block_compiles_its_statements_in_order() {
    let block = Expression::Scope(vec![node(number(1)), node(number(2)), node(id("x"))]);
    assert_eq!(
        compiled(block),
        Ok(vec![push(1), push(2), PseudoInstruction::Load("x".to_string())])
    );
    assert_eq!(compiled(Expression::Scope(vec![])), Ok(vec![]));
}

#[test]
fn declarations_and_assignments_store_their_value() {
    assert_eq!(
        compiled(Expression::Declaration(name("x"), boxed(number(1)))),
        Ok(vec![push(1), PseudoInstruction::Store("x".to_string(), true)])
    );
    assert_eq!(
        compiled(Expression::Assignment(name("x"), boxed(number(2)))),
        Ok(vec![push(2), PseudoInstruction::Store("x".to_string(), false)])
    );
}

#[test]
fn an_operation_folds_its_terms_from_the_left() {
    assert_eq!(
        compiled(operation(Operator::Plus, vec![number(1), number(2), number(3)])),
        Ok(vec![push(1), push(2), PseudoInstruction::Add, push(3), PseudoInstruction::Add])
    );
    assert_eq!(
        compiled(operation(Operator::Equality, vec![number(1), number(2)])),
        Ok(vec![push(1), push(2), PseudoInstruction::CompareEqual])
    );
    assert_eq!(
        compiled(operation(Operator::Inequality, vec![number(1), number(2)])),
        Ok(vec![push(1), push(2), PseudoInstruction::CompareNotEqual])
    );
}

#[test]
fn an_operation_on_one_term_is_the_term() {
    assert_eq!(compiled(operation(Operator::Plus, vec![number(1)])), Ok(vec![push(1)]));
}

#[test]
fn an_operation_without_terms_is_unsupported() {
    assert_eq!(
        compiled(operation(Operator::Plus, vec![])),
        Err(CompileError::UnsupportedConstruct)
    );
}

#[test]
fn a_condition_with_an_alternative() {
    let expression = Expression::IfElse {
        guard: boxed(id("g")),
        base_case: boxed(number(1)),
        else_case: boxed(number(2)),
    };
    assert_eq!(
        compiled(expression),
        Ok(vec![
            PseudoInstruction::Load("g".to_string()),
            PseudoInstruction::BranchIfFalse(0),
            push(1),
            PseudoInstruction::Goto(1),
            PseudoInstruction::Label(0),
            push(2),
            PseudoInstruction::Label(1),
        ])
    );
}

#[test]
fn nested_conditions_take_fresh_labels() {
    let inner = Expression::If { guard: boxed(id("b")), base_case: boxed(number(1)) };
    let outer = Expression::If { guard: boxed(id("a")), base_case: boxed(inner) };
    assert_eq!(
        compiled(outer),
        Ok(vec![
            PseudoInstruction::Load("a".to_string()),
            PseudoInstruction::BranchIfFalse(0),
            PseudoInstruction::Load("b".to_string()),
            PseudoInstruction::BranchIfFalse(1),
            push(1),
            PseudoInstruction::Label(1),
            PseudoInstruction::Label(0),
        ])
    );
}

#[test]
fn println_fetches_the_stream_then_its_arguments() {
    assert_eq!(
        compiled(call("println", vec![number(1), id("x")])),
        Ok(vec![stdout(), push(1), PseudoInstruction::Load("x".to_string()), println()])
    );
}

#[test]
fn a_call_of_anything_but_println_is_unsupported() {
    assert_eq!(compiled(call("print", vec![number(1)])), Err(CompileError::UnsupportedConstruct));
    assert_eq!(compiled(call("Println", vec![])), Err(CompileError::UnsupportedConstruct));
    let computed = Expression::FunctionCall(boxed(number(1)), vec![]);
    assert_eq!(compiled(computed), Err(CompileError::UnsupportedConstruct));
}

#[test]
fn constructs_without_a_rule_are_unsupported() {
    let definition = Expression::NamedFunctionDefinition {
        name: name("f"),
        parameters: vec![],
        body: boxed(Expression::Scope(vec![])),
    };
    assert_eq!(compiled(definition), Err(CompileError::UnsupportedConstruct));
    let anonymous = Expression::AnonymousFunctionDefinition {
        parameters: vec![name("a")],
        body: boxed(number(1)),
    };
    assert_eq!(compiled(anonymous), Err(CompileError::UnsupportedConstruct));
    let method = Expression::MethodCall {
        name: name("m"),
        this: boxed(id("x")),
        arguments: vec![],
    };
    assert_eq!(compiled(method), Err(CompileError::UnsupportedConstruct));
    let field = Expression::StaticField { class: "C".to_string(), field: "f".to_string() };
    assert_eq!(compiled(field), Err(CompileError::UnsupportedConstruct));
}

#[test]
fn an_unsupported_part_fails_the_whole() {
    let block = Expression::Scope(vec![
        node(number(1)),
        node(Expression::Declaration(name("x"), boxed(call("f", vec![])))),
        node(number(2)),
    ]);
    assert_eq!(compiled(block), Err(CompileError::UnsupportedConstruct));
    let condition = Expression::If {
        guard: boxed(number(1)),
        base_case: boxed(Expression::Value(Value::Unit)),
    };
    assert_eq!(compiled(condition), Err(CompileError::UnsupportedConstruct));
}

#[test]
fn printing_a_literal() {
    let (instructions, mut pool) = lowered_main(vec![call("println", vec![number(1)])]);
    assert_eq!(
        instructions,
        vec![
            Instruction::GetStatic(6),
            Instruction::Ldc(7),
            Instruction::InvokeVirtual(13),
            Instruction::Return,
        ]
    );
    let mut file = Vec::new();
    pool.write_to_file(&mut file);
    let integer_entry = [3u8, 0, 0, 0, 1];
    let occurrences = file.windows(5).filter(|window| *window == integer_entry).count();
    assert_eq!(occurrences, 1);
    assert_eq!(pool.len(), 13);
    assert_eq!(pool.add_integer(1), 7);
    assert_eq!(pool.len(), 13);
}

#[test]
fn printing_the_same_literal_twice_keeps_one_pool_entry() {
    let (instructions, pool) =
        lowered_main(vec![call("println", vec![number(1)]), call("println", vec![number(1)])]);
    assert_eq!(
        instructions,
        vec![
            Instruction::GetStatic(6),
            Instruction::Ldc(7),
            Instruction::InvokeVirtual(13),
            Instruction::GetStatic(6),
            Instruction::Ldc(7),
            Instruction::InvokeVirtual(13),
            Instruction::Return,
        ]
    );
    assert_eq!(pool.len(), 13);
}

#[test]
fn declaring_assigning_and_printing_a_variable() {
    let (instructions, _) = lowered_main(vec![
        Expression::Declaration(name("x"), boxed(number(1))),
        Expression::Assignment(name("x"), boxed(number(2))),
        call("println", vec![id("x")]),
    ]);
    assert_eq!(
        instructions,
        vec![
            Instruction::Ldc(1),
            Instruction::Istore(0),
            Instruction::Ldc(2),
            Instruction::Istore(0),
            Instruction::GetStatic(8),
            Instruction::Iload(0),
            Instruction::InvokeVirtual(14),
            Instruction::Return,
        ]
    );
    let stores = instructions.iter().filter(|i| matches!(i, Instruction::Istore(_))).count();
    let loads = instructions.iter().filter(|i| matches!(i, Instruction::Iload(_))).count();
    assert_eq!((stores, loads), (2, 1));
}

#[test]
fn a_condition_without_an_alternative() {
    let program = Expression::If {
        guard: boxed(operation(Operator::Equality, vec![number(1), number(1)])),
        base_case: boxed(call("println", vec![number(1)])),
    };
    let code = compiled(program).unwrap();
    assert_eq!(
        code,
        vec![
            push(1),
            push(1),
            PseudoInstruction::CompareEqual,
            PseudoInstruction::BranchIfFalse(0),
            stdout(),
            push(1),
            println(),
            PseudoInstruction::Label(0),
        ]
    );
    let branches =
        code.iter().filter(|i| matches!(i, PseudoInstruction::BranchIfFalse(_))).count();
    let labels = code.iter().filter(|i| matches!(i, PseudoInstruction::Label(_))).count();
    let jumps = code.iter().filter(|i| matches!(i, PseudoInstruction::Goto(_))).count();
    assert_eq!((branches, labels, jumps), (1, 1, 0));
    assert_eq!(code.last(), Some(&PseudoInstruction::Label(0)));
}

#[test]
fn a_loop_jumps_back_to_its_guard() {
    let program = Expression::While {
        guard: boxed(operation(Operator::Equality, vec![number(1), number(2)])),
        body: boxed(call("println", vec![number(1)])),
    };
    let code = compiled(program).unwrap();
    assert_eq!(
        code,
        vec![
            PseudoInstruction::Label(0),
            push(1),
            push(2),
            PseudoInstruction::CompareEqual,
            PseudoInstruction::BranchIfFalse(1),
            stdout(),
            push(1),
            println(),
            PseudoInstruction::Goto(0),
            PseudoInstruction::Label(1),
        ]
    );
    let labels = code.iter().filter(|i| matches!(i, PseudoInstruction::Label(_))).count();
    assert_eq!(labels, 2);

    let mut labels = rusp::label_generator::LabelGenerator::new();
    labels.get_new_label();
    labels.get_new_label();
    let instructions =
        compile_to_jvm_instructions(code, &mut labels, &mut ConstantPool::new()).unwrap();
    assert_eq!(
        instructions,
        vec![
            Instruction::Label(0),
            Instruction::Ldc(1),
            Instruction::Ldc(2),
            Instruction::IfIcmpne(2),
            Instruction::Bipush(1),
            Instruction::Goto(3),
            Instruction::Label(2),
            Instruction::Bipush(0),
            Instruction::Label(3),
            Instruction::Ifeq(1),
            Instruction::GetStatic(8),
            Instruction::Ldc(1),
            Instruction::InvokeVirtual(14),
            Instruction::Goto(0),
            Instruction::Label(1),
        ]
    );
    let bytes = compile_instructions(&instructions).unwrap();
    assert_eq!(
        bytes,
        vec![
            18, 1, 18, 2, // the two operands
            160, 0, 8, 16, 1, 167, 0, 5, 16, 0, // the comparison
            153, 0, 14, // leave the loop
            178, 0, 8, 18, 1, 182, 0, 14, // print
            167, 0xff, 0xe7, // back to the guard
        ]
    );
    let distance = i16::from_be_bytes([bytes[26], bytes[27]]);
    assert_eq!(distance, -25);
    assert!(distance < 0);
}

#[test]
fn a_program_that_calls_an_unknown_function_yields_no_class_file() {
    assert_eq!(
        to_bytecode(main_with(vec![call("print", vec![number(1)])])),
        Err(CompileError::UnsupportedConstruct)
    );
    assert_eq!(
        to_bytecode(main_with(vec![
            call("println", vec![number(1)]),
            call("exit", vec![]),
        ])),
        Err(CompileError::UnsupportedConstruct)
    );
}

#[test]
fn a_program_without_main_yields_no_class_file() {
    assert_eq!(to_bytecode(vec![]), Err(CompileError::UnsupportedConstruct));
    let other = vec![node(Expression::NamedFunctionDefinition {
        name: name("other"),
        parameters: vec![],
        body: boxed(Expression::Scope(vec![])),
    })];
    assert_eq!(to_bytecode(other), Err(CompileError::UnsupportedConstruct));
    let without_block = vec![node(Expression::NamedFunctionDefinition {
        name: name("main"),
        parameters: vec![],
        body: boxed(number(1)),
    })];
    assert_eq!(to_bytecode(without_block), Err(CompileError::UnsupportedConstruct));
    assert_eq!(to_bytecode(vec![node(number(1))]), Err(CompileError::UnsupportedConstruct));
}

#[test]
fn errors_of_lowering_and_encoding_end_the_compilation() {
    assert_eq!(
        to_bytecode(main_with(vec![call("println", vec![id("x")])])),
        Err(CompileError::UnresolvedReference)
    );
    assert_eq!(
        to_bytecode(main_with(vec![operation(
            Operator::Plus,
            vec![number(1), Expression::Value(Value::String("a".to_string()))]
        )])),
        Err(CompileError::TypeMismatch)
    );
    let mut statements = Vec::new();
    for _ in 0..33000 {
        statements.push(number(1));
    }
    assert_eq!(to_bytecode(main_with(statements)), Err(CompileError::LimitExceeded));
}

#[test]
fn the_first_main_with_a_block_is_compiled() {
    let mut program = vec![
        node(number(7)),
        node(Expression::NamedFunctionDefinition {
            name: name("main"),
            parameters: vec![],
            body: boxed(number(1)),
        }),
    ];
    program.extend(main_with(vec![]));
    program.extend(main_with(vec![call("println", vec![number(1)])]));
    assert_eq!(to_bytecode(program), to_bytecode(main_with(vec![])));
}

fn entry_text(text: &str) -> Vec<u8> {
    let mut bytes = vec![1, 0, text.len() as u8];
    bytes.extend_from_slice(text.as_bytes());
    bytes
}

#[test]
fn the_class_file_of_an_empty_main() {
    let bytes = to_bytecode(main_with(vec![])).unwrap();
    let mut expected = vec![0xca, 0xfe, 0xba, 0xbe, 0, 0, 0, 52, 0, 8];
    expected.extend(entry_text("Main"));
    expected.extend([7, 0, 1]);
    expected.extend(entry_text("java/lang/Object"));
    expected.extend([7, 0, 3]);
    expected.extend(entry_text("main"));
    expected.extend(entry_text("([Ljava/lang/String;)V"));
    expected.extend(entry_text("Code"));
    expected.extend([0, 0x21, 0, 2, 0, 4, 0, 0, 0, 0]);
    expected.extend([0, 1]);
    expected.extend([0, 9, 0, 5, 0, 6, 0, 1]);
    expected.extend([0, 7, 0, 0, 0, 13]);
    expected.extend([0, 0, 0, 0, 0, 0, 0, 1, 177, 0, 0, 0, 0]);
    expected.extend([0, 0]);
    assert_eq!(bytes, expected);
}

#[test]
fn the_class_file_of_a_program_that_prints() {
    let bytes = to_bytecode(main_with(vec![call("println", vec![number(1)])])).unwrap();
    let mut expected = vec![0xca, 0xfe, 0xba, 0xbe, 0, 0, 0, 52, 0, 21];
    expected.extend(entry_text("Main"));
    expected.extend([7, 0, 1]);
    expected.extend(entry_text("java/lang/Object"));
    expected.extend([7, 0, 3]);
    expected.extend(entry_text("main"));
    expected.extend(entry_text("([Ljava/lang/String;)V"));
    expected.extend(entry_text("Code"));
    expected.extend(entry_text("java/lang/System"));
    expected.extend([7, 0, 8]);
    expected.extend(entry_text("out"));
    expected.extend(entry_text("Ljava/io/PrintStream;"));
    expected.extend([12, 0, 10, 0, 11]);
    expected.extend([9, 0, 9, 0, 12]);
    expected.extend([3, 0, 0, 0, 1]);
    expected.extend(entry_text("java/io/PrintStream"));
    expected.extend([7, 0, 15]);
    expected.extend(entry_text("println"));
    expected.extend(entry_text("(Ljava/lang/String;)V"));
    expected.extend([12, 0, 17, 0, 18]);
    expected.extend([10, 0, 16, 0, 19]);
    expected.extend([0, 0x21, 0, 2, 0, 4, 0, 0, 0, 0]);
    expected.extend([0, 1]);
    expected.extend([0, 9, 0, 5, 0, 6, 0, 1]);
    expected.extend([0, 7, 0, 0, 0, 21]);
    expected.extend([0, 2, 0, 0, 0, 0, 0, 9]);
    expected.extend([178, 0, 13, 18, 14, 182, 0, 20, 177]);
    expected.extend([0, 0, 0, 0]);
    expected.extend([0, 0]);
    assert_eq!(bytes, expected);
}

#[test]
fn compiling_a_program_twice_gives_the_same_bytes() {
    let program = || {
        main_with(vec![
            Expression::Declaration(name("x"), boxed(number(1))),
            Expression::While {
                guard: boxed(operation(Operator::Inequality, vec![id("x"), number(3)])),
                body: boxed(Expression::Scope(vec![
                    node(call("println", vec![id("x")])),
                    node(Expression::Assignment(
                        name("x"),
                        boxed(operation(Operator::Plus, vec![id("x"), number(1)])),
                    )),
                ])),
            },
        ])
    };
    let first = to_bytecode(program()).unwrap();
    let second = to_bytecode(program()).unwrap();
    assert_eq!(first, second);
    assert_eq!(&first[..4], &[0xca, 0xfe, 0xba, 0xbe]);
}
