use rusp::class_file::{
    compile, ClassFile, CodeAttribute, GenericAttribute, LineNumberItem,
    LineNumberTableAttribute, SourceFileAttribute,
};
use rusp::errors::CompileError;
use rusp::jvm_type::PushLiteral;
use rusp::label_generator::LabelGenerator;
use rusp::pseudo_instruction::PseudoInstruction;
use rusp::structs::{Class, Method};

fn written(class_file: &ClassFile) -> Vec<u8> {
    let mut file = Vec::new();
    class_file.write_to_file(&mut file);
    file
}

fn entry_text(text: &str) -> Vec<u8> {
    let mut bytes = vec![1, 0, text.len() as u8];
    bytes.extend_from_slice(text.as_bytes());
    bytes
}

fn method(name: &str, signature: &str, code: Vec<PseudoInstruction>) -> Method {
    Method {
        name: name.to_string(),
        signature: signature.to_string(),
        access_flags: 9,
        label_generator: LabelGenerator::new(),
        code,
    }
}

#[test]
fn an_empty_class_file() {
    let class_file = ClassFile::new();
    assert_eq!(
        written(&class_file),
        vec![
            0xca, 0xfe, 0xba, 0xbe, // magic
            0, 0, 0, 52, // version
            0, 1, // pool count
            0, 0x21, // flags
            0, 0, 0, 0, // this, super
            0, 0, 0, 0, // interfaces, fields
            0, 0, // methods
            0, 0, // attributes
        ]
    );
}

#[test]
fn writing_a_class_file_appends_to_the_sink() {
    let class_file = ClassFile::new();
    let mut file = vec![1, 2, 3];
    class_file.write_to_file(&mut file);
    assert_eq!(file.len(), 27);
    assert_eq!(&file[..7], &[1, 2, 3, 0xca, 0xfe, 0xba, 0xbe]);
}

#[test]
fn writing_a_class_file_twice_gives_the_same_bytes() {
    let class = Class {
        name: "A".to_string(),
        access_flags: 1,
        methods: vec![method("m", "()V", vec![PseudoInstruction::Return])],
    };
    let class_files = compile(vec![class]).unwrap();
    assert_eq!(written(&class_files[0]), written(&class_files[0]));
}

#[test]
fn assembling_a_class_twice_gives_the_same_bytes() {
    let class = || Class {
        name: "A".to_string(),
        access_flags: 1,
        methods: vec![method(
            "m",
            "()V",
            vec![
                PseudoInstruction::Push(PushLiteral::Int(1)),
                PseudoInstruction::Push(PushLiteral::Int(2)),
                PseudoInstruction::CompareEqual,
                PseudoInstruction::Return,
            ],
        )],
    };
    let first = compile(vec![class()]).unwrap();
    let second = compile(vec![class()]).unwrap();
    assert_eq!(written(&first[0]), written(&second[0]));
}

#[test]
fn no_class_gives_no_class_file() {
    assert_eq!(compile(vec![]).unwrap().len(), 0);
}

#[test]
fn a_class_without_methods() {
    let class_files = compile(vec![Class::default()]).unwrap();
    assert_eq!(class_files.len(), 1);
    let mut expected = vec![0xca, 0xfe, 0xba, 0xbe, 0, 0, 0, 52, 0, 5];
    expected.extend(entry_text("Class"));
    expected.extend([7, 0, 1]);
    expected.extend(entry_text("java/lang/Object"));
    expected.extend([7, 0, 3]);
    expected.extend([0, 0x21, 0, 2, 0, 4, 0, 0, 0, 0, 0, 0, 0, 0]);
    assert_eq!(written(&class_files[0]), expected);
}

#[test]
fn a_class_named_like_its_superclass_shares_the_entries() {
    let class = Class { name: "java/lang/Object".to_string(), access_flags: 0x21, methods: vec![] };
    let class_files = compile(vec![class]).unwrap();
    let mut expected = vec![0xca, 0xfe, 0xba, 0xbe, 0, 0, 0, 52, 0, 3];
    expected.extend(entry_text("java/lang/Object"));
    expected.extend([7, 0, 1]);
    expected.extend([0, 0x21, 0, 2, 0, 2, 0, 0, 0, 0, 0, 0, 0, 0]);
    assert_eq!(written(&class_files[0]), expected);
}

#[test]
fn methods_are_recorded_in_order_with_their_code() {
    let class = Class {
        name: "A".to_string(),
        access_flags: 0x0401,
        methods: vec![
            method("f", "()V", vec![PseudoInstruction::Return]),
            Method {
                access_flags: 1,
                ..method(
                    "g",
                    "()V",
                    vec![PseudoInstruction::Push(PushLiteral::Int(-1)), PseudoInstruction::Return],
                )
            },
        ],
    };
    let class_files = compile(vec![class]).unwrap();
    let mut expected = vec![0xca, 0xfe, 0xba, 0xbe, 0, 0, 0, 52, 0, 10];
    expected.extend(entry_text("A"));
    expected.extend([7, 0, 1]);
    expected.extend(entry_text("java/lang/Object"));
    expected.extend([7, 0, 3]);
    expected.extend(entry_text("f"));
    expected.extend(entry_text("()V"));
    expected.extend(entry_text("Code"));
    expected.extend(entry_text("g"));
    expected.extend([3, 0xff, 0xff, 0xff, 0xff]);
    expected.extend([4, 1, 0, 2, 0, 4, 0, 0, 0, 0]);
    expected.extend([0, 2]);
    expected.extend([0, 9, 0, 5, 0, 6, 0, 1]);
    expected.extend([0, 7, 0, 0, 0, 13, 0, 0, 0, 0, 0, 0, 0, 1, 177, 0, 0, 0, 0]);
    expected.extend([0, 1, 0, 8, 0, 6, 0, 1]);
    expected.extend([0, 7, 0, 0, 0, 15, 0, 1, 0, 0, 0, 0, 0, 3, 18, 9, 177, 0, 0, 0, 0]);
    expected.extend([0, 0]);
    assert_eq!(written(&class_files[0]), expected);
}

#[test]
fn each_class_gets_a_pool_of_its_own() {
    let class = |name: &str| Class { name: name.to_string(), access_flags: 0x21, methods: vec![] };
    let class_files = compile(vec![class("A"), class("B")]).unwrap();
    assert_eq!(class_files.len(), 2);
    let first = written(&class_files[0]);
    let second = written(&class_files[1]);
    assert_eq!(&first[8..14], &[0, 5, 1, 0, 1, b'A']);
    assert_eq!(&second[8..14], &[0, 5, 1, 0, 1, b'B']);
}

#[test]
fn a_method_starts_with_its_own_labels_and_no_variables() {
    let mut labels = LabelGenerator::new();
    labels.get_new_label();
    let compare = |labels: LabelGenerator| Method {
        label_generator: labels,
        ..method(
            "m",
            "()V",
            vec![
                PseudoInstruction::Push(PushLiteral::Int(1)),
                PseudoInstruction::Push(PushLiteral::Int(1)),
                PseudoInstruction::CompareEqual,
                PseudoInstruction::Store("x".to_string(), true),
            ],
        )
    };
    let uses_x = method("n", "()V", vec![PseudoInstruction::Load("x".to_string())]);
    let class = Class {
        name: "A".to_string(),
        access_flags: 1,
        methods: vec![compare(labels), uses_x],
    };
    assert_eq!(compile(vec![class]).err(), Some(CompileError::UnresolvedReference));
    let class =
        Class { name: "A".to_string(), access_flags: 1, methods: vec![compare(LabelGenerator::new())] };
    assert!(compile(vec![class]).is_ok());
}

#[test]
fn the_first_class_that_fails_gives_the_error() {
    let failing = |code: Vec<PseudoInstruction>| Class {
        name: "A".to_string(),
        access_flags: 1,
        methods: vec![method("ok", "()V", vec![PseudoInstruction::Return]), method("m", "()V", code)],
    };
    let result = compile(vec![
        Class::default(),
        failing(vec![PseudoInstruction::Add]),
        failing(vec![PseudoInstruction::Goto(5)]),
    ]);
    assert_eq!(result.err(), Some(CompileError::TypeMismatch));
    let result = compile(vec![failing(vec![PseudoInstruction::Goto(5)])]);
    assert_eq!(result.err(), Some(CompileError::UnresolvedReference));
    let result =
        compile(vec![failing(vec![PseudoInstruction::Push(PushLiteral::Long(1))])]);
    assert_eq!(result.err(), Some(CompileError::UnsupportedConstruct));
}

#[test]
fn a_name_that_is_too_long_exceeds_the_limits() {
    let class = Class { name: "x".repeat(70000), access_flags: 1, methods: vec![] };
    assert_eq!(compile(vec![class]).err(), Some(CompileError::LimitExceeded));
    let class = Class {
        name: "A".to_string(),
        access_flags: 1,
        methods: vec![method(&"m".repeat(70000), "()V", vec![])],
    };
    assert_eq!(compile(vec![class]).err(), Some(CompileError::LimitExceeded));
}

#[test]
fn the_written_form_of_a_code_attribute() {
    let attribute = GenericAttribute::from_code(CodeAttribute {
        name_index: 0x0102,
        max_stack: 3,
        max_locals: 4,
        code: vec![16, 1, 177],
        attributes: vec![],
    });
    assert_eq!(attribute.name_index(), 0x0102);
    assert_eq!(attribute.info(), &vec![0, 3, 0, 4, 0, 0, 0, 3, 16, 1, 177, 0, 0, 0, 0]);
}

#[test]
fn a_code_attribute_nests_a_line_number_table() {
    let lines = GenericAttribute::from_line_numbers(LineNumberTableAttribute {
        name_index: 7,
        items: vec![
            LineNumberItem { start_pc: 0, line_number: 3 },
            LineNumberItem { start_pc: 2, line_number: 0x0104 },
        ],
    });
    assert_eq!(lines.name_index(), 7);
    assert_eq!(lines.info(), &vec![0, 2, 0, 0, 0, 3, 0, 2, 1, 4]);
    let attribute = GenericAttribute::from_code(CodeAttribute {
        name_index: 6,
        max_stack: 1,
        max_locals: 2,
        code: vec![3, 60, 177],
        attributes: vec![lines],
    });
    assert_eq!(
        attribute.info(),
        &vec![
            0, 1, 0, 2, 0, 0, 0, 3, 3, 60, 177, 0, 0, // limits, code, no exceptions
            0, 1, // one nested attribute
            0, 7, 0, 0, 0, 10, 0, 2, 0, 0, 0, 3, 0, 2, 1, 4,
        ]
    );
}

#[test]
fn an_empty_line_number_table() {
    let lines = GenericAttribute::from_line_numbers(LineNumberTableAttribute {
        name_index: 1,
        items: vec![],
    });
    assert_eq!(lines.info(), &vec![0, 0]);
}

#[test]
fn the_written_form_of_a_source_file_attribute() {
    let attribute = GenericAttribute::from_source_file(SourceFileAttribute {
        name_index: 10,
        sourcefile_index: 0x0b0c,
    });
    assert_eq!(attribute.name_index(), 10);
    assert_eq!(attribute.info(), &vec![0x0b, 0x0c]);
}

#[test]
fn a_long_code_has_a_four_byte_length() {
    let attribute = GenericAttribute::from_code(CodeAttribute {
        name_index: 1,
        max_stack: 0,
        max_locals: 0,
        code: vec![0; 0x012345],
        attributes: vec![],
    });
    assert_eq!(&attribute.info()[4..8], &[0, 1, 0x23, 0x45]);
    assert_eq!(attribute.info().len(), 0x012345 + 12);
}

fn declare(name: &str, value: i32) -> Vec<PseudoInstruction> {
    vec![
        PseudoInstruction::Push(PushLiteral::Int(value)),
        PseudoInstruction::Store(name.to_string(), true),
    ]
}

fn room_of_the_only_method(class_file: &ClassFile, code_length: usize) -> Vec<u8> {
    let file = written(class_file);
    let start = file.len() - 6 - code_length - 8;
    assert_eq!(&file[start + 4..start + 8], &(code_length as u32).to_be_bytes());
    file[start..start + 4].to_vec()
}

#[test]
fn a_method_is_given_the_slots_that_it_declares() {
    let mut code = Vec::new();
    for i in 0..12 {
        code.extend(declare(&format!("v{}", i), i));
    }
    code.push(PseudoInstruction::Return);
    let class = Class { name: "A".to_string(), access_flags: 1, methods: vec![method("m", "()V", code)] };
    let class_files = compile(vec![class]).unwrap();
    assert_eq!(room_of_the_only_method(&class_files[0], 49), vec![0, 1, 0, 12]);
}

#[test]
fn a_method_is_given_the_stack_that_it_fills() {
    let mut code = Vec::new();
    for i in 0..20 {
        code.push(PseudoInstruction::Push(PushLiteral::Int(i)));
    }
    for _ in 0..19 {
        code.push(PseudoInstruction::Add);
    }
    code.extend(declare("x", 0));
    code.push(PseudoInstruction::Return);
    let class = Class { name: "A".to_string(), access_flags: 1, methods: vec![method("m", "()V", code)] };
    let class_files = compile(vec![class]).unwrap();
    assert_eq!(room_of_the_only_method(&class_files[0], 40 + 19 + 4 + 1), vec![0, 20, 0, 1]);
}

#[test]
fn a_method_without_values_is_given_no_room() {
    let class = Class {
        name: "A".to_string(),
        access_flags: 1,
        methods: vec![method("m", "()V", vec![PseudoInstruction::Return])],
    };
    let class_files = compile(vec![class]).unwrap();
    assert_eq!(room_of_the_only_method(&class_files[0], 1), vec![0, 0, 0, 0]);
}

#[test]
fn each_method_is_given_its_own_room() {
    let mut first = declare("a", 1);
    first.extend(declare("b", 2));
    let second = vec![
        PseudoInstruction::Push(PushLiteral::Int(1)),
        PseudoInstruction::Push(PushLiteral::Int(2)),
        PseudoInstruction::Push(PushLiteral::Int(3)),
    ];
    let class = Class {
        name: "A".to_string(),
        access_flags: 1,
        methods: vec![method("f", "()V", first), method("g", "()V", second)],
    };
    let file = written(&compile(vec![class]).unwrap()[0]);
    let end = file.len() - 2;
    let second_room = end - 4 - 6 - 8;
    assert_eq!(&file[second_room..second_room + 4], &[0, 3, 0, 0]);
    let first_room = second_room - 14 - 4 - 8 - 8;
    assert_eq!(&file[first_room..first_room + 4], &[0, 1, 0, 2]);
}
