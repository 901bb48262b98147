use robowar::language::{
    DestinationF64, DestinationU64, FloatBits, Instruction, ProgramPointer, ReadableRegisterF64,
    ReadableRegisterU64, SourceF64, SourceU64, WritableRegisterF64, WritableRegisterU64,
};
use robowar::parser::{
    parse, validate_named, Argument, LabelOrInstruction, NumberLiteral, Program,
    UnvalidatedInstruction, ValidInstruction,
};

fn ident(s: &str) -> Argument {
    Argument::Identifier(s.to_string())
}

fn validate(name: &str, arguments: Vec<Argument>) -> ValidInstruction {
    ValidInstruction::new(UnvalidatedInstruction { instruction: name.to_string(), arguments })
}

fn error_of(v: ValidInstruction) -> String {
    match v {
        ValidInstruction::Invalid { error, .. } => error,
        ValidInstruction::Valid(i) => panic!("unexpectedly valid: {:?}", i),
    }
}

fn errors(input: &str) -> Vec<robowar::parser::ParseError> {
    match parse(input) {
        Ok(_) => panic!("unexpectedly read: {:?}", input),
        Err(e) => e,
    }
}

fn r(n: ReadableRegisterU64) -> SourceU64 {
    SourceU64::Register(n)
}

fn w(n: WritableRegisterU64) -> DestinationU64 {
    DestinationU64::Register(n)
}

#[test]
fn parser_test_parse() {
    let input = r"
        main:
            add r0, r0, r0

        foo:
        bar:
            add r0, r1, r2
        ";
    let result = parse(input);
    assert!(result.is_ok());
}

#[test]
fn parse_gives_instructions_and_labels() {
    let input = r"
        main:
            add r0, r0, r0

        foo:
        bar:
            add r0, r1, r2
        ";
    let program = parse(input).unwrap();
    assert_eq!(
        program.instructions,
        vec![
            Instruction::AddU64 {
                destination: w(WritableRegisterU64::GeneralPurpose0),
                left: r(ReadableRegisterU64::GeneralPurpose0),
                right: r(ReadableRegisterU64::GeneralPurpose0),
            },
            Instruction::AddU64 {
                destination: w(WritableRegisterU64::GeneralPurpose0),
                left: r(ReadableRegisterU64::GeneralPurpose1),
                right: r(ReadableRegisterU64::GeneralPurpose2),
            },
        ]
    );
    assert_eq!(program.labels.get("main"), Some(&ProgramPointer(0)));
    assert_eq!(program.labels.get("foo"), Some(&ProgramPointer(1)));
    assert_eq!(program.labels.get("bar"), Some(&ProgramPointer(1)));
    assert_eq!(program.labels.get("baz"), None);
}

#[test]
fn parse_numbers_jumps_and_floats() {
    let program = parse("loop: sub R1, 7, -1\nJMP 0\nmul f0, velocity_x, f1").unwrap();
    assert_eq!(
        program.instructions,
        vec![
            Instruction::SubU64 {
                destination: w(WritableRegisterU64::GeneralPurpose1),
                left: SourceU64::Literal(7),
                right: SourceU64::Literal(u64::MAX),
            },
            Instruction::Jump { address: SourceU64::Literal(0) },
            Instruction::MulF64 {
                destination: DestinationF64::Register(WritableRegisterF64::GeneralPurpose0),
                left: SourceF64::Register(ReadableRegisterF64::VelocityX),
                right: SourceF64::Register(ReadableRegisterF64::GeneralPurpose1),
            },
        ]
    );
    assert_eq!(program.labels.get("loop"), Some(&ProgramPointer(0)));
}

#[test]
fn parse_large_unsigned_literal() {
    let program = parse("div r2, 18446744073709551615, 9223372036854775808").unwrap();
    assert_eq!(
        program.instructions,
        vec![Instruction::DivU64 {
            destination: w(WritableRegisterU64::GeneralPurpose2),
            left: SourceU64::Literal(u64::MAX),
            right: SourceU64::Literal(9223372036854775808),
        }]
    );
}

#[test]
fn parse_empty_program() {
    let program = parse("").unwrap();
    assert!(program.instructions.is_empty());
}

#[test]
fn parse_reports_invalid_instructions_in_order() {
    let errs = errors("add r0, r1\nfoo: nop 3\n");
    assert_eq!(errs.len(), 2);
    assert_eq!(errs[0].message, "expected 3 arguments for 'ADD', found 2");
    assert_eq!((errs[0].start, errs[0].end), (0, 11));
    assert_eq!(errs[1].message, "unrecognized instruction: nop");
}

#[test]
fn parse_reports_syntax_errors() {
    let errs = errors("add r0, r0, r0 ; comment");
    assert_eq!(errs.len(), 1);
    assert_eq!(errs[0].message, "expected a label or an instruction");
    assert_eq!((errs[0].start, errs[0].end), (15, 16));
    // A comma not followed by an argument ends the arguments before it.
    let errs = errors("jmp 1,");
    assert_eq!(errs.len(), 1);
    assert_eq!(errs[0].message, "expected a label or an instruction");
    assert_eq!((errs[0].start, errs[0].end), (5, 6));
    // White space alone is not a program.
    let errs = errors("   ");
    assert_eq!((errs[0].start, errs[0].end), (3, 3));
    // An invalid instruction before the place the statements stop.
    let errs = errors("nop\n  )");
    assert_eq!(errs.len(), 2);
    assert_eq!(errs[0].message, "unrecognized instruction: nop");
    assert_eq!((errs[0].start, errs[0].end), (0, 6));
    assert_eq!((errs[1].start, errs[1].end), (6, 7));
}

#[test]
fn validate_arithmetic_forms() {
    match validate("Add", vec![ident("r3"), ident("r4"), Argument::Number(NumberLiteral::U64(5))]) {
        ValidInstruction::Valid(i) => assert_eq!(
            i,
            Instruction::AddU64 {
                destination: w(WritableRegisterU64::GeneralPurpose3),
                left: r(ReadableRegisterU64::GeneralPurpose4),
                right: SourceU64::Literal(5),
            }
        ),
        other => panic!("unexpected {:?}", other),
    }
    let bits = FloatBits(1.5f64.to_bits());
    match validate("div", vec![ident("f2"), ident("health"), Argument::Number(NumberLiteral::F64(bits))]) {
        ValidInstruction::Valid(i) => assert_eq!(
            i,
            Instruction::DivF64 {
                destination: DestinationF64::Register(WritableRegisterF64::GeneralPurpose2),
                left: SourceF64::Register(ReadableRegisterF64::Health),
                right: SourceF64::Literal(bits),
            }
        ),
        other => panic!("unexpected {:?}", other),
    }
}

#[test]
fn validate_error_messages() {
    assert_eq!(
        error_of(validate("add", vec![ident("x"), Argument::Number(NumberLiteral::I64(-1)), ident("r1")])),
        "invalid arguments for 'ADD': destination: Identifier(\"x\"), left: Number(I64(-1)), right: Identifier(\"r1\")"
    );
    assert_eq!(
        error_of(validate("Sub", vec![ident("r0")])),
        "expected 3 arguments for 'SUB', found 1"
    );
    assert_eq!(
        error_of(validate("jmp", vec![ident("nowhere")])),
        "invalid argument for 'JMP': address: Identifier(\"nowhere\")"
    );
    assert_eq!(error_of(validate("jmp", vec![])), "expected 1 argument for 'JMP', found 0");
    assert_eq!(error_of(validate("Halt", vec![])), "unrecognized instruction: Halt");
    // Floating-point literals are shown by their bit pattern.
    assert_eq!(
        error_of(validate("jmp", vec![Argument::Number(NumberLiteral::F64(FloatBits(4)))])),
        "invalid argument for 'JMP': address: Number(F64(4))"
    );
}

#[test]
fn argument_conversions() {
    assert_eq!(ident("R5").try_into_source_u64(), Ok(r(ReadableRegisterU64::GeneralPurpose5)));
    assert_eq!(
        ident("x").try_into_source_u64(),
        Err("Invalid register: x".to_string())
    );
    assert_eq!(
        Argument::Number(NumberLiteral::I64(-2)).try_into_source_u64(),
        Ok(SourceU64::Literal(u64::MAX - 1))
    );
    assert_eq!(
        Argument::Number(NumberLiteral::U64(3)).try_into_destination_u64(),
        Err("expected a writable u64 register, found: U64(3)".to_string())
    );
    assert_eq!(
        Argument::Number(NumberLiteral::I64(-9223372036854775808)).try_into_source_f64(),
        Err("expected a f64 literal, found: I64(-9223372036854775808)".to_string())
    );
    assert_eq!(
        Argument::Number(NumberLiteral::U64(0)).try_into_destination_f64(),
        Err("expected a writable f64 register, found: U64(0)".to_string())
    );
    assert_eq!(
        ident("turret_angle").try_into_destination_f64(),
        Err("Invalid register: turret_angle".to_string())
    );
}

#[test]
fn program_new_assigns_label_addresses() {
    let jump = Instruction::Jump { address: SourceU64::Literal(0) };
    let program = Program::new(vec![
        LabelOrInstruction::Label("a".to_string()),
        LabelOrInstruction::Instruction(jump),
        LabelOrInstruction::Label("b".to_string()),
        LabelOrInstruction::Instruction(jump),
        LabelOrInstruction::Label("a".to_string()),
    ]);
    assert_eq!(program.instructions.len(), 2);
    assert_eq!(program.labels.get("a"), Some(&ProgramPointer(2)));
    assert_eq!(program.labels.get("b"), Some(&ProgramPointer(1)));
}

#[test]
fn validate_named_decides_by_the_given_forms() {
    let u = UnvalidatedInstruction {
        instruction: "anything".to_string(),
        arguments: vec![ident("r0"), ident("r1"), ident("r2")],
    };
    match validate_named("add", "ADD", u) {
        ValidInstruction::Valid(i) => assert_eq!(
            i,
            Instruction::AddU64 {
                destination: w(WritableRegisterU64::GeneralPurpose0),
                left: r(ReadableRegisterU64::GeneralPurpose1),
                right: r(ReadableRegisterU64::GeneralPurpose2),
            }
        ),
        other => panic!("unexpected {:?}", other),
    }
    let u = UnvalidatedInstruction { instruction: "jmp".to_string(), arguments: vec![] };
    assert_eq!(error_of(validate_named("jmp", "JUMP", u)), "expected 1 argument for 'JUMP', found 0");
    let u = UnvalidatedInstruction { instruction: "Nop".to_string(), arguments: vec![] };
    assert_eq!(error_of(validate_named("nop", "NOP", u)), "unrecognized instruction: Nop");
}
