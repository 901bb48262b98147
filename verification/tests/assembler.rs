use robowar::assembler::{lookup, Instruction, SourceF64, SourceU64};
use robowar::conversion::{f64_bits_of_i64, f64_bits_of_u64};
use robowar::language::{
    self, DestinationF64, DestinationU64, FloatBits, ReadableRegisterF64, ReadableRegisterU64,
    WritableRegisterF64, WritableRegisterU64,
};
use robowar::parser::{Argument, NumberLiteral};

fn ident(s: &str) -> Argument {
    Argument::Identifier(s.to_string())
}

fn num(n: NumberLiteral) -> Argument {
    Argument::Number(n)
}

fn bits(x: f64) -> FloatBits {
    FloatBits(x.to_bits())
}

fn values() -> Vec<(String, NumberLiteral)> {
    vec![
        ("main".to_string(), NumberLiteral::U64(0)),
        ("x".to_string(), NumberLiteral::I64(42)),
        ("y".to_string(), NumberLiteral::F64(bits(43.5))),
        ("foo".to_string(), NumberLiteral::U64(1)),
        ("x".to_string(), NumberLiteral::I64(-7)),
    ]
}

#[test]
fn integers_read_as_the_nearest_double() {
    for v in [0u64, 1, 2, 3, 42, 1 << 52, (1 << 53) - 1, 1 << 53, (1 << 53) + 1, (1 << 53) + 3,
        (1 << 54) + 2, (1 << 54) + 6, 123_456_789_012_345_678, u64::MAX - 1024, u64::MAX - 1025, u64::MAX]
    {
        assert_eq!(f64_bits_of_u64(v).0, (v as f64).to_bits(), "{v}");
    }
    for v in [0i64, -1, 1, -42, i64::MIN, i64::MIN + 1, i64::MAX, -(1 << 53) - 1, -987_654_321_987] {
        assert_eq!(f64_bits_of_i64(v).0, (v as f64).to_bits(), "{v}");
    }
    // Ties go to the even significand.
    assert_eq!(f64_bits_of_u64((1 << 53) + 1).0, ((1u64 << 53) as f64).to_bits());
    assert_eq!(f64_bits_of_u64((1 << 53) + 3).0, (((1u64 << 53) + 4) as f64).to_bits());
}

#[test]
fn assembler_reads_integer_instructions_with_labels() {
    let i = Instruction::new("add".to_string(), vec![ident("r0"), ident("r1"), ident("x")]);
    assert_eq!(
        i,
        Ok(Instruction::AddU64 {
            destination: DestinationU64::Register(WritableRegisterU64::GeneralPurpose0),
            left: SourceU64::Register(ReadableRegisterU64::GeneralPurpose1),
            right: SourceU64::Label("x".to_string()),
        })
    );
    let i = Instruction::new("JMP".to_string(), vec![ident("foo")]);
    assert_eq!(i, Ok(Instruction::Jump { address: SourceU64::Label("foo".to_string()) }));
    let i = Instruction::new("sl".to_string(), vec![ident("r2"), num(NumberLiteral::I64(-1))]);
    assert_eq!(
        i,
        Ok(Instruction::ShiftLeft {
            destination: DestinationU64::Register(WritableRegisterU64::GeneralPurpose2),
            source: SourceU64::Literal(u64::MAX),
        })
    );
}

#[test]
fn assembler_falls_back_to_floating_point() {
    let i = Instruction::new("sub".to_string(), vec![ident("f1"), ident("velocity_x"), ident("y")]);
    assert_eq!(
        i,
        Ok(Instruction::SubF64 {
            destination: DestinationF64::Register(WritableRegisterF64::GeneralPurpose1),
            left: SourceF64::Register(ReadableRegisterF64::VelocityX),
            right: SourceF64::Label("y".to_string()),
        })
    );
    let i = Instruction::new("set".to_string(), vec![ident("f0"), num(NumberLiteral::U64(3))]);
    assert_eq!(
        i,
        Ok(Instruction::SetF64 {
            destination: DestinationF64::Register(WritableRegisterF64::GeneralPurpose0),
            source: SourceF64::Literal(bits(3.0)),
        })
    );
    // Integer forms come first: a name that is no integer register is a label.
    let i = Instruction::new(
        "jlt".to_string(),
        vec![ident("loop"), ident("f0"), num(NumberLiteral::I64(-2))],
    );
    assert_eq!(
        i,
        Ok(Instruction::JumpLessThanU64 {
            address: SourceU64::Label("loop".to_string()),
            left: SourceU64::Label("f0".to_string()),
            right: SourceU64::Literal((-2i64) as u64),
        })
    );
    // A floating-point literal makes a jump compare floating-point values.
    let i = Instruction::new(
        "jle".to_string(),
        vec![ident("loop"), num(NumberLiteral::F64(bits(1.0))), num(NumberLiteral::I64(-2))],
    );
    assert_eq!(
        i,
        Ok(Instruction::JumpLessThanOrEqualToF64 {
            address: SourceU64::Label("loop".to_string()),
            left: SourceF64::Literal(bits(1.0)),
            right: SourceF64::Literal(bits(-2.0)),
        })
    );
    let i = Instruction::new(
        "jeq".to_string(),
        vec![num(NumberLiteral::U64(4)), ident("r0"), num(NumberLiteral::F64(bits(0.5)))],
    );
    assert_eq!(
        i,
        Ok(Instruction::JumpEqualF64 {
            address: SourceU64::Literal(4),
            left: SourceF64::Label("r0".to_string()),
            right: SourceF64::Literal(bits(0.5)),
        })
    );
}

#[test]
fn assembler_error_messages() {
    let e = Instruction::new("sl".to_string(), vec![ident("f0"), ident("r1")]);
    assert_eq!(
        e,
        Err("invalid arguments for 'SL': destination: Identifier(\"f0\"), source: Identifier(\"r1\")"
            .to_string())
    );
    let e = Instruction::new("Add".to_string(), vec![ident("x"), ident("r1"), ident("r2")]);
    assert_eq!(
        e,
        Err("invalid arguments for 'ADD': destination: Identifier(\"x\"), left: Identifier(\"r1\"), right: Identifier(\"r2\")"
            .to_string())
    );
    let e = Instruction::new(
        "jne".to_string(),
        vec![num(NumberLiteral::F64(FloatBits(1))), ident("r0"), ident("r1")],
    );
    assert_eq!(
        e,
        Err("invalid arguments for 'JNE': address: Number(F64(1)), left: Identifier(\"r0\"), right: Identifier(\"r1\")"
            .to_string())
    );
    let e = Instruction::new("jmp".to_string(), vec![num(NumberLiteral::F64(FloatBits(2)))]);
    assert_eq!(e, Err("invalid argument for 'JMP': address: Number(F64(2))".to_string()));
    let e = Instruction::new("set".to_string(), vec![ident("r0")]);
    assert_eq!(e, Err("expected 2 arguments for 'SET', found 1".to_string()));
    let e = Instruction::new("jge".to_string(), vec![]);
    assert_eq!(e, Err("expected 3 arguments for 'JGE', found 0".to_string()));
    let e = Instruction::new("jmp".to_string(), vec![ident("a"), ident("b")]);
    assert_eq!(e, Err("expected 1 argument for 'JMP', found 2".to_string()));
    let e = Instruction::new("Halt".to_string(), vec![]);
    assert_eq!(e, Err("unrecognized instruction: Halt".to_string()));
}

#[test]
fn lookup_takes_the_last_value_of_a_name() {
    let v = values();
    assert_eq!(lookup(&v, "x"), Some(NumberLiteral::I64(-7)));
    assert_eq!(lookup(&v, "main"), Some(NumberLiteral::U64(0)));
    assert_eq!(lookup(&v, "nothing"), None);
}

#[test]
fn into_runnable_substitutes_values() {
    let v = values();
    let i = Instruction::new("add".to_string(), vec![ident("r0"), ident("r1"), ident("x")]).unwrap();
    assert_eq!(
        i.into_runnable(&v),
        Ok(language::Instruction::AddU64 {
            destination: DestinationU64::Register(WritableRegisterU64::GeneralPurpose0),
            left: language::SourceU64::Register(ReadableRegisterU64::GeneralPurpose1),
            right: language::SourceU64::Literal((-7i64) as u64),
        })
    );
    let i = Instruction::new("sub".to_string(), vec![ident("f1"), ident("x"), ident("y")]).unwrap();
    assert_eq!(
        i.into_runnable(&v),
        Ok(language::Instruction::SubF64 {
            destination: DestinationF64::Register(WritableRegisterF64::GeneralPurpose1),
            left: language::SourceF64::Literal(bits(-7.0)),
            right: language::SourceF64::Literal(bits(43.5)),
        })
    );
    let i = Instruction::new("jmp".to_string(), vec![ident("foo")]).unwrap();
    assert_eq!(
        i.into_runnable(&v),
        Ok(language::Instruction::Jump { address: language::SourceU64::Literal(1) })
    );
}

#[test]
fn into_runnable_reports_the_first_bad_name() {
    let v = values();
    let i = Instruction::new("jeq".to_string(), vec![ident("nowhere"), ident("y"), ident("r0")]).unwrap();
    assert_eq!(i.into_runnable(&v), Err("label 'nowhere' not found in program".to_string()));
    let i = Instruction::new("jeq".to_string(), vec![ident("main"), ident("y"), ident("zz")]).unwrap();
    assert_eq!(i.into_runnable(&v), Err("y is an f64, expected u64".to_string()));
    let i = Instruction::new("mul".to_string(), vec![ident("f2"), ident("a"), ident("b")]).unwrap();
    assert_eq!(i.into_runnable(&v), Err("label 'a' not found in program".to_string()));
}

use robowar::assembler::{Program, Statement};
use robowar::compile_time_expression::{Arithmetic, EvaluateError, AST};

fn float(op: Arithmetic, a: FloatBits, b: FloatBits) -> FloatBits {
    let (x, y) = (f64::from_bits(a.0), f64::from_bits(b.0));
    bits(match op {
        Arithmetic::Add => x + y,
        Arithmetic::Subtract => x - y,
        Arithmetic::Multiply => x * y,
        Arithmetic::Divide => x / y,
        Arithmetic::Modulo => x % y,
    })
}

fn lit(n: NumberLiteral) -> Box<AST> {
    Box::new(AST::NumberLiteral(n))
}

fn name(s: &str) -> Box<AST> {
    Box::new(AST::Identifier(s.to_string()))
}

#[test]
fn evaluate_integer_expressions() {
    let none: Vec<(String, NumberLiteral)> = vec![];
    // 1 + 2 * 3
    let e = AST::Add(lit(NumberLiteral::I64(1)), Box::new(AST::Multiply(lit(NumberLiteral::I64(2)), lit(NumberLiteral::I64(3)))));
    assert_eq!(e.evaluate(&none, &float), Ok(NumberLiteral::I64(7)));
    // (1 + 2) * 12 / 4
    let e = AST::Divide(
        Box::new(AST::Multiply(Box::new(AST::Add(lit(NumberLiteral::I64(1)), lit(NumberLiteral::I64(2)))), lit(NumberLiteral::I64(12)))),
        lit(NumberLiteral::I64(4)),
    );
    assert_eq!(e.evaluate(&none, &float), Ok(NumberLiteral::I64(9)));
    // 5 % 2, and division and remainder toward zero.
    assert_eq!(AST::Modulo(lit(NumberLiteral::I64(5)), lit(NumberLiteral::I64(2))).evaluate(&none, &float), Ok(NumberLiteral::I64(1)));
    assert_eq!(AST::Divide(lit(NumberLiteral::I64(-7)), lit(NumberLiteral::I64(2))).evaluate(&none, &float), Ok(NumberLiteral::I64(-3)));
    assert_eq!(AST::Modulo(lit(NumberLiteral::I64(-7)), lit(NumberLiteral::I64(2))).evaluate(&none, &float), Ok(NumberLiteral::I64(-1)));
    assert_eq!(AST::Modulo(lit(NumberLiteral::I64(7)), lit(NumberLiteral::I64(-2))).evaluate(&none, &float), Ok(NumberLiteral::I64(1)));
    // Unsigned stays unsigned; a signed operand makes it signed.
    assert_eq!(AST::Subtract(lit(NumberLiteral::U64(u64::MAX)), lit(NumberLiteral::U64(1))).evaluate(&none, &float), Ok(NumberLiteral::U64(u64::MAX - 1)));
    assert_eq!(AST::Add(lit(NumberLiteral::U64(3)), lit(NumberLiteral::I64(-5))).evaluate(&none, &float), Ok(NumberLiteral::I64(-2)));
    assert_eq!(AST::Negate(lit(NumberLiteral::U64(4))).evaluate(&none, &float), Ok(NumberLiteral::I64(-4)));
}

#[test]
fn evaluate_floating_point_and_names() {
    let none: Vec<(String, NumberLiteral)> = vec![];
    // 1.5 * 3
    let e = AST::Multiply(lit(NumberLiteral::F64(bits(1.5))), lit(NumberLiteral::I64(3)));
    assert_eq!(e.evaluate(&none, &float), Ok(NumberLiteral::F64(bits(4.5))));
    assert_eq!(AST::Negate(lit(NumberLiteral::F64(bits(2.5)))).evaluate(&none, &float), Ok(NumberLiteral::F64(bits(-2.5))));
    // Names take the last value given them.
    let mut vars: Vec<(String, NumberLiteral)> = vec![];
    let x = AST::Add(lit(NumberLiteral::I64(1)), Box::new(AST::Multiply(lit(NumberLiteral::I64(2)), lit(NumberLiteral::I64(3))))).evaluate(&vars, &float).unwrap();
    vars.push(("x".to_string(), x));
    let y = AST::Multiply(name("x"), lit(NumberLiteral::I64(2))).evaluate(&vars, &float).unwrap();
    assert_eq!(y, NumberLiteral::I64(14));
    vars.push(("y".to_string(), y));
    let x = AST::Negate(name("x")).evaluate(&vars, &float).unwrap();
    vars.push(("x".to_string(), x));
    assert_eq!(AST::Identifier("x".to_string()).evaluate(&vars, &float), Ok(NumberLiteral::I64(-7)));
    assert_eq!(AST::Identifier("y".to_string()).evaluate(&vars, &float), Ok(NumberLiteral::I64(14)));
    // The first name with no value is the error.
    let e = AST::Add(name("a"), name("b"));
    assert_eq!(e.evaluate(&vars, &float), Err(EvaluateError::NameNotFound("a".to_string())));
}

fn instruction(n: &str, args: Vec<Argument>) -> Statement {
    Statement::Instruction(Instruction::new(n.to_string(), args).unwrap())
}

#[test]
fn program_resolves_labels_and_definitions() {
    // main: add r0, r0, r0 / x = 42 / y = 43.5 / foo: bar: add r0, r1, x / sub f1, velocity_x, y / jmp foo
    let content = vec![
        Statement::Label("main".to_string()),
        instruction("add", vec![ident("r0"), ident("r0"), ident("r0")]),
        Statement::Definition("x".to_string(), lit(NumberLiteral::I64(42))),
        Statement::Definition("y".to_string(), lit(NumberLiteral::F64(bits(43.5)))),
        Statement::Label("foo".to_string()),
        Statement::Label("bar".to_string()),
        instruction("add", vec![ident("r0"), ident("r1"), ident("x")]),
        instruction("sub", vec![ident("f1"), ident("velocity_x"), ident("y")]),
        instruction("jmp", vec![ident("foo")]),
    ];
    let p = Program::new(content, &float).unwrap();
    let expected = vec![
        language::Instruction::AddU64 {
            destination: DestinationU64::Register(WritableRegisterU64::GeneralPurpose0),
            left: language::SourceU64::Register(ReadableRegisterU64::GeneralPurpose0),
            right: language::SourceU64::Register(ReadableRegisterU64::GeneralPurpose0),
        },
        language::Instruction::AddU64 {
            destination: DestinationU64::Register(WritableRegisterU64::GeneralPurpose0),
            left: language::SourceU64::Register(ReadableRegisterU64::GeneralPurpose1),
            right: language::SourceU64::Literal(42),
        },
        language::Instruction::SubF64 {
            destination: DestinationF64::Register(WritableRegisterF64::GeneralPurpose1),
            left: language::SourceF64::Register(ReadableRegisterF64::VelocityX),
            right: language::SourceF64::Literal(bits(43.5)),
        },
        language::Instruction::Jump { address: language::SourceU64::Literal(1) },
    ];
    for (k, e) in expected.iter().enumerate() {
        assert_eq!(p.runnable_program.get(language::ProgramPointer(k)), Some(e));
    }
    assert_eq!(p.runnable_program.get(language::ProgramPointer(4)), None);
}

#[test]
fn program_reports_the_first_error() {
    let content = vec![
        Statement::Label("main".to_string()),
        Statement::Definition("z".to_string(), Box::new(AST::Add(name("main"), name("w")))),
        instruction("jmp", vec![ident("nowhere")]),
    ];
    assert_eq!(
        Program::new(content, &float).unwrap_err(),
        "faile to evaluate AST: NameNotFound(\"w\")"
    );
    let content = vec![
        Statement::Label("start".to_string()),
        Statement::Definition("twice".to_string(), Box::new(AST::Multiply(name("start"), lit(NumberLiteral::U64(2))))),
        instruction("jmp", vec![ident("twice")]),
        instruction("jmp", vec![ident("nowhere")]),
        instruction("jmp", vec![ident("elsewhere")]),
    ];
    assert_eq!(Program::new(content, &float).unwrap_err(), "label 'nowhere' not found in program");
}
