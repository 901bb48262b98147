use std::rc::Rc;

use robowar::language::{
    DestinationF64, DestinationU64, FloatBits, Instruction, Program, ProgramPointer,
    ReadableRegisterF64, ReadableRegisterU64, SourceF64, SourceU64, WritableRegisterF64,
    WritableRegisterU64,
};
use robowar::vm::{
    FloatComparison, FloatOperand, FloatOperation, StepError, StepOutcome, VirtualMachine,
};

fn machine(instructions: Vec<Instruction>) -> VirtualMachine {
    VirtualMachine::new(Rc::new(Program::new(instructions)))
}

fn r0_dest() -> DestinationU64 {
    DestinationU64::Register(WritableRegisterU64::GeneralPurpose0)
}

fn r0() -> SourceU64 {
    SourceU64::Register(ReadableRegisterU64::GeneralPurpose0)
}

fn bits(x: f64) -> FloatBits {
    FloatBits(x.to_bits())
}

/// A jump back to the first instruction when r0 equals `expected`; the step
/// after it halts when r0 differs.
fn check_r0(expected: u64) -> Instruction {
    Instruction::JumpEqualU64 {
        address: SourceU64::Literal(0),
        left: r0(),
        right: SourceU64::Literal(expected),
    }
}

fn is_halted(r: Result<StepOutcome, StepError>) -> bool {
    matches!(r, Err(StepError::Halted))
}

#[test]
fn empty_program_halts() {
    let mut vm = machine(vec![]);
    assert!(is_halted(vm.step()));
    assert!(is_halted(vm.step()));
}

#[test]
fn halts_after_last_instruction() {
    let mut vm = machine(vec![Instruction::AddU64 {
        destination: r0_dest(),
        left: SourceU64::Literal(1),
        right: SourceU64::Literal(2),
    }]);
    assert_eq!(vm.step().unwrap(), StepOutcome::Done);
    assert!(is_halted(vm.step()));
}

fn run_arith(first: Instruction, expected: u64) -> bool {
    let mut vm = machine(vec![first, check_r0(expected)]);
    assert_eq!(vm.step().unwrap(), StepOutcome::Done);
    assert_eq!(vm.step().unwrap(), StepOutcome::Done);
    // Jumped back to the start when r0 held the expected value.
    !is_halted(vm.step())
}

#[test]
fn add_sub_mul_div_u64() {
    let lit = SourceU64::Literal;
    assert!(run_arith(Instruction::AddU64 { destination: r0_dest(), left: lit(1), right: lit(2) }, 3));
    assert!(!run_arith(Instruction::AddU64 { destination: r0_dest(), left: lit(1), right: lit(2) }, 4));
    assert!(run_arith(Instruction::SubU64 { destination: r0_dest(), left: lit(5), right: lit(3) }, 2));
    assert!(run_arith(Instruction::MulU64 { destination: r0_dest(), left: lit(6), right: lit(7) }, 42));
    assert!(run_arith(Instruction::DivU64 { destination: r0_dest(), left: lit(7), right: lit(2) }, 3));
}

#[test]
fn shifts_u64() {
    let lit = SourceU64::Literal;
    assert!(run_arith(Instruction::ShiftLeft { destination: r0_dest(), source: lit(5) }, 10));
    assert!(run_arith(Instruction::ShiftRight { destination: r0_dest(), source: lit(5) }, 2));
    assert!(run_arith(
        Instruction::ShiftLeft { destination: r0_dest(), source: lit(0x8000_0000_0000_0001) },
        2
    ));
}

#[test]
fn jump_not_taken_moves_on() {
    let mut vm = machine(vec![Instruction::JumpLessThanU64 {
        address: SourceU64::Literal(0),
        left: SourceU64::Literal(3),
        right: SourceU64::Literal(2),
    }]);
    assert_eq!(vm.step().unwrap(), StepOutcome::Done);
    assert!(is_halted(vm.step()));
}

#[test]
fn unconditional_jump_loops() {
    let mut vm = machine(vec![Instruction::Jump { address: SourceU64::Literal(0) }]);
    for _ in 0..10 {
        assert_eq!(vm.step().unwrap(), StepOutcome::Done);
    }
}

#[test]
fn registers_start_at_zero() {
    let mut vm = machine(vec![check_r0(0)]);
    assert_eq!(vm.step().unwrap(), StepOutcome::Done);
    assert!(!is_halted(vm.step()));
}

#[test]
fn float_arithmetic_is_handed_out() {
    let f0 = DestinationF64::Register(WritableRegisterF64::GeneralPurpose0);
    let mut vm = machine(vec![Instruction::AddF64 {
        destination: f0,
        left: SourceF64::Register(ReadableRegisterF64::Health),
        right: SourceF64::Literal(bits(2.0)),
    }]);
    assert_eq!(
        vm.step().unwrap(),
        StepOutcome::FloatArithmetic {
            destination: f0,
            operation: FloatOperation::Add,
            left: FloatOperand::Value(bits(100.0)),
            right: FloatOperand::Value(bits(2.0)),
        }
    );
}

#[test]
fn float_result_written_back_is_read() {
    let f0 = DestinationF64::Register(WritableRegisterF64::GeneralPurpose0);
    let mut vm = machine(vec![Instruction::MulF64 {
        destination: f0,
        left: SourceF64::Register(ReadableRegisterF64::GeneralPurpose0),
        right: SourceF64::Register(ReadableRegisterF64::ScannerDistance),
    }]);
    vm.write_destination_f64(f0, bits(1.5));
    assert_eq!(
        vm.step().unwrap(),
        StepOutcome::FloatArithmetic {
            destination: f0,
            operation: FloatOperation::Multiply,
            left: FloatOperand::Value(bits(1.5)),
            right: FloatOperand::ScannerDistance,
        }
    );
}

#[test]
fn float_jump_is_handed_out_and_completed() {
    let address = SourceU64::Literal(0);
    let mut vm = machine(vec![Instruction::JumpLessThanF64 {
        address,
        left: SourceF64::Literal(bits(1.0)),
        right: SourceF64::Register(ReadableRegisterF64::Energy),
    }]);
    assert_eq!(
        vm.step().unwrap(),
        StepOutcome::FloatJump {
            comparison: FloatComparison::LessThan,
            left: FloatOperand::Value(bits(1.0)),
            right: FloatOperand::Value(bits(100.0)),
            address,
            operand_cost: 6,
        }
    );
    vm.complete_float_jump(true, address, 6).unwrap();
    // Back at the first instruction.
    assert!(matches!(vm.step().unwrap(), StepOutcome::FloatJump { .. }));
    vm.complete_float_jump(false, address, 6).unwrap();
    assert!(is_halted(vm.step()));
}

#[test]
fn jump_equal_f64_compares_for_inequality() {
    let mut vm = machine(vec![Instruction::JumpEqualF64 {
        address: SourceU64::Literal(0),
        left: SourceF64::Literal(bits(1.0)),
        right: SourceF64::Literal(bits(1.0)),
    }]);
    match vm.step().unwrap() {
        StepOutcome::FloatJump { comparison, operand_cost, .. } => {
            assert_eq!(comparison, FloatComparison::NotEqual);
            assert_eq!(operand_cost, 4);
        }
        other => panic!("unexpected outcome {:?}", other),
    }
}

#[test]
fn velocity_register_written_back_is_read() {
    let vx = DestinationF64::Register(WritableRegisterF64::VelocityX);
    let mut vm = machine(vec![Instruction::AddF64 {
        destination: vx,
        left: SourceF64::Register(ReadableRegisterF64::VelocityX),
        right: SourceF64::Register(ReadableRegisterF64::PositionY),
    }]);
    vm.write_destination_f64(vx, bits(-3.0));
    assert_eq!(
        vm.step().unwrap(),
        StepOutcome::FloatArithmetic {
            destination: vx,
            operation: FloatOperation::Add,
            left: FloatOperand::Value(bits(-3.0)),
            right: FloatOperand::Value(bits(0.0)),
        }
    );
}

#[test]
fn register_names() {
    assert_eq!(ReadableRegisterU64::try_from("R3"), Ok(ReadableRegisterU64::GeneralPurpose3));
    assert_eq!(WritableRegisterU64::try_from("r7"), Ok(WritableRegisterU64::GeneralPurpose7));
    assert_eq!(
        ReadableRegisterF64::try_from("Scanner_Distance"),
        Ok(ReadableRegisterF64::ScannerDistance)
    );
    assert_eq!(WritableRegisterF64::try_from("VELOCITY_X"), Ok(WritableRegisterF64::VelocityX));
    assert_eq!(
        WritableRegisterF64::try_from("health"),
        Err("Invalid register: health".to_string())
    );
    assert_eq!(
        ReadableRegisterU64::try_from("r8"),
        Err("Invalid register: r8".to_string())
    );
}

#[test]
fn program_pointer_conversions() {
    assert_eq!(ProgramPointer::try_from(5u64).unwrap(), ProgramPointer(5));
    assert_eq!(ProgramPointer::try_from(7u32).unwrap(), ProgramPointer(7));
    assert_eq!(ProgramPointer::from(9usize), ProgramPointer(9));
    let mut p = ProgramPointer(1);
    p.advance().advance();
    assert_eq!(p, ProgramPointer(3));
}

#[test]
fn step_would_panic_spots_overflow_and_division_by_zero() {
    let overflow = Instruction::AddU64 {
        destination: r0_dest(),
        left: SourceU64::Literal(u64::MAX),
        right: SourceU64::Literal(1),
    };
    assert!(machine(vec![overflow]).step_would_panic());
    let underflow = Instruction::SubU64 {
        destination: r0_dest(),
        left: r0(),
        right: SourceU64::Literal(1),
    };
    assert!(machine(vec![underflow]).step_would_panic());
    let by_zero = Instruction::DivU64 {
        destination: r0_dest(),
        left: SourceU64::Literal(4),
        right: r0(),
    };
    assert!(machine(vec![by_zero]).step_would_panic());
    let fine = Instruction::MulU64 {
        destination: r0_dest(),
        left: SourceU64::Literal(1 << 32),
        right: SourceU64::Literal(1 << 31),
    };
    let mut vm = machine(vec![fine]);
    assert!(!vm.step_would_panic());
    assert!(matches!(vm.step(), Ok(StepOutcome::Done)));
    // Past the end a step halts, which is no panic.
    assert!(!vm.step_would_panic());
    assert!(!machine(vec![]).jump_would_panic(true, SourceU64::Literal(0), 8));
}
