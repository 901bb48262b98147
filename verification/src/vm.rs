//! The virtual machine that runs a robot's program, one instruction per step.
//!
//! Integer instructions are carried out here in full. Floating-point values
//! are held by their bit patterns: for a floating-point instruction a step
//! reports the operation and its operands, the caller computes it, and hands
//! the result back (`write_destination_f64`, `complete_float_jump`). The
//! scanner-distance register is measured by the physics environment, so a
//! step reports it as an operand still to be measured.

use std::rc::Rc;
use vstd::prelude::*;

use crate::language::{
    DestinationF64, DestinationU64, FloatBits, Instruction, Program, ProgramPointer,
    ReadableRegisterF64, ReadableRegisterU64, SourceF64, SourceU64, WritableRegisterF64,
    WritableRegisterU64, readable_register_f64_named,
    readable_register_u64_named, writable_register_f64_named, writable_register_u64_named,
};
use crate::math::angles::Radians;
use crate::math::vec2::Vec2;

verus! {

/// Clock ticks spent by the machine.
#[derive(Debug, Clone, Copy)]
struct ClockTime(u64);

/// Why a step did not run an instruction to its end.
#[derive(Debug)]
pub enum StepError {
    /// The program counter is past the last instruction.
    Halted,
    /// A jump address does not fit in a program pointer.
    TryFromIntError(core::num::TryFromIntError),
}

/// A floating-point operand: its value, or the scanner distance, which the
/// physics environment measures.
#[derive(Debug, Clone, Copy, PartialEq, Eq)]
pub enum FloatOperand {
    Value(FloatBits),
    ScannerDistance,
}

/// A floating-point arithmetic operation.
#[derive(Debug, Clone, Copy, PartialEq, Eq)]
pub enum FloatOperation {
    Add,
    Subtract,
    Multiply,
    Divide,
}

/// A floating-point comparison that decides a jump.
#[derive(Debug, Clone, Copy, PartialEq, Eq)]
pub enum FloatComparison {
    NotEqual,
    LessThan,
    LessThanOrEqualTo,
    GreaterThan,
    GreaterThanOrEqualTo,
}

/// What is left to do after a step.
#[derive(Debug, Clone, Copy, PartialEq, Eq)]
pub enum StepOutcome {
    /// The instruction has been carried out.
    Done,
    /// Compute `left operation right` and write it to `destination` with
    /// `write_destination_f64`.
    FloatArithmetic {
        destination: DestinationF64,
        operation: FloatOperation,
        left: FloatOperand,
        right: FloatOperand,
    },
    /// Compare `left` with `right` and call `complete_float_jump` with the
    /// answer, `address` and `operand_cost`.
    FloatJump {
        comparison: FloatComparison,
        left: FloatOperand,
        right: FloatOperand,
        address: SourceU64,
        operand_cost: u64,
    },
}

/// An integer arithmetic operation.
#[derive(Debug, Clone, Copy, PartialEq, Eq)]
pub enum U64Operation {
    Add,
    Subtract,
    Multiply,
    Divide,
}

/// An integer comparison that decides a jump.
#[derive(Debug, Clone, Copy, PartialEq, Eq)]
pub enum U64Comparison {
    Equal,
    NotEqual,
    LessThan,
    LessThanOrEqualTo,
    GreaterThan,
    GreaterThanOrEqualTo,
}

/// The state of a machine, as mathematical values.
pub struct VmState {
    pub program: Seq<Instruction>,
    pub program_counter: int,
    pub clock: int,
    pub health: FloatBits,
    pub energy: FloatBits,
    pub position: Vec2<FloatBits>,
    pub velocity: Vec2<FloatBits>,
    pub turret_angle: FloatBits,
    pub turret_angular_velocity: FloatBits,
    pub registers_u64: Seq<u64>,
    pub registers_f64: Seq<FloatBits>,
}

/// How a step ends, as the specification describes it.
pub enum StepEnd {
    Continue(StepOutcome),
    Halted,
    AddressTooLarge,
}

/// `r` is the executable form of the step end `e`.
pub open spec fn ends_as(r: Result<StepOutcome, StepError>, e: StepEnd) -> bool {
    match e {
        StepEnd::Continue(o) => r == Ok::<StepOutcome, StepError>(o),
        StepEnd::Halted => r matches Err(StepError::Halted),
        StepEnd::AddressTooLarge => r matches Err(StepError::TryFromIntError(_)),
    }
}

/// The value and clock cost of an integer operand: registers cost 2, literals 1.
pub open spec fn u64_operand(s: VmState, source: SourceU64) -> (u64, int) {
    match source {
        SourceU64::Register(r) => (s.registers_u64[r.index()], 2),
        SourceU64::Literal(v) => (v, 1),
    }
}

/// The index of a general-purpose floating-point register among the eight.
pub open spec fn readable_f64_bank_index(r: ReadableRegisterF64) -> Option<int> {
    match r {
        ReadableRegisterF64::GeneralPurpose0 => Some(0),
        ReadableRegisterF64::GeneralPurpose1 => Some(1),
        ReadableRegisterF64::GeneralPurpose2 => Some(2),
        ReadableRegisterF64::GeneralPurpose3 => Some(3),
        ReadableRegisterF64::GeneralPurpose4 => Some(4),
        ReadableRegisterF64::GeneralPurpose5 => Some(5),
        ReadableRegisterF64::GeneralPurpose6 => Some(6),
        ReadableRegisterF64::GeneralPurpose7 => Some(7),
        _ => None,
    }
}

/// The index of a general-purpose floating-point register among the eight.
pub open spec fn writable_f64_bank_index(r: WritableRegisterF64) -> Option<int> {
    match r {
        WritableRegisterF64::GeneralPurpose0 => Some(0),
        WritableRegisterF64::GeneralPurpose1 => Some(1),
        WritableRegisterF64::GeneralPurpose2 => Some(2),
        WritableRegisterF64::GeneralPurpose3 => Some(3),
        WritableRegisterF64::GeneralPurpose4 => Some(4),
        WritableRegisterF64::GeneralPurpose5 => Some(5),
        WritableRegisterF64::GeneralPurpose6 => Some(6),
        WritableRegisterF64::GeneralPurpose7 => Some(7),
        _ => None,
    }
}

/// What reading a floating-point register gives.
pub open spec fn f64_register(s: VmState, r: ReadableRegisterF64) -> FloatOperand {
    match r {
        ReadableRegisterF64::PositionX => FloatOperand::Value(s.position.x),
        ReadableRegisterF64::PositionY => FloatOperand::Value(s.position.y),
        ReadableRegisterF64::VelocityX => FloatOperand::Value(s.velocity.x),
        ReadableRegisterF64::VelocityY => FloatOperand::Value(s.velocity.y),
        ReadableRegisterF64::TurretAngle => FloatOperand::Value(s.turret_angle),
        ReadableRegisterF64::TurretAngularVelocity => FloatOperand::Value(
            s.turret_angular_velocity,
        ),
        ReadableRegisterF64::ScannerDistance => FloatOperand::ScannerDistance,
        ReadableRegisterF64::Health => FloatOperand::Value(s.health),
        ReadableRegisterF64::Energy => FloatOperand::Value(s.energy),
        _ => FloatOperand::Value(s.registers_f64[readable_f64_bank_index(r)->0]),
    }
}

/// The value and clock cost of a floating-point operand: registers cost 4,
/// literals 2.
pub open spec fn f64_operand(s: VmState, source: SourceF64) -> (FloatOperand, int) {
    match source {
        SourceF64::Register(r) => (f64_register(s, r), 4),
        SourceF64::Literal(v) => (FloatOperand::Value(v), 2),
    }
}

/// The state after writing `v` to an integer register.
pub open spec fn with_u64(s: VmState, d: DestinationU64, v: u64) -> VmState {
    match d {
        DestinationU64::Register(r) => VmState {
            registers_u64: s.registers_u64.update(r.index(), v),
            ..s
        },
    }
}

/// The state after writing `v` to a floating-point register.
pub open spec fn with_f64(s: VmState, d: DestinationF64, v: FloatBits) -> VmState {
    match d {
        DestinationF64::Register(r) => match r {
            WritableRegisterF64::VelocityX => VmState {
                velocity: Vec2 { x: v, y: s.velocity.y },
                ..s
            },
            WritableRegisterF64::VelocityY => VmState {
                velocity: Vec2 { x: s.velocity.x, y: v },
                ..s
            },
            WritableRegisterF64::TurretAngularVelocity => VmState {
                turret_angular_velocity: v,
                ..s
            },
            _ => VmState {
                registers_f64: s.registers_f64.update(writable_f64_bank_index(r)->0, v),
                ..s
            },
        },
    }
}

/// An integer operation does not overflow, underflow or divide by zero.
pub open spec fn u64_op_defined(op: U64Operation, a: u64, b: u64) -> bool {
    match op {
        U64Operation::Add => a + b <= u64::MAX,
        U64Operation::Subtract => a >= b,
        U64Operation::Multiply => a * b <= u64::MAX,
        U64Operation::Divide => b != 0,
    }
}

/// The value of an integer operation.
pub open spec fn u64_op_value(op: U64Operation, a: u64, b: u64) -> u64 {
    match op {
        U64Operation::Add => (a + b) as u64,
        U64Operation::Subtract => (a - b) as u64,
        U64Operation::Multiply => (a * b) as u64,
        U64Operation::Divide => a / b,
    }
}

/// Whether an integer comparison holds.
pub open spec fn u64_compare(c: U64Comparison, a: u64, b: u64) -> bool {
    match c {
        U64Comparison::Equal => a == b,
        U64Comparison::NotEqual => a != b,
        U64Comparison::LessThan => a < b,
        U64Comparison::LessThanOrEqualTo => a <= b,
        U64Comparison::GreaterThan => a > b,
        U64Comparison::GreaterThanOrEqualTo => a >= b,
    }
}

/// `destination = left op right`, paying for both operands.
pub open spec fn binary_u64_step(
    s: VmState,
    destination: DestinationU64,
    left: SourceU64,
    right: SourceU64,
    op: U64Operation,
) -> (VmState, StepEnd) {
    let (a, ca) = u64_operand(s, left);
    let (b, cb) = u64_operand(s, right);
    let t = with_u64(s, destination, u64_op_value(op, a, b));
    (VmState { clock: s.clock + ca + cb, ..t }, StepEnd::Continue(StepOutcome::Done))
}

/// `destination = source << 1` (or `>> 1`), paying for the operand.
pub open spec fn shift_step(s: VmState, destination: DestinationU64, source: SourceU64, left: bool) -> (
    VmState,
    StepEnd,
) {
    let (a, ca) = u64_operand(s, source);
    let v = if left {
        (a << 1u64) as u64
    } else {
        (a >> 1u64) as u64
    };
    let t = with_u64(s, destination, v);
    (VmState { clock: s.clock + ca, ..t }, StepEnd::Continue(StepOutcome::Done))
}

/// When `taken`, jump to `address` (paying for it); then pay `operand_cost`.
/// An address that does not fit in a program pointer ends the step with an
/// error before anything is paid.
pub open spec fn conditional_jump(s: VmState, taken: bool, address: SourceU64, operand_cost: int) -> (
    VmState,
    StepEnd,
) {
    if taken {
        let (target, ct) = u64_operand(s, address);
        if target > usize::MAX {
            (s, StepEnd::AddressTooLarge)
        } else {
            (
                VmState {
                    program_counter: target as int,
                    clock: s.clock + ct + operand_cost,
                    ..s
                },
                StepEnd::Continue(StepOutcome::Done),
            )
        }
    } else {
        (VmState { clock: s.clock + operand_cost, ..s }, StepEnd::Continue(StepOutcome::Done))
    }
}

/// A jump decided by comparing two integer operands.
pub open spec fn compare_u64_step(
    s: VmState,
    address: SourceU64,
    left: SourceU64,
    right: SourceU64,
    c: U64Comparison,
) -> (VmState, StepEnd) {
    let (a, ca) = u64_operand(s, left);
    let (b, cb) = u64_operand(s, right);
    conditional_jump(s, u64_compare(c, a, b), address, ca + cb)
}

/// A floating-point operation handed to the caller, with its operands paid.
pub open spec fn float_arithmetic_step(
    s: VmState,
    destination: DestinationF64,
    left: SourceF64,
    right: SourceF64,
    operation: FloatOperation,
) -> (VmState, StepEnd) {
    let (a, ca) = f64_operand(s, left);
    let (b, cb) = f64_operand(s, right);
    (
        VmState { clock: s.clock + ca + cb, ..s },
        StepEnd::Continue(StepOutcome::FloatArithmetic { destination, operation, left: a, right: b }),
    )
}

/// A floating-point comparison handed to the caller; nothing is paid yet.
pub open spec fn float_jump_step(
    s: VmState,
    address: SourceU64,
    left: SourceF64,
    right: SourceF64,
    comparison: FloatComparison,
) -> (VmState, StepEnd) {
    let (a, ca) = f64_operand(s, left);
    let (b, cb) = f64_operand(s, right);
    (
        s,
        StepEnd::Continue(
            StepOutcome::FloatJump {
                comparison,
                left: a,
                right: b,
                address,
                operand_cost: (ca + cb) as u64,
            },
        ),
    )
}

/// One step of the machine: past the end of the program it halts with
/// nothing changed; otherwise the program counter moves to the next
/// instruction and the instruction at the old one is carried out.
pub open spec fn step_spec(s: VmState) -> (VmState, StepEnd) {
    if s.program_counter >= s.program.len() {
        (s, StepEnd::Halted)
    } else {
        let n = VmState { program_counter: s.program_counter + 1, ..s };
        match s.program[s.program_counter] {
            Instruction::AddU64 { destination, left, right } => binary_u64_step(
                n,
                destination,
                left,
                right,
                U64Operation::Add,
            ),
            Instruction::SubU64 { destination, left, right } => binary_u64_step(
                n,
                destination,
                left,
                right,
                U64Operation::Subtract,
            ),
            Instruction::MulU64 { destination, left, right } => binary_u64_step(
                n,
                destination,
                left,
                right,
                U64Operation::Multiply,
            ),
            Instruction::DivU64 { destination, left, right } => binary_u64_step(
                n,
                destination,
                left,
                right,
                U64Operation::Divide,
            ),
            Instruction::AddF64 { destination, left, right } => float_arithmetic_step(
                n,
                destination,
                left,
                right,
                FloatOperation::Add,
            ),
            Instruction::SubF64 { destination, left, right } => float_arithmetic_step(
                n,
                destination,
                left,
                right,
                FloatOperation::Subtract,
            ),
            Instruction::MulF64 { destination, left, right } => float_arithmetic_step(
                n,
                destination,
                left,
                right,
                FloatOperation::Multiply,
            ),
            Instruction::DivF64 { destination, left, right } => float_arithmetic_step(
                n,
                destination,
                left,
                right,
                FloatOperation::Divide,
            ),
            Instruction::Jump { address } => conditional_jump(n, true, address, 0),
            Instruction::JumpEqualU64 { address, left, right } => compare_u64_step(
                n,
                address,
                left,
                right,
                U64Comparison::Equal,
            ),
            Instruction::JumpNotEqualU64 { address, left, right } => compare_u64_step(
                n,
                address,
                left,
                right,
                U64Comparison::NotEqual,
            ),
            Instruction::JumpLessThanU64 { address, left, right } => compare_u64_step(
                n,
                address,
                left,
                right,
                U64Comparison::LessThan,
            ),
            Instruction::JumpLessThanOrEqualToU64 { address, left, right } => compare_u64_step(
                n,
                address,
                left,
                right,
                U64Comparison::LessThanOrEqualTo,
            ),
            Instruction::JumpGreaterThanU64 { address, left, right } => compare_u64_step(
                n,
                address,
                left,
                right,
                U64Comparison::GreaterThan,
            ),
            Instruction::JumpGreaterThanOrEqualToU64 { address, left, right } => compare_u64_step(
                n,
                address,
                left,
                right,
                U64Comparison::GreaterThanOrEqualTo,
            ),
            Instruction::JumpEqualF64 { address, left, right } => float_jump_step(
                n,
                address,
                left,
                right,
                FloatComparison::NotEqual,
            ),
            Instruction::JumpNotEqualF64 { address, left, right } => float_jump_step(
                n,
                address,
                left,
                right,
                FloatComparison::NotEqual,
            ),
            Instruction::JumpLessThanF64 { address, left, right } => float_jump_step(
                n,
                address,
                left,
                right,
                FloatComparison::LessThan,
            ),
            Instruction::JumpLessThanOrEqualToF64 { address, left, right } => float_jump_step(
                n,
                address,
                left,
                right,
                FloatComparison::LessThanOrEqualTo,
            ),
            Instruction::JumpGreaterThanF64 { address, left, right } => float_jump_step(
                n,
                address,
                left,
                right,
                FloatComparison::GreaterThan,
            ),
            Instruction::JumpGreaterThanOrEqualToF64 { address, left, right } => float_jump_step(
                n,
                address,
                left,
                right,
                FloatComparison::GreaterThanOrEqualTo,
            ),
            Instruction::ShiftLeft { destination, source } => shift_step(
                n,
                destination,
                source,
                true,
            ),
            Instruction::ShiftRight { destination, source } => shift_step(
                n,
                destination,
                source,
                false,
            ),
        }
    }
}

/// The instruction at the program counter overflows, underflows or divides
/// by zero, or the step would take the clock past `u64::MAX`.
pub open spec fn step_panics(s: VmState) -> bool {
    &&& s.program_counter < s.program.len()
    &&& {
        let n = VmState { program_counter: s.program_counter + 1, ..s };
        let arith = |left: SourceU64, right: SourceU64, op: U64Operation|
            !u64_op_defined(op, u64_operand(n, left).0, u64_operand(n, right).0);
        ||| match s.program[s.program_counter] {
            Instruction::AddU64 { destination, left, right } => arith(left, right, U64Operation::Add),
            Instruction::SubU64 { destination, left, right } => arith(
                left,
                right,
                U64Operation::Subtract,
            ),
            Instruction::MulU64 { destination, left, right } => arith(
                left,
                right,
                U64Operation::Multiply,
            ),
            Instruction::DivU64 { destination, left, right } => arith(
                left,
                right,
                U64Operation::Divide,
            ),
            _ => false,
        }
        ||| step_spec(s).0.clock > u64::MAX
    }
}

/// A machine state whose register banks hold eight registers each.
pub open spec fn well_formed(s: VmState) -> bool {
    s.registers_u64.len() == 8 && s.registers_f64.len() == 8 && 0 <= s.program_counter
        <= usize::MAX && 0 <= s.clock <= u64::MAX
}

/// The bits of the `f64` value 100.0.
pub open spec fn one_hundred() -> FloatBits {
    FloatBits(0x4059_0000_0000_0000)
}

/// A machine runs one program, from its first instruction.
pub struct VirtualMachine {
    program: Rc<Program>,
    program_counter: ProgramPointer,
    clock: ClockTime,
    health: FloatBits,
    energy: FloatBits,
    position: Vec2<FloatBits>,
    velocity: Vec2<FloatBits>,
    turret_angle: Radians<FloatBits>,
    turret_angular_velocity: Radians<FloatBits>,
    register_general_purpose_u64: [u64; 8],
    register_general_purpose_f64: [FloatBits; 8],
}

impl View for VirtualMachine {
    type V = VmState;

    closed spec fn view(&self) -> VmState {
        VmState {
            program: self.program@,
            program_counter: self.program_counter.0 as int,
            clock: self.clock.0 as int,
            health: self.health,
            energy: self.energy,
            position: self.position,
            velocity: self.velocity,
            turret_angle: self.turret_angle.0,
            turret_angular_velocity: self.turret_angular_velocity.0,
            registers_u64: self.register_general_purpose_u64@,
            registers_f64: self.register_general_purpose_f64@,
        }
    }
}

/// A resolved operand and what reading it cost.
struct ResolvedValue<T> {
    value: T,
    clock_cost: ClockTime,
}

/// The position of an integer register in the bank of eight.
fn readable_u64_index(r: crate::language::ReadableRegisterU64) -> (i: usize)
    ensures
        i == r.index(),
        i < 8,
{
    match r {
        crate::language::ReadableRegisterU64::GeneralPurpose0 => 0,
        crate::language::ReadableRegisterU64::GeneralPurpose1 => 1,
        crate::language::ReadableRegisterU64::GeneralPurpose2 => 2,
        crate::language::ReadableRegisterU64::GeneralPurpose3 => 3,
        crate::language::ReadableRegisterU64::GeneralPurpose4 => 4,
        crate::language::ReadableRegisterU64::GeneralPurpose5 => 5,
        crate::language::ReadableRegisterU64::GeneralPurpose6 => 6,
        crate::language::ReadableRegisterU64::GeneralPurpose7 => 7,
    }
}

/// The position of an integer register in the bank of eight.
fn writable_u64_index(r: crate::language::WritableRegisterU64) -> (i: usize)
    ensures
        i == r.index(),
        i < 8,
{
    match r {
        crate::language::WritableRegisterU64::GeneralPurpose0 => 0,
        crate::language::WritableRegisterU64::GeneralPurpose1 => 1,
        crate::language::WritableRegisterU64::GeneralPurpose2 => 2,
        crate::language::WritableRegisterU64::GeneralPurpose3 => 3,
        crate::language::WritableRegisterU64::GeneralPurpose4 => 4,
        crate::language::WritableRegisterU64::GeneralPurpose5 => 5,
        crate::language::WritableRegisterU64::GeneralPurpose6 => 6,
        crate::language::WritableRegisterU64::GeneralPurpose7 => 7,
    }
}

impl VirtualMachine {
    /// The register banks hold eight registers each, and the counters fit
    /// their types.
    pub proof fn lemma_well_formed(&self)
        ensures
            well_formed(self@),
    {
        assert(self.register_general_purpose_u64@.len() == 8);
        assert(self.register_general_purpose_f64@.len() == 8);
    }

    /// A machine at the first instruction of `program`, with a zero clock,
    /// health and energy of 100, at rest at the origin, and every register 0.
    pub fn new(program: Rc<Program>) -> (r: Self)
        ensures
            r@ == (VmState {
                program: program@,
                program_counter: 0,
                clock: 0,
                health: one_hundred(),
                energy: one_hundred(),
                position: Vec2 { x: FloatBits(0), y: FloatBits(0) },
                velocity: Vec2 { x: FloatBits(0), y: FloatBits(0) },
                turret_angle: FloatBits(0),
                turret_angular_velocity: FloatBits(0),
                registers_u64: Seq::new(8, |i: int| 0u64),
                registers_f64: Seq::new(8, |i: int| FloatBits(0)),
            }),
    {
        let z = FloatBits(0);
        let r = Self {
            program,
            program_counter: ProgramPointer(0),
            clock: ClockTime(0),
            health: FloatBits(0x4059_0000_0000_0000),
            energy: FloatBits(0x4059_0000_0000_0000),
            position: Vec2::new(z, z),
            velocity: Vec2::new(z, z),
            turret_angle: Radians(z),
            turret_angular_velocity: Radians(z),
            register_general_purpose_u64: [0, 0, 0, 0, 0, 0, 0, 0],
            register_general_purpose_f64: [z, z, z, z, z, z, z, z],
        };
        assert(r.register_general_purpose_u64@ =~= Seq::new(8, |i: int| 0u64));
        assert(r.register_general_purpose_f64@ =~= Seq::new(8, |i: int| FloatBits(0)));
        r
    }

    /// Moves past the instruction at the program counter and gives it;
    /// `None`, with nothing changed, past the end of the program.
    fn read_next_instruction(&mut self) -> (r: Option<Instruction>)
        ensures
            match r {
                Some(i) => {
                    &&& old(self)@.program_counter < old(self)@.program.len()
                    &&& i == old(self)@.program[old(self)@.program_counter]
                    &&& final(self)@ == (VmState {
                        program_counter: old(self)@.program_counter + 1,
                        ..old(self)@
                    })
                },
                None => {
                    &&& old(self)@.program_counter >= old(self)@.program.len()
                    &&& final(self)@ == old(self)@
                },
            },
    {
        match self.program.get(self.program_counter) {
            Some(result) => {
                let instruction = *result;
                self.program_counter.advance();
                Some(instruction)
            },
            None => None,
        }
    }

    /// The value of an integer operand and its clock cost.
    fn resolve_source_u64(&self, source: SourceU64) -> (r: ResolvedValue<u64>)
        ensures
            (r.value, r.clock_cost.0 as int) == u64_operand(self@, source),
    {
        proof {
            self.lemma_well_formed();
        }
        match source {
            SourceU64::Register(r) => ResolvedValue {
                value: self.register_general_purpose_u64[readable_u64_index(r)],
                clock_cost: ClockTime(2),
            },
            SourceU64::Literal(value) => ResolvedValue { value, clock_cost: ClockTime(1) },
        }
    }

    /// What reading a floating-point register gives.
    fn read_register_f64(&self, r: ReadableRegisterF64) -> (v: FloatOperand)
        ensures
            v == f64_register(self@, r),
    {
        proof {
            self.lemma_well_formed();
        }
        match r {
            ReadableRegisterF64::PositionX => FloatOperand::Value(self.position.x),
            ReadableRegisterF64::PositionY => FloatOperand::Value(self.position.y),
            ReadableRegisterF64::VelocityX => FloatOperand::Value(self.velocity.x),
            ReadableRegisterF64::VelocityY => FloatOperand::Value(self.velocity.y),
            ReadableRegisterF64::TurretAngle => FloatOperand::Value(self.turret_angle.0),
            ReadableRegisterF64::TurretAngularVelocity => FloatOperand::Value(
                self.turret_angular_velocity.0,
            ),
            ReadableRegisterF64::ScannerDistance => FloatOperand::ScannerDistance,
            ReadableRegisterF64::Health => FloatOperand::Value(self.health),
            ReadableRegisterF64::Energy => FloatOperand::Value(self.energy),
            ReadableRegisterF64::GeneralPurpose0 => FloatOperand::Value(
                self.register_general_purpose_f64[0],
            ),
            ReadableRegisterF64::GeneralPurpose1 => FloatOperand::Value(
                self.register_general_purpose_f64[1],
            ),
            ReadableRegisterF64::GeneralPurpose2 => FloatOperand::Value(
                self.register_general_purpose_f64[2],
            ),
            ReadableRegisterF64::GeneralPurpose3 => FloatOperand::Value(
                self.register_general_purpose_f64[3],
            ),
            ReadableRegisterF64::GeneralPurpose4 => FloatOperand::Value(
                self.register_general_purpose_f64[4],
            ),
            ReadableRegisterF64::GeneralPurpose5 => FloatOperand::Value(
                self.register_general_purpose_f64[5],
            ),
            ReadableRegisterF64::GeneralPurpose6 => FloatOperand::Value(
                self.register_general_purpose_f64[6],
            ),
            ReadableRegisterF64::GeneralPurpose7 => FloatOperand::Value(
                self.register_general_purpose_f64[7],
            ),
        }
    }

    /// The value of a floating-point operand and its clock cost.
    fn resolve_source_f64(&self, source: SourceF64) -> (r: ResolvedValue<FloatOperand>)
        ensures
            (r.value, r.clock_cost.0 as int) == f64_operand(self@, source),
    {
        match source {
            SourceF64::Register(r) => ResolvedValue {
                value: self.read_register_f64(r),
                clock_cost: ClockTime(4),
            },
            SourceF64::Literal(value) => ResolvedValue {
                value: FloatOperand::Value(value),
                clock_cost: ClockTime(2),
            },
        }
    }

    /// Writes `value` to an integer register.
    fn write_destination_u64(&mut self, destination: DestinationU64, value: u64)
        ensures
            final(self)@ == with_u64(old(self)@, destination, value),
    {
        match destination {
            DestinationU64::Register(r) => {
                let i = writable_u64_index(r);
                proof {
                    self.lemma_well_formed();
                }
                self.register_general_purpose_u64[i] = value;
            },
        }
    }

    /// Writes `value` to a floating-point register: the velocity components,
    /// the turret's angular velocity, or a general-purpose register.
    pub fn write_destination_f64(&mut self, destination: DestinationF64, value: FloatBits)
        ensures
            final(self)@ == with_f64(old(self)@, destination, value),
    {
        proof {
            self.lemma_well_formed();
        }
        match destination {
            DestinationF64::Register(r) => match r {
                WritableRegisterF64::VelocityX => {
                    self.velocity.x = value;
                },
                WritableRegisterF64::VelocityY => {
                    self.velocity.y = value;
                },
                WritableRegisterF64::TurretAngularVelocity => {
                    self.turret_angular_velocity = Radians(value);
                },
                WritableRegisterF64::GeneralPurpose0 => {
                    self.register_general_purpose_f64[0] = value;
                },
                WritableRegisterF64::GeneralPurpose1 => {
                    self.register_general_purpose_f64[1] = value;
                },
                WritableRegisterF64::GeneralPurpose2 => {
                    self.register_general_purpose_f64[2] = value;
                },
                WritableRegisterF64::GeneralPurpose3 => {
                    self.register_general_purpose_f64[3] = value;
                },
                WritableRegisterF64::GeneralPurpose4 => {
                    self.register_general_purpose_f64[4] = value;
                },
                WritableRegisterF64::GeneralPurpose5 => {
                    self.register_general_purpose_f64[5] = value;
                },
                WritableRegisterF64::GeneralPurpose6 => {
                    self.register_general_purpose_f64[6] = value;
                },
                WritableRegisterF64::GeneralPurpose7 => {
                    self.register_general_purpose_f64[7] = value;
                },
            },
        }
    }
}

impl VirtualMachine {
    /// `destination = left op right`, then pays for both operands.
    fn binary_operator_common_u64(
        &mut self,
        destination: DestinationU64,
        left: SourceU64,
        right: SourceU64,
        op: U64Operation,
    )
        requires
            u64_op_defined(op, u64_operand(old(self)@, left).0, u64_operand(old(self)@, right).0),
            binary_u64_step(old(self)@, destination, left, right, op).0.clock <= u64::MAX,
        ensures
            final(self)@ == binary_u64_step(old(self)@, destination, left, right, op).0,
    {
        let left = self.resolve_source_u64(left);
        let right = self.resolve_source_u64(right);
        let value = match op {
            U64Operation::Add => left.value + right.value,
            U64Operation::Subtract => left.value - right.value,
            U64Operation::Multiply => left.value * right.value,
            U64Operation::Divide => left.value / right.value,
        };
        self.write_destination_u64(destination, value);
        self.clock = ClockTime(self.clock.0 + (left.clock_cost.0 + right.clock_cost.0));
    }

    /// `destination = source << 1` or `source >> 1`, then pays for the operand.
    fn unary_operator_common_u64(
        &mut self,
        destination: DestinationU64,
        source: SourceU64,
        shift_left: bool,
    )
        requires
            shift_step(old(self)@, destination, source, shift_left).0.clock <= u64::MAX,
        ensures
            final(self)@ == shift_step(old(self)@, destination, source, shift_left).0,
    {
        let source = self.resolve_source_u64(source);
        let value = if shift_left {
            source.value << 1u64
        } else {
            source.value >> 1u64
        };
        self.write_destination_u64(destination, value);
        self.clock = ClockTime(self.clock.0 + source.clock_cost.0);
    }

    /// When `taken`, jumps to `address` and pays for it; then pays
    /// `operand_cost`. An address too large for a program pointer ends with
    /// an error and nothing changed.
    fn jump_if(&mut self, taken: bool, address: SourceU64, operand_cost: u64) -> (r: Result<
        (),
        StepError,
    >)
        requires
            conditional_jump(old(self)@, taken, address, operand_cost as int).0.clock <= u64::MAX,
        ensures
            final(self)@ == conditional_jump(old(self)@, taken, address, operand_cost as int).0,
            match r {
                Ok(_) => conditional_jump(old(self)@, taken, address, operand_cost as int).1
                    == StepEnd::Continue(StepOutcome::Done),
                Err(e) => conditional_jump(old(self)@, taken, address, operand_cost as int).1
                    == StepEnd::AddressTooLarge && e is TryFromIntError,
            },
    {
        if taken {
            let address = self.resolve_source_u64(address);
            match ProgramPointer::try_from(address.value) {
                Ok(p) => {
                    self.program_counter = p;
                },
                Err(e) => {
                    return Err(StepError::TryFromIntError(e));
                },
            }
            self.clock = ClockTime(self.clock.0 + address.clock_cost.0);
        }
        self.clock = ClockTime(self.clock.0 + operand_cost);
        Ok(())
    }

    /// Compares two integer operands and jumps when the comparison holds.
    fn jump_comparison_u64(
        &mut self,
        address: SourceU64,
        left: SourceU64,
        right: SourceU64,
        comparison: U64Comparison,
    ) -> (r: Result<(), StepError>)
        requires
            compare_u64_step(old(self)@, address, left, right, comparison).0.clock <= u64::MAX,
        ensures
            final(self)@ == compare_u64_step(old(self)@, address, left, right, comparison).0,
            match r {
                Ok(_) => compare_u64_step(old(self)@, address, left, right, comparison).1
                    == StepEnd::Continue(StepOutcome::Done),
                Err(e) => compare_u64_step(old(self)@, address, left, right, comparison).1
                    == StepEnd::AddressTooLarge && e is TryFromIntError,
            },
    {
        let left = self.resolve_source_u64(left);
        let right = self.resolve_source_u64(right);
        let taken = match comparison {
            U64Comparison::Equal => left.value == right.value,
            U64Comparison::NotEqual => left.value != right.value,
            U64Comparison::LessThan => left.value < right.value,
            U64Comparison::LessThanOrEqualTo => left.value <= right.value,
            U64Comparison::GreaterThan => left.value > right.value,
            U64Comparison::GreaterThanOrEqualTo => left.value >= right.value,
        };
        self.jump_if(taken, address, left.clock_cost.0 + right.clock_cost.0)
    }

    /// Resolves the operands of a floating-point operation and pays for them.
    fn binary_operator_common_f64(
        &mut self,
        destination: DestinationF64,
        left: SourceF64,
        right: SourceF64,
        operation: FloatOperation,
    ) -> (r: StepOutcome)
        requires
            float_arithmetic_step(old(self)@, destination, left, right, operation).0.clock
                <= u64::MAX,
        ensures
            final(self)@ == float_arithmetic_step(old(self)@, destination, left, right, operation).0,
            StepEnd::Continue(r) == float_arithmetic_step(
                old(self)@,
                destination,
                left,
                right,
                operation,
            ).1,
    {
        let left = self.resolve_source_f64(left);
        let right = self.resolve_source_f64(right);
        self.clock = ClockTime(self.clock.0 + (left.clock_cost.0 + right.clock_cost.0));
        StepOutcome::FloatArithmetic {
            destination,
            operation,
            left: left.value,
            right: right.value,
        }
    }

    /// Resolves the operands of a floating-point comparison.
    fn jump_comparison_f64(
        &self,
        address: SourceU64,
        left: SourceF64,
        right: SourceF64,
        comparison: FloatComparison,
    ) -> (r: StepOutcome)
        ensures
            StepEnd::Continue(r) == float_jump_step(self@, address, left, right, comparison).1,
    {
        let left = self.resolve_source_f64(left);
        let right = self.resolve_source_f64(right);
        StepOutcome::FloatJump {
            comparison,
            left: left.value,
            right: right.value,
            address,
            operand_cost: left.clock_cost.0 + right.clock_cost.0,
        }
    }

    /// Finishes a floating-point jump that a step handed out: `taken` is
    /// whether its comparison held; `address` and `operand_cost` are those
    /// the step gave.
    pub fn complete_float_jump(&mut self, taken: bool, address: SourceU64, operand_cost: u64) -> (r:
        Result<(), StepError>)
        requires
            conditional_jump(old(self)@, taken, address, operand_cost as int).0.clock <= u64::MAX,
        ensures
            final(self)@ == conditional_jump(old(self)@, taken, address, operand_cost as int).0,
            ends_as(
                match r {
                    Ok(_) => Ok(StepOutcome::Done),
                    Err(e) => Err(e),
                },
                conditional_jump(old(self)@, taken, address, operand_cost as int).1,
            ),
    {
        self.jump_if(taken, address, operand_cost)
    }

    /// Whether paying `cost` would take the clock past `u64::MAX`.
    fn clock_passes_limit(&self, cost: u64) -> (r: bool)
        ensures
            r == (self@.clock + cost > u64::MAX),
    {
        self.clock.0 > u64::MAX - cost
    }

    /// Whether completing a jump (taken or not) whose operands cost
    /// `operand_cost` would take the clock past `u64::MAX`: `complete_float_jump`
    /// may be called exactly when this is false.
    pub fn jump_would_panic(&self, taken: bool, address: SourceU64, operand_cost: u64) -> (r:
        bool)
        ensures
            r == (conditional_jump(self@, taken, address, operand_cost as int).0.clock > u64::MAX),
    {
        if taken {
            let address = self.resolve_source_u64(address);
            match ProgramPointer::try_from(address.value) {
                Ok(_) => match address.clock_cost.0.checked_add(operand_cost) {
                    Some(cost) => self.clock_passes_limit(cost),
                    None => true,
                },
                Err(_) => false,
            }
        } else {
            self.clock_passes_limit(operand_cost)
        }
    }

    /// Whether an integer operation on `left` and `right` would overflow,
    /// underflow or divide by zero, or its operands would take the clock past
    /// `u64::MAX`.
    fn binary_u64_panics(&self, left: SourceU64, right: SourceU64, op: U64Operation) -> (r: bool)
        ensures
            r == (!u64_op_defined(op, u64_operand(self@, left).0, u64_operand(self@, right).0)
                || self@.clock + u64_operand(self@, left).1 + u64_operand(self@, right).1
                > u64::MAX),
    {
        let left = self.resolve_source_u64(left);
        let right = self.resolve_source_u64(right);
        let undefined = match op {
            U64Operation::Add => left.value.checked_add(right.value).is_none(),
            U64Operation::Subtract => left.value < right.value,
            U64Operation::Multiply => left.value.checked_mul(right.value).is_none(),
            U64Operation::Divide => right.value == 0,
        };
        undefined || self.clock_passes_limit(left.clock_cost.0 + right.clock_cost.0)
    }

    /// Whether the next step would overflow, underflow or divide by zero, or
    /// take the clock past `u64::MAX` (see `step_panics`): `step` may be
    /// called exactly when this is false.
    pub fn step_would_panic(&self) -> (r: bool)
        ensures
            r == step_panics(self@),
    {
        let instruction = match self.program.get(self.program_counter) {
            Some(i) => *i,
            None => {
                return false;
            },
        };
        match instruction {
            Instruction::AddU64 { left, right, .. } => self.binary_u64_panics(
                left,
                right,
                U64Operation::Add,
            ),
            Instruction::SubU64 { left, right, .. } => self.binary_u64_panics(
                left,
                right,
                U64Operation::Subtract,
            ),
            Instruction::MulU64 { left, right, .. } => self.binary_u64_panics(
                left,
                right,
                U64Operation::Multiply,
            ),
            Instruction::DivU64 { left, right, .. } => self.binary_u64_panics(
                left,
                right,
                U64Operation::Divide,
            ),
            Instruction::AddF64 { left, right, .. }
            | Instruction::SubF64 { left, right, .. }
            | Instruction::MulF64 { left, right, .. }
            | Instruction::DivF64 { left, right, .. } => {
                let left = self.resolve_source_f64(left);
                let right = self.resolve_source_f64(right);
                self.clock_passes_limit(left.clock_cost.0 + right.clock_cost.0)
            },
            Instruction::Jump { address } => self.jump_would_panic(true, address, 0),
            Instruction::JumpEqualU64 { address, left, right }
            | Instruction::JumpNotEqualU64 { address, left, right }
            | Instruction::JumpLessThanU64 { address, left, right }
            | Instruction::JumpLessThanOrEqualToU64 { address, left, right }
            | Instruction::JumpGreaterThanU64 { address, left, right }
            | Instruction::JumpGreaterThanOrEqualToU64 { address, left, right } => {
                let a = self.resolve_source_u64(left);
                let b = self.resolve_source_u64(right);
                let taken = match instruction {
                    Instruction::JumpEqualU64 { .. } => a.value == b.value,
                    Instruction::JumpNotEqualU64 { .. } => a.value != b.value,
                    Instruction::JumpLessThanU64 { .. } => a.value < b.value,
                    Instruction::JumpLessThanOrEqualToU64 { .. } => a.value <= b.value,
                    Instruction::JumpGreaterThanU64 { .. } => a.value > b.value,
                    _ => a.value >= b.value,
                };
                self.jump_would_panic(taken, address, a.clock_cost.0 + b.clock_cost.0)
            },
            Instruction::ShiftLeft { source, .. } | Instruction::ShiftRight { source, .. } => {
                let source = self.resolve_source_u64(source);
                self.clock_passes_limit(source.clock_cost.0)
            },
            _ => false,
        }
    }

    /// Runs the instruction at the program counter (see `step_spec`).
    pub fn step(&mut self) -> (r: Result<StepOutcome, StepError>)
        requires
            !step_panics(old(self)@),
        ensures
            final(self)@ == step_spec(old(self)@).0,
            ends_as(r, step_spec(old(self)@).1),
    {
        match self.read_next_instruction() {
            Some(Instruction::AddU64 { destination, left, right }) => {
                self.binary_operator_common_u64(destination, left, right, U64Operation::Add);
                Ok(StepOutcome::Done)
            },
            Some(Instruction::AddF64 { destination, left, right }) => Ok(
                self.binary_operator_common_f64(destination, left, right, FloatOperation::Add),
            ),
            Some(Instruction::SubU64 { destination, left, right }) => {
                self.binary_operator_common_u64(destination, left, right, U64Operation::Subtract);
                Ok(StepOutcome::Done)
            },
            Some(Instruction::SubF64 { destination, left, right }) => Ok(
                self.binary_operator_common_f64(
                    destination,
                    left,
                    right,
                    FloatOperation::Subtract,
                ),
            ),
            Some(Instruction::MulU64 { destination, left, right }) => {
                self.binary_operator_common_u64(destination, left, right, U64Operation::Multiply);
                Ok(StepOutcome::Done)
            },
            Some(Instruction::MulF64 { destination, left, right }) => Ok(
                self.binary_operator_common_f64(
                    destination,
                    left,
                    right,
                    FloatOperation::Multiply,
                ),
            ),
            Some(Instruction::DivU64 { destination, left, right }) => {
                self.binary_operator_common_u64(destination, left, right, U64Operation::Divide);
                Ok(StepOutcome::Done)
            },
            Some(Instruction::DivF64 { destination, left, right }) => Ok(
                self.binary_operator_common_f64(destination, left, right, FloatOperation::Divide),
            ),
            Some(Instruction::Jump { address }) => match self.jump_if(true, address, 0) {
                Ok(_) => Ok(StepOutcome::Done),
                Err(e) => Err(e),
            },
            Some(Instruction::JumpEqualU64 { address, left, right }) => match self.jump_comparison_u64(
                address,
                left,
                right,
                U64Comparison::Equal,
            ) {
                Ok(_) => Ok(StepOutcome::Done),
                Err(e) => Err(e),
            },
            Some(Instruction::JumpEqualF64 { address, left, right }) => Ok(
                self.jump_comparison_f64(address, left, right, FloatComparison::NotEqual),
            ),
            Some(Instruction::JumpNotEqualU64 { address, left, right }) => match self.jump_comparison_u64(
                address,
                left,
                right,
                U64Comparison::NotEqual,
            ) {
                Ok(_) => Ok(StepOutcome::Done),
                Err(e) => Err(e),
            },
            Some(Instruction::JumpNotEqualF64 { address, left, right }) => Ok(
                self.jump_comparison_f64(address, left, right, FloatComparison::NotEqual),
            ),
            Some(Instruction::JumpLessThanU64 { address, left, right }) => match self.jump_comparison_u64(
                address,
                left,
                right,
                U64Comparison::LessThan,
            ) {
                Ok(_) => Ok(StepOutcome::Done),
                Err(e) => Err(e),
            },
            Some(Instruction::JumpLessThanF64 { address, left, right }) => Ok(
                self.jump_comparison_f64(address, left, right, FloatComparison::LessThan),
            ),
            Some(
                Instruction::JumpLessThanOrEqualToU64 { address, left, right },
            ) => match self.jump_comparison_u64(
                address,
                left,
                right,
                U64Comparison::LessThanOrEqualTo,
            ) {
                Ok(_) => Ok(StepOutcome::Done),
                Err(e) => Err(e),
            },
            Some(Instruction::JumpLessThanOrEqualToF64 { address, left, right }) => Ok(
                self.jump_comparison_f64(address, left, right, FloatComparison::LessThanOrEqualTo),
            ),
            Some(Instruction::JumpGreaterThanU64 { address, left, right }) => match self.jump_comparison_u64(
                address,
                left,
                right,
                U64Comparison::GreaterThan,
            ) {
                Ok(_) => Ok(StepOutcome::Done),
                Err(e) => Err(e),
            },
            Some(Instruction::JumpGreaterThanF64 { address, left, right }) => Ok(
                self.jump_comparison_f64(address, left, right, FloatComparison::GreaterThan),
            ),
            Some(
                Instruction::JumpGreaterThanOrEqualToU64 { address, left, right },
            ) => match self.jump_comparison_u64(
                address,
                left,
                right,
                U64Comparison::GreaterThanOrEqualTo,
            ) {
                Ok(_) => Ok(StepOutcome::Done),
                Err(e) => Err(e),
            },
            Some(Instruction::JumpGreaterThanOrEqualToF64 { address, left, right }) => Ok(
                self.jump_comparison_f64(
                    address,
                    left,
                    right,
                    FloatComparison::GreaterThanOrEqualTo,
                ),
            ),
            Some(Instruction::ShiftLeft { destination, source }) => {
                self.unary_operator_common_u64(destination, source, true);
                Ok(StepOutcome::Done)
            },
            Some(Instruction::ShiftRight { destination, source }) => {
                self.unary_operator_common_u64(destination, source, false);
                Ok(StepOutcome::Done)
            },
            None => Err(StepError::Halted),
        }
    }
}


/// Whether an instruction may move the program counter somewhere other than
/// the next instruction.
pub open spec fn is_jump(i: Instruction) -> bool {
    match i {
        Instruction::Jump { .. } | Instruction::JumpEqualU64 { .. }
        | Instruction::JumpNotEqualU64 { .. } | Instruction::JumpLessThanU64 { .. }
        | Instruction::JumpLessThanOrEqualToU64 { .. } | Instruction::JumpGreaterThanU64 { .. }
        | Instruction::JumpGreaterThanOrEqualToU64 { .. } => true,
        _ => false,
    }
}

/// The integer register an instruction writes, if it writes one.
pub open spec fn u64_destination(i: Instruction) -> Option<int> {
    match i {
        Instruction::AddU64 { destination, .. } | Instruction::SubU64 { destination, .. }
        | Instruction::MulU64 { destination, .. } | Instruction::DivU64 { destination, .. }
        | Instruction::ShiftLeft { destination, .. } | Instruction::ShiftRight { destination, .. } => {
            match destination {
                DestinationU64::Register(r) => Some(r.index()),
            }
        },
        _ => None,
    }
}

/// Past the end of the program a step halts and changes nothing.
pub proof fn lemma_step_past_end_halts(s: VmState)
    requires
        s.program_counter >= s.program.len(),
    ensures
        step_spec(s).0 == s,
        step_spec(s).1 is Halted,
{
}

/// A step never changes the program, the physical state (health, energy,
/// position, velocity, turret) or the floating-point registers: those change
/// only when the caller writes a floating-point result back.
#[verifier::spinoff_prover]
#[verifier::rlimit(40)]
pub proof fn lemma_step_frame(s: VmState)
    requires
        well_formed(s),
    ensures
        step_spec(s).0.program == s.program,
        step_spec(s).0.health == s.health,
        step_spec(s).0.energy == s.energy,
        step_spec(s).0.position == s.position,
        step_spec(s).0.velocity == s.velocity,
        step_spec(s).0.turret_angle == s.turret_angle,
        step_spec(s).0.turret_angular_velocity == s.turret_angular_velocity,
        step_spec(s).0.registers_f64 == s.registers_f64,
        step_spec(s).0.registers_u64.len() == s.registers_u64.len(),
{
}

/// The clock never runs backwards.
pub proof fn lemma_step_clock_monotonic(s: VmState)
    ensures
        step_spec(s).0.clock >= s.clock,
{
}

/// Every instruction that a step carries out to its end costs at least one
/// clock tick; a floating-point step costs its operands.
pub proof fn lemma_step_costs_time(s: VmState)
    ensures
        step_spec(s).1 == StepEnd::Continue(StepOutcome::Done) ==> step_spec(s).0.clock > s.clock,
        step_spec(s).1 matches StepEnd::Continue(StepOutcome::FloatArithmetic { .. })
            ==> step_spec(s).0.clock >= s.clock + 4,
        step_spec(s).1 matches StepEnd::Continue(StepOutcome::FloatJump { operand_cost, .. })
            ==> operand_cost >= 4 && step_spec(s).0.clock == s.clock,
{
    if s.program_counter < s.program.len() {
        let n = VmState { program_counter: s.program_counter + 1, ..s };
        match s.program[s.program_counter] {
            Instruction::AddU64 { left, right, .. } | Instruction::SubU64 { left, right, .. }
            | Instruction::MulU64 { left, right, .. } | Instruction::DivU64 { left, right, .. } => {
                assert(u64_operand(n, left).1 >= 1 && u64_operand(n, right).1 >= 1);
            },
            Instruction::ShiftLeft { source, .. } | Instruction::ShiftRight { source, .. } => {
                assert(u64_operand(n, source).1 >= 1);
            },
            Instruction::Jump { address } => {
                assert(u64_operand(n, address).1 >= 1);
            },
            Instruction::JumpEqualU64 { address, left, right, .. }
            | Instruction::JumpNotEqualU64 { address, left, right, .. }
            | Instruction::JumpLessThanU64 { address, left, right, .. }
            | Instruction::JumpLessThanOrEqualToU64 { address, left, right, .. }
            | Instruction::JumpGreaterThanU64 { address, left, right, .. }
            | Instruction::JumpGreaterThanOrEqualToU64 { address, left, right, .. } => {
                assert(u64_operand(n, left).1 >= 1 && u64_operand(n, right).1 >= 1);
                assert(u64_operand(n, address).1 >= 1);
            },
            Instruction::AddF64 { left, right, .. } | Instruction::SubF64 { left, right, .. }
            | Instruction::MulF64 { left, right, .. } | Instruction::DivF64 { left, right, .. } => {
                assert(f64_operand(n, left).1 >= 2 && f64_operand(n, right).1 >= 2);
            },
            _ => {
                assert(s.program[s.program_counter] matches Instruction::JumpEqualF64 { .. }
                    || s.program[s.program_counter] matches Instruction::JumpNotEqualF64 { .. }
                    || s.program[s.program_counter] matches Instruction::JumpLessThanF64 { .. }
                    || s.program[s.program_counter] matches Instruction::JumpLessThanOrEqualToF64 { .. }
                    || s.program[s.program_counter] matches Instruction::JumpGreaterThanF64 { .. }
                    || s.program[s.program_counter] matches Instruction::JumpGreaterThanOrEqualToF64 { .. });
            },
        }
    }
}

/// An instruction that is not a jump moves the program counter to the next
/// instruction, and the step does not fail.
pub proof fn lemma_step_non_jump_advances(s: VmState)
    requires
        s.program_counter < s.program.len(),
        !is_jump(s.program[s.program_counter]),
    ensures
        step_spec(s).0.program_counter == s.program_counter + 1,
        step_spec(s).1 is Continue,
{
}

/// A jump that does not fail lands on the next instruction or on its
/// address.
pub proof fn lemma_step_jump_lands(s: VmState)
    requires
        s.program_counter < s.program.len(),
        is_jump(s.program[s.program_counter]),
        step_spec(s).1 is Continue,
    ensures
        step_spec(s).0.program_counter == s.program_counter + 1 || exists|a: SourceU64|
            step_spec(s).0.program_counter == #[trigger] u64_operand(s, a).0 as int,
{
    let n = VmState { program_counter: s.program_counter + 1, ..s };
    match s.program[s.program_counter] {
        Instruction::Jump { address } => {
            assert(u64_operand(n, address).0 == u64_operand(s, address).0);
        },
        Instruction::JumpEqualU64 { address, .. } | Instruction::JumpNotEqualU64 { address, .. }
        | Instruction::JumpLessThanU64 { address, .. }
        | Instruction::JumpLessThanOrEqualToU64 { address, .. }
        | Instruction::JumpGreaterThanU64 { address, .. }
        | Instruction::JumpGreaterThanOrEqualToU64 { address, .. } => {
            assert(u64_operand(n, address).0 == u64_operand(s, address).0);
        },
        _ => {},
    }
}

/// An instruction writes at most one integer register, its destination;
/// every other integer register keeps its value.
pub proof fn lemma_step_writes_only_destination(s: VmState, i: int)
    requires
        well_formed(s),
        0 <= i < 8,
        s.program_counter < s.program.len() ==> u64_destination(s.program[s.program_counter])
            != Some(i),
    ensures
        step_spec(s).0.registers_u64[i] == s.registers_u64[i],
{
}

/// A step that does not panic keeps a well-formed machine well formed,
/// for a program that fits in memory.
pub proof fn lemma_step_keeps_well_formed(s: VmState)
    requires
        well_formed(s),
        s.program.len() <= usize::MAX,
        !step_panics(s),
    ensures
        well_formed(step_spec(s).0),
{
    lemma_step_frame(s);
    lemma_step_clock_monotonic(s);
    lemma_step_counter_fits(s);
}

/// After a step the program counter still fits in a program pointer.
proof fn lemma_step_counter_fits(s: VmState)
    requires
        0 <= s.program_counter <= usize::MAX,
        s.program.len() <= usize::MAX,
    ensures
        0 <= step_spec(s).0.program_counter <= usize::MAX,
{
    if s.program_counter < s.program.len() {
        let n = VmState { program_counter: s.program_counter + 1, ..s };
        match s.program[s.program_counter] {
            Instruction::Jump { address } | Instruction::JumpEqualU64 { address, .. }
            | Instruction::JumpNotEqualU64 { address, .. }
            | Instruction::JumpLessThanU64 { address, .. }
            | Instruction::JumpLessThanOrEqualToU64 { address, .. }
            | Instruction::JumpGreaterThanU64 { address, .. }
            | Instruction::JumpGreaterThanOrEqualToU64 { address, .. } => {
                let target = u64_operand(n, address).0;
                assert(step_spec(s).0.program_counter == s.program_counter + 1
                    || step_spec(s).0.program_counter == target as int);
            },
            _ => {
                lemma_step_non_jump_advances(s);
            },
        }
    }
}

/// Writing an integer register keeps the size of the bank.
proof fn lemma_with_u64_len(s: VmState, d: DestinationU64)
    requires
        s.registers_u64.len() == 8,
    ensures
        forall|w: u64| #[trigger] with_u64(s, d, w).registers_u64.len() == 8,
{
}

/// Where a step from `s` goes when a jump to `address` is `taken` or not:
/// to the address (when it fits in a program pointer, else the step fails),
/// or on to the next instruction.
pub open spec fn lands(s: VmState, address: SourceU64, taken: bool) -> bool {
    let target = u64_operand(s, address).0;
    if !taken {
        &&& step_spec(s).0.program_counter == s.program_counter + 1
        &&& step_spec(s).1 == StepEnd::Continue(StepOutcome::Done)
    } else if target <= usize::MAX {
        &&& step_spec(s).0.program_counter == target
        &&& step_spec(s).1 == StepEnd::Continue(StepOutcome::Done)
    } else {
        step_spec(s).1 is AddressTooLarge
    }
}

/// A jump is taken exactly when its comparison holds between the values of
/// its two operands: `jeq` when they are equal, `jne` when they differ,
/// `jlt` when the left one is smaller, `jle` when it is not larger, `jgt`
/// when it is larger, `jge` when it is not smaller; `jmp` always.
pub proof fn lemma_integer_jump_taken(s: VmState)
    requires
        0 <= s.program_counter < s.program.len(),
    ensures
        match s.program[s.program_counter] {
            Instruction::Jump { address } => lands(s, address, true),
            Instruction::JumpEqualU64 { address, left, right } => lands(
                s,
                address,
                u64_operand(s, left).0 == u64_operand(s, right).0,
            ),
            Instruction::JumpNotEqualU64 { address, left, right } => lands(
                s,
                address,
                u64_operand(s, left).0 != u64_operand(s, right).0,
            ),
            Instruction::JumpLessThanU64 { address, left, right } => lands(
                s,
                address,
                u64_operand(s, left).0 < u64_operand(s, right).0,
            ),
            Instruction::JumpLessThanOrEqualToU64 { address, left, right } => lands(
                s,
                address,
                u64_operand(s, left).0 <= u64_operand(s, right).0,
            ),
            Instruction::JumpGreaterThanU64 { address, left, right } => lands(
                s,
                address,
                u64_operand(s, left).0 > u64_operand(s, right).0,
            ),
            Instruction::JumpGreaterThanOrEqualToU64 { address, left, right } => lands(
                s,
                address,
                u64_operand(s, left).0 >= u64_operand(s, right).0,
            ),
            _ => true,
        },
{
}

/// An integer instruction writes its result to its destination register:
/// the sum, difference, product or quotient of its operands' values (when
/// the operation is defined), or the source's value doubled (modulo 2^64)
/// or halved.
pub proof fn lemma_integer_arithmetic(s: VmState)
    requires
        well_formed(s),
        s.program_counter < s.program.len(),
    ensures
        match s.program[s.program_counter] {
            Instruction::AddU64 { destination: DestinationU64::Register(r), left, right } => {
                let a = u64_operand(s, left).0;
                let b = u64_operand(s, right).0;
                a + b <= u64::MAX ==> step_spec(s).0.registers_u64[r.index()] == a + b
            },
            Instruction::SubU64 { destination: DestinationU64::Register(r), left, right } => {
                let a = u64_operand(s, left).0;
                let b = u64_operand(s, right).0;
                a >= b ==> step_spec(s).0.registers_u64[r.index()] == a - b
            },
            Instruction::MulU64 { destination: DestinationU64::Register(r), left, right } => {
                let a = u64_operand(s, left).0;
                let b = u64_operand(s, right).0;
                a * b <= u64::MAX ==> step_spec(s).0.registers_u64[r.index()] == a * b
            },
            Instruction::DivU64 { destination: DestinationU64::Register(r), left, right } => {
                let a = u64_operand(s, left).0;
                let b = u64_operand(s, right).0;
                b != 0 ==> step_spec(s).0.registers_u64[r.index()] * b <= a
                    < (step_spec(s).0.registers_u64[r.index()] + 1) * b
            },
            Instruction::ShiftLeft { destination: DestinationU64::Register(r), source } => {
                let a = u64_operand(s, source).0;
                step_spec(s).0.registers_u64[r.index()] == if a < 0x8000_0000_0000_0000 {
                    2 * a
                } else {
                    2 * a - 0x1_0000_0000_0000_0000
                }
            },
            Instruction::ShiftRight { destination: DestinationU64::Register(r), source } => {
                let a = u64_operand(s, source).0;
                2 * step_spec(s).0.registers_u64[r.index()] <= a < 2
                    * step_spec(s).0.registers_u64[r.index()] + 2
            },
            _ => true,
        },
{
    let n = VmState { program_counter: s.program_counter + 1, ..s };
    match s.program[s.program_counter] {
        Instruction::DivU64 { destination: DestinationU64::Register(r), left, right } => {
            let a = u64_operand(s, left).0;
            let b = u64_operand(s, right).0;
            if b != 0 {
                let q = a / b;
                assert(q * b <= a < (q + 1) * b) by (nonlinear_arith)
                    requires
                        b > 0,
                        q == a / b,
                ;
            }
        },
        Instruction::ShiftLeft { destination: DestinationU64::Register(r), source } => {
            let a = u64_operand(s, source).0;
            if a < 0x8000_0000_0000_0000 {
                assert((a << 1u64) as u64 == 2 * a) by (bit_vector)
                    requires
                        a < 0x8000_0000_0000_0000,
                ;
            } else {
                assert((a << 1u64) as u64 == 2 * a - 0x1_0000_0000_0000_0000) by (bit_vector)
                    requires
                        a >= 0x8000_0000_0000_0000,
                ;
            }
        },
        Instruction::ShiftRight { destination: DestinationU64::Register(r), source } => {
            let a = u64_operand(s, source).0;
            assert((a >> 1u64) as u64 == a / 2) by (bit_vector);
        },
        _ => {},
    }
}

/// Whether a step from `s` hands out the floating-point jump to `address`
/// deciding by `comparison` between the values of `left` and `right`, with
/// nothing changed yet but the program counter.
pub open spec fn hands_out_comparison(
    s: VmState,
    address: SourceU64,
    left: SourceF64,
    right: SourceF64,
    comparison: FloatComparison,
) -> bool {
    &&& step_spec(s).0 == (VmState { program_counter: s.program_counter + 1, ..s })
    &&& step_spec(s).1 matches StepEnd::Continue(
        StepOutcome::FloatJump { comparison: c, left: l, right: r, address: a, .. },
    ) && c == comparison && l == f64_operand(s, left).0 && r == f64_operand(s, right).0 && a
        == address
}

/// Floating-point arithmetic is handed out with its own operation (`add`
/// as addition, and so on) and the values of its operands; a
/// floating-point jump is handed out with its comparison. `JumpEqualF64`
/// asks whether the values differ, as the instruction set's own machine
/// does.
pub proof fn lemma_float_work_handed_out(s: VmState)
    requires
        0 <= s.program_counter < s.program.len(),
    ensures
        match s.program[s.program_counter] {
            Instruction::AddF64 { destination, left, right } => step_spec(s).1 == StepEnd::Continue(
                StepOutcome::FloatArithmetic {
                    destination,
                    operation: FloatOperation::Add,
                    left: f64_operand(s, left).0,
                    right: f64_operand(s, right).0,
                },
            ),
            Instruction::SubF64 { destination, left, right } => step_spec(s).1 == StepEnd::Continue(
                StepOutcome::FloatArithmetic {
                    destination,
                    operation: FloatOperation::Subtract,
                    left: f64_operand(s, left).0,
                    right: f64_operand(s, right).0,
                },
            ),
            Instruction::MulF64 { destination, left, right } => step_spec(s).1 == StepEnd::Continue(
                StepOutcome::FloatArithmetic {
                    destination,
                    operation: FloatOperation::Multiply,
                    left: f64_operand(s, left).0,
                    right: f64_operand(s, right).0,
                },
            ),
            Instruction::DivF64 { destination, left, right } => step_spec(s).1 == StepEnd::Continue(
                StepOutcome::FloatArithmetic {
                    destination,
                    operation: FloatOperation::Divide,
                    left: f64_operand(s, left).0,
                    right: f64_operand(s, right).0,
                },
            ),
            Instruction::JumpEqualF64 { address, left, right } => hands_out_comparison(
                s,
                address,
                left,
                right,
                FloatComparison::NotEqual,
            ),
            Instruction::JumpNotEqualF64 { address, left, right } => hands_out_comparison(
                s,
                address,
                left,
                right,
                FloatComparison::NotEqual,
            ),
            Instruction::JumpLessThanF64 { address, left, right } => hands_out_comparison(
                s,
                address,
                left,
                right,
                FloatComparison::LessThan,
            ),
            Instruction::JumpLessThanOrEqualToF64 { address, left, right } => hands_out_comparison(
                s,
                address,
                left,
                right,
                FloatComparison::LessThanOrEqualTo,
            ),
            Instruction::JumpGreaterThanF64 { address, left, right } => hands_out_comparison(
                s,
                address,
                left,
                right,
                FloatComparison::GreaterThan,
            ),
            Instruction::JumpGreaterThanOrEqualToF64 { address, left, right } => hands_out_comparison(
                s,
                address,
                left,
                right,
                FloatComparison::GreaterThanOrEqualTo,
            ),
            _ => true,
        },
{
}

/// A floating-point jump, once its comparison is answered, is taken
/// exactly when the answer is yes: to the address (when it fits), else on
/// to the next instruction.
pub proof fn lemma_completed_jump(s: VmState, taken: bool, address: SourceU64, cost: int)
    ensures
        !taken ==> conditional_jump(s, taken, address, cost).0.program_counter == s.program_counter,
        taken && u64_operand(s, address).0 <= usize::MAX ==> conditional_jump(
            s,
            taken,
            address,
            cost,
        ).0.program_counter == u64_operand(s, address).0,
        taken && u64_operand(s, address).0 > usize::MAX ==> conditional_jump(
            s,
            taken,
            address,
            cost,
        ).1 is AddressTooLarge,
{
}

/// A name that is both a readable and a writable register names one
/// register: what is written through it is read back through it, for
/// integer and floating-point registers alike.
pub proof fn lemma_register_names_agree(s: VmState, n: Seq<char>, v: u64, b: FloatBits)
    requires
        well_formed(s),
    ensures
        forall|r: ReadableRegisterU64, w: WritableRegisterU64|
            readable_register_u64_named(n) == Some(r) && writable_register_u64_named(n) == Some(w)
                ==> #[trigger] u64_operand(
                with_u64(s, DestinationU64::Register(w), v),
                SourceU64::Register(r),
            ).0 == v,
        forall|r: ReadableRegisterF64, w: WritableRegisterF64|
            readable_register_f64_named(n) == Some(r) && writable_register_f64_named(n) == Some(w)
                ==> #[trigger] f64_register(with_f64(s, DestinationF64::Register(w), b), r)
                == FloatOperand::Value(b),
{
    reveal_strlit("r0");
    reveal_strlit("r1");
    reveal_strlit("r2");
    reveal_strlit("r3");
    reveal_strlit("r4");
    reveal_strlit("r5");
    reveal_strlit("r6");
    reveal_strlit("r7");
    assert("r0"@[1] != "r1"@[1]);
    assert("r0"@[1] != "r2"@[1]);
    assert("r0"@[1] != "r3"@[1]);
    assert("r0"@[1] != "r4"@[1]);
    assert("r0"@[1] != "r5"@[1]);
    assert("r0"@[1] != "r6"@[1]);
    assert("r0"@[1] != "r7"@[1]);
    assert("r1"@[1] != "r2"@[1]);
    assert("r1"@[1] != "r3"@[1]);
    assert("r1"@[1] != "r4"@[1]);
    assert("r1"@[1] != "r5"@[1]);
    assert("r1"@[1] != "r6"@[1]);
    assert("r1"@[1] != "r7"@[1]);
    assert("r2"@[1] != "r3"@[1]);
    assert("r2"@[1] != "r4"@[1]);
    assert("r2"@[1] != "r5"@[1]);
    assert("r2"@[1] != "r6"@[1]);
    assert("r2"@[1] != "r7"@[1]);
    assert("r3"@[1] != "r4"@[1]);
    assert("r3"@[1] != "r5"@[1]);
    assert("r3"@[1] != "r6"@[1]);
    assert("r3"@[1] != "r7"@[1]);
    assert("r4"@[1] != "r5"@[1]);
    assert("r4"@[1] != "r6"@[1]);
    assert("r4"@[1] != "r7"@[1]);
    assert("r5"@[1] != "r6"@[1]);
    assert("r5"@[1] != "r7"@[1]);
    assert("r6"@[1] != "r7"@[1]);
    reveal_strlit("position_x");
    reveal_strlit("position_y");
    reveal_strlit("velocity_x");
    reveal_strlit("velocity_y");
    reveal_strlit("turret_angle");
    reveal_strlit("turret_angular_velocity");
    reveal_strlit("scanner_distance");
    reveal_strlit("health");
    reveal_strlit("energy");
    reveal_strlit("f0");
    reveal_strlit("f1");
    reveal_strlit("f2");
    reveal_strlit("f3");
    reveal_strlit("f4");
    reveal_strlit("f5");
    reveal_strlit("f6");
    reveal_strlit("f7");
    assert("position_x"@[9] != "position_y"@[9]);
    assert("position_x"@[0] != "velocity_x"@[0]);
    assert("position_x"@[0] != "velocity_y"@[0]);
    assert("position_x"@.len() != "turret_angle"@.len());
    assert("position_x"@.len() != "turret_angular_velocity"@.len());
    assert("position_x"@.len() != "scanner_distance"@.len());
    assert("position_x"@.len() != "health"@.len());
    assert("position_x"@.len() != "energy"@.len());
    assert("position_x"@.len() != "f0"@.len());
    assert("position_x"@.len() != "f1"@.len());
    assert("position_x"@.len() != "f2"@.len());
    assert("position_x"@.len() != "f3"@.len());
    assert("position_x"@.len() != "f4"@.len());
    assert("position_x"@.len() != "f5"@.len());
    assert("position_x"@.len() != "f6"@.len());
    assert("position_x"@.len() != "f7"@.len());
    assert("position_y"@[0] != "velocity_x"@[0]);
    assert("position_y"@[0] != "velocity_y"@[0]);
    assert("position_y"@.len() != "turret_angle"@.len());
    assert("position_y"@.len() != "turret_angular_velocity"@.len());
    assert("position_y"@.len() != "scanner_distance"@.len());
    assert("position_y"@.len() != "health"@.len());
    assert("position_y"@.len() != "energy"@.len());
    assert("position_y"@.len() != "f0"@.len());
    assert("position_y"@.len() != "f1"@.len());
    assert("position_y"@.len() != "f2"@.len());
    assert("position_y"@.len() != "f3"@.len());
    assert("position_y"@.len() != "f4"@.len());
    assert("position_y"@.len() != "f5"@.len());
    assert("position_y"@.len() != "f6"@.len());
    assert("position_y"@.len() != "f7"@.len());
    assert("velocity_x"@[9] != "velocity_y"@[9]);
    assert("velocity_x"@.len() != "turret_angle"@.len());
    assert("velocity_x"@.len() != "turret_angular_velocity"@.len());
    assert("velocity_x"@.len() != "scanner_distance"@.len());
    assert("velocity_x"@.len() != "health"@.len());
    assert("velocity_x"@.len() != "energy"@.len());
    assert("velocity_x"@.len() != "f0"@.len());
    assert("velocity_x"@.len() != "f1"@.len());
    assert("velocity_x"@.len() != "f2"@.len());
    assert("velocity_x"@.len() != "f3"@.len());
    assert("velocity_x"@.len() != "f4"@.len());
    assert("velocity_x"@.len() != "f5"@.len());
    assert("velocity_x"@.len() != "f6"@.len());
    assert("velocity_x"@.len() != "f7"@.len());
    assert("velocity_y"@.len() != "turret_angle"@.len());
    assert("velocity_y"@.len() != "turret_angular_velocity"@.len());
    assert("velocity_y"@.len() != "scanner_distance"@.len());
    assert("velocity_y"@.len() != "health"@.len());
    assert("velocity_y"@.len() != "energy"@.len());
    assert("velocity_y"@.len() != "f0"@.len());
    assert("velocity_y"@.len() != "f1"@.len());
    assert("velocity_y"@.len() != "f2"@.len());
    assert("velocity_y"@.len() != "f3"@.len());
    assert("velocity_y"@.len() != "f4"@.len());
    assert("velocity_y"@.len() != "f5"@.len());
    assert("velocity_y"@.len() != "f6"@.len());
    assert("velocity_y"@.len() != "f7"@.len());
    assert("turret_angle"@.len() != "turret_angular_velocity"@.len());
    assert("turret_angle"@.len() != "scanner_distance"@.len());
    assert("turret_angle"@.len() != "health"@.len());
    assert("turret_angle"@.len() != "energy"@.len());
    assert("turret_angle"@.len() != "f0"@.len());
    assert("turret_angle"@.len() != "f1"@.len());
    assert("turret_angle"@.len() != "f2"@.len());
    assert("turret_angle"@.len() != "f3"@.len());
    assert("turret_angle"@.len() != "f4"@.len());
    assert("turret_angle"@.len() != "f5"@.len());
    assert("turret_angle"@.len() != "f6"@.len());
    assert("turret_angle"@.len() != "f7"@.len());
    assert("turret_angular_velocity"@.len() != "scanner_distance"@.len());
    assert("turret_angular_velocity"@.len() != "health"@.len());
    assert("turret_angular_velocity"@.len() != "energy"@.len());
    assert("turret_angular_velocity"@.len() != "f0"@.len());
    assert("turret_angular_velocity"@.len() != "f1"@.len());
    assert("turret_angular_velocity"@.len() != "f2"@.len());
    assert("turret_angular_velocity"@.len() != "f3"@.len());
    assert("turret_angular_velocity"@.len() != "f4"@.len());
    assert("turret_angular_velocity"@.len() != "f5"@.len());
    assert("turret_angular_velocity"@.len() != "f6"@.len());
    assert("turret_angular_velocity"@.len() != "f7"@.len());
    assert("scanner_distance"@.len() != "health"@.len());
    assert("scanner_distance"@.len() != "energy"@.len());
    assert("scanner_distance"@.len() != "f0"@.len());
    assert("scanner_distance"@.len() != "f1"@.len());
    assert("scanner_distance"@.len() != "f2"@.len());
    assert("scanner_distance"@.len() != "f3"@.len());
    assert("scanner_distance"@.len() != "f4"@.len());
    assert("scanner_distance"@.len() != "f5"@.len());
    assert("scanner_distance"@.len() != "f6"@.len());
    assert("scanner_distance"@.len() != "f7"@.len());
    assert("health"@[0] != "energy"@[0]);
    assert("health"@.len() != "f0"@.len());
    assert("health"@.len() != "f1"@.len());
    assert("health"@.len() != "f2"@.len());
    assert("health"@.len() != "f3"@.len());
    assert("health"@.len() != "f4"@.len());
    assert("health"@.len() != "f5"@.len());
    assert("health"@.len() != "f6"@.len());
    assert("health"@.len() != "f7"@.len());
    assert("energy"@.len() != "f0"@.len());
    assert("energy"@.len() != "f1"@.len());
    assert("energy"@.len() != "f2"@.len());
    assert("energy"@.len() != "f3"@.len());
    assert("energy"@.len() != "f4"@.len());
    assert("energy"@.len() != "f5"@.len());
    assert("energy"@.len() != "f6"@.len());
    assert("energy"@.len() != "f7"@.len());
    assert("f0"@[1] != "f1"@[1]);
    assert("f0"@[1] != "f2"@[1]);
    assert("f0"@[1] != "f3"@[1]);
    assert("f0"@[1] != "f4"@[1]);
    assert("f0"@[1] != "f5"@[1]);
    assert("f0"@[1] != "f6"@[1]);
    assert("f0"@[1] != "f7"@[1]);
    assert("f1"@[1] != "f2"@[1]);
    assert("f1"@[1] != "f3"@[1]);
    assert("f1"@[1] != "f4"@[1]);
    assert("f1"@[1] != "f5"@[1]);
    assert("f1"@[1] != "f6"@[1]);
    assert("f1"@[1] != "f7"@[1]);
    assert("f2"@[1] != "f3"@[1]);
    assert("f2"@[1] != "f4"@[1]);
    assert("f2"@[1] != "f5"@[1]);
    assert("f2"@[1] != "f6"@[1]);
    assert("f2"@[1] != "f7"@[1]);
    assert("f3"@[1] != "f4"@[1]);
    assert("f3"@[1] != "f5"@[1]);
    assert("f3"@[1] != "f6"@[1]);
    assert("f3"@[1] != "f7"@[1]);
    assert("f4"@[1] != "f5"@[1]);
    assert("f4"@[1] != "f6"@[1]);
    assert("f4"@[1] != "f7"@[1]);
    assert("f5"@[1] != "f6"@[1]);
    assert("f5"@[1] != "f7"@[1]);
    assert("f6"@[1] != "f7"@[1]);
}

/// The integer registers are `r0` to `r7`, in that order in the bank.
pub proof fn lemma_integer_register_numbers(d: char)
    ensures
        readable_register_u64_named(seq!['r', d]) matches Some(r) ==> r.index() == d as int - '0' as int,
        writable_register_u64_named(seq!['r', d]) matches Some(w) ==> w.index() == d as int - '0' as int,
        '0' <= d <= '7' ==> readable_register_u64_named(seq!['r', d]) is Some
            && writable_register_u64_named(seq!['r', d]) is Some,
{
    reveal_strlit("r0");
    reveal_strlit("r1");
    reveal_strlit("r2");
    reveal_strlit("r3");
    reveal_strlit("r4");
    reveal_strlit("r5");
    reveal_strlit("r6");
    reveal_strlit("r7");
    assert(seq!['r', d] =~= seq!['r', d]);
    assert("r0"@ =~= seq!['r', '0']);
    assert("r1"@ =~= seq!['r', '1']);
    assert("r2"@ =~= seq!['r', '2']);
    assert("r3"@ =~= seq!['r', '3']);
    assert("r4"@ =~= seq!['r', '4']);
    assert("r5"@ =~= seq!['r', '5']);
    assert("r6"@ =~= seq!['r', '6']);
    assert("r7"@ =~= seq!['r', '7']);
}

/// A floating-point register written by the machine's owner (the
/// velocities and turret speed) or by a program (`f0` to `f7`) is read back
/// by its name; a register of the world (position, angle, scanner, health,
/// energy) is read from the world's state.
pub proof fn lemma_float_register_sources(s: VmState)
    ensures
        f64_register(s, ReadableRegisterF64::PositionX) == FloatOperand::Value(s.position.x),
        f64_register(s, ReadableRegisterF64::PositionY) == FloatOperand::Value(s.position.y),
        f64_register(s, ReadableRegisterF64::VelocityX) == FloatOperand::Value(s.velocity.x),
        f64_register(s, ReadableRegisterF64::VelocityY) == FloatOperand::Value(s.velocity.y),
        f64_register(s, ReadableRegisterF64::TurretAngle) == FloatOperand::Value(s.turret_angle),
        f64_register(s, ReadableRegisterF64::TurretAngularVelocity) == FloatOperand::Value(
            s.turret_angular_velocity,
        ),
        f64_register(s, ReadableRegisterF64::ScannerDistance) == FloatOperand::ScannerDistance,
        f64_register(s, ReadableRegisterF64::Health) == FloatOperand::Value(s.health),
        f64_register(s, ReadableRegisterF64::Energy) == FloatOperand::Value(s.energy),
{
}

/// The clock ticks an integer operand costs: 2 for a register, 1 for a
/// literal.
pub open spec fn ticks_u64(o: SourceU64) -> int {
    if o is Register {
        2
    } else {
        1
    }
}

/// The clock ticks a floating-point operand costs: 4 for a register, 2 for
/// a literal.
pub open spec fn ticks_f64(o: SourceF64) -> int {
    if o is Register {
        4
    } else {
        2
    }
}

/// What a step costs: each operand its ticks, and a jump that is taken its
/// address's ticks too; a floating-point jump pays nothing until it is
/// completed.
pub proof fn lemma_step_clock(s: VmState)
    requires
        0 <= s.program_counter < s.program.len(),
    ensures
        match s.program[s.program_counter] {
            Instruction::AddU64 { left, right, .. }
            | Instruction::SubU64 { left, right, .. }
            | Instruction::MulU64 { left, right, .. }
            | Instruction::DivU64 { left, right, .. } => step_spec(s).0.clock == s.clock
                + ticks_u64(left) + ticks_u64(right),
            Instruction::AddF64 { left, right, .. }
            | Instruction::SubF64 { left, right, .. }
            | Instruction::MulF64 { left, right, .. }
            | Instruction::DivF64 { left, right, .. } => step_spec(s).0.clock == s.clock
                + ticks_f64(left) + ticks_f64(right),
            Instruction::ShiftLeft { source, .. } | Instruction::ShiftRight { source, .. } => step_spec(s).0.clock
                == s.clock + ticks_u64(source),
            Instruction::Jump { address } => step_spec(s).1 is Continue ==> step_spec(s).0.clock == s.clock
                + ticks_u64(address),
            Instruction::JumpEqualU64 { address, left, right } => step_spec(s).1 is Continue
                ==> step_spec(s).0.clock == s.clock + ticks_u64(left) + ticks_u64(right) + if u64_operand(
                s,
                left,
            ).0 == u64_operand(s, right).0 {
                ticks_u64(address)
            } else {
                0
            },
            Instruction::JumpNotEqualU64 { address, left, right } => step_spec(s).1 is Continue
                ==> step_spec(s).0.clock == s.clock + ticks_u64(left) + ticks_u64(right) + if u64_operand(
                s,
                left,
            ).0 != u64_operand(s, right).0 {
                ticks_u64(address)
            } else {
                0
            },
            Instruction::JumpLessThanU64 { address, left, right } => step_spec(s).1 is Continue
                ==> step_spec(s).0.clock == s.clock + ticks_u64(left) + ticks_u64(right) + if u64_operand(
                s,
                left,
            ).0 < u64_operand(s, right).0 {
                ticks_u64(address)
            } else {
                0
            },
            Instruction::JumpLessThanOrEqualToU64 { address, left, right } => step_spec(s).1 is Continue
                ==> step_spec(s).0.clock == s.clock + ticks_u64(left) + ticks_u64(right) + if u64_operand(
                s,
                left,
            ).0 <= u64_operand(s, right).0 {
                ticks_u64(address)
            } else {
                0
            },
            Instruction::JumpGreaterThanU64 { address, left, right } => step_spec(s).1 is Continue
                ==> step_spec(s).0.clock == s.clock + ticks_u64(left) + ticks_u64(right) + if u64_operand(
                s,
                left,
            ).0 > u64_operand(s, right).0 {
                ticks_u64(address)
            } else {
                0
            },
            Instruction::JumpGreaterThanOrEqualToU64 { address, left, right } => step_spec(s).1 is Continue
                ==> step_spec(s).0.clock == s.clock + ticks_u64(left) + ticks_u64(right) + if u64_operand(
                s,
                left,
            ).0 >= u64_operand(s, right).0 {
                ticks_u64(address)
            } else {
                0
            },
            Instruction::JumpEqualF64 { .. }
            | Instruction::JumpNotEqualF64 { .. }
            | Instruction::JumpLessThanF64 { .. }
            | Instruction::JumpLessThanOrEqualToF64 { .. }
            | Instruction::JumpGreaterThanF64 { .. }
            | Instruction::JumpGreaterThanOrEqualToF64 { .. } => step_spec(s).0.clock == s.clock,
            _ => true,
        },
{
}

/// Completing a floating-point jump pays its operands' cost, and the
/// address's ticks when the jump is taken.
pub proof fn lemma_completed_jump_clock(s: VmState, taken: bool, address: SourceU64, cost: int)
    ensures
        conditional_jump(s, taken, address, cost).1 is Continue ==> conditional_jump(
            s,
            taken,
            address,
            cost,
        ).0.clock == s.clock + cost + if taken {
            ticks_u64(address)
        } else {
            0
        },
{
}

/// A step panics where Rust's integer arithmetic does: an addition or
/// multiplication past `u64::MAX`, a subtraction below zero, a division by
/// zero; and where the clock would pass `u64::MAX`.
pub proof fn lemma_step_panics_where_arithmetic_does(s: VmState)
    requires
        0 <= s.program_counter < s.program.len(),
    ensures
        match s.program[s.program_counter] {
            Instruction::AddU64 { left, right, .. } => u64_operand(s, left).0 + u64_operand(s, right).0
                > u64::MAX ==> step_panics(s),
            Instruction::SubU64 { left, right, .. } => u64_operand(s, left).0 < u64_operand(s, right).0
                ==> step_panics(s),
            Instruction::MulU64 { left, right, .. } => u64_operand(s, left).0 * u64_operand(s, right).0
                > u64::MAX ==> step_panics(s),
            Instruction::DivU64 { left, right, .. } => u64_operand(s, right).0 == 0 ==> step_panics(s),
            _ => true,
        },
        step_spec(s).0.clock > u64::MAX ==> step_panics(s),
{
}

/// Away from the clock's limit, only the four integer operations can
/// panic; every other instruction runs.
#[verifier::rlimit(40)]
pub proof fn lemma_only_arithmetic_panics(s: VmState)
    requires
        0 <= s.program_counter < s.program.len(),
        0 <= s.clock,
        s.clock + 16 <= u64::MAX,
    ensures
        !(s.program[s.program_counter] is AddU64 || s.program[s.program_counter] is SubU64
            || s.program[s.program_counter] is MulU64 || s.program[s.program_counter] is DivU64)
            ==> !step_panics(s),
{
    lemma_step_clock(s);
    lemma_step_clock_monotonic(s);
    assert(step_spec(s).0.clock <= s.clock + 12) by {
        lemma_step_clock(s);
    }
}

/// The floating-point registers `f0` to `f7` are the bank's eight, in
/// that order, for reading and writing alike.
pub proof fn lemma_float_register_numbers(d: char)
    ensures
        readable_register_f64_named(seq!['f', d]) matches Some(r) ==> readable_f64_bank_index(r)
            == Some(d as int - '0' as int),
        writable_register_f64_named(seq!['f', d]) matches Some(w) ==> writable_f64_bank_index(w)
            == Some(d as int - '0' as int),
        '0' <= d <= '7' ==> readable_register_f64_named(seq!['f', d]) is Some
            && writable_register_f64_named(seq!['f', d]) is Some,
{
    reveal_strlit("position_x");
    reveal_strlit("position_y");
    reveal_strlit("velocity_x");
    reveal_strlit("velocity_y");
    reveal_strlit("turret_angle");
    reveal_strlit("turret_angular_velocity");
    reveal_strlit("scanner_distance");
    reveal_strlit("health");
    reveal_strlit("energy");
    reveal_strlit("f0");
    reveal_strlit("f1");
    reveal_strlit("f2");
    reveal_strlit("f3");
    reveal_strlit("f4");
    reveal_strlit("f5");
    reveal_strlit("f6");
    reveal_strlit("f7");
    assert("position_x"@.len() != 2);
    assert("position_y"@.len() != 2);
    assert("velocity_x"@.len() != 2);
    assert("velocity_y"@.len() != 2);
    assert("turret_angle"@.len() != 2);
    assert("turret_angular_velocity"@.len() != 2);
    assert("scanner_distance"@.len() != 2);
    assert("health"@.len() != 2);
    assert("energy"@.len() != 2);
    assert("f0"@ =~= seq!['f', '0']);
    assert("f1"@ =~= seq!['f', '1']);
    assert("f2"@ =~= seq!['f', '2']);
    assert("f3"@ =~= seq!['f', '3']);
    assert("f4"@ =~= seq!['f', '4']);
    assert("f5"@ =~= seq!['f', '5']);
    assert("f6"@ =~= seq!['f', '6']);
    assert("f7"@ =~= seq!['f', '7']);
}

/// A new machine starts with health and energy at the double nearest to
/// 100 (which is 100 exactly).
pub proof fn lemma_starts_at_one_hundred()
    ensures
        one_hundred() == FloatBits(crate::conversion::nat_to_f64_bits(100) as u64),
{
    reveal_with_fuel(crate::conversion::bit_length, 8);
    vstd::arithmetic::power2::lemma2_to64();
    vstd::arithmetic::power2::lemma2_to64_rest();
    assert(crate::conversion::bit_length(100) == 7);
    assert(crate::conversion::nat_to_f64_bits(100) == 1029 * 0x10_0000_0000_0000int + (100
        * 0x4000_0000_0000int - 0x10_0000_0000_0000int));
}

} // verus!
