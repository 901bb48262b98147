//! An early machine with 32-bit registers. Only `Nop` is carried out so
//! far: any other instruction is not implemented yet, and a step on one is
//! outside the contract. Floating-point values are held by their bits.

use vstd::prelude::*;

use crate::strings::{concat2, decimal, decimal_u64};

verus! {

/// The number of integer registers.
pub const NUM_REGISTERS_I32: usize = 8;

/// The number of floating-point registers.
pub const NUM_REGISTERS_F32: usize = 8;

/// An `f32` value by its bit pattern.
#[derive(Debug, Clone, Copy, PartialEq, Eq)]
pub struct F32Bits(pub u32);

/// The message for a register index out of range.
pub open spec fn index_error(value: usize) -> Seq<char> {
    "register index out of range: "@ + decimal(value as nat)
}

/// An error message naming an index that is out of range.
fn out_of_range(value: usize) -> (r: String)
    ensures
        r@ == index_error(value),
{
    let digits = decimal_u64(value as u64);
    concat2("register index out of range: ", digits.as_str())
}

/// The index of an integer register.
#[derive(Debug, Clone, Copy, PartialEq, Eq)]
pub struct RegisterIndexI32(pub usize);

impl RegisterIndexI32 {
    /// The register at `value`, or an error naming `value` when there is no
    /// such register.
    pub fn try_from(value: usize) -> (r: Result<Self, String>)
        ensures
            match r {
                Ok(i) => value < NUM_REGISTERS_I32 && i.0 == value,
                Err(e) => value >= NUM_REGISTERS_I32 && e@ == index_error(value),
            },
    {
        if value < NUM_REGISTERS_I32 {
            Ok(Self(value))
        } else {
            Err(out_of_range(value))
        }
    }
}

/// The index of a floating-point register.
#[derive(Debug, Clone, Copy, PartialEq, Eq)]
pub struct RegisterIndexF32(pub usize);

impl RegisterIndexF32 {
    /// The register at `value`, or an error naming `value` when there is no
    /// such register.
    pub fn try_from(value: usize) -> (r: Result<Self, String>)
        ensures
            match r {
                Ok(i) => value < NUM_REGISTERS_F32 && i.0 == value,
                Err(e) => value >= NUM_REGISTERS_F32 && e@ == index_error(value),
            },
    {
        if value < NUM_REGISTERS_F32 {
            Ok(Self(value))
        } else {
            Err(out_of_range(value))
        }
    }
}

/// An integer register that instructions read.
#[derive(Debug, Clone, Copy, PartialEq, Eq)]
pub enum ReadRegisterI32 {
    GeneralPurpose(RegisterIndexI32),
}

/// An integer register that instructions write.
#[derive(Debug, Clone, Copy, PartialEq, Eq)]
pub enum WriteRegisterI32 {
    GeneralPurpose(RegisterIndexI32),
}

/// A floating-point register that instructions read.
#[derive(Debug, Clone, Copy, PartialEq, Eq)]
pub enum ReadRegisterF32 {
    GeneralPurpose(RegisterIndexF32),
    LocationX,
    LocationY,
    TurretAngle,
    Health,
}

/// A floating-point register that instructions write.
#[derive(Debug, Clone, Copy, PartialEq, Eq)]
pub enum WriteRegisterF32 {
    GeneralPurpose(RegisterIndexF32),
    VelocityX,
    VelocityY,
    TurretAngle,
    DistanceToObstacle,
}

/// An instruction of the machine.
#[allow(inconsistent_fields)]
#[derive(Debug, Clone, Copy, PartialEq, Eq)]
pub enum Instruction {
    Nop,
    AddRegisterI32 { left: ReadRegisterI32, right: ReadRegisterI32, destination: WriteRegisterI32 },
    AddImmediateI32 { left: ReadRegisterI32, right: i32, destination: WriteRegisterI32 },
    SubtractRegisterI32 {
        left: ReadRegisterI32,
        right: ReadRegisterI32,
        destination: WriteRegisterI32,
    },
    SubtractImmediateI32 { left: ReadRegisterI32, right: i32, destination: WriteRegisterI32 },
    MultiplyRegisterI32 {
        left: ReadRegisterI32,
        right: ReadRegisterI32,
        destination: WriteRegisterI32,
    },
    MultiplyImmediateI32 { left: ReadRegisterI32, right: i32, destination: WriteRegisterI32 },
    DivideRegisterI32 {
        left: ReadRegisterI32,
        right: ReadRegisterI32,
        destination: WriteRegisterI32,
    },
    DivideImmediateI32 { left: ReadRegisterI32, right: i32, destination: WriteRegisterI32 },
    AddRegisterF32 { left: ReadRegisterF32, right: ReadRegisterF32, destination: WriteRegisterF32 },
    AddImmediateF32 { left: ReadRegisterF32, right: F32Bits, destination: WriteRegisterF32 },
    SubtractRegisterF32 {
        left: ReadRegisterF32,
        right: ReadRegisterF32,
        destination: WriteRegisterF32,
    },
    SubtractImmediateF32 { left: ReadRegisterF32, right: F32Bits, destination: WriteRegisterF32 },
    MultiplyRegisterF32 {
        left: ReadRegisterF32,
        right: ReadRegisterF32,
        destination: WriteRegisterF32,
    },
    MultiplyImmediateF32 { left: ReadRegisterF32, right: F32Bits, destination: WriteRegisterF32 },
    DivideRegisterF32 {
        left: ReadRegisterF32,
        right: ReadRegisterF32,
        destination: WriteRegisterF32,
    },
    DivideImmediateF32 { left: ReadRegisterF32, right: F32Bits, destination: WriteRegisterF32 },
}

/// Why no instruction could be fetched.
enum NextInstructionError {
    Halt,
}

/// The state of an emulator, as mathematical values.
pub struct EmulatorState {
    pub program: Seq<Instruction>,
    pub program_pointer: int,
    pub registers_i32: Seq<i32>,
    pub registers_f32: Seq<F32Bits>,
    pub position_x: F32Bits,
    pub position_y: F32Bits,
    pub velocity_x: F32Bits,
    pub velocity_y: F32Bits,
    pub turret_angle: F32Bits,
    pub health: F32Bits,
    pub clock: int,
    pub halted: bool,
}

/// One step: past the end of the program the machine halts; on `Nop` the
/// clock moves on by one. The program pointer stays where it is.
pub open spec fn emulator_step_spec(s: EmulatorState) -> EmulatorState {
    if s.program_pointer >= s.program.len() {
        EmulatorState { halted: true, ..s }
    } else {
        EmulatorState { clock: s.clock + 1, ..s }
    }
}

/// A step that stays within the contract: the instruction at the program
/// pointer, if any, is `Nop`, and the clock can move on.
pub open spec fn emulator_step_defined(s: EmulatorState) -> bool {
    s.program_pointer < s.program.len() ==> s.program[s.program_pointer] is Nop && s.clock
        < u64::MAX
}

/// An emulator running one program.
pub struct Emulator {
    program: Vec<Instruction>,
    program_pointer: usize,
    registers_i32: [i32; 8],
    registers_f32: [F32Bits; 8],
    position_x: F32Bits,
    position_y: F32Bits,
    velocity_x: F32Bits,
    velocity_y: F32Bits,
    turret_angle: F32Bits,
    health: F32Bits,
    clock: u64,
    halted: bool,
}

impl View for Emulator {
    type V = EmulatorState;

    closed spec fn view(&self) -> EmulatorState {
        EmulatorState {
            program: self.program@,
            program_pointer: self.program_pointer as int,
            registers_i32: self.registers_i32@,
            registers_f32: self.registers_f32@,
            position_x: self.position_x,
            position_y: self.position_y,
            velocity_x: self.velocity_x,
            velocity_y: self.velocity_y,
            turret_angle: self.turret_angle,
            health: self.health,
            clock: self.clock as int,
            halted: self.halted,
        }
    }
}

impl Emulator {
    /// An emulator at the start of `program`, with every register and
    /// physical value 0 and a zero clock, not halted.
    pub fn new(program: Vec<Instruction>) -> (r: Self)
        ensures
            r@ == (EmulatorState {
                program: program@,
                program_pointer: 0,
                registers_i32: Seq::new(8, |i: int| 0i32),
                registers_f32: Seq::new(8, |i: int| F32Bits(0)),
                position_x: F32Bits(0),
                position_y: F32Bits(0),
                velocity_x: F32Bits(0),
                velocity_y: F32Bits(0),
                turret_angle: F32Bits(0),
                health: F32Bits(0),
                clock: 0,
                halted: false,
            }),
    {
        let z = F32Bits(0);
        let r = Self {
            program,
            program_pointer: 0,
            registers_i32: [0, 0, 0, 0, 0, 0, 0, 0],
            registers_f32: [z, z, z, z, z, z, z, z],
            position_x: z,
            position_y: z,
            velocity_x: z,
            velocity_y: z,
            turret_angle: z,
            health: z,
            clock: 0,
            halted: false,
        };
        assert(r.registers_i32@ =~= Seq::new(8, |i: int| 0i32));
        assert(r.registers_f32@ =~= Seq::new(8, |i: int| F32Bits(0)));
        r
    }

    /// Whether the machine has run past the end of its program.
    pub fn is_halted(&self) -> (r: bool)
        ensures
            r == self@.halted,
    {
        self.halted
    }

    /// The clock ticks spent so far.
    pub fn clock(&self) -> (r: u64)
        ensures
            r == self@.clock,
    {
        self.clock
    }

    /// Carries out one step (see `emulator_step_spec`).
    pub fn step(&mut self)
        requires
            emulator_step_defined(old(self)@),
        ensures
            final(self)@ == emulator_step_spec(old(self)@),
    {
        match self.get_next_instruction() {
            Ok(instruction) => match instruction {
                Instruction::Nop => {
                    self.clock = self.clock + 1;
                },
                _ => {},
            },
            Err(NextInstructionError::Halt) => {
                self.halted = true;
            },
        }
    }

    /// The instruction at the program pointer, or `Halt` past the end.
    fn get_next_instruction(&self) -> (r: Result<Instruction, NextInstructionError>)
        ensures
            match r {
                Ok(i) => self@.program_pointer < self@.program.len() && i
                    == self@.program[self@.program_pointer],
                Err(_) => self@.program_pointer >= self@.program.len(),
            },
    {
        if self.program_pointer < self.program.len() {
            Ok(self.program[self.program_pointer])
        } else {
            Err(NextInstructionError::Halt)
        }
    }
}

/// A step never moves the program pointer, never changes the program, the
/// registers or the physical values, and never turns the clock back.
pub proof fn lemma_emulator_step_frame(s: EmulatorState)
    ensures
        emulator_step_spec(s).program == s.program,
        emulator_step_spec(s).program_pointer == s.program_pointer,
        emulator_step_spec(s).registers_i32 == s.registers_i32,
        emulator_step_spec(s).registers_f32 == s.registers_f32,
        emulator_step_spec(s).health == s.health,
        emulator_step_spec(s).clock >= s.clock,
{
}

/// Once past the end of its program, the machine is halted and stays so,
/// and further steps change nothing.
pub proof fn lemma_emulator_halt_is_final(s: EmulatorState)
    requires
        s.program_pointer >= s.program.len(),
    ensures
        emulator_step_spec(s).halted,
        emulator_step_defined(emulator_step_spec(s)),
        emulator_step_spec(emulator_step_spec(s)) == emulator_step_spec(s),
{
}

} // verus!
