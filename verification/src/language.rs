//! The instruction language that robots run: registers, operands,
//! instructions, program pointers and programs.

use vstd::prelude::*;
use vstd::std_specs::convert::TryFromSpec;

use crate::strings::{concat2, lowercase_spec, str_eq, to_lowercase};

verus! {

/// The bit pattern of an IEEE 754 binary64 floating-point value. The library
/// stores, moves and compares such values by their bits; floating-point
/// arithmetic on them happens outside it.
#[derive(Debug, Clone, Copy, PartialEq, Eq)]
pub struct FloatBits(pub u64);

/// An integer register that instructions read.
#[derive(Debug, Clone, Copy, PartialEq, Eq)]
pub enum ReadableRegisterU64 {
    GeneralPurpose0,
    GeneralPurpose1,
    GeneralPurpose2,
    GeneralPurpose3,
    GeneralPurpose4,
    GeneralPurpose5,
    GeneralPurpose6,
    GeneralPurpose7,
}

/// The register of this kind named `n` (already lowercased), if any.
pub open spec fn readable_register_u64_named(n: Seq<char>) -> Option<ReadableRegisterU64> {
    if n == "r0"@ {
        Some(ReadableRegisterU64::GeneralPurpose0)
    } else if n == "r1"@ {
        Some(ReadableRegisterU64::GeneralPurpose1)
    } else if n == "r2"@ {
        Some(ReadableRegisterU64::GeneralPurpose2)
    } else if n == "r3"@ {
        Some(ReadableRegisterU64::GeneralPurpose3)
    } else if n == "r4"@ {
        Some(ReadableRegisterU64::GeneralPurpose4)
    } else if n == "r5"@ {
        Some(ReadableRegisterU64::GeneralPurpose5)
    } else if n == "r6"@ {
        Some(ReadableRegisterU64::GeneralPurpose6)
    } else if n == "r7"@ {
        Some(ReadableRegisterU64::GeneralPurpose7)
    } else {
        None
    }
}

impl ReadableRegisterU64 {
    /// The register named `value`, compared case-insensitively (by the
    /// lowercase form of `value`); an error naming `value` otherwise.
    pub fn try_from(value: &str) -> (r: Result<Self, String>)
        ensures
            match r {
                Ok(register) => readable_register_u64_named(lowercase_spec(value@)) == Some(register),
                Err(message) => readable_register_u64_named(lowercase_spec(value@)) is None
                    && message@ == "Invalid register: "@ + value@,
            },
    {
        let lower = to_lowercase(value);
        let l = lower.as_str();
        if str_eq(l, "r0") {
            Ok(ReadableRegisterU64::GeneralPurpose0)
        } else if str_eq(l, "r1") {
            Ok(ReadableRegisterU64::GeneralPurpose1)
        } else if str_eq(l, "r2") {
            Ok(ReadableRegisterU64::GeneralPurpose2)
        } else if str_eq(l, "r3") {
            Ok(ReadableRegisterU64::GeneralPurpose3)
        } else if str_eq(l, "r4") {
            Ok(ReadableRegisterU64::GeneralPurpose4)
        } else if str_eq(l, "r5") {
            Ok(ReadableRegisterU64::GeneralPurpose5)
        } else if str_eq(l, "r6") {
            Ok(ReadableRegisterU64::GeneralPurpose6)
        } else if str_eq(l, "r7") {
            Ok(ReadableRegisterU64::GeneralPurpose7)
        } else {
            Err(concat2("Invalid register: ", value))
        }
    }
}

/// An integer register that instructions write.
#[derive(Debug, Clone, Copy, PartialEq, Eq)]
pub enum WritableRegisterU64 {
    GeneralPurpose0,
    GeneralPurpose1,
    GeneralPurpose2,
    GeneralPurpose3,
    GeneralPurpose4,
    GeneralPurpose5,
    GeneralPurpose6,
    GeneralPurpose7,
}

/// The register of this kind named `n` (already lowercased), if any.
pub open spec fn writable_register_u64_named(n: Seq<char>) -> Option<WritableRegisterU64> {
    if n == "r0"@ {
        Some(WritableRegisterU64::GeneralPurpose0)
    } else if n == "r1"@ {
        Some(WritableRegisterU64::GeneralPurpose1)
    } else if n == "r2"@ {
        Some(WritableRegisterU64::GeneralPurpose2)
    } else if n == "r3"@ {
        Some(WritableRegisterU64::GeneralPurpose3)
    } else if n == "r4"@ {
        Some(WritableRegisterU64::GeneralPurpose4)
    } else if n == "r5"@ {
        Some(WritableRegisterU64::GeneralPurpose5)
    } else if n == "r6"@ {
        Some(WritableRegisterU64::GeneralPurpose6)
    } else if n == "r7"@ {
        Some(WritableRegisterU64::GeneralPurpose7)
    } else {
        None
    }
}

impl WritableRegisterU64 {
    /// The register named `value`, compared case-insensitively (by the
    /// lowercase form of `value`); an error naming `value` otherwise.
    pub fn try_from(value: &str) -> (r: Result<Self, String>)
        ensures
            match r {
                Ok(register) => writable_register_u64_named(lowercase_spec(value@)) == Some(register),
                Err(message) => writable_register_u64_named(lowercase_spec(value@)) is None
                    && message@ == "Invalid register: "@ + value@,
            },
    {
        let lower = to_lowercase(value);
        let l = lower.as_str();
        if str_eq(l, "r0") {
            Ok(WritableRegisterU64::GeneralPurpose0)
        } else if str_eq(l, "r1") {
            Ok(WritableRegisterU64::GeneralPurpose1)
        } else if str_eq(l, "r2") {
            Ok(WritableRegisterU64::GeneralPurpose2)
        } else if str_eq(l, "r3") {
            Ok(WritableRegisterU64::GeneralPurpose3)
        } else if str_eq(l, "r4") {
            Ok(WritableRegisterU64::GeneralPurpose4)
        } else if str_eq(l, "r5") {
            Ok(WritableRegisterU64::GeneralPurpose5)
        } else if str_eq(l, "r6") {
            Ok(WritableRegisterU64::GeneralPurpose6)
        } else if str_eq(l, "r7") {
            Ok(WritableRegisterU64::GeneralPurpose7)
        } else {
            Err(concat2("Invalid register: ", value))
        }
    }
}

/// A floating-point register that instructions read.
#[derive(Debug, Clone, Copy, PartialEq, Eq)]
pub enum ReadableRegisterF64 {
    PositionX,
    PositionY,
    VelocityX,
    VelocityY,
    TurretAngle,
    TurretAngularVelocity,
    ScannerDistance,
    Health,
    Energy,
    GeneralPurpose0,
    GeneralPurpose1,
    GeneralPurpose2,
    GeneralPurpose3,
    GeneralPurpose4,
    GeneralPurpose5,
    GeneralPurpose6,
    GeneralPurpose7,
}

/// The register of this kind named `n` (already lowercased), if any.
pub open spec fn readable_register_f64_named(n: Seq<char>) -> Option<ReadableRegisterF64> {
    if n == "position_x"@ {
        Some(ReadableRegisterF64::PositionX)
    } else if n == "position_y"@ {
        Some(ReadableRegisterF64::PositionY)
    } else if n == "velocity_x"@ {
        Some(ReadableRegisterF64::VelocityX)
    } else if n == "velocity_y"@ {
        Some(ReadableRegisterF64::VelocityY)
    } else if n == "turret_angle"@ {
        Some(ReadableRegisterF64::TurretAngle)
    } else if n == "turret_angular_velocity"@ {
        Some(ReadableRegisterF64::TurretAngularVelocity)
    } else if n == "scanner_distance"@ {
        Some(ReadableRegisterF64::ScannerDistance)
    } else if n == "health"@ {
        Some(ReadableRegisterF64::Health)
    } else if n == "energy"@ {
        Some(ReadableRegisterF64::Energy)
    } else if n == "f0"@ {
        Some(ReadableRegisterF64::GeneralPurpose0)
    } else if n == "f1"@ {
        Some(ReadableRegisterF64::GeneralPurpose1)
    } else if n == "f2"@ {
        Some(ReadableRegisterF64::GeneralPurpose2)
    } else if n == "f3"@ {
        Some(ReadableRegisterF64::GeneralPurpose3)
    } else if n == "f4"@ {
        Some(ReadableRegisterF64::GeneralPurpose4)
    } else if n == "f5"@ {
        Some(ReadableRegisterF64::GeneralPurpose5)
    } else if n == "f6"@ {
        Some(ReadableRegisterF64::GeneralPurpose6)
    } else if n == "f7"@ {
        Some(ReadableRegisterF64::GeneralPurpose7)
    } else {
        None
    }
}

impl ReadableRegisterF64 {
    /// The register named `value`, compared case-insensitively (by the
    /// lowercase form of `value`); an error naming `value` otherwise.
    pub fn try_from(value: &str) -> (r: Result<Self, String>)
        ensures
            match r {
                Ok(register) => readable_register_f64_named(lowercase_spec(value@)) == Some(register),
                Err(message) => readable_register_f64_named(lowercase_spec(value@)) is None
                    && message@ == "Invalid register: "@ + value@,
            },
    {
        let lower = to_lowercase(value);
        let l = lower.as_str();
        if str_eq(l, "position_x") {
            Ok(ReadableRegisterF64::PositionX)
        } else if str_eq(l, "position_y") {
            Ok(ReadableRegisterF64::PositionY)
        } else if str_eq(l, "velocity_x") {
            Ok(ReadableRegisterF64::VelocityX)
        } else if str_eq(l, "velocity_y") {
            Ok(ReadableRegisterF64::VelocityY)
        } else if str_eq(l, "turret_angle") {
            Ok(ReadableRegisterF64::TurretAngle)
        } else if str_eq(l, "turret_angular_velocity") {
            Ok(ReadableRegisterF64::TurretAngularVelocity)
        } else if str_eq(l, "scanner_distance") {
            Ok(ReadableRegisterF64::ScannerDistance)
        } else if str_eq(l, "health") {
            Ok(ReadableRegisterF64::Health)
        } else if str_eq(l, "energy") {
            Ok(ReadableRegisterF64::Energy)
        } else if str_eq(l, "f0") {
            Ok(ReadableRegisterF64::GeneralPurpose0)
        } else if str_eq(l, "f1") {
            Ok(ReadableRegisterF64::GeneralPurpose1)
        } else if str_eq(l, "f2") {
            Ok(ReadableRegisterF64::GeneralPurpose2)
        } else if str_eq(l, "f3") {
            Ok(ReadableRegisterF64::GeneralPurpose3)
        } else if str_eq(l, "f4") {
            Ok(ReadableRegisterF64::GeneralPurpose4)
        } else if str_eq(l, "f5") {
            Ok(ReadableRegisterF64::GeneralPurpose5)
        } else if str_eq(l, "f6") {
            Ok(ReadableRegisterF64::GeneralPurpose6)
        } else if str_eq(l, "f7") {
            Ok(ReadableRegisterF64::GeneralPurpose7)
        } else {
            Err(concat2("Invalid register: ", value))
        }
    }
}

/// A floating-point register that instructions write.
#[derive(Debug, Clone, Copy, PartialEq, Eq)]
pub enum WritableRegisterF64 {
    VelocityX,
    VelocityY,
    TurretAngularVelocity,
    GeneralPurpose0,
    GeneralPurpose1,
    GeneralPurpose2,
    GeneralPurpose3,
    GeneralPurpose4,
    GeneralPurpose5,
    GeneralPurpose6,
    GeneralPurpose7,
}

/// The register of this kind named `n` (already lowercased), if any.
pub open spec fn writable_register_f64_named(n: Seq<char>) -> Option<WritableRegisterF64> {
    if n == "velocity_x"@ {
        Some(WritableRegisterF64::VelocityX)
    } else if n == "velocity_y"@ {
        Some(WritableRegisterF64::VelocityY)
    } else if n == "turret_angular_velocity"@ {
        Some(WritableRegisterF64::TurretAngularVelocity)
    } else if n == "f0"@ {
        Some(WritableRegisterF64::GeneralPurpose0)
    } else if n == "f1"@ {
        Some(WritableRegisterF64::GeneralPurpose1)
    } else if n == "f2"@ {
        Some(WritableRegisterF64::GeneralPurpose2)
    } else if n == "f3"@ {
        Some(WritableRegisterF64::GeneralPurpose3)
    } else if n == "f4"@ {
        Some(WritableRegisterF64::GeneralPurpose4)
    } else if n == "f5"@ {
        Some(WritableRegisterF64::GeneralPurpose5)
    } else if n == "f6"@ {
        Some(WritableRegisterF64::GeneralPurpose6)
    } else if n == "f7"@ {
        Some(WritableRegisterF64::GeneralPurpose7)
    } else {
        None
    }
}

impl WritableRegisterF64 {
    /// The register named `value`, compared case-insensitively (by the
    /// lowercase form of `value`); an error naming `value` otherwise.
    pub fn try_from(value: &str) -> (r: Result<Self, String>)
        ensures
            match r {
                Ok(register) => writable_register_f64_named(lowercase_spec(value@)) == Some(register),
                Err(message) => writable_register_f64_named(lowercase_spec(value@)) is None
                    && message@ == "Invalid register: "@ + value@,
            },
    {
        let lower = to_lowercase(value);
        let l = lower.as_str();
        if str_eq(l, "velocity_x") {
            Ok(WritableRegisterF64::VelocityX)
        } else if str_eq(l, "velocity_y") {
            Ok(WritableRegisterF64::VelocityY)
        } else if str_eq(l, "turret_angular_velocity") {
            Ok(WritableRegisterF64::TurretAngularVelocity)
        } else if str_eq(l, "f0") {
            Ok(WritableRegisterF64::GeneralPurpose0)
        } else if str_eq(l, "f1") {
            Ok(WritableRegisterF64::GeneralPurpose1)
        } else if str_eq(l, "f2") {
            Ok(WritableRegisterF64::GeneralPurpose2)
        } else if str_eq(l, "f3") {
            Ok(WritableRegisterF64::GeneralPurpose3)
        } else if str_eq(l, "f4") {
            Ok(WritableRegisterF64::GeneralPurpose4)
        } else if str_eq(l, "f5") {
            Ok(WritableRegisterF64::GeneralPurpose5)
        } else if str_eq(l, "f6") {
            Ok(WritableRegisterF64::GeneralPurpose6)
        } else if str_eq(l, "f7") {
            Ok(WritableRegisterF64::GeneralPurpose7)
        } else {
            Err(concat2("Invalid register: ", value))
        }
    }
}


impl ReadableRegisterU64 {
    /// The index of this register in the bank of eight integer registers.
    pub open spec fn index(self) -> int {
        match self {
            ReadableRegisterU64::GeneralPurpose0 => 0,
            ReadableRegisterU64::GeneralPurpose1 => 1,
            ReadableRegisterU64::GeneralPurpose2 => 2,
            ReadableRegisterU64::GeneralPurpose3 => 3,
            ReadableRegisterU64::GeneralPurpose4 => 4,
            ReadableRegisterU64::GeneralPurpose5 => 5,
            ReadableRegisterU64::GeneralPurpose6 => 6,
            ReadableRegisterU64::GeneralPurpose7 => 7,
        }
    }
}

impl WritableRegisterU64 {
    /// The index of this register in the bank of eight integer registers.
    pub open spec fn index(self) -> int {
        match self {
            WritableRegisterU64::GeneralPurpose0 => 0,
            WritableRegisterU64::GeneralPurpose1 => 1,
            WritableRegisterU64::GeneralPurpose2 => 2,
            WritableRegisterU64::GeneralPurpose3 => 3,
            WritableRegisterU64::GeneralPurpose4 => 4,
            WritableRegisterU64::GeneralPurpose5 => 5,
            WritableRegisterU64::GeneralPurpose6 => 6,
            WritableRegisterU64::GeneralPurpose7 => 7,
        }
    }
}

/// Where an integer operand comes from.
#[derive(Debug, Clone, Copy, PartialEq, Eq)]
pub enum SourceU64 {
    Register(ReadableRegisterU64),
    Literal(u64),
}

/// Where an integer result goes.
#[derive(Debug, Clone, Copy, PartialEq, Eq)]
pub enum DestinationU64 {
    Register(WritableRegisterU64),
}

/// Where a floating-point operand comes from.
#[derive(Debug, Clone, Copy, PartialEq, Eq)]
pub enum SourceF64 {
    Register(ReadableRegisterF64),
    Literal(FloatBits),
}

/// Where a floating-point result goes.
#[derive(Debug, Clone, Copy, PartialEq, Eq)]
pub enum DestinationF64 {
    Register(WritableRegisterF64),
}

/// One instruction of a robot's program.
#[allow(inconsistent_fields)]
#[derive(Debug, Clone, Copy, PartialEq, Eq)]
pub enum Instruction {
    AddU64 { destination: DestinationU64, left: SourceU64, right: SourceU64 },
    AddF64 { destination: DestinationF64, left: SourceF64, right: SourceF64 },
    SubU64 { destination: DestinationU64, left: SourceU64, right: SourceU64 },
    SubF64 { destination: DestinationF64, left: SourceF64, right: SourceF64 },
    MulU64 { destination: DestinationU64, left: SourceU64, right: SourceU64 },
    MulF64 { destination: DestinationF64, left: SourceF64, right: SourceF64 },
    DivU64 { destination: DestinationU64, left: SourceU64, right: SourceU64 },
    DivF64 { destination: DestinationF64, left: SourceF64, right: SourceF64 },
    Jump { address: SourceU64 },
    JumpEqualU64 { address: SourceU64, left: SourceU64, right: SourceU64 },
    JumpEqualF64 { address: SourceU64, left: SourceF64, right: SourceF64 },
    JumpNotEqualU64 { address: SourceU64, left: SourceU64, right: SourceU64 },
    JumpNotEqualF64 { address: SourceU64, left: SourceF64, right: SourceF64 },
    JumpLessThanU64 { address: SourceU64, left: SourceU64, right: SourceU64 },
    JumpLessThanF64 { address: SourceU64, left: SourceF64, right: SourceF64 },
    JumpLessThanOrEqualToU64 { address: SourceU64, left: SourceU64, right: SourceU64 },
    JumpLessThanOrEqualToF64 { address: SourceU64, left: SourceF64, right: SourceF64 },
    JumpGreaterThanU64 { address: SourceU64, left: SourceU64, right: SourceU64 },
    JumpGreaterThanF64 { address: SourceU64, left: SourceF64, right: SourceF64 },
    JumpGreaterThanOrEqualToU64 { address: SourceU64, left: SourceU64, right: SourceU64 },
    JumpGreaterThanOrEqualToF64 { address: SourceU64, left: SourceF64, right: SourceF64 },
    ShiftLeft { destination: DestinationU64, source: SourceU64 },
    ShiftRight { destination: DestinationU64, source: SourceU64 },
}

/// The index of an instruction in a program.
#[derive(Debug, Clone, Copy, PartialEq, Eq)]
pub struct ProgramPointer(pub usize);

impl ProgramPointer {
    /// Moves to the next instruction, and gives access to the pointer.
    pub fn advance(&mut self) -> (r: &mut Self)
        requires
            old(self).0 < usize::MAX,
        ensures
            r.0 == old(self).0 + 1,
            *final(self) == *final(r),
    {
        self.0 = self.0 + 1;
        self
    }
}

impl From<usize> for ProgramPointer {
    fn from(value: usize) -> (r: Self) {
        Self(value)
    }
}

impl vstd::std_specs::convert::FromSpecImpl<usize> for ProgramPointer {
    open spec fn obeys_from_spec() -> bool {
        true
    }

    open spec fn from_spec(v: usize) -> Self {
        ProgramPointer(v)
    }
}

impl TryFrom<u32> for ProgramPointer {
    type Error = core::num::TryFromIntError;

    fn try_from(value: u32) -> (r: Result<Self, Self::Error>) {
        match usize::try_from(value) {
            Ok(v) => Ok(Self(v)),
            Err(e) => Err(e),
        }
    }
}

impl vstd::std_specs::convert::TryFromSpecImpl<u32> for ProgramPointer {
    open spec fn obeys_try_from_spec() -> bool {
        true
    }

    open spec fn try_from_spec(v: u32) -> Result<Self, Self::Error> {
        match <usize as TryFromSpec<u32>>::try_from_spec(v) {
            Ok(x) => Ok(ProgramPointer(x)),
            Err(e) => Err(e),
        }
    }
}

impl TryFrom<u64> for ProgramPointer {
    type Error = core::num::TryFromIntError;

    fn try_from(value: u64) -> (r: Result<Self, Self::Error>) {
        match usize::try_from(value) {
            Ok(v) => Ok(Self(v)),
            Err(e) => Err(e),
        }
    }
}

impl vstd::std_specs::convert::TryFromSpecImpl<u64> for ProgramPointer {
    open spec fn obeys_try_from_spec() -> bool {
        true
    }

    open spec fn try_from_spec(v: u64) -> Result<Self, Self::Error> {
        match <usize as TryFromSpec<u64>>::try_from_spec(v) {
            Ok(x) => Ok(ProgramPointer(x)),
            Err(e) => Err(e),
        }
    }
}

/// A sequence of instructions.
#[derive(Debug, Clone)]
pub struct Program {
    instructions: Vec<Instruction>,
}

impl View for Program {
    type V = Seq<Instruction>;

    closed spec fn view(&self) -> Seq<Instruction> {
        self.instructions@
    }
}

impl Program {
    /// The program made of `instructions`, in order.
    pub fn new(instructions: Vec<Instruction>) -> (r: Self)
        ensures
            r@ == instructions@,
    {
        Self { instructions }
    }

    /// The instruction that `p` points at; `None` past the end.
    pub fn get(&self, p: ProgramPointer) -> (r: Option<&Instruction>)
        ensures
            match r {
                Some(i) => p.0 < self@.len() <= usize::MAX && *i == self@[p.0 as int],
                None => p.0 >= self@.len(),
            },
    {
        if p.0 < self.instructions.len() {
            Some(&self.instructions[p.0])
        } else {
            None
        }
    }
}

} // verus!
