//! The assembler: instructions whose operands may name a label or a
//! compile-time value, checked against the instruction set and then turned
//! into machine instructions once every name has a value.
//!
//! Where a floating-point operand is written as an integer, it stands for the
//! nearest double, held by its bits (see `conversion`).

use vstd::prelude::*;

use crate::compile_time_expression::{
    evaluation, float_function, is_float_function, Arithmetic, EvaluateError, Evaluation, AST,
};
use crate::conversion::{f64_bits_of_i64, f64_bits_of_u64, int_to_f64_bits, nat_to_f64_bits};
use crate::language;
use crate::language::{
    readable_register_f64_named, readable_register_u64_named, DestinationF64, DestinationU64,
    FloatBits, ReadableRegisterF64, ReadableRegisterU64,
};
use crate::parser::{
    argument_debug, argument_model, argument_models, argument_to_debug, count_error,
    destination_f64_of, destination_u64_of, is_arithmetic, Argument, ArgumentModel, NumberLiteral,
};
use crate::strings::{decimal, lowercase_spec, str_eq, to_lowercase, to_uppercase, uppercase_spec};
use crate::text::{debug_str, debug_str_spec};

verus! {

/// An integer operand as the assembler reads it: a register, a literal, or
/// a name whose value is looked up later.
#[derive(Debug, PartialEq, Eq)]
pub enum SourceU64 {
    Register(ReadableRegisterU64),
    Literal(u64),
    Label(String),
}

/// A floating-point operand as the assembler reads it: a register, a
/// literal (by its bits), or a name whose value is looked up later.
#[derive(Debug, PartialEq, Eq)]
pub enum SourceF64 {
    Register(ReadableRegisterF64),
    Literal(FloatBits),
    Label(String),
}

/// An instruction as the assembler reads it, before its names are looked up.
#[allow(inconsistent_fields)]
#[derive(Debug, PartialEq, Eq)]
pub enum Instruction {
    SetU64 { destination: DestinationU64, source: SourceU64 },
    SetF64 { destination: DestinationF64, source: SourceF64 },
    AddU64 { destination: DestinationU64, left: SourceU64, right: SourceU64 },
    AddF64 { destination: DestinationF64, left: SourceF64, right: SourceF64 },
    SubU64 { destination: DestinationU64, left: SourceU64, right: SourceU64 },
    SubF64 { destination: DestinationF64, left: SourceF64, right: SourceF64 },
    MulU64 { destination: DestinationU64, left: SourceU64, right: SourceU64 },
    MulF64 { destination: DestinationF64, left: SourceF64, right: SourceF64 },
    DivU64 { destination: DestinationU64, left: SourceU64, right: SourceU64 },
    DivF64 { destination: DestinationF64, left: SourceF64, right: SourceF64 },
    Jump { address: SourceU64 },
    JumpEqualU64 { address: SourceU64, left: SourceU64, right: SourceU64 },
    JumpEqualF64 { address: SourceU64, left: SourceF64, right: SourceF64 },
    JumpNotEqualU64 { address: SourceU64, left: SourceU64, right: SourceU64 },
    JumpNotEqualF64 { address: SourceU64, left: SourceF64, right: SourceF64 },
    JumpLessThanU64 { address: SourceU64, left: SourceU64, right: SourceU64 },
    JumpLessThanF64 { address: SourceU64, left: SourceF64, right: SourceF64 },
    JumpLessThanOrEqualToU64 { address: SourceU64, left: SourceU64, right: SourceU64 },
    JumpLessThanOrEqualToF64 { address: SourceU64, left: SourceF64, right: SourceF64 },
    JumpGreaterThanU64 { address: SourceU64, left: SourceU64, right: SourceU64 },
    JumpGreaterThanF64 { address: SourceU64, left: SourceF64, right: SourceF64 },
    JumpGreaterThanOrEqualToU64 { address: SourceU64, left: SourceU64, right: SourceU64 },
    JumpGreaterThanOrEqualToF64 { address: SourceU64, left: SourceF64, right: SourceF64 },
    ShiftLeft { destination: DestinationU64, source: SourceU64 },
    ShiftRight { destination: DestinationU64, source: SourceU64 },
}

/// An argument read as an integer operand: a readable integer register, a
/// label for any other name, or an integer literal (a negative one taken
/// modulo 2^64); a floating-point literal is none.
pub open spec fn asm_source_u64_of(a: Argument) -> Option<SourceU64> {
    match a {
        Argument::Identifier(s) => match readable_register_u64_named(lowercase_spec(s@)) {
            Some(r) => Some(SourceU64::Register(r)),
            None => Some(SourceU64::Label(s)),
        },
        Argument::Number(NumberLiteral::U64(v)) => Some(SourceU64::Literal(v)),
        Argument::Number(NumberLiteral::I64(v)) => Some(SourceU64::Literal(v as u64)),
        Argument::Number(NumberLiteral::F64(_)) => None,
    }
}

/// An argument read as a floating-point operand: a readable floating-point
/// register, a label for any other name, or a literal (an integer one as the
/// nearest double).
pub open spec fn asm_source_f64_of(a: Argument) -> SourceF64 {
    match a {
        Argument::Identifier(s) => match readable_register_f64_named(lowercase_spec(s@)) {
            Some(r) => SourceF64::Register(r),
            None => SourceF64::Label(s),
        },
        Argument::Number(NumberLiteral::U64(v)) => SourceF64::Literal(
            FloatBits(nat_to_f64_bits(v as nat) as u64),
        ),
        Argument::Number(NumberLiteral::I64(v)) => SourceF64::Literal(
            FloatBits(int_to_f64_bits(v as int) as u64),
        ),
        Argument::Number(NumberLiteral::F64(b)) => SourceF64::Literal(b),
    }
}

/// Whether `m` names one of the six conditional jumps.
pub open spec fn is_conditional_jump(m: Seq<char>) -> bool {
    m == "jeq"@ || m == "jne"@ || m == "jlt"@ || m == "jle"@ || m == "jgt"@ || m == "jge"@
}

/// Whether `m` names an instruction with a destination and one operand.
pub open spec fn is_two_operand(m: Seq<char>) -> bool {
    m == "set"@ || m == "sl"@ || m == "sr"@
}

/// Whether `m` names an instruction that the assembler does not read yet:
/// the stack and memory instructions.
pub open spec fn is_unfinished(m: Seq<char>) -> bool {
    m == "push"@ || m == "pop"@ || m == "load"@ || m == "store"@
}

/// The integer form of the arithmetic instruction `m`.
pub open spec fn arithmetic_u64(m: Seq<char>, destination: DestinationU64, left: SourceU64, right: SourceU64) -> Instruction {
    if m == "add"@ {
        Instruction::AddU64 { destination, left, right }
    } else if m == "sub"@ {
        Instruction::SubU64 { destination, left, right }
    } else if m == "mul"@ {
        Instruction::MulU64 { destination, left, right }
    } else {
        Instruction::DivU64 { destination, left, right }
    }
}

/// The floating-point form of the arithmetic instruction `m`.
pub open spec fn arithmetic_f64(m: Seq<char>, destination: DestinationF64, left: SourceF64, right: SourceF64) -> Instruction {
    if m == "add"@ {
        Instruction::AddF64 { destination, left, right }
    } else if m == "sub"@ {
        Instruction::SubF64 { destination, left, right }
    } else if m == "mul"@ {
        Instruction::MulF64 { destination, left, right }
    } else {
        Instruction::DivF64 { destination, left, right }
    }
}

/// The integer form of the conditional jump `m`.
pub open spec fn jump_u64(m: Seq<char>, address: SourceU64, left: SourceU64, right: SourceU64) -> Instruction {
    if m == "jeq"@ {
        Instruction::JumpEqualU64 { address, left, right }
    } else if m == "jne"@ {
        Instruction::JumpNotEqualU64 { address, left, right }
    } else if m == "jlt"@ {
        Instruction::JumpLessThanU64 { address, left, right }
    } else if m == "jle"@ {
        Instruction::JumpLessThanOrEqualToU64 { address, left, right }
    } else if m == "jgt"@ {
        Instruction::JumpGreaterThanU64 { address, left, right }
    } else {
        Instruction::JumpGreaterThanOrEqualToU64 { address, left, right }
    }
}

/// The floating-point form of the conditional jump `m`.
pub open spec fn jump_f64(m: Seq<char>, address: SourceU64, left: SourceF64, right: SourceF64) -> Instruction {
    if m == "jeq"@ {
        Instruction::JumpEqualF64 { address, left, right }
    } else if m == "jne"@ {
        Instruction::JumpNotEqualF64 { address, left, right }
    } else if m == "jlt"@ {
        Instruction::JumpLessThanF64 { address, left, right }
    } else if m == "jle"@ {
        Instruction::JumpLessThanOrEqualToF64 { address, left, right }
    } else if m == "jgt"@ {
        Instruction::JumpGreaterThanF64 { address, left, right }
    } else {
        Instruction::JumpGreaterThanOrEqualToF64 { address, left, right }
    }
}

/// `set`, `sl` or `sr` with a destination and a source: the integer form
/// when both read as integer ones; for `set`, else the floating-point form
/// when the destination is a floating-point one.
pub open spec fn two_operand_of(m: Seq<char>, d: Argument, s: Argument) -> Option<Instruction> {
    if destination_u64_of(argument_model(d)) is Some && asm_source_u64_of(s) is Some {
        let destination = destination_u64_of(argument_model(d))->0;
        let source = asm_source_u64_of(s)->0;
        Some(
            if m == "set"@ {
                Instruction::SetU64 { destination, source }
            } else if m == "sl"@ {
                Instruction::ShiftLeft { destination, source }
            } else {
                Instruction::ShiftRight { destination, source }
            },
        )
    } else if m == "set"@ && destination_f64_of(argument_model(d)) is Some {
        Some(
            Instruction::SetF64 {
                destination: destination_f64_of(argument_model(d))->0,
                source: asm_source_f64_of(s),
            },
        )
    } else {
        None
    }
}

/// An arithmetic instruction: the integer form when all three arguments
/// read as integer ones, else the floating-point form when the destination
/// is a floating-point one.
pub open spec fn arithmetic_of(m: Seq<char>, d: Argument, l: Argument, r: Argument) -> Option<Instruction> {
    if destination_u64_of(argument_model(d)) is Some && asm_source_u64_of(l) is Some
        && asm_source_u64_of(r) is Some {
        Some(
            arithmetic_u64(
                m,
                destination_u64_of(argument_model(d))->0,
                asm_source_u64_of(l)->0,
                asm_source_u64_of(r)->0,
            ),
        )
    } else if destination_f64_of(argument_model(d)) is Some {
        Some(
            arithmetic_f64(
                m,
                destination_f64_of(argument_model(d))->0,
                asm_source_f64_of(l),
                asm_source_f64_of(r),
            ),
        )
    } else {
        None
    }
}

/// A conditional jump: the integer form when all three arguments read as
/// integer ones, else the floating-point form when the address does.
pub open spec fn conditional_jump_of(m: Seq<char>, a: Argument, l: Argument, r: Argument) -> Option<Instruction> {
    if asm_source_u64_of(a) is Some && asm_source_u64_of(l) is Some && asm_source_u64_of(r) is Some {
        Some(jump_u64(m, asm_source_u64_of(a)->0, asm_source_u64_of(l)->0, asm_source_u64_of(r)->0))
    } else if asm_source_u64_of(a) is Some {
        Some(jump_f64(m, asm_source_u64_of(a)->0, asm_source_f64_of(l), asm_source_f64_of(r)))
    } else {
        None
    }
}

/// The instruction that the name `m` (in lowercase) with arguments `args`
/// stands for, if any.
pub open spec fn assembled(m: Seq<char>, args: Seq<Argument>) -> Option<Instruction> {
    if is_two_operand(m) {
        if args.len() == 2 {
            two_operand_of(m, args[0], args[1])
        } else {
            None
        }
    } else if is_arithmetic(m) {
        if args.len() == 3 {
            arithmetic_of(m, args[0], args[1], args[2])
        } else {
            None
        }
    } else if m == "jmp"@ {
        if args.len() == 1 && asm_source_u64_of(args[0]) is Some {
            Some(Instruction::Jump { address: asm_source_u64_of(args[0])->0 })
        } else {
            None
        }
    } else if is_conditional_jump(m) {
        if args.len() == 3 {
            conditional_jump_of(m, args[0], args[1], args[2])
        } else {
            None
        }
    } else {
        None
    }
}

/// The message for two operands that fit no form of the instruction.
pub open spec fn two_operand_error(upper: Seq<char>, d: ArgumentModel, s: ArgumentModel) -> Seq<char> {
    "invalid arguments for '"@ + upper + "': destination: "@ + argument_debug(d) + ", source: "@
        + argument_debug(s)
}

/// The message for three operands, the first called `first`, that fit no
/// form of the instruction.
pub open spec fn three_operand_error(
    upper: Seq<char>,
    first: Seq<char>,
    a: ArgumentModel,
    l: ArgumentModel,
    r: ArgumentModel,
) -> Seq<char> {
    "invalid arguments for '"@ + upper + "': "@ + first + ": "@ + argument_debug(a) + ", left: "@
        + argument_debug(l) + ", right: "@ + argument_debug(r)
}

/// The message for a wrong number of arguments: `expected` were wanted.
pub open spec fn count_message(upper: Seq<char>, expected: Seq<char>, found: nat) -> Seq<char> {
    expected + upper + "', found "@ + decimal(found)
}

/// Why the instruction `name`, whose lowercase form is `m` and uppercase
/// form is `upper`, with arguments `args` is rejected.
pub open spec fn assembly_error(
    m: Seq<char>,
    upper: Seq<char>,
    name: Seq<char>,
    args: Seq<ArgumentModel>,
) -> Seq<char> {
    if is_two_operand(m) {
        if args.len() == 2 {
            two_operand_error(upper, args[0], args[1])
        } else {
            count_message(upper, "expected 2 arguments for '"@, args.len())
        }
    } else if is_arithmetic(m) {
        if args.len() == 3 {
            three_operand_error(upper, "destination"@, args[0], args[1], args[2])
        } else {
            count_message(upper, "expected 3 arguments for '"@, args.len())
        }
    } else if m == "jmp"@ {
        if args.len() == 1 {
            "invalid argument for '"@ + upper + "': address: "@ + argument_debug(args[0])
        } else {
            count_message(upper, "expected 1 argument for '"@, args.len())
        }
    } else if is_conditional_jump(m) {
        if args.len() == 3 {
            three_operand_error(upper, "address"@, args[0], args[1], args[2])
        } else {
            count_message(upper, "expected 3 arguments for '"@, args.len())
        }
    } else {
        "unrecognized instruction: "@ + name
    }
}

/// Whether `a` is a floating-point literal, the one argument that reads as
/// no integer operand.
fn is_f64_literal(a: &Argument) -> (r: bool)
    ensures
        r == (asm_source_u64_of(*a) is None),
{
    match a {
        Argument::Number(NumberLiteral::F64(_)) => true,
        _ => false,
    }
}

/// `a` read as an integer operand (see `asm_source_u64_of`).
fn into_source_u64(a: Argument) -> (r: SourceU64)
    requires
        asm_source_u64_of(a) is Some,
    ensures
        asm_source_u64_of(a) == Some(r),
{
    match a {
        Argument::Identifier(s) => match ReadableRegisterU64::try_from(s.as_str()) {
            Ok(register) => SourceU64::Register(register),
            Err(_) => SourceU64::Label(s),
        },
        Argument::Number(NumberLiteral::U64(v)) => SourceU64::Literal(v),
        Argument::Number(NumberLiteral::I64(v)) => SourceU64::Literal(v as u64),
        Argument::Number(NumberLiteral::F64(_)) => {
            proof {
                assert(false);
            }
            SourceU64::Literal(0)
        },
    }
}

/// `a` read as a floating-point operand (see `asm_source_f64_of`).
fn into_source_f64(a: Argument) -> (r: SourceF64)
    ensures
        r == asm_source_f64_of(a),
{
    match a {
        Argument::Identifier(s) => match ReadableRegisterF64::try_from(s.as_str()) {
            Ok(register) => SourceF64::Register(register),
            Err(_) => SourceF64::Label(s),
        },
        Argument::Number(NumberLiteral::U64(v)) => SourceF64::Literal(f64_bits_of_u64(v)),
        Argument::Number(NumberLiteral::I64(v)) => SourceF64::Literal(f64_bits_of_i64(v)),
        Argument::Number(NumberLiteral::F64(b)) => SourceF64::Literal(b),
    }
}

/// `a` read as an integer destination, which it is.
fn into_destination_u64(a: &Argument) -> (d: DestinationU64)
    requires
        destination_u64_of(argument_model(*a)) is Some,
    ensures
        destination_u64_of(argument_model(*a)) == Some(d),
{
    match a.try_into_destination_u64() {
        Ok(d) => d,
        Err(_) => {
            proof {
                assert(false);
            }
            DestinationU64::Register(language::WritableRegisterU64::GeneralPurpose0)
        },
    }
}

/// `a` read as a floating-point destination, which it is.
fn into_destination_f64(a: &Argument) -> (d: DestinationF64)
    requires
        destination_f64_of(argument_model(*a)) is Some,
    ensures
        destination_f64_of(argument_model(*a)) == Some(d),
{
    match a.try_into_destination_f64() {
        Ok(d) => d,
        Err(_) => {
            proof {
                assert(false);
            }
            DestinationF64::Register(language::WritableRegisterF64::GeneralPurpose0)
        },
    }
}

/// The two arguments of a list of two.
fn take_two(arguments: Vec<Argument>) -> (r: (Argument, Argument))
    requires
        arguments.len() == 2,
    ensures
        r.0 == arguments@[0],
        r.1 == arguments@[1],
{
    let mut arguments = arguments;
    let b = arguments.pop();
    let a = arguments.pop();
    match (a, b) {
        (Some(a), Some(b)) => (a, b),
        _ => {
            proof {
                assert(false);
            }
            (Argument::Number(NumberLiteral::U64(0)), Argument::Number(NumberLiteral::U64(0)))
        },
    }
}

/// The three arguments of a list of three.
fn take_three(arguments: Vec<Argument>) -> (r: (Argument, Argument, Argument))
    requires
        arguments.len() == 3,
    ensures
        r.0 == arguments@[0],
        r.1 == arguments@[1],
        r.2 == arguments@[2],
{
    let mut arguments = arguments;
    let c = arguments.pop();
    let b = arguments.pop();
    let a = arguments.pop();
    match (a, b, c) {
        (Some(a), Some(b), Some(c)) => (a, b, c),
        _ => {
            proof {
                assert(false);
            }
            (
                Argument::Number(NumberLiteral::U64(0)),
                Argument::Number(NumberLiteral::U64(0)),
                Argument::Number(NumberLiteral::U64(0)),
            )
        },
    }
}

/// The text of `two_operand_error`.
fn two_operand_message(upper: &str, d: &Argument, s: &Argument) -> (r: String)
    ensures
        r@ == two_operand_error(upper@, argument_model(*d), argument_model(*s)),
{
    let mut e = String::from_str("invalid arguments for '");
    e.append(upper);
    e.append("': destination: ");
    e.append(argument_to_debug(d).as_str());
    e.append(", source: ");
    e.append(argument_to_debug(s).as_str());
    e
}

/// The text of `three_operand_error`.
fn three_operand_message(upper: &str, first: &str, a: &Argument, l: &Argument, r: &Argument) -> (m:
    String)
    ensures
        m@ == three_operand_error(
            upper@,
            first@,
            argument_model(*a),
            argument_model(*l),
            argument_model(*r),
        ),
{
    let mut e = String::from_str("invalid arguments for '");
    e.append(upper);
    e.append("': ");
    e.append(first);
    e.append(": ");
    e.append(argument_to_debug(a).as_str());
    e.append(", left: ");
    e.append(argument_to_debug(l).as_str());
    e.append(", right: ");
    e.append(argument_to_debug(r).as_str());
    e
}

impl Instruction {
    /// Reads an instruction as written: `set`, `sl` and `sr` with a
    /// destination and a source; `add`, `sub`, `mul` and `div` with a
    /// destination and two operands; `jmp` with an address; `jeq`, `jne`,
    /// `jlt`, `jle`, `jgt` and `jge` with an address and two operands (names
    /// in any case). Operands are read as integer ones first, then as
    /// floating-point ones; a name that is no register is a label. Anything
    /// else is rejected with a message. The stack and memory instructions
    /// (`push`, `pop`, `load`, `store`) are not read yet.
    pub fn new(instruction: String, arguments: Vec<Argument>) -> (r: Result<Self, String>)
        requires
            !is_unfinished(lowercase_spec(instruction@)),
        ensures
            match r {
                Ok(i) => assembled(lowercase_spec(instruction@), arguments@) == Some(i),
                Err(e) => {
                    &&& assembled(lowercase_spec(instruction@), arguments@) is None
                    &&& e@ == assembly_error(
                        lowercase_spec(instruction@),
                        uppercase_spec(instruction@),
                        instruction@,
                        argument_models(arguments@),
                    )
                },
            },
    {
        let lower = to_lowercase(instruction.as_str());
        let upper = to_uppercase(instruction.as_str());
        let m = lower.as_str();
        let n = arguments.len();
        proof {
            reveal_strlit("set");
            reveal_strlit("sl");
            reveal_strlit("sr");
            reveal_strlit("add");
            reveal_strlit("sub");
            reveal_strlit("mul");
            reveal_strlit("div");
            reveal_strlit("jmp");
            reveal_strlit("jeq");
            reveal_strlit("jne");
            reveal_strlit("jlt");
            reveal_strlit("jle");
            reveal_strlit("jgt");
            reveal_strlit("jge");
        }
        if str_eq(m, "set") || str_eq(m, "sl") || str_eq(m, "sr") {
            if n != 2 {
                return Err(count_error("expected 2 arguments for '", upper.as_str(), n));
            }
            let integer = arguments[0].try_into_destination_u64().is_ok() && !is_f64_literal(
                &arguments[1],
            );
            let float = str_eq(m, "set") && arguments[0].try_into_destination_f64().is_ok();
            if integer {
                let destination = into_destination_u64(&arguments[0]);
                let (_, s) = take_two(arguments);
                let source = into_source_u64(s);
                if str_eq(m, "set") {
                    Ok(Instruction::SetU64 { destination, source })
                } else if str_eq(m, "sl") {
                    Ok(Instruction::ShiftLeft { destination, source })
                } else {
                    Ok(Instruction::ShiftRight { destination, source })
                }
            } else if float {
                let destination = into_destination_f64(&arguments[0]);
                let (_, s) = take_two(arguments);
                Ok(Instruction::SetF64 { destination, source: into_source_f64(s) })
            } else {
                Err(two_operand_message(upper.as_str(), &arguments[0], &arguments[1]))
            }
        } else if str_eq(m, "add") || str_eq(m, "sub") || str_eq(m, "mul") || str_eq(m, "div") {
            if n != 3 {
                return Err(count_error("expected 3 arguments for '", upper.as_str(), n));
            }
            let integer = arguments[0].try_into_destination_u64().is_ok() && !is_f64_literal(
                &arguments[1],
            ) && !is_f64_literal(&arguments[2]);
            let float = arguments[0].try_into_destination_f64().is_ok();
            if integer {
                let destination = into_destination_u64(&arguments[0]);
                let (_, l, r) = take_three(arguments);
                let left = into_source_u64(l);
                let right = into_source_u64(r);
                if str_eq(m, "add") {
                    Ok(Instruction::AddU64 { destination, left, right })
                } else if str_eq(m, "sub") {
                    Ok(Instruction::SubU64 { destination, left, right })
                } else if str_eq(m, "mul") {
                    Ok(Instruction::MulU64 { destination, left, right })
                } else {
                    Ok(Instruction::DivU64 { destination, left, right })
                }
            } else if float {
                let destination = into_destination_f64(&arguments[0]);
                let (_, l, r) = take_three(arguments);
                let left = into_source_f64(l);
                let right = into_source_f64(r);
                if str_eq(m, "add") {
                    Ok(Instruction::AddF64 { destination, left, right })
                } else if str_eq(m, "sub") {
                    Ok(Instruction::SubF64 { destination, left, right })
                } else if str_eq(m, "mul") {
                    Ok(Instruction::MulF64 { destination, left, right })
                } else {
                    Ok(Instruction::DivF64 { destination, left, right })
                }
            } else {
                Err(
                    three_operand_message(
                        upper.as_str(),
                        "destination",
                        &arguments[0],
                        &arguments[1],
                        &arguments[2],
                    ),
                )
            }
        } else if str_eq(m, "jmp") {
            if n != 1 {
                return Err(count_error("expected 1 argument for '", upper.as_str(), n));
            }
            if is_f64_literal(&arguments[0]) {
                let mut e = String::from_str("invalid argument for '");
                e.append(upper.as_str());
                e.append("': address: ");
                e.append(argument_to_debug(&arguments[0]).as_str());
                Err(e)
            } else {
                let mut arguments = arguments;
                match arguments.pop() {
                    Some(a) => Ok(Instruction::Jump { address: into_source_u64(a) }),
                    None => {
                        proof {
                            assert(false);
                        }
                        Err(String::new())
                    },
                }
            }
        } else if str_eq(m, "jeq") || str_eq(m, "jne") || str_eq(m, "jlt") || str_eq(m, "jle")
            || str_eq(m, "jgt") || str_eq(m, "jge") {
            if n != 3 {
                return Err(count_error("expected 3 arguments for '", upper.as_str(), n));
            }
            if is_f64_literal(&arguments[0]) {
                return Err(
                    three_operand_message(
                        upper.as_str(),
                        "address",
                        &arguments[0],
                        &arguments[1],
                        &arguments[2],
                    ),
                );
            }
            let integer = !is_f64_literal(&arguments[1]) && !is_f64_literal(&arguments[2]);
            let (a, l, r) = take_three(arguments);
            let address = into_source_u64(a);
            if integer {
                let left = into_source_u64(l);
                let right = into_source_u64(r);
                if str_eq(m, "jeq") {
                    Ok(Instruction::JumpEqualU64 { address, left, right })
                } else if str_eq(m, "jne") {
                    Ok(Instruction::JumpNotEqualU64 { address, left, right })
                } else if str_eq(m, "jlt") {
                    Ok(Instruction::JumpLessThanU64 { address, left, right })
                } else if str_eq(m, "jle") {
                    Ok(Instruction::JumpLessThanOrEqualToU64 { address, left, right })
                } else if str_eq(m, "jgt") {
                    Ok(Instruction::JumpGreaterThanU64 { address, left, right })
                } else {
                    Ok(Instruction::JumpGreaterThanOrEqualToU64 { address, left, right })
                }
            } else {
                let left = into_source_f64(l);
                let right = into_source_f64(r);
                if str_eq(m, "jeq") {
                    Ok(Instruction::JumpEqualF64 { address, left, right })
                } else if str_eq(m, "jne") {
                    Ok(Instruction::JumpNotEqualF64 { address, left, right })
                } else if str_eq(m, "jlt") {
                    Ok(Instruction::JumpLessThanF64 { address, left, right })
                } else if str_eq(m, "jle") {
                    Ok(Instruction::JumpLessThanOrEqualToF64 { address, left, right })
                } else if str_eq(m, "jgt") {
                    Ok(Instruction::JumpGreaterThanF64 { address, left, right })
                } else {
                    Ok(Instruction::JumpGreaterThanOrEqualToF64 { address, left, right })
                }
            }
        } else {
            let mut e = String::from_str("unrecognized instruction: ");
            e.append(instruction.as_str());
            Err(e)
        }
    }
}

/// The value named `name` among `values`: that of the last entry with
/// that name, as a map that each entry overwrites holds it.
pub open spec fn value_of(values: Seq<(String, NumberLiteral)>, name: Seq<char>) -> Option<
    NumberLiteral,
>
    decreases values.len(),
{
    if values.len() == 0 {
        None
    } else if values.last().0@ == name {
        Some(values.last().1)
    } else {
        value_of(values.drop_last(), name)
    }
}

/// A result with its message taken as characters.
pub open spec fn message_result<T>(r: Result<T, String>) -> Result<T, Seq<char>> {
    match r {
        Ok(v) => Ok(v),
        Err(e) => Err(e@),
    }
}

/// The message for a name with no value.
pub open spec fn not_found(label: Seq<char>) -> Seq<char> {
    "label '"@ + label + "' not found in program"@
}

/// An integer operand with its name, if any, replaced by its value: an
/// integer value as it is (a negative one modulo 2^64); a floating-point
/// value, or no value, is an error.
pub open spec fn runnable_u64(s: SourceU64, values: Seq<(String, NumberLiteral)>) -> Result<
    language::SourceU64,
    Seq<char>,
> {
    match s {
        SourceU64::Register(r) => Ok(language::SourceU64::Register(r)),
        SourceU64::Literal(v) => Ok(language::SourceU64::Literal(v)),
        SourceU64::Label(l) => match value_of(values, l@) {
            Some(NumberLiteral::U64(v)) => Ok(language::SourceU64::Literal(v)),
            Some(NumberLiteral::I64(v)) => Ok(language::SourceU64::Literal(v as u64)),
            Some(NumberLiteral::F64(_)) => Err(l@ + " is an f64, expected u64"@),
            None => Err(not_found(l@)),
        },
    }
}

/// A floating-point operand with its name, if any, replaced by its value
/// (an integer value as the nearest double); no value is an error.
pub open spec fn runnable_f64(s: SourceF64, values: Seq<(String, NumberLiteral)>) -> Result<
    language::SourceF64,
    Seq<char>,
> {
    match s {
        SourceF64::Register(r) => Ok(language::SourceF64::Register(r)),
        SourceF64::Literal(v) => Ok(language::SourceF64::Literal(v)),
        SourceF64::Label(l) => match value_of(values, l@) {
            Some(NumberLiteral::U64(v)) => Ok(
                language::SourceF64::Literal(FloatBits(nat_to_f64_bits(v as nat) as u64)),
            ),
            Some(NumberLiteral::I64(v)) => Ok(
                language::SourceF64::Literal(FloatBits(int_to_f64_bits(v as int) as u64)),
            ),
            Some(NumberLiteral::F64(b)) => Ok(language::SourceF64::Literal(b)),
            None => Err(not_found(l@)),
        },
    }
}

/// Two integer operands made runnable, left first: the first error stops.
pub open spec fn runnable_pair_u64(
    l: SourceU64,
    r: SourceU64,
    values: Seq<(String, NumberLiteral)>,
) -> Result<(language::SourceU64, language::SourceU64), Seq<char>> {
    match runnable_u64(l, values) {
        Err(e) => Err(e),
        Ok(a) => match runnable_u64(r, values) {
            Err(e) => Err(e),
            Ok(b) => Ok((a, b)),
        },
    }
}

/// Two floating-point operands made runnable, left first: the first error
/// stops.
pub open spec fn runnable_pair_f64(
    l: SourceF64,
    r: SourceF64,
    values: Seq<(String, NumberLiteral)>,
) -> Result<(language::SourceF64, language::SourceF64), Seq<char>> {
    match runnable_f64(l, values) {
        Err(e) => Err(e),
        Ok(a) => match runnable_f64(r, values) {
            Err(e) => Err(e),
            Ok(b) => Ok((a, b)),
        },
    }
}

/// The operands of an integer conditional jump made runnable, the address
/// first.
pub open spec fn runnable_jump_u64(
    a: SourceU64,
    l: SourceU64,
    r: SourceU64,
    values: Seq<(String, NumberLiteral)>,
) -> Result<(language::SourceU64, language::SourceU64, language::SourceU64), Seq<char>> {
    match runnable_u64(a, values) {
        Err(e) => Err(e),
        Ok(x) => match runnable_pair_u64(l, r, values) {
            Err(e) => Err(e),
            Ok((y, z)) => Ok((x, y, z)),
        },
    }
}

/// The operands of a floating-point conditional jump made runnable, the
/// address first.
pub open spec fn runnable_jump_f64(
    a: SourceU64,
    l: SourceF64,
    r: SourceF64,
    values: Seq<(String, NumberLiteral)>,
) -> Result<(language::SourceU64, language::SourceF64, language::SourceF64), Seq<char>> {
    match runnable_u64(a, values) {
        Err(e) => Err(e),
        Ok(x) => match runnable_pair_f64(l, r, values) {
            Err(e) => Err(e),
            Ok((y, z)) => Ok((x, y, z)),
        },
    }
}

/// Whether the instruction is one that the machine has no counterpart for
/// (`set`).
pub open spec fn has_no_machine_form(i: Instruction) -> bool {
    i is SetU64 || i is SetF64
}

/// The machine instruction for `i` with every name replaced by its value,
/// or the first error met, operands in the order written.
pub open spec fn runnable_of(i: Instruction, values: Seq<(String, NumberLiteral)>) -> Result<
    language::Instruction,
    Seq<char>,
> {
    match i {
        Instruction::AddU64 { destination, left, right } => match runnable_pair_u64(left, right, values) {
            Ok((l, r)) => Ok(language::Instruction::AddU64 { destination, left: l, right: r }),
            Err(e) => Err(e),
        },
        Instruction::SubU64 { destination, left, right } => match runnable_pair_u64(left, right, values) {
            Ok((l, r)) => Ok(language::Instruction::SubU64 { destination, left: l, right: r }),
            Err(e) => Err(e),
        },
        Instruction::MulU64 { destination, left, right } => match runnable_pair_u64(left, right, values) {
            Ok((l, r)) => Ok(language::Instruction::MulU64 { destination, left: l, right: r }),
            Err(e) => Err(e),
        },
        Instruction::DivU64 { destination, left, right } => match runnable_pair_u64(left, right, values) {
            Ok((l, r)) => Ok(language::Instruction::DivU64 { destination, left: l, right: r }),
            Err(e) => Err(e),
        },
        Instruction::AddF64 { destination, left, right } => match runnable_pair_f64(left, right, values) {
            Ok((l, r)) => Ok(language::Instruction::AddF64 { destination, left: l, right: r }),
            Err(e) => Err(e),
        },
        Instruction::SubF64 { destination, left, right } => match runnable_pair_f64(left, right, values) {
            Ok((l, r)) => Ok(language::Instruction::SubF64 { destination, left: l, right: r }),
            Err(e) => Err(e),
        },
        Instruction::MulF64 { destination, left, right } => match runnable_pair_f64(left, right, values) {
            Ok((l, r)) => Ok(language::Instruction::MulF64 { destination, left: l, right: r }),
            Err(e) => Err(e),
        },
        Instruction::DivF64 { destination, left, right } => match runnable_pair_f64(left, right, values) {
            Ok((l, r)) => Ok(language::Instruction::DivF64 { destination, left: l, right: r }),
            Err(e) => Err(e),
        },
        Instruction::Jump { address } => match runnable_u64(address, values) {
            Ok(a) => Ok(language::Instruction::Jump { address: a }),
            Err(e) => Err(e),
        },
        Instruction::JumpEqualU64 { address, left, right } => match runnable_jump_u64(address, left, right, values) {
            Ok((a, l, r)) => Ok(language::Instruction::JumpEqualU64 { address: a, left: l, right: r }),
            Err(e) => Err(e),
        },
        Instruction::JumpNotEqualU64 { address, left, right } => match runnable_jump_u64(address, left, right, values) {
            Ok((a, l, r)) => Ok(language::Instruction::JumpNotEqualU64 { address: a, left: l, right: r }),
            Err(e) => Err(e),
        },
        Instruction::JumpLessThanU64 { address, left, right } => match runnable_jump_u64(address, left, right, values) {
            Ok((a, l, r)) => Ok(language::Instruction::JumpLessThanU64 { address: a, left: l, right: r }),
            Err(e) => Err(e),
        },
        Instruction::JumpLessThanOrEqualToU64 { address, left, right } => match runnable_jump_u64(address, left, right, values) {
            Ok((a, l, r)) => Ok(language::Instruction::JumpLessThanOrEqualToU64 { address: a, left: l, right: r }),
            Err(e) => Err(e),
        },
        Instruction::JumpGreaterThanU64 { address, left, right } => match runnable_jump_u64(address, left, right, values) {
            Ok((a, l, r)) => Ok(language::Instruction::JumpGreaterThanU64 { address: a, left: l, right: r }),
            Err(e) => Err(e),
        },
        Instruction::JumpGreaterThanOrEqualToU64 { address, left, right } => match runnable_jump_u64(address, left, right, values) {
            Ok((a, l, r)) => Ok(language::Instruction::JumpGreaterThanOrEqualToU64 { address: a, left: l, right: r }),
            Err(e) => Err(e),
        },
        Instruction::JumpEqualF64 { address, left, right } => match runnable_jump_f64(address, left, right, values) {
            Ok((a, l, r)) => Ok(language::Instruction::JumpEqualF64 { address: a, left: l, right: r }),
            Err(e) => Err(e),
        },
        Instruction::JumpNotEqualF64 { address, left, right } => match runnable_jump_f64(address, left, right, values) {
            Ok((a, l, r)) => Ok(language::Instruction::JumpNotEqualF64 { address: a, left: l, right: r }),
            Err(e) => Err(e),
        },
        Instruction::JumpLessThanF64 { address, left, right } => match runnable_jump_f64(address, left, right, values) {
            Ok((a, l, r)) => Ok(language::Instruction::JumpLessThanF64 { address: a, left: l, right: r }),
            Err(e) => Err(e),
        },
        Instruction::JumpLessThanOrEqualToF64 { address, left, right } => match runnable_jump_f64(address, left, right, values) {
            Ok((a, l, r)) => Ok(language::Instruction::JumpLessThanOrEqualToF64 { address: a, left: l, right: r }),
            Err(e) => Err(e),
        },
        Instruction::JumpGreaterThanF64 { address, left, right } => match runnable_jump_f64(address, left, right, values) {
            Ok((a, l, r)) => Ok(language::Instruction::JumpGreaterThanF64 { address: a, left: l, right: r }),
            Err(e) => Err(e),
        },
        Instruction::JumpGreaterThanOrEqualToF64 { address, left, right } => match runnable_jump_f64(address, left, right, values) {
            Ok((a, l, r)) => Ok(language::Instruction::JumpGreaterThanOrEqualToF64 { address: a, left: l, right: r }),
            Err(e) => Err(e),
        },
        Instruction::ShiftLeft { destination, source } => match runnable_u64(source, values) {
            Ok(s) => Ok(language::Instruction::ShiftLeft { destination, source: s }),
            Err(e) => Err(e),
        },
        Instruction::ShiftRight { destination, source } => match runnable_u64(source, values) {
            Ok(s) => Ok(language::Instruction::ShiftRight { destination, source: s }),
            Err(e) => Err(e),
        },
        Instruction::SetU64 { .. } => Err(Seq::empty()),
        Instruction::SetF64 { .. } => Err(Seq::empty()),
    }
}

/// The value named `name` among `values` (see `value_of`).
pub fn lookup(values: &Vec<(String, NumberLiteral)>, name: &str) -> (r: Option<NumberLiteral>)
    ensures
        r == value_of(values@, name@),
{
    let mut i = values.len();
    assert(values@.take(i as int) =~= values@);
    while i > 0
        invariant
            i <= values.len(),
            value_of(values@, name@) == value_of(values@.take(i as int), name@),
        decreases i,
    {
        let ghost prefix = values@.take(i as int);
        assert(prefix.drop_last() =~= values@.take(i - 1));
        if str_eq(values[i - 1].0.as_str(), name) {
            return Some(values[i - 1].1);
        }
        i = i - 1;
    }
    None
}

/// The message for a name with no value.
fn not_found_message(label: &str) -> (r: String)
    ensures
        r@ == not_found(label@),
{
    let mut e = String::from_str("label '");
    e.append(label);
    e.append("' not found in program");
    e
}

impl SourceU64 {
    /// The operand with its name, if any, replaced by its value (see
    /// `runnable_u64`).
    pub fn into_runnable(&self, values: &Vec<(String, NumberLiteral)>) -> (r: Result<
        language::SourceU64,
        String,
    >)
        ensures
            message_result(r) == runnable_u64(*self, values@),
    {
        match self {
            SourceU64::Register(register) => Ok(language::SourceU64::Register(*register)),
            SourceU64::Literal(literal) => Ok(language::SourceU64::Literal(*literal)),
            SourceU64::Label(label) => match lookup(values, label.as_str()) {
                Some(NumberLiteral::U64(value)) => Ok(language::SourceU64::Literal(value)),
                Some(NumberLiteral::I64(value)) => Ok(language::SourceU64::Literal(value as u64)),
                Some(NumberLiteral::F64(_)) => {
                    let mut e = String::from_str(label.as_str());
                    e.append(" is an f64, expected u64");
                    Err(e)
                },
                None => Err(not_found_message(label.as_str())),
            },
        }
    }
}

impl SourceF64 {
    /// The operand with its name, if any, replaced by its value (see
    /// `runnable_f64`).
    pub fn into_runnable(&self, values: &Vec<(String, NumberLiteral)>) -> (r: Result<
        language::SourceF64,
        String,
    >)
        ensures
            message_result(r) == runnable_f64(*self, values@),
    {
        match self {
            SourceF64::Register(register) => Ok(language::SourceF64::Register(*register)),
            SourceF64::Literal(literal) => Ok(language::SourceF64::Literal(*literal)),
            SourceF64::Label(label) => match lookup(values, label.as_str()) {
                Some(NumberLiteral::U64(value)) => Ok(language::SourceF64::Literal(f64_bits_of_u64(value))),
                Some(NumberLiteral::I64(value)) => Ok(language::SourceF64::Literal(f64_bits_of_i64(value))),
                Some(NumberLiteral::F64(value)) => Ok(language::SourceF64::Literal(value)),
                None => Err(not_found_message(label.as_str())),
            },
        }
    }
}

/// Two integer operands made runnable (see `runnable_pair_u64`).
fn pair_u64(l: &SourceU64, r: &SourceU64, values: &Vec<(String, NumberLiteral)>) -> (p: Result<
    (language::SourceU64, language::SourceU64),
    String,
>)
    ensures
        message_result(p) == runnable_pair_u64(*l, *r, values@),
{
    match l.into_runnable(values) {
        Err(e) => Err(e),
        Ok(a) => match r.into_runnable(values) {
            Err(e) => Err(e),
            Ok(b) => Ok((a, b)),
        },
    }
}

/// Two floating-point operands made runnable (see `runnable_pair_f64`).
fn pair_f64(l: &SourceF64, r: &SourceF64, values: &Vec<(String, NumberLiteral)>) -> (p: Result<
    (language::SourceF64, language::SourceF64),
    String,
>)
    ensures
        message_result(p) == runnable_pair_f64(*l, *r, values@),
{
    match l.into_runnable(values) {
        Err(e) => Err(e),
        Ok(a) => match r.into_runnable(values) {
            Err(e) => Err(e),
            Ok(b) => Ok((a, b)),
        },
    }
}

/// The operands of an integer conditional jump made runnable.
fn jump_operands_u64(
    a: &SourceU64,
    l: &SourceU64,
    r: &SourceU64,
    values: &Vec<(String, NumberLiteral)>,
) -> (p: Result<(language::SourceU64, language::SourceU64, language::SourceU64), String>)
    ensures
        message_result(p) == runnable_jump_u64(*a, *l, *r, values@),
{
    match a.into_runnable(values) {
        Err(e) => Err(e),
        Ok(x) => match pair_u64(l, r, values) {
            Err(e) => Err(e),
            Ok((y, z)) => Ok((x, y, z)),
        },
    }
}

/// The operands of a floating-point conditional jump made runnable.
fn jump_operands_f64(
    a: &SourceU64,
    l: &SourceF64,
    r: &SourceF64,
    values: &Vec<(String, NumberLiteral)>,
) -> (p: Result<(language::SourceU64, language::SourceF64, language::SourceF64), String>)
    ensures
        message_result(p) == runnable_jump_f64(*a, *l, *r, values@),
{
    match a.into_runnable(values) {
        Err(e) => Err(e),
        Ok(x) => match pair_f64(l, r, values) {
            Err(e) => Err(e),
            Ok((y, z)) => Ok((x, y, z)),
        },
    }
}

impl Instruction {
    /// The machine instruction with every name replaced by its value among
    /// `values`, or the first error met, operands in the order written (see
    /// `runnable_of`). `set` has no machine counterpart and is not asked.
    pub fn into_runnable(&self, values: &Vec<(String, NumberLiteral)>) -> (r: Result<
        language::Instruction,
        String,
    >)
        requires
            !has_no_machine_form(*self),
        ensures
            message_result(r) == runnable_of(*self, values@),
    {
        match self {
            Instruction::AddU64 { destination, left, right } => match pair_u64(left, right, values) {
                Ok((l, r)) => Ok(language::Instruction::AddU64 { destination: *destination, left: l, right: r }),
                Err(e) => Err(e),
            },
            Instruction::SubU64 { destination, left, right } => match pair_u64(left, right, values) {
                Ok((l, r)) => Ok(language::Instruction::SubU64 { destination: *destination, left: l, right: r }),
                Err(e) => Err(e),
            },
            Instruction::MulU64 { destination, left, right } => match pair_u64(left, right, values) {
                Ok((l, r)) => Ok(language::Instruction::MulU64 { destination: *destination, left: l, right: r }),
                Err(e) => Err(e),
            },
            Instruction::DivU64 { destination, left, right } => match pair_u64(left, right, values) {
                Ok((l, r)) => Ok(language::Instruction::DivU64 { destination: *destination, left: l, right: r }),
                Err(e) => Err(e),
            },
            Instruction::AddF64 { destination, left, right } => match pair_f64(left, right, values) {
                Ok((l, r)) => Ok(language::Instruction::AddF64 { destination: *destination, left: l, right: r }),
                Err(e) => Err(e),
            },
            Instruction::SubF64 { destination, left, right } => match pair_f64(left, right, values) {
                Ok((l, r)) => Ok(language::Instruction::SubF64 { destination: *destination, left: l, right: r }),
                Err(e) => Err(e),
            },
            Instruction::MulF64 { destination, left, right } => match pair_f64(left, right, values) {
                Ok((l, r)) => Ok(language::Instruction::MulF64 { destination: *destination, left: l, right: r }),
                Err(e) => Err(e),
            },
            Instruction::DivF64 { destination, left, right } => match pair_f64(left, right, values) {
                Ok((l, r)) => Ok(language::Instruction::DivF64 { destination: *destination, left: l, right: r }),
                Err(e) => Err(e),
            },
            Instruction::Jump { address } => match address.into_runnable(values) {
                Ok(a) => Ok(language::Instruction::Jump { address: a }),
                Err(e) => Err(e),
            },
            Instruction::JumpEqualU64 { address, left, right } => match jump_operands_u64(address, left, right, values) {
                Ok((a, l, r)) => Ok(language::Instruction::JumpEqualU64 { address: a, left: l, right: r }),
                Err(e) => Err(e),
            },
            Instruction::JumpEqualF64 { address, left, right } => match jump_operands_f64(address, left, right, values) {
                Ok((a, l, r)) => Ok(language::Instruction::JumpEqualF64 { address: a, left: l, right: r }),
                Err(e) => Err(e),
            },
            Instruction::JumpNotEqualU64 { address, left, right } => match jump_operands_u64(address, left, right, values) {
                Ok((a, l, r)) => Ok(language::Instruction::JumpNotEqualU64 { address: a, left: l, right: r }),
                Err(e) => Err(e),
            },
            Instruction::JumpNotEqualF64 { address, left, right } => match jump_operands_f64(address, left, right, values) {
                Ok((a, l, r)) => Ok(language::Instruction::JumpNotEqualF64 { address: a, left: l, right: r }),
                Err(e) => Err(e),
            },
            Instruction::JumpLessThanU64 { address, left, right } => match jump_operands_u64(address, left, right, values) {
                Ok((a, l, r)) => Ok(language::Instruction::JumpLessThanU64 { address: a, left: l, right: r }),
                Err(e) => Err(e),
            },
            Instruction::JumpLessThanF64 { address, left, right } => match jump_operands_f64(address, left, right, values) {
                Ok((a, l, r)) => Ok(language::Instruction::JumpLessThanF64 { address: a, left: l, right: r }),
                Err(e) => Err(e),
            },
            Instruction::JumpLessThanOrEqualToU64 { address, left, right } => match jump_operands_u64(address, left, right, values) {
                Ok((a, l, r)) => Ok(language::Instruction::JumpLessThanOrEqualToU64 { address: a, left: l, right: r }),
                Err(e) => Err(e),
            },
            Instruction::JumpLessThanOrEqualToF64 { address, left, right } => match jump_operands_f64(address, left, right, values) {
                Ok((a, l, r)) => Ok(language::Instruction::JumpLessThanOrEqualToF64 { address: a, left: l, right: r }),
                Err(e) => Err(e),
            },
            Instruction::JumpGreaterThanU64 { address, left, right } => match jump_operands_u64(address, left, right, values) {
                Ok((a, l, r)) => Ok(language::Instruction::JumpGreaterThanU64 { address: a, left: l, right: r }),
                Err(e) => Err(e),
            },
            Instruction::JumpGreaterThanF64 { address, left, right } => match jump_operands_f64(address, left, right, values) {
                Ok((a, l, r)) => Ok(language::Instruction::JumpGreaterThanF64 { address: a, left: l, right: r }),
                Err(e) => Err(e),
            },
            Instruction::JumpGreaterThanOrEqualToU64 { address, left, right } => match jump_operands_u64(address, left, right, values) {
                Ok((a, l, r)) => Ok(language::Instruction::JumpGreaterThanOrEqualToU64 { address: a, left: l, right: r }),
                Err(e) => Err(e),
            },
            Instruction::JumpGreaterThanOrEqualToF64 { address, left, right } => match jump_operands_f64(address, left, right, values) {
                Ok((a, l, r)) => Ok(language::Instruction::JumpGreaterThanOrEqualToF64 { address: a, left: l, right: r }),
                Err(e) => Err(e),
            },
            Instruction::ShiftLeft { destination, source } => match source.into_runnable(values) {
                Ok(x) => Ok(language::Instruction::ShiftLeft { destination: *destination, source: x }),
                Err(e) => Err(e),
            },
            Instruction::ShiftRight { destination, source } => match source.into_runnable(values) {
                Ok(x) => Ok(language::Instruction::ShiftRight { destination: *destination, source: x }),
                Err(e) => Err(e),
            },
            Instruction::SetU64 { .. } | Instruction::SetF64 { .. } => {
                proof {
                    assert(false);
                }
                Err(String::new())
            },
        }
    }
}

/// A statement of an assembler program: an instruction, a label naming the
/// address of the next instruction, or a definition of a name by an
/// expression.
#[derive(Debug)]
pub enum Statement {
    Instruction(Instruction),
    Label(String),
    Definition(String, Box<AST>),
}

/// An assembled program, ready to run.
#[derive(Debug)]
pub struct Program {
    pub runnable_program: language::Program,
}

/// The instructions of `content`, in order.
pub open spec fn statement_instructions(content: Seq<Statement>) -> Seq<Instruction>
    decreases content.len(),
{
    if content.len() == 0 {
        Seq::empty()
    } else {
        let before = statement_instructions(content.drop_last());
        match content.last() {
            Statement::Instruction(i) => before.push(i),
            _ => before,
        }
    }
}

/// The labels of `content`, in order, each with the address of the
/// instruction after it: the number of instructions before it.
pub open spec fn label_values(content: Seq<Statement>) -> Seq<(String, NumberLiteral)>
    decreases content.len(),
{
    if content.len() == 0 {
        Seq::empty()
    } else {
        let before = label_values(content.drop_last());
        match content.last() {
            Statement::Label(l) => before.push(
                (l, NumberLiteral::U64(statement_instructions(content.drop_last()).len() as u64)),
            ),
            _ => before,
        }
    }
}

/// The definitions of `content`, in order.
pub open spec fn definitions(content: Seq<Statement>) -> Seq<(String, Box<AST>)>
    decreases content.len(),
{
    if content.len() == 0 {
        Seq::empty()
    } else {
        let before = definitions(content.drop_last());
        match content.last() {
            Statement::Definition(name, e) => before.push((name, e)),
            _ => before,
        }
    }
}

/// `values` followed by each definition of `defs` in turn, each evaluated
/// with the values before it; the first evaluation that gives no value
/// stops.
pub open spec fn defined(
    values: Seq<(String, NumberLiteral)>,
    defs: Seq<(String, Box<AST>)>,
    g: spec_fn(Arithmetic, FloatBits, FloatBits) -> FloatBits,
) -> Result<Seq<(String, NumberLiteral)>, Evaluation>
    decreases defs.len(),
{
    if defs.len() == 0 {
        Ok(values)
    } else {
        match defined(values, defs.drop_last(), g) {
            Err(x) => Err(x),
            Ok(vs) => match evaluation(*defs.last().1, vs, g) {
                Evaluation::Value(n) => Ok(vs.push((defs.last().0, n))),
                other => Err(other),
            },
        }
    }
}

/// Each instruction made runnable with `values`; the first error stops.
pub open spec fn runnable_all(is: Seq<Instruction>, values: Seq<(String, NumberLiteral)>) -> Result<
    Seq<language::Instruction>,
    Seq<char>,
>
    decreases is.len(),
{
    if is.len() == 0 {
        Ok(Seq::empty())
    } else {
        match runnable_all(is.drop_last(), values) {
            Err(e) => Err(e),
            Ok(rs) => match runnable_of(is.last(), values) {
                Ok(r) => Ok(rs.push(r)),
                Err(e) => Err(e),
            },
        }
    }
}

/// The message for a definition that names something with no value.
pub open spec fn evaluation_message(name: Seq<char>) -> Seq<char> {
    "faile to evaluate AST: NameNotFound("@ + debug_str_spec(name) + ")"@
}

/// The message for definitions that stopped: the name with no value.
pub open spec fn definition_error(d: Result<Seq<(String, NumberLiteral)>, Evaluation>) -> Seq<char> {
    match d {
        Err(Evaluation::Missing(s)) => evaluation_message(s),
        _ => Seq::empty(),
    }
}

/// The values of every name of `content`: its labels, then its definitions.
pub open spec fn program_values(
    content: Seq<Statement>,
    g: spec_fn(Arithmetic, FloatBits, FloatBits) -> FloatBits,
) -> Result<Seq<(String, NumberLiteral)>, Evaluation> {
    defined(label_values(content), definitions(content), g)
}

/// What assembling `content` gives: its instructions made runnable with the
/// values of its labels and definitions, or the first error.
pub open spec fn assembled_program(
    content: Seq<Statement>,
    g: spec_fn(Arithmetic, FloatBits, FloatBits) -> FloatBits,
) -> Result<Seq<language::Instruction>, Seq<char>> {
    match program_values(content, g) {
        Ok(values) => runnable_all(statement_instructions(content), values),
        Err(_) => Err(definition_error(program_values(content, g))),
    }
}

impl Program {
    /// Assembles `content`: labels take the address of the next
    /// instruction; definitions are then evaluated in order (floating-point
    /// arithmetic by `float`), each seeing the labels and the definitions
    /// before it; last, each instruction has its names replaced by their
    /// values. A name defined twice takes its last value. The first error
    /// is returned. `set`, which the machine lacks, and definitions whose
    /// integer arithmetic overflows are left out.
    pub fn new<F: Fn(Arithmetic, FloatBits, FloatBits) -> FloatBits>(
        content: Vec<Statement>,
        float: &F,
    ) -> (r: Result<Self, String>)
        requires
            is_float_function(*float),
            forall|k: int|
                0 <= k < statement_instructions(content@).len() ==> !has_no_machine_form(
                    #[trigger] statement_instructions(content@)[k],
                ),
            !(program_values(content@, float_function(*float)) matches Err(Evaluation::Overflow)),
        ensures
            match r {
                Ok(p) => assembled_program(content@, float_function(*float)) == Ok::<
                    Seq<language::Instruction>,
                    Seq<char>,
                >(p.runnable_program@),
                Err(e) => assembled_program(content@, float_function(*float)) == Err::<
                    Seq<language::Instruction>,
                    Seq<char>,
                >(e@),
            },
    {
        let ghost original = content@;
        let mut content = content;
        let mut values: Vec<(String, NumberLiteral)> = Vec::new();
        let mut instructions: Vec<Instruction> = Vec::new();
        let mut expressions: Vec<(String, Box<AST>)> = Vec::new();
        let ghost mut k: int = 0;
        while content.len() > 0
            invariant
                0 <= k <= original.len(),
                content@ == original.skip(k),
                instructions@ == statement_instructions(original.take(k)),
                values@ == label_values(original.take(k)),
                expressions@ == definitions(original.take(k)),
            decreases content.len(),
        {
            let item = content.remove(0);
            proof {
                assert(original.take(k + 1).drop_last() =~= original.take(k));
                assert(original.skip(k + 1) =~= original.skip(k).remove(0));
            }
            match item {
                Statement::Instruction(instruction) => {
                    instructions.push(instruction);
                },
                Statement::Label(label) => {
                    let address = instructions.len() as u64;
                    values.push((label, NumberLiteral::U64(address)));
                },
                Statement::Definition(name, expression) => {
                    expressions.push((name, expression));
                },
            }
            proof {
                k = k + 1;
            }
        }
        proof {
            assert(original.take(k) =~= original);
        }
        let values = match define_all(values, expressions, float) {
            Ok(values) => values,
            Err(e) => {
                return Err(e);
            },
        };
        let runnable = match runnable_instructions(&instructions, &values) {
            Ok(runnable) => runnable,
            Err(e) => {
                return Err(e);
            },
        };
        Ok(Program { runnable_program: language::Program::new(runnable) })
    }
}

/// `known` followed by each definition of `pending` in turn (see
/// `defined`); the message of the first name with no value otherwise.
#[verifier::spinoff_prover]
#[verifier::rlimit(80)]
fn define_all<F: Fn(Arithmetic, FloatBits, FloatBits) -> FloatBits>(
    known: Vec<(String, NumberLiteral)>,
    pending: Vec<(String, Box<AST>)>,
    float: &F,
) -> (r: Result<Vec<(String, NumberLiteral)>, String>)
    requires
        is_float_function(*float),
        !(defined(known@, pending@, float_function(*float)) matches Err(Evaluation::Overflow)),
    ensures
        match r {
            Ok(vs) => defined(known@, pending@, float_function(*float)) == Ok::<
                Seq<(String, NumberLiteral)>,
                Evaluation,
            >(vs@),
            Err(e) => {
                &&& defined(known@, pending@, float_function(*float)) is Err
                &&& e@ == definition_error(defined(known@, pending@, float_function(*float)))
            },
        },
{
    let ghost labels = known@;
    let ghost g = float_function(*float);
    let ghost defs = pending@;
    let mut values = known;
    let mut expressions = pending;
    let ghost mut j: int = 0;
    while expressions.len() > 0
        invariant
            0 <= j <= defs.len(),
            labels == known@,
            defs == pending@,
            expressions@ == defs.skip(j),
            is_float_function(*float),
            g == float_function(*float),
            !(defined(labels, defs, g) matches Err(Evaluation::Overflow)),
            defined(labels, defs.take(j), g) == Ok::<Seq<(String, NumberLiteral)>, Evaluation>(
                values@,
            ),
        decreases expressions.len(),
    {
        let (name, expression) = expressions.remove(0);
        proof {
            assert(defs.skip(j)[0] == defs[j]);
            assert(defs.take(j + 1).drop_last() =~= defs.take(j));
            assert(defs.take(j + 1).last() == defs[j]);
            assert(defs.skip(j + 1) =~= defs.skip(j).remove(0));
            lemma_defined_prefix(labels, defs, g, j + 1);
        }
        match expression.evaluate(&values, float) {
            Ok(value) => {
                values.push((name, value));
            },
            Err(EvaluateError::NameNotFound(missing)) => {
                proof {
                    assert(defined(labels, defs.take(j + 1), g) == Err::<
                        Seq<(String, NumberLiteral)>,
                        Evaluation,
                    >(Evaluation::Missing(missing@)));
                    lemma_defined_stops(labels, defs, g, j + 1);
                    assert(defined(labels, defs, g) is Err);
                }
                let mut e = String::from_str("faile to evaluate AST: NameNotFound(");
                e.append(debug_str(missing.as_str()).as_str());
                e.append(")");
                return Err(e);
            },
        }
        proof {
            j = j + 1;
        }
    }
    proof {
        assert(defs.take(j) =~= defs);
    }
    Ok(values)
}

/// Each instruction made runnable with `values` (see `runnable_all`).
fn runnable_instructions(instructions: &Vec<Instruction>, values: &Vec<(String, NumberLiteral)>) -> (r:
    Result<Vec<language::Instruction>, String>)
    requires
        forall|m: int| 0 <= m < instructions@.len() ==> !has_no_machine_form(#[trigger] instructions@[m]),
    ensures
        match r {
            Ok(v) => runnable_all(instructions@, values@) == Ok::<
                Seq<language::Instruction>,
                Seq<char>,
            >(v@),
            Err(e) => runnable_all(instructions@, values@) == Err::<
                Seq<language::Instruction>,
                Seq<char>,
            >(e@),
        },
{
    let ghost all = instructions@;
    let mut runnable: Vec<language::Instruction> = Vec::new();
    let mut i: usize = 0;
    while i < instructions.len()
        invariant
            i <= instructions.len(),
            instructions@ == all,
            forall|m: int| 0 <= m < all.len() ==> !has_no_machine_form(#[trigger] all[m]),
            runnable_all(all.take(i as int), values@) == Ok::<
                Seq<language::Instruction>,
                Seq<char>,
            >(runnable@),
        decreases instructions.len() - i,
    {
        proof {
            assert(all.take(i + 1).drop_last() =~= all.take(i as int));
            assert(all.take(i + 1).last() == all[i as int]);
        }
        match instructions[i].into_runnable(values) {
            Ok(x) => {
                runnable.push(x);
            },
            Err(e) => {
                proof {
                    lemma_runnable_stops(all, values@, i + 1);
                }
                return Err(e);
            },
        }
        i = i + 1;
    }
    proof {
        assert(all.take(i as int) =~= all);
    }
    Ok(runnable)
}

/// Once defining stops at a prefix, it stops there for the whole list.
pub proof fn lemma_defined_stops(
    values: Seq<(String, NumberLiteral)>,
    defs: Seq<(String, Box<AST>)>,
    g: spec_fn(Arithmetic, FloatBits, FloatBits) -> FloatBits,
    n: int,
)
    requires
        0 <= n <= defs.len(),
        defined(values, defs.take(n), g) is Err,
    ensures
        defined(values, defs, g) == defined(values, defs.take(n), g),
    decreases defs.len() - n,
{
    if n < defs.len() {
        assert(defs.take(n + 1).drop_last() =~= defs.take(n));
        lemma_defined_stops(values, defs, g, n + 1);
    } else {
        assert(defs.take(n) =~= defs);
    }
}

/// When defining the whole list does not overflow, no prefix does.
pub proof fn lemma_defined_prefix(
    values: Seq<(String, NumberLiteral)>,
    defs: Seq<(String, Box<AST>)>,
    g: spec_fn(Arithmetic, FloatBits, FloatBits) -> FloatBits,
    n: int,
)
    requires
        0 <= n <= defs.len(),
        !(defined(values, defs, g) matches Err(Evaluation::Overflow)),
    ensures
        !(defined(values, defs.take(n), g) matches Err(Evaluation::Overflow)),
{
    if defined(values, defs.take(n), g) is Err {
        lemma_defined_stops(values, defs, g, n);
    }
}

/// Defining a list adds one value per definition, named by it.
pub proof fn lemma_defined_names(
    values: Seq<(String, NumberLiteral)>,
    defs: Seq<(String, Box<AST>)>,
    g: spec_fn(Arithmetic, FloatBits, FloatBits) -> FloatBits,
)
    ensures
        defined(values, defs, g) matches Ok(vs) ==> vs.len() == values.len() + defs.len(),
    decreases defs.len(),
{
    if defs.len() > 0 {
        lemma_defined_names(values, defs.drop_last(), g);
    }
}

/// Once making instructions runnable stops at a prefix, it stops there for
/// the whole list.
pub proof fn lemma_runnable_stops(is: Seq<Instruction>, values: Seq<(String, NumberLiteral)>, n: int)
    requires
        0 <= n <= is.len(),
        runnable_all(is.take(n), values) is Err,
    ensures
        runnable_all(is, values) == runnable_all(is.take(n), values),
    decreases is.len() - n,
{
    if n < is.len() {
        assert(is.take(n + 1).drop_last() =~= is.take(n));
        lemma_runnable_stops(is, values, n + 1);
    } else {
        assert(is.take(n) =~= is);
    }
}

/// The instruction names are different texts.
proof fn lemma_names_differ()
    ensures
        "set"@ != "sl"@,
        "set"@ != "sr"@,
        "set"@ != "add"@,
        "set"@ != "sub"@,
        "set"@ != "mul"@,
        "set"@ != "div"@,
        "set"@ != "jmp"@,
        "set"@ != "jeq"@,
        "set"@ != "jne"@,
        "set"@ != "jlt"@,
        "set"@ != "jle"@,
        "set"@ != "jgt"@,
        "set"@ != "jge"@,
        "sl"@ != "sr"@,
        "sl"@ != "add"@,
        "sl"@ != "sub"@,
        "sl"@ != "mul"@,
        "sl"@ != "div"@,
        "sl"@ != "jmp"@,
        "sl"@ != "jeq"@,
        "sl"@ != "jne"@,
        "sl"@ != "jlt"@,
        "sl"@ != "jle"@,
        "sl"@ != "jgt"@,
        "sl"@ != "jge"@,
        "sr"@ != "add"@,
        "sr"@ != "sub"@,
        "sr"@ != "mul"@,
        "sr"@ != "div"@,
        "sr"@ != "jmp"@,
        "sr"@ != "jeq"@,
        "sr"@ != "jne"@,
        "sr"@ != "jlt"@,
        "sr"@ != "jle"@,
        "sr"@ != "jgt"@,
        "sr"@ != "jge"@,
        "add"@ != "sub"@,
        "add"@ != "mul"@,
        "add"@ != "div"@,
        "add"@ != "jmp"@,
        "add"@ != "jeq"@,
        "add"@ != "jne"@,
        "add"@ != "jlt"@,
        "add"@ != "jle"@,
        "add"@ != "jgt"@,
        "add"@ != "jge"@,
        "sub"@ != "mul"@,
        "sub"@ != "div"@,
        "sub"@ != "jmp"@,
        "sub"@ != "jeq"@,
        "sub"@ != "jne"@,
        "sub"@ != "jlt"@,
        "sub"@ != "jle"@,
        "sub"@ != "jgt"@,
        "sub"@ != "jge"@,
        "mul"@ != "div"@,
        "mul"@ != "jmp"@,
        "mul"@ != "jeq"@,
        "mul"@ != "jne"@,
        "mul"@ != "jlt"@,
        "mul"@ != "jle"@,
        "mul"@ != "jgt"@,
        "mul"@ != "jge"@,
        "div"@ != "jmp"@,
        "div"@ != "jeq"@,
        "div"@ != "jne"@,
        "div"@ != "jlt"@,
        "div"@ != "jle"@,
        "div"@ != "jgt"@,
        "div"@ != "jge"@,
        "jmp"@ != "jeq"@,
        "jmp"@ != "jne"@,
        "jmp"@ != "jlt"@,
        "jmp"@ != "jle"@,
        "jmp"@ != "jgt"@,
        "jmp"@ != "jge"@,
        "jeq"@ != "jne"@,
        "jeq"@ != "jlt"@,
        "jeq"@ != "jle"@,
        "jeq"@ != "jgt"@,
        "jeq"@ != "jge"@,
        "jne"@ != "jlt"@,
        "jne"@ != "jle"@,
        "jne"@ != "jgt"@,
        "jne"@ != "jge"@,
        "jlt"@ != "jle"@,
        "jlt"@ != "jgt"@,
        "jlt"@ != "jge"@,
        "jle"@ != "jgt"@,
        "jle"@ != "jge"@,
        "jgt"@ != "jge"@,
{
    reveal_strlit("set");
    reveal_strlit("sl");
    reveal_strlit("sr");
    reveal_strlit("add");
    reveal_strlit("sub");
    reveal_strlit("mul");
    reveal_strlit("div");
    reveal_strlit("jmp");
    reveal_strlit("jeq");
    reveal_strlit("jne");
    reveal_strlit("jlt");
    reveal_strlit("jle");
    reveal_strlit("jgt");
    reveal_strlit("jge");
    assert("set"@.len() != "sl"@.len());
    assert("set"@.len() != "sr"@.len());
    assert("set"@[0] != "add"@[0]);
    assert("set"@[1] != "sub"@[1]);
    assert("set"@[0] != "mul"@[0]);
    assert("set"@[0] != "div"@[0]);
    assert("set"@[0] != "jmp"@[0]);
    assert("set"@[0] != "jeq"@[0]);
    assert("set"@[0] != "jne"@[0]);
    assert("set"@[0] != "jlt"@[0]);
    assert("set"@[0] != "jle"@[0]);
    assert("set"@[0] != "jgt"@[0]);
    assert("set"@[0] != "jge"@[0]);
    assert("sl"@[1] != "sr"@[1]);
    assert("sl"@.len() != "add"@.len());
    assert("sl"@.len() != "sub"@.len());
    assert("sl"@.len() != "mul"@.len());
    assert("sl"@.len() != "div"@.len());
    assert("sl"@.len() != "jmp"@.len());
    assert("sl"@.len() != "jeq"@.len());
    assert("sl"@.len() != "jne"@.len());
    assert("sl"@.len() != "jlt"@.len());
    assert("sl"@.len() != "jle"@.len());
    assert("sl"@.len() != "jgt"@.len());
    assert("sl"@.len() != "jge"@.len());
    assert("sr"@.len() != "add"@.len());
    assert("sr"@.len() != "sub"@.len());
    assert("sr"@.len() != "mul"@.len());
    assert("sr"@.len() != "div"@.len());
    assert("sr"@.len() != "jmp"@.len());
    assert("sr"@.len() != "jeq"@.len());
    assert("sr"@.len() != "jne"@.len());
    assert("sr"@.len() != "jlt"@.len());
    assert("sr"@.len() != "jle"@.len());
    assert("sr"@.len() != "jgt"@.len());
    assert("sr"@.len() != "jge"@.len());
    assert("add"@[0] != "sub"@[0]);
    assert("add"@[0] != "mul"@[0]);
    assert("add"@[0] != "div"@[0]);
    assert("add"@[0] != "jmp"@[0]);
    assert("add"@[0] != "jeq"@[0]);
    assert("add"@[0] != "jne"@[0]);
    assert("add"@[0] != "jlt"@[0]);
    assert("add"@[0] != "jle"@[0]);
    assert("add"@[0] != "jgt"@[0]);
    assert("add"@[0] != "jge"@[0]);
    assert("sub"@[0] != "mul"@[0]);
    assert("sub"@[0] != "div"@[0]);
    assert("sub"@[0] != "jmp"@[0]);
    assert("sub"@[0] != "jeq"@[0]);
    assert("sub"@[0] != "jne"@[0]);
    assert("sub"@[0] != "jlt"@[0]);
    assert("sub"@[0] != "jle"@[0]);
    assert("sub"@[0] != "jgt"@[0]);
    assert("sub"@[0] != "jge"@[0]);
    assert("mul"@[0] != "div"@[0]);
    assert("mul"@[0] != "jmp"@[0]);
    assert("mul"@[0] != "jeq"@[0]);
    assert("mul"@[0] != "jne"@[0]);
    assert("mul"@[0] != "jlt"@[0]);
    assert("mul"@[0] != "jle"@[0]);
    assert("mul"@[0] != "jgt"@[0]);
    assert("mul"@[0] != "jge"@[0]);
    assert("div"@[0] != "jmp"@[0]);
    assert("div"@[0] != "jeq"@[0]);
    assert("div"@[0] != "jne"@[0]);
    assert("div"@[0] != "jlt"@[0]);
    assert("div"@[0] != "jle"@[0]);
    assert("div"@[0] != "jgt"@[0]);
    assert("div"@[0] != "jge"@[0]);
    assert("jmp"@[1] != "jeq"@[1]);
    assert("jmp"@[1] != "jne"@[1]);
    assert("jmp"@[1] != "jlt"@[1]);
    assert("jmp"@[1] != "jle"@[1]);
    assert("jmp"@[1] != "jgt"@[1]);
    assert("jmp"@[1] != "jge"@[1]);
    assert("jeq"@[1] != "jne"@[1]);
    assert("jeq"@[1] != "jlt"@[1]);
    assert("jeq"@[1] != "jle"@[1]);
    assert("jeq"@[1] != "jgt"@[1]);
    assert("jeq"@[1] != "jge"@[1]);
    assert("jne"@[1] != "jlt"@[1]);
    assert("jne"@[1] != "jle"@[1]);
    assert("jne"@[1] != "jgt"@[1]);
    assert("jne"@[1] != "jge"@[1]);
    assert("jlt"@[2] != "jle"@[2]);
    assert("jlt"@[1] != "jgt"@[1]);
    assert("jlt"@[1] != "jge"@[1]);
    assert("jle"@[1] != "jgt"@[1]);
    assert("jle"@[1] != "jge"@[1]);
    assert("jgt"@[2] != "jge"@[2]);
}

/// Each conditional jump name reads, on integer operands, as its own
/// comparison: `jeq` equal, `jne` not equal, `jlt` less than, `jle` at
/// most, `jgt` greater than (strictly), `jge` at least; address and
/// operands in the order written.
pub proof fn lemma_integer_jump_names(
    a: Argument,
    l: Argument,
    r: Argument,
    address: SourceU64,
    left: SourceU64,
    right: SourceU64,
)
    requires
        asm_source_u64_of(a) == Some(address),
        asm_source_u64_of(l) == Some(left),
        asm_source_u64_of(r) == Some(right),
    ensures
        assembled("jeq"@, seq![a, l, r]) == Some(Instruction::JumpEqualU64 { address, left, right }),
        assembled("jne"@, seq![a, l, r]) == Some(Instruction::JumpNotEqualU64 { address, left, right }),
        assembled("jlt"@, seq![a, l, r]) == Some(Instruction::JumpLessThanU64 { address, left, right }),
        assembled("jle"@, seq![a, l, r]) == Some(Instruction::JumpLessThanOrEqualToU64 { address, left, right }),
        assembled("jgt"@, seq![a, l, r]) == Some(Instruction::JumpGreaterThanU64 { address, left, right }),
        assembled("jge"@, seq![a, l, r]) == Some(Instruction::JumpGreaterThanOrEqualToU64 { address, left, right }),
{
    lemma_names_differ();
}

/// Where an operand does not read as an integer one, each conditional jump
/// name reads as its own floating-point comparison.
pub proof fn lemma_float_jump_names(a: Argument, l: Argument, r: Argument, address: SourceU64)
    requires
        asm_source_u64_of(a) == Some(address),
        !(asm_source_u64_of(l) is Some && asm_source_u64_of(r) is Some),
    ensures
        assembled("jeq"@, seq![a, l, r]) == Some(
            Instruction::JumpEqualF64 { address, left: asm_source_f64_of(l), right: asm_source_f64_of(r) },
        ),
        assembled("jne"@, seq![a, l, r]) == Some(
            Instruction::JumpNotEqualF64 { address, left: asm_source_f64_of(l), right: asm_source_f64_of(r) },
        ),
        assembled("jlt"@, seq![a, l, r]) == Some(
            Instruction::JumpLessThanF64 { address, left: asm_source_f64_of(l), right: asm_source_f64_of(r) },
        ),
        assembled("jle"@, seq![a, l, r]) == Some(
            Instruction::JumpLessThanOrEqualToF64 { address, left: asm_source_f64_of(l), right: asm_source_f64_of(r) },
        ),
        assembled("jgt"@, seq![a, l, r]) == Some(
            Instruction::JumpGreaterThanF64 { address, left: asm_source_f64_of(l), right: asm_source_f64_of(r) },
        ),
        assembled("jge"@, seq![a, l, r]) == Some(
            Instruction::JumpGreaterThanOrEqualToF64 { address, left: asm_source_f64_of(l), right: asm_source_f64_of(r) },
        ),
{
    lemma_names_differ();
}

/// Each arithmetic name reads, on an integer destination and integer
/// operands, as its own operation: `add` addition, `sub` subtraction, `mul`
/// multiplication, `div` division.
pub proof fn lemma_integer_arithmetic_names(
    d: Argument,
    l: Argument,
    r: Argument,
    destination: DestinationU64,
    left: SourceU64,
    right: SourceU64,
)
    requires
        destination_u64_of(argument_model(d)) == Some(destination),
        asm_source_u64_of(l) == Some(left),
        asm_source_u64_of(r) == Some(right),
    ensures
        assembled("add"@, seq![d, l, r]) == Some(Instruction::AddU64 { destination, left, right }),
        assembled("sub"@, seq![d, l, r]) == Some(Instruction::SubU64 { destination, left, right }),
        assembled("mul"@, seq![d, l, r]) == Some(Instruction::MulU64 { destination, left, right }),
        assembled("div"@, seq![d, l, r]) == Some(Instruction::DivU64 { destination, left, right }),
{
    lemma_names_differ();
}

/// Where the integer form does not apply but the destination is a
/// floating-point one, each arithmetic name reads as its own
/// floating-point operation.
pub proof fn lemma_float_arithmetic_names(d: Argument, l: Argument, r: Argument, destination: DestinationF64)
    requires
        !(destination_u64_of(argument_model(d)) is Some && asm_source_u64_of(l) is Some
            && asm_source_u64_of(r) is Some),
        destination_f64_of(argument_model(d)) == Some(destination),
    ensures
        assembled("add"@, seq![d, l, r]) == Some(
            Instruction::AddF64 { destination, left: asm_source_f64_of(l), right: asm_source_f64_of(r) },
        ),
        assembled("sub"@, seq![d, l, r]) == Some(
            Instruction::SubF64 { destination, left: asm_source_f64_of(l), right: asm_source_f64_of(r) },
        ),
        assembled("mul"@, seq![d, l, r]) == Some(
            Instruction::MulF64 { destination, left: asm_source_f64_of(l), right: asm_source_f64_of(r) },
        ),
        assembled("div"@, seq![d, l, r]) == Some(
            Instruction::DivF64 { destination, left: asm_source_f64_of(l), right: asm_source_f64_of(r) },
        ),
{
    lemma_names_differ();
}

/// `set`, `sl` and `sr` on an integer destination and source: a copy, a
/// shift left and a shift right; `set` on a floating-point destination (the
/// integer form not applying) copies a floating-point source; `jmp` on an
/// integer address jumps there.
pub proof fn lemma_two_operand_names(d: Argument, src: Argument)
    ensures
        destination_u64_of(argument_model(d)) is Some && asm_source_u64_of(src) is Some ==> {
            let destination = destination_u64_of(argument_model(d))->0;
            let source = asm_source_u64_of(src)->0;
            &&& assembled("set"@, seq![d, src]) == Some(Instruction::SetU64 { destination, source })
            &&& assembled("sl"@, seq![d, src]) == Some(Instruction::ShiftLeft { destination, source })
            &&& assembled("sr"@, seq![d, src]) == Some(Instruction::ShiftRight { destination, source })
        },
        !(destination_u64_of(argument_model(d)) is Some && asm_source_u64_of(src) is Some)
            && destination_f64_of(argument_model(d)) is Some ==> assembled("set"@, seq![d, src])
            == Some(
            Instruction::SetF64 {
                destination: destination_f64_of(argument_model(d))->0,
                source: asm_source_f64_of(src),
            },
        ),
        asm_source_u64_of(src) is Some ==> assembled("jmp"@, seq![src]) == Some(
            Instruction::Jump { address: asm_source_u64_of(src)->0 },
        ),
{
    lemma_names_differ();
}

/// Whether the machine operand `m` is what the integer operand `o` stands
/// for: the same register, the same literal, or the value of the label
/// (a signed one modulo 2^64).
pub open spec fn operand_u64(o: SourceU64, m: language::SourceU64, values: Seq<(String, NumberLiteral)>) -> bool {
    match o {
        SourceU64::Register(r) => m == language::SourceU64::Register(r),
        SourceU64::Literal(v) => m == language::SourceU64::Literal(v),
        SourceU64::Label(l) => match value_of(values, l@) {
            Some(NumberLiteral::U64(v)) => m == language::SourceU64::Literal(v),
            Some(NumberLiteral::I64(v)) => m == language::SourceU64::Literal(v as u64),
            _ => false,
        },
    }
}

/// Whether the machine operand `m` is what the floating-point operand `o`
/// stands for: the same register, the same literal, or the value of the
/// label (an integer one as the nearest double).
pub open spec fn operand_f64(o: SourceF64, m: language::SourceF64, values: Seq<(String, NumberLiteral)>) -> bool {
    match o {
        SourceF64::Register(r) => m == language::SourceF64::Register(r),
        SourceF64::Literal(v) => m == language::SourceF64::Literal(v),
        SourceF64::Label(l) => match value_of(values, l@) {
            Some(NumberLiteral::F64(b)) => m == language::SourceF64::Literal(b),
            Some(NumberLiteral::U64(v)) => m == language::SourceF64::Literal(
                FloatBits(nat_to_f64_bits(v as nat) as u64),
            ),
            Some(NumberLiteral::I64(v)) => m == language::SourceF64::Literal(
                FloatBits(int_to_f64_bits(v as int) as u64),
            ),
            None => false,
        },
    }
}

/// Whether the machine instruction `x` is the assembler instruction `i`
/// with its names replaced by their values: the same operation, the same
/// destination, each operand standing for the same value.
pub open spec fn carries_out(i: Instruction, x: language::Instruction, values: Seq<(String, NumberLiteral)>) -> bool {
    match (i, x) {
        (Instruction::AddU64 { destination: d, left: l, right: r }, language::Instruction::AddU64 { destination: d2, left: l2, right: r2 }) => d2 == d && operand_u64(l, l2, values) && operand_u64(r, r2, values),
        (Instruction::SubU64 { destination: d, left: l, right: r }, language::Instruction::SubU64 { destination: d2, left: l2, right: r2 }) => d2 == d && operand_u64(l, l2, values) && operand_u64(r, r2, values),
        (Instruction::MulU64 { destination: d, left: l, right: r }, language::Instruction::MulU64 { destination: d2, left: l2, right: r2 }) => d2 == d && operand_u64(l, l2, values) && operand_u64(r, r2, values),
        (Instruction::DivU64 { destination: d, left: l, right: r }, language::Instruction::DivU64 { destination: d2, left: l2, right: r2 }) => d2 == d && operand_u64(l, l2, values) && operand_u64(r, r2, values),
        (Instruction::AddF64 { destination: d, left: l, right: r }, language::Instruction::AddF64 { destination: d2, left: l2, right: r2 }) => d2 == d && operand_f64(l, l2, values) && operand_f64(r, r2, values),
        (Instruction::SubF64 { destination: d, left: l, right: r }, language::Instruction::SubF64 { destination: d2, left: l2, right: r2 }) => d2 == d && operand_f64(l, l2, values) && operand_f64(r, r2, values),
        (Instruction::MulF64 { destination: d, left: l, right: r }, language::Instruction::MulF64 { destination: d2, left: l2, right: r2 }) => d2 == d && operand_f64(l, l2, values) && operand_f64(r, r2, values),
        (Instruction::DivF64 { destination: d, left: l, right: r }, language::Instruction::DivF64 { destination: d2, left: l2, right: r2 }) => d2 == d && operand_f64(l, l2, values) && operand_f64(r, r2, values),
        (Instruction::Jump { address: a }, language::Instruction::Jump { address: a2 }) => operand_u64(a, a2, values),
        (Instruction::JumpEqualU64 { address: a, left: l, right: r }, language::Instruction::JumpEqualU64 { address: a2, left: l2, right: r2 }) => operand_u64(a, a2, values) && operand_u64(l, l2, values) && operand_u64(r, r2, values),
        (Instruction::JumpNotEqualU64 { address: a, left: l, right: r }, language::Instruction::JumpNotEqualU64 { address: a2, left: l2, right: r2 }) => operand_u64(a, a2, values) && operand_u64(l, l2, values) && operand_u64(r, r2, values),
        (Instruction::JumpLessThanU64 { address: a, left: l, right: r }, language::Instruction::JumpLessThanU64 { address: a2, left: l2, right: r2 }) => operand_u64(a, a2, values) && operand_u64(l, l2, values) && operand_u64(r, r2, values),
        (Instruction::JumpLessThanOrEqualToU64 { address: a, left: l, right: r }, language::Instruction::JumpLessThanOrEqualToU64 { address: a2, left: l2, right: r2 }) => operand_u64(a, a2, values) && operand_u64(l, l2, values) && operand_u64(r, r2, values),
        (Instruction::JumpGreaterThanU64 { address: a, left: l, right: r }, language::Instruction::JumpGreaterThanU64 { address: a2, left: l2, right: r2 }) => operand_u64(a, a2, values) && operand_u64(l, l2, values) && operand_u64(r, r2, values),
        (Instruction::JumpGreaterThanOrEqualToU64 { address: a, left: l, right: r }, language::Instruction::JumpGreaterThanOrEqualToU64 { address: a2, left: l2, right: r2 }) => operand_u64(a, a2, values) && operand_u64(l, l2, values) && operand_u64(r, r2, values),
        (Instruction::JumpEqualF64 { address: a, left: l, right: r }, language::Instruction::JumpEqualF64 { address: a2, left: l2, right: r2 }) => operand_u64(a, a2, values) && operand_f64(l, l2, values) && operand_f64(r, r2, values),
        (Instruction::JumpNotEqualF64 { address: a, left: l, right: r }, language::Instruction::JumpNotEqualF64 { address: a2, left: l2, right: r2 }) => operand_u64(a, a2, values) && operand_f64(l, l2, values) && operand_f64(r, r2, values),
        (Instruction::JumpLessThanF64 { address: a, left: l, right: r }, language::Instruction::JumpLessThanF64 { address: a2, left: l2, right: r2 }) => operand_u64(a, a2, values) && operand_f64(l, l2, values) && operand_f64(r, r2, values),
        (Instruction::JumpLessThanOrEqualToF64 { address: a, left: l, right: r }, language::Instruction::JumpLessThanOrEqualToF64 { address: a2, left: l2, right: r2 }) => operand_u64(a, a2, values) && operand_f64(l, l2, values) && operand_f64(r, r2, values),
        (Instruction::JumpGreaterThanF64 { address: a, left: l, right: r }, language::Instruction::JumpGreaterThanF64 { address: a2, left: l2, right: r2 }) => operand_u64(a, a2, values) && operand_f64(l, l2, values) && operand_f64(r, r2, values),
        (Instruction::JumpGreaterThanOrEqualToF64 { address: a, left: l, right: r }, language::Instruction::JumpGreaterThanOrEqualToF64 { address: a2, left: l2, right: r2 }) => operand_u64(a, a2, values) && operand_f64(l, l2, values) && operand_f64(r, r2, values),
        (Instruction::ShiftLeft { destination: d, source: x }, language::Instruction::ShiftLeft { destination: d2, source: x2 }) => d2 == d && operand_u64(x, x2, values),
        (Instruction::ShiftRight { destination: d, source: x }, language::Instruction::ShiftRight { destination: d2, source: x2 }) => d2 == d && operand_u64(x, x2, values),
        _ => false,
    }
}

/// Making an instruction runnable keeps its operation, destination and
/// operands: whatever it gives is the same instruction with each name
/// replaced by its value; it fails exactly when a name has no value, or an
/// integer operand names a floating-point value, and then the message
/// names it.
pub proof fn lemma_runnable_keeps_the_instruction(i: Instruction, values: Seq<(String, NumberLiteral)>)
    requires
        !has_no_machine_form(i),
    ensures
        runnable_of(i, values) matches Ok(x) ==> carries_out(i, x, values),
{
}

/// A label with no value is reported by name; an integer operand whose
/// label holds a floating-point value is reported by name too.
pub proof fn lemma_label_errors(l: String, values: Seq<(String, NumberLiteral)>)
    ensures
        value_of(values, l@) is None ==> runnable_u64(SourceU64::Label(l), values) == Err::<
            language::SourceU64,
            Seq<char>,
        >("label '"@ + l@ + "' not found in program"@),
        value_of(values, l@) is None ==> runnable_f64(SourceF64::Label(l), values) == Err::<
            language::SourceF64,
            Seq<char>,
        >("label '"@ + l@ + "' not found in program"@),
        value_of(values, l@) matches Some(NumberLiteral::F64(_)) ==> runnable_u64(
            SourceU64::Label(l),
            values,
        ) == Err::<language::SourceU64, Seq<char>>(l@ + " is an f64, expected u64"@),
{
}

/// Whether an integer operand has a value: a register, a literal, or a
/// label with an integer value.
pub open spec fn resolves_u64(o: SourceU64, values: Seq<(String, NumberLiteral)>) -> bool {
    match o {
        SourceU64::Label(l) => value_of(values, l@) matches Some(n) && !(n is F64),
        _ => true,
    }
}

/// Whether a floating-point operand has a value: a register, a literal, or
/// a label with any value.
pub open spec fn resolves_f64(o: SourceF64, values: Seq<(String, NumberLiteral)>) -> bool {
    match o {
        SourceF64::Label(l) => value_of(values, l@) is Some,
        _ => true,
    }
}

/// Whether every operand of `i` has a value.
pub open spec fn operands_resolve(i: Instruction, values: Seq<(String, NumberLiteral)>) -> bool {
    match i {
        Instruction::AddU64 { left, right, .. } => resolves_u64(left, values) && resolves_u64(right, values),
        Instruction::SubU64 { left, right, .. } => resolves_u64(left, values) && resolves_u64(right, values),
        Instruction::MulU64 { left, right, .. } => resolves_u64(left, values) && resolves_u64(right, values),
        Instruction::DivU64 { left, right, .. } => resolves_u64(left, values) && resolves_u64(right, values),
        Instruction::AddF64 { left, right, .. } => resolves_f64(left, values) && resolves_f64(right, values),
        Instruction::SubF64 { left, right, .. } => resolves_f64(left, values) && resolves_f64(right, values),
        Instruction::MulF64 { left, right, .. } => resolves_f64(left, values) && resolves_f64(right, values),
        Instruction::DivF64 { left, right, .. } => resolves_f64(left, values) && resolves_f64(right, values),
        Instruction::Jump { address } => resolves_u64(address, values),
        Instruction::JumpEqualU64 { address, left, right } => resolves_u64(address, values) && resolves_u64(left, values) && resolves_u64(right, values),
        Instruction::JumpNotEqualU64 { address, left, right } => resolves_u64(address, values) && resolves_u64(left, values) && resolves_u64(right, values),
        Instruction::JumpLessThanU64 { address, left, right } => resolves_u64(address, values) && resolves_u64(left, values) && resolves_u64(right, values),
        Instruction::JumpLessThanOrEqualToU64 { address, left, right } => resolves_u64(address, values) && resolves_u64(left, values) && resolves_u64(right, values),
        Instruction::JumpGreaterThanU64 { address, left, right } => resolves_u64(address, values) && resolves_u64(left, values) && resolves_u64(right, values),
        Instruction::JumpGreaterThanOrEqualToU64 { address, left, right } => resolves_u64(address, values) && resolves_u64(left, values) && resolves_u64(right, values),
        Instruction::JumpEqualF64 { address, left, right } => resolves_u64(address, values) && resolves_f64(left, values) && resolves_f64(right, values),
        Instruction::JumpNotEqualF64 { address, left, right } => resolves_u64(address, values) && resolves_f64(left, values) && resolves_f64(right, values),
        Instruction::JumpLessThanF64 { address, left, right } => resolves_u64(address, values) && resolves_f64(left, values) && resolves_f64(right, values),
        Instruction::JumpLessThanOrEqualToF64 { address, left, right } => resolves_u64(address, values) && resolves_f64(left, values) && resolves_f64(right, values),
        Instruction::JumpGreaterThanF64 { address, left, right } => resolves_u64(address, values) && resolves_f64(left, values) && resolves_f64(right, values),
        Instruction::JumpGreaterThanOrEqualToF64 { address, left, right } => resolves_u64(address, values) && resolves_f64(left, values) && resolves_f64(right, values),
        Instruction::ShiftLeft { source, .. } | Instruction::ShiftRight { source, .. } => resolves_u64(source, values),
        _ => false,
    }
}

/// An instruction becomes runnable exactly when every operand has a value.
pub proof fn lemma_runnable_when_resolved(i: Instruction, values: Seq<(String, NumberLiteral)>)
    requires
        !has_no_machine_form(i),
    ensures
        runnable_of(i, values) is Ok <==> operands_resolve(i, values),
{
}

/// A wrong number of arguments is never read as an instruction; the
/// message gives the instruction (as written in upper case), the number of
/// arguments it takes and the number found.
pub proof fn lemma_argument_counts(upper: Seq<char>, name: Seq<char>, args: Seq<Argument>)
    ensures
        args.len() != 2 ==> assembly_error("set"@, upper, name, argument_models(args)) == "expected 2 arguments for '"@
            + upper + "', found "@ + decimal(args.len()) && assembled("set"@, args) is None,
        args.len() != 2 ==> assembly_error("sl"@, upper, name, argument_models(args)) == "expected 2 arguments for '"@
            + upper + "', found "@ + decimal(args.len()) && assembled("sl"@, args) is None,
        args.len() != 2 ==> assembly_error("sr"@, upper, name, argument_models(args)) == "expected 2 arguments for '"@
            + upper + "', found "@ + decimal(args.len()) && assembled("sr"@, args) is None,
        args.len() != 3 ==> assembly_error("add"@, upper, name, argument_models(args)) == "expected 3 arguments for '"@
            + upper + "', found "@ + decimal(args.len()) && assembled("add"@, args) is None,
        args.len() != 3 ==> assembly_error("sub"@, upper, name, argument_models(args)) == "expected 3 arguments for '"@
            + upper + "', found "@ + decimal(args.len()) && assembled("sub"@, args) is None,
        args.len() != 3 ==> assembly_error("mul"@, upper, name, argument_models(args)) == "expected 3 arguments for '"@
            + upper + "', found "@ + decimal(args.len()) && assembled("mul"@, args) is None,
        args.len() != 3 ==> assembly_error("div"@, upper, name, argument_models(args)) == "expected 3 arguments for '"@
            + upper + "', found "@ + decimal(args.len()) && assembled("div"@, args) is None,
        args.len() != 3 ==> assembly_error("jeq"@, upper, name, argument_models(args)) == "expected 3 arguments for '"@
            + upper + "', found "@ + decimal(args.len()) && assembled("jeq"@, args) is None,
        args.len() != 3 ==> assembly_error("jne"@, upper, name, argument_models(args)) == "expected 3 arguments for '"@
            + upper + "', found "@ + decimal(args.len()) && assembled("jne"@, args) is None,
        args.len() != 3 ==> assembly_error("jlt"@, upper, name, argument_models(args)) == "expected 3 arguments for '"@
            + upper + "', found "@ + decimal(args.len()) && assembled("jlt"@, args) is None,
        args.len() != 3 ==> assembly_error("jle"@, upper, name, argument_models(args)) == "expected 3 arguments for '"@
            + upper + "', found "@ + decimal(args.len()) && assembled("jle"@, args) is None,
        args.len() != 3 ==> assembly_error("jgt"@, upper, name, argument_models(args)) == "expected 3 arguments for '"@
            + upper + "', found "@ + decimal(args.len()) && assembled("jgt"@, args) is None,
        args.len() != 3 ==> assembly_error("jge"@, upper, name, argument_models(args)) == "expected 3 arguments for '"@
            + upper + "', found "@ + decimal(args.len()) && assembled("jge"@, args) is None,
        args.len() != 1 ==> assembly_error("jmp"@, upper, name, argument_models(args)) == "expected 1 argument for '"@
            + upper + "', found "@ + decimal(args.len()) && assembled("jmp"@, args) is None,
{
    lemma_names_differ();
}

/// A name that is no instruction is never read as one; the message gives
/// the name as written.
pub proof fn lemma_unknown_names(m: Seq<char>, upper: Seq<char>, name: Seq<char>, args: Seq<Argument>)
    requires
        !is_two_operand(m),
        !is_arithmetic(m),
        m != "jmp"@,
        !is_conditional_jump(m),
    ensures
        assembled(m, args) is None,
        assembly_error(m, upper, name, argument_models(args)) == "unrecognized instruction: "@ + name,
{
}

} // verus!
