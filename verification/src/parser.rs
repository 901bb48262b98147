//! The assembler's source language: instructions with comma-separated
//! arguments and labels, read into a program of machine instructions.
//!
//! Floating-point values are held by their bits (`FloatBits`); a message
//! that shows a floating-point literal shows its bit pattern in decimal.

use vstd::prelude::*;

use vstd::hash_map::StringHashMap;
use vstd::string::StrSliceExecFns;

use crate::language::{
    ProgramPointer, readable_register_f64_named, readable_register_u64_named, writable_register_f64_named,
    writable_register_u64_named, DestinationF64, DestinationU64, FloatBits, Instruction,
    ReadableRegisterF64, ReadableRegisterU64, SourceF64, SourceU64, WritableRegisterF64,
    WritableRegisterU64,
};
use crate::strings::{
    chars_of, decimal, decimal_i64, decimal_u64, lowercase_spec, signed_decimal, str_eq, to_lowercase,
    to_uppercase, uppercase_spec,
};
use crate::chars::{is_white_space, is_white_space_spec};
use crate::text::{
    debug_str, debug_str_spec, digits_value, is_digit_spec, lemma_digits_value_grows,
    lemma_digits_value_nonnegative,
};

verus! {

/// A number written in the source.
#[derive(Debug, Clone, Copy, PartialEq, Eq)]
pub enum NumberLiteral {
    I64(i64),
    U64(u64),
    F64(FloatBits),
}

/// An argument of an instruction: a name or a number.
#[derive(Debug)]
pub enum Argument {
    Identifier(String),
    Number(NumberLiteral),
}

/// An argument as mathematical values.
pub enum ArgumentModel {
    Identifier(Seq<char>),
    Number(NumberLiteral),
}

/// The mathematical value of an argument.
pub open spec fn argument_model(a: Argument) -> ArgumentModel {
    match a {
        Argument::Identifier(s) => ArgumentModel::Identifier(s@),
        Argument::Number(n) => ArgumentModel::Number(n),
    }
}

/// The mathematical values of a list of arguments.
pub open spec fn argument_models(args: Seq<Argument>) -> Seq<ArgumentModel> {
    args.map_values(|a: Argument| argument_model(a))
}

/// How a number shows in a message, as `{:?}` shows it; a floating-point
/// literal by its bit pattern.
pub open spec fn number_debug(n: NumberLiteral) -> Seq<char> {
    match n {
        NumberLiteral::I64(v) => "I64("@ + signed_decimal(v as int) + ")"@,
        NumberLiteral::U64(v) => "U64("@ + decimal(v as nat) + ")"@,
        NumberLiteral::F64(b) => "F64("@ + decimal(b.0 as nat) + ")"@,
    }
}

/// How an argument shows in a message, as `{:?}` shows it.
pub open spec fn argument_debug(a: ArgumentModel) -> Seq<char> {
    match a {
        ArgumentModel::Identifier(s) => "Identifier("@ + debug_str_spec(s) + ")"@,
        ArgumentModel::Number(n) => "Number("@ + number_debug(n) + ")"@,
    }
}

/// The error for a name that is no register of the kind asked for.
pub open spec fn invalid_register(name: Seq<char>) -> Seq<char> {
    "Invalid register: "@ + name
}

/// An argument read as an integer operand: a readable integer register, or
/// an integer literal (a negative one taken modulo 2^64).
pub open spec fn source_u64_of(a: ArgumentModel) -> Option<SourceU64> {
    match a {
        ArgumentModel::Identifier(s) => match readable_register_u64_named(lowercase_spec(s)) {
            Some(r) => Some(SourceU64::Register(r)),
            None => None,
        },
        ArgumentModel::Number(NumberLiteral::U64(v)) => Some(SourceU64::Literal(v)),
        ArgumentModel::Number(NumberLiteral::I64(v)) => Some(SourceU64::Literal(v as u64)),
        ArgumentModel::Number(NumberLiteral::F64(_)) => None,
    }
}

/// An argument read as an integer destination: a writable integer register.
pub open spec fn destination_u64_of(a: ArgumentModel) -> Option<DestinationU64> {
    match a {
        ArgumentModel::Identifier(s) => match writable_register_u64_named(lowercase_spec(s)) {
            Some(r) => Some(DestinationU64::Register(r)),
            None => None,
        },
        ArgumentModel::Number(_) => None,
    }
}

/// An argument read as a floating-point operand: a readable floating-point
/// register, or a floating-point literal.
pub open spec fn source_f64_of(a: ArgumentModel) -> Option<SourceF64> {
    match a {
        ArgumentModel::Identifier(s) => match readable_register_f64_named(lowercase_spec(s)) {
            Some(r) => Some(SourceF64::Register(r)),
            None => None,
        },
        ArgumentModel::Number(NumberLiteral::F64(v)) => Some(SourceF64::Literal(v)),
        ArgumentModel::Number(_) => None,
    }
}

/// An argument read as a floating-point destination: a writable
/// floating-point register.
pub open spec fn destination_f64_of(a: ArgumentModel) -> Option<DestinationF64> {
    match a {
        ArgumentModel::Identifier(s) => match writable_register_f64_named(lowercase_spec(s)) {
            Some(r) => Some(DestinationF64::Register(r)),
            None => None,
        },
        ArgumentModel::Number(_) => None,
    }
}

impl Argument {
    /// The argument as an integer operand; for a name that is no readable
    /// integer register, an error naming it; for a floating-point literal, an
    /// error showing it.
    pub fn try_into_source_u64(&self) -> (r: Result<SourceU64, String>)
        ensures
            match r {
                Ok(s) => source_u64_of(argument_model(*self)) == Some(s),
                Err(e) => source_u64_of(argument_model(*self)) is None && e@ == match *self {
                    Argument::Identifier(s) => invalid_register(s@),
                    Argument::Number(n) => "expected a u64 literal, found: "@ + number_debug(n),
                },
            },
    {
        match self {
            Argument::Identifier(s) => match ReadableRegisterU64::try_from(s.as_str()) {
                Ok(r) => Ok(SourceU64::Register(r)),
                Err(e) => Err(e),
            },
            Argument::Number(NumberLiteral::U64(v)) => Ok(SourceU64::Literal(*v)),
            Argument::Number(NumberLiteral::I64(v)) => Ok(SourceU64::Literal(*v as u64)),
            Argument::Number(n) => {
                let mut m = String::from_str("expected a u64 literal, found: ");
                m.append(number_to_debug(n).as_str());
                Err(m)
            },
        }
    }

    /// The argument as an integer destination; for a name that is no
    /// writable integer register, an error naming it; for a number, an error
    /// showing it.
    pub fn try_into_destination_u64(&self) -> (r: Result<DestinationU64, String>)
        ensures
            match r {
                Ok(d) => destination_u64_of(argument_model(*self)) == Some(d),
                Err(e) => destination_u64_of(argument_model(*self)) is None && e@ == match *self {
                    Argument::Identifier(s) => invalid_register(s@),
                    Argument::Number(n) => "expected a writable u64 register, found: "@
                        + number_debug(n),
                },
            },
    {
        match self {
            Argument::Identifier(s) => match WritableRegisterU64::try_from(s.as_str()) {
                Ok(r) => Ok(DestinationU64::Register(r)),
                Err(e) => Err(e),
            },
            Argument::Number(n) => {
                let mut m = String::from_str("expected a writable u64 register, found: ");
                m.append(number_to_debug(n).as_str());
                Err(m)
            },
        }
    }

    /// The argument as a floating-point operand; for a name that is no
    /// readable floating-point register, an error naming it; for an integer
    /// literal, an error showing it.
    pub fn try_into_source_f64(&self) -> (r: Result<SourceF64, String>)
        ensures
            match r {
                Ok(s) => source_f64_of(argument_model(*self)) == Some(s),
                Err(e) => source_f64_of(argument_model(*self)) is None && e@ == match *self {
                    Argument::Identifier(s) => invalid_register(s@),
                    Argument::Number(n) => "expected a f64 literal, found: "@ + number_debug(n),
                },
            },
    {
        match self {
            Argument::Identifier(s) => match ReadableRegisterF64::try_from(s.as_str()) {
                Ok(r) => Ok(SourceF64::Register(r)),
                Err(e) => Err(e),
            },
            Argument::Number(NumberLiteral::F64(v)) => Ok(SourceF64::Literal(*v)),
            Argument::Number(n) => {
                let mut m = String::from_str("expected a f64 literal, found: ");
                m.append(number_to_debug(n).as_str());
                Err(m)
            },
        }
    }

    /// The argument as a floating-point destination; for a name that is no
    /// writable floating-point register, an error naming it; for a number,
    /// an error showing it.
    pub fn try_into_destination_f64(&self) -> (r: Result<DestinationF64, String>)
        ensures
            match r {
                Ok(d) => destination_f64_of(argument_model(*self)) == Some(d),
                Err(e) => destination_f64_of(argument_model(*self)) is None && e@ == match *self {
                    Argument::Identifier(s) => invalid_register(s@),
                    Argument::Number(n) => "expected a writable f64 register, found: "@
                        + number_debug(n),
                },
            },
    {
        match self {
            Argument::Identifier(s) => match WritableRegisterF64::try_from(s.as_str()) {
                Ok(r) => Ok(DestinationF64::Register(r)),
                Err(e) => Err(e),
            },
            Argument::Number(n) => {
                let mut m = String::from_str("expected a writable f64 register, found: ");
                m.append(number_to_debug(n).as_str());
                Err(m)
            },
        }
    }
}

/// The text of `number_debug`.
fn number_to_debug(n: &NumberLiteral) -> (r: String)
    ensures
        r@ == number_debug(*n),
{
    let (mut m, digits) = match n {
        NumberLiteral::I64(v) => (String::from_str("I64("), decimal_i64(*v)),
        NumberLiteral::U64(v) => (String::from_str("U64("), decimal_u64(*v)),
        NumberLiteral::F64(b) => (String::from_str("F64("), decimal_u64(b.0)),
    };
    m.append(digits.as_str());
    m.append(")");
    proof {
        reveal_strlit(")");
    }
    m
}

/// The text of `argument_debug`.
pub(crate) fn argument_to_debug(a: &Argument) -> (r: String)
    ensures
        r@ == argument_debug(argument_model(*a)),
{
    match a {
        Argument::Identifier(s) => {
            let mut m = String::from_str("Identifier(");
            m.append(debug_str(s.as_str()).as_str());
            m.append(")");
            m
        },
        Argument::Number(n) => {
            let mut m = String::from_str("Number(");
            m.append(number_to_debug(n).as_str());
            m.append(")");
            m
        },
    }
}

/// An instruction as written: its name and its arguments.
#[derive(Debug)]
pub struct UnvalidatedInstruction {
    pub instruction: String,
    pub arguments: Vec<Argument>,
}

/// An instruction that was read into a machine instruction, or the reason
/// it could not be.
#[derive(Debug)]
pub enum ValidInstruction {
    Valid(Instruction),
    Invalid { instruction: UnvalidatedInstruction, error: String },
}

/// Whether `m` names one of the four arithmetic instructions.
pub open spec fn is_arithmetic(m: Seq<char>) -> bool {
    m == "add"@ || m == "sub"@ || m == "mul"@ || m == "div"@
}

/// The integer form of the arithmetic instruction `m`.
pub open spec fn arithmetic_u64(
    m: Seq<char>,
    destination: DestinationU64,
    left: SourceU64,
    right: SourceU64,
) -> Instruction {
    if m == "add"@ {
        Instruction::AddU64 { destination, left, right }
    } else if m == "sub"@ {
        Instruction::SubU64 { destination, left, right }
    } else if m == "mul"@ {
        Instruction::MulU64 { destination, left, right }
    } else {
        Instruction::DivU64 { destination, left, right }
    }
}

/// The floating-point form of the arithmetic instruction `m`.
pub open spec fn arithmetic_f64(
    m: Seq<char>,
    destination: DestinationF64,
    left: SourceF64,
    right: SourceF64,
) -> Instruction {
    if m == "add"@ {
        Instruction::AddF64 { destination, left, right }
    } else if m == "sub"@ {
        Instruction::SubF64 { destination, left, right }
    } else if m == "mul"@ {
        Instruction::MulF64 { destination, left, right }
    } else {
        Instruction::DivF64 { destination, left, right }
    }
}

/// An arithmetic instruction: the integer form when all three arguments
/// read as integer ones, else the floating-point form when all three read as
/// floating-point ones.
pub open spec fn arithmetic_of(m: Seq<char>, d: ArgumentModel, l: ArgumentModel, r: ArgumentModel) -> Option<
    Instruction,
> {
    if destination_u64_of(d) is Some && source_u64_of(l) is Some && source_u64_of(r) is Some {
        Some(arithmetic_u64(m, destination_u64_of(d)->0, source_u64_of(l)->0, source_u64_of(r)->0))
    } else if destination_f64_of(d) is Some && source_f64_of(l) is Some && source_f64_of(r) is Some {
        Some(arithmetic_f64(m, destination_f64_of(d)->0, source_f64_of(l)->0, source_f64_of(r)->0))
    } else {
        None
    }
}

/// The machine instruction that the name `m` (in lowercase) with arguments
/// `args` stands for, if any.
pub open spec fn instruction_of(m: Seq<char>, args: Seq<ArgumentModel>) -> Option<Instruction> {
    if is_arithmetic(m) {
        if args.len() == 3 {
            arithmetic_of(m, args[0], args[1], args[2])
        } else {
            None
        }
    } else if m == "jmp"@ {
        if args.len() == 1 && source_u64_of(args[0]) is Some {
            Some(Instruction::Jump { address: source_u64_of(args[0])->0 })
        } else {
            None
        }
    } else {
        None
    }
}

/// Why the instruction `name`, whose lowercase form is `m` and uppercase
/// form is `upper`, with arguments `args` is rejected.
pub open spec fn rejection(
    m: Seq<char>,
    upper: Seq<char>,
    name: Seq<char>,
    args: Seq<ArgumentModel>,
) -> Seq<char> {
    if is_arithmetic(m) {
        if args.len() == 3 {
            "invalid arguments for '"@ + upper + "': destination: "@ + argument_debug(args[0])
                + ", left: "@ + argument_debug(args[1]) + ", right: "@ + argument_debug(args[2])
        } else {
            "expected 3 arguments for '"@ + upper + "', found "@ + decimal(args.len())
        }
    } else if m == "jmp"@ {
        if args.len() == 1 {
            "invalid argument for '"@ + upper + "': address: "@ + argument_debug(args[0])
        } else {
            "expected 1 argument for '"@ + upper + "', found "@ + decimal(args.len())
        }
    } else {
        "unrecognized instruction: "@ + name
    }
}

/// Why the instruction `name` with arguments `args` is rejected.
pub open spec fn instruction_error(name: Seq<char>, args: Seq<ArgumentModel>) -> Seq<char> {
    rejection(lowercase_spec(name), uppercase_spec(name), name, args)
}

/// Whether `v` is what validating `u` gives, when the lowercase form of its
/// name is `m` and the uppercase form is `upper`.
pub open spec fn validates_with(
    m: Seq<char>,
    upper: Seq<char>,
    u: UnvalidatedInstruction,
    v: ValidInstruction,
) -> bool {
    match v {
        ValidInstruction::Valid(i) => instruction_of(m, argument_models(u.arguments@)) == Some(i),
        ValidInstruction::Invalid { instruction, error } => {
            &&& instruction_of(m, argument_models(u.arguments@)) is None
            &&& instruction == u
            &&& error@ == rejection(m, upper, u.instruction@, argument_models(u.arguments@))
        },
    }
}

/// Whether `v` is what validating `u` gives.
pub open spec fn validates_to(u: UnvalidatedInstruction, v: ValidInstruction) -> bool {
    validates_with(lowercase_spec(u.instruction@), uppercase_spec(u.instruction@), u, v)
}

impl ValidInstruction {
    /// Reads an instruction as written: `add`, `sub`, `mul` and `div` (in
    /// any case) with a destination and two operands, integer or
    /// floating-point; `jmp` with an address. Anything else is rejected with
    /// a message.
    pub fn new(u: UnvalidatedInstruction) -> (r: Self)
        ensures
            validates_to(u, r),
    {
        let lower = to_lowercase(u.instruction.as_str());
        let upper = to_uppercase(u.instruction.as_str());
        validate_named(lower.as_str(), upper.as_str(), u)
    }
}

/// Validates `u` given the lowercase form `m` of its name, which decides the
/// instruction, and the uppercase form `upper`, which messages show.
pub fn validate_named(m: &str, upper: &str, u: UnvalidatedInstruction) -> (r: ValidInstruction)
    ensures
        validates_with(m@, upper@, u, r),
{
    let n = u.arguments.len();
    if str_eq(m, "add") || str_eq(m, "sub") || str_eq(m, "mul") || str_eq(m, "div") {
        if n == 3 {
            match arithmetic(m, &u.arguments[0], &u.arguments[1], &u.arguments[2]) {
                Some(i) => ValidInstruction::Valid(i),
                None => {
                    let mut e = String::from_str("invalid arguments for '");
                    e.append(upper);
                    e.append("': destination: ");
                    e.append(argument_to_debug(&u.arguments[0]).as_str());
                    e.append(", left: ");
                    e.append(argument_to_debug(&u.arguments[1]).as_str());
                    e.append(", right: ");
                    e.append(argument_to_debug(&u.arguments[2]).as_str());
                    ValidInstruction::Invalid { instruction: u, error: e }
                },
            }
        } else {
            let e = count_error("expected 3 arguments for '", upper, n);
            ValidInstruction::Invalid { instruction: u, error: e }
        }
    } else if str_eq(m, "jmp") {
        if n == 1 {
            match u.arguments[0].try_into_source_u64() {
                Ok(address) => ValidInstruction::Valid(Instruction::Jump { address }),
                Err(_) => {
                    let mut e = String::from_str("invalid argument for '");
                    e.append(upper);
                    e.append("': address: ");
                    e.append(argument_to_debug(&u.arguments[0]).as_str());
                    ValidInstruction::Invalid { instruction: u, error: e }
                },
            }
        } else {
            let e = count_error("expected 1 argument for '", upper, n);
            ValidInstruction::Invalid { instruction: u, error: e }
        }
    } else {
        let mut e = String::from_str("unrecognized instruction: ");
        e.append(u.instruction.as_str());
        ValidInstruction::Invalid { instruction: u, error: e }
    }
}

/// `head`, `upper`, `', found ` and the count `n`.
pub(crate) fn count_error(head: &str, upper: &str, n: usize) -> (r: String)
    ensures
        r@ == head@ + upper@ + "', found "@ + decimal(n as nat),
{
    let mut e = String::from_str(head);
    e.append(upper);
    e.append("', found ");
    e.append(decimal_u64(n as u64).as_str());
    e
}

/// The arithmetic instruction `m` on these arguments (see `arithmetic_of`).
fn arithmetic(m: &str, d: &Argument, l: &Argument, r: &Argument) -> (i: Option<Instruction>)
    requires
        is_arithmetic(m@),
    ensures
        i == arithmetic_of(m@, argument_model(*d), argument_model(*l), argument_model(*r)),
{
    if let (Ok(destination), Ok(left), Ok(right)) = (
        d.try_into_destination_u64(),
        l.try_into_source_u64(),
        r.try_into_source_u64(),
    ) {
        if str_eq(m, "add") {
            Some(Instruction::AddU64 { destination, left, right })
        } else if str_eq(m, "sub") {
            Some(Instruction::SubU64 { destination, left, right })
        } else if str_eq(m, "mul") {
            Some(Instruction::MulU64 { destination, left, right })
        } else {
            Some(Instruction::DivU64 { destination, left, right })
        }
    } else if let (Ok(destination), Ok(left), Ok(right)) = (
        d.try_into_destination_f64(),
        l.try_into_source_f64(),
        r.try_into_source_f64(),
    ) {
        if str_eq(m, "add") {
            Some(Instruction::AddF64 { destination, left, right })
        } else if str_eq(m, "sub") {
            Some(Instruction::SubF64 { destination, left, right })
        } else if str_eq(m, "mul") {
            Some(Instruction::MulF64 { destination, left, right })
        } else {
            Some(Instruction::DivF64 { destination, left, right })
        }
    } else {
        None
    }
}

/// A statement of a program once read: an instruction, or a label naming
/// the address of the next instruction.
#[derive(Debug)]
pub enum LabelOrInstruction {
    Instruction(Instruction),
    Label(String),
}

/// A statement as mathematical values.
pub enum ItemModel {
    Instruction(Instruction),
    Label(Seq<char>),
}

/// The mathematical value of a statement.
pub open spec fn item_model(i: LabelOrInstruction) -> ItemModel {
    match i {
        LabelOrInstruction::Instruction(x) => ItemModel::Instruction(x),
        LabelOrInstruction::Label(l) => ItemModel::Label(l@),
    }
}

/// The instructions among `items`, in order.
pub open spec fn instructions_of(items: Seq<ItemModel>) -> Seq<Instruction>
    decreases items.len(),
{
    if items.len() == 0 {
        Seq::empty()
    } else {
        let rest = instructions_of(items.drop_last());
        match items.last() {
            ItemModel::Instruction(i) => rest.push(i),
            ItemModel::Label(_) => rest,
        }
    }
}

/// Each label among `items` with the address of the first instruction after
/// it; a label given twice keeps the later address.
pub open spec fn labels_of(items: Seq<ItemModel>) -> Map<Seq<char>, ProgramPointer>
    decreases items.len(),
{
    if items.len() == 0 {
        Map::empty()
    } else {
        let rest = labels_of(items.drop_last());
        match items.last() {
            ItemModel::Instruction(_) => rest,
            ItemModel::Label(l) => rest.insert(
                l,
                ProgramPointer(instructions_of(items.drop_last()).len() as usize),
            ),
        }
    }
}

/// There are no more instructions than statements.
proof fn lemma_instructions_of_len(items: Seq<ItemModel>)
    ensures
        instructions_of(items).len() <= items.len(),
    decreases items.len(),
{
    if items.len() > 0 {
        lemma_instructions_of_len(items.drop_last());
    }
}

/// A program read from source: its instructions and where its labels point.
pub struct Program {
    pub labels: StringHashMap<ProgramPointer>,
    pub instructions: Vec<Instruction>,
}

impl Program {
    /// Collects the instructions in order, and gives each label the address
    /// of the instruction that follows it.
    pub fn new(content: Vec<LabelOrInstruction>) -> (r: Self)
        ensures
            r.instructions@ == instructions_of(content@.map_values(|i| item_model(i))),
            r.labels@ == labels_of(content@.map_values(|i| item_model(i))),
    {
        let ghost items = content@.map_values(|i| item_model(i));
        let mut labels: StringHashMap<ProgramPointer> = StringHashMap::new();
        let mut instructions: Vec<Instruction> = Vec::new();
        let mut next_address = ProgramPointer(0);
        let mut k: usize = 0;
        while k < content.len()
            invariant
                k <= content.len(),
                items == content@.map_values(|i| item_model(i)),
                instructions@ == instructions_of(items.take(k as int)),
                labels@ == labels_of(items.take(k as int)),
                next_address.0 == instructions@.len(),
            decreases content.len() - k,
        {
            proof {
                lemma_instructions_of_len(items.take(k as int));
                assert(items.take(k as int + 1).drop_last() =~= items.take(k as int));
            }
            match &content[k] {
                LabelOrInstruction::Instruction(instruction) => {
                    instructions.push(*instruction);
                    next_address.advance();
                },
                LabelOrInstruction::Label(label) => {
                    labels.insert(label.clone(), next_address);
                },
            }
            k = k + 1;
        }
        proof {
            assert(items.take(content.len() as int) =~= items);
        }
        Program { labels, instructions }
    }
}

/// Whether `c` may start a name: an ASCII letter or `_`.
pub open spec fn is_name_start(c: char) -> bool {
    ('a' <= c && c <= 'z') || ('A' <= c && c <= 'Z') || c == '_'
}

/// Whether `c` may continue a name: an ASCII letter, digit or `_`.
pub open spec fn is_name_char(c: char) -> bool {
    is_name_start(c) || is_digit_spec(c)
}

/// The end of the run of white space that starts at `i`.
pub open spec fn space_end(s: Seq<char>, i: int) -> int
    decreases s.len() - i,
{
    if 0 <= i < s.len() && is_white_space_spec(s[i]) {
        space_end(s, i + 1)
    } else {
        i
    }
}

/// The end of the run of name characters that starts at `i`.
pub open spec fn name_chars_end(s: Seq<char>, i: int) -> int
    decreases s.len() - i,
{
    if 0 <= i < s.len() && is_name_char(s[i]) {
        name_chars_end(s, i + 1)
    } else {
        i
    }
}

/// The end of the run of decimal digits that starts at `i`.
pub open spec fn digits_end(s: Seq<char>, i: int) -> int
    decreases s.len() - i,
{
    if 0 <= i < s.len() && is_digit_spec(s[i]) {
        digits_end(s, i + 1)
    } else {
        i
    }
}

/// The end of the name that starts at `i`, if one does.
pub open spec fn name_end(s: Seq<char>, i: int) -> Option<int> {
    if 0 <= i < s.len() && is_name_start(s[i]) {
        Some(name_chars_end(s, i + 1))
    } else {
        None
    }
}

/// The number that starts at `i` and where it ends: an `i64` (an optional
/// minus sign and decimal digits, in range) if it reads as one, else a `u64`
/// (decimal digits, in range).
pub open spec fn number_at(s: Seq<char>, i: int) -> Option<(NumberLiteral, int)> {
    let negative = 0 <= i < s.len() && s[i] == '-';
    let j = if negative {
        i + 1
    } else {
        i
    };
    let k = digits_end(s, j);
    let v = digits_value(s.subrange(j, k));
    if j < k && (if negative {
        v <= 0x8000_0000_0000_0000
    } else {
        v <= i64::MAX
    }) {
        Some(
            (
                NumberLiteral::I64(
                    (if negative {
                        -v
                    } else {
                        v
                    }) as i64,
                ),
                k,
            ),
        )
    } else if !negative && j < k && v <= u64::MAX {
        Some((NumberLiteral::U64(v as u64), k))
    } else {
        None
    }
}

/// The argument that starts at `i` and where it ends: a name if one starts
/// there, else a number.
pub open spec fn argument_at(s: Seq<char>, i: int) -> Option<(ArgumentModel, int)> {
    match name_end(s, i) {
        Some(e) => Some((ArgumentModel::Identifier(s.subrange(i, e)), e)),
        None => match number_at(s, i) {
            Some((n, e)) => Some((ArgumentModel::Number(n), e)),
            None => None,
        },
    }
}

/// An argument with the white space around it.
pub open spec fn padded_argument(s: Seq<char>, i: int) -> Option<(ArgumentModel, int)> {
    match argument_at(s, space_end(s, i)) {
        Some((a, e)) => Some((a, space_end(s, e))),
        None => None,
    }
}

/// `prefix` put before the arguments of `r`.
pub open spec fn extend(prefix: Seq<ArgumentModel>, r: (Seq<ArgumentModel>, int)) -> (
    Seq<ArgumentModel>,
    int,
) {
    (prefix + r.0, r.1)
}

/// The arguments that follow at `i`, each after a comma, and where they
/// end. A comma that is not followed by an argument ends the list before
/// the comma.
pub open spec fn more_arguments(s: Seq<char>, i: int) -> (Seq<ArgumentModel>, int)
    decreases s.len() - i,
{
    if 0 <= i < s.len() && s[i] == ',' {
        match padded_argument(s, i + 1) {
            Some((a, e)) => {
                proof {
                    lemma_padded_argument_progress(s, i + 1);
                }
                extend(seq![a], more_arguments(s, e))
            },
            None => (Seq::empty(), i),
        }
    } else {
        (Seq::empty(), i)
    }
}

/// The runs of white space, name characters and digits that start in a
/// text end in it, no earlier than they start.
pub proof fn lemma_run_ends(s: Seq<char>, i: int)
    requires
        0 <= i <= s.len(),
    ensures
        i <= space_end(s, i) <= s.len(),
        i <= name_chars_end(s, i) <= s.len(),
        i <= digits_end(s, i) <= s.len(),
    decreases s.len() - i,
{
    if i < s.len() {
        lemma_run_ends(s, i + 1);
    }
}

/// An argument is never empty and ends within the text.
pub proof fn lemma_padded_argument_progress(s: Seq<char>, i: int)
    requires
        0 <= i <= s.len(),
    ensures
        padded_argument(s, i) matches Some((_, e)) ==> i < e <= s.len(),
{
    lemma_run_ends(s, i);
    let j = space_end(s, i);
    lemma_run_ends(s, j);
    if j < s.len() {
        lemma_run_ends(s, j + 1);
    }
    if let Some((_, e)) = argument_at(s, j) {
        lemma_run_ends(s, e);
    }
}

/// The arguments after a first one end within the text, no earlier than
/// they start.
pub proof fn lemma_more_arguments_bounds(s: Seq<char>, i: int)
    requires
        0 <= i <= s.len(),
    ensures
        i <= more_arguments(s, i).1 <= s.len(),
    decreases s.len() - i,
{
    if 0 <= i < s.len() && s[i] == ',' {
        lemma_padded_argument_progress(s, i + 1);
        if let Some((_, e)) = padded_argument(s, i + 1) {
            lemma_more_arguments_bounds(s, e);
        }
    }
}

/// A statement is never empty and ends within the text.
pub proof fn lemma_statement_progress(s: Seq<char>, i: int)
    ensures
        statement_at(s, i) matches Some((_, e)) ==> i < e <= s.len(),
{
    if 0 <= i <= s.len() {
        lemma_run_ends(s, i);
        let j = space_end(s, i);
        if j < s.len() {
            lemma_run_ends(s, j + 1);
            if let Some(k) = name_end(s, j) {
                if k < s.len() {
                    lemma_run_ends(s, k + 1);
                }
                lemma_run_ends(s, k);
                let a = space_end(s, k);
                lemma_run_ends(s, a);
                lemma_padded_argument_progress(s, a);
                if let Some((_, e)) = padded_argument(s, a) {
                    lemma_more_arguments_bounds(s, e);
                }
            }
        }
    }
}

/// The comma-separated arguments at `i`, and where they end; none at all
/// when no argument starts there.
pub open spec fn argument_list(s: Seq<char>, i: int) -> (Seq<ArgumentModel>, int) {
    match padded_argument(s, i) {
        None => (Seq::empty(), i),
        Some((a, e)) => extend(seq![a], more_arguments(s, e)),
    }
}

/// A statement as written: a label, or an instruction name with its
/// arguments.
pub enum StatementModel {
    Label(Seq<char>),
    Instruction(Seq<char>, Seq<ArgumentModel>),
}

/// The statement that starts at `i` (after white space) and where it ends
/// (after the white space that follows): a name directly followed by `:` is
/// a label; otherwise the name is an instruction followed by its arguments.
pub open spec fn statement_at(s: Seq<char>, i: int) -> Option<(StatementModel, int)> {
    let j = space_end(s, i);
    match name_end(s, j) {
        None => None,
        Some(k) => if k < s.len() && s[k] == ':' {
            Some((StatementModel::Label(s.subrange(j, k)), space_end(s, k + 1)))
        } else {
            let (args, e) = argument_list(s, space_end(s, k));
            Some((StatementModel::Instruction(s.subrange(j, k), args), e))
        },
    }
}

/// The statements read one after another from `i`, each with where it
/// starts and ends, and where reading stopped.
pub open spec fn statements_from(s: Seq<char>, i: int) -> (Seq<(StatementModel, int, int)>, int)
    decreases s.len() - i,
{
    match statement_at(s, i) {
        Some((st, e)) => {
            proof {
                lemma_statement_progress(s, i);
            }
            let (rest, f) = statements_from(s, e);
            (seq![(st, i, e)] + rest, f)
        },
        None => (Seq::empty(), i),
    }
}

/// The statements that read into program statements: labels, and the
/// instructions that are valid.
pub open spec fn statement_items(sts: Seq<(StatementModel, int, int)>) -> Seq<ItemModel>
    decreases sts.len(),
{
    if sts.len() == 0 {
        Seq::empty()
    } else {
        let rest = statement_items(sts.drop_last());
        match sts.last().0 {
            StatementModel::Label(l) => rest.push(ItemModel::Label(l)),
            StatementModel::Instruction(n, args) => match instruction_of(lowercase_spec(n), args) {
                Some(i) => rest.push(ItemModel::Instruction(i)),
                None => rest,
            },
        }
    }
}

/// The errors of the instructions that are not valid, in order: each
/// message with where its statement starts and ends.
pub open spec fn statement_errors(sts: Seq<(StatementModel, int, int)>) -> Seq<(Seq<char>, int, int)>
    decreases sts.len(),
{
    if sts.len() == 0 {
        Seq::empty()
    } else {
        let rest = statement_errors(sts.drop_last());
        match sts.last().0 {
            StatementModel::Label(_) => rest,
            StatementModel::Instruction(n, args) => if instruction_of(lowercase_spec(n), args) is None {
                rest.push((instruction_error(n, args), sts.last().1, sts.last().2))
            } else {
                rest
            },
        }
    }
}

/// The message for text that is neither a label nor an instruction.
pub open spec fn syntax_message() -> Seq<char> {
    "expected a label or an instruction"@
}

/// Where the text is found wrong when the statements stop at `f` before
/// its end: after the white space there, on the next character if any.
pub open spec fn syntax_error_at(s: Seq<char>, f: int) -> (Seq<char>, int, int) {
    let q = space_end(s, f);
    (
        syntax_message(),
        q,
        if q < s.len() {
            q + 1
        } else {
            q
        },
    )
}

/// Every error in the source `s`: those of its invalid instructions, then,
/// when the statements stop before the end, the place where they stop.
pub open spec fn parse_errors(s: Seq<char>) -> Seq<(Seq<char>, int, int)> {
    let (sts, f) = statements_from(s, 0);
    statement_errors(sts) + if f == s.len() {
        Seq::empty()
    } else {
        seq![syntax_error_at(s, f)]
    }
}

/// An error found in a source text: its message and the characters it
/// concerns, from `start` up to `end`.
#[derive(Debug, Clone)]
pub struct ParseError {
    pub message: String,
    pub start: usize,
    pub end: usize,
}

/// The mathematical value of an error.
pub open spec fn error_model(e: ParseError) -> (Seq<char>, int, int) {
    (e.message@, e.start as int, e.end as int)
}

/// Whether `c` may start a name.
pub(crate) fn name_start(c: char) -> (r: bool)
    ensures
        r == is_name_start(c),
{
    ('a' <= c && c <= 'z') || ('A' <= c && c <= 'Z') || c == '_'
}

/// Whether `c` may continue a name.
fn name_char(c: char) -> (r: bool)
    ensures
        r == is_name_char(c),
{
    name_start(c) || ('0' <= c && c <= '9')
}

/// `space_end` on a character vector.
pub(crate) fn skip_space(c: &Vec<char>, i: usize) -> (r: usize)
    requires
        i <= c.len(),
    ensures
        r == space_end(c@, i as int),
        i <= r <= c.len(),
{
    let mut j = i;
    while j < c.len() && is_white_space(c[j])
        invariant
            i <= j <= c.len(),
            space_end(c@, j as int) == space_end(c@, i as int),
        decreases c.len() - j,
    {
        j = j + 1;
    }
    j
}

/// `name_chars_end` on a character vector.
pub(crate) fn skip_name_chars(c: &Vec<char>, i: usize) -> (r: usize)
    requires
        i <= c.len(),
    ensures
        r == name_chars_end(c@, i as int),
        i <= r <= c.len(),
{
    let mut j = i;
    while j < c.len() && name_char(c[j])
        invariant
            i <= j <= c.len(),
            name_chars_end(c@, j as int) == name_chars_end(c@, i as int),
        decreases c.len() - j,
    {
        j = j + 1;
    }
    j
}

/// `digits_end` on a character vector.
pub(crate) fn skip_digits(c: &Vec<char>, i: usize) -> (r: usize)
    requires
        i <= c.len(),
    ensures
        r == digits_end(c@, i as int),
        i <= r <= c.len(),
        forall|k: int| i <= k < r ==> is_digit_spec(#[trigger] c@[k]),
{
    let mut j = i;
    while j < c.len() && '0' <= c[j] && c[j] <= '9'
        invariant
            i <= j <= c.len(),
            digits_end(c@, j as int) == digits_end(c@, i as int),
            forall|k: int| i <= k < j ==> is_digit_spec(#[trigger] c@[k]),
        decreases c.len() - j,
    {
        j = j + 1;
    }
    j
}

/// The value of the digits from `from` up to `to`, when it fits in a `u64`.
fn digits_to_u64(c: &Vec<char>, from: usize, to: usize) -> (r: Option<u64>)
    requires
        from <= to <= c.len(),
        forall|k: int| from <= k < to ==> is_digit_spec(#[trigger] c@[k]),
    ensures
        match r {
            Some(v) => v == digits_value(c@.subrange(from as int, to as int)),
            None => digits_value(c@.subrange(from as int, to as int)) > u64::MAX,
        },
{
    let ghost ds = c@.subrange(from as int, to as int);
    let mut v: u64 = 0;
    let mut j = from;
    assert(ds.take(0) =~= Seq::<char>::empty());
    while j < to
        invariant
            from <= j <= to <= c.len(),
            ds == c@.subrange(from as int, to as int),
            forall|k: int| from <= k < to ==> is_digit_spec(#[trigger] c@[k]),
            v == digits_value(ds.take(j - from)),
        decreases to - j,
    {
        let ghost n = j - from;
        proof {
            assert(ds.take(n + 1).drop_last() =~= ds.take(n));
            assert(ds.take(n + 1).last() == c@[j as int]);
            assert(is_digit_spec(c@[j as int]));
        }
        let d = (c[j] as u32 - 48) as u64;
        if v > (u64::MAX - d) / 10 {
            proof {
                assert(v * 10 + d > u64::MAX) by (nonlinear_arith)
                    requires
                        v > (u64::MAX - d) / 10,
                        d <= 9,
                ;
                assert forall|k: int| 0 <= k < ds.len() implies is_digit_spec(#[trigger] ds[k]) by {
                    assert(ds[k] == c@[from + k]);
                }
                lemma_digits_value_grows(ds, n + 1);
            }
            return None;
        }
        proof {
            assert(v * 10 + d <= u64::MAX) by (nonlinear_arith)
                requires
                    v <= (u64::MAX - d) / 10,
                    d <= 9,
            ;
        }
        v = v * 10 + d;
        j = j + 1;
    }
    assert(ds.take(to - from) =~= ds);
    Some(v)
}

/// `number_at` on a character vector.
pub(crate) fn number_at_exec(c: &Vec<char>, i: usize) -> (r: Option<(NumberLiteral, usize)>)
    requires
        i <= c.len(),
    ensures
        match r {
            Some((n, e)) => number_at(c@, i as int) == Some((n, e as int)) && e <= c.len(),
            None => number_at(c@, i as int) is None,
        },
{
    let negative = i < c.len() && c[i] == '-';
    let j = if negative {
        i + 1
    } else {
        i
    };
    let k = skip_digits(c, j);
    if j == k {
        return None;
    }
    match digits_to_u64(c, j, k) {
        Some(v) => {
            if negative {
                if v <= 0x8000_0000_0000_0000u64 {
                    let x: i64 = if v == 0x8000_0000_0000_0000u64 {
                        i64::MIN
                    } else {
                        -(v as i64)
                    };
                    Some((NumberLiteral::I64(x), k))
                } else {
                    None
                }
            } else if v <= 0x7fff_ffff_ffff_ffffu64 {
                Some((NumberLiteral::I64(v as i64), k))
            } else {
                Some((NumberLiteral::U64(v), k))
            }
        },
        None => None,
    }
}

/// `argument_at` on the text `s`, whose characters are `c`.
fn argument_at_exec(s: &str, c: &Vec<char>, i: usize) -> (r: Option<(Argument, usize)>)
    requires
        c@ == s@,
        i <= c.len(),
    ensures
        match r {
            Some((a, e)) => argument_at(c@, i as int) == Some((argument_model(a), e as int)) && e
                <= c.len(),
            None => argument_at(c@, i as int) is None,
        },
{
    if i < c.len() && name_start(c[i]) {
        let e = skip_name_chars(c, i + 1);
        let name = String::from_str(s.substring_char(i, e));
        Some((Argument::Identifier(name), e))
    } else {
        match number_at_exec(c, i) {
            Some((n, e)) => Some((Argument::Number(n), e)),
            None => None,
        }
    }
}

/// `padded_argument` on the text `s`, whose characters are `c`.
fn padded_argument_exec(s: &str, c: &Vec<char>, i: usize) -> (r: Option<(Argument, usize)>)
    requires
        c@ == s@,
        i <= c.len(),
    ensures
        match r {
            Some((a, e)) => padded_argument(c@, i as int) == Some((argument_model(a), e as int))
                && e <= c.len(),
            None => padded_argument(c@, i as int) is None,
        },
{
    let j = skip_space(c, i);
    match argument_at_exec(s, c, j) {
        Some((a, e)) => Some((a, skip_space(c, e))),
        None => None,
    }
}

/// Putting two prefixes before a list, one after the other, puts their
/// concatenation.
proof fn lemma_extend_extend(p: Seq<ArgumentModel>, q: Seq<ArgumentModel>, r: (Seq<ArgumentModel>, int))
    ensures
        extend(p, extend(q, r)) == extend(p + q, r),
{
    assert(p + (q + r.0) =~= (p + q) + r.0);
}

/// `argument_list` on the text `s`, whose characters are `c`.
fn argument_list_exec(s: &str, c: &Vec<char>, i: usize) -> (r: (Vec<Argument>, usize))
    requires
        c@ == s@,
        i <= c.len(),
    ensures
        argument_list(c@, i as int) == (argument_models(r.0@), r.1 as int),
        r.1 <= c.len(),
{
    let (first, e) = match padded_argument_exec(s, c, i) {
        None => {
            let none: Vec<Argument> = Vec::new();
            assert(argument_models(none@) =~= Seq::<ArgumentModel>::empty());
            return (none, i);
        },
        Some(found) => found,
    };
    let mut args: Vec<Argument> = Vec::new();
    args.push(first);
    let mut j = e;
    assert(argument_models(args@) =~= seq![argument_model(first)]);
    loop
        invariant
            c@ == s@,
            e <= j <= c.len(),
            argument_list(c@, i as int) == extend(argument_models(args@), more_arguments(c@, j as int)),
        ensures
            j <= c.len(),
            argument_list(c@, i as int) == (argument_models(args@), j as int),
        decreases c.len() - j,
    {
        if !(j < c.len() && c[j] == ',') {
            assert(argument_models(args@) + Seq::<ArgumentModel>::empty() =~= argument_models(args@));
            break ;
        }
        match padded_argument_exec(s, c, j + 1) {
            Some((a, e2)) => {
                proof {
                    lemma_padded_argument_progress(c@, j + 1);
                    lemma_extend_extend(
                        argument_models(args@),
                        seq![argument_model(a)],
                        more_arguments(c@, e2 as int),
                    );
                }
                let ghost before = args@;
                args.push(a);
                assert(argument_models(args@) =~= argument_models(before) + seq![argument_model(a)]);
                j = e2;
            },
            None => {
                assert(argument_models(args@) + Seq::<ArgumentModel>::empty() =~= argument_models(args@));
                break ;
            },
        }
    }
    (args, j)
}

/// A statement as read from the text, before its instruction is checked.
enum ParsedStatement {
    Label(String),
    Instruction(String, Vec<Argument>),
}

/// The mathematical value of a statement as read.
spec fn parsed_model(p: ParsedStatement) -> StatementModel {
    match p {
        ParsedStatement::Label(l) => StatementModel::Label(l@),
        ParsedStatement::Instruction(n, args) => StatementModel::Instruction(
            n@,
            argument_models(args@),
        ),
    }
}

/// `statement_at` on the text `s`, whose characters are `c`.
fn statement_at_exec(s: &str, c: &Vec<char>, i: usize) -> (r: Option<(ParsedStatement, usize)>)
    requires
        c@ == s@,
        i <= c.len(),
    ensures
        match r {
            Some((st, e)) => statement_at(c@, i as int) == Some((parsed_model(st), e as int)) && e
                <= c.len(),
            None => statement_at(c@, i as int) is None,
        },
{
    let j = skip_space(c, i);
    if !(j < c.len() && name_start(c[j])) {
        return None;
    }
    let k = skip_name_chars(c, j + 1);
    let name = String::from_str(s.substring_char(j, k));
    if k < c.len() && c[k] == ':' {
        let e = skip_space(c, k + 1);
        Some((ParsedStatement::Label(name), e))
    } else {
        let a = skip_space(c, k);
        let (args, e) = argument_list_exec(s, c, a);
        Some((ParsedStatement::Instruction(name, args), e))
    }
}

/// Reads a program. It is a sequence of statements, each with white space
/// around it: a label (a name directly followed by `:`) or an instruction (a
/// name followed by arguments separated by commas; an argument is a name or
/// a decimal number). Each instruction is checked as `ValidInstruction::new`
/// does. The program is read when every statement is a label or a valid
/// instruction and the statements reach the end of the text; otherwise the
/// errors come back, in order (see `parse_errors`).
pub fn parse(input: &str) -> (r: Result<Program, Vec<ParseError>>)
    ensures
        ({
            let (sts, f) = statements_from(input@, 0);
            match r {
                Ok(p) => {
                    &&& parse_errors(input@).len() == 0
                    &&& p.instructions@ == instructions_of(statement_items(sts))
                    &&& p.labels@ == labels_of(statement_items(sts))
                },
                Err(es) => {
                    &&& parse_errors(input@).len() > 0
                    &&& es@.map_values(|e: ParseError| error_model(e)) == parse_errors(input@)
                },
            }
        }),
{
    let c = chars_of(input);
    let mut items: Vec<LabelOrInstruction> = Vec::new();
    let mut errors: Vec<ParseError> = Vec::new();
    let ghost mut done: Seq<(StatementModel, int, int)> = Seq::empty();
    let mut j: usize = 0;
    assert(items@.map_values(|i| item_model(i)) =~= statement_items(done));
    assert(errors@.map_values(|e: ParseError| error_model(e)) =~= statement_errors(done));
    assert(statements_from(c@, 0) == (done + statements_from(c@, 0).0, statements_from(c@, 0).1))
        by {
        assert(done + statements_from(c@, 0).0 =~= statements_from(c@, 0).0);
    }
    loop
        invariant
            c@ == input@,
            j <= c.len(),
            statements_from(c@, 0) == (
                done + statements_from(c@, j as int).0,
                statements_from(c@, j as int).1,
            ),
            items@.map_values(|i| item_model(i)) == statement_items(done),
            errors@.map_values(|e: ParseError| error_model(e)) == statement_errors(done),
        ensures
            j <= c.len(),
            statements_from(c@, 0) == (done, j as int),
            items@.map_values(|i| item_model(i)) == statement_items(done),
            errors@.map_values(|e: ParseError| error_model(e)) == statement_errors(done),
        decreases c.len() - j,
    {
        let (st, e) = match statement_at_exec(input, &c, j) {
            Some(found) => found,
            None => {
                assert(done + Seq::<(StatementModel, int, int)>::empty() =~= done);
                break ;
            },
        };
        proof {
            lemma_statement_progress(c@, j as int);
        }
        let ghost entry = (parsed_model(st), j as int, e as int);
        proof {
            assert(done + statements_from(c@, j as int).0 =~= done.push(entry)
                + statements_from(c@, e as int).0);
            assert(done.push(entry).drop_last() =~= done);
        }
        match st {
            ParsedStatement::Label(name) => {
                items.push(LabelOrInstruction::Label(name));
            },
            ParsedStatement::Instruction(name, args) => {
                match ValidInstruction::new(UnvalidatedInstruction { instruction: name, arguments: args }) {
                    ValidInstruction::Valid(i) => {
                        items.push(LabelOrInstruction::Instruction(i));
                    },
                    ValidInstruction::Invalid { instruction: _, error } => {
                        errors.push(ParseError { message: error, start: j, end: e });
                    },
                }
            },
        }
        proof {
            done = done.push(entry);
        }
        assert(items@.map_values(|i| item_model(i)) =~= statement_items(done));
        assert(errors@.map_values(|e: ParseError| error_model(e)) =~= statement_errors(done));
        j = e;
    }
    if j == c.len() && errors.len() == 0 {
        assert(parse_errors(input@) =~= statement_errors(done));
        Ok(Program::new(items))
    } else {
        if j < c.len() {
            let q = skip_space(&c, j);
            let end = if q < c.len() {
                q + 1
            } else {
                q
            };
            errors.push(
                ParseError {
                    message: String::from_str("expected a label or an instruction"),
                    start: q,
                    end,
                },
            );
            proof {
                reveal_strlit("expected a label or an instruction");
            }
            assert(errors@.map_values(|e: ParseError| error_model(e)) =~= parse_errors(input@));
        } else {
            assert(errors@.map_values(|e: ParseError| error_model(e)) =~= parse_errors(input@));
        }
        Err(errors)
    }
}

/// Every label points at an instruction of the program or just past its
/// last one.
pub proof fn lemma_labels_within_program(items: Seq<ItemModel>, l: Seq<char>)
    requires
        labels_of(items).contains_key(l),
    ensures
        labels_of(items)[l].0 <= instructions_of(items).len(),
    decreases items.len(),
{
    let rest = items.drop_last();
    match items.last() {
        ItemModel::Label(m) => {
            if m != l {
                lemma_labels_within_program(rest, l);
            }
        },
        ItemModel::Instruction(_) => {
            lemma_labels_within_program(rest, l);
        },
    }
}

/// Each arithmetic name reads as its own operation on integer operands:
/// `add` as addition, `sub` as subtraction, `mul` as multiplication and
/// `div` as division, with the destination and operands in the order
/// written.
pub proof fn lemma_integer_arithmetic_names(
    d: ArgumentModel,
    l: ArgumentModel,
    r: ArgumentModel,
    destination: DestinationU64,
    left: SourceU64,
    right: SourceU64,
)
    requires
        destination_u64_of(d) == Some(destination),
        source_u64_of(l) == Some(left),
        source_u64_of(r) == Some(right),
    ensures
        instruction_of("add"@, seq![d, l, r]) == Some(Instruction::AddU64 { destination, left, right }),
        instruction_of("sub"@, seq![d, l, r]) == Some(Instruction::SubU64 { destination, left, right }),
        instruction_of("mul"@, seq![d, l, r]) == Some(Instruction::MulU64 { destination, left, right }),
        instruction_of("div"@, seq![d, l, r]) == Some(Instruction::DivU64 { destination, left, right }),
{
    reveal_strlit("add");
    assert("add"@[0] == 'a');
    reveal_strlit("sub");
    assert("sub"@[0] == 's');
    reveal_strlit("mul");
    assert("mul"@[0] == 'm');
    reveal_strlit("div");
    assert("div"@[0] == 'd');
    reveal_strlit("jmp");
    assert("jmp"@[0] == 'j');
}

/// Where the arguments do not all read as integer ones but do as
/// floating-point ones, each arithmetic name reads as its own
/// floating-point operation.
pub proof fn lemma_float_arithmetic_names(
    d: ArgumentModel,
    l: ArgumentModel,
    r: ArgumentModel,
    destination: DestinationF64,
    left: SourceF64,
    right: SourceF64,
)
    requires
        !(destination_u64_of(d) is Some && source_u64_of(l) is Some && source_u64_of(r) is Some),
        destination_f64_of(d) == Some(destination),
        source_f64_of(l) == Some(left),
        source_f64_of(r) == Some(right),
    ensures
        instruction_of("add"@, seq![d, l, r]) == Some(Instruction::AddF64 { destination, left, right }),
        instruction_of("sub"@, seq![d, l, r]) == Some(Instruction::SubF64 { destination, left, right }),
        instruction_of("mul"@, seq![d, l, r]) == Some(Instruction::MulF64 { destination, left, right }),
        instruction_of("div"@, seq![d, l, r]) == Some(Instruction::DivF64 { destination, left, right }),
{
    reveal_strlit("add");
    assert("add"@[0] == 'a');
    reveal_strlit("sub");
    assert("sub"@[0] == 's');
    reveal_strlit("mul");
    assert("mul"@[0] == 'm');
    reveal_strlit("div");
    assert("div"@[0] == 'd');
    reveal_strlit("jmp");
    assert("jmp"@[0] == 'j');
}

/// `jmp` with an argument that reads as an integer operand jumps to it.
pub proof fn lemma_jump_name(a: ArgumentModel, address: SourceU64)
    requires
        source_u64_of(a) == Some(address),
    ensures
        instruction_of("jmp"@, seq![a]) == Some(Instruction::Jump { address }),
{
    reveal_strlit("add");
    assert("add"@[0] == 'a');
    reveal_strlit("sub");
    assert("sub"@[0] == 's');
    reveal_strlit("mul");
    assert("mul"@[0] == 'm');
    reveal_strlit("div");
    assert("div"@[0] == 'd');
    reveal_strlit("jmp");
    assert("jmp"@[0] == 'j');
}

} // verus!
