//! Expressions that the assembler evaluates while it assembles: numbers,
//! names of earlier values, the four operations, remainder and negation.
//!
//! Integer arithmetic is done here, in `u64` when both operands are unsigned
//! and in `i64` when one is signed. Arithmetic on a floating-point operand
//! (an integer one taken as the nearest double) is handed to a function that
//! the caller supplies, since floating-point values are held by their bits.

use vstd::prelude::*;

use crate::assembler::value_of;
use crate::conversion::{f64_bits_of_i64, f64_bits_of_u64, int_to_f64_bits, nat_to_f64_bits};
use crate::language::FloatBits;
use crate::parser::NumberLiteral;
use crate::text::{digits_value, is_digit_spec};
use crate::parser::{
    digits_end, lemma_run_ends, name_end, name_start, number_at, number_at_exec,
    skip_digits, skip_name_chars, skip_space, space_end,
};
use crate::strings::chars_of;
use vstd::string::StrSliceExecFns;

verus! {

/// An arithmetic operation of an expression.
#[derive(Debug, Clone, Copy, PartialEq, Eq)]
pub enum Arithmetic {
    Add,
    Subtract,
    Multiply,
    Divide,
    Modulo,
}

/// An expression, as the assembler reads it.
#[derive(Debug, PartialEq)]
pub enum AST {
    NumberLiteral(NumberLiteral),
    Identifier(String),
    Add(Box<AST>, Box<AST>),
    Subtract(Box<AST>, Box<AST>),
    Multiply(Box<AST>, Box<AST>),
    Divide(Box<AST>, Box<AST>),
    Modulo(Box<AST>, Box<AST>),
    Negate(Box<AST>),
}

/// Why an expression has no value.
#[derive(Debug, PartialEq)]
pub enum EvaluateError {
    NameNotFound(String),
}

/// What evaluating an expression comes to: a value; the first name with no
/// value; or an integer operation that overflows or divides by zero, where
/// Rust's arithmetic panics.
pub enum Evaluation {
    Value(NumberLiteral),
    Missing(Seq<char>),
    Overflow,
}

/// The double that a number stands for in floating-point arithmetic: an
/// integer as the nearest double.
pub open spec fn as_double(n: NumberLiteral) -> FloatBits {
    match n {
        NumberLiteral::F64(b) => b,
        NumberLiteral::I64(v) => FloatBits(int_to_f64_bits(v as int) as u64),
        NumberLiteral::U64(v) => FloatBits(nat_to_f64_bits(v as nat) as u64),
    }
}

/// `a` divided by `b`, rounded toward zero (Rust's integer division).
pub open spec fn div_toward_zero(a: int, b: int) -> int {
    let q = (if a < 0 { -a } else { a }) / (if b < 0 { -b } else { b });
    if (a < 0) != (b < 0) { -q } else { q }
}

/// The remainder of `div_toward_zero`, with the sign of `a`.
pub open spec fn rem_toward_zero(a: int, b: int) -> int {
    a - b * div_toward_zero(a, b)
}

/// An exact operation on integers; `None` for a division by zero.
pub open spec fn exact(op: Arithmetic, a: int, b: int) -> Option<int> {
    match op {
        Arithmetic::Add => Some(a + b),
        Arithmetic::Subtract => Some(a - b),
        Arithmetic::Multiply => Some(a * b),
        Arithmetic::Divide => if b == 0 { None } else { Some(div_toward_zero(a, b)) },
        Arithmetic::Modulo => if b == 0 { None } else { Some(rem_toward_zero(a, b)) },
    }
}

/// The value of a binary operation on two values: floating-point (by `g`)
/// when either is floating-point, else `i64` when either is signed (an
/// unsigned one cast to `i64`), else `u64`. An integer result out of range,
/// or a division by zero, is an overflow.
pub open spec fn combine(
    op: Arithmetic,
    a: NumberLiteral,
    b: NumberLiteral,
    g: spec_fn(Arithmetic, FloatBits, FloatBits) -> FloatBits,
) -> Evaluation {
    if a is F64 || b is F64 {
        Evaluation::Value(NumberLiteral::F64(g(op, as_double(a), as_double(b))))
    } else if a is I64 || b is I64 {
        let x: i64 = match a {
            NumberLiteral::I64(v) => v,
            NumberLiteral::U64(v) => v as i64,
            NumberLiteral::F64(_) => 0,
        };
        let y: i64 = match b {
            NumberLiteral::I64(v) => v,
            NumberLiteral::U64(v) => v as i64,
            NumberLiteral::F64(_) => 0,
        };
        match exact(op, x as int, y as int) {
            Some(v) => if i64::MIN <= v <= i64::MAX {
                Evaluation::Value(NumberLiteral::I64(v as i64))
            } else {
                Evaluation::Overflow
            },
            None => Evaluation::Overflow,
        }
    } else {
        let x: u64 = match a {
            NumberLiteral::U64(v) => v,
            _ => 0,
        };
        let y: u64 = match b {
            NumberLiteral::U64(v) => v,
            _ => 0,
        };
        match exact(op, x as int, y as int) {
            Some(v) => if 0 <= v <= u64::MAX {
                Evaluation::Value(NumberLiteral::U64(v as u64))
            } else {
                Evaluation::Overflow
            },
            None => Evaluation::Overflow,
        }
    }
}

/// The negation of a value: a floating-point one with its sign bit flipped;
/// an integer one as an `i64` (an unsigned one cast first), which overflows
/// at `i64::MIN`.
pub open spec fn negated(a: NumberLiteral) -> Evaluation {
    match a {
        NumberLiteral::F64(b) => Evaluation::Value(
            NumberLiteral::F64(
                FloatBits(
                    if b.0 >= 0x8000_0000_0000_0000 {
                        (b.0 - 0x8000_0000_0000_0000) as u64
                    } else {
                        (b.0 + 0x8000_0000_0000_0000) as u64
                    },
                ),
            ),
        ),
        NumberLiteral::I64(v) => if v == i64::MIN {
            Evaluation::Overflow
        } else {
            Evaluation::Value(NumberLiteral::I64((-v) as i64))
        },
        NumberLiteral::U64(v) => if v as i64 == i64::MIN {
            Evaluation::Overflow
        } else {
            Evaluation::Value(NumberLiteral::I64((-(v as i64)) as i64))
        },
    }
}

/// `left op right`, the left operand evaluated first.
pub open spec fn binary(
    op: Arithmetic,
    left: Evaluation,
    right: Evaluation,
    g: spec_fn(Arithmetic, FloatBits, FloatBits) -> FloatBits,
) -> Evaluation {
    match left {
        Evaluation::Value(a) => match right {
            Evaluation::Value(b) => combine(op, a, b, g),
            other => other,
        },
        other => other,
    }
}

/// What evaluating `e` with the named values `variables` comes to, with
/// floating-point arithmetic done by `g`.
pub open spec fn evaluation(
    e: AST,
    variables: Seq<(String, NumberLiteral)>,
    g: spec_fn(Arithmetic, FloatBits, FloatBits) -> FloatBits,
) -> Evaluation
    decreases e,
{
    match e {
        AST::NumberLiteral(n) => Evaluation::Value(n),
        AST::Identifier(s) => match value_of(variables, s@) {
            Some(n) => Evaluation::Value(n),
            None => Evaluation::Missing(s@),
        },
        AST::Add(l, r) => binary(Arithmetic::Add, evaluation(*l, variables, g), evaluation(*r, variables, g), g),
        AST::Subtract(l, r) => binary(Arithmetic::Subtract, evaluation(*l, variables, g), evaluation(*r, variables, g), g),
        AST::Multiply(l, r) => binary(Arithmetic::Multiply, evaluation(*l, variables, g), evaluation(*r, variables, g), g),
        AST::Divide(l, r) => binary(Arithmetic::Divide, evaluation(*l, variables, g), evaluation(*r, variables, g), g),
        AST::Modulo(l, r) => binary(Arithmetic::Modulo, evaluation(*l, variables, g), evaluation(*r, variables, g), g),
        AST::Negate(a) => match evaluation(*a, variables, g) {
            Evaluation::Value(n) => negated(n),
            other => other,
        },
    }
}

/// The floating-point arithmetic that `float` does, as a function.
pub open spec fn float_function<F: Fn(Arithmetic, FloatBits, FloatBits) -> FloatBits>(float: F) -> spec_fn(
    Arithmetic,
    FloatBits,
    FloatBits,
) -> FloatBits {
    |op: Arithmetic, a: FloatBits, b: FloatBits| choose|c: FloatBits| call_ensures(float, (op, a, b), c)
}

/// `float` can be called on any operands and gives one result for each.
pub open spec fn is_float_function<F: Fn(Arithmetic, FloatBits, FloatBits) -> FloatBits>(float: F) -> bool {
    &&& forall|op: Arithmetic, a: FloatBits, b: FloatBits| call_requires(float, (op, a, b))
    &&& forall|op: Arithmetic, a: FloatBits, b: FloatBits, c: FloatBits, d: FloatBits|
        call_ensures(float, (op, a, b), c) && call_ensures(float, (op, a, b), d) ==> c == d
}

/// The magnitude of a signed value.
fn magnitude(v: i64) -> (r: u64)
    ensures
        r as int == (if v < 0 { -(v as int) } else { v as int }),
{
    if v == i64::MIN {
        0x8000_0000_0000_0000
    } else if v < 0 {
        (-v) as u64
    } else {
        v as u64
    }
}

/// `op` on two unsigned values; `None` where the result is out of range or
/// the divisor is zero.
fn u64_arithmetic(op: Arithmetic, x: u64, y: u64) -> (r: Option<u64>)
    ensures
        match exact(op, x as int, y as int) {
            Some(v) => if 0 <= v <= u64::MAX {
                r == Some(v as u64)
            } else {
                r is None
            },
            None => r is None,
        },
{
    match op {
        Arithmetic::Add => x.checked_add(y),
        Arithmetic::Subtract => x.checked_sub(y),
        Arithmetic::Multiply => x.checked_mul(y),
        Arithmetic::Divide => if y == 0 {
            None
        } else {
            Some(x / y)
        },
        Arithmetic::Modulo => if y == 0 {
            None
        } else {
            proof {
                assert(x as int == y as int * (x as int / y as int) + x as int % y as int) by (nonlinear_arith)
                    requires y > 0;
            }
            Some(x % y)
        },
    }
}

/// `op` on two signed values; `None` where the result is out of range or
/// the divisor is zero.
fn i64_arithmetic(op: Arithmetic, x: i64, y: i64) -> (r: Option<i64>)
    ensures
        match exact(op, x as int, y as int) {
            Some(v) => if i64::MIN <= v <= i64::MAX {
                r == Some(v as i64)
            } else {
                r is None
            },
            None => r is None,
        },
{
    match op {
        Arithmetic::Add => x.checked_add(y),
        Arithmetic::Subtract => x.checked_sub(y),
        Arithmetic::Multiply => x.checked_mul(y),
        Arithmetic::Divide | Arithmetic::Modulo => {
            if y == 0 {
                return None;
            }
            let a = magnitude(x);
            let b = magnitude(y);
            let q = a / b;
            let negative = (x < 0) != (y < 0);
            let ghost d = div_toward_zero(x as int, y as int);
            assert(q as int == (if x < 0 { -(x as int) } else { x as int }) / (if y < 0 { -(y as int) } else { y as int }));
            // The quotient as a signed value, when it fits.
            let quotient: Option<i64> = if negative {
                if q <= 0x8000_0000_0000_0000 {
                    Some(if q == 0x8000_0000_0000_0000 {
                        i64::MIN
                    } else {
                        -(q as i64)
                    })
                } else {
                    None
                }
            } else if q <= 0x7fff_ffff_ffff_ffff {
                Some(q as i64)
            } else {
                None
            };
            assert(quotient matches Some(z) ==> z as int == d);
            assert(quotient is None ==> !(i64::MIN <= d <= i64::MAX));
            match op {
                Arithmetic::Divide => quotient,
                _ => {
                    proof {
                        let ai = a as int;
                        let bi = b as int;
                        assert(0 <= ai - bi * (ai / bi) < bi) by (nonlinear_arith)
                            requires bi > 0, ai >= 0;
                        assert(q as int * b as int <= a as int) by (nonlinear_arith)
                            requires q as int == ai / bi, bi > 0, ai >= 0, ai == a as int, bi == b as int;
                    }
                    // The remainder has the sign of `x` and a magnitude below that of `y`.
                    let m = a - q * b;
                    assert((m as int) < (b as int));
                    proof {
                        assert(rem_toward_zero(x as int, y as int) == (if x < 0 { -(m as int) } else { m as int })) by (nonlinear_arith)
                            requires
                                m as int == a as int - q as int * b as int,
                                a as int == (if x < 0 { -(x as int) } else { x as int }),
                                b as int == (if y < 0 { -(y as int) } else { y as int }),
                                d == (if (x < 0) != (y < 0) { -(q as int) } else { q as int }),
                                rem_toward_zero(x as int, y as int) == x as int - y as int * d,
                        ;
                    }
                    if x < 0 {
                        Some(-(m as i64))
                    } else {
                        Some(m as i64)
                    }
                },
            }
        },
    }
}

/// The value of `n` when `n` is an integer, as `as i64` gives it.
fn signed(n: NumberLiteral) -> (r: i64)
    ensures
        r == (match n {
            NumberLiteral::I64(v) => v,
            NumberLiteral::U64(v) => v as i64,
            NumberLiteral::F64(_) => 0i64,
        }),
{
    match n {
        NumberLiteral::I64(v) => v,
        NumberLiteral::U64(v) => v as i64,
        NumberLiteral::F64(_) => 0,
    }
}

/// The double that `n` stands for (see `as_double`).
fn double_of(n: NumberLiteral) -> (r: FloatBits)
    ensures
        r == as_double(n),
{
    match n {
        NumberLiteral::F64(b) => b,
        NumberLiteral::I64(v) => f64_bits_of_i64(v),
        NumberLiteral::U64(v) => f64_bits_of_u64(v),
    }
}

impl AST {
    /// The value of the expression, the names taking their values from
    /// `variables` (the last entry of a name counts); floating-point
    /// arithmetic is done by `float`. The first name with no value is the
    /// error. An integer operation that overflows or divides by zero is left
    /// out, as Rust's arithmetic panics there.
    pub fn evaluate<F: Fn(Arithmetic, FloatBits, FloatBits) -> FloatBits>(
        &self,
        variables: &Vec<(String, NumberLiteral)>,
        float: &F,
    ) -> (r: Result<NumberLiteral, EvaluateError>)
        requires
            is_float_function(*float),
            !(evaluation(*self, variables@, float_function(*float)) is Overflow),
        ensures
            match r {
                Ok(n) => evaluation(*self, variables@, float_function(*float)) == Evaluation::Value(n),
                Err(EvaluateError::NameNotFound(s)) => evaluation(
                    *self,
                    variables@,
                    float_function(*float),
                ) == Evaluation::Missing(s@),
            },
        decreases self,
    {
        match self {
            AST::NumberLiteral(n) => Ok(*n),
            AST::Identifier(name) => match crate::assembler::lookup(variables, name.as_str()) {
                Some(n) => Ok(n),
                None => Err(EvaluateError::NameNotFound(String::from_str(name.as_str()))),
            },
            AST::Add(l, r) => {
                let a = match l.evaluate(variables, float) {
                    Ok(a) => a,
                    Err(e) => {
                        return Err(e);
                    },
                };
                let b = match r.evaluate(variables, float) {
                    Ok(b) => b,
                    Err(e) => {
                        return Err(e);
                    },
                };
                combine_values(Arithmetic::Add, a, b, float)
            },
            AST::Subtract(l, r) => {
                let a = match l.evaluate(variables, float) {
                    Ok(a) => a,
                    Err(e) => {
                        return Err(e);
                    },
                };
                let b = match r.evaluate(variables, float) {
                    Ok(b) => b,
                    Err(e) => {
                        return Err(e);
                    },
                };
                combine_values(Arithmetic::Subtract, a, b, float)
            },
            AST::Multiply(l, r) => {
                let a = match l.evaluate(variables, float) {
                    Ok(a) => a,
                    Err(e) => {
                        return Err(e);
                    },
                };
                let b = match r.evaluate(variables, float) {
                    Ok(b) => b,
                    Err(e) => {
                        return Err(e);
                    },
                };
                combine_values(Arithmetic::Multiply, a, b, float)
            },
            AST::Divide(l, r) => {
                let a = match l.evaluate(variables, float) {
                    Ok(a) => a,
                    Err(e) => {
                        return Err(e);
                    },
                };
                let b = match r.evaluate(variables, float) {
                    Ok(b) => b,
                    Err(e) => {
                        return Err(e);
                    },
                };
                combine_values(Arithmetic::Divide, a, b, float)
            },
            AST::Modulo(l, r) => {
                let a = match l.evaluate(variables, float) {
                    Ok(a) => a,
                    Err(e) => {
                        return Err(e);
                    },
                };
                let b = match r.evaluate(variables, float) {
                    Ok(b) => b,
                    Err(e) => {
                        return Err(e);
                    },
                };
                combine_values(Arithmetic::Modulo, a, b, float)
            },
            AST::Negate(a) => match a.evaluate(variables, float) {
                Err(e) => Err(e),
                Ok(NumberLiteral::F64(b)) => Ok(
                    NumberLiteral::F64(
                        FloatBits(
                            if b.0 >= 0x8000_0000_0000_0000 {
                                b.0 - 0x8000_0000_0000_0000
                            } else {
                                b.0 + 0x8000_0000_0000_0000
                            },
                        ),
                    ),
                ),
                Ok(NumberLiteral::I64(v)) => Ok(NumberLiteral::I64(-v)),
                Ok(NumberLiteral::U64(v)) => Ok(NumberLiteral::I64(-(v as i64))),
            },
        }
    }
}

/// `a op b` (see `combine`), which does not overflow.
fn combine_values<F: Fn(Arithmetic, FloatBits, FloatBits) -> FloatBits>(
    op: Arithmetic,
    a: NumberLiteral,
    b: NumberLiteral,
    float: &F,
) -> (r: Result<NumberLiteral, EvaluateError>)
    requires
        is_float_function(*float),
        !(combine(op, a, b, float_function(*float)) is Overflow),
    ensures
        r matches Ok(n) && combine(op, a, b, float_function(*float)) == Evaluation::Value(n),
{
    let floating = matches!(a, NumberLiteral::F64(_)) || matches!(b, NumberLiteral::F64(_));
    let signed_operands = matches!(a, NumberLiteral::I64(_)) || matches!(b, NumberLiteral::I64(_));
    if floating {
        let c = float(op, double_of(a), double_of(b));
        proof {
            let g = float_function(*float);
            assert(call_ensures(*float, (op, as_double(a), as_double(b)), g(op, as_double(a), as_double(b))));
        }
        Ok(NumberLiteral::F64(c))
    } else if signed_operands {
        match i64_arithmetic(op, signed(a), signed(b)) {
            Some(v) => Ok(NumberLiteral::I64(v)),
            None => {
                proof {
                    assert(false);
                }
                Err(EvaluateError::NameNotFound(String::new()))
            },
        }
    } else {
        let x = match a {
            NumberLiteral::U64(v) => v,
            _ => 0,
        };
        let y = match b {
            NumberLiteral::U64(v) => v,
            _ => 0,
        };
        match u64_arithmetic(op, x, y) {
            Some(v) => Ok(NumberLiteral::U64(v)),
            None => {
                proof {
                    assert(false);
                }
                Err(EvaluateError::NameNotFound(String::new()))
            },
        }
    }
}

/// An expression as mathematical values.
pub enum Expr {
    Number(NumberLiteral),
    Name(Seq<char>),
    Add(Box<Expr>, Box<Expr>),
    Subtract(Box<Expr>, Box<Expr>),
    Multiply(Box<Expr>, Box<Expr>),
    Divide(Box<Expr>, Box<Expr>),
    Modulo(Box<Expr>, Box<Expr>),
    Negate(Box<Expr>),
}

/// The mathematical value of an expression.
pub open spec fn ast_view(e: AST) -> Expr
    decreases e,
{
    match e {
        AST::NumberLiteral(n) => Expr::Number(n),
        AST::Identifier(s) => Expr::Name(s@),
        AST::Add(l, r) => Expr::Add(Box::new(ast_view(*l)), Box::new(ast_view(*r))),
        AST::Subtract(l, r) => Expr::Subtract(Box::new(ast_view(*l)), Box::new(ast_view(*r))),
        AST::Multiply(l, r) => Expr::Multiply(Box::new(ast_view(*l)), Box::new(ast_view(*r))),
        AST::Divide(l, r) => Expr::Divide(Box::new(ast_view(*l)), Box::new(ast_view(*r))),
        AST::Modulo(l, r) => Expr::Modulo(Box::new(ast_view(*l)), Box::new(ast_view(*r))),
        AST::Negate(a) => Expr::Negate(Box::new(ast_view(*a))),
    }
}

/// Whether `c` is a plus or minus sign.
pub open spec fn is_sign(c: char) -> bool {
    c == '+' || c == '-'
}

/// The end of the exponent (`e` or `E`, an optional sign, digits) that
/// starts at `k`; `k` itself when none does.
pub open spec fn exponent_end(s: Seq<char>, k: int) -> int {
    if 0 <= k < s.len() && (s[k] == 'e' || s[k] == 'E') {
        let m = if k + 1 < s.len() && is_sign(s[k + 1]) {
            k + 2
        } else {
            k + 1
        };
        let d = digits_end(s, m);
        if d > m {
            d
        } else {
            k
        }
    } else {
        k
    }
}

/// The end of the floating-point literal that starts at `i`, if one does:
/// an optional sign, then digits with a point (digits on at least one side
/// of it) or digits alone, then an optional exponent, which digits alone
/// need.
pub open spec fn float_end(s: Seq<char>, i: int) -> Option<int> {
    let j = if 0 <= i < s.len() && is_sign(s[i]) {
        i + 1
    } else {
        i
    };
    let d1 = digits_end(s, j);
    if 0 <= d1 < s.len() && s[d1] == '.' {
        let d2 = digits_end(s, d1 + 1);
        if d1 > j || d2 > d1 + 1 {
            Some(exponent_end(s, d2))
        } else {
            None
        }
    } else if d1 > j && exponent_end(s, d1) > d1 {
        Some(exponent_end(s, d1))
    } else {
        None
    }
}

/// The number that starts at `i` and where it ends: a floating-point
/// literal (its text read by `read`), else an integer one (see `number_at`).
pub open spec fn number_literal_at(s: Seq<char>, i: int, read: spec_fn(Seq<char>) -> FloatBits) -> Option<
    (NumberLiteral, int),
> {
    match float_end(s, i) {
        Some(e) => Some((NumberLiteral::F64(read(s.subrange(i, e))), e)),
        None => number_at(s, i),
    }
}

/// A number or a name, with white space around it.
pub open spec fn atom(s: Seq<char>, i: int, read: spec_fn(Seq<char>) -> FloatBits) -> Option<(Expr, int)> {
    let j = space_end(s, i);
    match number_literal_at(s, j, read) {
        Some((n, e)) => Some((Expr::Number(n), space_end(s, e))),
        None => match name_end(s, j) {
            Some(e) => Some((Expr::Name(s.subrange(j, e)), space_end(s, e))),
            None => None,
        },
    }
}

/// Whether a part read from `i` to `k` moved forward within the text (which
/// every part does).
pub open spec fn advances(s: Seq<char>, i: int, k: int) -> bool {
    i < k <= s.len()
}

/// An atom, a negated expression (`-` and an expression), or an expression
/// in parentheses; white space around each sign.
pub open spec fn terminal(s: Seq<char>, i: int, read: spec_fn(Seq<char>) -> FloatBits) -> Option<(Expr, int)>
    decreases s.len() - i, 1int,
{
    if !(0 <= i <= s.len()) {
        None
    } else {
        match atom(s, i, read) {
            Some(x) => Some(x),
            None => {
                let j = space_end(s, i);
                proof {
                    lemma_run_ends(s, i);
                    if j < s.len() {
                        lemma_run_ends(s, j + 1);
                    }
                }
                if j < s.len() && s[j] == '-' {
                    match expression(s, space_end(s, j + 1), read) {
                        Some((e, k)) => Some((Expr::Negate(Box::new(e)), k)),
                        None => None,
                    }
                } else if j < s.len() && s[j] == '(' {
                    match expression(s, space_end(s, j + 1), read) {
                        Some((e, k)) => {
                            let m = space_end(s, k);
                            if 0 <= m < s.len() && s[m] == ')' {
                                Some((e, space_end(s, m + 1)))
                            } else {
                                None
                            }
                        },
                        None => None,
                    }
                } else {
                    None
                }
            },
        }
    }
}

/// A multiplicative operator (with white space around it) at `i`.
pub open spec fn product_operator(s: Seq<char>, i: int) -> Option<(Arithmetic, int)> {
    let j = space_end(s, i);
    if 0 <= j < s.len() && (s[j] == '*' || s[j] == '/' || s[j] == '%') {
        Some(
            (
                if s[j] == '*' {
                    Arithmetic::Multiply
                } else if s[j] == '/' {
                    Arithmetic::Divide
                } else {
                    Arithmetic::Modulo
                },
                space_end(s, j + 1),
            ),
        )
    } else {
        None
    }
}

/// An additive operator (with white space around it) at `i`.
pub open spec fn sum_operator(s: Seq<char>, i: int) -> Option<(Arithmetic, int)> {
    let j = space_end(s, i);
    if 0 <= j < s.len() && (s[j] == '+' || s[j] == '-') {
        Some(
            (
                if s[j] == '+' {
                    Arithmetic::Add
                } else {
                    Arithmetic::Subtract
                },
                space_end(s, j + 1),
            ),
        )
    } else {
        None
    }
}

/// `op` applied to two expressions.
pub open spec fn applied(op: Arithmetic, a: Expr, b: Expr) -> Expr {
    match op {
        Arithmetic::Add => Expr::Add(Box::new(a), Box::new(b)),
        Arithmetic::Subtract => Expr::Subtract(Box::new(a), Box::new(b)),
        Arithmetic::Multiply => Expr::Multiply(Box::new(a), Box::new(b)),
        Arithmetic::Divide => Expr::Divide(Box::new(a), Box::new(b)),
        Arithmetic::Modulo => Expr::Modulo(Box::new(a), Box::new(b)),
    }
}

/// After `acc`, read up to `i`: each further multiplicative operator and
/// terminal, folded from the left; an operator without a terminal after it
/// is left unread.
pub open spec fn product_rest(s: Seq<char>, i: int, acc: Expr, read: spec_fn(Seq<char>) -> FloatBits) -> (Expr, int)
    decreases s.len() - i, 2int,
{
    match product_operator(s, i) {
        Some((op, p)) => {
            proof {
                if 0 <= i <= s.len() {
                    lemma_run_ends(s, i);
                    if space_end(s, i) < s.len() {
                        lemma_run_ends(s, space_end(s, i) + 1);
                    }
                }
            }
            if 0 <= i <= s.len() {
                match terminal(s, p, read) {
                    Some((t, k)) => if advances(s, i, k) {
                        product_rest(s, k, applied(op, acc, t), read)
                    } else {
                        (acc, i)
                    },
                    None => (acc, i),
                }
            } else {
                (acc, i)
            }
        },
        None => (acc, i),
    }
}

/// Terminals joined by `*`, `/` and `%`, from the left.
pub open spec fn product(s: Seq<char>, i: int, read: spec_fn(Seq<char>) -> FloatBits) -> Option<(Expr, int)>
    decreases s.len() - i, 3int,
{
    if !(0 <= i <= s.len()) {
        None
    } else {
        match terminal(s, i, read) {
            Some((t, k)) => if advances(s, i, k) {
                Some(product_rest(s, k, t, read))
            } else {
                None
            },
            None => None,
        }
    }
}

/// After `acc`, read up to `i`: each further additive operator and
/// product, folded from the left; an operator without a product after it is
/// left unread.
pub open spec fn sum_rest(s: Seq<char>, i: int, acc: Expr, read: spec_fn(Seq<char>) -> FloatBits) -> (Expr, int)
    decreases s.len() - i, 4int,
{
    match sum_operator(s, i) {
        Some((op, p)) => {
            proof {
                if 0 <= i <= s.len() {
                    lemma_run_ends(s, i);
                    if space_end(s, i) < s.len() {
                        lemma_run_ends(s, space_end(s, i) + 1);
                    }
                }
            }
            if 0 <= i <= s.len() {
                match product(s, p, read) {
                    Some((t, k)) => if advances(s, i, k) {
                        sum_rest(s, k, applied(op, acc, t), read)
                    } else {
                        (acc, i)
                    },
                    None => (acc, i),
                }
            } else {
                (acc, i)
            }
        },
        None => (acc, i),
    }
}

/// Products joined by `+` and `-`, from the left, read from `i`; `None` when
/// no expression starts there.
pub open spec fn expression(s: Seq<char>, i: int, read: spec_fn(Seq<char>) -> FloatBits) -> Option<(Expr, int)>
    decreases s.len() - i, 5int,
{
    if !(0 <= i <= s.len()) {
        None
    } else {
        match product(s, i, read) {
            Some((t, k)) => if advances(s, i, k) {
                Some(sum_rest(s, k, t, read))
            } else {
                None
            },
            None => None,
        }
    }
}

/// The expression that the whole of `s` is, if it is one.
pub open spec fn whole_expression(s: Seq<char>, read: spec_fn(Seq<char>) -> FloatBits) -> Option<Expr> {
    match expression(s, 0, read) {
        Some((e, k)) => if k == s.len() {
            Some(e)
        } else {
            None
        },
        None => None,
    }
}

/// Whether `read` can give `b` for the text `t`.
pub open spec fn reads_to<R: Fn(&str) -> FloatBits>(read: R, t: Seq<char>, b: FloatBits) -> bool {
    exists|x: &str| #![trigger call_ensures(read, (x,), b)] x@ == t && call_ensures(read, (x,), b)
}

/// The floating-point value that `read` gives each text, as a function.
pub open spec fn float_reading<R: Fn(&str) -> FloatBits>(read: R) -> spec_fn(Seq<char>) -> FloatBits {
    |t: Seq<char>| choose|b: FloatBits| #[trigger] reads_to(read, t, b)
}

/// `read` can be called on any text and gives one value for each text.
pub open spec fn is_float_reader<R: Fn(&str) -> FloatBits>(read: R) -> bool {
    &&& forall|x: &str| call_requires(read, (x,))
    &&& forall|x: &str, y: &str, b: FloatBits, c: FloatBits|
        x@ == y@ && call_ensures(read, (x,), b) && call_ensures(read, (y,), c) ==> b == c
}

/// `exponent_end` on a character vector.
fn exponent_end_exec(c: &Vec<char>, k: usize) -> (r: usize)
    requires
        k <= c.len(),
    ensures
        r == exponent_end(c@, k as int),
        k <= r <= c.len(),
{
    if k < c.len() && (c[k] == 'e' || c[k] == 'E') {
        let m = if k + 1 < c.len() && (c[k + 1] == '+' || c[k + 1] == '-') {
            k + 2
        } else {
            k + 1
        };
        let d = skip_digits(c, m);
        if d > m {
            d
        } else {
            k
        }
    } else {
        k
    }
}

/// `float_end` on a character vector.
fn float_end_exec(c: &Vec<char>, i: usize) -> (r: Option<usize>)
    requires
        i <= c.len(),
    ensures
        match r {
            Some(e) => float_end(c@, i as int) == Some(e as int) && i <= e <= c.len(),
            None => float_end(c@, i as int) is None,
        },
{
    let j = if i < c.len() && (c[i] == '+' || c[i] == '-') {
        i + 1
    } else {
        i
    };
    let d1 = skip_digits(c, j);
    if d1 < c.len() && c[d1] == '.' {
        let d2 = skip_digits(c, d1 + 1);
        if d1 > j || d2 > d1 + 1 {
            Some(exponent_end_exec(c, d2))
        } else {
            None
        }
    } else {
        let e = exponent_end_exec(c, d1);
        if d1 > j && e > d1 {
            Some(e)
        } else {
            None
        }
    }
}

/// `number_literal_at` on the text `s`, whose characters are `c`.
fn number_literal_exec<R: Fn(&str) -> FloatBits>(s: &str, c: &Vec<char>, i: usize, read: &R) -> (r:
    Option<(NumberLiteral, usize)>)
    requires
        c@ == s@,
        i <= c.len(),
        is_float_reader(*read),
    ensures
        match r {
            Some((n, e)) => number_literal_at(c@, i as int, float_reading(*read)) == Some((n, e as int))
                && i <= e <= c.len(),
            None => number_literal_at(c@, i as int, float_reading(*read)) is None,
        },
{
    match float_end_exec(c, i) {
        Some(e) => {
            let text = s.substring_char(i, e);
            let b = read(text);
            proof {
                let t = c@.subrange(i as int, e as int);
                assert(text@ == t);
                assert(reads_to(*read, t, b));
                let b2 = float_reading(*read)(t);
                assert(reads_to(*read, t, b2));
                let y = choose|y: &str| #[trigger] call_ensures(*read, (y,), b2) && y@ == t;
                assert(b == b2);
            }
            Some((NumberLiteral::F64(b), e))
        },
        None => {
            let r = number_at_exec(c, i);
            proof {
                if let Some((_, e)) = r {
                    lemma_run_ends(c@, i as int);
                    if i < c.len() {
                        lemma_run_ends(c@, i + 1);
                    }
                }
            }
            r
        },
    }
}

/// `atom` on the text `s`, whose characters are `c`.
fn atom_exec<R: Fn(&str) -> FloatBits>(s: &str, c: &Vec<char>, i: usize, read: &R) -> (r: Option<
    (Box<AST>, usize),
>)
    requires
        c@ == s@,
        i <= c.len(),
        is_float_reader(*read),
    ensures
        match r {
            Some((a, e)) => atom(c@, i as int, float_reading(*read)) == Some((ast_view(*a), e as int))
                && e <= c.len(),
            None => atom(c@, i as int, float_reading(*read)) is None,
        },
{
    let j = skip_space(c, i);
    match number_literal_exec(s, c, j, read) {
        Some((n, e)) => Some((Box::new(AST::NumberLiteral(n)), skip_space(c, e))),
        None => {
            if j < c.len() && name_start(c[j]) {
                let e = skip_name_chars(c, j + 1);
                let name = String::from_str(s.substring_char(j, e));
                Some((Box::new(AST::Identifier(name)), skip_space(c, e)))
            } else {
                None
            }
        },
    }
}

/// `op` applied to two expressions.
fn apply(op: Arithmetic, a: Box<AST>, b: Box<AST>) -> (r: Box<AST>)
    ensures
        ast_view(*r) == applied(op, ast_view(*a), ast_view(*b)),
{
    match op {
        Arithmetic::Add => Box::new(AST::Add(a, b)),
        Arithmetic::Subtract => Box::new(AST::Subtract(a, b)),
        Arithmetic::Multiply => Box::new(AST::Multiply(a, b)),
        Arithmetic::Divide => Box::new(AST::Divide(a, b)),
        Arithmetic::Modulo => Box::new(AST::Modulo(a, b)),
    }
}

/// `product_operator` on a character vector.
fn product_operator_exec(c: &Vec<char>, i: usize) -> (r: Option<(Arithmetic, usize)>)
    requires
        i <= c.len(),
    ensures
        match r {
            Some((op, p)) => product_operator(c@, i as int) == Some((op, p as int)) && i < p <= c.len(),
            None => product_operator(c@, i as int) is None,
        },
{
    let j = skip_space(c, i);
    if j < c.len() && (c[j] == '*' || c[j] == '/' || c[j] == '%') {
        let op = if c[j] == '*' {
            Arithmetic::Multiply
        } else if c[j] == '/' {
            Arithmetic::Divide
        } else {
            Arithmetic::Modulo
        };
        Some((op, skip_space(c, j + 1)))
    } else {
        None
    }
}

/// `sum_operator` on a character vector.
fn sum_operator_exec(c: &Vec<char>, i: usize) -> (r: Option<(Arithmetic, usize)>)
    requires
        i <= c.len(),
    ensures
        match r {
            Some((op, p)) => sum_operator(c@, i as int) == Some((op, p as int)) && i < p <= c.len(),
            None => sum_operator(c@, i as int) is None,
        },
{
    let j = skip_space(c, i);
    if j < c.len() && (c[j] == '+' || c[j] == '-') {
        let op = if c[j] == '+' {
            Arithmetic::Add
        } else {
            Arithmetic::Subtract
        };
        Some((op, skip_space(c, j + 1)))
    } else {
        None
    }
}

/// `terminal` on the text `s`, whose characters are `c`.
fn terminal_exec<R: Fn(&str) -> FloatBits>(s: &str, c: &Vec<char>, i: usize, read: &R) -> (r: Option<
    (Box<AST>, usize),
>)
    requires
        c@ == s@,
        i <= c.len(),
        is_float_reader(*read),
    ensures
        match r {
            Some((a, e)) => terminal(c@, i as int, float_reading(*read)) == Some(
                (ast_view(*a), e as int),
            ) && e <= c.len(),
            None => terminal(c@, i as int, float_reading(*read)) is None,
        },
    decreases c.len() - i, 1int,
{
    match atom_exec(s, c, i, read) {
        Some(x) => Some(x),
        None => {
            let j = skip_space(c, i);
            if j < c.len() && c[j] == '-' {
                let k0 = skip_space(c, j + 1);
                match expression_exec(s, c, k0, read) {
                    Some((e, k)) => Some((Box::new(AST::Negate(e)), k)),
                    None => None,
                }
            } else if j < c.len() && c[j] == '(' {
                let k0 = skip_space(c, j + 1);
                match expression_exec(s, c, k0, read) {
                    Some((e, k)) => {
                        let m = skip_space(c, k);
                        if m < c.len() && c[m] == ')' {
                            Some((e, skip_space(c, m + 1)))
                        } else {
                            None
                        }
                    },
                    None => None,
                }
            } else {
                None
            }
        },
    }
}

/// `product` on the text `s`, whose characters are `c`.
fn product_exec<R: Fn(&str) -> FloatBits>(s: &str, c: &Vec<char>, i: usize, read: &R) -> (r: Option<
    (Box<AST>, usize),
>)
    requires
        c@ == s@,
        i <= c.len(),
        is_float_reader(*read),
    ensures
        match r {
            Some((a, e)) => product(c@, i as int, float_reading(*read)) == Some(
                (ast_view(*a), e as int),
            ) && e <= c.len(),
            None => product(c@, i as int, float_reading(*read)) is None,
        },
    decreases c.len() - i, 3int,
{
    let ghost g = float_reading(*read);
    let (first, k) = match terminal_exec(s, c, i, read) {
        Some(x) => x,
        None => {
            return None;
        },
    };
    if !(i < k) {
        return None;
    }
    let mut acc = first;
    let mut j = k;
    while true
        invariant
            c@ == s@,
            is_float_reader(*read),
            g == float_reading(*read),
            i < j <= c.len(),
            product(c@, i as int, g) == Some(product_rest(c@, j as int, ast_view(*acc), g)),
        ensures
            j <= c.len(),
            product(c@, i as int, g) == Some((ast_view(*acc), j as int)),
        decreases c.len() - j,
    {
        let (op, p) = match product_operator_exec(c, j) {
            Some(x) => x,
            None => {
                break;
            },
        };
        let (t, k) = match terminal_exec(s, c, p, read) {
            Some(x) => x,
            None => {
                break;
            },
        };
        if !(j < k) {
            break;
        }
        acc = apply(op, acc, t);
        j = k;
    }
    Some((acc, j))
}

/// `expression` on the text `s`, whose characters are `c`.
fn expression_exec<R: Fn(&str) -> FloatBits>(s: &str, c: &Vec<char>, i: usize, read: &R) -> (r: Option<
    (Box<AST>, usize),
>)
    requires
        c@ == s@,
        i <= c.len(),
        is_float_reader(*read),
    ensures
        match r {
            Some((a, e)) => expression(c@, i as int, float_reading(*read)) == Some(
                (ast_view(*a), e as int),
            ) && e <= c.len(),
            None => expression(c@, i as int, float_reading(*read)) is None,
        },
    decreases c.len() - i, 5int,
{
    let ghost g = float_reading(*read);
    let (first, k) = match product_exec(s, c, i, read) {
        Some(x) => x,
        None => {
            return None;
        },
    };
    if !(i < k) {
        return None;
    }
    let mut acc = first;
    let mut j = k;
    while true
        invariant
            c@ == s@,
            is_float_reader(*read),
            g == float_reading(*read),
            i < j <= c.len(),
            expression(c@, i as int, g) == Some(sum_rest(c@, j as int, ast_view(*acc), g)),
        ensures
            j <= c.len(),
            expression(c@, i as int, g) == Some((ast_view(*acc), j as int)),
        decreases c.len() - j,
    {
        let (op, p) = match sum_operator_exec(c, j) {
            Some(x) => x,
            None => {
                break;
            },
        };
        let (t, k) = match product_exec(s, c, p, read) {
            Some(x) => x,
            None => {
                break;
            },
        };
        if !(j < k) {
            break;
        }
        acc = apply(op, acc, t);
        j = k;
    }
    Some((acc, j))
}

/// Reads the whole of `input` as an expression: numbers (a floating-point
/// one's text read by `read`), names, `+`, `-`, `*`, `/`, `%` (the last
/// three binding tighter, all from the left), negation and parentheses,
/// with white space anywhere between. `None` when the text is no
/// expression.
pub fn compile_time_expression<R: Fn(&str) -> FloatBits>(input: &str, read: &R) -> (r: Option<Box<AST>>)
    requires
        is_float_reader(*read),
    ensures
        match r {
            Some(e) => whole_expression(input@, float_reading(*read)) == Some(ast_view(*e)),
            None => whole_expression(input@, float_reading(*read)) is None,
        },
{
    let c = chars_of(input);
    match expression_exec(input, &c, 0, read) {
        Some((e, k)) => if k == c.len() {
            Some(e)
        } else {
            None
        },
        None => None,
    }
}

/// Reads the whole of `input` as a number literal (see
/// `number_literal_at`); `None` when it is none.
pub fn number_literal<R: Fn(&str) -> FloatBits>(input: &str, read: &R) -> (r: Option<NumberLiteral>)
    requires
        is_float_reader(*read),
    ensures
        r == (match number_literal_at(input@, 0, float_reading(*read)) {
            Some((n, e)) => if e == input@.len() {
                Some(n)
            } else {
                None
            },
            None => None,
        }),
{
    let c = chars_of(input);
    match number_literal_exec(input, &c, 0, read) {
        Some((n, e)) => if e == c.len() {
            Some(n)
        } else {
            None
        },
        None => None,
    }
}

/// Reads the whole of `input` as a name: an ASCII letter or `_`, then ASCII
/// letters, digits and `_`; `None` when it is none.
pub fn identifier(input: &str) -> (r: Option<String>)
    ensures
        match r {
            Some(name) => name_end(input@, 0) == Some(input@.len() as int) && name@ == input@,
            None => name_end(input@, 0) != Some(input@.len() as int),
        },
{
    let c = chars_of(input);
    if c.len() > 0 && name_start(c[0]) {
        let e = skip_name_chars(&c, 1);
        if e == c.len() {
            return Some(String::from_str(input));
        }
    }
    None
}

/// A number as an expression.
pub open spec fn num(n: NumberLiteral) -> Box<AST> {
    Box::new(AST::NumberLiteral(n))
}

/// Negating a floating-point value flips its sign bit and nothing else, so
/// negating twice gives the value back.
pub proof fn lemma_negate_float(
    b: FloatBits,
    variables: Seq<(String, NumberLiteral)>,
    g: spec_fn(Arithmetic, FloatBits, FloatBits) -> FloatBits,
)
    ensures
        evaluation(AST::Negate(num(NumberLiteral::F64(b))), variables, g) == Evaluation::Value(
            NumberLiteral::F64(FloatBits(b.0 ^ 0x8000_0000_0000_0000u64)),
        ),
        evaluation(AST::Negate(Box::new(AST::Negate(num(NumberLiteral::F64(b))))), variables, g)
            == Evaluation::Value(NumberLiteral::F64(b)),
{
    let inner = AST::Negate(num(NumberLiteral::F64(b)));
    assert(evaluation(AST::NumberLiteral(NumberLiteral::F64(b)), variables, g) == Evaluation::Value(
        NumberLiteral::F64(b),
    ));
    assert(evaluation(inner, variables, g) == negated(NumberLiteral::F64(b)));
    let x = b.0;
    assert((if x >= 0x8000_0000_0000_0000u64 {
        (x - 0x8000_0000_0000_0000u64) as u64
    } else {
        (x + 0x8000_0000_0000_0000u64) as u64
    }) == x ^ 0x8000_0000_0000_0000u64) by (bit_vector);
    let y = x ^ 0x8000_0000_0000_0000u64;
    assert((if y >= 0x8000_0000_0000_0000u64 {
        (y - 0x8000_0000_0000_0000u64) as u64
    } else {
        (y + 0x8000_0000_0000_0000u64) as u64
    }) == x) by (bit_vector)
        requires
            y == x ^ 0x8000_0000_0000_0000u64,
    ;
    assert(evaluation(AST::Negate(Box::new(inner)), variables, g) == match evaluation(inner, variables, g) {
        Evaluation::Value(n) => negated(n),
        other => other,
    });
}

/// Negating an integer gives its opposite as a signed value; negating the
/// smallest signed value overflows.
pub proof fn lemma_negate_integer(
    v: i64,
    u: u64,
    variables: Seq<(String, NumberLiteral)>,
    g: spec_fn(Arithmetic, FloatBits, FloatBits) -> FloatBits,
)
    ensures
        v != i64::MIN ==> evaluation(AST::Negate(num(NumberLiteral::I64(v))), variables, g)
            == Evaluation::Value(NumberLiteral::I64((-v) as i64)),
        v == i64::MIN ==> evaluation(AST::Negate(num(NumberLiteral::I64(v))), variables, g) is Overflow,
        u <= i64::MAX ==> evaluation(AST::Negate(num(NumberLiteral::U64(u))), variables, g)
            == Evaluation::Value(NumberLiteral::I64((-u) as i64)),
{
    reveal_with_fuel(evaluation, 2);
}

/// Unsigned operands give an unsigned result: the sum, difference or
/// product, or an overflow where that leaves the range of `u64`.
pub proof fn lemma_unsigned_arithmetic(
    a: u64,
    b: u64,
    variables: Seq<(String, NumberLiteral)>,
    g: spec_fn(Arithmetic, FloatBits, FloatBits) -> FloatBits,
)
    ensures
        evaluation(AST::Add(num(NumberLiteral::U64(a)), num(NumberLiteral::U64(b))), variables, g)
            == if a + b <= u64::MAX {
            Evaluation::Value(NumberLiteral::U64((a + b) as u64))
        } else {
            Evaluation::Overflow
        },
        evaluation(AST::Subtract(num(NumberLiteral::U64(a)), num(NumberLiteral::U64(b))), variables, g)
            == if a >= b {
            Evaluation::Value(NumberLiteral::U64((a - b) as u64))
        } else {
            Evaluation::Overflow
        },
        evaluation(AST::Multiply(num(NumberLiteral::U64(a)), num(NumberLiteral::U64(b))), variables, g)
            == if a * b <= u64::MAX {
            Evaluation::Value(NumberLiteral::U64((a * b) as u64))
        } else {
            Evaluation::Overflow
        },
{
    assert(evaluation(AST::NumberLiteral(NumberLiteral::U64(a)), variables, g) == Evaluation::Value(
        NumberLiteral::U64(a),
    ));
    assert(evaluation(AST::NumberLiteral(NumberLiteral::U64(b)), variables, g) == Evaluation::Value(
        NumberLiteral::U64(b),
    ));
}

/// Unsigned division rounds down: the quotient `q` and remainder `m` of
/// `a` by `b` satisfy `a == q * b + m` with `m < b`; dividing by zero
/// overflows.
pub proof fn lemma_unsigned_division(
    a: u64,
    b: u64,
    variables: Seq<(String, NumberLiteral)>,
    g: spec_fn(Arithmetic, FloatBits, FloatBits) -> FloatBits,
)
    ensures
        b == 0 ==> evaluation(AST::Divide(num(NumberLiteral::U64(a)), num(NumberLiteral::U64(b))), variables, g) is Overflow,
        b == 0 ==> evaluation(AST::Modulo(num(NumberLiteral::U64(a)), num(NumberLiteral::U64(b))), variables, g) is Overflow,
        b != 0 ==> (evaluation(
            AST::Divide(num(NumberLiteral::U64(a)), num(NumberLiteral::U64(b))),
            variables,
            g,
        ) matches Evaluation::Value(NumberLiteral::U64(q)) && evaluation(
            AST::Modulo(num(NumberLiteral::U64(a)), num(NumberLiteral::U64(b))),
            variables,
            g,
        ) matches Evaluation::Value(NumberLiteral::U64(m)) && a == q * b + m && m < b),
{
    assert(evaluation(AST::NumberLiteral(NumberLiteral::U64(a)), variables, g) == Evaluation::Value(
        NumberLiteral::U64(a),
    ));
    assert(evaluation(AST::NumberLiteral(NumberLiteral::U64(b)), variables, g) == Evaluation::Value(
        NumberLiteral::U64(b),
    ));
    if b != 0 {
        let ai = a as int;
        let bi = b as int;
        let q = ai / bi;
        assert(q * bi <= ai < (q + 1) * bi && 0 <= q <= ai) by (nonlinear_arith)
            requires
                bi > 0,
                ai >= 0,
                q == ai / bi,
        ;
        assert(div_toward_zero(ai, bi) == q);
        assert(rem_toward_zero(ai, bi) == ai - bi * q);
        assert(ai == q * bi + (ai - bi * q)) by (nonlinear_arith);
        assert(ai - bi * q < bi) by (nonlinear_arith)
            requires
                ai < (q + 1) * bi,
        ;
    }
}

/// Signed division rounds toward zero: the quotient `q` and remainder `r`
/// of `x` by `y` satisfy `x == q * y + r`, with `r` smaller than `y` in
/// size and of the sign of `x` (or zero); dividing by zero, or the smallest
/// value by -1, overflows.
pub proof fn lemma_signed_division(
    x: i64,
    y: i64,
    variables: Seq<(String, NumberLiteral)>,
    g: spec_fn(Arithmetic, FloatBits, FloatBits) -> FloatBits,
)
    ensures
        y == 0 ==> evaluation(AST::Divide(num(NumberLiteral::I64(x)), num(NumberLiteral::I64(y))), variables, g) is Overflow,
        y != 0 && !(x == i64::MIN && y == -1) ==> (evaluation(
            AST::Divide(num(NumberLiteral::I64(x)), num(NumberLiteral::I64(y))),
            variables,
            g,
        ) matches Evaluation::Value(NumberLiteral::I64(q)) && evaluation(
            AST::Modulo(num(NumberLiteral::I64(x)), num(NumberLiteral::I64(y))),
            variables,
            g,
        ) matches Evaluation::Value(NumberLiteral::I64(r)) && x == q * y + r && (if r < 0 {
            -(r as int)
        } else {
            r as int
        }) < (if y < 0 {
            -(y as int)
        } else {
            y as int
        }) && (r == 0 || (r < 0) == (x < 0))),
{
    reveal_with_fuel(evaluation, 2);
    if y != 0 && !(x == i64::MIN && y == -1) {
        let a: int = if x < 0 { -(x as int) } else { x as int };
        let b: int = if y < 0 { -(y as int) } else { y as int };
        let q0 = a / b;
        let m = a - b * q0;
        assert(0 <= m < b && 0 <= q0 <= a) by (nonlinear_arith)
            requires
                a >= 0,
                b > 0,
                q0 == a / b,
                m == a - b * q0,
        ;
        let d = div_toward_zero(x as int, y as int);
        assert(d == if (x < 0) != (y < 0) { -q0 } else { q0 });
        assert(x as int == d * y + (x as int - y * d)) by (nonlinear_arith);
        assert(rem_toward_zero(x as int, y as int) == if x < 0 { -m } else { m }) by (nonlinear_arith)
            requires
                d == (if (x < 0) != (y < 0) { -q0 } else { q0 }),
                a == (if x < 0 { -(x as int) } else { x as int }),
                b == (if y < 0 { -(y as int) } else { y as int }),
                m == a - b * q0,
                rem_toward_zero(x as int, y as int) == x as int - y as int * d,
        ;
        assert(i64::MIN <= d <= i64::MAX) by (nonlinear_arith)
            requires
                d == (if (x < 0) != (y < 0) { -q0 } else { q0 }),
                0 <= q0 <= a,
                a == (if x < 0 { -(x as int) } else { x as int }),
                b == (if y < 0 { -(y as int) } else { y as int }),
                b >= 1,
                !(x == i64::MIN && y == -1),
                q0 * b <= a,
                i64::MIN <= x <= i64::MAX,
        ;
    }
}

/// Arithmetic with a floating-point operand is the supplied function's, on
/// the operation written and the operands' values (an integer as the
/// nearest double): `+` adding, `-` subtracting, `*` multiplying, `/`
/// dividing, `%` taking the remainder.
pub proof fn lemma_float_arithmetic(
    x: FloatBits,
    n: NumberLiteral,
    variables: Seq<(String, NumberLiteral)>,
    g: spec_fn(Arithmetic, FloatBits, FloatBits) -> FloatBits,
)
    ensures
        ({
            let a = num(NumberLiteral::F64(x));
            let b = num(n);
            let y = as_double(n);
            &&& evaluation(AST::Add(a, b), variables, g) == Evaluation::Value(NumberLiteral::F64(g(Arithmetic::Add, x, y)))
            &&& evaluation(AST::Subtract(a, b), variables, g) == Evaluation::Value(NumberLiteral::F64(g(Arithmetic::Subtract, x, y)))
            &&& evaluation(AST::Multiply(a, b), variables, g) == Evaluation::Value(NumberLiteral::F64(g(Arithmetic::Multiply, x, y)))
            &&& evaluation(AST::Divide(a, b), variables, g) == Evaluation::Value(NumberLiteral::F64(g(Arithmetic::Divide, x, y)))
            &&& evaluation(AST::Modulo(a, b), variables, g) == Evaluation::Value(NumberLiteral::F64(g(Arithmetic::Modulo, x, y)))
            &&& evaluation(AST::Add(b, a), variables, g) == Evaluation::Value(NumberLiteral::F64(g(Arithmetic::Add, y, x)))
        }),
{
    reveal_with_fuel(evaluation, 2);
}

/// A name stands for the last value given it; with no value, the name is
/// what evaluation reports, also when it is the left operand.
pub proof fn lemma_names(
    variables: Seq<(String, NumberLiteral)>,
    name: String,
    value: NumberLiteral,
    other: String,
    n: NumberLiteral,
    g: spec_fn(Arithmetic, FloatBits, FloatBits) -> FloatBits,
)
    ensures
        evaluation(AST::Identifier(name), variables.push((name, value)), g) == Evaluation::Value(value),
        other@ != name@ ==> evaluation(AST::Identifier(other), variables.push((name, value)), g)
            == evaluation(AST::Identifier(other), variables, g),
        evaluation(AST::Identifier(name), Seq::empty(), g) == Evaluation::Missing(name@),
        crate::assembler::value_of(variables, name@) is None ==> evaluation(
            AST::Add(Box::new(AST::Identifier(name)), num(n)),
            variables,
            g,
        ) == Evaluation::Missing(name@),
{
    assert(variables.push((name, value)).drop_last() =~= variables);
    assert(evaluation(AST::NumberLiteral(n), variables, g) == Evaluation::Value(n));
    if crate::assembler::value_of(variables, name@) is None {
        assert(evaluation(AST::Identifier(name), variables, g) == Evaluation::Missing(name@));
    }
}

/// Whether every character of `s` is a decimal digit.
pub open spec fn all_digits(s: Seq<char>) -> bool {
    forall|k: int| 0 <= k < s.len() ==> is_digit_spec(#[trigger] s[k])
}

/// A run of digits from `j` ends at the first character that is no digit.
pub proof fn lemma_digits_end_at(s: Seq<char>, j: int, m: int)
    requires
        0 <= j <= m <= s.len(),
        forall|k: int| j <= k < m ==> is_digit_spec(#[trigger] s[k]),
        m == s.len() || !is_digit_spec(s[m]),
    ensures
        digits_end(s, j) == m,
    decreases m - j,
{
    if j < m {
        lemma_digits_end_at(s, j + 1, m);
    }
}

/// Putting a character in front of a text moves its runs of digits one
/// place on.
proof fn lemma_digits_end_shift(c: char, t: Seq<char>, j: int)
    requires
        0 <= j <= t.len(),
    ensures
        digits_end(seq![c] + t, j + 1) == digits_end(t, j) + 1,
    decreases t.len() - j,
{
    let s = seq![c] + t;
    if j < t.len() {
        assert(s[j + 1] == t[j]);
        if is_digit_spec(t[j]) {
            lemma_digits_end_shift(c, t, j + 1);
        }
    }
}

/// An exponent that starts in a text ends in it.
proof fn lemma_exponent_end_bounds(t: Seq<char>, k: int)
    requires
        0 <= k <= t.len(),
    ensures
        k <= exponent_end(t, k) <= t.len(),
{
    if k < t.len() {
        lemma_run_ends(t, k + 1);
        if k + 1 < t.len() {
            lemma_run_ends(t, k + 2);
        }
    }
}

/// A floating-point literal that starts in a text ends in it.
proof fn lemma_float_end_bounds(t: Seq<char>)
    ensures
        float_end(t, 0) matches Some(e) ==> 0 <= e <= t.len(),
{
    lemma_run_ends(t, 0);
    if t.len() > 0 {
        lemma_run_ends(t, 1);
    }
    let j = if 0 < t.len() && is_sign(t[0]) { 1int } else { 0int };
    let d1 = digits_end(t, j);
    lemma_run_ends(t, j);
    if d1 < t.len() {
        lemma_run_ends(t, d1 + 1);
        lemma_exponent_end_bounds(t, digits_end(t, d1 + 1));
    }
    lemma_exponent_end_bounds(t, d1);
}

/// Putting a character in front of a text moves its exponents one place on.
proof fn lemma_exponent_end_shift(c: char, t: Seq<char>, k: int)
    requires
        0 <= k <= t.len(),
    ensures
        exponent_end(seq![c] + t, k + 1) == exponent_end(t, k) + 1,
{
    let s = seq![c] + t;
    if k < t.len() {
        assert(s[k + 1] == t[k]);
        if k + 1 < t.len() {
            assert(s[k + 2] == t[k + 1]);
            lemma_digits_end_shift(c, t, k + 2);
        }
        lemma_digits_end_shift(c, t, k + 1);
    }
}

/// A floating-point literal may start with a sign: with `+` or `-` put in
/// front of a text that does not start with one, the text reads as a
/// floating-point literal exactly when it did before, one character longer;
/// a negative literal is read as a whole, sign included.
pub proof fn lemma_signed_float(sign: char, t: Seq<char>, read: spec_fn(Seq<char>) -> FloatBits)
    requires
        is_sign(sign),
        t.len() > 0,
        !is_sign(t[0]),
    ensures
        float_end(t, 0) is None ==> float_end(seq![sign] + t, 0) is None,
        float_end(t, 0) matches Some(e) ==> float_end(seq![sign] + t, 0) == Some(e + 1),
        float_end(t, 0) matches Some(e) ==> number_literal_at(seq![sign] + t, 0, read) == Some(
            (NumberLiteral::F64(read(seq![sign] + t.subrange(0, e))), e + 1),
        ),
{
    let s = seq![sign] + t;
    assert(s[0] == sign);
    lemma_digits_end_shift(sign, t, 0);
    let d1 = digits_end(t, 0);
    lemma_run_ends(t, 0);
    if d1 < t.len() {
        assert(s[d1 + 1] == t[d1]);
        lemma_run_ends(t, d1 + 1);
        lemma_digits_end_shift(sign, t, d1 + 1);
        lemma_exponent_end_shift(sign, t, digits_end(t, d1 + 1));
    }
    lemma_exponent_end_shift(sign, t, d1);
    lemma_float_end_bounds(t);
    if let Some(e) = float_end(t, 0) {
        assert(s.subrange(0, e + 1) =~= seq![sign] + t.subrange(0, e));
    }
}

/// Digits alone are no floating-point literal (they read as an integer).
pub proof fn lemma_digits_not_float(a: Seq<char>)
    requires
        all_digits(a),
    ensures
        float_end(a, 0) is None,
{
    lemma_digits_end_at(a, 0, a.len() as int);
    if a.len() > 0 {
        assert(is_digit_spec(a[0]));
    }
}

/// Digits with a point among them, with digits on at least one side of it,
/// read as a floating-point literal as a whole.
pub proof fn lemma_point_literal(a: Seq<char>, b: Seq<char>)
    requires
        all_digits(a),
        all_digits(b),
        a.len() > 0 || b.len() > 0,
    ensures
        float_end(a + seq!['.'] + b, 0) == Some(a.len() + 1 + b.len() as int),
{
    let s = a + seq!['.'] + b;
    assert(s[a.len() as int] == '.');
    assert forall|k: int| 0 <= k < a.len() implies is_digit_spec(#[trigger] s[k]) by {
        assert(s[k] == a[k]);
    }
    assert forall|k: int| a.len() + 1 <= k < s.len() implies is_digit_spec(#[trigger] s[k]) by {
        assert(s[k] == b[k - a.len() - 1]);
    }
    if a.len() > 0 {
        assert(is_digit_spec(s[0]));
    } else {
        assert(s[0] == '.');
    }
    lemma_digits_end_at(s, 0, a.len() as int);
    lemma_digits_end_at(s, a.len() as int + 1, s.len() as int);
}

/// Digits followed by an exponent (`e` and digits) read as a
/// floating-point literal as a whole.
pub proof fn lemma_exponent_literal(a: Seq<char>, b: Seq<char>)
    requires
        all_digits(a),
        all_digits(b),
        a.len() > 0,
        b.len() > 0,
    ensures
        float_end(a + seq!['e'] + b, 0) == Some(a.len() + 1 + b.len() as int),
{
    let s = a + seq!['e'] + b;
    assert(s[a.len() as int] == 'e');
    assert forall|k: int| 0 <= k < a.len() implies is_digit_spec(#[trigger] s[k]) by {
        assert(s[k] == a[k]);
    }
    assert forall|k: int| a.len() + 1 <= k < s.len() implies is_digit_spec(#[trigger] s[k]) by {
        assert(s[k] == b[k - a.len() - 1]);
    }
    assert(is_digit_spec(s[0]));
    assert(s[a.len() as int + 1] == b[0]);
    assert(is_digit_spec(b[0]));
    lemma_digits_end_at(s, 0, a.len() as int);
    lemma_digits_end_at(s, a.len() as int + 1, s.len() as int);
}

/// Decimal digits read as their value: a signed integer when it fits in
/// an `i64`, else an unsigned one when it fits in a `u64`, else no number;
/// with a minus sign in front, the negative value when it is no smaller
/// than `i64::MIN`, else no number. The whole text is read.
pub proof fn lemma_integer_literal(ds: Seq<char>)
    requires
        ds.len() > 0,
        all_digits(ds),
    ensures
        ({
            let v = digits_value(ds);
            &&& number_at(ds, 0) == if v <= i64::MAX {
                Some((NumberLiteral::I64(v as i64), ds.len() as int))
            } else if v <= u64::MAX {
                Some((NumberLiteral::U64(v as u64), ds.len() as int))
            } else {
                None
            }
            &&& number_at(seq!['-'] + ds, 0) == if v <= 0x8000_0000_0000_0000 {
                Some((NumberLiteral::I64((-v) as i64), ds.len() as int + 1))
            } else {
                None
            }
        }),
{
    lemma_digits_end_at(ds, 0, ds.len() as int);
    assert(ds.subrange(0, ds.len() as int) =~= ds);
    assert(is_digit_spec(ds[0]));
    let s = seq!['-'] + ds;
    lemma_digits_end_shift('-', ds, 0);
    assert(s[0] == '-');
    assert(s.subrange(1, ds.len() as int + 1) =~= ds);
}

} // verus!
