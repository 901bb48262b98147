use std::collections::HashMap;

use robowar::compile_time_expression::{compile_time_expression, identifier, number_literal, Arithmetic, AST};
use robowar::language::FloatBits;
use robowar::parser::NumberLiteral;

fn read(text: &str) -> FloatBits {
    FloatBits(text.parse::<f64>().unwrap().to_bits())
}

fn float(op: Arithmetic, a: FloatBits, b: FloatBits) -> FloatBits {
    let (x, y) = (f64::from_bits(a.0), f64::from_bits(b.0));
    FloatBits(
        match op {
            Arithmetic::Add => x + y,
            Arithmetic::Subtract => x - y,
            Arithmetic::Multiply => x * y,
            Arithmetic::Divide => x / y,
            Arithmetic::Modulo => x % y,
        }
        .to_bits(),
    )
}

fn f(x: f64) -> NumberLiteral {
    NumberLiteral::F64(FloatBits(x.to_bits()))
}

fn successful_expression_test(input: &str, expected_ast: AST, expected_eval_value: NumberLiteral) {
    let result = compile_time_expression(input, &read);
    assert_eq!(result, Some(Box::new(expected_ast)));
    let none: Vec<(String, NumberLiteral)> = vec![];
    assert_eq!(result.unwrap().evaluate(&none, &float).unwrap(), expected_eval_value);
}

/// The variables as a map, each name with its last value.
fn as_map(vars: &[(String, NumberLiteral)]) -> HashMap<String, NumberLiteral> {
    vars.iter().cloned().collect()
}

#[test]
fn expression_1() {
    successful_expression_test(
        r" 1 + 2 * 3",
        AST::Add(
            Box::new(AST::NumberLiteral(NumberLiteral::I64(1))),
            Box::new(AST::Multiply(
                Box::new(AST::NumberLiteral(NumberLiteral::I64(2))),
                Box::new(AST::NumberLiteral(NumberLiteral::I64(3))),
            )),
        ),
        NumberLiteral::I64(7),
    );
}

#[test]
fn expression_2() {
    successful_expression_test(
        "(1  + 2      \t)*12  /   \n\t\t\t4",
        AST::Divide(
            Box::new(AST::Multiply(
                Box::new(AST::Add(
                    Box::new(AST::NumberLiteral(NumberLiteral::I64(1))),
                    Box::new(AST::NumberLiteral(NumberLiteral::I64(2))),
                )),
                Box::new(AST::NumberLiteral(NumberLiteral::I64(12))),
            )),
            Box::new(AST::NumberLiteral(NumberLiteral::I64(4))),
        ),
        NumberLiteral::I64(9),
    );
}

#[test]
fn expression_3() {
    successful_expression_test(
        r"1.5*3",
        AST::Multiply(
            Box::new(AST::NumberLiteral(f(1.5))),
            Box::new(AST::NumberLiteral(NumberLiteral::I64(3))),
        ),
        f(4.5),
    );
}

#[test]
fn expression_4() {
    successful_expression_test(
        r"5 % 2",
        AST::Modulo(
            Box::new(AST::NumberLiteral(NumberLiteral::I64(5))),
            Box::new(AST::NumberLiteral(NumberLiteral::I64(2))),
        ),
        NumberLiteral::I64(1),
    );
}

#[test]
fn variables() {
    let mut variables: Vec<(String, NumberLiteral)> = Vec::new();
    let x = compile_time_expression("1+2*3", &read).unwrap().evaluate(&variables, &float).unwrap();
    variables.push(("x".to_string(), x));
    assert_eq!(as_map(&variables), HashMap::from([("x".to_string(), NumberLiteral::I64(7)),]));
    let y = compile_time_expression("x*2", &read).unwrap().evaluate(&variables, &float).unwrap();
    variables.push(("y".to_string(), y));
    assert_eq!(
        as_map(&variables),
        HashMap::from([
            ("x".to_string(), NumberLiteral::I64(7)),
            ("y".to_string(), NumberLiteral::I64(14)),
        ])
    );
    let x = compile_time_expression("-x", &read).unwrap().evaluate(&variables, &float).unwrap();
    variables.push(("x".to_string(), x));
    assert_eq!(
        as_map(&variables),
        HashMap::from([
            ("x".to_string(), NumberLiteral::I64(-7)),
            ("y".to_string(), NumberLiteral::I64(14)),
        ])
    );
}

#[test]
fn number_literals() {
    assert_eq!(number_literal("42", &read), Some(NumberLiteral::I64(42)));
    assert_eq!(number_literal("-42", &read), Some(NumberLiteral::I64(-42)));
    assert_eq!(number_literal("1.5", &read), Some(f(1.5)));
    assert_eq!(number_literal("0", &read), Some(NumberLiteral::I64(0)));
    assert_eq!(number_literal("0.", &read), Some(f(0.)));
    assert_eq!(number_literal("18446744073709551615", &read), Some(NumberLiteral::U64(u64::MAX)));
    assert!(number_literal("abc", &read).is_none());
}

#[test]
fn identifiers() {
    assert_eq!(identifier("foo"), Some("foo".to_string()));
    assert_eq!(identifier("_bar123"), Some("_bar123".to_string()));
    assert_eq!(identifier("A1B2_C3"), Some("A1B2_C3".to_string()));
    assert!(identifier("1abc").is_none());
    assert!(identifier("foo-bar").is_none());
}

#[test]
fn expression_forms() {
    // A sign right before digits is part of the number; apart, it negates.
    assert_eq!(
        compile_time_expression("-5", &read),
        Some(Box::new(AST::NumberLiteral(NumberLiteral::I64(-5))))
    );
    assert_eq!(
        compile_time_expression("- 5", &read),
        Some(Box::new(AST::Negate(Box::new(AST::NumberLiteral(NumberLiteral::I64(5))))))
    );
    // Operators of one level fold from the left.
    assert_eq!(
        compile_time_expression("8 - 2 - 1", &read).unwrap().evaluate(&vec![], &float),
        Ok(NumberLiteral::I64(5))
    );
    assert_eq!(compile_time_expression(".5e1 + 1e-1", &read).unwrap().evaluate(&vec![], &float), Ok(f(5.1)));
    assert_eq!(compile_time_expression("1 +", &read), None);
    assert_eq!(compile_time_expression("(1 + 2", &read), None);
    assert_eq!(compile_time_expression("", &read), None);
}
