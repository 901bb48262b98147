use robowar::chars::{is_control, is_white_space};
use robowar::text::{
    parse_i32, parse_identifier, parse_label, parse_literal_str, parse_regex, skip_whitespace,
    Error, InputString, Location, Success,
};

fn at(input: &str, line: usize, column: usize) -> InputString<'_> {
    InputString { input, location: Location { line, column } }
}

#[test]
fn location_advance_char_newline() {
    let result = Location { line: 2, column: 3 }.advance_char('\n');
    assert_eq!(result, Location { line: 3, column: 0 });
}

#[test]
fn location_advance_char_control() {
    let result = Location { line: 2, column: 3 }.advance_char('\0');
    assert_eq!(result, Location { line: 2, column: 3 });
}

#[test]
fn location_advance_char_tab() {
    let result = Location { line: 2, column: 3 }.advance_char('\t');
    assert_eq!(result, Location { line: 2, column: 4 });
}

#[test]
fn location_advance_char_ascii() {
    let result = Location { line: 2, column: 3 }.advance_char('a');
    assert_eq!(result, Location { line: 2, column: 4 });
}

#[test]
fn location_advance_str() {
    let result = Location { line: 2, column: 3 }.advance_str("foo\nbar baz");
    assert_eq!(result, Location { line: 3, column: 7 });
}

#[test]
fn parse_literal_str_success() {
    let result = parse_literal_str(&at("foobar", 0, 0), "foo");
    assert_eq!(
        result,
        Ok(Success { result: "foo", remainder: at("bar", 0, 3) })
    );
}

#[test]
fn parse_literal_str_failure() {
    let result = parse_literal_str(&at("foobar", 0, 0), "bar");
    assert_eq!(
        result,
        Err(Error {
            message: "expected \"bar\"".to_string(),
            location: Location { line: 0, column: 0 }
        })
    );
}

#[test]
fn parse_regex_success() {
    let result = parse_regex(&at("foo 123", 0, 0), "[a-z]+");
    assert_eq!(
        result,
        Ok(Success { result: "foo", remainder: at(" 123", 0, 3) })
    );
}

#[test]
fn parse_regex_failure() {
    let result = parse_regex(&at("123 foo", 0, 0), "[a-z]+");
    assert_eq!(
        result,
        Err(Error {
            message: "expected Regex(\"[a-z]+\")".to_string(),
            location: Location { line: 0, column: 0 }
        })
    );
}

#[test]
fn parse_regex_failure_not_at_start() {
    let result = parse_regex(&at(" abc foo", 0, 0), "[a-z]+");
    assert_eq!(
        result,
        Err(Error {
            message: "expected Regex(\"[a-z]+\")".to_string(),
            location: Location { line: 0, column: 0 }
        })
    );
}

#[test]
fn skip_whitespace_skipped() {
    let result = skip_whitespace(&at(" \t\n  \tfoo bar ", 0, 0));
    assert_eq!(result, at("foo bar ", 1, 3));
}

#[test]
fn skip_whitespace_nothing_to_skip() {
    let result = skip_whitespace(&at("foo bar ", 0, 0));
    assert_eq!(result, at("foo bar ", 0, 0));
}

#[test]
fn parse_identifier_success() {
    let result = parse_identifier(&at("foo bar", 0, 0));
    assert_eq!(
        result,
        Ok(Success { result: "foo", remainder: at(" bar", 0, 3) })
    );
}

#[test]
fn parse_identifier_failure() {
    let result = parse_identifier(&at("0foo bar", 0, 0));
    assert_eq!(
        result,
        Err(Error {
            message: "expected identifier".to_string(),
            location: Location { line: 0, column: 0 }
        })
    );
}

#[test]
fn parse_label_success() {
    let result = parse_label(&at("foo: bar", 0, 0));
    assert_eq!(
        result,
        Ok(Success { result: Some("foo"), remainder: at(" bar", 0, 4) })
    );
}

#[test]
fn parse_label_failure() {
    let result = parse_label(&at("foo bar", 0, 0));
    assert_eq!(
        result,
        Ok(Success { result: None, remainder: at("foo bar", 0, 0) })
    );
}

#[test]
fn parse_i32_success_1() {
    let result = parse_i32(&at("123 bar", 0, 0));
    assert_eq!(
        result,
        Ok(Success { result: 123, remainder: at(" bar", 0, 3) })
    );
}

#[test]
fn parse_i32_success_2() {
    let result = parse_i32(&at("-123 bar", 0, 0));
    assert_eq!(
        result,
        Ok(Success { result: -123, remainder: at(" bar", 0, 4) })
    );
}

#[test]
fn parse_i32_failure() {
    let result = parse_i32(&at("foo bar", 0, 0));
    assert_eq!(
        result,
        Err(Error {
            message: "expected i32".to_string(),
            location: Location { line: 0, column: 0 },
        })
    );
}

#[test]
fn parse_i32_rejects_underscores_and_overflow() {
    let err = Err(Error { message: "expected i32".to_string(), location: Location { line: 0, column: 0 } });
    assert_eq!(parse_i32(&at("1_000 x", 0, 0)), err);
    assert_eq!(parse_i32(&at("2147483648", 0, 0)), err);
    assert_eq!(
        parse_i32(&at("-2147483648", 0, 0)),
        Ok(Success { result: i32::MIN, remainder: at("", 0, 11) })
    );
}

#[test]
fn advance_str_in_two_parts_equals_whole() {
    let start = Location { line: 4, column: 9 };
    let whole = start.advance_str("ab\u{1}c\nde\u{7f}\u{85}f");
    let parts = start.advance_str("ab\u{1}c\n").advance_str("de\u{7f}\u{85}f");
    assert_eq!(whole, parts);
    assert_eq!(whole, Location { line: 5, column: 4 });
}

#[test]
fn advance_len_counts_characters_not_bytes() {
    let input = InputString::new("éa\nb");
    let after = input.advance_len(3);
    assert_eq!(after, at("\nb", 0, 2));
    assert_eq!(input.advance_len(0), input);
}

#[test]
fn literal_of_multibyte_text() {
    let result = parse_literal_str(&at("日本語", 1, 1), "日本");
    assert_eq!(result, Ok(Success { result: "日本", remainder: at("語", 1, 3) }));
}

#[test]
fn character_classes_agree_with_std() {
    for v in 0u32..0x11_0000 {
        if let Some(c) = char::from_u32(v) {
            assert_eq!(is_control(c), c.is_control(), "is_control {:x}", v);
            assert_eq!(is_white_space(c), c.is_whitespace(), "is_whitespace {:x}", v);
        }
    }
}
