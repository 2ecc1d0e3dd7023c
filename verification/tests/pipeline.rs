use calculator::Constant;
use calculator::FloatOps;
use calculator::Parser;
use calculator::Target;

/// The hardware float interpreter: each operation is the matching `f64`
/// operation on the raw bit patterns.
struct HwFloats;

impl FloatOps for HwFloats {
    fn bits_of_dec(&self, text: &[u8]) -> u64 {
        std::str::from_utf8(text)
            .unwrap()
            .parse::<f64>()
            .unwrap()
            .to_bits()
    }
    fn bits_of_int(&self, i: i64) -> u64 {
        (i as f64).to_bits()
    }
    fn int_of_bits(&self, a: u64) -> i64 {
        f64::from_bits(a) as i64
    }
    fn add_bits(&self, a: u64, b: u64) -> u64 {
        (f64::from_bits(a) + f64::from_bits(b)).to_bits()
    }
    fn sub_bits(&self, a: u64, b: u64) -> u64 {
        (f64::from_bits(a) - f64::from_bits(b)).to_bits()
    }
    fn mul_bits(&self, a: u64, b: u64) -> u64 {
        (f64::from_bits(a) * f64::from_bits(b)).to_bits()
    }
    fn div_bits(&self, a: u64, b: u64) -> u64 {
        (f64::from_bits(a) / f64::from_bits(b)).to_bits()
    }
    fn rem_bits(&self, a: u64, b: u64) -> u64 {
        (f64::from_bits(a) % f64::from_bits(b)).to_bits()
    }
    fn pow_bits(&self, a: u64, b: u64) -> u64 {
        f64::from_bits(a).powf(f64::from_bits(b)).to_bits()
    }
}

#[test]
fn test_arithmetic_integers() {
    let mut parser = Parser::new("1 + 1 * 2", &HwFloats);
    let result = parser.execute(Target::Integer, &HwFloats);
    let expected = Constant::Integer(3);
    assert_eq!(result, Ok(expected));
}

#[test]
fn test_arithmetic_floats() {
    let mut parser = Parser::new("1.5 + 1 * 2.0", &HwFloats);
    let result = parser.execute(Target::Float, &HwFloats);
    let expected = Constant::Float(3.5f64.to_bits());
    assert_eq!(result, Ok(expected));
}

#[test]
fn test_arithmetic_parenthesis() {
    let mut parser = Parser::new("(-1 + 0b1) - 3.0", &HwFloats);
    let result = parser.execute(Target::Hexadecimal, &HwFloats);
    let expected = Constant::Hexadecimal((0xc008000000000000u64) as i64);
    assert_eq!(result, Ok(expected));
}

#[test]
fn test_hex_2_octal() {
    let mut parser = Parser::new("0xc00800000000000", &HwFloats);
    let result = parser.execute(Target::Octal, &HwFloats);
    let expected = Constant::Octal(0o60004000000000000000);
    assert_eq!(result, Ok(expected));
}

#[test]
fn test_float_2_octal_2_hex() {
    let mut parser = Parser::new("0.5 + 0.5", &HwFloats);
    let mut result = parser.execute(Target::Octal, &HwFloats);
    let mut expected = Constant::Octal(0o377600000000000000000);
    assert_eq!(result, Ok(expected));
    parser = Parser::new("0.5 + 0.5", &HwFloats);
    result = parser.execute(Target::Hexadecimal, &HwFloats);
    expected = Constant::Hexadecimal(0x3ff0000000000000);
    assert_eq!(result, Ok(expected));
    parser = Parser::new("0x3ff0000000000000", &HwFloats);
    result = parser.execute(Target::Octal, &HwFloats);
    expected = Constant::Octal(0o377600000000000000000);
    assert_eq!(result, Ok(expected));
}

#[test]
fn rewrite_encodes_precedence() {
    let rewritten = Parser::gen_precedence("1 + 1 * 2");
    assert_eq!(rewritten, "((((((((1))))+((((1))*((2))))))))");
}

#[test]
fn rewrite_disambiguates_minus() {
    // after a value the minus is binary and wrapped; before one it is bare
    assert_eq!(Parser::gen_precedence("1 - 2"), "((((((((1))))-((((2))))))))");
    assert_eq!(Parser::gen_precedence("-2"), "((((((((-2))))))))");
}

#[test]
fn rewrite_is_value_preserving_on_rewritten_text() {
    // rewriting an already fully parenthesized text keeps the final value
    let once = Parser::gen_precedence("1 + 2 * 3 - 4");
    let mut p1 = Parser::new("1 + 2 * 3 - 4", &HwFloats);
    let mut p2 = Parser::new(&once, &HwFloats);
    assert_eq!(
        p1.execute(Target::Integer, &HwFloats),
        p2.execute(Target::Integer, &HwFloats)
    );
}

#[test]
fn malformed_inputs_give_parse_errors() {
    let cases = ["", "(", "1 +", "$", "1 ?", ")1", "( + 2"];
    for c in cases {
        let mut parser = Parser::new(c, &HwFloats);
        let result = parser.execute(Target::Integer, &HwFloats);
        assert_eq!(result, Err("Could not parse the expression".to_string()));
    }
}

#[test]
fn oversized_literal_is_a_lexing_failure() {
    let mut parser = Parser::new("99999999999999999999", &HwFloats);
    let result = parser.execute(Target::Integer, &HwFloats);
    assert_eq!(result, Err("Could not parse the expression".to_string()));
}

#[test]
fn operator_suite_integer() {
    let cases: &[(&str, i64)] = &[
        ("6 / 2", 3),
        ("7 % 3", 1),
        ("2 ** 10", 1024),
        ("4 // 2", 2),
        ("1 << 3", 8),
        ("16 >> 2", 4),
        ("12 & 10", 8),
        ("12 | 10", 14),
        ("12 ^ 10", 6),
        ("!0", -1),
        ("-5 + 2", -3),
        ("(1 + 2) * 3", 9),
        ("2 + 3 * 4 + 5", 19),
    ];
    for (text, value) in cases {
        let mut parser = Parser::new(text, &HwFloats);
        let result = parser.execute(Target::Integer, &HwFloats);
        assert_eq!(result, Ok(Constant::Integer(*value)), "case {}", text);
    }
}

#[test]
fn division_by_zero_is_fatal() {
    let mut parser = Parser::new("1 / 0", &HwFloats);
    let result = parser.execute(Target::Integer, &HwFloats);
    assert_eq!(result, Err("Could not evaluate the expression".to_string()));
}

#[test]
fn undefined_tag_pair_is_fatal() {
    // subtraction has no rule for two float operands
    let mut parser = Parser::new("1.5 - 0.5", &HwFloats);
    let result = parser.execute(Target::Integer, &HwFloats);
    assert_eq!(result, Err("Could not evaluate the expression".to_string()));
}

#[test]
fn integer_to_float_target_is_numeric() {
    let mut parser = Parser::new("3", &HwFloats);
    let result = parser.execute(Target::Float, &HwFloats);
    assert_eq!(result, Ok(Constant::Float(3.0f64.to_bits())));
}

#[test]
fn float_to_integer_target_is_a_bit_cast() {
    let mut parser = Parser::new("3.5", &HwFloats);
    let result = parser.execute(Target::Integer, &HwFloats);
    assert_eq!(result, Ok(Constant::Integer(3.5f64.to_bits() as i64)));
}

#[test]
fn subtraction_chains_associate_right() {
    // same-precedence operators chain to the right in the rewritten form:
    // 1 - 2 - 3 groups as 1 - (2 - 3)
    let mut parser = Parser::new("1 - 2 - 3", &HwFloats);
    let result = parser.execute(Target::Integer, &HwFloats);
    assert_eq!(result, Ok(Constant::Integer(2)));
}
