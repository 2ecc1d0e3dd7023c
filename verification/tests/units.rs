use calculator::Constant;
use calculator::FloatOps;
use calculator::LexingError;
use calculator::Target;
use calculator::Token;
use calculator::expressions::AndExpression;
use calculator::expressions::BinaryExpression;
use calculator::expressions::ConstExpression;
use calculator::expressions::EnumExpression;
use calculator::expressions::OrExpression;
use calculator::tokens::string_to_constant;
use calculator::tokens::tokenize;

struct HwFloats;

impl FloatOps for HwFloats {
    fn bits_of_dec(&self, text: &[u8]) -> u64 {
        std::str::from_utf8(text)
            .unwrap()
            .parse::<f64>()
            .unwrap()
            .to_bits()
    }
    fn bits_of_int(&self, i: i64) -> u64 {
        (i as f64).to_bits()
    }
    fn int_of_bits(&self, a: u64) -> i64 {
        f64::from_bits(a) as i64
    }
    fn add_bits(&self, a: u64, b: u64) -> u64 {
        (f64::from_bits(a) + f64::from_bits(b)).to_bits()
    }
    fn sub_bits(&self, a: u64, b: u64) -> u64 {
        (f64::from_bits(a) - f64::from_bits(b)).to_bits()
    }
    fn mul_bits(&self, a: u64, b: u64) -> u64 {
        (f64::from_bits(a) * f64::from_bits(b)).to_bits()
    }
    fn div_bits(&self, a: u64, b: u64) -> u64 {
        (f64::from_bits(a) / f64::from_bits(b)).to_bits()
    }
    fn rem_bits(&self, a: u64, b: u64) -> u64 {
        (f64::from_bits(a) % f64::from_bits(b)).to_bits()
    }
    fn pow_bits(&self, a: u64, b: u64) -> u64 {
        f64::from_bits(a).powf(f64::from_bits(b)).to_bits()
    }
}

fn leaf(c: Constant) -> Box<EnumExpression> {
    Box::new(EnumExpression::Constant(ConstExpression { constant: c }))
}

#[test]
fn tokenizer_classifies_literals() {
    let toks = tokenize(b"12 1.5 0b101 0x1f 0o17");
    assert_eq!(
        toks,
        vec![
            Ok(Token::Integer(12)),
            Ok(Token::Float(b"1.5".to_vec())),
            Ok(Token::Binary(5)),
            Ok(Token::Hexadecimal(31)),
            Ok(Token::Octal(15)),
        ]
    );
}

#[test]
fn tokenizer_takes_longest_match() {
    assert_eq!(
        tokenize(b"**/"),
        vec![Ok(Token::Exponent), Ok(Token::Divide)]
    );
    assert_eq!(
        tokenize(b"0b12"),
        vec![Ok(Token::Binary(1)), Ok(Token::Integer(2))]
    );
    // a lone prefix is a zero followed by a stray letter
    assert_eq!(
        tokenize(b"0b"),
        vec![Ok(Token::Integer(0)), Err(LexingError::Other)]
    );
}

#[test]
fn tokenizer_reports_overflow() {
    assert_eq!(
        tokenize(b"9223372036854775807"),
        vec![Ok(Token::Integer(i64::MAX))]
    );
    assert_eq!(
        tokenize(b"9223372036854775808"),
        vec![Err(LexingError::NumberParseError)]
    );
    assert_eq!(
        tokenize(b"0xffffffffffffffff"),
        vec![Err(LexingError::NumberParseError)]
    );
}

#[test]
fn string_to_constant_reads_all_radixes() {
    assert_eq!(string_to_constant("0b101"), 5);
    assert_eq!(string_to_constant("0x1F"), 31);
    assert_eq!(string_to_constant("0o17"), 15);
    assert_eq!(string_to_constant("144"), 144);
}

#[test]
fn from_tok_keeps_values_under_their_tags() {
    assert_eq!(
        Constant::from_tok(Token::Binary(5), &HwFloats),
        Constant::Binary(5)
    );
    assert_eq!(
        Constant::from_tok(Token::Float(b"2.5".to_vec()), &HwFloats),
        Constant::Float(2.5f64.to_bits())
    );
    assert_eq!(
        Constant::from_tok(Token::Plus, &HwFloats),
        Constant::Nothing
    );
}

#[test]
fn coercion_between_integer_tags_relabels_bits() {
    let c = Constant::Hexadecimal(0xc00800000000000);
    assert_eq!(
        c.into_target_constant(Target::Octal, &HwFloats),
        Constant::Octal(0o60004000000000000000)
    );
    assert_eq!(
        c.into_target_constant(Target::Integer, &HwFloats),
        Constant::Integer(0xc00800000000000)
    );
}

#[test]
fn coercion_from_float_reinterprets_the_pattern() {
    let c = Constant::Float((-3.0f64).to_bits());
    assert_eq!(
        c.into_target_constant(Target::Hexadecimal, &HwFloats),
        Constant::Hexadecimal(0xc008000000000000u64 as i64)
    );
}

#[test]
fn hexadecimal_or_computes_and() {
    // the table's deliberate quirk, reachable on built trees
    let or_node = EnumExpression::Binary(BinaryExpression::BitwiseOr(OrExpression {
        left: leaf(Constant::Hexadecimal(0xff)),
        right: leaf(Constant::Hexadecimal(0x0f)),
    }));
    assert_eq!(
        or_node.evaluate(&HwFloats),
        Ok(Constant::Hexadecimal(0x0f))
    );
    // other tag pairs of bitwise or are unaffected
    let or_node = EnumExpression::Binary(BinaryExpression::BitwiseOr(OrExpression {
        left: leaf(Constant::Binary(0x30)),
        right: leaf(Constant::Octal(0x0f)),
    }));
    assert_eq!(or_node.evaluate(&HwFloats), Ok(Constant::Binary(0x3f)));
}

#[test]
fn bitwise_tag_rule_prefers_binary() {
    let node = EnumExpression::Binary(BinaryExpression::BitwiseAnd(AndExpression {
        left: leaf(Constant::Integer(12)),
        right: leaf(Constant::Binary(10)),
    }));
    assert_eq!(node.evaluate(&HwFloats), Ok(Constant::Binary(8)));
}

#[test]
fn arithmetic_tag_rule_prefers_decimal() {
    let node = EnumExpression::Binary(BinaryExpression::Addition(
        calculator::expressions::AddExpression {
            left: leaf(Constant::Binary(2)),
            right: leaf(Constant::Integer(1)),
        },
    ));
    assert_eq!(node.evaluate(&HwFloats), Ok(Constant::Integer(3)));
}

#[test]
fn wrapping_arithmetic_on_the_edges() {
    let node = EnumExpression::Binary(BinaryExpression::Addition(
        calculator::expressions::AddExpression {
            left: leaf(Constant::Integer(i64::MAX)),
            right: leaf(Constant::Integer(1)),
        },
    ));
    assert_eq!(node.evaluate(&HwFloats), Ok(Constant::Integer(i64::MIN)));
}
