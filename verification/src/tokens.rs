//! Lexical analysis: turns expression text into a sequence of tokens.
//!
//! A literal is classified by its prefix (`0b`, `0x`, `0o`, or none) with
//! maximal munch: the longest literal that fits is taken.  A decimal digit
//! run containing exactly one `.` with digits on both sides is a float
//! literal; its token carries the literal text, since the numeric reading
//! of float text is left to the caller-supplied float interpreter.
use vstd::prelude::*;
use vstd::slice::{slice_subrange, slice_to_vec};
use vstd::string::StringSliceAdditionalSpecFns;

verus! {

/// Failure of one lexical item.  A numeric literal whose value does not fit
/// in a signed 64-bit integer is `NumberParseError`; any unrecognized
/// character is `Other`.
#[derive(Debug, PartialEq, Eq, Structural, Clone, Copy)]
pub enum LexingError {
    NumberParseError,
    Other,
}

impl Default for LexingError {
    fn default() -> (r: Self)
        ensures
            r == LexingError::Other,
    {
        LexingError::Other
    }
}

/// One lexical item: a literal, an operator, or a parenthesis.
/// `Float` carries the literal's text (digits, one dot, digits); all other
/// literal kinds carry their value as a signed 64-bit integer.
#[derive(Debug, PartialEq, Clone)]
pub enum Token {
    Integer(i64),
    Float(Vec<u8>),
    Binary(i64),
    Hexadecimal(i64),
    Octal(i64),
    Exponent,
    Root,
    LeftShift,
    RightShift,
    And,
    Or,
    Xor,
    Not,
    Plus,
    Minus,
    Multiply,
    Divide,
    Modulo,
    LeftParenthesis,
    RightParenthesis,
}

/// Mathematical image of a `Token`: the float literal text is a byte sequence.
pub ghost enum TokenV {
    Integer(i64),
    Float(Seq<u8>),
    Binary(i64),
    Hexadecimal(i64),
    Octal(i64),
    Exponent,
    Root,
    LeftShift,
    RightShift,
    And,
    Or,
    Xor,
    Not,
    Plus,
    Minus,
    Multiply,
    Divide,
    Modulo,
    LeftParenthesis,
    RightParenthesis,
}

impl View for Token {
    type V = TokenV;

    open spec fn view(&self) -> TokenV {
        match self {
            Token::Integer(i) => TokenV::Integer(*i),
            Token::Float(t) => TokenV::Float(t@),
            Token::Binary(i) => TokenV::Binary(*i),
            Token::Hexadecimal(i) => TokenV::Hexadecimal(*i),
            Token::Octal(i) => TokenV::Octal(*i),
            Token::Exponent => TokenV::Exponent,
            Token::Root => TokenV::Root,
            Token::LeftShift => TokenV::LeftShift,
            Token::RightShift => TokenV::RightShift,
            Token::And => TokenV::And,
            Token::Or => TokenV::Or,
            Token::Xor => TokenV::Xor,
            Token::Not => TokenV::Not,
            Token::Plus => TokenV::Plus,
            Token::Minus => TokenV::Minus,
            Token::Multiply => TokenV::Multiply,
            Token::Divide => TokenV::Divide,
            Token::Modulo => TokenV::Modulo,
            Token::LeftParenthesis => TokenV::LeftParenthesis,
            Token::RightParenthesis => TokenV::RightParenthesis,
        }
    }
}

/// Outcome of one lexical item.
pub type TokenResult = Result<Token, LexingError>;

/// Mathematical image of a `TokenResult`.
pub type TokenResultV = Result<TokenV, LexingError>;

pub open spec fn token_result_view(t: TokenResult) -> TokenResultV {
    match t {
        Ok(tok) => Ok(tok@),
        Err(e) => Err(e),
    }
}

pub open spec fn token_results_view(ts: Seq<TokenResult>) -> Seq<TokenResultV> {
    ts.map_values(|t: TokenResult| token_result_view(t))
}

pub open spec fn is_whitespace_byte(b: u8) -> bool {
    b == 32 || b == 9 || b == 10 || b == 12
}

pub open spec fn is_dec_digit(b: u8) -> bool {
    48 <= b <= 57
}

pub open spec fn is_bin_digit(b: u8) -> bool {
    b == 48 || b == 49
}

pub open spec fn is_oct_digit(b: u8) -> bool {
    48 <= b <= 55
}

pub open spec fn is_hex_digit(b: u8) -> bool {
    is_dec_digit(b) || (97 <= b <= 102) || (65 <= b <= 70)
}

/// Numeric value of one digit byte, for any of the four radixes.
pub open spec fn digit_value(b: u8) -> nat {
    if is_dec_digit(b) {
        (b - 48) as nat
    } else if 97 <= b <= 102 {
        (b - 87) as nat
    } else if 65 <= b <= 70 {
        (b - 55) as nat
    } else {
        0
    }
}

/// Length of the longest prefix of `s` whose bytes all satisfy `p`.
pub open spec fn run_length(s: Seq<u8>, p: spec_fn(u8) -> bool) -> nat
    decreases s.len(),
{
    if s.len() == 0 || !p(s[0]) {
        0
    } else {
        1 + run_length(s.drop_first(), p)
    }
}

/// Value of a digit string read in radix `r`, most significant digit first.
pub open spec fn radix_value(s: Seq<u8>, r: nat) -> nat
    decreases s.len(),
{
    if s.len() == 0 {
        0
    } else {
        radix_value(s.drop_last(), r) * r + digit_value(s.last())
    }
}

/// Turns a digit-string value into a literal token of the given shape, or
/// the overflow error where the value does not fit in `i64`.
pub open spec fn literal_token(v: nat, shape: TokenV) -> TokenResultV {
    if v > i64::MAX {
        Err(LexingError::NumberParseError)
    } else {
        Ok(
            match shape {
                TokenV::Binary(_) => TokenV::Binary(v as i64),
                TokenV::Hexadecimal(_) => TokenV::Hexadecimal(v as i64),
                TokenV::Octal(_) => TokenV::Octal(v as i64),
                _ => TokenV::Integer(v as i64),
            },
        )
    }
}

/// Reads one numeric literal at the head of `s` (whose first byte is a
/// decimal digit) and gives the token and the number of bytes consumed.
pub open spec fn scan_number(s: Seq<u8>) -> (TokenResultV, nat) {
    if s[0] == 48 && s.len() > 2 && s[1] == 98 && is_bin_digit(s[2]) {
        let n = run_length(s.skip(2), |b: u8| is_bin_digit(b)) as int;
        (literal_token(radix_value(s.subrange(2, 2 + n), 2), TokenV::Binary(0)), (2 + n) as nat)
    } else if s[0] == 48 && s.len() > 2 && s[1] == 120 && is_hex_digit(s[2]) {
        let n = run_length(s.skip(2), |b: u8| is_hex_digit(b)) as int;
        (
            literal_token(radix_value(s.subrange(2, 2 + n), 16), TokenV::Hexadecimal(0)),
            (2 + n) as nat,
        )
    } else if s[0] == 48 && s.len() > 2 && s[1] == 111 && is_oct_digit(s[2]) {
        let n = run_length(s.skip(2), |b: u8| is_oct_digit(b)) as int;
        (literal_token(radix_value(s.subrange(2, 2 + n), 8), TokenV::Octal(0)), (2 + n) as nat)
    } else {
        let d = run_length(s, |b: u8| is_dec_digit(b)) as int;
        if s.len() > d + 1 && s[d] == 46 && is_dec_digit(s[d + 1]) {
            let f = run_length(s.skip(d + 1), |b: u8| is_dec_digit(b)) as int;
            (Ok(TokenV::Float(s.subrange(0, d + 1 + f))), (d + 1 + f) as nat)
        } else {
            (literal_token(radix_value(s.subrange(0, d), 10), TokenV::Integer(0)), d as nat)
        }
    }
}

/// Reads one lexical item at the head of `s` (nonempty, not whitespace) and
/// gives its outcome and the number of bytes consumed.
pub open spec fn scan_token(s: Seq<u8>) -> (TokenResultV, nat) {
    let b = s[0];
    if is_dec_digit(b) {
        scan_number(s)
    } else if b == 40 {
        (Ok(TokenV::LeftParenthesis), 1)
    } else if b == 41 {
        (Ok(TokenV::RightParenthesis), 1)
    } else if b == 42 {
        if s.len() > 1 && s[1] == 42 {
            (Ok(TokenV::Exponent), 2)
        } else {
            (Ok(TokenV::Multiply), 1)
        }
    } else if b == 47 {
        if s.len() > 1 && s[1] == 47 {
            (Ok(TokenV::Root), 2)
        } else {
            (Ok(TokenV::Divide), 1)
        }
    } else if b == 60 {
        if s.len() > 1 && s[1] == 60 {
            (Ok(TokenV::LeftShift), 2)
        } else {
            (Err(LexingError::Other), 1)
        }
    } else if b == 62 {
        if s.len() > 1 && s[1] == 62 {
            (Ok(TokenV::RightShift), 2)
        } else {
            (Err(LexingError::Other), 1)
        }
    } else if b == 38 {
        (Ok(TokenV::And), 1)
    } else if b == 124 {
        (Ok(TokenV::Or), 1)
    } else if b == 94 {
        (Ok(TokenV::Xor), 1)
    } else if b == 33 {
        (Ok(TokenV::Not), 1)
    } else if b == 43 {
        (Ok(TokenV::Plus), 1)
    } else if b == 45 {
        (Ok(TokenV::Minus), 1)
    } else if b == 37 {
        (Ok(TokenV::Modulo), 1)
    } else {
        (Err(LexingError::Other), 1)
    }
}

/// The token sequence of `s`: whitespace is skipped, and each item is read
/// by maximal munch from left to right.
pub open spec fn spec_tokenize(s: Seq<u8>) -> Seq<TokenResultV>
    decreases s.len(),
    via spec_tokenize_decreases
{
    if s.len() == 0 {
        Seq::empty()
    } else if is_whitespace_byte(s[0]) {
        spec_tokenize(s.drop_first())
    } else {
        let (t, n) = scan_token(s);
        seq![t] + spec_tokenize(s.skip(n as int))
    }
}

#[via_fn]
proof fn spec_tokenize_decreases(s: Seq<u8>) {
    if s.len() > 0 && !is_whitespace_byte(s[0]) {
        lemma_scan_token_consumes(s);
    }
}

/// A run never extends past the end of the sequence.
pub proof fn lemma_run_length_le(s: Seq<u8>, p: spec_fn(u8) -> bool)
    ensures
        run_length(s, p) <= s.len(),
    decreases s.len(),
{
    if s.len() > 0 && p(s[0]) {
        lemma_run_length_le(s.drop_first(), p);
    }
}

/// One scan consumes at least one byte and at most the whole sequence.
pub proof fn lemma_scan_token_consumes(s: Seq<u8>)
    requires
        s.len() > 0,
        !is_whitespace_byte(s[0]),
    ensures
        1 <= scan_token(s).1 <= s.len(),
{
    if is_dec_digit(s[0]) {
        if s[0] == 48 && s.len() > 2 && s[1] == 98 && is_bin_digit(s[2]) {
            lemma_run_length_le(s.skip(2), |b: u8| is_bin_digit(b));
        } else if s[0] == 48 && s.len() > 2 && s[1] == 120 && is_hex_digit(s[2]) {
            lemma_run_length_le(s.skip(2), |b: u8| is_hex_digit(b));
        } else if s[0] == 48 && s.len() > 2 && s[1] == 111 && is_oct_digit(s[2]) {
            lemma_run_length_le(s.skip(2), |b: u8| is_oct_digit(b));
        } else {
            let d = run_length(s, |b: u8| is_dec_digit(b)) as int;
            lemma_run_length_le(s, |b: u8| is_dec_digit(b));
            assert(d >= 1) by {
                assert(is_dec_digit(s[0]));
                assert(run_length(s, |b: u8| is_dec_digit(b)) >= 1);
            }
            if s.len() > d + 1 && s[d] == 46 && is_dec_digit(s[d + 1]) {
                lemma_run_length_le(s.skip(d + 1), |b: u8| is_dec_digit(b));
            }
        }
    }
}

/// The radix of each digit shape.
#[derive(Clone, Copy, PartialEq, Eq, Structural, Debug)]
pub enum DigitKind {
    Dec,
    Bin,
    Oct,
    Hex,
}

pub open spec fn kind_pred(k: DigitKind) -> spec_fn(u8) -> bool {
    match k {
        DigitKind::Dec => |b: u8| is_dec_digit(b),
        DigitKind::Bin => |b: u8| is_bin_digit(b),
        DigitKind::Oct => |b: u8| is_oct_digit(b),
        DigitKind::Hex => |b: u8| is_hex_digit(b),
    }
}

pub open spec fn kind_radix(k: DigitKind) -> nat {
    match k {
        DigitKind::Dec => 10,
        DigitKind::Bin => 2,
        DigitKind::Oct => 8,
        DigitKind::Hex => 16,
    }
}

fn digit_matches(b: u8, k: DigitKind) -> (r: bool)
    ensures
        r == kind_pred(k)(b),
{
    match k {
        DigitKind::Dec => 48 <= b && b <= 57,
        DigitKind::Bin => b == 48 || b == 49,
        DigitKind::Oct => 48 <= b && b <= 55,
        DigitKind::Hex => (48 <= b && b <= 57) || (97 <= b && b <= 102) || (65 <= b && b <= 70),
    }
}

/// A run of matching bytes followed by a non-matching byte (or the end)
/// pins the run length.
proof fn lemma_run_length_exact(s: Seq<u8>, n: int, p: spec_fn(u8) -> bool)
    requires
        0 <= n <= s.len(),
        forall|j: int| 0 <= j < n ==> p(s[j]),
        n == s.len() || !p(s[n]),
    ensures
        run_length(s, p) == n,
    decreases n,
{
    if n == 0 {
    } else {
        assert(p(s[0]));
        lemma_run_length_exact(s.drop_first(), n - 1, p);
    }
}

/// End of the digit run of kind `k` that starts at `start`.
fn run_end(s: &[u8], start: usize, k: DigitKind) -> (e: usize)
    requires
        start <= s@.len(),
    ensures
        start <= e <= s@.len(),
        e - start == run_length(s@.skip(start as int), kind_pred(k)),
        forall|j: int| start <= j < e ==> kind_pred(k)(s@[j]),
        e == s@.len() || !kind_pred(k)(s@[e as int]),
{
    let mut i: usize = start;
    while i < s.len() && digit_matches(s[i], k)
        invariant
            start <= i <= s@.len(),
            forall|j: int| start <= j < i ==> kind_pred(k)(s@[j]),
        decreases s@.len() - i,
    {
        i = i + 1;
    }
    proof {
        let p = kind_pred(k);
        let t = s@.skip(start as int);
        assert(forall|j: int| 0 <= j < i - start ==> p(t[j]));
        assert(i - start == t.len() || !p(t[i - start])) by {
            if (i as int) < s@.len() {
                assert(t[i - start] == s@[i as int]);
            }
        }
        lemma_run_length_exact(t, i - start, p);
    }
    i
}

/// Appending one digit multiplies the value by the radix and adds the digit.
proof fn lemma_radix_value_step(s: Seq<u8>, a: int, j: int, r: nat)
    requires
        0 <= a <= j < s.len(),
    ensures
        radix_value(s.subrange(a, j + 1), r) == radix_value(s.subrange(a, j), r) * r
            + digit_value(s[j]),
{
    assert(s.subrange(a, j + 1).drop_last() =~= s.subrange(a, j));
    assert(s.subrange(a, j + 1).last() == s[j]);
}

/// A digit string value only grows as the string is extended.
proof fn lemma_radix_value_grows(s: Seq<u8>, a: int, j: int, e: int, r: nat)
    requires
        0 <= a <= j <= e <= s.len(),
        r >= 2,
    ensures
        radix_value(s.subrange(a, e), r) >= radix_value(s.subrange(a, j), r),
    decreases e - j,
{
    if j < e {
        lemma_radix_value_grows(s, a, j, e - 1, r);
        lemma_radix_value_step(s, a, e - 1, r);
        let v = radix_value(s.subrange(a, e - 1), r);
        assert(v * r >= v) by (nonlinear_arith)
            requires v >= 0 && r >= 2;
    }
}

fn digit_val(b: u8) -> (v: u8)
    ensures
        v as nat == digit_value(b),
{
    if 48 <= b && b <= 57 {
        b - 48
    } else if 97 <= b && b <= 102 {
        b - 87
    } else if 65 <= b && b <= 70 {
        b - 55
    } else {
        0
    }
}

/// Value of the digit bytes of `s` between `start` and `end`, read in the
/// radix of `k`; `None` exactly where the value does not fit in `i64`.
fn radix_parse(s: &[u8], start: usize, end: usize, k: DigitKind) -> (r: Option<i64>)
    requires
        start <= end <= s@.len(),
    ensures
        match r {
            Some(v) => 0 <= v && v as nat == radix_value(
                s@.subrange(start as int, end as int),
                kind_radix(k),
            ),
            None => radix_value(s@.subrange(start as int, end as int), kind_radix(k)) > i64::MAX,
        },
{
    let radix: i64 = match k {
        DigitKind::Dec => 10,
        DigitKind::Bin => 2,
        DigitKind::Oct => 8,
        DigitKind::Hex => 16,
    };
    let ghost rn = kind_radix(k);
    let mut acc: i64 = 0;
    let mut over: bool = false;
    let mut i: usize = start;
    while i < end
        invariant
            start <= i <= end <= s@.len(),
            radix as nat == rn,
            2 <= radix <= 16,
            !over ==> 0 <= acc && acc as nat == radix_value(
                s@.subrange(start as int, i as int),
                rn,
            ),
            over ==> radix_value(s@.subrange(start as int, i as int), rn) > i64::MAX,
        decreases end - i,
    {
        let d = digit_val(s[i]);
        proof {
            lemma_radix_value_step(s@, start as int, i as int, rn);
        }
        if !over {
            if acc <= (i64::MAX - d as i64) / radix {
                proof {
                    let m: int = i64::MAX - d;
                    let ri: int = radix as int;
                    assert((acc as int) * ri + d <= i64::MAX) by (nonlinear_arith)
                        requires
                            0 <= acc as int <= m / ri,
                            2 <= ri,
                            0 <= d,
                            m == i64::MAX - d,
                    ;
                }
                acc = acc * radix + d as i64;
            } else {
                proof {
                    let m: int = i64::MAX - d;
                    let ri: int = radix as int;
                    assert((acc as int) * ri + d > i64::MAX) by (nonlinear_arith)
                        requires
                            acc as int > m / ri,
                            0 <= acc,
                            2 <= ri,
                            0 <= d,
                            m == i64::MAX - d,
                    ;
                }
                over = true;
            }
        } else {
            proof {
                let v = radix_value(s@.subrange(start as int, i as int), rn);
                assert(v * rn >= v) by (nonlinear_arith)
                    requires v >= 0 && rn >= 2;
            }
        }
        i = i + 1;
    }
    if over {
        None
    } else {
        Some(acc)
    }
}

/// Reads the lexical item that starts at byte `i` of `s` and returns its
/// outcome together with the position just past it.
#[verifier::rlimit(100)]
pub fn next_lexical(s: &[u8], i: usize) -> (r: (TokenResult, usize))
    requires
        i < s@.len(),
        !is_whitespace_byte(s@[i as int]),
    ensures
        token_result_view(r.0) == scan_token(s@.skip(i as int)).0,
        r.1 == i + scan_token(s@.skip(i as int)).1,
        i < r.1 <= s@.len(),
{
    let ghost sk = s@.skip(i as int);
    proof {
        assert(sk[0] == s@[i as int]);
        if i + 1 < s@.len() {
            assert(sk[1] == s@[i as int + 1]);
        }
        if i + 2 < s@.len() {
            assert(sk[2] == s@[i as int + 2]);
        }
        lemma_scan_token_consumes(sk);
    }
    let b = s[i];
    if 48 <= b && b <= 57 {
        if b == 48 && s.len() - i > 2 && s[i + 1] == 98 && digit_matches(s[i + 2], DigitKind::Bin) {
            let e = run_end(s, i + 2, DigitKind::Bin);
            proof {
                assert(sk.skip(2) =~= s@.skip(i as int + 2));
                assert(sk.subrange(2, 2 + (e - i - 2)) =~= s@.subrange(i as int + 2, e as int));
            }
            match radix_parse(s, i + 2, e, DigitKind::Bin) {
                Some(v) => (Ok(Token::Binary(v)), e),
                None => (Err(LexingError::NumberParseError), e),
            }
        } else if b == 48 && s.len() - i > 2 && s[i + 1] == 120 && digit_matches(
            s[i + 2],
            DigitKind::Hex,
        ) {
            let e = run_end(s, i + 2, DigitKind::Hex);
            proof {
                assert(sk.skip(2) =~= s@.skip(i as int + 2));
                assert(sk.subrange(2, 2 + (e - i - 2)) =~= s@.subrange(i as int + 2, e as int));
            }
            match radix_parse(s, i + 2, e, DigitKind::Hex) {
                Some(v) => (Ok(Token::Hexadecimal(v)), e),
                None => (Err(LexingError::NumberParseError), e),
            }
        } else if b == 48 && s.len() - i > 2 && s[i + 1] == 111 && digit_matches(
            s[i + 2],
            DigitKind::Oct,
        ) {
            let e = run_end(s, i + 2, DigitKind::Oct);
            proof {
                assert(sk.skip(2) =~= s@.skip(i as int + 2));
                assert(sk.subrange(2, 2 + (e - i - 2)) =~= s@.subrange(i as int + 2, e as int));
            }
            match radix_parse(s, i + 2, e, DigitKind::Oct) {
                Some(v) => (Ok(Token::Octal(v)), e),
                None => (Err(LexingError::NumberParseError), e),
            }
        } else {
            let e = run_end(s, i, DigitKind::Dec);
            proof {
                assert(sk.skip(0) =~= s@.skip(i as int));
                assert(sk =~= s@.skip(i as int));
                assert(run_length(sk, kind_pred(DigitKind::Dec)) == e - i);
                assert(kind_pred(DigitKind::Dec)(sk[0]));
                assert(run_length(sk, kind_pred(DigitKind::Dec)) >= 1);
                if e as int + 1 < s@.len() {
                    assert(sk[e - i] == s@[e as int]);
                    assert(sk[e - i + 1] == s@[e as int + 1]);
                } else if (e as int) < s@.len() {
                    assert(sk[e - i] == s@[e as int]);
                }
            }
            if s.len() - e > 1 && s[e] == 46 && digit_matches(s[e + 1], DigitKind::Dec) {
                let f_end = run_end(s, e + 1, DigitKind::Dec);
                proof {
                    assert(sk.skip(e - i + 1) =~= s@.skip(e as int + 1));
                    let d = (e - i) as int;
                    let f = run_length(s@.skip(e as int + 1), kind_pred(DigitKind::Dec)) as int;
                    assert(sk.subrange(0, d + 1 + f) =~= s@.subrange(i as int, f_end as int));
                }
                (Ok(Token::Float(slice_to_vec(slice_subrange(s, i, f_end)))), f_end)
            } else {
                proof {
                    assert(sk.subrange(0, (e - i) as int) =~= s@.subrange(i as int, e as int));
                }
                match radix_parse(s, i, e, DigitKind::Dec) {
                    Some(v) => (Ok(Token::Integer(v)), e),
                    None => (Err(LexingError::NumberParseError), e),
                }
            }
        }
    } else if b == 40 {
        (Ok(Token::LeftParenthesis), i + 1)
    } else if b == 41 {
        (Ok(Token::RightParenthesis), i + 1)
    } else if b == 42 {
        if i + 1 < s.len() && s[i + 1] == 42 {
            (Ok(Token::Exponent), i + 2)
        } else {
            (Ok(Token::Multiply), i + 1)
        }
    } else if b == 47 {
        if i + 1 < s.len() && s[i + 1] == 47 {
            (Ok(Token::Root), i + 2)
        } else {
            (Ok(Token::Divide), i + 1)
        }
    } else if b == 60 {
        if i + 1 < s.len() && s[i + 1] == 60 {
            (Ok(Token::LeftShift), i + 2)
        } else {
            (Err(LexingError::Other), i + 1)
        }
    } else if b == 62 {
        if i + 1 < s.len() && s[i + 1] == 62 {
            (Ok(Token::RightShift), i + 2)
        } else {
            (Err(LexingError::Other), i + 1)
        }
    } else if b == 38 {
        (Ok(Token::And), i + 1)
    } else if b == 124 {
        (Ok(Token::Or), i + 1)
    } else if b == 94 {
        (Ok(Token::Xor), i + 1)
    } else if b == 33 {
        (Ok(Token::Not), i + 1)
    } else if b == 43 {
        (Ok(Token::Plus), i + 1)
    } else if b == 45 {
        (Ok(Token::Minus), i + 1)
    } else if b == 37 {
        (Ok(Token::Modulo), i + 1)
    } else {
        (Err(LexingError::Other), i + 1)
    }
}

/// The token sequence of `s`, each item either a token or the lexing
/// failure recorded at its place.
pub fn tokenize(s: &[u8]) -> (r: Vec<TokenResult>)
    ensures
        token_results_view(r@) == spec_tokenize(s@),
{
    let mut out: Vec<TokenResult> = Vec::new();
    let mut i: usize = 0;
    proof {
        assert(s@.skip(0) =~= s@);
        assert(token_results_view(Seq::<TokenResult>::empty()) =~= Seq::<
            TokenResultV,
        >::empty());
    }
    while i < s.len()
        invariant
            i <= s@.len(),
            token_results_view(out@) + spec_tokenize(s@.skip(i as int)) == spec_tokenize(s@),
        decreases s@.len() - i,
    {
        let b = s[i];
        if b == 32 || b == 9 || b == 10 || b == 12 {
            proof {
                assert(s@.skip(i as int).drop_first() =~= s@.skip(i as int + 1));
            }
            i = i + 1;
        } else {
            let (t, n) = next_lexical(s, i);
            proof {
                let sk = s@.skip(i as int);
                assert(sk.skip(scan_token(sk).1 as int) =~= s@.skip(n as int));
                assert(token_results_view(out@.push(t)) =~= token_results_view(out@).push(
                    token_result_view(t),
                ));
                assert(token_results_view(out@.push(t)) + spec_tokenize(s@.skip(n as int))
                    =~= token_results_view(out@) + spec_tokenize(s@.skip(i as int)));
            }
            out.push(t);
            i = n;
        }
    }
    proof {
        assert(s@.skip(i as int) =~= Seq::<u8>::empty());
        assert(token_results_view(out@) =~= spec_tokenize(s@));
    }
    out
}

pub open spec fn has_radix_prefix(b: Seq<u8>, c: u8) -> bool {
    b.len() >= 2 && b[0] == 48 && b[1] == c
}

/// Shape a literal must have for its text to denote a number: a `0b`, `0x`
/// or `0o` prefix followed by at least one digit of that radix and nothing
/// else, or a nonempty run of decimal digits.
pub open spec fn wf_literal(b: Seq<u8>) -> bool {
    if has_radix_prefix(b, 98) {
        b.len() > 2 && forall|j: int| 2 <= j < b.len() ==> is_bin_digit(b[j])
    } else if has_radix_prefix(b, 120) {
        b.len() > 2 && forall|j: int| 2 <= j < b.len() ==> is_hex_digit(b[j])
    } else if has_radix_prefix(b, 111) {
        b.len() > 2 && forall|j: int| 2 <= j < b.len() ==> is_oct_digit(b[j])
    } else {
        b.len() > 0 && forall|j: int| 0 <= j < b.len() ==> is_dec_digit(b[j])
    }
}

/// The number a literal's text denotes: the digits after a `0b`, `0x` or
/// `0o` prefix read in that radix, else the whole text read as decimal.
pub open spec fn literal_value(b: Seq<u8>) -> nat {
    if has_radix_prefix(b, 98) {
        radix_value(b.skip(2), 2)
    } else if has_radix_prefix(b, 120) {
        radix_value(b.skip(2), 16)
    } else if has_radix_prefix(b, 111) {
        radix_value(b.skip(2), 8)
    } else {
        radix_value(b, 10)
    }
}

/// The signed 64-bit value of a well-formed integer literal, radix prefix
/// included.
pub fn string_to_constant(s: &str) -> (r: i64)
    requires
        wf_literal(s.spec_bytes()),
        literal_value(s.spec_bytes()) <= i64::MAX,
    ensures
        r >= 0,
        r as nat == literal_value(s.spec_bytes()),
{
    let b = s.as_bytes();
    proof {
        assert(b@.subrange(2, b@.len() as int) =~= b@.skip(2));
        assert(b@.subrange(0, b@.len() as int) =~= b@);
    }
    if b.len() >= 2 && b[0] == 48 && b[1] == 98 {
        radix_parse(b, 2, b.len(), DigitKind::Bin).unwrap()
    } else if b.len() >= 2 && b[0] == 48 && b[1] == 120 {
        radix_parse(b, 2, b.len(), DigitKind::Hex).unwrap()
    } else if b.len() >= 2 && b[0] == 48 && b[1] == 111 {
        radix_parse(b, 2, b.len(), DigitKind::Oct).unwrap()
    } else {
        radix_parse(b, 0, b.len(), DigitKind::Dec).unwrap()
    }
}

/// The converse reading of a run: every byte inside the run satisfies the
/// predicate.
pub proof fn lemma_run_length_members(s: Seq<u8>, p: spec_fn(u8) -> bool)
    ensures
        forall|j: int| 0 <= j < run_length(s, p) ==> p(#[trigger] s[j]),
    decreases s.len(),
{
    if s.len() > 0 && p(s[0]) {
        lemma_run_length_le(s, p);
        lemma_run_length_le(s.drop_first(), p);
        lemma_run_length_members(s.drop_first(), p);
        assert forall|j: int| 0 <= j < run_length(s, p) implies p(#[trigger] s[j]) by {
            if j > 0 {
                assert(0 <= j - 1 < run_length(s.drop_first(), p));
                assert(p(s.drop_first()[j - 1]));
                assert(s[j] == s.drop_first()[j - 1]);
            }
        }
    }
}

/// Whether a token's payload text is plain ASCII: float literal text holds
/// decimal digits and one dot; every other token carries no text.
pub open spec fn token_text_ascii(t: TokenResultV) -> bool {
    match t {
        Ok(TokenV::Float(text)) => forall|j: int|
            0 <= j < text.len() ==> is_dec_digit(#[trigger] text[j]) || text[j] == 46,
        _ => true,
    }
}

/// Every float text a scan produces is digits around one dot.
pub proof fn lemma_scan_token_text_ascii(s: Seq<u8>)
    requires
        s.len() > 0,
        !is_whitespace_byte(s[0]),
    ensures
        token_text_ascii(scan_token(s).0),
{
    if is_dec_digit(s[0]) {
        if !(s[0] == 48 && s.len() > 2 && (s[1] == 98 && is_bin_digit(s[2]) || s[1] == 120
            && is_hex_digit(s[2]) || s[1] == 111 && is_oct_digit(s[2]))) {
            let pd = (|b: u8| is_dec_digit(b));
            let d = run_length(s, pd) as int;
            lemma_run_length_le(s, pd);
            if s.len() > d + 1 && s[d] == 46 && is_dec_digit(s[d + 1]) {
                let f = run_length(s.skip(d + 1), pd) as int;
                lemma_run_length_le(s.skip(d + 1), pd);
                let text = s.subrange(0, d + 1 + f);
                lemma_run_length_members(s, pd);
                lemma_run_length_members(s.skip(d + 1), pd);
                assert forall|j: int| 0 <= j < text.len() implies is_dec_digit(#[trigger] text[j])
                    || text[j] == 46 by {
                    if j < d {
                        assert(text[j] == s[j]);
                    } else if j == d {
                        assert(text[j] == 46);
                    } else {
                        assert(text[j] == s.skip(d + 1)[j - d - 1]);
                        assert(is_dec_digit(s.skip(d + 1)[j - d - 1]));
                    }
                }
            }
        }
    }
}

/// Every float text the tokenizer produces is digits around one dot.
pub proof fn lemma_tokenize_texts_ascii(s: Seq<u8>)
    ensures
        forall|i: int|
            0 <= i < spec_tokenize(s).len() ==> token_text_ascii(#[trigger] spec_tokenize(s)[i]),
    decreases s.len(),
{
    if s.len() == 0 {
    } else if is_whitespace_byte(s[0]) {
        lemma_tokenize_texts_ascii(s.drop_first());
        assert(spec_tokenize(s) == spec_tokenize(s.drop_first()));
    } else {
        lemma_scan_token_consumes(s);
        lemma_scan_token_text_ascii(s);
        let n = scan_token(s).1 as int;
        lemma_tokenize_texts_ascii(s.skip(n));
        assert(spec_tokenize(s) == seq![scan_token(s).0] + spec_tokenize(s.skip(n)));
        assert forall|i: int|
            0 <= i < spec_tokenize(s).len() implies token_text_ascii(
            #[trigger] spec_tokenize(s)[i],
        ) by {
            if i == 0 {
                assert(spec_tokenize(s)[0] == scan_token(s).0);
            } else {
                assert(spec_tokenize(s)[i] == spec_tokenize(s.skip(n))[i - 1]);
            }
        }
    }
}

} // verus!
