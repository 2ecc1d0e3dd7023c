//! Semantics of the operators on tagged constants.
//!
//! Each binary operator consults the pair of its operands' tags.  When one
//! side is float-tagged the computation is handed to the float interpreter
//! and the result is float-tagged (integer-tagged for the bitwise family,
//! which first truncates a float on the left); when both sides are
//! integer-tagged the payloads are combined with fixed-width wrapping
//! 64-bit arithmetic and the result keeps the higher-ranked of the two
//! tags.  Tag pairs with no rule are a fatal evaluation error, never a
//! fallback value.
//!
//! All integer arithmetic wraps modulo 2^64 (two's complement); division
//! and remainder truncate toward zero and report division by zero and the
//! one overflowing quotient as errors instead of failing.
use vstd::prelude::*;

use crate::constants::Constant;
use crate::constants::constant_bits;
use crate::floats::FloatOps;
use vstd::wrapping::i64_specs;
use vstd::wrapping::u64_specs;

verus! {

/// A fatal evaluation failure: an operator met a tag pair it has no rule
/// for, a division by zero, or the one quotient that overflows 64 bits.
#[derive(Debug, PartialEq, Eq, Structural, Clone, Copy)]
pub enum EvalError {
    UndefinedOperation,
    DivisionByZero,
    Overflow,
}

/// The twelve binary operators.
#[derive(Debug, PartialEq, Eq, Structural, Clone, Copy)]
pub enum BinOp {
    Addition,
    Subtraction,
    Multiplication,
    Division,
    Modulus,
    Exponent,
    Root,
    BitwiseAnd,
    BitwiseOr,
    BitwiseXor,
    LeftShift,
    RightShift,
}

/// The two unary operators.
#[derive(Debug, PartialEq, Eq, Structural, Clone, Copy)]
pub enum UnOp {
    Not,
    Negate,
}

pub open spec fn is_int_tagged(c: Constant) -> bool {
    c is Binary || c is Integer || c is Hexadecimal || c is Octal
}

/// Tag precedence for the arithmetic family: decimal binds strongest, then
/// binary, hexadecimal, octal.
pub open spec fn arith_rank(c: Constant) -> int {
    match c {
        Constant::Integer(_) => 0,
        Constant::Binary(_) => 1,
        Constant::Hexadecimal(_) => 2,
        Constant::Octal(_) => 3,
        _ => 4,
    }
}

/// Tag precedence for the bitwise family: binary binds strongest, then
/// hexadecimal, octal, decimal.
pub open spec fn bit_rank(c: Constant) -> int {
    match c {
        Constant::Binary(_) => 0,
        Constant::Hexadecimal(_) => 1,
        Constant::Octal(_) => 2,
        Constant::Integer(_) => 3,
        _ => 4,
    }
}

/// The operand whose tag an arithmetic result keeps.
pub open spec fn arith_pick(l: Constant, r: Constant) -> Constant {
    if arith_rank(l) <= arith_rank(r) {
        l
    } else {
        r
    }
}

/// The operand whose tag a bitwise result keeps.
pub open spec fn bit_pick(l: Constant, r: Constant) -> Constant {
    if bit_rank(l) <= bit_rank(r) {
        l
    } else {
        r
    }
}

/// The payload `v` under the tag of `sample` (an integer-tagged constant).
pub open spec fn retag(sample: Constant, v: i64) -> Constant {
    match sample {
        Constant::Binary(_) => Constant::Binary(v),
        Constant::Hexadecimal(_) => Constant::Hexadecimal(v),
        Constant::Octal(_) => Constant::Octal(v),
        _ => Constant::Integer(v),
    }
}

/// Magnitude of a signed 64-bit value.
pub open spec fn mag(x: i64) -> nat {
    if x >= 0 {
        x as nat
    } else {
        (-(x as int)) as nat
    }
}

/// Quotient truncated toward zero: the magnitudes are divided and the
/// quotient is negative exactly where the signs differ.
pub open spec fn div_trunc(l: i64, r: i64) -> i64 {
    if (l < 0) == (r < 0) {
        ((mag(l) / mag(r)) as i64)
    } else {
        ((-((mag(l) / mag(r)) as int)) as i64)
    }
}

/// Remainder of truncated division: the magnitude is `mag(l) % mag(r)` and
/// the sign is the dividend's.
pub open spec fn rem_trunc(l: i64, r: i64) -> i64 {
    if l < 0 {
        ((-((mag(l) % mag(r)) as int)) as i64)
    } else {
        ((mag(l) % mag(r)) as i64)
    }
}

/// `b` raised to `e`, each multiplication wrapping modulo 2^64.
pub open spec fn pow_wrap(b: i64, e: nat) -> i64
    decreases e,
{
    if e == 0 {
        1
    } else {
        i64_specs::wrapping_mul(pow_wrap(b, (e - 1) as nat), b)
    }
}

pub open spec fn is_arith_op(op: BinOp) -> bool {
    op == BinOp::Addition || op == BinOp::Subtraction || op == BinOp::Multiplication || op
        == BinOp::Division || op == BinOp::Modulus || op == BinOp::Exponent
}

pub open spec fn is_bit_op(op: BinOp) -> bool {
    op == BinOp::BitwiseAnd || op == BinOp::BitwiseOr || op == BinOp::BitwiseXor || op
        == BinOp::LeftShift || op == BinOp::RightShift
}

/// Payload of an arithmetic operator on two integer payloads.  The
/// exponent is read as an unsigned 32-bit value (bit-truncated).
pub open spec fn arith_int_payload(op: BinOp, a: i64, b: i64) -> Result<i64, EvalError> {
    match op {
        BinOp::Addition => Ok(i64_specs::wrapping_add(a, b)),
        BinOp::Subtraction => Ok(i64_specs::wrapping_sub(a, b)),
        BinOp::Multiplication => Ok(i64_specs::wrapping_mul(a, b)),
        BinOp::Division => if b == 0 {
            Err(EvalError::DivisionByZero)
        } else if a == i64::MIN && b == -1 {
            Err(EvalError::Overflow)
        } else {
            Ok(div_trunc(a, b))
        },
        BinOp::Modulus => if b == 0 {
            Err(EvalError::DivisionByZero)
        } else if a == i64::MIN && b == -1 {
            Err(EvalError::Overflow)
        } else {
            Ok(rem_trunc(a, b))
        },
        BinOp::Exponent => Ok(pow_wrap(a, (b as u32) as nat)),
        _ => Err(EvalError::UndefinedOperation),
    }
}

/// Payload of a bitwise operator on two integer payloads.  A shift amount
/// is read as an unsigned 32-bit value and masked modulo the width.
pub open spec fn bit_int_payload(op: BinOp, a: i64, b: i64) -> i64 {
    match op {
        BinOp::BitwiseAnd => a & b,
        BinOp::BitwiseOr => a | b,
        BinOp::BitwiseXor => a ^ b,
        BinOp::LeftShift => i64_specs::wrapping_shl(a, b as u32),
        BinOp::RightShift => i64_specs::wrapping_shr(a, b as u32),
        _ => 0,
    }
}

/// The full operator table.  `fans` stands for the float interpreter's
/// answer where the result is float-tagged, and `ians` for its truncation
/// answer where a float on the left of a bitwise operator (or under a
/// root) is read as an integer; all other entries ignore both.
///
/// Two entries are deliberate oddities of the table: bitwise or of two
/// hexadecimal operands computes bitwise and, and the root of two
/// integer-tagged operands carries the interpreter's whole composite
/// answer under the left tag.
pub open spec fn combine_spec(op: BinOp, l: Constant, r: Constant, fans: u64, ians: i64) -> Result<
    Constant,
    EvalError,
> {
    if is_arith_op(op) {
        if is_int_tagged(l) && is_int_tagged(r) {
            match arith_int_payload(op, constant_bits(l), constant_bits(r)) {
                Ok(v) => Ok(retag(arith_pick(l, r), v)),
                Err(e) => Err(e),
            }
        } else if l is Float && r is Float {
            if op == BinOp::Addition || op == BinOp::Multiplication {
                Ok(Constant::Float(fans))
            } else {
                Err(EvalError::UndefinedOperation)
            }
        } else if (l is Float && is_int_tagged(r)) || (is_int_tagged(l) && r is Float) {
            Ok(Constant::Float(fans))
        } else {
            Err(EvalError::UndefinedOperation)
        }
    } else if op == BinOp::Root {
        if is_int_tagged(l) && is_int_tagged(r) {
            Ok(retag(l, ians))
        } else if l is Float && is_int_tagged(r) {
            Ok(Constant::Float(fans))
        } else {
            Err(EvalError::UndefinedOperation)
        }
    } else {
        if is_int_tagged(l) && is_int_tagged(r) {
            if op == BinOp::BitwiseOr && l is Hexadecimal && r is Hexadecimal {
                Ok(Constant::Hexadecimal(constant_bits(l) & constant_bits(r)))
            } else {
                Ok(retag(bit_pick(l, r), bit_int_payload(op, constant_bits(l), constant_bits(r))))
            }
        } else if l is Float && is_int_tagged(r) && op != BinOp::BitwiseAnd {
            Ok(Constant::Integer(bit_int_payload(op, ians, constant_bits(r))))
        } else {
            Err(EvalError::UndefinedOperation)
        }
    }
}

/// Holds where `res` is a correct combination of `l` and `r` under `op`:
/// exact wherever the float interpreter is not consulted.
pub open spec fn combine_rel(op: BinOp, l: Constant, r: Constant, res: Result<
    Constant,
    EvalError,
>) -> bool {
    exists|fans: u64, ians: i64| res == combine_spec(op, l, r, fans, ians)
}

/// Whether the table consults the float interpreter for this entry.
pub open spec fn combine_uses_floats(op: BinOp, l: Constant, r: Constant) -> bool {
    l is Float || r is Float || op == BinOp::Root
}

/// Negation: wrapping arithmetic negation of an integer payload under its
/// own tag; no rule for a float or the sentinel.
pub open spec fn negate_spec(c: Constant) -> Result<Constant, EvalError> {
    if is_int_tagged(c) {
        Ok(retag(c, i64_specs::wrapping_sub(0, constant_bits(c))))
    } else {
        Err(EvalError::UndefinedOperation)
    }
}

/// Bitwise not: complement of an integer payload under its own tag; a
/// float is first truncated by the interpreter (`ians`) and comes out
/// decimal-tagged; no rule for the sentinel.
pub open spec fn not_spec(c: Constant, ians: i64) -> Result<Constant, EvalError> {
    if is_int_tagged(c) {
        Ok(retag(c, !constant_bits(c)))
    } else if c is Float {
        Ok(Constant::Integer(!ians))
    } else {
        Err(EvalError::UndefinedOperation)
    }
}

/// Holds where `res` is a correct application of the unary operator.
pub open spec fn unary_rel(op: UnOp, c: Constant, res: Result<Constant, EvalError>) -> bool {
    match op {
        UnOp::Negate => res == negate_spec(c),
        UnOp::Not => exists|ians: i64| res == not_spec(c, ians),
    }
}

impl Constant {
    /// The payload where the tag is one of the four integer tags.
    pub fn int_payload(&self) -> (o: Option<i64>)
        ensures
            o is Some <==> is_int_tagged(*self),
            o is Some ==> o->0 == constant_bits(*self),
    {
        match self {
            Constant::Binary(i) => Some(*i),
            Constant::Integer(i) => Some(*i),
            Constant::Hexadecimal(i) => Some(*i),
            Constant::Octal(i) => Some(*i),
            _ => None,
        }
    }
}

fn arith_rank_exec(c: &Constant) -> (r: u8)
    ensures
        r as int == arith_rank(*c),
{
    match c {
        Constant::Integer(_) => 0,
        Constant::Binary(_) => 1,
        Constant::Hexadecimal(_) => 2,
        Constant::Octal(_) => 3,
        _ => 4,
    }
}

fn bit_rank_exec(c: &Constant) -> (r: u8)
    ensures
        r as int == bit_rank(*c),
{
    match c {
        Constant::Binary(_) => 0,
        Constant::Hexadecimal(_) => 1,
        Constant::Octal(_) => 2,
        Constant::Integer(_) => 3,
        _ => 4,
    }
}

fn retag_exec(sample: &Constant, v: i64) -> (c: Constant)
    ensures
        c == retag(*sample, v),
{
    match sample {
        Constant::Binary(_) => Constant::Binary(v),
        Constant::Hexadecimal(_) => Constant::Hexadecimal(v),
        Constant::Octal(_) => Constant::Octal(v),
        _ => Constant::Integer(v),
    }
}

/// Magnitude of a signed 64-bit value, exact also at the minimum.
fn mag64(x: i64) -> (m: u64)
    ensures
        m as nat == mag(x),
{
    if x >= 0 {
        x as u64
    } else {
        ((-(x + 1)) as u64) + 1
    }
}

/// Signed division truncated toward zero.
fn div_i64(a: i64, b: i64) -> (q: i64)
    requires
        b != 0,
        !(a == i64::MIN && b == -1),
    ensures
        q == div_trunc(a, b),
{
    let ma = mag64(a);
    let mb = mag64(b);
    let mq = ma / mb;
    proof {
        assert(mq <= ma) by (nonlinear_arith)
            requires
                mb >= 1,
                mq == ma / mb,
                ma >= 0,
        ;
        if a == i64::MIN && b < 0 {
            assert(mb >= 2);
            assert(mq <= ma / 2) by (nonlinear_arith)
                requires
                    mb >= 2,
                    mq == ma / mb,
                    ma >= 0,
            ;
        }
    }
    if (a < 0) != (b < 0) {
        if mq == 0x8000_0000_0000_0000 {
            i64::MIN
        } else {
            -(mq as i64)
        }
    } else {
        mq as i64
    }
}

/// Signed remainder: the sign of the dividend on the magnitude remainder.
fn rem_i64(a: i64, b: i64) -> (m: i64)
    requires
        b != 0,
    ensures
        m == rem_trunc(a, b),
{
    let ma = mag64(a);
    let mb = mag64(b);
    let mr = ma % mb;
    proof {
        assert(mr < mb) by (nonlinear_arith)
            requires
                mb >= 1,
                mr == ma % mb,
                ma >= 0,
        ;
    }
    if a < 0 {
        (0 as i64).wrapping_sub(mr as i64)
    } else {
        mr as i64
    }
}

/// Wrapping integer power with an unsigned 32-bit exponent.
fn pow_i64(b: i64, e: u32) -> (p: i64)
    ensures
        p == pow_wrap(b, e as nat),
{
    let mut acc: i64 = 1;
    let mut i: u32 = 0;
    while i < e
        invariant
            i <= e,
            acc == pow_wrap(b, i as nat),
        decreases e - i,
    {
        acc = acc.wrapping_mul(b);
        i = i + 1;
    }
    acc
}

/// Payload of an arithmetic operator on two integer payloads.
fn arith_payload(op: BinOp, a: i64, b: i64) -> (r: Result<i64, EvalError>)
    requires
        is_arith_op(op),
    ensures
        r == arith_int_payload(op, a, b),
{
    match op {
        BinOp::Addition => Ok(a.wrapping_add(b)),
        BinOp::Subtraction => Ok(a.wrapping_sub(b)),
        BinOp::Multiplication => Ok(a.wrapping_mul(b)),
        BinOp::Division => {
            if b == 0 {
                Err(EvalError::DivisionByZero)
            } else if a == i64::MIN && b == -1 {
                Err(EvalError::Overflow)
            } else {
                Ok(div_i64(a, b))
            }
        },
        BinOp::Modulus => {
            if b == 0 {
                Err(EvalError::DivisionByZero)
            } else if a == i64::MIN && b == -1 {
                Err(EvalError::Overflow)
            } else {
                Ok(rem_i64(a, b))
            }
        },
        BinOp::Exponent => Ok(pow_i64(a, #[verifier::truncate] (b as u32))),
        _ => Err(EvalError::UndefinedOperation),
    }
}

/// Payload of a bitwise operator on two integer payloads.
fn bit_payload(op: BinOp, a: i64, b: i64) -> (r: i64)
    requires
        is_bit_op(op),
    ensures
        r == bit_int_payload(op, a, b),
{
    match op {
        BinOp::BitwiseAnd => a & b,
        BinOp::BitwiseOr => a | b,
        BinOp::BitwiseXor => a ^ b,
        BinOp::LeftShift => a.wrapping_shl(#[verifier::truncate] (b as u32)),
        BinOp::RightShift => a.wrapping_shr(#[verifier::truncate] (b as u32)),
        _ => 0,
    }
}

/// The float interpreter's answer for an arithmetic operator.
fn float_dispatch<F: FloatOps>(op: BinOp, a: u64, b: u64, ops: &F) -> u64
    requires
        is_arith_op(op),
{
    match op {
        BinOp::Addition => ops.add_bits(a, b),
        BinOp::Subtraction => ops.sub_bits(a, b),
        BinOp::Multiplication => ops.mul_bits(a, b),
        BinOp::Division => ops.div_bits(a, b),
        BinOp::Modulus => ops.rem_bits(a, b),
        _ => ops.pow_bits(a, b),
    }
}

/// An arithmetic operator applied to two constants: wrapping 64-bit
/// arithmetic under the arithmetic tag rule when both are integer-tagged,
/// the float interpreter's answer under the float tag when either side is
/// float-tagged (both sides only for addition and multiplication), the
/// fatal error otherwise.
pub fn arith_combine<F: FloatOps>(op: BinOp, l: Constant, r: Constant, ops: &F) -> (res: Result<
    Constant,
    EvalError,
>)
    requires
        is_arith_op(op),
    ensures
        combine_rel(op, l, r, res),
        !combine_uses_floats(op, l, r) ==> res == combine_spec(op, l, r, 0, 0),
{
    let lp = l.int_payload();
    let rp = r.int_payload();
    if lp.is_some() && rp.is_some() {
        let a = lp.unwrap();
        let b = rp.unwrap();
        let res = match arith_payload(op, a, b) {
            Ok(v) => Ok(retag_exec(if arith_rank_exec(&l) <= arith_rank_exec(&r) {
                &l
            } else {
                &r
            }, v)),
            Err(e) => Err(e),
        };
        proof {
            assert(res == combine_spec(op, l, r, 0, 0));
        }
        res
    } else {
        match (l, r) {
            (Constant::Float(a), Constant::Float(b)) => {
                if matches!(op, BinOp::Addition) {
                    let fans = ops.add_bits(a, b);
                    proof {
                        assert(Ok::<Constant, EvalError>(Constant::Float(fans)) == combine_spec(
                            op,
                            l,
                            r,
                            fans,
                            0,
                        ));
                    }
                    Ok(Constant::Float(fans))
                } else if matches!(op, BinOp::Multiplication) {
                    let fans = ops.mul_bits(a, b);
                    proof {
                        assert(Ok::<Constant, EvalError>(Constant::Float(fans)) == combine_spec(
                            op,
                            l,
                            r,
                            fans,
                            0,
                        ));
                    }
                    Ok(Constant::Float(fans))
                } else {
                    proof {
                        assert(Err::<Constant, EvalError>(EvalError::UndefinedOperation)
                            == combine_spec(op, l, r, 0, 0));
                    }
                    Err(EvalError::UndefinedOperation)
                }
            },
            (Constant::Float(a), _) => {
                match r.int_payload() {
                    Some(bi) => {
                        let fans = float_dispatch(op, a, ops.bits_of_int(bi), ops);
                        proof {
                            assert(Ok::<Constant, EvalError>(Constant::Float(fans))
                                == combine_spec(op, l, r, fans, 0));
                        }
                        Ok(Constant::Float(fans))
                    },
                    None => {
                        proof {
                            assert(Err::<Constant, EvalError>(EvalError::UndefinedOperation)
                                == combine_spec(op, l, r, 0, 0));
                        }
                        Err(EvalError::UndefinedOperation)
                    },
                }
            },
            (_, Constant::Float(b)) => {
                match l.int_payload() {
                    Some(ai) => {
                        let fans = float_dispatch(op, ops.bits_of_int(ai), b, ops);
                        proof {
                            assert(Ok::<Constant, EvalError>(Constant::Float(fans))
                                == combine_spec(op, l, r, fans, 0));
                        }
                        Ok(Constant::Float(fans))
                    },
                    None => {
                        proof {
                            assert(Err::<Constant, EvalError>(EvalError::UndefinedOperation)
                                == combine_spec(op, l, r, 0, 0));
                        }
                        Err(EvalError::UndefinedOperation)
                    },
                }
            },
            _ => {
                proof {
                    assert(Err::<Constant, EvalError>(EvalError::UndefinedOperation)
                        == combine_spec(op, l, r, 0, 0));
                }
                Err(EvalError::UndefinedOperation)
            },
        }
    }
}

/// The root operator: `l` raised to the reciprocal of `r`, computed wholly
/// by the float interpreter; an integer-tagged left operand keeps its tag
/// on the truncated answer, a float-tagged one stays float; the right
/// operand must be integer-tagged.
pub fn root_combine<F: FloatOps>(l: Constant, r: Constant, ops: &F) -> (res: Result<
    Constant,
    EvalError,
>)
    ensures
        combine_rel(BinOp::Root, l, r, res),
{
    let ghost op = BinOp::Root;
    match r.int_payload() {
        Some(n) => {
            // the reciprocal 1/n as floats: 1 is 0x3ff0000000000000
            let recip = ops.div_bits(0x3ff0000000000000, ops.bits_of_int(n));
            match (l, l.int_payload()) {
                (_, Some(a)) => {
                    let fb = ops.pow_bits(ops.bits_of_int(a), recip);
                    let ians = ops.int_of_bits(fb);
                    let res = retag_exec(&l, ians);
                    proof {
                        assert(Ok::<Constant, EvalError>(res) == combine_spec(op, l, r, 0, ians));
                    }
                    Ok(res)
                },
                (Constant::Float(a), _) => {
                    let fans = ops.pow_bits(a, recip);
                    proof {
                        assert(Ok::<Constant, EvalError>(Constant::Float(fans)) == combine_spec(
                            op,
                            l,
                            r,
                            fans,
                            0,
                        ));
                    }
                    Ok(Constant::Float(fans))
                },
                _ => {
                    proof {
                        assert(Err::<Constant, EvalError>(EvalError::UndefinedOperation)
                            == combine_spec(op, l, r, 0, 0));
                    }
                    Err(EvalError::UndefinedOperation)
                },
            }
        },
        None => {
            proof {
                assert(Err::<Constant, EvalError>(EvalError::UndefinedOperation) == combine_spec(
                    op,
                    l,
                    r,
                    0,
                    0,
                ));
            }
            Err(EvalError::UndefinedOperation)
        },
    }
}

/// A bitwise operator applied to two constants: payloads combined under
/// the bitwise tag rule when both are integer-tagged (bitwise or of two
/// hexadecimal operands deliberately computes bitwise and; the table keeps
/// that oddity on purpose); a float on the left is truncated by the
/// interpreter and the result is decimal-tagged (no float rule for
/// bitwise and); everything else is the fatal error.
pub fn bitwise_combine<F: FloatOps>(op: BinOp, l: Constant, r: Constant, ops: &F) -> (res: Result<
    Constant,
    EvalError,
>)
    requires
        is_bit_op(op),
    ensures
        combine_rel(op, l, r, res),
        !combine_uses_floats(op, l, r) ==> res == combine_spec(op, l, r, 0, 0),
{
    let lp = l.int_payload();
    let rp = r.int_payload();
    if lp.is_some() && rp.is_some() {
        let a = lp.unwrap();
        let b = rp.unwrap();
        let res = if matches!(op, BinOp::BitwiseOr) && matches!(l, Constant::Hexadecimal(_))
            && matches!(r, Constant::Hexadecimal(_)) {
            Ok(Constant::Hexadecimal(a & b))
        } else {
            Ok(retag_exec(if bit_rank_exec(&l) <= bit_rank_exec(&r) {
                &l
            } else {
                &r
            }, bit_payload(op, a, b)))
        };
        proof {
            assert(res == combine_spec(op, l, r, 0, 0));
        }
        res
    } else {
        match (l, r.int_payload()) {
            (Constant::Float(a), Some(b)) => {
                if matches!(op, BinOp::BitwiseAnd) {
                    proof {
                        assert(Err::<Constant, EvalError>(EvalError::UndefinedOperation)
                            == combine_spec(op, l, r, 0, 0));
                    }
                    Err(EvalError::UndefinedOperation)
                } else {
                    let ians = ops.int_of_bits(a);
                    let v = bit_payload(op, ians, b);
                    proof {
                        assert(Ok::<Constant, EvalError>(Constant::Integer(v)) == combine_spec(
                            op,
                            l,
                            r,
                            0,
                            ians,
                        ));
                    }
                    Ok(Constant::Integer(v))
                }
            },
            _ => {
                proof {
                    assert(Err::<Constant, EvalError>(EvalError::UndefinedOperation)
                        == combine_spec(op, l, r, 0, 0));
                }
                Err(EvalError::UndefinedOperation)
            },
        }
    }
}

/// Wrapping negation of an integer-tagged constant under its own tag.
pub fn negate_constant(c: Constant) -> (res: Result<Constant, EvalError>)
    ensures
        res == negate_spec(c),
{
    match c.int_payload() {
        Some(v) => Ok(retag_exec(&c, (0 as i64).wrapping_sub(v))),
        None => Err(EvalError::UndefinedOperation),
    }
}

/// Bitwise complement: an integer payload under its own tag, a truncated
/// float under the decimal tag.
pub fn not_constant<F: FloatOps>(c: Constant, ops: &F) -> (res: Result<Constant, EvalError>)
    ensures
        unary_rel(UnOp::Not, c, res),
{
    match c.int_payload() {
        Some(v) => {
            let res = Ok(retag_exec(&c, !v));
            proof {
                assert(res == not_spec(c, 0));
            }
            res
        },
        None => match c {
            Constant::Float(b) => {
                let ians = ops.int_of_bits(b);
                proof {
                    assert(Ok::<Constant, EvalError>(Constant::Integer(!ians)) == not_spec(
                        c,
                        ians,
                    ));
                }
                Ok(Constant::Integer(!ians))
            },
            _ => {
                proof {
                    assert(Err::<Constant, EvalError>(EvalError::UndefinedOperation) == not_spec(
                        c,
                        0,
                    ));
                }
                Err(EvalError::UndefinedOperation)
            },
        },
    }
}

} // verus!
