//! Tagged 64-bit constants and the target coercion.
//!
//! A `Constant` carries one 64-bit payload under a base tag.  The four
//! integer tags share a signed 64-bit payload; the float tag's payload is
//! the raw IEEE-754 bit pattern of the value.  Coercing between integer
//! tags, and from the float tag to an integer tag, relabels the payload
//! bits without changing them; only coercion from an integer tag to the
//! float tag is a numeric conversion, which the float interpreter answers.
use vstd::prelude::*;

use crate::floats::FloatOps;
use crate::tokens::Token;
use crate::tokens::TokenV;

verus! {

/// A tagged numeric value: a signed 64-bit payload under an integer base
/// tag, or an IEEE-754 bit pattern under the float tag.  `Nothing` is a
/// transient sentinel for a failed conversion, never a valid result.
#[derive(Debug, Clone, Copy, PartialEq, Eq, Structural)]
pub enum Constant {
    Binary(i64),
    Integer(i64),
    Float(u64),
    Hexadecimal(i64),
    Octal(i64),
    Nothing,
}

/// The caller-chosen base tag of the final result.  When carried over a
/// wire as a number, the tags count from zero in the order written here.
#[derive(Debug, Clone, Copy, PartialEq, Eq, Structural)]
pub enum Target {
    Integer,
    Float,
    Binary,
    Hexadecimal,
    Octal,
}

/// The payload of a constant read as a signed 64-bit bit pattern: integer
/// payloads as they stand, float payloads relabeled bit for bit, zero for
/// the sentinel.
pub open spec fn constant_bits(c: Constant) -> i64 {
    match c {
        Constant::Binary(i) => i,
        Constant::Integer(i) => i,
        Constant::Float(b) => b as i64,
        Constant::Hexadecimal(i) => i,
        Constant::Octal(i) => i,
        Constant::Nothing => 0,
    }
}

/// What target coercion must return.  Coercion to an integer tag puts
/// `constant_bits` of the source under the new tag; coercion to the float
/// tag keeps a float payload, maps the sentinel to the zero pattern, and
/// for an integer payload holds whatever the float interpreter answered,
/// recorded here as `int_answer`.
pub open spec fn coerce_spec(c: Constant, t: Target, int_answer: u64) -> Constant {
    match t {
        Target::Integer => Constant::Integer(constant_bits(c)),
        Target::Binary => Constant::Binary(constant_bits(c)),
        Target::Hexadecimal => Constant::Hexadecimal(constant_bits(c)),
        Target::Octal => Constant::Octal(constant_bits(c)),
        Target::Float => match c {
            Constant::Float(b) => Constant::Float(b),
            Constant::Nothing => Constant::Float(0),
            _ => Constant::Float(int_answer),
        },
    }
}

/// Holds where `r` is a correct coercion of `c` into `t`: exact except that
/// an integer payload coerced to the float tag carries whatever the float
/// interpreter answered.
pub open spec fn coerce_rel(c: Constant, t: Target, r: Constant) -> bool {
    exists|ans: u64| r == coerce_spec(c, t, ans)
}

/// What building a constant from a token must return: literal tokens keep
/// their value under their own tag, a float literal holds the
/// interpreter's reading of its text (`dec_answer`), and any other token
/// gives the sentinel.
pub open spec fn from_tok_spec(t: TokenV, dec_answer: u64) -> Constant {
    match t {
        TokenV::Binary(i) => Constant::Binary(i),
        TokenV::Integer(i) => Constant::Integer(i),
        TokenV::Float(_) => Constant::Float(dec_answer),
        TokenV::Hexadecimal(i) => Constant::Hexadecimal(i),
        TokenV::Octal(i) => Constant::Octal(i),
        _ => Constant::Nothing,
    }
}

/// Holds where `r` is a correct reading of token `t`: exact except that a
/// float literal's payload is the interpreter's answer for its text.
pub open spec fn from_tok_rel(t: TokenV, r: Constant) -> bool {
    exists|ans: u64| r == from_tok_spec(t, ans)
}

impl Constant {
    /// The constant a literal token denotes.  A non-literal token gives the
    /// sentinel; a float literal's payload is the interpreter's reading of
    /// the literal text.
    pub fn from_tok<F: FloatOps>(t: Token, ops: &F) -> (r: Constant)
        ensures
            from_tok_rel(t@, r),
            !(t@ is Float) ==> r == from_tok_spec(t@, 0),
    {
        match t {
            Token::Binary(i) => Constant::Binary(i),
            Token::Integer(i) => Constant::Integer(i),
            Token::Float(text) => {
                let ans = ops.bits_of_dec(text.as_slice());
                proof {
                    assert(Constant::Float(ans) == from_tok_spec(t@, ans));
                }
                Constant::Float(ans)
            },
            Token::Hexadecimal(i) => Constant::Hexadecimal(i),
            Token::Octal(i) => Constant::Octal(i),
            _ => Constant::Nothing,
        }
    }

    /// The constant relabeled or converted into the target tag.  Toward an
    /// integer tag this is a pure bit-pattern relabeling of the payload;
    /// toward the float tag an integer payload is converted numerically by
    /// the float interpreter.
    pub fn into_target_constant<F: FloatOps>(self, target: Target, ops: &F) -> (r: Constant)
        ensures
            coerce_rel(self, target, r),
            !(target is Float) ==> r == coerce_spec(self, target, 0),
            target is Float && (self is Float || self is Nothing) ==> r == coerce_spec(
                self,
                target,
                0,
            ),
    {
        let r = match target {
            Target::Integer => Constant::Integer(self.bits_i64()),
            Target::Binary => Constant::Binary(self.bits_i64()),
            Target::Hexadecimal => Constant::Hexadecimal(self.bits_i64()),
            Target::Octal => Constant::Octal(self.bits_i64()),
            Target::Float => match self {
                Constant::Float(b) => Constant::Float(b),
                Constant::Nothing => Constant::Float(0),
                Constant::Binary(i) => Constant::Float(ops.bits_of_int(i)),
                Constant::Integer(i) => Constant::Float(ops.bits_of_int(i)),
                Constant::Hexadecimal(i) => Constant::Float(ops.bits_of_int(i)),
                Constant::Octal(i) => Constant::Float(ops.bits_of_int(i)),
            },
        };
        proof {
            if target is Float && !(self is Float) && !(self is Nothing) {
                assert(r == coerce_spec(self, target, r->Float_0));
            } else {
                assert(r == coerce_spec(self, target, 0));
            }
        }
        r
    }

    /// The payload as a signed 64-bit bit pattern: a float payload is
    /// relabeled bit for bit, not truncated; the sentinel gives zero.
    pub fn bits_i64(self) -> (r: i64)
        ensures
            r == constant_bits(self),
    {
        match self {
            Constant::Binary(i) => i,
            Constant::Integer(i) => i,
            Constant::Float(b) => #[verifier::truncate] (b as i64),
            Constant::Hexadecimal(i) => i,
            Constant::Octal(i) => i,
            Constant::Nothing => 0,
        }
    }
}

} // verus!
