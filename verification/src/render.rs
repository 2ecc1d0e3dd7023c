//! Rendering numbers back to digit text.
//!
//! The precedence rewriter re-emits every integer-tagged literal as plain
//! decimal text, and the wire form of a constant renders its payload in the
//! base its tag names.  Rendering is proved to invert the digit-string
//! reading of the tokenizer.
use vstd::prelude::*;

use crate::eval::mag;
use crate::tokens::digit_value;
use crate::tokens::radix_value;

verus! {

/// The byte for one digit value: `0`-`9`, then `a`-`f`.
pub open spec fn digit_byte(d: nat) -> u8 {
    if d < 10 {
        (48 + d) as u8
    } else {
        (87 + d) as u8
    }
}

/// The digits of `n` in radix `r`, most significant first, no sign and no
/// prefix; zero is the single digit `0`.
pub open spec fn radix_digits(n: nat, r: nat) -> Seq<u8>
    decreases n,
    via radix_digits_decreases
{
    if n < r || r < 2 {
        seq![digit_byte(n % if r < 2 { 1 } else { r })]
    } else {
        radix_digits(n / r, r) + seq![digit_byte(n % r)]
    }
}

#[via_fn]
proof fn radix_digits_decreases(n: nat, r: nat) {
    if !(n < r || r < 2) {
        assert(n / r < n) by (nonlinear_arith)
            requires
                n >= r,
                r >= 2,
        ;
    }
}

/// Decimal text of a signed value: a minus sign before the magnitude's
/// digits where the value is negative.
pub open spec fn dec_text_i64(i: i64) -> Seq<u8> {
    if i >= 0 {
        radix_digits(i as nat, 10)
    } else {
        seq![45u8] + radix_digits(mag(i), 10)
    }
}

fn digit_byte_exec(d: u64) -> (b: u8)
    requires
        d < 16,
    ensures
        b == digit_byte(d as nat),
{
    if d < 10 {
        48 + (d as u8)
    } else {
        87 + (d as u8)
    }
}

/// The digits of `n` in radix `r`, matching [`radix_digits`].
pub fn radix_digits_u64(n: u64, r: u64) -> (v: Vec<u8>)
    requires
        r == 2 || r == 8 || r == 10 || r == 16,
    ensures
        v@ == radix_digits(n as nat, r as nat),
    decreases n,
{
    if n < r {
        let mut v: Vec<u8> = Vec::new();
        v.push(digit_byte_exec(n % r));
        proof {
            assert(v@ =~= seq![digit_byte((n % r) as nat)]);
            assert((n % r) as nat == n as nat % r as nat);
        }
        v
    } else {
        let mut v = radix_digits_u64(n / r, r);
        v.push(digit_byte_exec(n % r));
        proof {
            assert((n / r) as nat == n as nat / r as nat);
            assert((n % r) as nat == n as nat % r as nat);
            assert(v@ =~= radix_digits(n as nat / r as nat, r as nat) + seq![
                digit_byte(n as nat % r as nat),
            ]);
        }
        v
    }
}

/// Decimal text of a signed value, matching [`dec_text_i64`].
pub fn dec_bytes_i64(i: i64) -> (v: Vec<u8>)
    ensures
        v@ == dec_text_i64(i),
{
    if i >= 0 {
        radix_digits_u64(i as u64, 10)
    } else {
        let m = if i == i64::MIN {
            9223372036854775808u64
        } else {
            (-i) as u64
        };
        proof {
            assert(m as nat == mag(i));
        }
        let digits = radix_digits_u64(m, 10);
        let mut v: Vec<u8> = Vec::new();
        v.push(45);
        let mut j: usize = 0;
        while j < digits.len()
            invariant
                j <= digits@.len(),
                v@ == seq![45u8] + digits@.subrange(0, j as int),
            decreases digits@.len() - j,
        {
            let b = digits[j];
            v.push(b);
            proof {
                assert(v@ =~= seq![45u8] + digits@.subrange(0, j + 1));
            }
            j = j + 1;
        }
        proof {
            assert(digits@.subrange(0, digits@.len() as int) =~= digits@);
        }
        v
    }
}

/// Every digit byte is a digit of its radix.
pub proof fn lemma_radix_digits_wf(n: nat, r: nat)
    requires
        r == 2 || r == 8 || r == 10 || r == 16,
        n < r || r >= 2,
    ensures
        radix_digits(n, r).len() >= 1,
        forall|j: int|
            0 <= j < radix_digits(n, r).len() ==> digit_value(#[trigger] radix_digits(n, r)[j])
                < r && (r == 2 ==> crate::tokens::is_bin_digit(radix_digits(n, r)[j])) && (r == 8
                ==> crate::tokens::is_oct_digit(radix_digits(n, r)[j])) && (r == 10
                ==> crate::tokens::is_dec_digit(radix_digits(n, r)[j])) && (r == 16
                ==> crate::tokens::is_hex_digit(radix_digits(n, r)[j])),
    decreases n,
{
    if n < r {
    } else {
        lemma_radix_digits_wf(n / r, r);
    }
}

/// Reading rendered digits gives the value back.
pub proof fn lemma_radix_round_trip(n: nat, r: nat)
    requires
        r == 2 || r == 8 || r == 10 || r == 16,
    ensures
        radix_value(radix_digits(n, r), r) == n,
    decreases n,
{
    if n < r {
        assert(n % r == n) by (nonlinear_arith)
            requires
                0 <= n < r,
        ;
        assert(radix_digits(n, r) =~= seq![digit_byte(n)]);
        assert(radix_digits(n, r).drop_last() =~= Seq::<u8>::empty());
        assert(digit_value(digit_byte(n)) == n);
        assert(radix_value(Seq::<u8>::empty(), r) == 0);
        assert(radix_value(radix_digits(n, r), r) == radix_value(
            radix_digits(n, r).drop_last(),
            r,
        ) * r + digit_value(radix_digits(n, r).last()));
        assert(radix_digits(n, r).last() == digit_byte(n));
    } else {
        lemma_radix_round_trip(n / r, r);
        let whole = radix_digits(n, r);
        assert(whole.drop_last() =~= radix_digits(n / r, r));
        assert(whole.last() == digit_byte(n % r));
        assert(n % r < r) by (nonlinear_arith)
            requires
                r >= 2,
                n >= 0,
        ;
        assert(digit_value(digit_byte(n % r)) == n % r);
        assert(whole.len() > 0);
        assert(radix_value(whole, r) == radix_value(whole.drop_last(), r) * r + digit_value(
            whole.last(),
        ));
        assert(radix_value(whole.drop_last(), r) == n / r);
        assert((n / r) * r + n % r == n) by {
            vstd::arithmetic::div_mod::lemma_fundamental_div_mod(n as int, r as int);
        }
        assert(radix_value(whole, r) == (n / r) * r + n % r);
    }
}

} // verus!
