//! Laws of the library, stated and proved over the same spec functions
//! that the executable functions' contracts use.
use vstd::prelude::*;

use crate::constants::Constant;
use crate::constants::Target;
use crate::constants::coerce_rel;
use crate::constants::coerce_spec;
use crate::render::lemma_radix_digits_wf;
use crate::render::lemma_radix_round_trip;
use crate::render::radix_digits;
use crate::calculate::ParseToken;
use crate::calculate::binop_of_ptoken;
use crate::calculate::spec_next_expression;
use crate::calculate::spec_next_value;
use crate::constants::constant_bits;
use crate::expressions::ConstExpression;
use crate::expressions::EnumExpression;
use crate::expressions::spec_binary_node;
use crate::tokens::LexingError;
use crate::tokens::TokenResultV;
use crate::tokens::TokenV;
use crate::tokens::is_oct_digit;
use crate::tokens::radix_value;
use crate::tokens::run_length;
use crate::tokens::scan_number;
use crate::tokens::scan_token;
use crate::tokens::spec_tokenize;

verus! {

/// Coercion into an integer tag never changes the payload: whatever the
/// source tag, the result carries `constant_bits` of the source — the same
/// 64 bits, relabeled.  In particular an integer-tag-to-integer-tag
/// coercion is a pure relabeling, and a float coerced to an integer tag
/// keeps its raw IEEE-754 pattern.
pub proof fn lemma_coercion_to_integer_tag_relabels(c: Constant, t: Target, r: Constant)
    requires
        !(t is Float),
        coerce_rel(c, t, r),
    ensures
        r == coerce_spec(c, t, 0),
        constant_bits(r) == constant_bits(c),
        t is Integer ==> r == Constant::Integer(constant_bits(c)),
        t is Binary ==> r == Constant::Binary(constant_bits(c)),
        t is Hexadecimal ==> r == Constant::Hexadecimal(constant_bits(c)),
        t is Octal ==> r == Constant::Octal(constant_bits(c)),
{
    let ans = choose|ans: u64| r == coerce_spec(c, t, ans);
    assert(coerce_spec(c, t, ans) == coerce_spec(c, t, 0));
}

/// The octal literal text of a bit pattern: the `0o` prefix before the
/// octal digits of the pattern read as unsigned.
pub open spec fn octal_literal_text(b: u64) -> Seq<u8> {
    seq![48u8, 111u8] + radix_digits(b as nat, 8)
}

/// Round trip of a float's bit pattern through an octal literal: a float
/// result coerced into the octal tag carries its raw bit pattern; writing
/// that pattern as an octal literal and tokenizing the literal gives one
/// octal token with the same pattern; coercing it into the hexadecimal tag
/// relabels the same bits once more.  The pattern must leave the sign bit
/// clear (a non-negative float), since a literal above the signed maximum
/// is a lexing failure, not a token.
pub proof fn lemma_float_octal_round_trip(b: u64, oc: Constant, hc: Constant)
    requires
        b <= i64::MAX,
        coerce_rel(Constant::Float(b), Target::Octal, oc),
        coerce_rel(oc, Target::Hexadecimal, hc),
    ensures
        oc == Constant::Octal(b as i64),
        spec_tokenize(octal_literal_text(b)) == seq![
            Ok::<TokenV, crate::tokens::LexingError>(TokenV::Octal(b as i64)),
        ],
        hc == Constant::Hexadecimal(b as i64),
{
    lemma_coercion_to_integer_tag_relabels(Constant::Float(b), Target::Octal, oc);
    lemma_coercion_to_integer_tag_relabels(oc, Target::Hexadecimal, hc);
    lemma_octal_literal_tokenizes(b);
}

/// Tokenizing the octal literal text of a pattern below the signed maximum
/// gives exactly one octal token carrying that pattern.
pub proof fn lemma_octal_literal_tokenizes(b: u64)
    requires
        b <= i64::MAX,
    ensures
        spec_tokenize(octal_literal_text(b)) == seq![
            Ok::<TokenV, crate::tokens::LexingError>(TokenV::Octal(b as i64)),
        ],
{
    let digits = radix_digits(b as nat, 8);
    let s = octal_literal_text(b);
    lemma_radix_digits_wf(b as nat, 8);
    assert(s.len() == 2 + digits.len());
    assert(s[0] == 48 && s[1] == 111);
    assert(is_oct_digit(s[2])) by {
        assert(s[2] == digits[0]);
    }
    // the digit run after the prefix is the whole remainder
    let p = (|b: u8| is_oct_digit(b));
    assert(s.skip(2) =~= digits);
    lemma_run_length_all(digits, p);
    let n = run_length(s.skip(2), p) as int;
    assert(n == digits.len());
    assert(s.subrange(2, 2 + n) =~= digits);
    lemma_radix_round_trip(b as nat, 8);
    assert(radix_value(digits, 8) == b as nat);
    // one token of the whole text, then nothing
    assert(!crate::tokens::is_whitespace_byte(s[0]));
    assert(scan_token(s) == scan_number(s));
    assert(scan_number(s).1 == s.len());
    assert(scan_number(s).0 == Ok::<TokenV, crate::tokens::LexingError>(
        TokenV::Octal(b as i64),
    ));
    assert(s.skip(s.len() as int) =~= Seq::<u8>::empty());
    assert(spec_tokenize(Seq::<u8>::empty()) =~= Seq::<TokenResultV>::empty());
    assert(spec_tokenize(s) == seq![scan_token(s).0] + spec_tokenize(
        s.skip(scan_token(s).1 as int),
    ));
    assert(spec_tokenize(s) =~= seq![
        Ok::<TokenV, crate::tokens::LexingError>(TokenV::Octal(b as i64)),
    ]);
}

/// A sequence all of whose bytes satisfy `p` is one whole run.
pub proof fn lemma_run_length_all(s: Seq<u8>, p: spec_fn(u8) -> bool)
    requires
        forall|j: int| 0 <= j < s.len() ==> p(#[trigger] s[j]),
    ensures
        run_length(s, p) == s.len(),
    decreases s.len(),
{
    if s.len() > 0 {
        lemma_run_length_all(s.drop_first(), p);
    }
}

} // verus!

verus! {

/// The token a single-byte operator scans to, for the bytes used below.
pub open spec fn single_op_token(b: u8) -> TokenV {
    if b == 43 {
        TokenV::Plus
    } else if b == 45 {
        TokenV::Minus
    } else {
        TokenV::Multiply
    }
}

/// A run of opening or closing parentheses tokenizes to that many
/// parenthesis tokens before the rest.
pub proof fn lemma_tokenize_parens(b: u8, n: nat, rest: Seq<u8>)
    requires
        b == 40 || b == 41,
    ensures
        spec_tokenize(crate::calculate::rep(b, n) + rest) == Seq::new(
            n,
            |i: int|
                if b == 40 {
                    Ok::<TokenV, crate::tokens::LexingError>(TokenV::LeftParenthesis)
                } else {
                    Ok::<TokenV, crate::tokens::LexingError>(TokenV::RightParenthesis)
                },
        ) + spec_tokenize(rest),
    decreases n,
{
    let toks = Seq::new(
        n,
        |i: int|
            if b == 40 {
                Ok::<TokenV, crate::tokens::LexingError>(TokenV::LeftParenthesis)
            } else {
                Ok::<TokenV, crate::tokens::LexingError>(TokenV::RightParenthesis)
            },
    );
    let s = crate::calculate::rep(b, n) + rest;
    if n == 0 {
        assert(s =~= rest);
        assert(toks =~= Seq::<TokenResultV>::empty());
    } else {
        lemma_tokenize_parens(b, (n - 1) as nat, rest);
        assert(s.len() > 0 && s[0] == b);
        assert(!crate::tokens::is_whitespace_byte(b));
        assert(scan_token(s).1 == 1 && scan_token(s).0 == (if b == 40 {
            Ok::<TokenV, crate::tokens::LexingError>(TokenV::LeftParenthesis)
        } else {
            Ok::<TokenV, crate::tokens::LexingError>(TokenV::RightParenthesis)
        }));
        assert(s.skip(1) =~= crate::calculate::rep(b, (n - 1) as nat) + rest);
        assert(spec_tokenize(s) == seq![scan_token(s).0] + spec_tokenize(s.skip(1)));
        assert(toks =~= seq![toks[0]] + Seq::new(
            (n - 1) as nat,
            |i: int|
                if b == 40 {
                    Ok::<TokenV, crate::tokens::LexingError>(TokenV::LeftParenthesis)
                } else {
                    Ok::<TokenV, crate::tokens::LexingError>(TokenV::RightParenthesis)
                },
        ));
        assert(spec_tokenize(s) =~= toks + spec_tokenize(rest));
    }
}

/// A plus, minus or star before a byte that cannot extend it tokenizes to
/// that one operator before the rest.
pub proof fn lemma_tokenize_single_op(b: u8, rest: Seq<u8>)
    requires
        b == 43 || b == 45 || b == 42,
        b == 42 ==> rest.len() > 0 && rest[0] != 42,
    ensures
        spec_tokenize(seq![b] + rest) == seq![
            Ok::<TokenV, crate::tokens::LexingError>(single_op_token(b)),
        ] + spec_tokenize(rest),
{
    let s = seq![b] + rest;
    assert(s[0] == b && !crate::tokens::is_whitespace_byte(b));
    if b == 42 {
        assert(s[1] == rest[0]);
    }
    assert(scan_token(s).1 == 1 && scan_token(s).0 == Ok::<TokenV, crate::tokens::LexingError>(
        single_op_token(b),
    ));
    assert(s.skip(1) =~= rest);
    assert(spec_tokenize(s) =~= seq![Ok::<TokenV, crate::tokens::LexingError>(single_op_token(b))]
        + spec_tokenize(rest));
}

/// Decimal digit text of a non-negative value followed by a closing
/// parenthesis tokenizes to that one integer token before the rest.
pub proof fn lemma_tokenize_dec(v: i64, rest: Seq<u8>)
    requires
        v >= 0,
        rest.len() > 0,
        rest[0] == 41,
    ensures
        spec_tokenize(crate::render::dec_text_i64(v) + rest) == seq![
            Ok::<TokenV, crate::tokens::LexingError>(TokenV::Integer(v)),
        ] + spec_tokenize(rest),
{
    let digits = radix_digits(v as nat, 10);
    assert(crate::render::dec_text_i64(v) == digits);
    let s = digits + rest;
    lemma_radix_digits_wf(v as nat, 10);
    let p = (|b: u8| crate::tokens::is_dec_digit(b));
    assert(forall|j: int| 0 <= j < digits.len() ==> p(#[trigger] digits[j]));
    assert(forall|j: int| 0 <= j < digits.len() ==> s[j] == digits[j]);
    assert(crate::tokens::is_dec_digit(s[0]));
    assert(!crate::tokens::is_whitespace_byte(s[0]));
    let d = digits.len() as int;
    assert(s[d] == 41);
    lemma_run_length_exact_pub(s, d, p);
    // the radix-prefix branches cannot fire: the byte after a zero is a
    // digit or the closing parenthesis, never a radix letter
    assert(s.len() > 2 ==> s[1] == 41 || crate::tokens::is_dec_digit(s[1]));
    assert(scan_number(s).1 == d as nat);
    assert(s.subrange(0, d) =~= digits);
    lemma_radix_round_trip(v as nat, 10);
    assert(scan_number(s).0 == Ok::<TokenV, crate::tokens::LexingError>(TokenV::Integer(v)));
    assert(scan_token(s) == scan_number(s));
    assert(s.skip(d) =~= rest);
    assert(spec_tokenize(s) == seq![scan_token(s).0] + spec_tokenize(s.skip(d)));
    assert(spec_tokenize(s) =~= seq![Ok::<TokenV, crate::tokens::LexingError>(TokenV::Integer(v))]
        + spec_tokenize(rest));
}

/// A run of matching bytes closed off by a non-matching byte pins the run.
pub proof fn lemma_run_length_exact_pub(s: Seq<u8>, n: int, p: spec_fn(u8) -> bool)
    requires
        0 <= n <= s.len(),
        forall|j: int| 0 <= j < n ==> p(s[j]),
        n == s.len() || !p(s[n]),
    ensures
        run_length(s, p) == n,
    decreases n,
{
    if n == 0 {
    } else {
        assert(p(s[0]));
        lemma_run_length_exact_pub(s.drop_first(), n - 1, p);
    }
}

} // verus!

verus! {

/// The wrapping depth the rewriter gives each of the three operators.
pub open spec fn two_op_depth(opt: TokenV) -> nat {
    if opt == TokenV::Multiply {
        2
    } else {
        4
    }
}

pub open spec fn two_op_byte(opt: TokenV) -> u8 {
    if opt == TokenV::Plus {
        43
    } else if opt == TokenV::Minus {
        45
    } else {
        42
    }
}

pub open spec fn lparen_toks(n: nat) -> Seq<TokenResultV> {
    Seq::new(n, |i: int| Ok::<TokenV, crate::tokens::LexingError>(TokenV::LeftParenthesis))
}

pub open spec fn rparen_toks(n: nat) -> Seq<TokenResultV> {
    Seq::new(n, |i: int| Ok::<TokenV, crate::tokens::LexingError>(TokenV::RightParenthesis))
}

/// The token form of the rewritten text of `a opt b`: the literals return
/// as plain integers, the operator sits between its closing and opening
/// wraps, and eight outer parentheses enclose the whole.
pub open spec fn two_op_wrapped_tokens(a: i64, opt: TokenV, b: i64) -> Seq<TokenResultV> {
    lparen_toks(8) + seq![Ok::<TokenV, crate::tokens::LexingError>(TokenV::Integer(a))]
        + rparen_toks(two_op_depth(opt)) + seq![Ok::<TokenV, crate::tokens::LexingError>(opt)]
        + lparen_toks(two_op_depth(opt)) + seq![
        Ok::<TokenV, crate::tokens::LexingError>(TokenV::Integer(b)),
    ] + rparen_toks(8)
}

/// Tokenizing the rewritten form of a two-operand integer expression gives
/// back the literals and the operator inside the synthetic parentheses.
pub proof fn lemma_two_op_rewrite_tokenizes(a: i64, opt: TokenV, b: i64)
    requires
        a >= 0,
        b >= 0,
        opt == TokenV::Plus || opt == TokenV::Minus || opt == TokenV::Multiply,
    ensures
        spec_tokenize(
            crate::calculate::spec_rewrite(
                seq![
                    Ok::<TokenV, crate::tokens::LexingError>(TokenV::Integer(a)),
                    Ok::<TokenV, crate::tokens::LexingError>(opt),
                    Ok::<TokenV, crate::tokens::LexingError>(TokenV::Integer(b)),
                ],
            ),
        ) == two_op_wrapped_tokens(a, opt, b),
{
    let ts = seq![
        Ok::<TokenV, crate::tokens::LexingError>(TokenV::Integer(a)),
        Ok::<TokenV, crate::tokens::LexingError>(opt),
        Ok::<TokenV, crate::tokens::LexingError>(TokenV::Integer(b)),
    ];
    let c = two_op_depth(opt);
    let ob = two_op_byte(opt);
    let rep = |x: u8, n: nat| crate::calculate::rep(x, n);
    let dec = |v: i64| crate::render::dec_text_i64(v);

    // unfold the rewriter on the three tokens
    assert(ts.drop_first() =~= seq![
        Ok::<TokenV, crate::tokens::LexingError>(opt),
        Ok::<TokenV, crate::tokens::LexingError>(TokenV::Integer(b)),
    ]);
    assert(ts.drop_first().drop_first() =~= seq![
        Ok::<TokenV, crate::tokens::LexingError>(TokenV::Integer(b)),
    ]);
    assert(ts.drop_first().drop_first().drop_first() =~= Seq::<TokenResultV>::empty());
    assert(crate::calculate::emit_token(opt, true) == crate::calculate::wrapped(c, ob, false));
    let body = crate::calculate::rewrite_body(ts, false);
    let t1 = ts.drop_first();
    let t2 = t1.drop_first();
    let t3 = t2.drop_first();
    assert(crate::calculate::token_value_producing(TokenV::Integer(a)));
    assert(!crate::calculate::token_value_producing(opt));
    assert(crate::calculate::rewrite_body(t3, true) =~= Seq::<u8>::empty());
    assert(crate::calculate::rewrite_body(t2, false) == crate::calculate::emit_token(
        TokenV::Integer(b),
        false,
    ) + crate::calculate::rewrite_body(t3, true));
    assert(crate::calculate::rewrite_body(t1, true) == crate::calculate::emit_token(opt, true)
        + crate::calculate::rewrite_body(t2, false));
    assert(body == crate::calculate::emit_token(TokenV::Integer(a), false)
        + crate::calculate::rewrite_body(t1, true));
    assert(crate::calculate::emit_token(TokenV::Integer(a), false) == dec(a));
    assert(crate::calculate::emit_token(TokenV::Integer(b), false) == dec(b));
    assert(body == dec(a) + (crate::calculate::wrapped(c, ob, false) + (dec(b) + Seq::<
        u8,
    >::empty())));

    // the rewritten bytes, reassociated as token-aligned pieces
    let rest6 = rep(41, 8);
    let rest5 = dec(b) + rest6;
    let rest4 = rep(40, c) + rest5;
    let rest3 = seq![ob] + rest4;
    let rest2 = rep(41, c) + rest3;
    let rest1 = dec(a) + rest2;
    let whole = crate::calculate::spec_rewrite(ts);
    assert(whole =~= rep(40, 8) + rest1);

    // tokenize piece by piece
    lemma_tokenize_parens(41, 8, Seq::<u8>::empty());
    assert(rest6 =~= rep(41, 8) + Seq::<u8>::empty());
    assert(spec_tokenize(Seq::<u8>::empty()) =~= Seq::<TokenResultV>::empty());
    assert(spec_tokenize(rest6) =~= rparen_toks(8));

    assert(rest6[0] == 41);
    lemma_tokenize_dec(b, rest6);
    assert(spec_tokenize(rest5) =~= seq![
        Ok::<TokenV, crate::tokens::LexingError>(TokenV::Integer(b)),
    ] + rparen_toks(8));

    lemma_tokenize_parens(40, c, rest5);
    assert(spec_tokenize(rest4) =~= lparen_toks(c) + spec_tokenize(rest5));

    assert(rest4[0] == 40);
    lemma_tokenize_single_op(ob, rest4);
    assert(single_op_token(ob) == opt);
    assert(spec_tokenize(rest3) =~= seq![Ok::<TokenV, crate::tokens::LexingError>(opt)]
        + spec_tokenize(rest4));

    lemma_tokenize_parens(41, c, rest3);
    assert(spec_tokenize(rest2) =~= rparen_toks(c) + spec_tokenize(rest3));

    assert(rest2[0] == 41);
    lemma_tokenize_dec(a, rest2);
    assert(spec_tokenize(rest1) =~= seq![
        Ok::<TokenV, crate::tokens::LexingError>(TokenV::Integer(a)),
    ] + spec_tokenize(rest2));

    lemma_tokenize_parens(40, 8, rest1);
    assert(spec_tokenize(whole) =~= lparen_toks(8) + spec_tokenize(rest1));

    assert(spec_tokenize(whole) =~= two_op_wrapped_tokens(a, opt, b));
}

} // verus!

verus! {

/// A constant integer leaf.
pub open spec fn leaf_int(v: i64) -> EnumExpression {
    EnumExpression::Constant(ConstExpression { constant: Constant::Integer(v) })
}

pub open spec fn lparen_ptoks(n: nat) -> Seq<Result<ParseToken, LexingError>> {
    Seq::new(n, |i: int| Ok::<ParseToken, LexingError>(ParseToken::LeftParenthesis))
}

pub open spec fn rparen_ptoks(n: nat) -> Seq<Result<ParseToken, LexingError>> {
    Seq::new(n, |i: int| Ok::<ParseToken, LexingError>(ParseToken::RightParenthesis))
}

} // verus!

verus! {

/// The resolved form of each operator token.
pub open spec fn two_op_ptoken(opt: TokenV) -> ParseToken {
    if opt == TokenV::Plus {
        ParseToken::Plus
    } else if opt == TokenV::Minus {
        ParseToken::Minus
    } else {
        ParseToken::Multiply
    }
}

/// The standard wrapping value of the two-operand expression.
pub open spec fn two_op_value(opt: TokenV, a: i64, b: i64) -> i64 {
    if opt == TokenV::Plus {
        vstd::wrapping::i64_specs::wrapping_add(a, b)
    } else if opt == TokenV::Minus {
        vstd::wrapping::i64_specs::wrapping_sub(a, b)
    } else {
        vstd::wrapping::i64_specs::wrapping_mul(a, b)
    }
}

/// Evaluating a binary node over two decimal-integer leaves is
/// deterministic and gives the wrapping arithmetic payload under the
/// decimal tag.
pub proof fn lemma_eval_two_leaves(
    op: crate::eval::BinOp,
    a: i64,
    b: i64,
    ev: Result<Constant, crate::eval::EvalError>,
)
    requires
        op == crate::eval::BinOp::Addition || op == crate::eval::BinOp::Subtraction || op
            == crate::eval::BinOp::Multiplication,
        crate::expressions::eval_rel(spec_binary_node(op, leaf_int(a), leaf_int(b)), ev),
    ensures
        ev == Ok::<Constant, crate::eval::EvalError>(
            Constant::Integer(
                match op {
                    crate::eval::BinOp::Addition => vstd::wrapping::i64_specs::wrapping_add(a, b),
                    crate::eval::BinOp::Subtraction => vstd::wrapping::i64_specs::wrapping_sub(
                        a,
                        b,
                    ),
                    _ => vstd::wrapping::i64_specs::wrapping_mul(a, b),
                },
            ),
        ),
{
    let e = spec_binary_node(op, leaf_int(a), leaf_int(b));
    let be = e->Binary_0;
    assert(crate::expressions::binary_children(be) == (leaf_int(a), leaf_int(b)));
    assert(crate::expressions::binary_op_of(be) == op);
    let (lr, rr) = choose|
        lr: Result<Constant, crate::eval::EvalError>,
        rr: Result<Constant, crate::eval::EvalError>,
    |
        crate::expressions::eval_rel(crate::expressions::binary_children(be).0, lr)
            && crate::expressions::eval_rel(crate::expressions::binary_children(be).1, rr)
            && #[trigger] crate::expressions::binary_step(be, lr, rr, ev);
    assert(lr == Ok::<Constant, crate::eval::EvalError>(Constant::Integer(a)));
    assert(rr == Ok::<Constant, crate::eval::EvalError>(Constant::Integer(b)));
    assert(crate::eval::combine_rel(op, Constant::Integer(a), Constant::Integer(b), ev));
    let (fans, ians) = choose|fans: u64, ians: i64|
        ev == crate::eval::combine_spec(op, Constant::Integer(a), Constant::Integer(b), fans, ians);
    assert(crate::eval::combine_spec(op, Constant::Integer(a), Constant::Integer(b), fans, ians)
        == crate::eval::combine_spec(op, Constant::Integer(a), Constant::Integer(b), 0, 0));
}

/// For a two-operand decimal-integer expression under `+`, `-` or `*` with
/// target Integer, the pipeline returns exactly the standard 64-bit
/// wrapping arithmetic of the two literals: the rewritten text tokenizes
/// back to the wrapped literals, the descent parses them into one binary
/// node, evaluation is the wrapping operation under the decimal tag, and
/// the target coercion keeps it.  Longer operator chains associate to the
/// right, so this law is stated for one operator.
pub proof fn theorem_two_operand_arithmetic(
    a: i64,
    opt: TokenV,
    b: i64,
    ps: Seq<Result<ParseToken, LexingError>>,
)
    requires
        a >= 0,
        b >= 0,
        opt == TokenV::Plus || opt == TokenV::Minus || opt == TokenV::Multiply,
        crate::calculate::tokens_resolve(
            spec_tokenize(
                crate::calculate::spec_rewrite(
                    seq![
                        Ok::<TokenV, LexingError>(TokenV::Integer(a)),
                        Ok::<TokenV, LexingError>(opt),
                        Ok::<TokenV, LexingError>(TokenV::Integer(b)),
                    ],
                ),
            ),
            ps,
        ),
    ensures
        spec_next_expression(ps, 0) is Some,
        forall|ev: Result<Constant, crate::eval::EvalError>|
            crate::expressions::eval_rel(#[trigger] spec_next_expression(ps, 0)->Some_0.0, ev)
                ==> ev == Ok::<Constant, crate::eval::EvalError>(
                Constant::Integer(two_op_value(opt, a, b)),
            ),
        forall|rc: Constant|
            #[trigger] coerce_rel(Constant::Integer(two_op_value(opt, a, b)), Target::Integer, rc)
                ==> rc == Constant::Integer(two_op_value(opt, a, b)),
{
    lemma_two_op_rewrite_tokenizes(a, opt, b);
    assert(two_op_wrapped_tokens(a, opt, b) =~= wrapped_tokens_general(
        a,
        opt,
        b,
        8,
        two_op_depth(opt),
    ));
    let pt = two_op_ptoken(opt);
    lemma_resolution_general(a, opt, b, 8, two_op_depth(opt) as int, ps);
    lemma_parse_wrapped_general(a, pt, b, 8, two_op_depth(opt) as int, ps);
    let op = binop_of_ptoken(pt)->Some_0;
    let node = spec_binary_node(op, leaf_int(a), leaf_int(b));
    assert(spec_next_expression(ps, 0)->Some_0.0 == node);
    assert forall|ev: Result<Constant, crate::eval::EvalError>|
        crate::expressions::eval_rel(#[trigger] spec_next_expression(ps, 0)->Some_0.0, ev)
            implies ev == Ok::<Constant, crate::eval::EvalError>(
        Constant::Integer(two_op_value(opt, a, b)),
    ) by {
        lemma_eval_two_leaves(op, a, b, ev);
    }
    assert forall|rc: Constant|
        #[trigger] coerce_rel(
            Constant::Integer(two_op_value(opt, a, b)),
            Target::Integer,
            rc,
        ) implies rc == Constant::Integer(two_op_value(opt, a, b)) by {
        lemma_coercion_to_integer_tag_relabels(
            Constant::Integer(two_op_value(opt, a, b)),
            Target::Integer,
            rc,
        );
    }
}

} // verus!

verus! {

/// The token form of the rewritten text of `a + b * c`: the plus is
/// wrapped four deep, the star two deep, inside eight outer parentheses.
pub open spec fn add_mul_wrapped_tokens(a: i64, b: i64, c: i64) -> Seq<TokenResultV> {
    lparen_toks(8) + seq![Ok::<TokenV, LexingError>(TokenV::Integer(a))] + rparen_toks(4) + seq![
        Ok::<TokenV, LexingError>(TokenV::Plus),
    ] + lparen_toks(4) + seq![Ok::<TokenV, LexingError>(TokenV::Integer(b))] + rparen_toks(2)
        + seq![Ok::<TokenV, LexingError>(TokenV::Multiply)] + lparen_toks(2) + seq![
        Ok::<TokenV, LexingError>(TokenV::Integer(c)),
    ] + rparen_toks(8)
}

/// Tokenizing the rewritten form of `a + b * c` gives back the literals
/// and both operators inside their precedence wraps.
pub proof fn lemma_add_mul_rewrite_tokenizes(a: i64, b: i64, c: i64)
    requires
        a >= 0,
        b >= 0,
        c >= 0,
    ensures
        spec_tokenize(
            crate::calculate::spec_rewrite(
                seq![
                    Ok::<TokenV, LexingError>(TokenV::Integer(a)),
                    Ok::<TokenV, LexingError>(TokenV::Plus),
                    Ok::<TokenV, LexingError>(TokenV::Integer(b)),
                    Ok::<TokenV, LexingError>(TokenV::Multiply),
                    Ok::<TokenV, LexingError>(TokenV::Integer(c)),
                ],
            ),
        ) == add_mul_wrapped_tokens(a, b, c),
{
    let ts = seq![
        Ok::<TokenV, LexingError>(TokenV::Integer(a)),
        Ok::<TokenV, LexingError>(TokenV::Plus),
        Ok::<TokenV, LexingError>(TokenV::Integer(b)),
        Ok::<TokenV, LexingError>(TokenV::Multiply),
        Ok::<TokenV, LexingError>(TokenV::Integer(c)),
    ];
    let rep = |x: u8, n: nat| crate::calculate::rep(x, n);
    let dec = |v: i64| crate::render::dec_text_i64(v);
    let t1 = ts.drop_first();
    let t2 = t1.drop_first();
    let t3 = t2.drop_first();
    let t4 = t3.drop_first();
    let t5 = t4.drop_first();
    assert(t5 =~= Seq::<TokenResultV>::empty());
    let body = crate::calculate::rewrite_body(ts, false);
    assert(crate::calculate::rewrite_body(t5, true) =~= Seq::<u8>::empty());
    assert(crate::calculate::rewrite_body(t4, false) == dec(c) + crate::calculate::rewrite_body(
        t5,
        true,
    ));
    assert(crate::calculate::rewrite_body(t3, true) == crate::calculate::wrapped(2, 42, false)
        + crate::calculate::rewrite_body(t4, false));
    assert(crate::calculate::rewrite_body(t2, false) == dec(b) + crate::calculate::rewrite_body(
        t3,
        true,
    ));
    assert(crate::calculate::rewrite_body(t1, true) == crate::calculate::wrapped(4, 43, false)
        + crate::calculate::rewrite_body(t2, false));
    assert(body == dec(a) + crate::calculate::rewrite_body(t1, true));

    let rest10 = rep(41, 8);
    let rest9 = dec(c) + rest10;
    let rest8 = rep(40, 2) + rest9;
    let rest7 = seq![42u8] + rest8;
    let rest6 = rep(41, 2) + rest7;
    let rest5 = dec(b) + rest6;
    let rest4 = rep(40, 4) + rest5;
    let rest3 = seq![43u8] + rest4;
    let rest2 = rep(41, 4) + rest3;
    let rest1 = dec(a) + rest2;
    let whole = crate::calculate::spec_rewrite(ts);
    assert(whole =~= rep(40, 8) + rest1);

    lemma_tokenize_parens(41, 8, Seq::<u8>::empty());
    assert(rest10 =~= rep(41, 8) + Seq::<u8>::empty());
    assert(spec_tokenize(Seq::<u8>::empty()) =~= Seq::<TokenResultV>::empty());
    assert(spec_tokenize(rest10) =~= rparen_toks(8));
    assert(rest10[0] == 41);
    lemma_tokenize_dec(c, rest10);
    assert(spec_tokenize(rest9) =~= seq![Ok::<TokenV, LexingError>(TokenV::Integer(c))]
        + rparen_toks(8));
    lemma_tokenize_parens(40, 2, rest9);
    assert(spec_tokenize(rest8) =~= lparen_toks(2) + spec_tokenize(rest9));
    assert(rest8[0] == 40);
    lemma_tokenize_single_op(42, rest8);
    assert(spec_tokenize(rest7) =~= seq![Ok::<TokenV, LexingError>(TokenV::Multiply)]
        + spec_tokenize(rest8));
    lemma_tokenize_parens(41, 2, rest7);
    assert(spec_tokenize(rest6) =~= rparen_toks(2) + spec_tokenize(rest7));
    assert(rest6[0] == 41);
    lemma_tokenize_dec(b, rest6);
    assert(spec_tokenize(rest5) =~= seq![Ok::<TokenV, LexingError>(TokenV::Integer(b))]
        + spec_tokenize(rest6));
    lemma_tokenize_parens(40, 4, rest5);
    assert(spec_tokenize(rest4) =~= lparen_toks(4) + spec_tokenize(rest5));
    assert(rest4[0] == 40);
    lemma_tokenize_single_op(43, rest4);
    assert(spec_tokenize(rest3) =~= seq![Ok::<TokenV, LexingError>(TokenV::Plus)]
        + spec_tokenize(rest4));
    lemma_tokenize_parens(41, 4, rest3);
    assert(spec_tokenize(rest2) =~= rparen_toks(4) + spec_tokenize(rest3));
    assert(rest2[0] == 41);
    lemma_tokenize_dec(a, rest2);
    assert(spec_tokenize(rest1) =~= seq![Ok::<TokenV, LexingError>(TokenV::Integer(a))]
        + spec_tokenize(rest2));
    lemma_tokenize_parens(40, 8, rest1);
    assert(spec_tokenize(whole) =~= lparen_toks(8) + spec_tokenize(rest1));
    assert(spec_tokenize(whole) =~= add_mul_wrapped_tokens(a, b, c));
}

/// Resolving the wrapped tokens of `a + b * c` is deterministic.
pub proof fn lemma_add_mul_resolution(
    a: i64,
    b: i64,
    c: i64,
    ps: Seq<Result<ParseToken, LexingError>>,
)
    requires
        crate::calculate::tokens_resolve(add_mul_wrapped_tokens(a, b, c), ps),
    ensures
        ps == seq![
        Ok::<ParseToken, LexingError>(ParseToken::LeftParenthesis),
        Ok::<ParseToken, LexingError>(ParseToken::LeftParenthesis),
        Ok::<ParseToken, LexingError>(ParseToken::LeftParenthesis),
        Ok::<ParseToken, LexingError>(ParseToken::LeftParenthesis),
        Ok::<ParseToken, LexingError>(ParseToken::LeftParenthesis),
        Ok::<ParseToken, LexingError>(ParseToken::LeftParenthesis),
        Ok::<ParseToken, LexingError>(ParseToken::LeftParenthesis),
        Ok::<ParseToken, LexingError>(ParseToken::LeftParenthesis),
        Ok::<ParseToken, LexingError>(ParseToken::Literal(Constant::Integer(a))),
        Ok::<ParseToken, LexingError>(ParseToken::RightParenthesis),
        Ok::<ParseToken, LexingError>(ParseToken::RightParenthesis),
        Ok::<ParseToken, LexingError>(ParseToken::RightParenthesis),
        Ok::<ParseToken, LexingError>(ParseToken::RightParenthesis),
        Ok::<ParseToken, LexingError>(ParseToken::Plus),
        Ok::<ParseToken, LexingError>(ParseToken::LeftParenthesis),
        Ok::<ParseToken, LexingError>(ParseToken::LeftParenthesis),
        Ok::<ParseToken, LexingError>(ParseToken::LeftParenthesis),
        Ok::<ParseToken, LexingError>(ParseToken::LeftParenthesis),
        Ok::<ParseToken, LexingError>(ParseToken::Literal(Constant::Integer(b))),
        Ok::<ParseToken, LexingError>(ParseToken::RightParenthesis),
        Ok::<ParseToken, LexingError>(ParseToken::RightParenthesis),
        Ok::<ParseToken, LexingError>(ParseToken::Multiply),
        Ok::<ParseToken, LexingError>(ParseToken::LeftParenthesis),
        Ok::<ParseToken, LexingError>(ParseToken::LeftParenthesis),
        Ok::<ParseToken, LexingError>(ParseToken::Literal(Constant::Integer(c))),
        Ok::<ParseToken, LexingError>(ParseToken::RightParenthesis),
        Ok::<ParseToken, LexingError>(ParseToken::RightParenthesis),
        Ok::<ParseToken, LexingError>(ParseToken::RightParenthesis),
        Ok::<ParseToken, LexingError>(ParseToken::RightParenthesis),
        Ok::<ParseToken, LexingError>(ParseToken::RightParenthesis),
        Ok::<ParseToken, LexingError>(ParseToken::RightParenthesis),
        Ok::<ParseToken, LexingError>(ParseToken::RightParenthesis),
        Ok::<ParseToken, LexingError>(ParseToken::RightParenthesis),
    ],
{
    let w = add_mul_wrapped_tokens(a, b, c);
    let pw = seq![
        Ok::<ParseToken, LexingError>(ParseToken::LeftParenthesis),
        Ok::<ParseToken, LexingError>(ParseToken::LeftParenthesis),
        Ok::<ParseToken, LexingError>(ParseToken::LeftParenthesis),
        Ok::<ParseToken, LexingError>(ParseToken::LeftParenthesis),
        Ok::<ParseToken, LexingError>(ParseToken::LeftParenthesis),
        Ok::<ParseToken, LexingError>(ParseToken::LeftParenthesis),
        Ok::<ParseToken, LexingError>(ParseToken::LeftParenthesis),
        Ok::<ParseToken, LexingError>(ParseToken::LeftParenthesis),
        Ok::<ParseToken, LexingError>(ParseToken::Literal(Constant::Integer(a))),
        Ok::<ParseToken, LexingError>(ParseToken::RightParenthesis),
        Ok::<ParseToken, LexingError>(ParseToken::RightParenthesis),
        Ok::<ParseToken, LexingError>(ParseToken::RightParenthesis),
        Ok::<ParseToken, LexingError>(ParseToken::RightParenthesis),
        Ok::<ParseToken, LexingError>(ParseToken::Plus),
        Ok::<ParseToken, LexingError>(ParseToken::LeftParenthesis),
        Ok::<ParseToken, LexingError>(ParseToken::LeftParenthesis),
        Ok::<ParseToken, LexingError>(ParseToken::LeftParenthesis),
        Ok::<ParseToken, LexingError>(ParseToken::LeftParenthesis),
        Ok::<ParseToken, LexingError>(ParseToken::Literal(Constant::Integer(b))),
        Ok::<ParseToken, LexingError>(ParseToken::RightParenthesis),
        Ok::<ParseToken, LexingError>(ParseToken::RightParenthesis),
        Ok::<ParseToken, LexingError>(ParseToken::Multiply),
        Ok::<ParseToken, LexingError>(ParseToken::LeftParenthesis),
        Ok::<ParseToken, LexingError>(ParseToken::LeftParenthesis),
        Ok::<ParseToken, LexingError>(ParseToken::Literal(Constant::Integer(c))),
        Ok::<ParseToken, LexingError>(ParseToken::RightParenthesis),
        Ok::<ParseToken, LexingError>(ParseToken::RightParenthesis),
        Ok::<ParseToken, LexingError>(ParseToken::RightParenthesis),
        Ok::<ParseToken, LexingError>(ParseToken::RightParenthesis),
        Ok::<ParseToken, LexingError>(ParseToken::RightParenthesis),
        Ok::<ParseToken, LexingError>(ParseToken::RightParenthesis),
        Ok::<ParseToken, LexingError>(ParseToken::RightParenthesis),
        Ok::<ParseToken, LexingError>(ParseToken::RightParenthesis),
    ];
    assert(w =~= seq![
        Ok::<TokenV, LexingError>(TokenV::LeftParenthesis),
        Ok::<TokenV, LexingError>(TokenV::LeftParenthesis),
        Ok::<TokenV, LexingError>(TokenV::LeftParenthesis),
        Ok::<TokenV, LexingError>(TokenV::LeftParenthesis),
        Ok::<TokenV, LexingError>(TokenV::LeftParenthesis),
        Ok::<TokenV, LexingError>(TokenV::LeftParenthesis),
        Ok::<TokenV, LexingError>(TokenV::LeftParenthesis),
        Ok::<TokenV, LexingError>(TokenV::LeftParenthesis),
        Ok::<TokenV, LexingError>(TokenV::Integer(a)),
        Ok::<TokenV, LexingError>(TokenV::RightParenthesis),
        Ok::<TokenV, LexingError>(TokenV::RightParenthesis),
        Ok::<TokenV, LexingError>(TokenV::RightParenthesis),
        Ok::<TokenV, LexingError>(TokenV::RightParenthesis),
        Ok::<TokenV, LexingError>(TokenV::Plus),
        Ok::<TokenV, LexingError>(TokenV::LeftParenthesis),
        Ok::<TokenV, LexingError>(TokenV::LeftParenthesis),
        Ok::<TokenV, LexingError>(TokenV::LeftParenthesis),
        Ok::<TokenV, LexingError>(TokenV::LeftParenthesis),
        Ok::<TokenV, LexingError>(TokenV::Integer(b)),
        Ok::<TokenV, LexingError>(TokenV::RightParenthesis),
        Ok::<TokenV, LexingError>(TokenV::RightParenthesis),
        Ok::<TokenV, LexingError>(TokenV::Multiply),
        Ok::<TokenV, LexingError>(TokenV::LeftParenthesis),
        Ok::<TokenV, LexingError>(TokenV::LeftParenthesis),
        Ok::<TokenV, LexingError>(TokenV::Integer(c)),
        Ok::<TokenV, LexingError>(TokenV::RightParenthesis),
        Ok::<TokenV, LexingError>(TokenV::RightParenthesis),
        Ok::<TokenV, LexingError>(TokenV::RightParenthesis),
        Ok::<TokenV, LexingError>(TokenV::RightParenthesis),
        Ok::<TokenV, LexingError>(TokenV::RightParenthesis),
        Ok::<TokenV, LexingError>(TokenV::RightParenthesis),
        Ok::<TokenV, LexingError>(TokenV::RightParenthesis),
        Ok::<TokenV, LexingError>(TokenV::RightParenthesis),
    ]);
    assert(ps.len() == w.len());
    assert forall|i: int| 0 <= i < ps.len() implies ps[i] == pw[i] by {
        assert(crate::calculate::result_resolves_to(w[i], ps[i]));
    }
    assert(ps =~= pw);
}

/// Parsing the wrapped tokens of `a + b * c` gives the addition of `a`
/// and the product of `b` and `c`: the deeper star wrap binds first.
pub proof fn lemma_parse_add_mul(
    a: i64,
    b: i64,
    c: i64,
    pw: Seq<Result<ParseToken, LexingError>>,
)
    requires
        pw == seq![
        Ok::<ParseToken, LexingError>(ParseToken::LeftParenthesis),
        Ok::<ParseToken, LexingError>(ParseToken::LeftParenthesis),
        Ok::<ParseToken, LexingError>(ParseToken::LeftParenthesis),
        Ok::<ParseToken, LexingError>(ParseToken::LeftParenthesis),
        Ok::<ParseToken, LexingError>(ParseToken::LeftParenthesis),
        Ok::<ParseToken, LexingError>(ParseToken::LeftParenthesis),
        Ok::<ParseToken, LexingError>(ParseToken::LeftParenthesis),
        Ok::<ParseToken, LexingError>(ParseToken::LeftParenthesis),
        Ok::<ParseToken, LexingError>(ParseToken::Literal(Constant::Integer(a))),
        Ok::<ParseToken, LexingError>(ParseToken::RightParenthesis),
        Ok::<ParseToken, LexingError>(ParseToken::RightParenthesis),
        Ok::<ParseToken, LexingError>(ParseToken::RightParenthesis),
        Ok::<ParseToken, LexingError>(ParseToken::RightParenthesis),
        Ok::<ParseToken, LexingError>(ParseToken::Plus),
        Ok::<ParseToken, LexingError>(ParseToken::LeftParenthesis),
        Ok::<ParseToken, LexingError>(ParseToken::LeftParenthesis),
        Ok::<ParseToken, LexingError>(ParseToken::LeftParenthesis),
        Ok::<ParseToken, LexingError>(ParseToken::LeftParenthesis),
        Ok::<ParseToken, LexingError>(ParseToken::Literal(Constant::Integer(b))),
        Ok::<ParseToken, LexingError>(ParseToken::RightParenthesis),
        Ok::<ParseToken, LexingError>(ParseToken::RightParenthesis),
        Ok::<ParseToken, LexingError>(ParseToken::Multiply),
        Ok::<ParseToken, LexingError>(ParseToken::LeftParenthesis),
        Ok::<ParseToken, LexingError>(ParseToken::LeftParenthesis),
        Ok::<ParseToken, LexingError>(ParseToken::Literal(Constant::Integer(c))),
        Ok::<ParseToken, LexingError>(ParseToken::RightParenthesis),
        Ok::<ParseToken, LexingError>(ParseToken::RightParenthesis),
        Ok::<ParseToken, LexingError>(ParseToken::RightParenthesis),
        Ok::<ParseToken, LexingError>(ParseToken::RightParenthesis),
        Ok::<ParseToken, LexingError>(ParseToken::RightParenthesis),
        Ok::<ParseToken, LexingError>(ParseToken::RightParenthesis),
        Ok::<ParseToken, LexingError>(ParseToken::RightParenthesis),
        Ok::<ParseToken, LexingError>(ParseToken::RightParenthesis),
    ],
    ensures
        spec_next_expression(pw, 0) == Some(
            (
                spec_binary_node(
                    crate::eval::BinOp::Addition,
                    leaf_int(a),
                    spec_binary_node(crate::eval::BinOp::Multiplication, leaf_int(b), leaf_int(c)),
                ),
                33int,
            ),
        ),
{
    let leafa = leaf_int(a);
    let leafb = leaf_int(b);
    let leafc = leaf_int(c);
    let mulnode = spec_binary_node(crate::eval::BinOp::Multiplication, leafb, leafc);
    let addnode = spec_binary_node(crate::eval::BinOp::Addition, leafa, mulnode);
    assert(spec_next_value(pw, 24) == Some((leafc, 25int)));
    assert(spec_next_expression(pw, 24) == Some((leafc, 26int)));
    assert(spec_next_value(pw, 23) == Some((leafc, 26int)));
    assert(spec_next_expression(pw, 23) == Some((leafc, 27int)));
    assert(spec_next_value(pw, 22) == Some((leafc, 27int)));
    assert(spec_next_expression(pw, 22) == Some((leafc, 28int)));
    assert(spec_next_value(pw, 18) == Some((leafb, 19int)));
    assert(spec_next_expression(pw, 18) == Some((leafb, 20int)));
    assert(spec_next_value(pw, 17) == Some((leafb, 20int)));
    assert(spec_next_expression(pw, 17) == Some((leafb, 21int)));
    assert(spec_next_value(pw, 16) == Some((leafb, 21int)));
    assert(binop_of_ptoken(ParseToken::Multiply) == Some(crate::eval::BinOp::Multiplication));
    assert(spec_next_expression(pw, 16) == Some((mulnode, 28int)));
    assert(spec_next_value(pw, 15) == Some((mulnode, 28int)));
    assert(spec_next_expression(pw, 15) == Some((mulnode, 29int)));
    assert(spec_next_value(pw, 14) == Some((mulnode, 29int)));
    assert(spec_next_expression(pw, 14) == Some((mulnode, 30int)));
    assert(spec_next_value(pw, 8) == Some((leafa, 9int)));
    assert(spec_next_expression(pw, 8) == Some((leafa, 10int)));
    assert(spec_next_value(pw, 7) == Some((leafa, 10int)));
    assert(spec_next_expression(pw, 7) == Some((leafa, 11int)));
    assert(spec_next_value(pw, 6) == Some((leafa, 11int)));
    assert(spec_next_expression(pw, 6) == Some((leafa, 12int)));
    assert(spec_next_value(pw, 5) == Some((leafa, 12int)));
    assert(spec_next_expression(pw, 5) == Some((leafa, 13int)));
    assert(spec_next_value(pw, 4) == Some((leafa, 13int)));
    assert(binop_of_ptoken(ParseToken::Plus) == Some(crate::eval::BinOp::Addition));
    assert(spec_next_expression(pw, 4) == Some((addnode, 30int)));
    assert(spec_next_value(pw, 3) == Some((addnode, 30int)));
    assert(spec_next_expression(pw, 3) == Some((addnode, 31int)));
    assert(spec_next_value(pw, 2) == Some((addnode, 31int)));
    assert(spec_next_expression(pw, 2) == Some((addnode, 32int)));
    assert(spec_next_value(pw, 1) == Some((addnode, 32int)));
    assert(spec_next_expression(pw, 1) == Some((addnode, 33int)));
    assert(spec_next_value(pw, 0) == Some((addnode, 33int)));
    assert(spec_next_expression(pw, 0) == Some((addnode, 33int)));
}

} // verus!

verus! {

/// Evaluating the parsed tree of `a + b * c` is deterministic: the product
/// first, then the sum, both wrapping.
pub proof fn lemma_eval_add_mul(
    a: i64,
    b: i64,
    c: i64,
    ev: Result<Constant, crate::eval::EvalError>,
)
    requires
        crate::expressions::eval_rel(
            spec_binary_node(
                crate::eval::BinOp::Addition,
                leaf_int(a),
                spec_binary_node(crate::eval::BinOp::Multiplication, leaf_int(b), leaf_int(c)),
            ),
            ev,
        ),
    ensures
        ev == Ok::<Constant, crate::eval::EvalError>(
            Constant::Integer(
                vstd::wrapping::i64_specs::wrapping_add(
                    a,
                    vstd::wrapping::i64_specs::wrapping_mul(b, c),
                ),
            ),
        ),
{
    let m = vstd::wrapping::i64_specs::wrapping_mul(b, c);
    let mulnode = spec_binary_node(crate::eval::BinOp::Multiplication, leaf_int(b), leaf_int(c));
    let e = spec_binary_node(crate::eval::BinOp::Addition, leaf_int(a), mulnode);
    let be = e->Binary_0;
    assert(crate::expressions::binary_children(be) == (leaf_int(a), mulnode));
    assert(crate::expressions::binary_op_of(be) == crate::eval::BinOp::Addition);
    let (lr, rr) = choose|
        lr: Result<Constant, crate::eval::EvalError>,
        rr: Result<Constant, crate::eval::EvalError>,
    |
        crate::expressions::eval_rel(crate::expressions::binary_children(be).0, lr)
            && crate::expressions::eval_rel(crate::expressions::binary_children(be).1, rr)
            && #[trigger] crate::expressions::binary_step(be, lr, rr, ev);
    assert(lr == Ok::<Constant, crate::eval::EvalError>(Constant::Integer(a)));
    lemma_eval_two_leaves(crate::eval::BinOp::Multiplication, b, c, rr);
    assert(rr == Ok::<Constant, crate::eval::EvalError>(Constant::Integer(m)));
    assert(crate::eval::combine_rel(
        crate::eval::BinOp::Addition,
        Constant::Integer(a),
        Constant::Integer(m),
        ev,
    ));
    let (fans, ians) = choose|fans: u64, ians: i64|
        ev == crate::eval::combine_spec(
            crate::eval::BinOp::Addition,
            Constant::Integer(a),
            Constant::Integer(m),
            fans,
            ians,
        );
    assert(crate::eval::combine_spec(
        crate::eval::BinOp::Addition,
        Constant::Integer(a),
        Constant::Integer(m),
        fans,
        ians,
    ) == crate::eval::combine_spec(
        crate::eval::BinOp::Addition,
        Constant::Integer(a),
        Constant::Integer(m),
        0,
        0,
    ));
}

/// The multiplication of `a + b * c` binds before the addition and the
/// pipeline returns the standard wrapping value, whatever the three
/// literals: the deeper synthetic wrap of the star resolves the precedence
/// with no table in the parser.
pub proof fn theorem_addition_multiplication_precedence(
    a: i64,
    b: i64,
    c: i64,
    ps: Seq<Result<ParseToken, LexingError>>,
)
    requires
        a >= 0,
        b >= 0,
        c >= 0,
        crate::calculate::tokens_resolve(
            spec_tokenize(
                crate::calculate::spec_rewrite(
                    seq![
                        Ok::<TokenV, LexingError>(TokenV::Integer(a)),
                        Ok::<TokenV, LexingError>(TokenV::Plus),
                        Ok::<TokenV, LexingError>(TokenV::Integer(b)),
                        Ok::<TokenV, LexingError>(TokenV::Multiply),
                        Ok::<TokenV, LexingError>(TokenV::Integer(c)),
                    ],
                ),
            ),
            ps,
        ),
    ensures
        spec_next_expression(ps, 0) is Some,
        forall|ev: Result<Constant, crate::eval::EvalError>|
            crate::expressions::eval_rel(#[trigger] spec_next_expression(ps, 0)->Some_0.0, ev)
                ==> ev == Ok::<Constant, crate::eval::EvalError>(
                Constant::Integer(
                    vstd::wrapping::i64_specs::wrapping_add(
                        a,
                        vstd::wrapping::i64_specs::wrapping_mul(b, c),
                    ),
                ),
            ),
{
    lemma_add_mul_rewrite_tokenizes(a, b, c);
    lemma_add_mul_resolution(a, b, c, ps);
    lemma_parse_add_mul(a, b, c, ps);
    let node = spec_binary_node(
        crate::eval::BinOp::Addition,
        leaf_int(a),
        spec_binary_node(crate::eval::BinOp::Multiplication, leaf_int(b), leaf_int(c)),
    );
    assert(spec_next_expression(ps, 0)->Some_0.0 == node);
    assert forall|ev: Result<Constant, crate::eval::EvalError>|
        crate::expressions::eval_rel(
            #[trigger] spec_next_expression(ps, 0)->Some_0.0,
            ev,
        ) implies ev == Ok::<Constant, crate::eval::EvalError>(
        Constant::Integer(
            vstd::wrapping::i64_specs::wrapping_add(
                a,
                vstd::wrapping::i64_specs::wrapping_mul(b, c),
            ),
        ),
    ) by {
        lemma_eval_add_mul(a, b, c, ev);
    }
}

} // verus!

verus! {

/// Whether a token is an integer-tagged literal, and its payload.
pub open spec fn int_literal_payload(t: TokenV) -> Option<i64> {
    match t {
        TokenV::Integer(i) => Some(i),
        TokenV::Binary(i) => Some(i),
        TokenV::Hexadecimal(i) => Some(i),
        TokenV::Octal(i) => Some(i),
        _ => None,
    }
}

/// A single integer-tagged literal runs through the whole pipeline as its
/// payload under the decimal tag: the rewriter re-emits the value as plain
/// decimal text, so the literal's base tag is re-derived from that text and
/// only the payload survives; the final coercion then relabels it into any
/// target.  This is the rewriter's documented literal-base loss, and it is
/// what makes the octal round trip of a float's bits exact.
pub proof fn theorem_single_literal_pipeline(
    t: TokenV,
    v: i64,
    ps: Seq<Result<ParseToken, LexingError>>,
)
    requires
        int_literal_payload(t) == Some(v),
        v >= 0,
        crate::calculate::tokens_resolve(
            spec_tokenize(
                crate::calculate::spec_rewrite(seq![Ok::<TokenV, LexingError>(t)]),
            ),
            ps,
        ),
    ensures
        spec_next_expression(ps, 0) is Some,
        forall|ev: Result<Constant, crate::eval::EvalError>|
            crate::expressions::eval_rel(#[trigger] spec_next_expression(ps, 0)->Some_0.0, ev)
                ==> ev == Ok::<Constant, crate::eval::EvalError>(Constant::Integer(v)),
{
    let ts = seq![Ok::<TokenV, LexingError>(t)];
    let rep = |x: u8, n: nat| crate::calculate::rep(x, n);
    let dec = |w: i64| crate::render::dec_text_i64(w);
    let t1 = ts.drop_first();
    assert(t1 =~= Seq::<TokenResultV>::empty());
    let body = crate::calculate::rewrite_body(ts, false);
    assert(crate::calculate::rewrite_body(t1, crate::calculate::token_value_producing(t)) =~= Seq::<
        u8,
    >::empty());
    assert(crate::calculate::emit_token(t, false) == dec(v));
    assert(body == dec(v) + crate::calculate::rewrite_body(
        t1,
        crate::calculate::token_value_producing(t),
    ));
    let rest2 = rep(41, 8);
    let rest1 = dec(v) + rest2;
    let whole = crate::calculate::spec_rewrite(ts);
    assert(whole =~= rep(40, 8) + rest1);
    lemma_tokenize_parens(41, 8, Seq::<u8>::empty());
    assert(rest2 =~= rep(41, 8) + Seq::<u8>::empty());
    assert(spec_tokenize(Seq::<u8>::empty()) =~= Seq::<TokenResultV>::empty());
    assert(spec_tokenize(rest2) =~= rparen_toks(8));
    assert(rest2[0] == 41);
    lemma_tokenize_dec(v, rest2);
    assert(spec_tokenize(rest1) =~= seq![Ok::<TokenV, LexingError>(TokenV::Integer(v))]
        + rparen_toks(8));
    lemma_tokenize_parens(40, 8, rest1);
    let w = lparen_toks(8) + seq![Ok::<TokenV, LexingError>(TokenV::Integer(v))] + rparen_toks(8);
    assert(spec_tokenize(whole) =~= w);

    let pw = seq![
        Ok::<ParseToken, LexingError>(ParseToken::LeftParenthesis),
        Ok::<ParseToken, LexingError>(ParseToken::LeftParenthesis),
        Ok::<ParseToken, LexingError>(ParseToken::LeftParenthesis),
        Ok::<ParseToken, LexingError>(ParseToken::LeftParenthesis),
        Ok::<ParseToken, LexingError>(ParseToken::LeftParenthesis),
        Ok::<ParseToken, LexingError>(ParseToken::LeftParenthesis),
        Ok::<ParseToken, LexingError>(ParseToken::LeftParenthesis),
        Ok::<ParseToken, LexingError>(ParseToken::LeftParenthesis),
        Ok::<ParseToken, LexingError>(ParseToken::Literal(Constant::Integer(v))),
        Ok::<ParseToken, LexingError>(ParseToken::RightParenthesis),
        Ok::<ParseToken, LexingError>(ParseToken::RightParenthesis),
        Ok::<ParseToken, LexingError>(ParseToken::RightParenthesis),
        Ok::<ParseToken, LexingError>(ParseToken::RightParenthesis),
        Ok::<ParseToken, LexingError>(ParseToken::RightParenthesis),
        Ok::<ParseToken, LexingError>(ParseToken::RightParenthesis),
        Ok::<ParseToken, LexingError>(ParseToken::RightParenthesis),
        Ok::<ParseToken, LexingError>(ParseToken::RightParenthesis),
    ];
    assert(ps.len() == w.len());
    assert forall|i: int| 0 <= i < ps.len() implies ps[i] == pw[i] by {
        assert(crate::calculate::result_resolves_to(spec_tokenize(whole)[i], ps[i]));
        assert(spec_tokenize(whole)[i] == w[i]);
    }
    assert(ps =~= pw);

    let leafv = leaf_int(v);
    assert(spec_next_value(pw, 8) == Some((leafv, 9int)));
    assert(spec_next_expression(pw, 8) == Some((leafv, 10int)));
    assert(spec_next_value(pw, 7) == Some((leafv, 10int)));
    assert(spec_next_expression(pw, 7) == Some((leafv, 11int)));
    assert(spec_next_value(pw, 6) == Some((leafv, 11int)));
    assert(spec_next_expression(pw, 6) == Some((leafv, 12int)));
    assert(spec_next_value(pw, 5) == Some((leafv, 12int)));
    assert(spec_next_expression(pw, 5) == Some((leafv, 13int)));
    assert(spec_next_value(pw, 4) == Some((leafv, 13int)));
    assert(spec_next_expression(pw, 4) == Some((leafv, 14int)));
    assert(spec_next_value(pw, 3) == Some((leafv, 14int)));
    assert(spec_next_expression(pw, 3) == Some((leafv, 15int)));
    assert(spec_next_value(pw, 2) == Some((leafv, 15int)));
    assert(spec_next_expression(pw, 2) == Some((leafv, 16int)));
    assert(spec_next_value(pw, 1) == Some((leafv, 16int)));
    assert(spec_next_expression(pw, 1) == Some((leafv, 17int)));
    assert(spec_next_value(pw, 0) == Some((leafv, 17int)));
    assert(spec_next_expression(pw, 0) == Some((leafv, 17int)));

    assert forall|ev: Result<Constant, crate::eval::EvalError>|
        crate::expressions::eval_rel(
            #[trigger] spec_next_expression(ps, 0)->Some_0.0,
            ev,
        ) implies ev == Ok::<Constant, crate::eval::EvalError>(Constant::Integer(v)) by {
        assert(crate::expressions::eval_rel(leafv, ev));
    }
}

/// The full octal round trip of a float's bit pattern, end to end: a float
/// result coerced into the octal tag carries its raw pattern; the octal
/// literal written from that pattern tokenizes back to the same payload;
/// running that literal through the pipeline with a hexadecimal target
/// reproduces the identical bit pattern under the hexadecimal tag.  A
/// pattern with the sign bit set (a negative float) is excluded: its octal
/// literal overflows the signed range and is a lexing failure instead.
pub proof fn theorem_float_octal_hex_round_trip(
    b: u64,
    oc: Constant,
    ps: Seq<Result<ParseToken, LexingError>>,
    hc: Constant,
)
    requires
        b <= i64::MAX,
        coerce_rel(Constant::Float(b), Target::Octal, oc),
        crate::calculate::tokens_resolve(
            spec_tokenize(
                crate::calculate::spec_rewrite(spec_tokenize(octal_literal_text(b))),
            ),
            ps,
        ),
    ensures
        oc == Constant::Octal(b as i64),
        spec_next_expression(ps, 0) is Some,
        forall|ev: Result<Constant, crate::eval::EvalError>|
            crate::expressions::eval_rel(#[trigger] spec_next_expression(ps, 0)->Some_0.0, ev)
                ==> ev == Ok::<Constant, crate::eval::EvalError>(Constant::Integer(b as i64)),
        coerce_rel(Constant::Integer(b as i64), Target::Hexadecimal, hc) ==> hc
            == Constant::Hexadecimal(b as i64),
{
    lemma_coercion_to_integer_tag_relabels(Constant::Float(b), Target::Octal, oc);
    lemma_octal_literal_tokenizes(b);
    theorem_single_literal_pipeline(TokenV::Octal(b as i64), b as i64, ps);
    if coerce_rel(Constant::Integer(b as i64), Target::Hexadecimal, hc) {
        lemma_coercion_to_integer_tag_relabels(
            Constant::Integer(b as i64),
            Target::Hexadecimal,
            hc,
        );
    }
}

} // verus!

verus! {

/// Climbing out of `k` parenthesis levels: an expression parsed just
/// inside `k` opening parentheses and followed by `k` closing ones bubbles
/// out unchanged, consuming the closers.
pub proof fn lemma_unwind_parens(
    pw: Seq<Result<ParseToken, LexingError>>,
    p: int,
    k: int,
    tree: EnumExpression,
    q: int,
)
    requires
        0 <= k <= p,
        forall|j: int|
            p - k <= j < p ==> pw[j] == Ok::<ParseToken, LexingError>(
                ParseToken::LeftParenthesis,
            ),
        spec_next_expression(pw, p) == Some((tree, q)),
        0 <= q,
        q + k <= pw.len(),
        forall|j: int|
            q <= j < q + k ==> pw[j] == Ok::<ParseToken, LexingError>(
                ParseToken::RightParenthesis,
            ),
    ensures
        spec_next_expression(pw, p - k) == Some((tree, q + k)),
    decreases k,
{
    if k > 0 {
        crate::calculate::lemma_next_expression_advances(pw, p);
        assert(pw[p - 1] == Ok::<ParseToken, LexingError>(ParseToken::LeftParenthesis));
        assert(q < pw.len());
        assert(spec_next_value(pw, p - 1) == Some((tree, q)));
        assert(pw[q] == Ok::<ParseToken, LexingError>(ParseToken::RightParenthesis));
        assert(spec_next_expression(pw, p - 1) == Some((tree, q + 1)));
        lemma_unwind_parens(pw, p - 1, k - 1, tree, q + 1);
    }
}

/// The rewriter turns a run of grouping parentheses into eight bytes each.
pub proof fn lemma_rewrite_body_lparens(n: nat, rest: Seq<TokenResultV>)
    requires
        n >= 1,
    ensures
        crate::calculate::rewrite_body(lparen_toks(n) + rest, false)
            == crate::calculate::rep(40, 8 * n) + crate::calculate::rewrite_body(rest, false),
    decreases n,
{
    let ts = lparen_toks(n) + rest;
    assert(ts[0] == Ok::<TokenV, LexingError>(TokenV::LeftParenthesis));
    assert(crate::calculate::emit_token(TokenV::LeftParenthesis, false)
        == crate::calculate::rep(40, 8));
    if n == 1 {
        assert(ts.drop_first() =~= rest);
        assert(crate::calculate::rewrite_body(ts, false) == crate::calculate::rep(40, 8)
            + crate::calculate::rewrite_body(rest, false));
        assert(crate::calculate::rep(40, 8) =~= crate::calculate::rep(40, 8 * n));
    } else {
        assert(ts.drop_first() =~= lparen_toks((n - 1) as nat) + rest);
        lemma_rewrite_body_lparens((n - 1) as nat, rest);
        assert(crate::calculate::rep(40, 8) + (crate::calculate::rep(40, 8 * (n - 1) as nat)
            + crate::calculate::rewrite_body(rest, false)) =~= crate::calculate::rep(40, 8 * n)
            + crate::calculate::rewrite_body(rest, false));
    }
}

/// The same for closing parentheses; afterwards the last token produced a
/// value.
pub proof fn lemma_rewrite_body_rparens(n: nat, rest: Seq<TokenResultV>, vp: bool)
    requires
        n >= 1,
    ensures
        crate::calculate::rewrite_body(rparen_toks(n) + rest, vp) == crate::calculate::rep(
            41,
            8 * n,
        ) + crate::calculate::rewrite_body(rest, true),
    decreases n,
{
    let ts = rparen_toks(n) + rest;
    assert(ts[0] == Ok::<TokenV, LexingError>(TokenV::RightParenthesis));
    assert(crate::calculate::emit_token(TokenV::RightParenthesis, vp)
        == crate::calculate::rep(41, 8));
    if n == 1 {
        assert(ts.drop_first() =~= rest);
        assert(crate::calculate::rewrite_body(ts, vp) == crate::calculate::rep(41, 8)
            + crate::calculate::rewrite_body(rest, true));
        assert(crate::calculate::rep(41, 8) =~= crate::calculate::rep(41, 8 * n));
    } else {
        assert(ts.drop_first() =~= rparen_toks((n - 1) as nat) + rest);
        lemma_rewrite_body_rparens((n - 1) as nat, rest, true);
        assert(crate::calculate::rep(41, 8) + (crate::calculate::rep(41, 8 * (n - 1) as nat)
            + crate::calculate::rewrite_body(rest, true)) =~= crate::calculate::rep(41, 8 * n)
            + crate::calculate::rewrite_body(rest, true));
    }
}

} // verus!

verus! {

/// The wrapped parse-token shape: `a` and `b` behind `n` outer opening
/// parentheses, the operator between `m` closers and `m` openers.
pub open spec fn wrapped_ptokens_general(
    a: i64,
    pt: ParseToken,
    b: i64,
    n: nat,
    m: nat,
) -> Seq<Result<ParseToken, LexingError>> {
    lparen_ptoks(n) + seq![
        Ok::<ParseToken, LexingError>(ParseToken::Literal(Constant::Integer(a))),
    ] + rparen_ptoks(m) + seq![Ok::<ParseToken, LexingError>(pt)] + lparen_ptoks(m) + seq![
        Ok::<ParseToken, LexingError>(ParseToken::Literal(Constant::Integer(b))),
    ] + rparen_ptoks(n)
}

/// Parsing any wrapped two-operand shape gives the one binary node over
/// the two leaves and consumes every token, whatever the wrap depths: the
/// operator is met by the frame its closing wrap leaves open, and the
/// parenthesis levels bubble the finished node out.
pub proof fn lemma_parse_wrapped_general(
    a: i64,
    pt: ParseToken,
    b: i64,
    n: int,
    m: int,
    pw: Seq<Result<ParseToken, LexingError>>,
)
    requires
        binop_of_ptoken(pt) is Some,
        1 <= m,
        m + 1 <= n,
        pw == wrapped_ptokens_general(a, pt, b, n as nat, m as nat),
    ensures
        spec_next_expression(pw, 0) == Some(
            (
                spec_binary_node(binop_of_ptoken(pt)->Some_0, leaf_int(a), leaf_int(b)),
                pw.len() as int,
            ),
        ),
{
    let leafa = leaf_int(a);
    let leafb = leaf_int(b);
    let node = spec_binary_node(binop_of_ptoken(pt)->Some_0, leafa, leafb);
    let lit_a = n;
    let p_op = n + 1 + m;
    let lit_b = n + 2 * m + 2;
    let ln = 2 * n + 2 * m + 3;
    assert(pw.len() == ln);
    assert forall|j: int| 0 <= j < ln implies pw[j] == (if j < n || (p_op < j && j < lit_b) {
        Ok::<ParseToken, LexingError>(ParseToken::LeftParenthesis)
    } else if j == lit_a {
        Ok::<ParseToken, LexingError>(ParseToken::Literal(Constant::Integer(a)))
    } else if j < p_op {
        Ok::<ParseToken, LexingError>(ParseToken::RightParenthesis)
    } else if j == p_op {
        Ok::<ParseToken, LexingError>(pt)
    } else if j == lit_b {
        Ok::<ParseToken, LexingError>(ParseToken::Literal(Constant::Integer(b)))
    } else {
        Ok::<ParseToken, LexingError>(ParseToken::RightParenthesis)
    }) by {
        assert(lparen_ptoks(n as nat).len() == n);
        assert(rparen_ptoks(m as nat).len() == m);
    }

    // the right leaf and its climb back out of the operator's opening wrap
    assert(spec_next_value(pw, lit_b) == Some((leafb, lit_b + 1)));
    assert(pw[lit_b + 1] == Ok::<ParseToken, LexingError>(ParseToken::RightParenthesis));
    assert(spec_next_expression(pw, lit_b) == Some((leafb, lit_b + 2)));
    lemma_unwind_parens(pw, lit_b, m, leafb, lit_b + 2);
    assert(spec_next_expression(pw, p_op + 1) == Some((leafb, lit_b + 2 + m)));

    // the left leaf and its climb up to the frame that meets the operator
    assert(spec_next_value(pw, lit_a) == Some((leafa, lit_a + 1)));
    assert(pw[lit_a + 1] == Ok::<ParseToken, LexingError>(ParseToken::RightParenthesis));
    assert(spec_next_expression(pw, lit_a) == Some((leafa, lit_a + 2)));
    lemma_unwind_parens(pw, lit_a, m - 1, leafa, lit_a + 2);
    assert(spec_next_expression(pw, lit_a - (m - 1)) == Some((leafa, p_op)));

    // that frame builds the binary node
    assert(pw[lit_a - m] == Ok::<ParseToken, LexingError>(ParseToken::LeftParenthesis));
    assert(spec_next_value(pw, lit_a - m) == Some((leafa, p_op)));
    assert(pw[p_op] == Ok::<ParseToken, LexingError>(pt));
    assert(spec_next_expression(pw, lit_a - m) == Some((node, lit_b + 2 + m)));

    // the node bubbles out of the remaining outer levels
    lemma_unwind_parens(pw, lit_a - m, n - m - 1, node, lit_b + 2 + m);
    assert(spec_next_expression(pw, 1) == Some((node, ln)));
    assert(pw[0] == Ok::<ParseToken, LexingError>(ParseToken::LeftParenthesis));
    assert(pw[ln - 1] == Ok::<ParseToken, LexingError>(ParseToken::RightParenthesis));
    assert(spec_next_value(pw, 0) == Some((node, ln)));
    assert(spec_next_expression(pw, 0) == Some((node, ln)));
}

} // verus!

verus! {

/// The wrapped token shape at the lexical level.
pub open spec fn wrapped_tokens_general(
    a: i64,
    opt: TokenV,
    b: i64,
    n: nat,
    m: nat,
) -> Seq<TokenResultV> {
    lparen_toks(n) + seq![Ok::<TokenV, LexingError>(TokenV::Integer(a))] + rparen_toks(m) + seq![
        Ok::<TokenV, LexingError>(opt),
    ] + lparen_toks(m) + seq![Ok::<TokenV, LexingError>(TokenV::Integer(b))] + rparen_toks(n)
}

/// Resolving a wrapped two-operand token shape is deterministic.
pub proof fn lemma_resolution_general(
    a: i64,
    opt: TokenV,
    b: i64,
    n: int,
    m: int,
    ps: Seq<Result<ParseToken, LexingError>>,
)
    requires
        opt == TokenV::Plus || opt == TokenV::Minus || opt == TokenV::Multiply,
        n >= 0,
        m >= 0,
        crate::calculate::tokens_resolve(wrapped_tokens_general(a, opt, b, n as nat, m as nat), ps),
    ensures
        ps == wrapped_ptokens_general(a, two_op_ptoken(opt), b, n as nat, m as nat),
{
    let w = wrapped_tokens_general(a, opt, b, n as nat, m as nat);
    let pw = wrapped_ptokens_general(a, two_op_ptoken(opt), b, n as nat, m as nat);
    assert(w.len() == 2 * n + 2 * m + 3);
    assert(pw.len() == 2 * n + 2 * m + 3);
    assert(ps.len() == w.len());
    let lit_a = n;
    let p_op = n + 1 + m;
    let lit_b = n + 2 * m + 2;
    assert forall|i: int| 0 <= i < ps.len() implies ps[i] == pw[i] by {
        assert(crate::calculate::result_resolves_to(w[i], ps[i]));
        assert(lparen_toks(n as nat).len() == n);
        assert(rparen_toks(m as nat).len() == m);
        assert(lparen_ptoks(n as nat).len() == n);
        assert(rparen_ptoks(m as nat).len() == m);
        if i < n || (p_op < i && i < lit_b) {
            assert(w[i] == Ok::<TokenV, LexingError>(TokenV::LeftParenthesis));
            assert(pw[i] == Ok::<ParseToken, LexingError>(ParseToken::LeftParenthesis));
        } else if i == lit_a {
            assert(w[i] == Ok::<TokenV, LexingError>(TokenV::Integer(a)));
            assert(pw[i] == Ok::<ParseToken, LexingError>(
                ParseToken::Literal(Constant::Integer(a)),
            ));
        } else if i < p_op {
            assert(w[i] == Ok::<TokenV, LexingError>(TokenV::RightParenthesis));
            assert(pw[i] == Ok::<ParseToken, LexingError>(ParseToken::RightParenthesis));
        } else if i == p_op {
            assert(w[i] == Ok::<TokenV, LexingError>(opt));
            assert(pw[i] == Ok::<ParseToken, LexingError>(two_op_ptoken(opt)));
        } else if i == lit_b {
            assert(w[i] == Ok::<TokenV, LexingError>(TokenV::Integer(b)));
            assert(pw[i] == Ok::<ParseToken, LexingError>(
                ParseToken::Literal(Constant::Integer(b)),
            ));
        } else {
            assert(w[i] == Ok::<TokenV, LexingError>(TokenV::RightParenthesis));
            assert(pw[i] == Ok::<ParseToken, LexingError>(ParseToken::RightParenthesis));
        }
    }
    assert(ps =~= pw);
}

/// Rewriting the rewriter's own output of a two-operand expression and
/// tokenizing it again gives the same wrapped shape, only deeper: every
/// original parenthesis becomes eight, and the operator keeps its own wrap
/// because the token before it is still a closing parenthesis.
pub proof fn lemma_two_op_double_rewrite_tokenizes(a: i64, opt: TokenV, b: i64)
    requires
        a >= 0,
        b >= 0,
        opt == TokenV::Plus || opt == TokenV::Minus || opt == TokenV::Multiply,
    ensures
        spec_tokenize(crate::calculate::spec_rewrite(two_op_wrapped_tokens(a, opt, b)))
            == wrapped_tokens_general(
            a,
            opt,
            b,
            72,
            (9 * two_op_depth(opt)) as nat,
        ),
{
    let c = two_op_depth(opt);
    let ob = two_op_byte(opt);
    let rep = |x: u8, k: nat| crate::calculate::rep(x, k);
    let dec = |v: i64| crate::render::dec_text_i64(v);
    let w = two_op_wrapped_tokens(a, opt, b);

    // unfold the second rewrite over the wrapped tokens
    let rest_a = seq![Ok::<TokenV, LexingError>(TokenV::Integer(a))] + (rparen_toks(c) + (seq![
        Ok::<TokenV, LexingError>(opt),
    ] + (lparen_toks(c) + (seq![Ok::<TokenV, LexingError>(TokenV::Integer(b))] + rparen_toks(8)))));
    assert(w =~= lparen_toks(8) + rest_a);
    lemma_rewrite_body_lparens(8, rest_a);
    let rest_b = rparen_toks(c) + (seq![Ok::<TokenV, LexingError>(opt)] + (lparen_toks(c) + (seq![
        Ok::<TokenV, LexingError>(TokenV::Integer(b)),
    ] + rparen_toks(8))));
    assert(rest_a.drop_first() =~= rest_b);
    assert(crate::calculate::rewrite_body(rest_a, false) == dec(a)
        + crate::calculate::rewrite_body(rest_b, true));
    let rest_c = seq![Ok::<TokenV, LexingError>(opt)] + (lparen_toks(c) + (seq![
        Ok::<TokenV, LexingError>(TokenV::Integer(b)),
    ] + rparen_toks(8)));
    lemma_rewrite_body_rparens(c, rest_c, true);
    let rest_d = lparen_toks(c) + (seq![Ok::<TokenV, LexingError>(TokenV::Integer(b))]
        + rparen_toks(8));
    assert(rest_c.drop_first() =~= rest_d);
    assert(crate::calculate::emit_token(opt, true) == crate::calculate::wrapped(c, ob, false));
    assert(crate::calculate::rewrite_body(rest_c, true) == crate::calculate::wrapped(c, ob, false)
        + crate::calculate::rewrite_body(rest_d, false));
    let rest_e = seq![Ok::<TokenV, LexingError>(TokenV::Integer(b))] + rparen_toks(8);
    lemma_rewrite_body_lparens(c, rest_e);
    let rest_f = rparen_toks(8);
    assert(rest_e.drop_first() =~= rest_f);
    assert(crate::calculate::rewrite_body(rest_e, false) == dec(b)
        + crate::calculate::rewrite_body(rest_f, true));
    assert(rest_f =~= rparen_toks(8) + Seq::<TokenResultV>::empty());
    lemma_rewrite_body_rparens(8, Seq::<TokenResultV>::empty(), true);
    assert(crate::calculate::rewrite_body(Seq::<TokenResultV>::empty(), true) =~= Seq::<
        u8,
    >::empty());

    // the rewritten bytes, reassociated as token-aligned pieces
    let r6 = rep(41, 72);
    let r5 = dec(b) + r6;
    let r4 = rep(40, (9 * c) as nat) + r5;
    let r3 = seq![ob] + r4;
    let r2 = rep(41, (9 * c) as nat) + r3;
    let r1 = dec(a) + r2;
    let whole2 = crate::calculate::spec_rewrite(w);
    assert(whole2 =~= rep(40, 72) + r1);

    // tokenize piece by piece
    lemma_tokenize_parens(41, 72, Seq::<u8>::empty());
    assert(r6 =~= rep(41, 72) + Seq::<u8>::empty());
    assert(spec_tokenize(Seq::<u8>::empty()) =~= Seq::<TokenResultV>::empty());
    assert(spec_tokenize(r6) =~= rparen_toks(72));
    assert(r6[0] == 41);
    lemma_tokenize_dec(b, r6);
    lemma_tokenize_parens(40, (9 * c) as nat, r5);
    assert(r4[0] == 40);
    lemma_tokenize_single_op(ob, r4);
    assert(single_op_token(ob) == opt);
    lemma_tokenize_parens(41, (9 * c) as nat, r3);
    assert(r2[0] == 41);
    lemma_tokenize_dec(a, r2);
    lemma_tokenize_parens(40, 72, r1);
    assert(spec_tokenize(whole2) =~= wrapped_tokens_general(a, opt, b, 72, (9 * c) as nat));
}

/// Rewriting is a no-op with respect to the evaluated value: running the
/// pipeline on the rewriter's own output of a two-operand integer
/// expression gives the same result as running it on the expression, for
/// `+`, `-` and `*` and every pair of literals.
pub proof fn theorem_rewrite_value_stable(
    a: i64,
    opt: TokenV,
    b: i64,
    ps: Seq<Result<ParseToken, LexingError>>,
)
    requires
        a >= 0,
        b >= 0,
        opt == TokenV::Plus || opt == TokenV::Minus || opt == TokenV::Multiply,
        crate::calculate::tokens_resolve(
            spec_tokenize(
                crate::calculate::spec_rewrite(
                    spec_tokenize(
                        crate::calculate::spec_rewrite(
                            seq![
                                Ok::<TokenV, LexingError>(TokenV::Integer(a)),
                                Ok::<TokenV, LexingError>(opt),
                                Ok::<TokenV, LexingError>(TokenV::Integer(b)),
                            ],
                        ),
                    ),
                ),
            ),
            ps,
        ),
    ensures
        spec_next_expression(ps, 0) is Some,
        forall|ev: Result<Constant, crate::eval::EvalError>|
            crate::expressions::eval_rel(#[trigger] spec_next_expression(ps, 0)->Some_0.0, ev)
                ==> ev == Ok::<Constant, crate::eval::EvalError>(
                Constant::Integer(two_op_value(opt, a, b)),
            ),
{
    let c = two_op_depth(opt) as int;
    lemma_two_op_rewrite_tokenizes(a, opt, b);
    lemma_two_op_double_rewrite_tokenizes(a, opt, b);
    lemma_resolution_general(a, opt, b, 72, 9 * c, ps);
    let pt = two_op_ptoken(opt);
    lemma_parse_wrapped_general(a, pt, b, 72, 9 * c, ps);
    let op = binop_of_ptoken(pt)->Some_0;
    let node = spec_binary_node(op, leaf_int(a), leaf_int(b));
    assert(spec_next_expression(ps, 0)->Some_0.0 == node);
    assert forall|ev: Result<Constant, crate::eval::EvalError>|
        crate::expressions::eval_rel(
            #[trigger] spec_next_expression(ps, 0)->Some_0.0,
            ev,
        ) implies ev == Ok::<Constant, crate::eval::EvalError>(
        Constant::Integer(two_op_value(opt, a, b)),
    ) by {
        lemma_eval_two_leaves(op, a, b, ev);
    }
}

} // verus!

verus! {

/// Mixed float and integer arithmetic promotes to the float tag: whenever
/// exactly one operand of an arithmetic operator is float-tagged, every
/// correct combination is float-tagged, and it carries the interpreter's
/// answer.
pub proof fn lemma_mixed_arithmetic_promotes(
    op: crate::eval::BinOp,
    l: Constant,
    r: Constant,
    res: Result<Constant, crate::eval::EvalError>,
)
    requires
        crate::eval::is_arith_op(op),
        (l is Float && crate::eval::is_int_tagged(r)) || (crate::eval::is_int_tagged(l)
            && r is Float),
        crate::eval::combine_rel(op, l, r, res),
    ensures
        res is Ok && res->Ok_0 is Float,
{
    let (fans, ians) = choose|fans: u64, ians: i64|
        res == crate::eval::combine_spec(op, l, r, fans, ians);
    assert(res == crate::eval::combine_spec(op, l, r, fans, ians));
}

} // verus!
