//! The pipeline: precedence rewriting, parsing, evaluation, coercion.
//!
//! The rewriter walks the tokens of the input once and re-emits them as a
//! new text in which every operator is wrapped in synthetic parentheses
//! whose nesting depth encodes its precedence; the deeper the wrap, the
//! weaker the operator binds.  The rewritten text is tokenized again and
//! parsed by a plain right-recursive descent that needs no precedence
//! table, since the wrapping already resolved every ambiguity.
use vstd::prelude::*;

use crate::constants::Constant;
use crate::constants::Target;
use crate::constants::coerce_rel;
use crate::eval::BinOp;
use crate::eval::EvalError;
use crate::expressions::AddExpression;
use crate::expressions::AndExpression;
use crate::expressions::BinaryExpression;
use crate::expressions::ConstExpression;
use crate::expressions::DivideExpression;
use crate::expressions::EnumExpression;
use crate::expressions::ExponentExpression;
use crate::expressions::LeftShiftExpression;
use crate::expressions::ModuloExpression;
use crate::expressions::MultiplyExpression;
use crate::expressions::NegateExpression;
use crate::expressions::NotExpression;
use crate::expressions::OrExpression;
use crate::expressions::RightShiftExpression;
use crate::expressions::RootExpression;
use crate::expressions::SubtractExpression;
use crate::expressions::UnaryExpression;
use crate::expressions::XorExpression;
use crate::expressions::eval_rel;
use crate::expressions::spec_binary_node;
use crate::floats::FloatOps;
use crate::render::dec_text_i64;
use crate::render::dec_bytes_i64;
use crate::tokens::LexingError;
use crate::tokens::Token;
use crate::tokens::TokenResult;
use crate::tokens::TokenResultV;
use crate::tokens::TokenV;
use crate::tokens::token_results_view;
use crate::tokens::spec_tokenize;
use crate::tokens::tokenize;
use vstd::string::StringSliceAdditionalSpecFns;

verus! {

/// `n` copies of the byte `b`.
pub open spec fn rep(b: u8, n: nat) -> Seq<u8> {
    Seq::new(n, |i: int| b)
}

/// An operator wrapped in `depth` closing parentheses before and `depth`
/// opening ones after; a two-character operator doubles its byte.
pub open spec fn wrapped(depth: nat, opb: u8, twice: bool) -> Seq<u8> {
    rep(41, depth) + (if twice {
        seq![opb, opb]
    } else {
        seq![opb]
    }) + rep(40, depth)
}

/// Whether a token produces a value, so that a minus right after it is
/// binary subtraction rather than unary negation: a literal or a closing
/// parenthesis.
pub open spec fn token_value_producing(t: TokenV) -> bool {
    ||| t is Integer
    ||| t is Float
    ||| t is Binary
    ||| t is Hexadecimal
    ||| t is Octal
    ||| t is RightParenthesis
}

/// What the rewriter emits for one token.  Integer-tagged literals are
/// re-emitted as plain decimal text of their value; a float literal is
/// re-emitted verbatim, so that its value survives re-tokenization.
/// Grouping parentheses become eight-deep synthetic ones; each binary
/// operator is wrapped to the depth of its precedence; a unary minus or a
/// bitwise not is emitted bare.
pub open spec fn emit_token(t: TokenV, prev_value: bool) -> Seq<u8> {
    match t {
        TokenV::Integer(i) => dec_text_i64(i),
        TokenV::Binary(i) => dec_text_i64(i),
        TokenV::Octal(i) => dec_text_i64(i),
        TokenV::Hexadecimal(i) => dec_text_i64(i),
        TokenV::Float(text) => text,
        TokenV::Minus => if prev_value {
            wrapped(4, 45, false)
        } else {
            seq![45u8]
        },
        TokenV::Not => seq![33u8],
        TokenV::LeftParenthesis => rep(40, 8),
        TokenV::RightParenthesis => rep(41, 8),
        TokenV::Exponent => wrapped(1, 42, true),
        TokenV::Root => wrapped(1, 47, true),
        TokenV::Multiply => wrapped(2, 42, false),
        TokenV::Divide => wrapped(2, 47, false),
        TokenV::Modulo => wrapped(3, 37, false),
        TokenV::Plus => wrapped(4, 43, false),
        TokenV::LeftShift => wrapped(5, 60, true),
        TokenV::RightShift => wrapped(5, 62, true),
        TokenV::And => wrapped(6, 38, false),
        TokenV::Or => wrapped(6, 124, false),
        TokenV::Xor => wrapped(7, 94, false),
    }
}

/// The rewriter's body: each token emitted in turn, remembering whether
/// the previous one produced a value; emission stops at the first lexing
/// failure (the caller rejects such input as a whole).
pub open spec fn rewrite_body(ts: Seq<TokenResultV>, prev_value: bool) -> Seq<u8>
    decreases ts.len(),
{
    if ts.len() == 0 {
        Seq::empty()
    } else {
        match ts[0] {
            Err(_) => Seq::empty(),
            Ok(t) => emit_token(t, prev_value) + rewrite_body(
                ts.drop_first(),
                token_value_producing(t),
            ),
        }
    }
}

/// The whole rewritten text: the body wrapped in eight outer parentheses.
pub open spec fn spec_rewrite(ts: Seq<TokenResultV>) -> Seq<u8> {
    rep(40, 8) + rewrite_body(ts, false) + rep(41, 8)
}

/// Whether every lexical item of the sequence succeeded.
pub open spec fn lex_clean(ts: Seq<TokenResultV>) -> bool {
    forall|i: int| 0 <= i < ts.len() ==> !(#[trigger] ts[i] is Err)
}

/// Appends `n` copies of `b`.
fn push_repeat(out: &mut Vec<u8>, b: u8, n: usize)
    ensures
        final(out)@ == old(out)@ + rep(b, n as nat),
{
    let mut j: usize = 0;
    while j < n
        invariant
            j <= n,
            out@ == old(out)@ + rep(b, j as nat),
        decreases n - j,
    {
        out.push(b);
        proof {
            assert(out@ =~= old(out)@ + rep(b, (j + 1) as nat));
        }
        j = j + 1;
    }
}

/// Appends the bytes of `s`.
fn push_slice(out: &mut Vec<u8>, s: &[u8])
    ensures
        final(out)@ == old(out)@ + s@,
{
    let mut j: usize = 0;
    while j < s.len()
        invariant
            j <= s@.len(),
            out@ == old(out)@ + s@.subrange(0, j as int),
        decreases s@.len() - j,
    {
        let b = s[j];
        out.push(b);
        proof {
            assert(out@ =~= old(out)@ + s@.subrange(0, j + 1));
        }
        j = j + 1;
    }
    proof {
        assert(s@.subrange(0, s@.len() as int) =~= s@);
    }
}

/// Appends one wrapped operator.
fn push_wrapped(out: &mut Vec<u8>, depth: usize, opb: u8, twice: bool)
    ensures
        final(out)@ == old(out)@ + wrapped(depth as nat, opb, twice),
{
    push_repeat(out, 41, depth);
    out.push(opb);
    if twice {
        out.push(opb);
    }
    push_repeat(out, 40, depth);
    proof {
        assert(out@ =~= old(out)@ + wrapped(depth as nat, opb, twice));
    }
}

/// Rewrites the text that the tokens came from: the rewritten bytes and
/// whether every lexical item of the input succeeded.
pub fn gen_precedence_tokens(toks: &Vec<TokenResult>) -> (r: (Vec<u8>, bool))
    ensures
        r.0@ == spec_rewrite(token_results_view(toks@)),
        r.1 == lex_clean(token_results_view(toks@)),
{
    let ghost tv = token_results_view(toks@);
    let mut out: Vec<u8> = Vec::new();
    push_repeat(&mut out, 40, 8);
    let mut clean: bool = true;
    let mut vp: bool = false;
    let mut i: usize = 0;
    proof {
        assert(tv.skip(0) =~= tv);
    }
    while i < toks.len() && clean
        invariant
            i <= toks@.len(),
            tv == token_results_view(toks@),
            clean ==> out@ + rewrite_body(tv.skip(i as int), vp) == rep(40, 8) + rewrite_body(
                tv,
                false,
            ),
            clean ==> lex_clean(tv.subrange(0, i as int)),
            !clean ==> out@ == rep(40, 8) + rewrite_body(tv, false) && !lex_clean(tv),
        decreases toks@.len() - i,
    {
        proof {
            assert(tv[i as int] == crate::tokens::token_result_view(toks@[i as int]));
            assert(tv.skip(i as int)[0] == tv[i as int]);
            assert(tv.skip(i as int).drop_first() =~= tv.skip(i as int + 1));
        }
        let ghost out0 = out@;
        match &toks[i] {
            Err(_) => {
                proof {
                    assert(rewrite_body(tv.skip(i as int), vp) =~= Seq::<u8>::empty());
                    assert(out@ =~= rep(40, 8) + rewrite_body(tv, false));
                }
                clean = false;
            },
            Ok(t) => {
                let ghost tvw = t@;
                let next_vp: bool = match t {
                    Token::Integer(_) => true,
                    Token::Float(_) => true,
                    Token::Binary(_) => true,
                    Token::Hexadecimal(_) => true,
                    Token::Octal(_) => true,
                    Token::RightParenthesis => true,
                    _ => false,
                };
                match t {
                    Token::Integer(v) => {
                        let d = dec_bytes_i64(*v);
                        push_slice(&mut out, d.as_slice());
                    },
                    Token::Binary(v) => {
                        let d = dec_bytes_i64(*v);
                        push_slice(&mut out, d.as_slice());
                    },
                    Token::Octal(v) => {
                        let d = dec_bytes_i64(*v);
                        push_slice(&mut out, d.as_slice());
                    },
                    Token::Hexadecimal(v) => {
                        let d = dec_bytes_i64(*v);
                        push_slice(&mut out, d.as_slice());
                    },
                    Token::Float(text) => {
                        push_slice(&mut out, text.as_slice());
                    },
                    Token::Minus => {
                        if vp {
                            push_wrapped(&mut out, 4, 45, false);
                        } else {
                            out.push(45);
                            proof {
                                assert(out@ =~= out0 + seq![45u8]);
                            }
                        }
                    },
                    Token::Not => {
                        out.push(33);
                        proof {
                            assert(out@ =~= out0 + seq![33u8]);
                        }
                    },
                    Token::LeftParenthesis => {
                        push_repeat(&mut out, 40, 8);
                    },
                    Token::RightParenthesis => {
                        push_repeat(&mut out, 41, 8);
                    },
                    Token::Exponent => {
                        push_wrapped(&mut out, 1, 42, true);
                    },
                    Token::Root => {
                        push_wrapped(&mut out, 1, 47, true);
                    },
                    Token::Multiply => {
                        push_wrapped(&mut out, 2, 42, false);
                    },
                    Token::Divide => {
                        push_wrapped(&mut out, 2, 47, false);
                    },
                    Token::Modulo => {
                        push_wrapped(&mut out, 3, 37, false);
                    },
                    Token::Plus => {
                        push_wrapped(&mut out, 4, 43, false);
                    },
                    Token::LeftShift => {
                        push_wrapped(&mut out, 5, 60, true);
                    },
                    Token::RightShift => {
                        push_wrapped(&mut out, 5, 62, true);
                    },
                    Token::And => {
                        push_wrapped(&mut out, 6, 38, false);
                    },
                    Token::Or => {
                        push_wrapped(&mut out, 6, 124, false);
                    },
                    Token::Xor => {
                        push_wrapped(&mut out, 7, 94, false);
                    },
                }
                proof {
                    assert(out@ == out0 + emit_token(tvw, vp));
                    assert(next_vp == token_value_producing(tvw));
                    assert(rewrite_body(tv.skip(i as int), vp) == emit_token(tvw, vp)
                        + rewrite_body(tv.skip(i as int + 1), next_vp));
                    assert(out@ + rewrite_body(tv.skip(i as int + 1), next_vp) =~= out0
                        + rewrite_body(tv.skip(i as int), vp));
                    assert(lex_clean(tv.subrange(0, i as int + 1)));
                }
                vp = next_vp;
            },
        }
        i = i + 1;
    }
    if clean {
        proof {
            assert(tv.subrange(0, i as int) =~= tv);
            assert(tv.skip(i as int) =~= Seq::<TokenResultV>::empty());
            assert(out@ =~= rep(40, 8) + rewrite_body(tv, false));
        }
    }
    push_repeat(&mut out, 41, 8);
    (out, clean)
}

} // verus!

verus! {

/// A lexical item of the rewritten text with its literal already read: the
/// constant it denotes under its tag, or one of the operator and grouping
/// kinds.  A float literal's payload is the float interpreter's reading of
/// its text.
#[derive(Debug, PartialEq, Eq, Structural, Clone, Copy)]
pub enum ParseToken {
    Literal(Constant),
    Exponent,
    Root,
    LeftShift,
    RightShift,
    And,
    Or,
    Xor,
    Not,
    Plus,
    Minus,
    Multiply,
    Divide,
    Modulo,
    LeftParenthesis,
    RightParenthesis,
}

/// Holds where `p` is a correct reading of token `t`: exact except that a
/// float literal's payload is whatever the interpreter answered.
pub open spec fn resolves_to(t: TokenV, p: ParseToken) -> bool {
    match t {
        TokenV::Integer(i) => p == ParseToken::Literal(Constant::Integer(i)),
        TokenV::Binary(i) => p == ParseToken::Literal(Constant::Binary(i)),
        TokenV::Octal(i) => p == ParseToken::Literal(Constant::Octal(i)),
        TokenV::Hexadecimal(i) => p == ParseToken::Literal(Constant::Hexadecimal(i)),
        TokenV::Float(_) => p is Literal && p->Literal_0 is Float,
        TokenV::Exponent => p == ParseToken::Exponent,
        TokenV::Root => p == ParseToken::Root,
        TokenV::LeftShift => p == ParseToken::LeftShift,
        TokenV::RightShift => p == ParseToken::RightShift,
        TokenV::And => p == ParseToken::And,
        TokenV::Or => p == ParseToken::Or,
        TokenV::Xor => p == ParseToken::Xor,
        TokenV::Not => p == ParseToken::Not,
        TokenV::Plus => p == ParseToken::Plus,
        TokenV::Minus => p == ParseToken::Minus,
        TokenV::Multiply => p == ParseToken::Multiply,
        TokenV::Divide => p == ParseToken::Divide,
        TokenV::Modulo => p == ParseToken::Modulo,
        TokenV::LeftParenthesis => p == ParseToken::LeftParenthesis,
        TokenV::RightParenthesis => p == ParseToken::RightParenthesis,
    }
}

pub open spec fn result_resolves_to(t: TokenResultV, p: Result<ParseToken, LexingError>) -> bool {
    match (t, p) {
        (Ok(tv), Ok(pv)) => resolves_to(tv, pv),
        (Err(a), Err(b)) => a == b,
        _ => false,
    }
}

/// Elementwise reading of a whole token sequence.
pub open spec fn tokens_resolve(ts: Seq<TokenResultV>, ps: Seq<Result<ParseToken, LexingError>>) -> bool {
    ps.len() == ts.len() && forall|i: int|
        0 <= i < ts.len() ==> result_resolves_to(ts[i], #[trigger] ps[i])
}

/// Reads each token's literal, handing float text to the interpreter.
fn resolve_tokens<F: FloatOps>(toks: &Vec<TokenResult>, ops: &F) -> (r: Vec<
    Result<ParseToken, LexingError>,
>)
    ensures
        tokens_resolve(token_results_view(toks@), r@),
{
    let ghost tv = token_results_view(toks@);
    let mut out: Vec<Result<ParseToken, LexingError>> = Vec::new();
    let mut i: usize = 0;
    while i < toks.len()
        invariant
            i <= toks@.len(),
            tv == token_results_view(toks@),
            out@.len() == i,
            forall|j: int| 0 <= j < i ==> result_resolves_to(tv[j], #[trigger] out@[j]),
        decreases toks@.len() - i,
    {
        proof {
            assert(tv[i as int] == crate::tokens::token_result_view(toks@[i as int]));
        }
        let p: Result<ParseToken, LexingError> = match &toks[i] {
            Err(e) => Err(*e),
            Ok(t) => Ok(
                match t {
                    Token::Integer(v) => ParseToken::Literal(Constant::Integer(*v)),
                    Token::Binary(v) => ParseToken::Literal(Constant::Binary(*v)),
                    Token::Octal(v) => ParseToken::Literal(Constant::Octal(*v)),
                    Token::Hexadecimal(v) => ParseToken::Literal(Constant::Hexadecimal(*v)),
                    Token::Float(text) => ParseToken::Literal(
                        Constant::Float(ops.bits_of_dec(text.as_slice())),
                    ),
                    Token::Exponent => ParseToken::Exponent,
                    Token::Root => ParseToken::Root,
                    Token::LeftShift => ParseToken::LeftShift,
                    Token::RightShift => ParseToken::RightShift,
                    Token::And => ParseToken::And,
                    Token::Or => ParseToken::Or,
                    Token::Xor => ParseToken::Xor,
                    Token::Not => ParseToken::Not,
                    Token::Plus => ParseToken::Plus,
                    Token::Minus => ParseToken::Minus,
                    Token::Multiply => ParseToken::Multiply,
                    Token::Divide => ParseToken::Divide,
                    Token::Modulo => ParseToken::Modulo,
                    Token::LeftParenthesis => ParseToken::LeftParenthesis,
                    Token::RightParenthesis => ParseToken::RightParenthesis,
                },
            ),
        };
        out.push(p);
        i = i + 1;
    }
    out
}

/// The binary operator a token stands for in operator position, if any.
pub open spec fn binop_of_ptoken(p: ParseToken) -> Option<BinOp> {
    match p {
        ParseToken::Exponent => Some(BinOp::Exponent),
        ParseToken::Root => Some(BinOp::Root),
        ParseToken::Multiply => Some(BinOp::Multiplication),
        ParseToken::Divide => Some(BinOp::Division),
        ParseToken::Modulo => Some(BinOp::Modulus),
        ParseToken::Plus => Some(BinOp::Addition),
        ParseToken::Minus => Some(BinOp::Subtraction),
        ParseToken::LeftShift => Some(BinOp::LeftShift),
        ParseToken::RightShift => Some(BinOp::RightShift),
        ParseToken::And => Some(BinOp::BitwiseAnd),
        ParseToken::Or => Some(BinOp::BitwiseOr),
        ParseToken::Xor => Some(BinOp::BitwiseXor),
        _ => None,
    }
}

/// What the value rule returns at `pos`: a constant leaf for a literal, a
/// unary node for a bare minus or not, a parenthesized expression whose
/// closing parenthesis must be found in time, and a failure for anything
/// else; paired with the position just past what was consumed.
pub open spec fn spec_next_value(ts: Seq<Result<ParseToken, LexingError>>, pos: int) -> Option<
    (EnumExpression, int),
>
    decreases ts.len() - pos, 0int,
{
    if pos < 0 || pos >= ts.len() {
        None
    } else {
        match ts[pos] {
            Err(_) => None,
            Ok(pt) => match pt {
                ParseToken::Literal(c) => Some(
                    (EnumExpression::Constant(ConstExpression { constant: c }), pos + 1),
                ),
                ParseToken::Minus => match spec_next_value(ts, pos + 1) {
                    None => None,
                    Some(ep) => Some(
                        (
                            EnumExpression::Unary(
                                UnaryExpression::Negate(
                                    NegateExpression { expression: Box::new(ep.0) },
                                ),
                            ),
                            ep.1,
                        ),
                    ),
                },
                ParseToken::Not => match spec_next_value(ts, pos + 1) {
                    None => None,
                    Some(ep) => Some(
                        (
                            EnumExpression::Unary(
                                UnaryExpression::Not(NotExpression { expression: Box::new(ep.0) }),
                            ),
                            ep.1,
                        ),
                    ),
                },
                ParseToken::LeftParenthesis => match spec_next_expression(ts, pos + 1) {
                    None => None,
                    Some(ep) => {
                        if ep.1 >= ts.len() && !(0 < ep.1 <= ts.len() && ts[ep.1 - 1] == Ok::<
                            ParseToken,
                            LexingError,
                        >(ParseToken::RightParenthesis)) {
                            None
                        } else {
                            Some(ep)
                        }
                    },
                },
                _ => None,
            },
        }
    }
}

/// What the expression rule returns at `pos`: a value, and then, unless
/// the stream ends or a closing parenthesis or lexing failure follows, a
/// binary operator and a recursively parsed right-hand side.
pub open spec fn spec_next_expression(ts: Seq<Result<ParseToken, LexingError>>, pos: int) -> Option<
    (EnumExpression, int),
>
    decreases ts.len() - pos, 1int,
{
    match spec_next_value(ts, pos) {
        None => None,
        Some(lp) => {
            let p = if lp.1 < pos + 1 {
                pos + 1
            } else {
                lp.1
            };
            if p >= ts.len() {
                Some((lp.0, p))
            } else {
                match ts[p] {
                    Err(_) => Some((lp.0, p + 1)),
                    Ok(pt) => {
                        if pt == ParseToken::RightParenthesis {
                            Some((lp.0, p + 1))
                        } else {
                            match binop_of_ptoken(pt) {
                                None => None,
                                Some(op) => match spec_next_expression(ts, p + 1) {
                                    None => None,
                                    Some(rp) => Some((spec_binary_node(op, lp.0, rp.0), rp.1)),
                                },
                            }
                        }
                    },
                }
            }
        },
    }
}

/// The value rule consumes at least one token and never passes the end.
pub proof fn lemma_next_value_advances(ts: Seq<Result<ParseToken, LexingError>>, pos: int)
    ensures
        match spec_next_value(ts, pos) {
            None => true,
            Some(ep) => pos < ep.1 <= ts.len(),
        },
    decreases ts.len() - pos, 0int,
{
    if 0 <= pos < ts.len() {
        match ts[pos] {
            Err(_) => {},
            Ok(pt) => match pt {
                ParseToken::Minus => lemma_next_value_advances(ts, pos + 1),
                ParseToken::Not => lemma_next_value_advances(ts, pos + 1),
                ParseToken::LeftParenthesis => lemma_next_expression_advances(ts, pos + 1),
                _ => {},
            },
        }
    }
}

/// The expression rule consumes at least one token and never passes the
/// end.
pub proof fn lemma_next_expression_advances(ts: Seq<Result<ParseToken, LexingError>>, pos: int)
    ensures
        match spec_next_expression(ts, pos) {
            None => true,
            Some(ep) => pos < ep.1 <= ts.len(),
        },
    decreases ts.len() - pos, 1int,
{
    lemma_next_value_advances(ts, pos);
    match spec_next_value(ts, pos) {
        None => {},
        Some(lp) => {
            let p = if lp.1 < pos + 1 {
                pos + 1
            } else {
                lp.1
            };
            if p < ts.len() {
                match ts[p] {
                    Err(_) => {},
                    Ok(pt) => {
                        if pt != ParseToken::RightParenthesis && binop_of_ptoken(pt) is Some {
                            lemma_next_expression_advances(ts, p + 1);
                        }
                    },
                }
            }
        },
    }
}

} // verus!

verus! {

/// The error text of a failed parse.
pub open spec fn parse_error_text() -> Seq<char> {
    "Could not parse the expression"@
}

/// The error text of an evaluation with no defined rule.
pub open spec fn eval_error_text() -> Seq<char> {
    "Could not evaluate the expression"@
}

/// The binary node combining two subtrees under an operator.
fn binary_node(op: BinOp, l: EnumExpression, r: EnumExpression) -> (e: EnumExpression)
    ensures
        e == spec_binary_node(op, l, r),
{
    EnumExpression::Binary(
        match op {
            BinOp::Addition => BinaryExpression::Addition(
                AddExpression { left: Box::new(l), right: Box::new(r) },
            ),
            BinOp::Subtraction => BinaryExpression::Subtraction(
                SubtractExpression { left: Box::new(l), right: Box::new(r) },
            ),
            BinOp::Multiplication => BinaryExpression::Multiplication(
                MultiplyExpression { left: Box::new(l), right: Box::new(r) },
            ),
            BinOp::Division => BinaryExpression::Division(
                DivideExpression { left: Box::new(l), right: Box::new(r) },
            ),
            BinOp::Modulus => BinaryExpression::Modulus(
                ModuloExpression { left: Box::new(l), right: Box::new(r) },
            ),
            BinOp::Exponent => BinaryExpression::Exponent(
                ExponentExpression { left: Box::new(l), right: Box::new(r) },
            ),
            BinOp::Root => BinaryExpression::Root(
                RootExpression { left: Box::new(l), right: Box::new(r) },
            ),
            BinOp::BitwiseAnd => BinaryExpression::BitwiseAnd(
                AndExpression { left: Box::new(l), right: Box::new(r) },
            ),
            BinOp::BitwiseOr => BinaryExpression::BitwiseOr(
                OrExpression { left: Box::new(l), right: Box::new(r) },
            ),
            BinOp::BitwiseXor => BinaryExpression::BitwiseXor(
                XorExpression { left: Box::new(l), right: Box::new(r) },
            ),
            BinOp::LeftShift => BinaryExpression::LeftShift(
                LeftShiftExpression { left: Box::new(l), right: Box::new(r) },
            ),
            BinOp::RightShift => BinaryExpression::RightShift(
                RightShiftExpression { left: Box::new(l), right: Box::new(r) },
            ),
        },
    )
}

fn binop_of(pt: ParseToken) -> (o: Option<BinOp>)
    ensures
        o == binop_of_ptoken(pt),
{
    match pt {
        ParseToken::Exponent => Some(BinOp::Exponent),
        ParseToken::Root => Some(BinOp::Root),
        ParseToken::Multiply => Some(BinOp::Multiplication),
        ParseToken::Divide => Some(BinOp::Division),
        ParseToken::Modulo => Some(BinOp::Modulus),
        ParseToken::Plus => Some(BinOp::Addition),
        ParseToken::Minus => Some(BinOp::Subtraction),
        ParseToken::LeftShift => Some(BinOp::LeftShift),
        ParseToken::RightShift => Some(BinOp::RightShift),
        ParseToken::And => Some(BinOp::BitwiseAnd),
        ParseToken::Or => Some(BinOp::BitwiseOr),
        ParseToken::Xor => Some(BinOp::BitwiseXor),
        _ => None,
    }
}

/// Relies on `String::from_utf8`: ASCII bytes decode to exactly those
/// characters.  Input that is not valid UTF-8 gives the empty string here,
/// so the contract speaks only of ASCII input.
#[verifier::external_body]
fn ascii_string(v: Vec<u8>) -> (r: String)
    ensures
        (forall|i: int| 0 <= i < v@.len() ==> v@[i] < 128) ==> r@.len() == v@.len() && (forall|
            i: int,
        | 0 <= i < v@.len() ==> r@[i] == v@[i] as char),
{
    match String::from_utf8(v) {
        Ok(s) => s,
        Err(_) => String::new(),
    }
}

/// A parser that takes expression text and returns a constant.  It holds
/// the resolved tokens of the rewritten text, the index of the next token,
/// and whether the input text itself failed to tokenize.
pub struct Parser {
    tokens: Vec<Result<ParseToken, LexingError>>,
    current: usize,
    lex_error: bool,
}

impl Parser {
    /// The resolved tokens of the rewritten text.
    pub closed spec fn toks(&self) -> Seq<Result<ParseToken, LexingError>> {
        self.tokens@
    }

    /// The index of the next token to be consumed.
    pub closed spec fn position(&self) -> int {
        self.current as int
    }

    /// Whether the input text had a lexical failure.
    pub closed spec fn lex_failed(&self) -> bool {
        self.lex_error
    }

    /// The parser never stands past the end of its tokens.
    pub closed spec fn wf(&self) -> bool {
        self.current <= self.tokens@.len()
    }

    /// Builds a parser over `string`: the text is tokenized, rewritten
    /// with precedence-encoding parentheses, re-tokenized, and each
    /// literal resolved (float text through the interpreter).
    pub fn new<F: FloatOps>(string: &str, ops: &F) -> (p: Parser)
        ensures
            p.wf(),
            p.position() == 0,
            p.lex_failed() == !lex_clean(spec_tokenize(string.spec_bytes())),
            tokens_resolve(
                spec_tokenize(spec_rewrite(spec_tokenize(string.spec_bytes()))),
                p.toks(),
            ),
    {
        let toks1 = tokenize(string.as_bytes());
        let (rw, clean) = gen_precedence_tokens(&toks1);
        let toks2 = tokenize(rw.as_slice());
        let resolved = resolve_tokens(&toks2, ops);
        Parser { tokens: resolved, current: 0, lex_error: !clean }
    }

    /// The rewritten form of `string`: every operator wrapped in synthetic
    /// parentheses whose depth encodes its precedence, literals re-emitted
    /// as text, all wrapped in eight outer parentheses.
    pub fn gen_precedence(string: &str) -> (r: String)
        ensures
            r@.len() == spec_rewrite(spec_tokenize(string.spec_bytes())).len(),
            forall|i: int|
                0 <= i < r@.len() ==> r@[i] == spec_rewrite(spec_tokenize(string.spec_bytes()))[i]
                    as char,
    {
        let toks = tokenize(string.as_bytes());
        let (rw, _) = gen_precedence_tokens(&toks);
        proof {
            lemma_spec_rewrite_ascii(string.spec_bytes());
        }
        ascii_string(rw)
    }

    /// Consumes one value: a literal leaf, a unary node over a further
    /// value, or a parenthesized expression that must find its closing
    /// parenthesis before the tokens run out.
    pub fn next_value(&mut self) -> (r: Option<EnumExpression>)
        requires
            old(self).wf(),
        ensures
            final(self).wf(),
            final(self).toks() == old(self).toks(),
            final(self).lex_failed() == old(self).lex_failed(),
            match spec_next_value(old(self).toks(), old(self).position()) {
                None => r is None,
                Some(ep) => r == Some(ep.0) && final(self).position() == ep.1,
            },
        decreases old(self).toks().len() - old(self).position(), 0int,
    {
        proof {
            lemma_next_value_advances(self.tokens@, self.current as int);
        }
        if self.current >= self.tokens.len() {
            return None;
        }
        let t = self.tokens[self.current];
        match t {
            Err(_) => None,
            Ok(pt) => {
                self.current = self.current + 1;
                match pt {
                    ParseToken::Literal(c) => Some(
                        EnumExpression::Constant(ConstExpression { constant: c }),
                    ),
                    ParseToken::Minus => match self.next_value() {
                        None => None,
                        Some(e) => Some(
                            EnumExpression::Unary(
                                UnaryExpression::Negate(
                                    NegateExpression { expression: Box::new(e) },
                                ),
                            ),
                        ),
                    },
                    ParseToken::Not => match self.next_value() {
                        None => None,
                        Some(e) => Some(
                            EnumExpression::Unary(
                                UnaryExpression::Not(NotExpression { expression: Box::new(e) }),
                            ),
                        ),
                    },
                    ParseToken::LeftParenthesis => match self.next_expression() {
                        None => None,
                        Some(e) => {
                            if self.current >= self.tokens.len() {
                                let closed = if self.current > 0 {
                                    let last = self.tokens[self.current - 1];
                                    matches!(last, Ok(ParseToken::RightParenthesis))
                                } else {
                                    false
                                };
                                if !closed {
                                    return None;
                                }
                            }
                            Some(e)
                        },
                    },
                    _ => None,
                }
            },
        }
    }

    /// Consumes one expression: a value, and then, unless the tokens end
    /// or a closing parenthesis or lexing failure follows, a binary
    /// operator with a recursively parsed right-hand side.
    pub fn next_expression(&mut self) -> (r: Option<EnumExpression>)
        requires
            old(self).wf(),
        ensures
            final(self).wf(),
            final(self).toks() == old(self).toks(),
            final(self).lex_failed() == old(self).lex_failed(),
            match spec_next_expression(old(self).toks(), old(self).position()) {
                None => r is None,
                Some(ep) => r == Some(ep.0) && final(self).position() == ep.1,
            },
        decreases old(self).toks().len() - old(self).position(), 1int,
    {
        proof {
            lemma_next_value_advances(self.tokens@, self.current as int);
        }
        let left = match self.next_value() {
            None => {
                return None;
            },
            Some(e) => e,
        };
        if self.current >= self.tokens.len() {
            return Some(left);
        }
        let t = self.tokens[self.current];
        self.current = self.current + 1;
        match t {
            Err(_) => Some(left),
            Ok(pt) => {
                if matches!(pt, ParseToken::RightParenthesis) {
                    Some(left)
                } else {
                    match binop_of(pt) {
                        None => None,
                        Some(op) => match self.next_expression() {
                            None => None,
                            Some(right) => Some(binary_node(op, left, right)),
                        },
                    }
                }
            },
        }
    }

    /// Runs the parser: the tokens are parsed into one expression tree,
    /// the tree is evaluated bottom-up, and the result is coerced into the
    /// target tag.  A lexical or parse failure gives the parse error text;
    /// an evaluation without a defined rule gives the evaluation error
    /// text; nothing here fails any other way.
    pub fn execute<F: FloatOps>(&mut self, t: Target, ops: &F) -> (r: Result<Constant, String>)
        requires
            old(self).wf(),
        ensures
            final(self).wf(),
            old(self).lex_failed() ==> r is Err && r->Err_0@ == parse_error_text(),
            !old(self).lex_failed() ==> match spec_next_expression(
                old(self).toks(),
                old(self).position(),
            ) {
                None => r is Err && r->Err_0@ == parse_error_text(),
                Some(ep) => exists|ev: Result<Constant, EvalError>|
                    #[trigger] eval_rel(ep.0, ev) && (match ev {
                        Err(_) => r is Err && r->Err_0@ == eval_error_text(),
                        Ok(c) => r is Ok && coerce_rel(c, t, r->Ok_0),
                    }),
            },
    {
        if self.lex_error {
            return Err("Could not parse the expression".to_owned());
        }
        match self.next_expression() {
            None => Err("Could not parse the expression".to_owned()),
            Some(e) => {
                let ev = e.evaluate(ops);
                match ev {
                    Err(_) => Err("Could not evaluate the expression".to_owned()),
                    Ok(c) => Ok(c.into_target_constant(t, ops)),
                }
            },
        }
    }
}

} // verus!

verus! {

/// Evaluates `expression` and coerces the result into `target`: the whole
/// pipeline as one pure call.  Exactly the inputs whose text tokenizes and
/// whose rewritten form parses produce a value; a failure is one of the
/// two error texts.
pub fn calculate<F: FloatOps>(expression: &str, target: Target, ops: &F) -> (r: Result<
    Constant,
    String,
>)
    ensures
        !lex_clean(spec_tokenize(expression.spec_bytes())) ==> r is Err && r->Err_0@
            == parse_error_text(),
        lex_clean(spec_tokenize(expression.spec_bytes())) ==> exists|
            ps: Seq<Result<ParseToken, LexingError>>,
        |
            {
                &&& #[trigger] tokens_resolve(
                    spec_tokenize(spec_rewrite(spec_tokenize(expression.spec_bytes()))),
                    ps,
                )
                &&& match spec_next_expression(ps, 0) {
                    None => r is Err && r->Err_0@ == parse_error_text(),
                    Some(ep) => exists|ev: Result<Constant, EvalError>|
                        #[trigger] eval_rel(ep.0, ev) && (match ev {
                            Err(_) => r is Err && r->Err_0@ == eval_error_text(),
                            Ok(c) => r is Ok && coerce_rel(c, target, r->Ok_0),
                        }),
                }
            },
{
    let mut parser = Parser::new(expression, ops);
    parser.execute(target, ops)
}

} // verus!

verus! {

/// Every byte the rewriter emits for one token is ASCII.
proof fn lemma_emit_token_ascii(t: TokenV, prev_value: bool)
    requires
        crate::tokens::token_text_ascii(Ok(t)),
    ensures
        forall|j: int|
            0 <= j < emit_token(t, prev_value).len() ==> #[trigger] emit_token(t, prev_value)[j]
                < 128,
{
    match t {
        TokenV::Integer(i) => lemma_dec_text_ascii(i),
        TokenV::Binary(i) => lemma_dec_text_ascii(i),
        TokenV::Octal(i) => lemma_dec_text_ascii(i),
        TokenV::Hexadecimal(i) => lemma_dec_text_ascii(i),
        TokenV::Float(text) => {
            assert forall|j: int| 0 <= j < text.len() implies #[trigger] text[j] < 128 by {
                assert(crate::tokens::is_dec_digit(text[j]) || text[j] == 46);
            }
        },
        _ => {},
    }
}

/// Decimal text is ASCII: digits, at most one leading minus sign.
proof fn lemma_dec_text_ascii(i: i64)
    ensures
        forall|j: int|
            0 <= j < dec_text_i64(i).len() ==> #[trigger] dec_text_i64(i)[j] < 128,
{
    let m: nat = if i >= 0 {
        i as nat
    } else {
        crate::eval::mag(i)
    };
    crate::render::lemma_radix_digits_wf(m, 10);
    let digits = crate::render::radix_digits(m, 10);
    assert forall|j: int| 0 <= j < dec_text_i64(i).len() implies #[trigger] dec_text_i64(i)[j]
        < 128 by {
        if i >= 0 {
            assert(dec_text_i64(i)[j] == digits[j]);
            assert(crate::tokens::is_dec_digit(digits[j]));
        } else {
            if j > 0 {
                assert(dec_text_i64(i)[j] == digits[j - 1]);
                assert(crate::tokens::is_dec_digit(digits[j - 1]));
            }
        }
    }
}

/// Every byte of the rewritten body is ASCII.
proof fn lemma_rewrite_body_ascii(ts: Seq<TokenResultV>, prev_value: bool)
    requires
        forall|i: int|
            0 <= i < ts.len() ==> crate::tokens::token_text_ascii(#[trigger] ts[i]),
    ensures
        forall|j: int|
            0 <= j < rewrite_body(ts, prev_value).len() ==> #[trigger] rewrite_body(
                ts,
                prev_value,
            )[j] < 128,
    decreases ts.len(),
{
    if ts.len() > 0 {
        match ts[0] {
            Err(_) => {},
            Ok(t) => {
                lemma_emit_token_ascii(t, prev_value);
                lemma_rewrite_body_ascii(ts.drop_first(), token_value_producing(t));
                assert(rewrite_body(ts, prev_value) == emit_token(t, prev_value) + rewrite_body(
                    ts.drop_first(),
                    token_value_producing(t),
                ));
            },
        }
    }
}

/// Every byte of the whole rewritten text is ASCII.
pub proof fn lemma_spec_rewrite_ascii(s: Seq<u8>)
    ensures
        forall|j: int|
            0 <= j < spec_rewrite(spec_tokenize(s)).len() ==> #[trigger] spec_rewrite(
                spec_tokenize(s),
            )[j] < 128,
{
    crate::tokens::lemma_tokenize_texts_ascii(s);
    lemma_rewrite_body_ascii(spec_tokenize(s), false);
}

} // verus!
