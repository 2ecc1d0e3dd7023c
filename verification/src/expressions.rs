//! The expression tree and its evaluation.
//!
//! A tree node is a constant leaf, a unary node (negate or bitwise not)
//! wrapping one child, or a binary node wrapping two children under one of
//! the twelve operators.  Each node owns its children; a tree is built
//! bottom-up by the parser and consumed by one recursive evaluation pass.
//!
//! What evaluation must return is the relation [`eval_rel`]: children are
//! evaluated left to right, the first failure is the node's failure, and a
//! successful pair is combined by the operator table of [`crate::eval`].
//! The relation is exact up to the float interpreter's answers.
use vstd::prelude::*;
use vstd::string::StringSliceAdditionalSpecFns;

use crate::constants::Constant;
use crate::constants::from_tok_rel;
use crate::eval::BinOp;
use crate::eval::EvalError;
use crate::eval::UnOp;
use crate::eval::arith_combine;
use crate::eval::bitwise_combine;
use crate::eval::combine_rel;
use crate::eval::is_arith_op;
use crate::eval::is_bit_op;
use crate::eval::negate_constant;
use crate::eval::not_constant;
use crate::eval::root_combine;
use crate::eval::unary_rel;
use crate::floats::FloatOps;
use crate::tokens::Token;

verus! {

/// A constant leaf.
#[derive(Debug)]
pub struct ConstExpression {
    pub constant: Constant,
}

/// Subtraction node (`left - right`).
#[derive(Debug)]
pub struct SubtractExpression {
    pub left: Box<EnumExpression>,
    pub right: Box<EnumExpression>,
}

/// Addition node (`left + right`).
#[derive(Debug)]
pub struct AddExpression {
    pub left: Box<EnumExpression>,
    pub right: Box<EnumExpression>,
}

/// Multiplication node (`left * right`).
#[derive(Debug)]
pub struct MultiplyExpression {
    pub left: Box<EnumExpression>,
    pub right: Box<EnumExpression>,
}

/// Division node (`left / right`).
#[derive(Debug)]
pub struct DivideExpression {
    pub left: Box<EnumExpression>,
    pub right: Box<EnumExpression>,
}

/// Modulo node (`left % right`).
#[derive(Debug)]
pub struct ModuloExpression {
    pub left: Box<EnumExpression>,
    pub right: Box<EnumExpression>,
}

/// Exponentiation node (`left ** right`).
#[derive(Debug)]
pub struct ExponentExpression {
    pub left: Box<EnumExpression>,
    pub right: Box<EnumExpression>,
}

/// Root node (`left // right`): `left` raised to the reciprocal of `right`.
#[derive(Debug)]
pub struct RootExpression {
    pub left: Box<EnumExpression>,
    pub right: Box<EnumExpression>,
}

/// Bitwise exclusive-or node (`left ^ right`).
#[derive(Debug)]
pub struct XorExpression {
    pub left: Box<EnumExpression>,
    pub right: Box<EnumExpression>,
}

/// Bitwise and node (`left & right`).
#[derive(Debug)]
pub struct AndExpression {
    pub left: Box<EnumExpression>,
    pub right: Box<EnumExpression>,
}

/// Bitwise or node (`left | right`).
#[derive(Debug)]
pub struct OrExpression {
    pub left: Box<EnumExpression>,
    pub right: Box<EnumExpression>,
}

/// Left shift node (`left << right`).
#[derive(Debug)]
pub struct LeftShiftExpression {
    pub left: Box<EnumExpression>,
    pub right: Box<EnumExpression>,
}

/// Right shift node (`left >> right`).
#[derive(Debug)]
pub struct RightShiftExpression {
    pub left: Box<EnumExpression>,
    pub right: Box<EnumExpression>,
}

/// A binary node: one of the twelve operators over two children.
#[derive(Debug)]
pub enum BinaryExpression {
    Addition(AddExpression),
    Subtraction(SubtractExpression),
    Multiplication(MultiplyExpression),
    Division(DivideExpression),
    Modulus(ModuloExpression),
    Exponent(ExponentExpression),
    Root(RootExpression),
    BitwiseAnd(AndExpression),
    BitwiseOr(OrExpression),
    BitwiseXor(XorExpression),
    LeftShift(LeftShiftExpression),
    RightShift(RightShiftExpression),
}

/// Bitwise complement node (`! expression`).
#[derive(Debug)]
pub struct NotExpression {
    pub expression: Box<EnumExpression>,
}

/// Arithmetic negation node (`- expression`).
#[derive(Debug)]
pub struct NegateExpression {
    pub expression: Box<EnumExpression>,
}

/// A unary node: complement or negation over one child.
#[derive(Debug)]
pub enum UnaryExpression {
    Not(NotExpression),
    Negate(NegateExpression),
}

/// Any tree node.
#[derive(Debug)]
pub enum EnumExpression {
    Constant(ConstExpression),
    Binary(BinaryExpression),
    Unary(UnaryExpression),
}

/// The operator of a binary node.
pub open spec fn binary_op_of(b: BinaryExpression) -> BinOp {
    match b {
        BinaryExpression::Addition(_) => BinOp::Addition,
        BinaryExpression::Subtraction(_) => BinOp::Subtraction,
        BinaryExpression::Multiplication(_) => BinOp::Multiplication,
        BinaryExpression::Division(_) => BinOp::Division,
        BinaryExpression::Modulus(_) => BinOp::Modulus,
        BinaryExpression::Exponent(_) => BinOp::Exponent,
        BinaryExpression::Root(_) => BinOp::Root,
        BinaryExpression::BitwiseAnd(_) => BinOp::BitwiseAnd,
        BinaryExpression::BitwiseOr(_) => BinOp::BitwiseOr,
        BinaryExpression::BitwiseXor(_) => BinOp::BitwiseXor,
        BinaryExpression::LeftShift(_) => BinOp::LeftShift,
        BinaryExpression::RightShift(_) => BinOp::RightShift,
    }
}

/// The children of a binary node.
pub open spec fn binary_children(b: BinaryExpression) -> (EnumExpression, EnumExpression) {
    match b {
        BinaryExpression::Addition(e) => (*e.left, *e.right),
        BinaryExpression::Subtraction(e) => (*e.left, *e.right),
        BinaryExpression::Multiplication(e) => (*e.left, *e.right),
        BinaryExpression::Division(e) => (*e.left, *e.right),
        BinaryExpression::Modulus(e) => (*e.left, *e.right),
        BinaryExpression::Exponent(e) => (*e.left, *e.right),
        BinaryExpression::Root(e) => (*e.left, *e.right),
        BinaryExpression::BitwiseAnd(e) => (*e.left, *e.right),
        BinaryExpression::BitwiseOr(e) => (*e.left, *e.right),
        BinaryExpression::BitwiseXor(e) => (*e.left, *e.right),
        BinaryExpression::LeftShift(e) => (*e.left, *e.right),
        BinaryExpression::RightShift(e) => (*e.left, *e.right),
    }
}

/// The operator of a unary node.
pub open spec fn unary_op_of(u: UnaryExpression) -> UnOp {
    match u {
        UnaryExpression::Not(_) => UnOp::Not,
        UnaryExpression::Negate(_) => UnOp::Negate,
    }
}

/// The child of a unary node.
pub open spec fn unary_child(u: UnaryExpression) -> EnumExpression {
    match u {
        UnaryExpression::Not(ne) => *ne.expression,
        UnaryExpression::Negate(ne) => *ne.expression,
    }
}

/// The binary node combining two subtrees under an operator.
pub open spec fn spec_binary_node(op: BinOp, l: EnumExpression, r: EnumExpression) -> EnumExpression {
    EnumExpression::Binary(
        match op {
            BinOp::Addition => BinaryExpression::Addition(
                AddExpression { left: Box::new(l), right: Box::new(r) },
            ),
            BinOp::Subtraction => BinaryExpression::Subtraction(
                SubtractExpression { left: Box::new(l), right: Box::new(r) },
            ),
            BinOp::Multiplication => BinaryExpression::Multiplication(
                MultiplyExpression { left: Box::new(l), right: Box::new(r) },
            ),
            BinOp::Division => BinaryExpression::Division(
                DivideExpression { left: Box::new(l), right: Box::new(r) },
            ),
            BinOp::Modulus => BinaryExpression::Modulus(
                ModuloExpression { left: Box::new(l), right: Box::new(r) },
            ),
            BinOp::Exponent => BinaryExpression::Exponent(
                ExponentExpression { left: Box::new(l), right: Box::new(r) },
            ),
            BinOp::Root => BinaryExpression::Root(
                RootExpression { left: Box::new(l), right: Box::new(r) },
            ),
            BinOp::BitwiseAnd => BinaryExpression::BitwiseAnd(
                AndExpression { left: Box::new(l), right: Box::new(r) },
            ),
            BinOp::BitwiseOr => BinaryExpression::BitwiseOr(
                OrExpression { left: Box::new(l), right: Box::new(r) },
            ),
            BinOp::BitwiseXor => BinaryExpression::BitwiseXor(
                XorExpression { left: Box::new(l), right: Box::new(r) },
            ),
            BinOp::LeftShift => BinaryExpression::LeftShift(
                LeftShiftExpression { left: Box::new(l), right: Box::new(r) },
            ),
            BinOp::RightShift => BinaryExpression::RightShift(
                RightShiftExpression { left: Box::new(l), right: Box::new(r) },
            ),
        },
    )
}

/// The step a unary node takes once its child's outcome `ir` is known.
pub open spec fn unary_step(ue: UnaryExpression, ir: Result<Constant, EvalError>, r: Result<
    Constant,
    EvalError,
>) -> bool {
    match ir {
        Ok(c) => unary_rel(unary_op_of(ue), c, r),
        Err(_) => r == ir,
    }
}

/// The step a binary node takes once both children's outcomes are known.
pub open spec fn binary_step(
    be: BinaryExpression,
    lr: Result<Constant, EvalError>,
    rr: Result<Constant, EvalError>,
    r: Result<Constant, EvalError>,
) -> bool {
    match lr {
        Err(_) => r == lr,
        Ok(lc) => match rr {
            Err(_) => r == rr,
            Ok(rc) => combine_rel(binary_op_of(be), lc, rc, r),
        },
    }
}

/// Holds where `r` is a correct evaluation of the tree `e`: the constant of
/// a leaf, the first failure of a child, or the operator table applied to
/// the children's values; exact up to the float interpreter's answers.
/// A failed left child is paired with every right outcome, so the first
/// failure wins whatever the right child would have done.
pub open spec fn eval_rel(e: EnumExpression, r: Result<Constant, EvalError>) -> bool
    decreases e,
{
    match e {
        EnumExpression::Constant(ce) => r == Ok::<Constant, EvalError>(ce.constant),
        EnumExpression::Unary(ue) => exists|ir: Result<Constant, EvalError>|
            eval_rel(unary_child(ue), ir) && #[trigger] unary_step(ue, ir, r),
        EnumExpression::Binary(be) => exists|
            lr: Result<Constant, EvalError>,
            rr: Result<Constant, EvalError>,
        |
            eval_rel(binary_children(be).0, lr) && eval_rel(binary_children(be).1, rr)
                && #[trigger] binary_step(be, lr, rr, r),
    }
}

/// Some outcome satisfies the evaluation relation on every tree.
pub proof fn lemma_eval_total(e: EnumExpression) -> (r: Result<Constant, EvalError>)
    ensures
        eval_rel(e, r),
    decreases e,
{
    match e {
        EnumExpression::Constant(ce) => Ok(ce.constant),
        EnumExpression::Unary(ue) => {
            let ir = lemma_eval_total(unary_child(ue));
            let r = match ir {
                Err(_) => ir,
                Ok(c) => match unary_op_of(ue) {
                    UnOp::Negate => crate::eval::negate_spec(c),
                    UnOp::Not => crate::eval::not_spec(c, 0),
                },
            };
            assert(unary_step(ue, ir, r)) by {
                if ir is Ok && unary_op_of(ue) == UnOp::Not {
                    assert(r == crate::eval::not_spec(ir->Ok_0, 0));
                }
            }
            r
        },
        EnumExpression::Binary(be) => {
            let lr = lemma_eval_total(binary_children(be).0);
            let rr = lemma_eval_total(binary_children(be).1);
            let r = match lr {
                Err(_) => lr,
                Ok(lc) => match rr {
                    Err(_) => rr,
                    Ok(rc) => crate::eval::combine_spec(binary_op_of(be), lc, rc, 0, 0),
                },
            };
            assert(binary_step(be, lr, rr, r)) by {
                if lr is Ok && rr is Ok {
                    assert(r == crate::eval::combine_spec(binary_op_of(be), lr->Ok_0, rr->Ok_0, 0, 0));
                }
            }
            r
        },
    }
}

/// Introduction of [`eval_rel`] for a binary node whose left child failed.
proof fn lemma_bin_err_left(be: BinaryExpression, lr: Result<Constant, EvalError>)
    requires
        eval_rel(binary_children(be).0, lr),
        lr is Err,
    ensures
        eval_rel(EnumExpression::Binary(be), lr),
{
    let rr = lemma_eval_total(binary_children(be).1);
    assert(eval_rel(binary_children(be).0, lr) && eval_rel(binary_children(be).1, rr)
        && binary_step(be, lr, rr, lr));
}

/// Introduction of [`eval_rel`] for a binary node with both children
/// evaluated.
proof fn lemma_bin_both(
    be: BinaryExpression,
    lr: Result<Constant, EvalError>,
    rr: Result<Constant, EvalError>,
    r: Result<Constant, EvalError>,
)
    requires
        eval_rel(binary_children(be).0, lr),
        eval_rel(binary_children(be).1, rr),
        binary_step(be, lr, rr, r),
    ensures
        eval_rel(EnumExpression::Binary(be), r),
{
}

impl EnumExpression {
    /// Evaluates the tree bottom-up; see [`eval_rel`] for what the result
    /// must be.
    pub fn evaluate<F: FloatOps>(&self, ops: &F) -> (r: Result<Constant, EvalError>)
        ensures
            eval_rel(*self, r),
        decreases *self,
    {
        match self {
            EnumExpression::Constant(ce) => Ok(ce.constant),
            EnumExpression::Unary(ue) => ue.evaluate(ops),
            EnumExpression::Binary(be) => be.evaluate(ops),
        }
    }
}

impl UnaryExpression {
    /// The child under the unary node.
    fn child(&self) -> (r: &EnumExpression)
        ensures
            *r == unary_child(*self),
            decreases_to!(*self => *r),
    {
        match self {
            UnaryExpression::Not(ne) => &ne.expression,
            UnaryExpression::Negate(ne) => &ne.expression,
        }
    }

    /// Evaluates the child, then applies the unary operator.
    pub fn evaluate<F: FloatOps>(&self, ops: &F) -> (r: Result<Constant, EvalError>)
        ensures
            eval_rel(EnumExpression::Unary(*self), r),
        decreases *self,
    {
        let ghost op = unary_op_of(*self);
        let inner = self.child();
        let ir = inner.evaluate(ops);
        let res = match ir {
            Err(e) => Err(e),
            Ok(c) => {
                if matches!(self, UnaryExpression::Not(_)) {
                    not_constant(c, ops)
                } else {
                    negate_constant(c)
                }
            },
        };
        proof {
            assert(eval_rel(unary_child(*self), ir) && unary_step(*self, ir, res));
        }
        res
    }
}

impl NotExpression {
    /// Evaluates the child, then takes its bitwise complement.
    pub fn evaluate<F: FloatOps>(&self, ops: &F) -> (r: Result<Constant, EvalError>)
        ensures
            eval_rel(EnumExpression::Unary(UnaryExpression::Not(*self)), r),
        decreases *self,
    {
        let ir = self.expression.evaluate(ops);
        let res = match ir {
            Err(e) => Err(e),
            Ok(c) => not_constant(c, ops),
        };
        proof {
            let whole = UnaryExpression::Not(*self);
            assert(eval_rel(unary_child(whole), ir) && unary_step(whole, ir, res));
        }
        res
    }
}

impl NegateExpression {
    /// Evaluates the child, then negates it.
    pub fn evaluate<F: FloatOps>(&self, ops: &F) -> (r: Result<Constant, EvalError>)
        ensures
            eval_rel(EnumExpression::Unary(UnaryExpression::Negate(*self)), r),
        decreases *self,
    {
        let ir = self.expression.evaluate(ops);
        let res = match ir {
            Err(e) => Err(e),
            Ok(c) => negate_constant(c),
        };
        proof {
            let whole = UnaryExpression::Negate(*self);
            assert(eval_rel(unary_child(whole), ir) && unary_step(whole, ir, res));
        }
        res
    }
}

impl BinaryExpression {
    /// The operator of this node.
    pub fn op(&self) -> (o: BinOp)
        ensures
            o == binary_op_of(*self),
    {
        match self {
            BinaryExpression::Addition(_) => BinOp::Addition,
            BinaryExpression::Subtraction(_) => BinOp::Subtraction,
            BinaryExpression::Multiplication(_) => BinOp::Multiplication,
            BinaryExpression::Division(_) => BinOp::Division,
            BinaryExpression::Modulus(_) => BinOp::Modulus,
            BinaryExpression::Exponent(_) => BinOp::Exponent,
            BinaryExpression::Root(_) => BinOp::Root,
            BinaryExpression::BitwiseAnd(_) => BinOp::BitwiseAnd,
            BinaryExpression::BitwiseOr(_) => BinOp::BitwiseOr,
            BinaryExpression::BitwiseXor(_) => BinOp::BitwiseXor,
            BinaryExpression::LeftShift(_) => BinOp::LeftShift,
            BinaryExpression::RightShift(_) => BinOp::RightShift,
        }
    }

    /// The two children of this node.
    fn children(&self) -> (r: (&EnumExpression, &EnumExpression))
        ensures
            *r.0 == binary_children(*self).0,
            *r.1 == binary_children(*self).1,
            decreases_to!(*self => *r.0),
            decreases_to!(*self => *r.1),
    {
        match self {
            BinaryExpression::Addition(e) => (&e.left, &e.right),
            BinaryExpression::Subtraction(e) => (&e.left, &e.right),
            BinaryExpression::Multiplication(e) => (&e.left, &e.right),
            BinaryExpression::Division(e) => (&e.left, &e.right),
            BinaryExpression::Modulus(e) => (&e.left, &e.right),
            BinaryExpression::Exponent(e) => (&e.left, &e.right),
            BinaryExpression::Root(e) => (&e.left, &e.right),
            BinaryExpression::BitwiseAnd(e) => (&e.left, &e.right),
            BinaryExpression::BitwiseOr(e) => (&e.left, &e.right),
            BinaryExpression::BitwiseXor(e) => (&e.left, &e.right),
            BinaryExpression::LeftShift(e) => (&e.left, &e.right),
            BinaryExpression::RightShift(e) => (&e.left, &e.right),
        }
    }

    /// Evaluates the left child, then the right, and combines the values
    /// under this node's operator; the first child failure is the node's.
    pub fn evaluate<F: FloatOps>(&self, ops: &F) -> (r: Result<Constant, EvalError>)
        ensures
            eval_rel(EnumExpression::Binary(*self), r),
        decreases *self,
    {
        let op = self.op();
        let (left, right) = self.children();
        let lr = left.evaluate(ops);
        match lr {
            Err(e) => {
                proof {
                    lemma_bin_err_left(*self, lr);
                }
                Err(e)
            },
            Ok(lc) => {
                let rr = right.evaluate(ops);
                let res = match rr {
                    Err(e) => Err(e),
                    Ok(rc) => {
                        if matches!(op, BinOp::Root) {
                            root_combine(lc, rc, ops)
                        } else if matches!(
                            op,
                            BinOp::BitwiseAnd
                                | BinOp::BitwiseOr
                                | BinOp::BitwiseXor
                                | BinOp::LeftShift
                                | BinOp::RightShift,
                        ) {
                            bitwise_combine(op, lc, rc, ops)
                        } else {
                            arith_combine(op, lc, rc, ops)
                        }
                    },
                };
                proof {
                    lemma_bin_both(*self, lr, rr, res);
                }
                res
            },
        }
    }
}

impl ConstExpression {
    /// A leaf holding the constant a literal token denotes.
    pub fn new<F: FloatOps>(token: Token, ops: &F) -> (r: Self)
        ensures
            from_tok_rel(token@, r.constant),
    {
        ConstExpression { constant: Constant::from_tok(token, ops) }
    }

    /// The leaf's constant.
    pub fn evaluate(&self) -> (r: Constant)
        ensures
            r == self.constant,
    {
        self.constant
    }
}

} // verus!

verus! {

/// Anything that can be evaluated to a constant; `as_tree` names the tree
/// the node stands for, and evaluation must satisfy [`eval_rel`] on it.
pub trait Expression {
    spec fn as_tree(&self) -> EnumExpression;

    fn evaluate<F: FloatOps>(&self, ops: &F) -> (r: Result<Constant, EvalError>)
        ensures
            eval_rel(self.as_tree(), r),
    ;
}

/// A unary node constructor.
pub trait Unary {
    fn new(expression: Box<EnumExpression>) -> Self where Self: Sized;
}

/// A binary node constructor.
pub trait Binary {
    fn new(left: Box<EnumExpression>, right: Box<EnumExpression>) -> Self where Self: Sized;
}

/// Evaluates both children, then combines them under `op`; shared by every
/// binary node's trait evaluation.
fn combine_children<F: FloatOps>(
    op: BinOp,
    left: &EnumExpression,
    right: &EnumExpression,
    ops: &F,
) -> (r: Result<Constant, EvalError>)
    ensures
        exists|lr: Result<Constant, EvalError>, rr: Result<Constant, EvalError>|
            {
                &&& #[trigger] eval_rel(*left, lr)
                &&& #[trigger] eval_rel(*right, rr)
                &&& match lr {
                    Err(_) => r == lr,
                    Ok(lc) => match rr {
                        Err(_) => r == rr,
                        Ok(rc) => combine_rel(op, lc, rc, r),
                    },
                }
            },
{
    let lr = left.evaluate(ops);
    let res = match lr {
        Err(e) => {
            proof {
                let rw = lemma_eval_total(*right);
            }
            Err(e)
        },
        Ok(lc) => {
            let rr = right.evaluate(ops);
            match rr {
                Err(e) => Err(e),
                Ok(rc) => {
                    if matches!(op, BinOp::Root) {
                        root_combine(lc, rc, ops)
                    } else if matches!(
                        op,
                        BinOp::BitwiseAnd
                            | BinOp::BitwiseOr
                            | BinOp::BitwiseXor
                            | BinOp::LeftShift
                            | BinOp::RightShift,
                    ) {
                        bitwise_combine(op, lc, rc, ops)
                    } else {
                        proof {
                            assert(is_arith_op(op));
                        }
                        arith_combine(op, lc, rc, ops)
                    }
                },
            }
        },
    };
    res
}

} // verus!

verus! {

/// Turns the combined-children fact of [`combine_children`] into the
/// evaluation relation of the whole binary node.
proof fn lemma_combined_to_eval_rel(be: BinaryExpression, r: Result<Constant, EvalError>)
    requires
        exists|lr: Result<Constant, EvalError>, rr: Result<Constant, EvalError>|
            {
                &&& #[trigger] eval_rel(binary_children(be).0, lr)
                &&& #[trigger] eval_rel(binary_children(be).1, rr)
                &&& match lr {
                    Err(_) => r == lr,
                    Ok(lc) => match rr {
                        Err(_) => r == rr,
                        Ok(rc) => combine_rel(binary_op_of(be), lc, rc, r),
                    },
                }
            },
    ensures
        eval_rel(EnumExpression::Binary(be), r),
{
    let (lr, rr) = choose|lr: Result<Constant, EvalError>, rr: Result<Constant, EvalError>|
        {
            &&& #[trigger] eval_rel(binary_children(be).0, lr)
            &&& #[trigger] eval_rel(binary_children(be).1, rr)
            &&& match lr {
                Err(_) => r == lr,
                Ok(lc) => match rr {
                    Err(_) => r == rr,
                    Ok(rc) => combine_rel(binary_op_of(be), lc, rc, r),
                },
            }
        };
    if lr is Err {
        lemma_bin_err_left(be, lr);
    } else {
        lemma_bin_both(be, lr, rr, r);
    }
}

impl Expression for ConstExpression {
    open spec fn as_tree(&self) -> EnumExpression {
        EnumExpression::Constant(*self)
    }

    fn evaluate<F: FloatOps>(&self, ops: &F) -> (r: Result<Constant, EvalError>) {
        Ok(self.constant)
    }
}

impl Expression for NotExpression {
    open spec fn as_tree(&self) -> EnumExpression {
        EnumExpression::Unary(UnaryExpression::Not(*self))
    }

    fn evaluate<F: FloatOps>(&self, ops: &F) -> (r: Result<Constant, EvalError>) {
        self.evaluate(ops)
    }
}

impl Expression for NegateExpression {
    open spec fn as_tree(&self) -> EnumExpression {
        EnumExpression::Unary(UnaryExpression::Negate(*self))
    }

    fn evaluate<F: FloatOps>(&self, ops: &F) -> (r: Result<Constant, EvalError>) {
        self.evaluate(ops)
    }
}

impl Expression for EnumExpression {
    open spec fn as_tree(&self) -> EnumExpression {
        *self
    }

    fn evaluate<F: FloatOps>(&self, ops: &F) -> (r: Result<Constant, EvalError>) {
        self.evaluate(ops)
    }
}

impl Unary for NotExpression {
    fn new(expression: Box<EnumExpression>) -> Self {
        NotExpression { expression }
    }
}

impl Unary for NegateExpression {
    fn new(expression: Box<EnumExpression>) -> Self {
        NegateExpression { expression }
    }
}

} // verus!

verus! {

impl Expression for AddExpression {
    open spec fn as_tree(&self) -> EnumExpression {
        EnumExpression::Binary(BinaryExpression::Addition(*self))
    }

    fn evaluate<F: FloatOps>(&self, ops: &F) -> (r: Result<Constant, EvalError>) {
        let r = combine_children(BinOp::Addition, &self.left, &self.right, ops);
        proof {
            lemma_combined_to_eval_rel(BinaryExpression::Addition(*self), r);
        }
        r
    }
}

impl Binary for AddExpression {
    fn new(left: Box<EnumExpression>, right: Box<EnumExpression>) -> Self {
        AddExpression { left, right }
    }
}

impl Expression for SubtractExpression {
    open spec fn as_tree(&self) -> EnumExpression {
        EnumExpression::Binary(BinaryExpression::Subtraction(*self))
    }

    fn evaluate<F: FloatOps>(&self, ops: &F) -> (r: Result<Constant, EvalError>) {
        let r = combine_children(BinOp::Subtraction, &self.left, &self.right, ops);
        proof {
            lemma_combined_to_eval_rel(BinaryExpression::Subtraction(*self), r);
        }
        r
    }
}

impl Binary for SubtractExpression {
    fn new(left: Box<EnumExpression>, right: Box<EnumExpression>) -> Self {
        SubtractExpression { left, right }
    }
}

impl Expression for MultiplyExpression {
    open spec fn as_tree(&self) -> EnumExpression {
        EnumExpression::Binary(BinaryExpression::Multiplication(*self))
    }

    fn evaluate<F: FloatOps>(&self, ops: &F) -> (r: Result<Constant, EvalError>) {
        let r = combine_children(BinOp::Multiplication, &self.left, &self.right, ops);
        proof {
            lemma_combined_to_eval_rel(BinaryExpression::Multiplication(*self), r);
        }
        r
    }
}

impl Binary for MultiplyExpression {
    fn new(left: Box<EnumExpression>, right: Box<EnumExpression>) -> Self {
        MultiplyExpression { left, right }
    }
}

impl Expression for DivideExpression {
    open spec fn as_tree(&self) -> EnumExpression {
        EnumExpression::Binary(BinaryExpression::Division(*self))
    }

    fn evaluate<F: FloatOps>(&self, ops: &F) -> (r: Result<Constant, EvalError>) {
        let r = combine_children(BinOp::Division, &self.left, &self.right, ops);
        proof {
            lemma_combined_to_eval_rel(BinaryExpression::Division(*self), r);
        }
        r
    }
}

impl Binary for DivideExpression {
    fn new(left: Box<EnumExpression>, right: Box<EnumExpression>) -> Self {
        DivideExpression { left, right }
    }
}

impl Expression for ModuloExpression {
    open spec fn as_tree(&self) -> EnumExpression {
        EnumExpression::Binary(BinaryExpression::Modulus(*self))
    }

    fn evaluate<F: FloatOps>(&self, ops: &F) -> (r: Result<Constant, EvalError>) {
        let r = combine_children(BinOp::Modulus, &self.left, &self.right, ops);
        proof {
            lemma_combined_to_eval_rel(BinaryExpression::Modulus(*self), r);
        }
        r
    }
}

impl Binary for ModuloExpression {
    fn new(left: Box<EnumExpression>, right: Box<EnumExpression>) -> Self {
        ModuloExpression { left, right }
    }
}

impl Expression for ExponentExpression {
    open spec fn as_tree(&self) -> EnumExpression {
        EnumExpression::Binary(BinaryExpression::Exponent(*self))
    }

    fn evaluate<F: FloatOps>(&self, ops: &F) -> (r: Result<Constant, EvalError>) {
        let r = combine_children(BinOp::Exponent, &self.left, &self.right, ops);
        proof {
            lemma_combined_to_eval_rel(BinaryExpression::Exponent(*self), r);
        }
        r
    }
}

impl Binary for ExponentExpression {
    fn new(left: Box<EnumExpression>, right: Box<EnumExpression>) -> Self {
        ExponentExpression { left, right }
    }
}

impl Expression for RootExpression {
    open spec fn as_tree(&self) -> EnumExpression {
        EnumExpression::Binary(BinaryExpression::Root(*self))
    }

    fn evaluate<F: FloatOps>(&self, ops: &F) -> (r: Result<Constant, EvalError>) {
        let r = combine_children(BinOp::Root, &self.left, &self.right, ops);
        proof {
            lemma_combined_to_eval_rel(BinaryExpression::Root(*self), r);
        }
        r
    }
}

impl Binary for RootExpression {
    fn new(left: Box<EnumExpression>, right: Box<EnumExpression>) -> Self {
        RootExpression { left, right }
    }
}

impl Expression for AndExpression {
    open spec fn as_tree(&self) -> EnumExpression {
        EnumExpression::Binary(BinaryExpression::BitwiseAnd(*self))
    }

    fn evaluate<F: FloatOps>(&self, ops: &F) -> (r: Result<Constant, EvalError>) {
        let r = combine_children(BinOp::BitwiseAnd, &self.left, &self.right, ops);
        proof {
            lemma_combined_to_eval_rel(BinaryExpression::BitwiseAnd(*self), r);
        }
        r
    }
}

impl Binary for AndExpression {
    fn new(left: Box<EnumExpression>, right: Box<EnumExpression>) -> Self {
        AndExpression { left, right }
    }
}

impl Expression for OrExpression {
    open spec fn as_tree(&self) -> EnumExpression {
        EnumExpression::Binary(BinaryExpression::BitwiseOr(*self))
    }

    fn evaluate<F: FloatOps>(&self, ops: &F) -> (r: Result<Constant, EvalError>) {
        let r = combine_children(BinOp::BitwiseOr, &self.left, &self.right, ops);
        proof {
            lemma_combined_to_eval_rel(BinaryExpression::BitwiseOr(*self), r);
        }
        r
    }
}

impl Binary for OrExpression {
    fn new(left: Box<EnumExpression>, right: Box<EnumExpression>) -> Self {
        OrExpression { left, right }
    }
}

impl Expression for XorExpression {
    open spec fn as_tree(&self) -> EnumExpression {
        EnumExpression::Binary(BinaryExpression::BitwiseXor(*self))
    }

    fn evaluate<F: FloatOps>(&self, ops: &F) -> (r: Result<Constant, EvalError>) {
        let r = combine_children(BinOp::BitwiseXor, &self.left, &self.right, ops);
        proof {
            lemma_combined_to_eval_rel(BinaryExpression::BitwiseXor(*self), r);
        }
        r
    }
}

impl Binary for XorExpression {
    fn new(left: Box<EnumExpression>, right: Box<EnumExpression>) -> Self {
        XorExpression { left, right }
    }
}

impl Expression for LeftShiftExpression {
    open spec fn as_tree(&self) -> EnumExpression {
        EnumExpression::Binary(BinaryExpression::LeftShift(*self))
    }

    fn evaluate<F: FloatOps>(&self, ops: &F) -> (r: Result<Constant, EvalError>) {
        let r = combine_children(BinOp::LeftShift, &self.left, &self.right, ops);
        proof {
            lemma_combined_to_eval_rel(BinaryExpression::LeftShift(*self), r);
        }
        r
    }
}

impl Binary for LeftShiftExpression {
    fn new(left: Box<EnumExpression>, right: Box<EnumExpression>) -> Self {
        LeftShiftExpression { left, right }
    }
}

impl Expression for RightShiftExpression {
    open spec fn as_tree(&self) -> EnumExpression {
        EnumExpression::Binary(BinaryExpression::RightShift(*self))
    }

    fn evaluate<F: FloatOps>(&self, ops: &F) -> (r: Result<Constant, EvalError>) {
        let r = combine_children(BinOp::RightShift, &self.left, &self.right, ops);
        proof {
            lemma_combined_to_eval_rel(BinaryExpression::RightShift(*self), r);
        }
        r
    }
}

impl Binary for RightShiftExpression {
    fn new(left: Box<EnumExpression>, right: Box<EnumExpression>) -> Self {
        RightShiftExpression { left, right }
    }
}

} // verus!

verus! {

/// The text of each binary operator.
pub open spec fn operator_text(op: BinOp) -> Seq<u8> {
    match op {
        BinOp::Addition => seq![43u8],
        BinOp::Subtraction => seq![45u8],
        BinOp::Multiplication => seq![42u8],
        BinOp::Division => seq![47u8],
        BinOp::Modulus => seq![37u8],
        BinOp::BitwiseAnd => seq![38u8],
        BinOp::BitwiseOr => seq![124u8],
        BinOp::BitwiseXor => seq![94u8],
        BinOp::Exponent => seq![42u8, 42u8],
        BinOp::Root => seq![47u8, 47u8],
        BinOp::LeftShift => seq![60u8, 60u8],
        BinOp::RightShift => seq![62u8, 62u8],
    }
}

impl BinaryExpression {
    /// The binary node the operator text names, over the two children.
    pub fn new(left: Box<EnumExpression>, right: Box<EnumExpression>, operator: &str) -> (r:
        BinaryExpression)
        requires
            exists|op: BinOp| operator.spec_bytes() == operator_text(op),
        ensures
            forall|op: BinOp|
                operator.spec_bytes() == operator_text(op) ==> EnumExpression::Binary(r)
                    == spec_binary_node(op, *left, *right),
    {
        let b = operator.as_bytes();
        let ghost gop = choose|op: BinOp| operator.spec_bytes() == operator_text(op);
        if b.len() == 1 {
            let c = b[0];
            proof {
                assert(operator.spec_bytes() =~= seq![c]);
            }
            if c == 43 {
                BinaryExpression::Addition(AddExpression { left, right })
            } else if c == 45 {
                BinaryExpression::Subtraction(SubtractExpression { left, right })
            } else if c == 42 {
                BinaryExpression::Multiplication(MultiplyExpression { left, right })
            } else if c == 47 {
                BinaryExpression::Division(DivideExpression { left, right })
            } else if c == 37 {
                BinaryExpression::Modulus(ModuloExpression { left, right })
            } else if c == 38 {
                BinaryExpression::BitwiseAnd(AndExpression { left, right })
            } else if c == 124 {
                BinaryExpression::BitwiseOr(OrExpression { left, right })
            } else {
                proof {
                    assert(c == 94) by {
                        assert(operator.spec_bytes() == operator_text(gop));
                    }
                }
                BinaryExpression::BitwiseXor(XorExpression { left, right })
            }
        } else {
            let c = b[0];
            proof {
                assert(b@.len() == 2 && operator.spec_bytes() =~= seq![c, b@[1] as u8]) by {
                    assert(operator.spec_bytes() == operator_text(gop));
                }
            }
            if c == 42 {
                BinaryExpression::Exponent(ExponentExpression { left, right })
            } else if c == 47 {
                BinaryExpression::Root(RootExpression { left, right })
            } else if c == 60 {
                BinaryExpression::LeftShift(LeftShiftExpression { left, right })
            } else {
                proof {
                    assert(c == 62) by {
                        assert(operator.spec_bytes() == operator_text(gop));
                    }
                }
                BinaryExpression::RightShift(RightShiftExpression { left, right })
            }
        }
    }
}

impl UnaryExpression {
    /// The unary node the operator text names: `-` negates, `!` complements.
    pub fn new(expression: Box<EnumExpression>, operator: &str) -> (r: UnaryExpression)
        requires
            operator.spec_bytes() == seq![45u8] || operator.spec_bytes() == seq![33u8],
        ensures
            operator.spec_bytes() == seq![45u8] ==> r == UnaryExpression::Negate(
                NegateExpression { expression },
            ),
            operator.spec_bytes() == seq![33u8] ==> r == UnaryExpression::Not(
                NotExpression { expression },
            ),
    {
        let b = operator.as_bytes();
        if b.len() == 1 && b[0] == 45 {
            proof {
                assert(operator.spec_bytes() =~= seq![45u8]);
            }
            UnaryExpression::Negate(NegateExpression { expression })
        } else {
            proof {
                assert(operator.spec_bytes() =~= seq![33u8]);
            }
            UnaryExpression::Not(NotExpression { expression })
        }
    }
}

} // verus!
