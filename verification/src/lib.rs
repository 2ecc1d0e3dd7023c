//! A verified arithmetic-expression evaluator over five numeric bases.
//!
//! An expression mixes decimal integer, float, binary, hexadecimal and octal
//! literals with arithmetic, bitwise and shift operators.  The pipeline
//! tokenizes the text, rewrites it with explicit parentheses that encode
//! operator precedence, re-tokenizes the rewritten text, builds an
//! expression tree by plain recursive descent, evaluates the tree over
//! tagged 64-bit constants, and coerces the result into a caller-chosen
//! target base.
//!
//! Floating-point arithmetic cannot be carried out here; a float is handled
//! as its raw IEEE-754 bit pattern, and every operation on float values is
//! delegated to a caller-supplied [`floats::FloatOps`] interpreter.
pub mod calculate;
pub mod constants;
pub mod eval;
pub mod expressions;
pub mod floats;
pub mod laws;
pub mod render;
pub mod tokens;

pub use calculate::ParseToken;
pub use calculate::Parser;
pub use calculate::calculate;
pub use constants::Constant;
pub use eval::BinOp;
pub use eval::EvalError;
pub use eval::UnOp;
pub use expressions::BinaryExpression;
pub use expressions::EnumExpression;
pub use expressions::UnaryExpression;
pub use constants::Target;
pub use floats::FloatOps;
pub use tokens::LexingError;
pub use tokens::Token;
