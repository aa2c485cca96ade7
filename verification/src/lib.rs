//! Vectorized math expression parser and evaluator.
//!
//! # Why?
//!
//! Performance. Evaluation of math expressions involving many variables can
//! incur significant overhead from traversing the expression tree or
//! performing variable lookups. We amortize that cost by performing
//! intermediate operations on whole columns of input data at a time, one
//! value per row, with the rows of an operation handed out to worker threads.
//!
//! # How?
//!
//! An [`Expression`] is parsed once from its text. The names of its
//! variables are replaced by indices into the columns that each evaluation
//! binds, so that the tree can be reused with many different columns.
//! Evaluation takes its scratch registers from a pool of [`Registers`] and
//! hands back to the pool every register but that of the output, so that an
//! evaluation allocates as many registers as are live at once, and a pool
//! that has served one evaluation serves the next with few allocations or
//! none.
//!
//! ```text
//! let parsed = Expression::parse("2 * (foo + bar) * baz", binding_map)?;
//! let tree = parsed.unwrap_real();
//! let mut registers = Registers::new(3);
//! let output = tree.evaluate(&[&bar, &baz, &foo], &mut registers);
//! ```
//!
//! # What is proved?
//!
//! Every function of the library is verified against its contract. The
//! contracts say what a tree denotes on every row ([`evaluate`], [`logic`]),
//! how many registers an evaluation allocates ([`registers`]), and which
//! tree a text spells ([`lexer`], [`syntax`], [`typing`], [`parse`]); what
//! follows from them for all trees and columns is collected in [`laws`].
//! Taken on trust are the numeric type's own operations ([`FloatExt`]), the
//! bit-vectors that hold boolean rows ([`bits`]), and the handing out of rows
//! to worker threads ([`parallel`]).

pub mod bits;
pub mod evaluate;
pub mod expression;
pub mod laws;
pub mod lexer;
pub mod logic;
pub mod numeric;
pub mod parallel;
pub mod parse;
pub mod registers;
pub mod syntax;
pub mod typing;

pub use bits::BoolRegister;
pub use evaluate::EvaluateError;
pub use expression::{BindingId, BoolExpression, Expression, RealExpression, StringExpression};
pub use lexer::{ParseError, ParseErrorKind};
pub use numeric::{FloatExt, StringId};
pub use parse::empty_binding_map;
pub use registers::Registers;
