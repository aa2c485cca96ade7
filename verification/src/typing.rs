//! The kinds of expressions, and the typed tree that a syntax tree stands for.
//!
//! A literal number is real and a quoted string is a string. A name is a
//! variable of the kind that its place asks for: a string where it is
//! compared with a quoted string, a real everywhere else.

use crate::expression::{BindingId, BoolExpression, Expression, RealExpression, StringExpression};
use crate::lexer::{ParseError, ParseErrorKind, Symbol, Token};
use crate::numeric::FloatExt;
use crate::syntax::{Operator, Syntax};
use vstd::prelude::*;

verus! {

/// The kind of value that a syntax tree denotes.
#[derive(Clone, Copy, Debug, PartialEq, Eq, Structural)]
pub enum Kind {
    Real,
    Boolean,
    Text,
    /// A lone name, whose kind its place decides.
    Variable,
}

impl Kind {
    /// Whether a tree of this kind can stand where a real is asked for.
    pub open spec fn fits_real(self) -> bool {
        self == Kind::Real || self == Kind::Variable
    }

    /// Whether a tree of this kind can stand where a string is asked for.
    pub open spec fn fits_text(self) -> bool {
        self == Kind::Text || self == Kind::Variable
    }
}

/// What a token stands for once its text has been read: the value of a
/// number, the binding of a name, the text of a quoted string, or nothing
/// more than the token says itself.
#[derive(Debug)]
pub enum Lexeme<Real> {
    Value(Real),
    Id(BindingId),
    Text(String),
    Mark,
}

/// The error of an operator, whose token has index `at`, on operands of
/// kinds that it does not take.
pub open spec fn mismatch(tokens: Seq<Token>, at: usize) -> ParseError {
    ParseError { kind: ParseErrorKind::MismatchedOperands, position: tokens[at as int].start }
}

/// The kind that an infix operator gives on operands of two kinds, if it
/// takes them: arithmetic takes reals and gives a real, the order
/// comparisons take reals, the equality comparisons take two reals or two
/// strings, and logic takes booleans.
pub open spec fn infix_kind(operator: Operator, lhs: Kind, rhs: Kind) -> Option<Kind> {
    match operator {
        Operator::Add
        | Operator::Subtract
        | Operator::Multiply
        | Operator::Divide
        | Operator::Power => if lhs.fits_real() && rhs.fits_real() {
            Some(Kind::Real)
        } else {
            None
        },
        Operator::Less
        | Operator::LessEqual
        | Operator::Greater
        | Operator::GreaterEqual => if lhs.fits_real() && rhs.fits_real() {
            Some(Kind::Boolean)
        } else {
            None
        },
        Operator::Equal | Operator::NotEqual => if lhs == Kind::Text || rhs == Kind::Text {
            if lhs.fits_text() && rhs.fits_text() {
                Some(Kind::Boolean)
            } else {
                None
            }
        } else if lhs.fits_real() && rhs.fits_real() {
            Some(Kind::Boolean)
        } else {
            None
        },
        Operator::And | Operator::Or => if lhs == Kind::Boolean && rhs == Kind::Boolean {
            Some(Kind::Boolean)
        } else {
            None
        },
    }
}

/// The kind of a syntax tree, or the error of the first operator, operands
/// before operators and left before right, that does not take its operands.
pub open spec fn kind_of(syntax: Syntax, tokens: Seq<Token>) -> Result<Kind, ParseError>
    decreases syntax,
{
    match syntax {
        Syntax::Number(_) => Ok(Kind::Real),
        Syntax::Text(_) => Ok(Kind::Text),
        Syntax::Name(_) => Ok(Kind::Variable),
        Syntax::Negate(at, operand) => match kind_of(*operand, tokens) {
            Ok(kind) => if kind.fits_real() {
                Ok(Kind::Real)
            } else {
                Err(mismatch(tokens, at))
            },
            Err(error) => Err(error),
        },
        Syntax::Invert(at, operand) => match kind_of(*operand, tokens) {
            Ok(kind) => if kind == Kind::Boolean {
                Ok(Kind::Boolean)
            } else {
                Err(mismatch(tokens, at))
            },
            Err(error) => Err(error),
        },
        Syntax::Infix(operator, at, lhs, rhs) => match kind_of(*lhs, tokens) {
            Ok(lhs_kind) => match kind_of(*rhs, tokens) {
                Ok(rhs_kind) => match infix_kind(operator, lhs_kind, rhs_kind) {
                    Some(kind) => Ok(kind),
                    None => Err(mismatch(tokens, at)),
                },
                Err(error) => Err(error),
            },
            Err(error) => Err(error),
        },
    }
}

/// The real-valued tree that a syntax tree of a kind that fits a real
/// stands for.
pub open spec fn real_of<Real>(syntax: Syntax, lexemes: Seq<Lexeme<Real>>) -> RealExpression<Real>
    decreases syntax,
{
    match syntax {
        Syntax::Number(at) => RealExpression::Literal(lexemes[at as int]->Value_0),
        Syntax::Name(at) => RealExpression::Binding(lexemes[at as int]->Id_0),
        Syntax::Negate(_, operand) => RealExpression::Neg(Box::new(real_of(*operand, lexemes))),
        Syntax::Infix(Operator::Add, _, lhs, rhs) => RealExpression::Add(
            Box::new(real_of(*lhs, lexemes)),
            Box::new(real_of(*rhs, lexemes)),
        ),
        Syntax::Infix(Operator::Subtract, _, lhs, rhs) => RealExpression::Sub(
            Box::new(real_of(*lhs, lexemes)),
            Box::new(real_of(*rhs, lexemes)),
        ),
        Syntax::Infix(Operator::Multiply, _, lhs, rhs) => RealExpression::Mul(
            Box::new(real_of(*lhs, lexemes)),
            Box::new(real_of(*rhs, lexemes)),
        ),
        Syntax::Infix(Operator::Divide, _, lhs, rhs) => RealExpression::Div(
            Box::new(real_of(*lhs, lexemes)),
            Box::new(real_of(*rhs, lexemes)),
        ),
        Syntax::Infix(Operator::Power, _, lhs, rhs) => RealExpression::Pow(
            Box::new(real_of(*lhs, lexemes)),
            Box::new(real_of(*rhs, lexemes)),
        ),
        _ => RealExpression::Binding(0),
    }
}

/// The string-valued tree that a syntax tree of a kind that fits a string
/// stands for.
pub open spec fn text_of<Real>(syntax: Syntax, lexemes: Seq<Lexeme<Real>>) -> StringExpression {
    match syntax {
        Syntax::Text(at) => StringExpression::Literal(lexemes[at as int]->Text_0),
        Syntax::Name(at) => StringExpression::Binding(lexemes[at as int]->Id_0),
        _ => StringExpression::Binding(0),
    }
}

/// The boolean-valued tree that a syntax tree of boolean kind stands for.
pub open spec fn bool_of<Real>(syntax: Syntax, lexemes: Seq<Lexeme<Real>>) -> BoolExpression<Real>
    decreases syntax,
{
    match syntax {
        Syntax::Invert(_, operand) => BoolExpression::Not(Box::new(bool_of(*operand, lexemes))),
        Syntax::Infix(Operator::And, _, lhs, rhs) => BoolExpression::And(
            Box::new(bool_of(*lhs, lexemes)),
            Box::new(bool_of(*rhs, lexemes)),
        ),
        Syntax::Infix(Operator::Or, _, lhs, rhs) => BoolExpression::Or(
            Box::new(bool_of(*lhs, lexemes)),
            Box::new(bool_of(*rhs, lexemes)),
        ),
        Syntax::Infix(Operator::Equal, _, lhs, rhs) => if *lhs is Text || *rhs is Text {
            BoolExpression::StrEqual(text_of(*lhs, lexemes), text_of(*rhs, lexemes))
        } else {
            BoolExpression::Equal(
                Box::new(real_of(*lhs, lexemes)),
                Box::new(real_of(*rhs, lexemes)),
            )
        },
        Syntax::Infix(Operator::NotEqual, _, lhs, rhs) => if *lhs is Text || *rhs is Text {
            BoolExpression::StrNotEqual(text_of(*lhs, lexemes), text_of(*rhs, lexemes))
        } else {
            BoolExpression::NotEqual(
                Box::new(real_of(*lhs, lexemes)),
                Box::new(real_of(*rhs, lexemes)),
            )
        },
        Syntax::Infix(Operator::Less, _, lhs, rhs) => BoolExpression::Less(
            Box::new(real_of(*lhs, lexemes)),
            Box::new(real_of(*rhs, lexemes)),
        ),
        Syntax::Infix(Operator::LessEqual, _, lhs, rhs) => BoolExpression::LessEqual(
            Box::new(real_of(*lhs, lexemes)),
            Box::new(real_of(*rhs, lexemes)),
        ),
        Syntax::Infix(Operator::Greater, _, lhs, rhs) => BoolExpression::Greater(
            Box::new(real_of(*lhs, lexemes)),
            Box::new(real_of(*rhs, lexemes)),
        ),
        Syntax::Infix(Operator::GreaterEqual, _, lhs, rhs) => BoolExpression::GreaterEqual(
            Box::new(real_of(*lhs, lexemes)),
            Box::new(real_of(*rhs, lexemes)),
        ),
        _ => BoolExpression::StrEqual(StringExpression::Binding(0), StringExpression::Binding(0)),
    }
}

/// The typed tree that a syntax tree of a given kind stands for. A lone
/// name is a real variable.
pub open spec fn tree_of<Real>(
    syntax: Syntax,
    kind: Kind,
    lexemes: Seq<Lexeme<Real>>,
) -> Expression<Real> {
    match kind {
        Kind::Boolean => Expression::Boolean(bool_of(syntax, lexemes)),
        Kind::Text => Expression::String(text_of(syntax, lexemes)),
        _ => Expression::Real(real_of(syntax, lexemes)),
    }
}

/// Only a quoted string is of the kind of strings, and only a name is of the
/// kind of variables.
pub proof fn lemma_leaf_kinds(syntax: Syntax, tokens: Seq<Token>)
    ensures
        kind_of(syntax, tokens) == Ok::<Kind, ParseError>(Kind::Text) <==> syntax is Text,
        kind_of(syntax, tokens) == Ok::<Kind, ParseError>(Kind::Variable) <==> syntax is Name,
{
}

/// Whether every name among the tokens is bound to one of `columns` columns.
pub open spec fn names_bound_by<Real>(
    tokens: Seq<Token>,
    lexemes: Seq<Lexeme<Real>>,
    columns: nat,
) -> bool {
    forall|at: int|
        0 <= at < tokens.len() && (#[trigger] tokens[at]).symbol == Symbol::Name
            ==> lexemes[at]->Id_0 < columns
}

/// Whether every binding of an expression refers to one of the columns of
/// its kind.
pub open spec fn tree_bound_by<Real: FloatExt>(
    tree: Expression<Real>,
    real_columns: nat,
    string_columns: nat,
) -> bool {
    match tree {
        Expression::Boolean(tree) => tree.bound_by(real_columns, string_columns),
        Expression::Real(tree) => tree.bound_by(real_columns),
        Expression::String(tree) => tree.bound_by(string_columns),
    }
}

/// The real-valued tree of a syntax tree binds the columns that its names
/// are bound to.
pub proof fn lemma_real_bound<Real: FloatExt>(
    syntax: Syntax,
    tokens: Seq<Token>,
    lexemes: Seq<Lexeme<Real>>,
    columns: nat,
)
    requires
        syntax.within(tokens),
        names_bound_by(tokens, lexemes, columns),
        kind_of(syntax, tokens) matches Ok(kind) && kind.fits_real(),
    ensures
        real_of(syntax, lexemes).bound_by(columns),
    decreases syntax,
{
    match syntax {
        Syntax::Negate(_, operand) => {
            lemma_real_bound(*operand, tokens, lexemes, columns);
        },
        Syntax::Infix(_, _, lhs, rhs) => {
            lemma_real_bound(*lhs, tokens, lexemes, columns);
            lemma_real_bound(*rhs, tokens, lexemes, columns);
        },
        _ => {},
    }
}

/// The string-valued tree of a syntax tree binds the column that its name
/// is bound to.
pub proof fn lemma_text_bound<Real: FloatExt>(
    syntax: Syntax,
    tokens: Seq<Token>,
    lexemes: Seq<Lexeme<Real>>,
    columns: nat,
)
    requires
        syntax.within(tokens),
        names_bound_by(tokens, lexemes, columns),
        kind_of(syntax, tokens) matches Ok(kind) && kind.fits_text(),
    ensures
        text_of(syntax, lexemes).bound_by(columns),
{
    lemma_leaf_kinds(syntax, tokens);
}

/// The boolean-valued tree of a syntax tree binds the columns that its
/// names are bound to.
pub proof fn lemma_bool_bound<Real: FloatExt>(
    syntax: Syntax,
    tokens: Seq<Token>,
    lexemes: Seq<Lexeme<Real>>,
    real_columns: nat,
    string_columns: nat,
)
    requires
        syntax.within(tokens),
        names_bound_by(tokens, lexemes, real_columns),
        names_bound_by(tokens, lexemes, string_columns),
        kind_of(syntax, tokens) == Ok::<Kind, ParseError>(Kind::Boolean),
    ensures
        bool_of(syntax, lexemes).bound_by(real_columns, string_columns),
    decreases syntax,
{
    match syntax {
        Syntax::Invert(_, operand) => {
            lemma_bool_bound(*operand, tokens, lexemes, real_columns, string_columns);
        },
        Syntax::Infix(operator, _, lhs, rhs) => {
            lemma_leaf_kinds(*lhs, tokens);
            lemma_leaf_kinds(*rhs, tokens);
            match operator {
                Operator::And | Operator::Or => {
                    lemma_bool_bound(*lhs, tokens, lexemes, real_columns, string_columns);
                    lemma_bool_bound(*rhs, tokens, lexemes, real_columns, string_columns);
                },
                Operator::Equal | Operator::NotEqual => {
                    if *lhs is Text || *rhs is Text {
                        lemma_text_bound(*lhs, tokens, lexemes, string_columns);
                        lemma_text_bound(*rhs, tokens, lexemes, string_columns);
                    } else {
                        lemma_real_bound(*lhs, tokens, lexemes, real_columns);
                        lemma_real_bound(*rhs, tokens, lexemes, real_columns);
                    }
                },
                _ => {
                    lemma_real_bound(*lhs, tokens, lexemes, real_columns);
                    lemma_real_bound(*rhs, tokens, lexemes, real_columns);
                },
            }
        },
        _ => {},
    }
}

/// Whether the lexemes are of the kinds of their tokens.
pub open spec fn lexemes_fit<Real>(tokens: Seq<Token>, lexemes: Seq<Lexeme<Real>>) -> bool {
    &&& lexemes.len() == tokens.len()
    &&& forall|at: int|
        0 <= at < tokens.len() ==> match (#[trigger] tokens[at]).symbol {
            Symbol::Number => lexemes[at] is Value,
            Symbol::Name => lexemes[at] is Id,
            Symbol::Text => lexemes[at] is Text,
            _ => true,
        }
}

fn fits_real(kind: Kind) -> (out: bool)
    ensures
        out == kind.fits_real(),
{
    kind == Kind::Real || kind == Kind::Variable
}

fn fits_text(kind: Kind) -> (out: bool)
    ensures
        out == kind.fits_text(),
{
    kind == Kind::Text || kind == Kind::Variable
}

fn kind_of_infix(operator: Operator, lhs: Kind, rhs: Kind) -> (out: Option<Kind>)
    ensures
        out == infix_kind(operator, lhs, rhs),
{
    match operator {
        Operator::Add
        | Operator::Subtract
        | Operator::Multiply
        | Operator::Divide
        | Operator::Power => if fits_real(lhs) && fits_real(rhs) {
            Some(Kind::Real)
        } else {
            None
        },
        Operator::Less
        | Operator::LessEqual
        | Operator::Greater
        | Operator::GreaterEqual => if fits_real(lhs) && fits_real(rhs) {
            Some(Kind::Boolean)
        } else {
            None
        },
        Operator::Equal | Operator::NotEqual => if lhs == Kind::Text || rhs == Kind::Text {
            if fits_text(lhs) && fits_text(rhs) {
                Some(Kind::Boolean)
            } else {
                None
            }
        } else if fits_real(lhs) && fits_real(rhs) {
            Some(Kind::Boolean)
        } else {
            None
        },
        Operator::And | Operator::Or => if lhs == Kind::Boolean && rhs == Kind::Boolean {
            Some(Kind::Boolean)
        } else {
            None
        },
    }
}

fn mismatch_at(tokens: &[Token], at: usize) -> (out: ParseError)
    requires
        at < tokens@.len(),
    ensures
        out == mismatch(tokens@, at),
{
    ParseError { kind: ParseErrorKind::MismatchedOperands, position: tokens[at].start }
}

/// Finds the kind of a syntax tree, or the first operator that does not
/// take its operands.
pub fn check_kind(syntax: &Syntax, tokens: &[Token]) -> (out: Result<Kind, ParseError>)
    requires
        syntax.within(tokens@),
    ensures
        out == kind_of(*syntax, tokens@),
    decreases syntax,
{
    match syntax {
        Syntax::Number(_) => Ok(Kind::Real),
        Syntax::Text(_) => Ok(Kind::Text),
        Syntax::Name(_) => Ok(Kind::Variable),
        Syntax::Negate(at, operand) => match check_kind(operand, tokens) {
            Ok(kind) => if fits_real(kind) {
                Ok(Kind::Real)
            } else {
                Err(mismatch_at(tokens, *at))
            },
            Err(error) => Err(error),
        },
        Syntax::Invert(at, operand) => match check_kind(operand, tokens) {
            Ok(kind) => if kind == Kind::Boolean {
                Ok(Kind::Boolean)
            } else {
                Err(mismatch_at(tokens, *at))
            },
            Err(error) => Err(error),
        },
        Syntax::Infix(operator, at, lhs, rhs) => match check_kind(lhs, tokens) {
            Ok(lhs_kind) => match check_kind(rhs, tokens) {
                Ok(rhs_kind) => match kind_of_infix(*operator, lhs_kind, rhs_kind) {
                    Some(kind) => Ok(kind),
                    None => Err(mismatch_at(tokens, *at)),
                },
                Err(error) => Err(error),
            },
            Err(error) => Err(error),
        },
    }
}

/// Builds the real-valued tree that a syntax tree stands for.
pub(crate) fn build_real<Real: FloatExt>(
    syntax: &Syntax,
    lexemes: &[Lexeme<Real>],
    Ghost(tokens): Ghost<Seq<Token>>,
) -> (out: RealExpression<Real>)
    requires
        syntax.within(tokens),
        lexemes_fit(tokens, lexemes@),
        kind_of(*syntax, tokens) matches Ok(kind) && kind.fits_real(),
    ensures
        out == real_of(*syntax, lexemes@),
    decreases syntax,
{
    match syntax {
        Syntax::Number(at) => match &lexemes[*at] {
            Lexeme::Value(value) => RealExpression::Literal(*value),
            _ => unreached(),
        },
        Syntax::Name(at) => match &lexemes[*at] {
            Lexeme::Id(binding) => RealExpression::Binding(*binding),
            _ => unreached(),
        },
        Syntax::Negate(_, operand) => RealExpression::Neg(
            Box::new(build_real(operand, lexemes, Ghost(tokens))),
        ),
        Syntax::Infix(operator, _, lhs, rhs) => {
            let lhs = Box::new(build_real(lhs, lexemes, Ghost(tokens)));
            let rhs = Box::new(build_real(rhs, lexemes, Ghost(tokens)));
            match operator {
                Operator::Add => RealExpression::Add(lhs, rhs),
                Operator::Subtract => RealExpression::Sub(lhs, rhs),
                Operator::Multiply => RealExpression::Mul(lhs, rhs),
                Operator::Divide => RealExpression::Div(lhs, rhs),
                Operator::Power => RealExpression::Pow(lhs, rhs),
                _ => unreached(),
            }
        },
        _ => unreached(),
    }
}

/// Builds the string-valued tree that a syntax tree stands for.
pub(crate) fn build_text<Real>(
    syntax: &Syntax,
    lexemes: &[Lexeme<Real>],
    Ghost(tokens): Ghost<Seq<Token>>,
) -> (out: StringExpression)
    requires
        syntax.within(tokens),
        lexemes_fit(tokens, lexemes@),
        kind_of(*syntax, tokens) matches Ok(kind) && kind.fits_text(),
    ensures
        out == text_of(*syntax, lexemes@),
{
    match syntax {
        Syntax::Text(at) => match &lexemes[*at] {
            Lexeme::Text(text) => StringExpression::Literal(text.clone()),
            _ => unreached(),
        },
        Syntax::Name(at) => match &lexemes[*at] {
            Lexeme::Id(binding) => StringExpression::Binding(*binding),
            _ => unreached(),
        },
        _ => unreached(),
    }
}

/// Tests whether a syntax tree is a quoted string.
pub(crate) fn is_text(syntax: &Syntax) -> (out: bool)
    ensures
        out == (*syntax is Text),
{
    match syntax {
        Syntax::Text(_) => true,
        _ => false,
    }
}

/// Builds the boolean-valued tree that a syntax tree stands for.
pub(crate) fn build_bool<Real: FloatExt>(
    syntax: &Syntax,
    lexemes: &[Lexeme<Real>],
    Ghost(tokens): Ghost<Seq<Token>>,
) -> (out: BoolExpression<Real>)
    requires
        syntax.within(tokens),
        lexemes_fit(tokens, lexemes@),
        kind_of(*syntax, tokens) == Ok::<Kind, ParseError>(Kind::Boolean),
    ensures
        out == bool_of(*syntax, lexemes@),
    decreases syntax,
{
    match syntax {
        Syntax::Invert(_, operand) => BoolExpression::Not(
            Box::new(build_bool(operand, lexemes, Ghost(tokens))),
        ),
        Syntax::Infix(operator, _, lhs, rhs) => {
            proof {
                lemma_leaf_kinds(**lhs, tokens);
                lemma_leaf_kinds(**rhs, tokens);
            }
            match operator {
                Operator::And => BoolExpression::And(
                    Box::new(build_bool(lhs, lexemes, Ghost(tokens))),
                    Box::new(build_bool(rhs, lexemes, Ghost(tokens))),
                ),
                Operator::Or => BoolExpression::Or(
                    Box::new(build_bool(lhs, lexemes, Ghost(tokens))),
                    Box::new(build_bool(rhs, lexemes, Ghost(tokens))),
                ),
                Operator::Equal => if is_text(lhs) || is_text(rhs) {
                    BoolExpression::StrEqual(
                        build_text(lhs, lexemes, Ghost(tokens)),
                        build_text(rhs, lexemes, Ghost(tokens)),
                    )
                } else {
                    BoolExpression::Equal(
                        Box::new(build_real(lhs, lexemes, Ghost(tokens))),
                        Box::new(build_real(rhs, lexemes, Ghost(tokens))),
                    )
                },
                Operator::NotEqual => if is_text(lhs) || is_text(rhs) {
                    BoolExpression::StrNotEqual(
                        build_text(lhs, lexemes, Ghost(tokens)),
                        build_text(rhs, lexemes, Ghost(tokens)),
                    )
                } else {
                    BoolExpression::NotEqual(
                        Box::new(build_real(lhs, lexemes, Ghost(tokens))),
                        Box::new(build_real(rhs, lexemes, Ghost(tokens))),
                    )
                },
                Operator::Less => BoolExpression::Less(
                    Box::new(build_real(lhs, lexemes, Ghost(tokens))),
                    Box::new(build_real(rhs, lexemes, Ghost(tokens))),
                ),
                Operator::LessEqual => BoolExpression::LessEqual(
                    Box::new(build_real(lhs, lexemes, Ghost(tokens))),
                    Box::new(build_real(rhs, lexemes, Ghost(tokens))),
                ),
                Operator::Greater => BoolExpression::Greater(
                    Box::new(build_real(lhs, lexemes, Ghost(tokens))),
                    Box::new(build_real(rhs, lexemes, Ghost(tokens))),
                ),
                Operator::GreaterEqual => BoolExpression::GreaterEqual(
                    Box::new(build_real(lhs, lexemes, Ghost(tokens))),
                    Box::new(build_real(rhs, lexemes, Ghost(tokens))),
                ),
                _ => unreached(),
            }
        },
        _ => unreached(),
    }
}

/// Builds the typed tree that a syntax tree of a given kind stands for.
pub(crate) fn build_tree<Real: FloatExt>(
    syntax: &Syntax,
    kind: Kind,
    lexemes: &[Lexeme<Real>],
    Ghost(tokens): Ghost<Seq<Token>>,
) -> (out: Expression<Real>)
    requires
        syntax.within(tokens),
        lexemes_fit(tokens, lexemes@),
        kind_of(*syntax, tokens) == Ok::<Kind, ParseError>(kind),
    ensures
        out == tree_of(*syntax, kind, lexemes@),
{
    match kind {
        Kind::Boolean => Expression::Boolean(build_bool(syntax, lexemes, Ghost(tokens))),
        Kind::Text => Expression::String(build_text(syntax, lexemes, Ghost(tokens))),
        _ => Expression::Real(build_real(syntax, lexemes, Ghost(tokens))),
    }
}

} // verus!
