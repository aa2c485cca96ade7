//! The typed expression tree.

use vstd::prelude::*;

verus! {

/// Index into the input columns passed to expression evaluation.
pub type BindingId = usize;

/// Top-level parseable calculation.
#[derive(Debug)]
pub enum Expression<Real> {
    Boolean(BoolExpression<Real>),
    Real(RealExpression<Real>),
    String(StringExpression),
}

/// A `bool`-valued expression.
#[derive(Debug)]
pub enum BoolExpression<Real> {
    // Binary logic.
    And(Box<BoolExpression<Real>>, Box<BoolExpression<Real>>),
    Or(Box<BoolExpression<Real>>, Box<BoolExpression<Real>>),
    // Unary logic.
    Not(Box<BoolExpression<Real>>),
    // Real comparisons.
    Equal(Box<RealExpression<Real>>, Box<RealExpression<Real>>),
    Greater(Box<RealExpression<Real>>, Box<RealExpression<Real>>),
    GreaterEqual(Box<RealExpression<Real>>, Box<RealExpression<Real>>),
    Less(Box<RealExpression<Real>>, Box<RealExpression<Real>>),
    LessEqual(Box<RealExpression<Real>>, Box<RealExpression<Real>>),
    NotEqual(Box<RealExpression<Real>>, Box<RealExpression<Real>>),
    // String comparisons.
    StrEqual(StringExpression, StringExpression),
    StrNotEqual(StringExpression, StringExpression),
}

/// A real-valued expression.
#[derive(Debug)]
pub enum RealExpression<Real> {
    // Binary real operations.
    Add(Box<RealExpression<Real>>, Box<RealExpression<Real>>),
    Div(Box<RealExpression<Real>>, Box<RealExpression<Real>>),
    Mul(Box<RealExpression<Real>>, Box<RealExpression<Real>>),
    Pow(Box<RealExpression<Real>>, Box<RealExpression<Real>>),
    Sub(Box<RealExpression<Real>>, Box<RealExpression<Real>>),
    // Unary real operations.
    Neg(Box<RealExpression<Real>>),
    // Constant.
    Literal(Real),
    // Input variable.
    Binding(BindingId),
}

/// A string-valued expression.
#[derive(Debug)]
pub enum StringExpression {
    Literal(String),
    Binding(BindingId),
}

impl Clone for StringExpression {
    fn clone(&self) -> (out: Self)
        ensures
            out == *self,
    {
        match self {
            StringExpression::Literal(text) => StringExpression::Literal(text.clone()),
            StringExpression::Binding(binding) => StringExpression::Binding(*binding),
        }
    }
}

impl<Real: Copy> Clone for RealExpression<Real> {
    fn clone(&self) -> (out: Self)
        ensures
            out == *self,
        decreases self,
    {
        match self {
            RealExpression::Add(lhs, rhs) => RealExpression::Add(
                Box::new((&**lhs).clone()),
                Box::new((&**rhs).clone()),
            ),
            RealExpression::Div(lhs, rhs) => RealExpression::Div(
                Box::new((&**lhs).clone()),
                Box::new((&**rhs).clone()),
            ),
            RealExpression::Mul(lhs, rhs) => RealExpression::Mul(
                Box::new((&**lhs).clone()),
                Box::new((&**rhs).clone()),
            ),
            RealExpression::Pow(lhs, rhs) => RealExpression::Pow(
                Box::new((&**lhs).clone()),
                Box::new((&**rhs).clone()),
            ),
            RealExpression::Sub(lhs, rhs) => RealExpression::Sub(
                Box::new((&**lhs).clone()),
                Box::new((&**rhs).clone()),
            ),
            RealExpression::Neg(only) => RealExpression::Neg(Box::new((&**only).clone())),
            RealExpression::Literal(value) => RealExpression::Literal(*value),
            RealExpression::Binding(binding) => RealExpression::Binding(*binding),
        }
    }
}

impl<Real: Copy> Clone for BoolExpression<Real> {
    fn clone(&self) -> (out: Self)
        ensures
            out == *self,
        decreases self,
    {
        match self {
            BoolExpression::And(lhs, rhs) => BoolExpression::And(
                Box::new((&**lhs).clone()),
                Box::new((&**rhs).clone()),
            ),
            BoolExpression::Or(lhs, rhs) => BoolExpression::Or(
                Box::new((&**lhs).clone()),
                Box::new((&**rhs).clone()),
            ),
            BoolExpression::Not(only) => BoolExpression::Not(Box::new((&**only).clone())),
            BoolExpression::Equal(lhs, rhs) => BoolExpression::Equal(
                Box::new((&**lhs).clone()),
                Box::new((&**rhs).clone()),
            ),
            BoolExpression::Greater(lhs, rhs) => BoolExpression::Greater(
                Box::new((&**lhs).clone()),
                Box::new((&**rhs).clone()),
            ),
            BoolExpression::GreaterEqual(lhs, rhs) => BoolExpression::GreaterEqual(
                Box::new((&**lhs).clone()),
                Box::new((&**rhs).clone()),
            ),
            BoolExpression::Less(lhs, rhs) => BoolExpression::Less(
                Box::new((&**lhs).clone()),
                Box::new((&**rhs).clone()),
            ),
            BoolExpression::LessEqual(lhs, rhs) => BoolExpression::LessEqual(
                Box::new((&**lhs).clone()),
                Box::new((&**rhs).clone()),
            ),
            BoolExpression::NotEqual(lhs, rhs) => BoolExpression::NotEqual(
                Box::new((&**lhs).clone()),
                Box::new((&**rhs).clone()),
            ),
            BoolExpression::StrEqual(lhs, rhs) => BoolExpression::StrEqual(
                lhs.clone(),
                rhs.clone(),
            ),
            BoolExpression::StrNotEqual(lhs, rhs) => BoolExpression::StrNotEqual(
                lhs.clone(),
                rhs.clone(),
            ),
        }
    }
}

impl<Real: Copy> Clone for Expression<Real> {
    fn clone(&self) -> (out: Self)
        ensures
            out == *self,
    {
        match self {
            Expression::Boolean(inner) => Expression::Boolean(inner.clone()),
            Expression::Real(inner) => Expression::Real(inner.clone()),
            Expression::String(inner) => Expression::String(inner.clone()),
        }
    }
}

impl<Real> Expression<Real> {
    /// Assume this expression is real-valued: the real-valued tree of an
    /// expression that is one.
    pub fn unwrap_real(self) -> (out: RealExpression<Real>)
        requires
            self is Real,
        ensures
            out == self->Real_0,
    {
        match self {
            Expression::Real(r) => r,
            _ => unreached(),
        }
    }

    /// Assume this expression is string-valued: the string-valued tree of an
    /// expression that is one.
    pub fn unwrap_string(self) -> (out: StringExpression)
        requires
            self is String,
        ensures
            out == self->String_0,
    {
        match self {
            Expression::String(s) => s,
            _ => unreached(),
        }
    }

    /// Assume this expression is boolean-valued: the boolean-valued tree of
    /// an expression that is one.
    pub fn unwrap_bool(self) -> (out: BoolExpression<Real>)
        requires
            self is Boolean,
        ensures
            out == self->Boolean_0,
    {
        match self {
            Expression::Boolean(b) => b,
            _ => unreached(),
        }
    }
}

} // verus!
