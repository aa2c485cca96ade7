//! The numeric element type of real-valued expressions, and the scalar
//! operations that expressions apply to it row by row.

use vstd::prelude::*;

verus! {

/// To speed up string comparisons, strings are interned: a string-valued row
/// holds the identifier that the caller's interning function gave its text.
pub type StringId = u32;

/// A floating-point kind that real-valued expressions can be evaluated over.
///
/// An implementation supplies the native arithmetic and the native relations
/// of its numeric type, with whatever that type does on NaN, signed zero,
/// division by zero and overflow. Every operation but the reading of
/// literals is a pure function of its operands: the executable method
/// returns exactly the value that its specification counterpart denotes.
///
/// The library's contracts are stated over the specification counterparts.
/// That an implementation's executable methods keep to them is proved where
/// the implementation is itself verified, and is taken on trust of one that
/// is not; such an implementation gives each specification function the body
/// of its executable method.
pub trait FloatExt: Copy + Send + Sync {
    /// The sum `self + rhs`.
    spec fn plus_spec(self, rhs: Self) -> Self;

    /// The difference `self - rhs`.
    spec fn minus_spec(self, rhs: Self) -> Self;

    /// The product `self * rhs`.
    spec fn times_spec(self, rhs: Self) -> Self;

    /// The quotient `self / rhs`.
    spec fn over_spec(self, rhs: Self) -> Self;

    /// The power `self ^ rhs`.
    spec fn powf_spec(self, rhs: Self) -> Self;

    /// The negation `-self`.
    spec fn negated_spec(self) -> Self;

    /// Whether `self == rhs` in the numeric type's own equality.
    spec fn same_spec(self, rhs: Self) -> bool;

    /// Whether `self < rhs`.
    spec fn less_spec(self, rhs: Self) -> bool;

    /// Whether `self <= rhs`.
    spec fn less_equal_spec(self, rhs: Self) -> bool;

    /// Whether `self > rhs`.
    spec fn greater_spec(self, rhs: Self) -> bool;

    /// Whether `self >= rhs`.
    spec fn greater_equal_spec(self, rhs: Self) -> bool;

    /// Reads the text of a real literal, such as `2`, `0.5` or `1.5e-3`:
    /// the value that it spells, or nothing where the numeric type does not
    /// read it.
    fn parse_literal(text: &str) -> Option<Self>;

    /// Computes `self + rhs`.
    fn plus(self, rhs: Self) -> (out: Self)
        ensures
            out == self.plus_spec(rhs),
    ;

    /// Computes `self - rhs`.
    fn minus(self, rhs: Self) -> (out: Self)
        ensures
            out == self.minus_spec(rhs),
    ;

    /// Computes `self * rhs`.
    fn times(self, rhs: Self) -> (out: Self)
        ensures
            out == self.times_spec(rhs),
    ;

    /// Computes `self / rhs`.
    fn over(self, rhs: Self) -> (out: Self)
        ensures
            out == self.over_spec(rhs),
    ;

    /// Computes `self` raised to the power `rhs`.
    fn powf(self, rhs: Self) -> (out: Self)
        ensures
            out == self.powf_spec(rhs),
    ;

    /// Computes `-self`.
    fn negated(self) -> (out: Self)
        ensures
            out == self.negated_spec(),
    ;

    /// Tests `self == rhs`.
    fn same(self, rhs: Self) -> (out: bool)
        ensures
            out == self.same_spec(rhs),
    ;

    /// Tests `self < rhs`.
    fn less(self, rhs: Self) -> (out: bool)
        ensures
            out == self.less_spec(rhs),
    ;

    /// Tests `self <= rhs`.
    fn less_equal(self, rhs: Self) -> (out: bool)
        ensures
            out == self.less_equal_spec(rhs),
    ;

    /// Tests `self > rhs`.
    fn greater(self, rhs: Self) -> (out: bool)
        ensures
            out == self.greater_spec(rhs),
    ;

    /// Tests `self >= rhs`.
    fn greater_equal(self, rhs: Self) -> (out: bool)
        ensures
            out == self.greater_equal_spec(rhs),
    ;
}

/// The binary operations of real arithmetic.
#[derive(Clone, Copy, Debug)]
pub enum BinaryRealOp {
    Add,
    Div,
    Mul,
    Pow,
    Sub,
}

impl BinaryRealOp {
    /// What the operation denotes on one pair of operands.
    pub open spec fn apply_spec<Real: FloatExt>(self, lhs: Real, rhs: Real) -> Real {
        match self {
            BinaryRealOp::Add => lhs.plus_spec(rhs),
            BinaryRealOp::Div => lhs.over_spec(rhs),
            BinaryRealOp::Mul => lhs.times_spec(rhs),
            BinaryRealOp::Pow => lhs.powf_spec(rhs),
            BinaryRealOp::Sub => lhs.minus_spec(rhs),
        }
    }

    /// Applies the operation to one pair of operands.
    pub fn apply<Real: FloatExt>(self, lhs: Real, rhs: Real) -> (out: Real)
        ensures
            out == self.apply_spec(lhs, rhs),
    {
        match self {
            BinaryRealOp::Add => lhs.plus(rhs),
            BinaryRealOp::Div => lhs.over(rhs),
            BinaryRealOp::Mul => lhs.times(rhs),
            BinaryRealOp::Pow => lhs.powf(rhs),
            BinaryRealOp::Sub => lhs.minus(rhs),
        }
    }
}

/// The unary operations of real arithmetic.
#[derive(Clone, Copy, Debug)]
pub enum UnaryRealOp {
    Neg,
}

impl UnaryRealOp {
    /// What the operation denotes on one operand.
    pub open spec fn apply_spec<Real: FloatExt>(self, only: Real) -> Real {
        match self {
            UnaryRealOp::Neg => only.negated_spec(),
        }
    }

    /// Applies the operation to one operand.
    pub fn apply<Real: FloatExt>(self, only: Real) -> (out: Real)
        ensures
            out == self.apply_spec(only),
    {
        match self {
            UnaryRealOp::Neg => only.negated(),
        }
    }
}

/// A relation between two rows of one element type, tested row by row.
pub trait Comparison<T>: Copy + Send + Sync {
    /// Whether the relation holds between `lhs` and `rhs`.
    spec fn holds(self, lhs: T, rhs: T) -> bool;

    /// Tests the relation between `lhs` and `rhs`.
    fn test(self, lhs: T, rhs: T) -> (out: bool)
        ensures
            out == self.holds(lhs, rhs),
    ;
}

/// The relations between two real values.
#[derive(Clone, Copy, Debug)]
pub enum RealComparison {
    Equal,
    Greater,
    GreaterEqual,
    Less,
    LessEqual,
    NotEqual,
}

impl<Real: FloatExt> Comparison<Real> for RealComparison {
    open spec fn holds(self, lhs: Real, rhs: Real) -> bool {
        match self {
            RealComparison::Equal => lhs.same_spec(rhs),
            RealComparison::Greater => lhs.greater_spec(rhs),
            RealComparison::GreaterEqual => lhs.greater_equal_spec(rhs),
            RealComparison::Less => lhs.less_spec(rhs),
            RealComparison::LessEqual => lhs.less_equal_spec(rhs),
            RealComparison::NotEqual => !lhs.same_spec(rhs),
        }
    }

    fn test(self, lhs: Real, rhs: Real) -> (out: bool) {
        match self {
            RealComparison::Equal => lhs.same(rhs),
            RealComparison::Greater => lhs.greater(rhs),
            RealComparison::GreaterEqual => lhs.greater_equal(rhs),
            RealComparison::Less => lhs.less(rhs),
            RealComparison::LessEqual => lhs.less_equal(rhs),
            RealComparison::NotEqual => !lhs.same(rhs),
        }
    }
}

/// The relations between two interned strings.
#[derive(Clone, Copy, Debug)]
pub enum StringComparison {
    Equal,
    NotEqual,
}

impl Comparison<StringId> for StringComparison {
    open spec fn holds(self, lhs: StringId, rhs: StringId) -> bool {
        match self {
            StringComparison::Equal => lhs == rhs,
            StringComparison::NotEqual => lhs != rhs,
        }
    }

    fn test(self, lhs: StringId, rhs: StringId) -> (out: bool) {
        match self {
            StringComparison::Equal => lhs == rhs,
            StringComparison::NotEqual => lhs != rhs,
        }
    }
}

} // verus!
