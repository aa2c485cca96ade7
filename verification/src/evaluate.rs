//! Component-wise evaluation of expression trees over columns of rows.

use crate::expression::RealExpression;
use crate::numeric::{BinaryRealOp, FloatExt, UnaryRealOp};
use crate::parallel::{binary_rows, par_extend_binary, par_extend_unary, unary_rows};
use crate::registers::{PoolState, Registers};
use vstd::prelude::*;

verus! {

/// The columns bound to the variables of an expression, each as the sequence
/// of its rows.
pub open spec fn columns<T>(bindings: &[&[T]]) -> Seq<Seq<T>> {
    Seq::new(bindings@.len(), |binding: int| bindings@[binding]@)
}

/// Whether every column has exactly `rows` rows.
pub open spec fn consistent<T>(columns: Seq<Seq<T>>, rows: nat) -> bool {
    forall|binding: int|
        0 <= binding < columns.len() ==> (#[trigger] columns[binding]).len() == rows
}

/// Why an expression cannot be evaluated over the columns that it was given.
#[derive(Clone, Copy, Debug, PartialEq, Eq, Structural)]
pub enum EvaluateError {
    /// A column has another number of rows than the registers serve.
    InconsistentBindingLength,
    /// The expression binds a column that is not among those given.
    BindingOutOfBounds,
    /// The registers serve more rows than a packed boolean register holds.
    TooManyRows,
}

/// Tests that every input column has exactly `expected_length` rows.
pub fn validate_bindings<T>(input_bindings: &[&[T]], expected_length: usize) -> (out: bool)
    ensures
        out == consistent(columns(input_bindings), expected_length as nat),
{
    let mut binding: usize = 0;
    while binding < input_bindings.len()
        invariant
            binding <= input_bindings@.len(),
            forall|b: int|
                0 <= b < binding ==> (#[trigger] columns(input_bindings)[b]).len()
                    == expected_length,
        decreases input_bindings@.len() - binding,
    {
        if input_bindings[binding].len() != expected_length {
            assert(columns(input_bindings)[binding as int].len() != expected_length);
            return false;
        }
        binding += 1;
    }
    true
}

impl<Real: FloatExt> RealExpression<Real> {
    /// The number of nodes of the tree.
    pub open spec fn size(self) -> nat
        decreases self,
    {
        match self {
            RealExpression::Add(lhs, rhs) => 1 + lhs.size() + rhs.size(),
            RealExpression::Div(lhs, rhs) => 1 + lhs.size() + rhs.size(),
            RealExpression::Mul(lhs, rhs) => 1 + lhs.size() + rhs.size(),
            RealExpression::Pow(lhs, rhs) => 1 + lhs.size() + rhs.size(),
            RealExpression::Sub(lhs, rhs) => 1 + lhs.size() + rhs.size(),
            RealExpression::Neg(only) => 1 + only.size(),
            RealExpression::Literal(_) => 1,
            RealExpression::Binding(_) => 1,
        }
    }

    /// Whether every binding of the tree refers to one of `columns` columns.
    pub open spec fn bound_by(self, columns: nat) -> bool
        decreases self,
    {
        match self {
            RealExpression::Add(lhs, rhs) => lhs.bound_by(columns) && rhs.bound_by(columns),
            RealExpression::Div(lhs, rhs) => lhs.bound_by(columns) && rhs.bound_by(columns),
            RealExpression::Mul(lhs, rhs) => lhs.bound_by(columns) && rhs.bound_by(columns),
            RealExpression::Pow(lhs, rhs) => lhs.bound_by(columns) && rhs.bound_by(columns),
            RealExpression::Sub(lhs, rhs) => lhs.bound_by(columns) && rhs.bound_by(columns),
            RealExpression::Neg(only) => only.bound_by(columns),
            RealExpression::Literal(_) => true,
            RealExpression::Binding(binding) => binding < columns,
        }
    }

    /// What the expression denotes on one row of the columns.
    pub open spec fn row_value(self, columns: Seq<Seq<Real>>, row: int) -> Real
        decreases self,
    {
        match self {
            RealExpression::Add(lhs, rhs) => lhs.row_value(columns, row).plus_spec(
                rhs.row_value(columns, row),
            ),
            RealExpression::Div(lhs, rhs) => lhs.row_value(columns, row).over_spec(
                rhs.row_value(columns, row),
            ),
            RealExpression::Mul(lhs, rhs) => lhs.row_value(columns, row).times_spec(
                rhs.row_value(columns, row),
            ),
            RealExpression::Pow(lhs, rhs) => lhs.row_value(columns, row).powf_spec(
                rhs.row_value(columns, row),
            ),
            RealExpression::Sub(lhs, rhs) => lhs.row_value(columns, row).minus_spec(
                rhs.row_value(columns, row),
            ),
            RealExpression::Neg(only) => only.row_value(columns, row).negated_spec(),
            RealExpression::Literal(value) => value,
            RealExpression::Binding(binding) => columns[binding as int][row],
        }
    }

    /// What the expression denotes on columns of `rows` rows: one result per
    /// row, each computed from that row of the columns alone.
    pub open spec fn value(self, columns: Seq<Seq<Real>>, rows: nat) -> Seq<Real> {
        Seq::new(rows, |row: int| self.row_value(columns, row))
    }

    /// The pool after the expression was resolved as an operand: unchanged
    /// where the operand is directly a binding, whose column is read in
    /// place, and else the pool after the operand's evaluation.
    pub open spec fn operand_pool(self, pool: PoolState) -> PoolState
        decreases self, 1nat,
    {
        if self is Binding {
            pool
        } else {
            self.pool_after(pool)
        }
    }

    /// The pool after an operand's register, if it has one, was recycled.
    pub open spec fn recycled_pool(self, pool: PoolState) -> PoolState {
        if self is Binding {
            pool
        } else {
            pool.give_real()
        }
    }

    /// The pool after the expression's evaluation. Operands are resolved
    /// left to right, then the output register is checked out, and then the
    /// operands' registers are recycled.
    pub open spec fn pool_after(self, pool: PoolState) -> PoolState
        decreases self, 0nat,
    {
        match self {
            RealExpression::Add(lhs, rhs) => rhs.recycled_pool(
                lhs.recycled_pool(rhs.operand_pool(lhs.operand_pool(pool)).take_real()),
            ),
            RealExpression::Div(lhs, rhs) => rhs.recycled_pool(
                lhs.recycled_pool(rhs.operand_pool(lhs.operand_pool(pool)).take_real()),
            ),
            RealExpression::Mul(lhs, rhs) => rhs.recycled_pool(
                lhs.recycled_pool(rhs.operand_pool(lhs.operand_pool(pool)).take_real()),
            ),
            RealExpression::Pow(lhs, rhs) => rhs.recycled_pool(
                lhs.recycled_pool(rhs.operand_pool(lhs.operand_pool(pool)).take_real()),
            ),
            RealExpression::Sub(lhs, rhs) => rhs.recycled_pool(
                lhs.recycled_pool(rhs.operand_pool(lhs.operand_pool(pool)).take_real()),
            ),
            RealExpression::Neg(only) => only.recycled_pool(
                only.operand_pool(pool).take_real(),
            ),
            RealExpression::Literal(_) => pool.take_real(),
            RealExpression::Binding(_) => pool.take_real(),
        }
    }

    /// Evaluation never lowers the allocation count and keeps the row count.
    pub proof fn lemma_pool_after(self, pool: PoolState)
        ensures
            self.pool_after(pool).allocations >= pool.allocations,
            self.pool_after(pool).rows == pool.rows,
            self.operand_pool(pool).allocations >= pool.allocations,
            self.operand_pool(pool).rows == pool.rows,
        decreases self,
    {
        match self {
            RealExpression::Add(lhs, rhs)
            | RealExpression::Div(lhs, rhs)
            | RealExpression::Mul(lhs, rhs)
            | RealExpression::Pow(lhs, rhs)
            | RealExpression::Sub(lhs, rhs) => {
                lhs.lemma_pool_after(pool);
                rhs.lemma_pool_after(lhs.operand_pool(pool));
            },
            RealExpression::Neg(only) => {
                only.lemma_pool_after(pool);
            },
            RealExpression::Literal(_) => {},
            RealExpression::Binding(_) => {},
        }
    }
}

/// Appends the rows of a column to a register.
fn extend_from_rows<T: Copy>(output: &mut Vec<T>, values: &[T])
    ensures
        final(output)@ == old(output)@ + values@,
{
    let mut row: usize = 0;
    while row < values.len()
        invariant
            row <= values@.len(),
            output@ == old(output)@ + values@.subrange(0, row as int),
        decreases values@.len() - row,
    {
        output.push(values[row]);
        row += 1;
    }
    assert(values@.subrange(0, row as int) == values@);
}

/// Appends `rows` rows of one value to a register.
pub(crate) fn extend_with_value<T: Copy>(output: &mut Vec<T>, value: T, rows: usize)
    ensures
        final(output)@ == old(output)@ + Seq::new(rows as nat, |row: int| value),
{
    let mut row: usize = 0;
    while row < rows
        invariant
            row <= rows,
            output@ == old(output)@ + Seq::new(row as nat, |row: int| value),
        decreases rows - row,
    {
        output.push(value);
        row += 1;
    }
}

/// Resolves an operand of a real operation. An operand that is directly a
/// binding is not evaluated, since its column is read in place; any other is
/// evaluated into a register of its own.
pub(crate) fn evaluate_operand<Real: FloatExt>(
    operand: &RealExpression<Real>,
    bindings: &[&[Real]],
    registers: &mut Registers<Real>,
) -> (out: Option<Vec<Real>>)
    requires
        operand.bound_by(bindings@.len()),
        consistent(columns(bindings), old(registers)@.rows),
        old(registers).wf(),
    ensures
        final(registers).wf(),
        final(registers)@ == operand.operand_pool(old(registers)@),
        out is None <==> operand is Binding,
        out matches Some(register) ==> register@ == operand.value(
            columns(bindings),
            old(registers)@.rows,
        ),
    decreases operand.size(), 2nat,
{
    match operand {
        RealExpression::Binding(_) => None,
        _ => Some(operand.evaluate_recursive(bindings, registers)),
    }
}

/// The rows of a resolved operand: the register it was evaluated into, or
/// the column that it binds.
pub(crate) fn operand_values<'a, Real: FloatExt>(
    operand: &RealExpression<Real>,
    bindings: &'a [&'a [Real]],
    register: &'a Option<Vec<Real>>,
    Ghost(rows): Ghost<nat>,
) -> (out: &'a [Real])
    requires
        operand.bound_by(bindings@.len()),
        consistent(columns(bindings), rows),
        register is None <==> operand is Binding,
        register matches Some(values) ==> values@ == operand.value(columns(bindings), rows),
    ensures
        out@ == operand.value(columns(bindings), rows),
{
    match register {
        Some(values) => values.as_slice(),
        None => {
            match operand {
                RealExpression::Binding(binding) => {
                    assert(columns(bindings)[*binding as int] == bindings@[*binding as int]@);
                    assert(bindings@[*binding as int]@ =~= operand.value(columns(bindings), rows));
                    bindings[*binding]
                },
                _ => unreached(),
            }
        },
    }
}

/// Hands the register of a resolved operand, if it has one, back to the pool.
pub(crate) fn recycle_operand<Real: FloatExt>(
    operand: &RealExpression<Real>,
    register: Option<Vec<Real>>,
    registers: &mut Registers<Real>,
)
    requires
        old(registers).wf(),
        register is None <==> operand is Binding,
    ensures
        final(registers).wf(),
        final(registers)@ == operand.recycled_pool(old(registers)@),
{
    if let Some(used) = register {
        registers.recycle_real(used);
    }
}

/// Applies a binary operation to two operands, row by row: resolves the
/// operands, left before right, checks out the output register, fills it,
/// and recycles the registers of the operands.
fn evaluate_binary_real_op<Real: FloatExt>(
    op: BinaryRealOp,
    lhs: &RealExpression<Real>,
    rhs: &RealExpression<Real>,
    bindings: &[&[Real]],
    registers: &mut Registers<Real>,
) -> (out: Vec<Real>)
    requires
        lhs.bound_by(bindings@.len()),
        rhs.bound_by(bindings@.len()),
        consistent(columns(bindings), old(registers)@.rows),
        old(registers).wf(),
    ensures
        final(registers).wf(),
        final(registers)@ == rhs.recycled_pool(
            lhs.recycled_pool(rhs.operand_pool(lhs.operand_pool(old(registers)@)).take_real()),
        ),
        out@ == binary_rows(
            op,
            lhs.value(columns(bindings), old(registers)@.rows),
            rhs.value(columns(bindings), old(registers)@.rows),
        ),
    decreases lhs.size() + rhs.size() + 1, 0nat,
{
    let ghost rows = registers@.rows;
    proof {
        lhs.lemma_pool_after(registers@);
        rhs.lemma_pool_after(lhs.operand_pool(registers@));
    }
    // Before doing recursive evaluation, we check first if we already have
    // input values in our bindings. This avoids unnecessary copies.
    let lhs_reg = evaluate_operand(lhs, bindings, registers);
    let rhs_reg = evaluate_operand(rhs, bindings, registers);
    let lhs_values = operand_values(lhs, bindings, &lhs_reg, Ghost(rows));
    let rhs_values = operand_values(rhs, bindings, &rhs_reg, Ghost(rows));
    // Allocate this output register as lazily as possible.
    let mut output = registers.allocate_real();
    par_extend_binary(&mut output, op, lhs_values, rhs_values);
    recycle_operand(lhs, lhs_reg, registers);
    recycle_operand(rhs, rhs_reg, registers);
    output
}

/// Applies a unary operation to its operand, row by row: resolves the
/// operand, checks out the output register, fills it, and recycles the
/// register of the operand.
fn evaluate_unary_real_op<Real: FloatExt>(
    op: UnaryRealOp,
    only: &RealExpression<Real>,
    bindings: &[&[Real]],
    registers: &mut Registers<Real>,
) -> (out: Vec<Real>)
    requires
        only.bound_by(bindings@.len()),
        consistent(columns(bindings), old(registers)@.rows),
        old(registers).wf(),
    ensures
        final(registers).wf(),
        final(registers)@ == only.recycled_pool(only.operand_pool(old(registers)@).take_real()),
        out@ == unary_rows(op, only.value(columns(bindings), old(registers)@.rows)),
    decreases only.size() + 1, 0nat,
{
    let ghost rows = registers@.rows;
    proof {
        only.lemma_pool_after(registers@);
    }
    // Before doing recursive evaluation, we check first if we already have
    // input values in our bindings. This avoids unnecessary copies.
    let only_reg = evaluate_operand(only, bindings, registers);
    let only_values = operand_values(only, bindings, &only_reg, Ghost(rows));
    // Allocate this output register as lazily as possible.
    let mut output = registers.allocate_real();
    par_extend_unary(&mut output, op, only_values);
    recycle_operand(only, only_reg, registers);
    output
}

impl<Real: FloatExt> RealExpression<Real> {
    /// Tests whether every binding of the tree refers to one of `columns`
    /// columns.
    pub fn is_bound_by(&self, columns: usize) -> (out: bool)
        ensures
            out == self.bound_by(columns as nat),
        decreases self,
    {
        match self {
            RealExpression::Add(lhs, rhs)
            | RealExpression::Div(lhs, rhs)
            | RealExpression::Mul(lhs, rhs)
            | RealExpression::Pow(lhs, rhs)
            | RealExpression::Sub(lhs, rhs) => lhs.is_bound_by(columns) && rhs.is_bound_by(
                columns,
            ),
            RealExpression::Neg(only) => only.is_bound_by(columns),
            RealExpression::Literal(_) => true,
            RealExpression::Binding(binding) => *binding < columns,
        }
    }

    /// Calculates the real-valued results of an expression without
    /// variables, component-wise.
    pub fn evaluate_without_vars(&self, registers: &mut Registers<Real>) -> (out: Vec<Real>)
        requires
            self.bound_by(0),
            old(registers).wf(),
        ensures
            final(registers).wf(),
            final(registers)@ == self.pool_after(old(registers)@),
            out@ == self.value(Seq::empty(), old(registers)@.rows),
    {
        let no_columns: Vec<&[Real]> = Vec::new();
        let bindings = no_columns.as_slice();
        assert(columns(bindings) =~= Seq::<Seq<Real>>::empty());
        self.evaluate(bindings, registers)
    }

    /// Whether the columns are those that the expression and a pool ask for,
    /// or else the first reason why they are not.
    pub open spec fn columns_error(self, columns: Seq<Seq<Real>>, rows: nat) -> Option<
        EvaluateError,
    > {
        if !consistent(columns, rows) {
            Some(EvaluateError::InconsistentBindingLength)
        } else if !self.bound_by(columns.len()) {
            Some(EvaluateError::BindingOutOfBounds)
        } else {
            None
        }
    }

    /// Calculates the real-valued results of the expression component-wise,
    /// after testing that the columns are those that the expression and the
    /// registers ask for. Where they are not, nothing is evaluated.
    pub fn try_evaluate(&self, bindings: &[&[Real]], registers: &mut Registers<Real>) -> (out:
        Result<Vec<Real>, EvaluateError>)
        requires
            old(registers).wf(),
        ensures
            final(registers).wf(),
            match out {
                Ok(rows) => {
                    &&& self.columns_error(columns(bindings), old(registers)@.rows) is None
                    &&& final(registers)@ == self.pool_after(old(registers)@)
                    &&& rows@ == self.value(columns(bindings), old(registers)@.rows)
                },
                Err(error) => {
                    &&& final(registers)@ == old(registers)@
                    &&& self.columns_error(columns(bindings), old(registers)@.rows) == Some(
                        error,
                    )
                },
            },
    {
        if !validate_bindings(bindings, registers.register_length()) {
            Err(EvaluateError::InconsistentBindingLength)
        } else if !self.is_bound_by(bindings.len()) {
            Err(EvaluateError::BindingOutOfBounds)
        } else {
            Ok(self.evaluate(bindings, registers))
        }
    }

    /// Calculates the real-valued results of the expression component-wise.
    ///
    /// Row `i` of the output is what the expression denotes on row `i` of
    /// the columns, whatever the pool holds; the pool only decides which
    /// registers are reused and how many are allocated.
    pub fn evaluate(&self, bindings: &[&[Real]], registers: &mut Registers<Real>) -> (out: Vec<
        Real,
    >)
        requires
            self.bound_by(bindings@.len()),
            consistent(columns(bindings), old(registers)@.rows),
            old(registers).wf(),
        ensures
            final(registers).wf(),
            final(registers)@ == self.pool_after(old(registers)@),
            out@ == self.value(columns(bindings), old(registers)@.rows),
    {
        self.evaluate_recursive(bindings, registers)
    }

    /// Evaluates the tree into a register of its own, node by node.
    pub(crate) fn evaluate_recursive(
        &self,
        bindings: &[&[Real]],
        registers: &mut Registers<Real>,
    ) -> (out: Vec<Real>)
        requires
            self.bound_by(bindings@.len()),
            consistent(columns(bindings), old(registers)@.rows),
            old(registers).wf(),
        ensures
            final(registers).wf(),
            final(registers)@ == self.pool_after(old(registers)@),
            out@ == self.value(columns(bindings), old(registers)@.rows),
        decreases self.size(), 1nat,
    {
        let ghost rows = registers@.rows;
        let ghost inputs = columns(bindings);
        let output = match self {
            RealExpression::Add(lhs, rhs) => evaluate_binary_real_op(
                BinaryRealOp::Add,
                lhs,
                rhs,
                bindings,
                registers,
            ),
            // This branch should only be taken if the entire expression is
            // literally the identity map from one of the bindings.
            RealExpression::Binding(binding) => {
                let mut output = registers.allocate_real();
                extend_from_rows(&mut output, bindings[*binding]);
                assert(inputs[*binding as int] == bindings@[*binding as int]@);
                output
            },
            RealExpression::Div(lhs, rhs) => evaluate_binary_real_op(
                BinaryRealOp::Div,
                lhs,
                rhs,
                bindings,
                registers,
            ),
            RealExpression::Literal(value) => {
                let mut output = registers.allocate_real();
                extend_with_value(&mut output, *value, registers.register_length());
                output
            },
            RealExpression::Mul(lhs, rhs) => evaluate_binary_real_op(
                BinaryRealOp::Mul,
                lhs,
                rhs,
                bindings,
                registers,
            ),
            RealExpression::Neg(only) => evaluate_unary_real_op(
                UnaryRealOp::Neg,
                only,
                bindings,
                registers,
            ),
            RealExpression::Pow(lhs, rhs) => evaluate_binary_real_op(
                BinaryRealOp::Pow,
                lhs,
                rhs,
                bindings,
                registers,
            ),
            RealExpression::Sub(lhs, rhs) => evaluate_binary_real_op(
                BinaryRealOp::Sub,
                lhs,
                rhs,
                bindings,
                registers,
            ),
        };
        assert(output@ =~= self.value(inputs, rows));
        output
    }
}

} // verus!
