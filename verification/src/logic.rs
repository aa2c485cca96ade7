//! Boolean-valued evaluation: logic, comparisons of reals and comparisons of
//! interned strings.

use crate::bits::{bits_and_assign, bits_not, bits_or_assign, bits_resize, BoolRegister, MAX_ROWS};
use crate::evaluate::{
    columns, consistent, evaluate_operand, extend_with_value, operand_values, recycle_operand,
    validate_bindings, EvaluateError,
};
use crate::expression::{BoolExpression, RealExpression, StringExpression};
use crate::numeric::{FloatExt, RealComparison, StringComparison, StringId};
use crate::parallel::{compared_rows, parallel_comparison};
use crate::registers::{PoolState, Registers};
use vstd::prelude::*;

verus! {

/// Whether the interning function may give `id` for `text`.
pub open spec fn interns<F: FnMut(&str) -> StringId>(
    intern: F,
    text: Seq<char>,
    id: StringId,
) -> bool {
    exists|slice: &str| slice@ == text && call_ensures(intern, (slice,), id)
}

/// Whether `ids` holds, text by text, identifiers that the interning
/// function may give for `texts`.
pub open spec fn interned<F: FnMut(&str) -> StringId>(
    intern: F,
    texts: Seq<Seq<char>>,
    ids: Seq<StringId>,
) -> bool {
    &&& ids.len() == texts.len()
    &&& forall|k: int| 0 <= k < texts.len() ==> interns(intern, texts[k], #[trigger] ids[k])
}

/// Whether the interning function accepts every one of `texts`.
pub open spec fn internable<F: FnMut(&str) -> StringId>(intern: F, texts: Seq<Seq<char>>) -> bool {
    forall|slice: &str| texts.contains(slice@) ==> call_requires(intern, (slice,))
}

/// The binary operations of boolean logic.
#[derive(Clone, Copy, Debug)]
pub enum BinaryLogic {
    And,
    Or,
}

impl BinaryLogic {
    /// What the operation denotes on one pair of rows.
    pub open spec fn apply_spec(self, lhs: bool, rhs: bool) -> bool {
        match self {
            BinaryLogic::And => lhs && rhs,
            BinaryLogic::Or => lhs || rhs,
        }
    }
}

/// The rows that a binary operation of logic gives on two columns.
pub open spec fn logic_rows(op: BinaryLogic, lhs: Seq<bool>, rhs: Seq<bool>) -> Seq<bool> {
    Seq::new(lhs.len(), |row: int| op.apply_spec(lhs[row], rhs[row]))
}

/// The rows of a column, each inverted.
pub open spec fn inverted_rows(only: Seq<bool>) -> Seq<bool> {
    Seq::new(only.len(), |row: int| !only[row])
}

impl StringExpression {
    /// Whether a binding refers to one of `columns` columns.
    pub open spec fn bound_by(self, columns: nat) -> bool {
        match self {
            StringExpression::Literal(_) => true,
            StringExpression::Binding(binding) => binding < columns,
        }
    }

    /// The text of the literal, if the expression is one.
    pub open spec fn literals(self) -> Seq<Seq<char>> {
        match self {
            StringExpression::Literal(text) => seq![text@],
            StringExpression::Binding(_) => Seq::empty(),
        }
    }

    /// What the expression denotes on one row: the identifier interned for a
    /// literal, which is the same on every row, or the row of a column.
    pub open spec fn row_value(
        self,
        columns: Seq<Seq<StringId>>,
        ids: Seq<StringId>,
        row: int,
    ) -> StringId {
        match self {
            StringExpression::Literal(_) => ids[0],
            StringExpression::Binding(binding) => columns[binding as int][row],
        }
    }

    /// What the expression denotes on columns of `rows` rows.
    pub open spec fn value(
        self,
        columns: Seq<Seq<StringId>>,
        ids: Seq<StringId>,
        rows: nat,
    ) -> Seq<StringId> {
        Seq::new(rows, |row: int| self.row_value(columns, ids, row))
    }

    /// The pool after the expression was resolved as an operand: a literal
    /// is broadcast into a register of its own, a column is read in place.
    pub open spec fn operand_pool(self, pool: PoolState) -> PoolState {
        match self {
            StringExpression::Literal(_) => pool.take_string(),
            StringExpression::Binding(_) => pool,
        }
    }

    /// The pool after an operand's register, if it has one, was recycled.
    pub open spec fn recycled_pool(self, pool: PoolState) -> PoolState {
        match self {
            StringExpression::Literal(_) => pool.give_string(),
            StringExpression::Binding(_) => pool,
        }
    }
}

impl<Real: FloatExt> BoolExpression<Real> {
    /// The number of boolean nodes of the tree.
    pub open spec fn size(self) -> nat
        decreases self,
    {
        match self {
            BoolExpression::And(lhs, rhs) => 1 + lhs.size() + rhs.size(),
            BoolExpression::Or(lhs, rhs) => 1 + lhs.size() + rhs.size(),
            BoolExpression::Not(only) => 1 + only.size(),
            _ => 1,
        }
    }

    /// Whether every binding of the tree refers to one of the columns of
    /// its kind.
    pub open spec fn bound_by(self, real_columns: nat, string_columns: nat) -> bool
        decreases self,
    {
        match self {
            BoolExpression::And(lhs, rhs) | BoolExpression::Or(lhs, rhs) => lhs.bound_by(
                real_columns,
                string_columns,
            ) && rhs.bound_by(real_columns, string_columns),
            BoolExpression::Not(only) => only.bound_by(real_columns, string_columns),
            BoolExpression::Equal(lhs, rhs)
            | BoolExpression::Greater(lhs, rhs)
            | BoolExpression::GreaterEqual(lhs, rhs)
            | BoolExpression::Less(lhs, rhs)
            | BoolExpression::LessEqual(lhs, rhs)
            | BoolExpression::NotEqual(lhs, rhs) => lhs.bound_by(real_columns) && rhs.bound_by(
                real_columns,
            ),
            BoolExpression::StrEqual(lhs, rhs) | BoolExpression::StrNotEqual(lhs, rhs) => {
                lhs.bound_by(string_columns) && rhs.bound_by(string_columns)
            },
        }
    }

    /// The texts of the string literals of the tree, in the order in which
    /// evaluation interns them: left operand first.
    pub open spec fn literals(self) -> Seq<Seq<char>>
        decreases self,
    {
        match self {
            BoolExpression::And(lhs, rhs) | BoolExpression::Or(lhs, rhs) => lhs.literals()
                + rhs.literals(),
            BoolExpression::Not(only) => only.literals(),
            BoolExpression::StrEqual(lhs, rhs) | BoolExpression::StrNotEqual(lhs, rhs) => {
                lhs.literals() + rhs.literals()
            },
            _ => Seq::empty(),
        }
    }

    /// What the expression denotes on one row of the columns, where `ids`
    /// holds the identifiers interned for the tree's string literals.
    pub open spec fn row_value(
        self,
        reals: Seq<Seq<Real>>,
        strings: Seq<Seq<StringId>>,
        ids: Seq<StringId>,
        row: int,
    ) -> bool
        decreases self,
    {
        match self {
            BoolExpression::And(lhs, rhs) => {
                let split = lhs.literals().len() as int;
                lhs.row_value(reals, strings, ids.subrange(0, split), row) && rhs.row_value(
                    reals,
                    strings,
                    ids.subrange(split, ids.len() as int),
                    row,
                )
            },
            BoolExpression::Or(lhs, rhs) => {
                let split = lhs.literals().len() as int;
                lhs.row_value(reals, strings, ids.subrange(0, split), row) || rhs.row_value(
                    reals,
                    strings,
                    ids.subrange(split, ids.len() as int),
                    row,
                )
            },
            BoolExpression::Not(only) => !only.row_value(reals, strings, ids, row),
            BoolExpression::Equal(lhs, rhs) => lhs.row_value(reals, row).same_spec(
                rhs.row_value(reals, row),
            ),
            BoolExpression::Greater(lhs, rhs) => lhs.row_value(reals, row).greater_spec(
                rhs.row_value(reals, row),
            ),
            BoolExpression::GreaterEqual(lhs, rhs) => lhs.row_value(
                reals,
                row,
            ).greater_equal_spec(rhs.row_value(reals, row)),
            BoolExpression::Less(lhs, rhs) => lhs.row_value(reals, row).less_spec(
                rhs.row_value(reals, row),
            ),
            BoolExpression::LessEqual(lhs, rhs) => lhs.row_value(reals, row).less_equal_spec(
                rhs.row_value(reals, row),
            ),
            BoolExpression::NotEqual(lhs, rhs) => !lhs.row_value(reals, row).same_spec(
                rhs.row_value(reals, row),
            ),
            BoolExpression::StrEqual(lhs, rhs) => {
                let split = lhs.literals().len() as int;
                lhs.row_value(strings, ids.subrange(0, split), row) == rhs.row_value(
                    strings,
                    ids.subrange(split, ids.len() as int),
                    row,
                )
            },
            BoolExpression::StrNotEqual(lhs, rhs) => {
                let split = lhs.literals().len() as int;
                lhs.row_value(strings, ids.subrange(0, split), row) != rhs.row_value(
                    strings,
                    ids.subrange(split, ids.len() as int),
                    row,
                )
            },
        }
    }

    /// What the expression denotes on columns of `rows` rows: one result per
    /// row, each computed from that row of the columns alone.
    pub open spec fn value(
        self,
        reals: Seq<Seq<Real>>,
        strings: Seq<Seq<StringId>>,
        ids: Seq<StringId>,
        rows: nat,
    ) -> Seq<bool> {
        Seq::new(rows, |row: int| self.row_value(reals, strings, ids, row))
    }

    /// The pool after the expression's evaluation. Operands are resolved
    /// left to right, then the output register is checked out, and then the
    /// operands' registers are recycled; negation inverts its operand's
    /// register in place.
    pub open spec fn pool_after(self, pool: PoolState) -> PoolState
        decreases self,
    {
        match self {
            BoolExpression::And(lhs, rhs) | BoolExpression::Or(lhs, rhs) => rhs.pool_after(
                lhs.pool_after(pool),
            ).take_bool().give_bool().give_bool(),
            BoolExpression::Not(only) => only.pool_after(pool),
            BoolExpression::Equal(lhs, rhs)
            | BoolExpression::Greater(lhs, rhs)
            | BoolExpression::GreaterEqual(lhs, rhs)
            | BoolExpression::Less(lhs, rhs)
            | BoolExpression::LessEqual(lhs, rhs)
            | BoolExpression::NotEqual(lhs, rhs) => rhs.recycled_pool(
                lhs.recycled_pool(rhs.operand_pool(lhs.operand_pool(pool)).take_bool()),
            ),
            BoolExpression::StrEqual(lhs, rhs) | BoolExpression::StrNotEqual(lhs, rhs) => {
                rhs.recycled_pool(
                    lhs.recycled_pool(rhs.operand_pool(lhs.operand_pool(pool)).take_bool()),
                )
            },
        }
    }

    /// Evaluation never lowers the allocation count and keeps the row count.
    pub proof fn lemma_pool_after(self, pool: PoolState)
        ensures
            self.pool_after(pool).allocations >= pool.allocations,
            self.pool_after(pool).rows == pool.rows,
        decreases self,
    {
        match self {
            BoolExpression::And(lhs, rhs) | BoolExpression::Or(lhs, rhs) => {
                lhs.lemma_pool_after(pool);
                rhs.lemma_pool_after(lhs.pool_after(pool));
            },
            BoolExpression::Not(only) => {
                only.lemma_pool_after(pool);
            },
            BoolExpression::Equal(lhs, rhs)
            | BoolExpression::Greater(lhs, rhs)
            | BoolExpression::GreaterEqual(lhs, rhs)
            | BoolExpression::Less(lhs, rhs)
            | BoolExpression::LessEqual(lhs, rhs)
            | BoolExpression::NotEqual(lhs, rhs) => {
                lhs.lemma_pool_after(pool);
                rhs.lemma_pool_after(lhs.operand_pool(pool));
            },
            BoolExpression::StrEqual(_, _) | BoolExpression::StrNotEqual(_, _) => {},
        }
    }
}

/// Identifiers interned for two runs of texts are, one run after the other,
/// identifiers interned for the texts of both.
pub proof fn lemma_interned_concat<F: FnMut(&str) -> StringId>(
    intern: F,
    first_texts: Seq<Seq<char>>,
    second_texts: Seq<Seq<char>>,
    first_ids: Seq<StringId>,
    second_ids: Seq<StringId>,
)
    requires
        interned(intern, first_texts, first_ids),
        interned(intern, second_texts, second_ids),
    ensures
        interned(intern, first_texts + second_texts, first_ids + second_ids),
        (first_ids + second_ids).subrange(0, first_texts.len() as int) == first_ids,
        (first_ids + second_ids).subrange(
            first_texts.len() as int,
            (first_ids + second_ids).len() as int,
        ) == second_ids,
{
    let texts = first_texts + second_texts;
    let ids = first_ids + second_ids;
    assert forall|k: int| 0 <= k < texts.len() implies interns(
        intern,
        texts[k],
        #[trigger] ids[k],
    ) by {
        if k < first_texts.len() {
            assert(interns(intern, first_texts[k], first_ids[k]));
        } else {
            assert(interns(
                intern,
                second_texts[k - first_texts.len()],
                second_ids[k - first_texts.len()],
            ));
        }
    }
    assert(ids.subrange(0, first_texts.len() as int) =~= first_ids);
    assert(ids.subrange(first_texts.len() as int, ids.len() as int) =~= second_ids);
}

/// An interning function that accepts the texts of two runs accepts the
/// texts of each.
pub proof fn lemma_internable_split<F: FnMut(&str) -> StringId>(
    intern: F,
    first_texts: Seq<Seq<char>>,
    second_texts: Seq<Seq<char>>,
)
    requires
        internable(intern, first_texts + second_texts),
    ensures
        internable(intern, first_texts),
        internable(intern, second_texts),
{
    let texts = first_texts + second_texts;
    assert forall|slice: &str| first_texts.contains(slice@) implies call_requires(
        intern,
        (slice,),
    ) by {
        let k = choose|k: int| 0 <= k < first_texts.len() && first_texts[k] == slice@;
        assert(texts[k] == slice@);
    }
    assert forall|slice: &str| second_texts.contains(slice@) implies call_requires(
        intern,
        (slice,),
    ) by {
        let k = choose|k: int| 0 <= k < second_texts.len() && second_texts[k] == slice@;
        assert(texts[first_texts.len() + k] == slice@);
    }
}

/// Resolves an operand of a string comparison. A column is read in place; a
/// literal is interned, once, and its identifier broadcast over all rows of
/// a register of its own.
fn evaluate_string_operand<Real, F: FnMut(&str) -> StringId>(
    operand: &StringExpression,
    get_string_literal_id: &mut F,
    registers: &mut Registers<Real>,
) -> (out: (Option<Vec<StringId>>, Ghost<Seq<StringId>>))
    requires
        old(registers).wf(),
        internable(*old(get_string_literal_id), operand.literals()),
    ensures
        final(registers).wf(),
        final(registers)@ == operand.operand_pool(old(registers)@),
        *final(get_string_literal_id) == *old(get_string_literal_id),
        out.0 is None <==> operand is Binding,
        interned(*old(get_string_literal_id), operand.literals(), out.1@),
        out.0 matches Some(register) ==> register@ == Seq::new(
            old(registers)@.rows,
            |row: int| out.1@[0],
        ),
{
    match operand {
        StringExpression::Binding(_) => (None, Ghost(Seq::empty())),
        StringExpression::Literal(literal_value) => {
            let mut reg = registers.allocate_string();
            let text = literal_value.as_str();
            assert(operand.literals()[0] == text@);
            let literal_id = get_string_literal_id(text);
            extend_with_value(&mut reg, literal_id, registers.register_length());
            assert(interns(*old(get_string_literal_id), operand.literals()[0], literal_id));
            assert(reg@ =~= Seq::new(old(registers)@.rows, |row: int| literal_id));
            let ghost ids = seq![literal_id];
            (Some(reg), Ghost(ids))
        },
    }
}

/// The rows of a resolved operand of a string comparison.
fn string_operand_values<'a>(
    operand: &StringExpression,
    bindings: &'a [&'a [StringId]],
    register: &'a Option<Vec<StringId>>,
    Ghost(ids): Ghost<Seq<StringId>>,
    Ghost(rows): Ghost<nat>,
) -> (out: &'a [StringId])
    requires
        operand.bound_by(bindings@.len()),
        consistent(columns(bindings), rows),
        register is None <==> operand is Binding,
        register matches Some(values) ==> values@ == Seq::new(rows, |row: int| ids[0]),
    ensures
        out@ == operand.value(columns(bindings), ids, rows),
{
    match register {
        Some(values) => {
            assert(values@ =~= operand.value(columns(bindings), ids, rows));
            values.as_slice()
        },
        None => {
            match operand {
                StringExpression::Binding(binding) => {
                    assert(columns(bindings)[*binding as int] == bindings@[*binding as int]@);
                    assert(bindings@[*binding as int]@ =~= operand.value(
                        columns(bindings),
                        ids,
                        rows,
                    ));
                    bindings[*binding]
                },
                _ => unreached(),
            }
        },
    }
}

/// Compares two real operands, row by row: resolves the operands, left
/// before right, checks out the output register, packs the comparison into
/// it, and recycles the registers of the operands.
fn evaluate_real_comparison<Real: FloatExt>(
    op: RealComparison,
    lhs: &RealExpression<Real>,
    rhs: &RealExpression<Real>,
    bindings: &[&[Real]],
    registers: &mut Registers<Real>,
) -> (out: BoolRegister)
    requires
        lhs.bound_by(bindings@.len()),
        rhs.bound_by(bindings@.len()),
        consistent(columns(bindings), old(registers)@.rows),
        old(registers)@.rows <= MAX_ROWS,
        old(registers).wf(),
    ensures
        final(registers).wf(),
        final(registers)@ == rhs.recycled_pool(
            lhs.recycled_pool(rhs.operand_pool(lhs.operand_pool(old(registers)@)).take_bool()),
        ),
        out@ == compared_rows(
            op,
            lhs.value(columns(bindings), old(registers)@.rows),
            rhs.value(columns(bindings), old(registers)@.rows),
        ),
{
    let ghost rows = registers@.rows;
    proof {
        lhs.lemma_pool_after(registers@);
        rhs.lemma_pool_after(lhs.operand_pool(registers@));
    }
    // Before doing recursive evaluation, we check first if we already have
    // input values in our bindings. This avoids unnecessary copies.
    let lhs_reg = evaluate_operand(lhs, bindings, registers);
    let rhs_reg = evaluate_operand(rhs, bindings, registers);
    let lhs_values = operand_values(lhs, bindings, &lhs_reg, Ghost(rows));
    let rhs_values = operand_values(rhs, bindings, &rhs_reg, Ghost(rows));
    // Allocate this output register as lazily as possible.
    let mut output = registers.allocate_bool();
    parallel_comparison(op, lhs_values, rhs_values, &mut output);
    recycle_operand(lhs, lhs_reg, registers);
    recycle_operand(rhs, rhs_reg, registers);
    output
}

/// Compares two string operands, row by row, by their identifiers: resolves
/// the operands, left before right, checks out the output register, packs
/// the comparison into it, and recycles the registers of the literals.
/// Gives with the output the identifiers that interning gave.
fn evaluate_string_comparison<Real, F: FnMut(&str) -> StringId>(
    op: StringComparison,
    lhs: &StringExpression,
    rhs: &StringExpression,
    bindings: &[&[StringId]],
    get_string_literal_id: &mut F,
    registers: &mut Registers<Real>,
) -> (out: (BoolRegister, Ghost<Seq<StringId>>))
    requires
        lhs.bound_by(bindings@.len()),
        rhs.bound_by(bindings@.len()),
        consistent(columns(bindings), old(registers)@.rows),
        old(registers)@.rows <= MAX_ROWS,
        old(registers).wf(),
        internable(*old(get_string_literal_id), lhs.literals() + rhs.literals()),
    ensures
        final(registers).wf(),
        final(registers)@ == rhs.recycled_pool(
            lhs.recycled_pool(rhs.operand_pool(lhs.operand_pool(old(registers)@)).take_bool()),
        ),
        *final(get_string_literal_id) == *old(get_string_literal_id),
        interned(*old(get_string_literal_id), lhs.literals() + rhs.literals(), out.1@),
        out.0@ == compared_rows(
            op,
            lhs.value(
                columns(bindings),
                out.1@.subrange(0, lhs.literals().len() as int),
                old(registers)@.rows,
            ),
            rhs.value(
                columns(bindings),
                out.1@.subrange(lhs.literals().len() as int, out.1@.len() as int),
                old(registers)@.rows,
            ),
        ),
{
    let ghost rows = registers@.rows;
    proof {
        lemma_internable_split(*get_string_literal_id, lhs.literals(), rhs.literals());
    }
    let (lhs_reg, Ghost(lhs_ids)) = evaluate_string_operand(lhs, get_string_literal_id, registers);
    let (rhs_reg, Ghost(rhs_ids)) = evaluate_string_operand(rhs, get_string_literal_id, registers);
    proof {
        lemma_interned_concat(
            *get_string_literal_id,
            lhs.literals(),
            rhs.literals(),
            lhs_ids,
            rhs_ids,
        );
    }
    let lhs_values = string_operand_values(lhs, bindings, &lhs_reg, Ghost(lhs_ids), Ghost(rows));
    let rhs_values = string_operand_values(rhs, bindings, &rhs_reg, Ghost(rhs_ids), Ghost(rows));
    // Allocate this output register as lazily as possible.
    let mut output = registers.allocate_bool();
    parallel_comparison(op, lhs_values, rhs_values, &mut output);
    if let Some(used) = lhs_reg {
        registers.recycle_string(used);
    }
    if let Some(used) = rhs_reg {
        registers.recycle_string(used);
    }
    (output, Ghost(lhs_ids + rhs_ids))
}

impl BinaryLogic {
    /// Combines two columns, row by row, into an empty register: the
    /// register is filled with the operation's neutral value, and each
    /// column is merged into it block by block.
    fn combine(self, lhs: &BoolRegister, rhs: &BoolRegister, out: &mut BoolRegister)
        requires
            lhs@.len() == rhs@.len(),
            lhs@.len() <= MAX_ROWS,
            old(out)@.len() == 0,
        ensures
            final(out)@ == logic_rows(self, lhs@, rhs@),
    {
        match self {
            BinaryLogic::And => {
                bits_resize(out, lhs.len(), true);
                bits_and_assign(out, lhs);
                bits_and_assign(out, rhs);
            },
            BinaryLogic::Or => {
                bits_resize(out, lhs.len(), false);
                bits_or_assign(out, lhs);
                bits_or_assign(out, rhs);
            },
        }
        assert(out@ =~= logic_rows(self, lhs@, rhs@));
    }
}

/// Combines two boolean operands, row by row: evaluates both, left before
/// right, checks out the output register, combines the operands into it, and
/// recycles their registers. Gives with the output the identifiers that
/// interning gave.
fn evaluate_binary_logic<Real: FloatExt, F: FnMut(&str) -> StringId>(
    op: BinaryLogic,
    lhs: &BoolExpression<Real>,
    rhs: &BoolExpression<Real>,
    real_bindings: &[&[Real]],
    string_bindings: &[&[StringId]],
    get_string_literal_id: &mut F,
    registers: &mut Registers<Real>,
) -> (out: (BoolRegister, Ghost<Seq<StringId>>))
    requires
        lhs.bound_by(real_bindings@.len(), string_bindings@.len()),
        rhs.bound_by(real_bindings@.len(), string_bindings@.len()),
        consistent(columns(real_bindings), old(registers)@.rows),
        consistent(columns(string_bindings), old(registers)@.rows),
        old(registers)@.rows <= MAX_ROWS,
        old(registers).wf(),
        internable(*old(get_string_literal_id), lhs.literals() + rhs.literals()),
    ensures
        final(registers).wf(),
        final(registers)@ == rhs.pool_after(
            lhs.pool_after(old(registers)@),
        ).take_bool().give_bool().give_bool(),
        *final(get_string_literal_id) == *old(get_string_literal_id),
        interned(*old(get_string_literal_id), lhs.literals() + rhs.literals(), out.1@),
        out.0@ == logic_rows(
            op,
            lhs.value(
                columns(real_bindings),
                columns(string_bindings),
                out.1@.subrange(0, lhs.literals().len() as int),
                old(registers)@.rows,
            ),
            rhs.value(
                columns(real_bindings),
                columns(string_bindings),
                out.1@.subrange(lhs.literals().len() as int, out.1@.len() as int),
                old(registers)@.rows,
            ),
        ),
    decreases lhs.size() + rhs.size() + 1, 0nat,
{
    proof {
        lhs.lemma_pool_after(registers@);
        rhs.lemma_pool_after(lhs.pool_after(registers@));
        lemma_internable_split(*get_string_literal_id, lhs.literals(), rhs.literals());
    }
    let (lhs_values, Ghost(lhs_ids)) = lhs.evaluate_recursive(
        real_bindings,
        string_bindings,
        get_string_literal_id,
        registers,
    );
    let (rhs_values, Ghost(rhs_ids)) = rhs.evaluate_recursive(
        real_bindings,
        string_bindings,
        get_string_literal_id,
        registers,
    );
    proof {
        lemma_interned_concat(
            *get_string_literal_id,
            lhs.literals(),
            rhs.literals(),
            lhs_ids,
            rhs_ids,
        );
    }

    // Allocate this output register as lazily as possible.
    let mut output = registers.allocate_bool();

    op.combine(&lhs_values, &rhs_values, &mut output);

    registers.recycle_bool(lhs_values);
    registers.recycle_bool(rhs_values);
    (output, Ghost(lhs_ids + rhs_ids))
}

/// Inverts a boolean operand, row by row, in the register that the operand
/// was evaluated into. Gives with the output the identifiers that interning
/// gave.
fn evaluate_unary_logic<Real: FloatExt, F: FnMut(&str) -> StringId>(
    only: &BoolExpression<Real>,
    real_bindings: &[&[Real]],
    string_bindings: &[&[StringId]],
    get_string_literal_id: &mut F,
    registers: &mut Registers<Real>,
) -> (out: (BoolRegister, Ghost<Seq<StringId>>))
    requires
        only.bound_by(real_bindings@.len(), string_bindings@.len()),
        consistent(columns(real_bindings), old(registers)@.rows),
        consistent(columns(string_bindings), old(registers)@.rows),
        old(registers)@.rows <= MAX_ROWS,
        old(registers).wf(),
        internable(*old(get_string_literal_id), only.literals()),
    ensures
        final(registers).wf(),
        final(registers)@ == only.pool_after(old(registers)@),
        *final(get_string_literal_id) == *old(get_string_literal_id),
        interned(*old(get_string_literal_id), only.literals(), out.1@),
        out.0@ == inverted_rows(
            only.value(
                columns(real_bindings),
                columns(string_bindings),
                out.1@,
                old(registers)@.rows,
            ),
        ),
    decreases only.size() + 1, 0nat,
{
    let (only_values, Ghost(ids)) = only.evaluate_recursive(
        real_bindings,
        string_bindings,
        get_string_literal_id,
        registers,
    );

    let output = bits_not(only_values);
    assert(output@ =~= inverted_rows(only_values@));
    (output, Ghost(ids))
}

impl StringExpression {
    /// Tests whether a binding refers to one of `columns` columns.
    pub fn is_bound_by(&self, columns: usize) -> (out: bool)
        ensures
            out == self.bound_by(columns as nat),
    {
        match self {
            StringExpression::Literal(_) => true,
            StringExpression::Binding(binding) => *binding < columns,
        }
    }
}

impl<Real: FloatExt> BoolExpression<Real> {
    /// Tests whether every binding of the tree refers to one of the columns
    /// of its kind.
    pub fn is_bound_by(&self, real_columns: usize, string_columns: usize) -> (out: bool)
        ensures
            out == self.bound_by(real_columns as nat, string_columns as nat),
        decreases self,
    {
        match self {
            BoolExpression::And(lhs, rhs) | BoolExpression::Or(lhs, rhs) => lhs.is_bound_by(
                real_columns,
                string_columns,
            ) && rhs.is_bound_by(real_columns, string_columns),
            BoolExpression::Not(only) => only.is_bound_by(real_columns, string_columns),
            BoolExpression::Equal(lhs, rhs)
            | BoolExpression::Greater(lhs, rhs)
            | BoolExpression::GreaterEqual(lhs, rhs)
            | BoolExpression::Less(lhs, rhs)
            | BoolExpression::LessEqual(lhs, rhs)
            | BoolExpression::NotEqual(lhs, rhs) => lhs.is_bound_by(real_columns)
                && rhs.is_bound_by(real_columns),
            BoolExpression::StrEqual(lhs, rhs) | BoolExpression::StrNotEqual(lhs, rhs) => {
                lhs.is_bound_by(string_columns) && rhs.is_bound_by(string_columns)
            },
        }
    }

    /// Whether the columns are those that the expression and a pool ask for,
    /// or else the first reason why they are not.
    pub open spec fn columns_error(
        self,
        reals: Seq<Seq<Real>>,
        strings: Seq<Seq<StringId>>,
        rows: nat,
    ) -> Option<EvaluateError> {
        if !consistent(reals, rows) || !consistent(strings, rows) {
            Some(EvaluateError::InconsistentBindingLength)
        } else if !self.bound_by(reals.len(), strings.len()) {
            Some(EvaluateError::BindingOutOfBounds)
        } else if rows > MAX_ROWS {
            Some(EvaluateError::TooManyRows)
        } else {
            None
        }
    }

    /// Calculates the `bool`-valued results of the expression component-wise,
    /// after testing that the columns are those that the expression and the
    /// registers ask for. Where they are not, nothing is evaluated and no
    /// literal is interned.
    pub fn try_evaluate<F: FnMut(&str) -> StringId>(
        &self,
        real_bindings: &[&[Real]],
        string_bindings: &[&[StringId]],
        get_string_literal_id: F,
        registers: &mut Registers<Real>,
    ) -> (out: Result<BoolRegister, EvaluateError>)
        requires
            old(registers).wf(),
            internable(get_string_literal_id, self.literals()),
        ensures
            final(registers).wf(),
            match out {
                Ok(rows) => {
                    &&& self.columns_error(
                        columns(real_bindings),
                        columns(string_bindings),
                        old(registers)@.rows,
                    ) is None
                    &&& final(registers)@ == self.pool_after(old(registers)@)
                    &&& exists|ids: Seq<StringId>|
                        #[trigger] interned(get_string_literal_id, self.literals(), ids) && rows@
                            == self.value(
                            columns(real_bindings),
                            columns(string_bindings),
                            ids,
                            old(registers)@.rows,
                        )
                },
                Err(error) => {
                    &&& final(registers)@ == old(registers)@
                    &&& self.columns_error(
                        columns(real_bindings),
                        columns(string_bindings),
                        old(registers)@.rows,
                    ) == Some(error)
                },
            },
    {
        let rows = registers.register_length();
        if !validate_bindings(real_bindings, rows) || !validate_bindings(string_bindings, rows) {
            Err(EvaluateError::InconsistentBindingLength)
        } else if !self.is_bound_by(real_bindings.len(), string_bindings.len()) {
            Err(EvaluateError::BindingOutOfBounds)
        } else if rows > MAX_ROWS {
            Err(EvaluateError::TooManyRows)
        } else {
            Ok(self.evaluate(real_bindings, string_bindings, get_string_literal_id, registers))
        }
    }

    /// Calculates the `bool`-valued results of the expression component-wise.
    ///
    /// Each string literal of the tree is interned once, in the order of
    /// `literals`. Row `i` of the output is what the expression denotes on
    /// row `i` of the columns with the identifiers that interning gave,
    /// whatever the pool holds.
    pub fn evaluate<F: FnMut(&str) -> StringId>(
        &self,
        real_bindings: &[&[Real]],
        string_bindings: &[&[StringId]],
        get_string_literal_id: F,
        registers: &mut Registers<Real>,
    ) -> (out: BoolRegister)
        requires
            self.bound_by(real_bindings@.len(), string_bindings@.len()),
            consistent(columns(real_bindings), old(registers)@.rows),
            consistent(columns(string_bindings), old(registers)@.rows),
            old(registers)@.rows <= MAX_ROWS,
            old(registers).wf(),
            internable(get_string_literal_id, self.literals()),
        ensures
            final(registers).wf(),
            final(registers)@ == self.pool_after(old(registers)@),
            exists|ids: Seq<StringId>|
                #[trigger] interned(get_string_literal_id, self.literals(), ids) && out@
                    == self.value(
                    columns(real_bindings),
                    columns(string_bindings),
                    ids,
                    old(registers)@.rows,
                ),
    {
        let mut get_string_literal_id = get_string_literal_id;
        let (output, Ghost(ids)) = self.evaluate_recursive(
            real_bindings,
            string_bindings,
            &mut get_string_literal_id,
            registers,
        );
        output
    }

    /// Evaluates the tree into a register of its own, node by node, and
    /// gives with it the identifiers that interning gave for the tree's
    /// literals.
    pub(crate) fn evaluate_recursive<F: FnMut(&str) -> StringId>(
        &self,
        real_bindings: &[&[Real]],
        string_bindings: &[&[StringId]],
        get_string_literal_id: &mut F,
        registers: &mut Registers<Real>,
    ) -> (out: (BoolRegister, Ghost<Seq<StringId>>))
        requires
            self.bound_by(real_bindings@.len(), string_bindings@.len()),
            consistent(columns(real_bindings), old(registers)@.rows),
            consistent(columns(string_bindings), old(registers)@.rows),
            old(registers)@.rows <= MAX_ROWS,
            old(registers).wf(),
            internable(*old(get_string_literal_id), self.literals()),
        ensures
            final(registers).wf(),
            final(registers)@ == self.pool_after(old(registers)@),
            *final(get_string_literal_id) == *old(get_string_literal_id),
            interned(*old(get_string_literal_id), self.literals(), out.1@),
            out.0@ == self.value(
                columns(real_bindings),
                columns(string_bindings),
                out.1@,
                old(registers)@.rows,
            ),
        decreases self.size(), 1nat,
    {
        let ghost rows = registers@.rows;
        let ghost reals = columns(real_bindings);
        let ghost strings = columns(string_bindings);
        let (output, Ghost(ids)) = match self {
            BoolExpression::And(lhs, rhs) => evaluate_binary_logic(
                BinaryLogic::And,
                lhs,
                rhs,
                real_bindings,
                string_bindings,
                get_string_literal_id,
                registers,
            ),
            BoolExpression::Equal(lhs, rhs) => (
                evaluate_real_comparison(RealComparison::Equal, lhs, rhs, real_bindings, registers),
                Ghost(Seq::empty()),
            ),
            BoolExpression::Greater(lhs, rhs) => (
                evaluate_real_comparison(
                    RealComparison::Greater,
                    lhs,
                    rhs,
                    real_bindings,
                    registers,
                ),
                Ghost(Seq::empty()),
            ),
            BoolExpression::GreaterEqual(lhs, rhs) => (
                evaluate_real_comparison(
                    RealComparison::GreaterEqual,
                    lhs,
                    rhs,
                    real_bindings,
                    registers,
                ),
                Ghost(Seq::empty()),
            ),
            BoolExpression::Less(lhs, rhs) => (
                evaluate_real_comparison(RealComparison::Less, lhs, rhs, real_bindings, registers),
                Ghost(Seq::empty()),
            ),
            BoolExpression::LessEqual(lhs, rhs) => (
                evaluate_real_comparison(
                    RealComparison::LessEqual,
                    lhs,
                    rhs,
                    real_bindings,
                    registers,
                ),
                Ghost(Seq::empty()),
            ),
            BoolExpression::Not(only) => evaluate_unary_logic(
                only,
                real_bindings,
                string_bindings,
                get_string_literal_id,
                registers,
            ),
            BoolExpression::NotEqual(lhs, rhs) => (
                evaluate_real_comparison(
                    RealComparison::NotEqual,
                    lhs,
                    rhs,
                    real_bindings,
                    registers,
                ),
                Ghost(Seq::empty()),
            ),
            BoolExpression::Or(lhs, rhs) => evaluate_binary_logic(
                BinaryLogic::Or,
                lhs,
                rhs,
                real_bindings,
                string_bindings,
                get_string_literal_id,
                registers,
            ),
            BoolExpression::StrEqual(lhs, rhs) => evaluate_string_comparison(
                StringComparison::Equal,
                lhs,
                rhs,
                string_bindings,
                get_string_literal_id,
                registers,
            ),
            BoolExpression::StrNotEqual(lhs, rhs) => evaluate_string_comparison(
                StringComparison::NotEqual,
                lhs,
                rhs,
                string_bindings,
                get_string_literal_id,
                registers,
            ),
        };
        assert(output@ =~= self.value(reals, strings, ids, rows));
        (output, Ghost(ids))
    }
}

} // verus!
