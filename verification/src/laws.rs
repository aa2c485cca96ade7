//! What holds of evaluation on every tree and on all columns.

use crate::expression::{BoolExpression, RealExpression};
use crate::logic::{interned, interns};
use crate::numeric::{FloatExt, StringId};
use crate::registers::PoolState;
use vstd::prelude::*;

verus! {

/// Whether an interning function gives every text one identifier only.
pub open spec fn interns_one_id<F: FnMut(&str) -> StringId>(intern: F) -> bool {
    forall|text: Seq<char>, first: StringId, second: StringId|
        #![trigger interns(intern, text, first), interns(intern, text, second)]
        interns(intern, text, first) && interns(intern, text, second) ==> first == second
}

/// Real-valued evaluation is deterministic: two evaluations of one tree over
/// the same columns, from pools in the same state, give the same rows and
/// leave their pools in the same state; and the rows are the same whatever
/// state the pools were in.
pub proof fn lemma_real_evaluation_is_deterministic<Real: FloatExt>(
    tree: RealExpression<Real>,
    columns: Seq<Seq<Real>>,
    first_pool: PoolState,
    second_pool: PoolState,
)
    requires
        first_pool.rows == second_pool.rows,
    ensures
        tree.value(columns, first_pool.rows) == tree.value(columns, second_pool.rows),
        first_pool == second_pool ==> tree.pool_after(first_pool) == tree.pool_after(second_pool),
{
}

/// Boolean-valued evaluation is deterministic wherever interning is: with
/// an interning function that gives every text one identifier only, any two
/// outputs that evaluation of one tree over the same columns can give are
/// the same rows.
pub proof fn lemma_bool_evaluation_is_deterministic<Real: FloatExt, F: FnMut(&str) -> StringId>(
    tree: BoolExpression<Real>,
    intern: F,
    reals: Seq<Seq<Real>>,
    strings: Seq<Seq<StringId>>,
    rows: nat,
    first: Seq<bool>,
    second: Seq<bool>,
)
    requires
        interns_one_id(intern),
        exists|ids: Seq<StringId>|
            #[trigger] interned(intern, tree.literals(), ids) && first == tree.value(
                reals,
                strings,
                ids,
                rows,
            ),
        exists|ids: Seq<StringId>|
            #[trigger] interned(intern, tree.literals(), ids) && second == tree.value(
                reals,
                strings,
                ids,
                rows,
            ),
    ensures
        first == second,
{
    let first_ids = choose|ids: Seq<StringId>|
        #[trigger] interned(intern, tree.literals(), ids) && first == tree.value(
            reals,
            strings,
            ids,
            rows,
        );
    let second_ids = choose|ids: Seq<StringId>|
        #[trigger] interned(intern, tree.literals(), ids) && second == tree.value(
            reals,
            strings,
            ids,
            rows,
        );
    assert forall|k: int| 0 <= k < first_ids.len() implies first_ids[k] == second_ids[k] by {
        assert(interns(intern, tree.literals()[k], first_ids[k]));
        assert(interns(intern, tree.literals()[k], second_ids[k]));
    }
    assert(first_ids =~= second_ids);
}

/// Negation applied twice denotes, on every row on which the numeric type's
/// own negation undoes itself, what the operand denotes.
pub proof fn lemma_double_negation<Real: FloatExt>(
    tree: RealExpression<Real>,
    columns: Seq<Seq<Real>>,
    row: int,
)
    requires
        tree.row_value(columns, row).negated_spec().negated_spec() == tree.row_value(
            columns,
            row,
        ),
    ensures
        RealExpression::Neg(Box::new(RealExpression::Neg(Box::new(tree)))).row_value(columns, row)
            == tree.row_value(columns, row),
{
    let inner = RealExpression::Neg(Box::new(tree));
    let outer = RealExpression::Neg(Box::new(inner));
    assert(inner.row_value(columns, row) == tree.row_value(columns, row).negated_spec());
    assert(outer.row_value(columns, row) == inner.row_value(columns, row).negated_spec());
}

/// Logical negation applied twice denotes, on all rows, what the operand
/// denotes, and interns the same literals.
pub proof fn lemma_double_inversion<Real: FloatExt>(
    tree: BoolExpression<Real>,
    reals: Seq<Seq<Real>>,
    strings: Seq<Seq<StringId>>,
    ids: Seq<StringId>,
    rows: nat,
)
    ensures
        BoolExpression::Not(Box::new(BoolExpression::Not(Box::new(tree)))).value(
            reals,
            strings,
            ids,
            rows,
        ) == tree.value(reals, strings, ids, rows),
        BoolExpression::Not(Box::new(BoolExpression::Not(Box::new(tree)))).literals()
            == tree.literals(),
{
    let inner = BoolExpression::Not(Box::new(tree));
    let outer = BoolExpression::Not(Box::new(inner));
    assert forall|row: int| 0 <= row < rows implies outer.row_value(reals, strings, ids, row)
        == tree.row_value(reals, strings, ids, row) by {
        assert(inner.row_value(reals, strings, ids, row) == !tree.row_value(
            reals,
            strings,
            ids,
            row,
        ));
        assert(outer.row_value(reals, strings, ids, row) == !inner.row_value(
            reals,
            strings,
            ids,
            row,
        ));
    }
    assert(outer.value(reals, strings, ids, rows) =~= tree.value(reals, strings, ids, rows));
    assert(inner.literals() == tree.literals());
    assert(outer.literals() == inner.literals());
}

/// On every row, `NotEqual` denotes the negation of what `Equal` denotes.
pub proof fn lemma_not_equal_negates_equal<Real: FloatExt>(
    lhs: RealExpression<Real>,
    rhs: RealExpression<Real>,
    reals: Seq<Seq<Real>>,
    strings: Seq<Seq<StringId>>,
    ids: Seq<StringId>,
    row: int,
)
    ensures
        BoolExpression::NotEqual(Box::new(lhs), Box::new(rhs)).row_value(reals, strings, ids, row)
            == !BoolExpression::Equal(Box::new(lhs), Box::new(rhs)).row_value(
            reals,
            strings,
            ids,
            row,
        ),
{
}

/// On every row on which exactly one of the numeric type's relations `<`,
/// `==` and `>` holds between the operands, exactly one of `Less`, `Equal`
/// and `Greater` denotes `true`.
pub proof fn lemma_comparisons_are_complements<Real: FloatExt>(
    lhs: RealExpression<Real>,
    rhs: RealExpression<Real>,
    reals: Seq<Seq<Real>>,
    strings: Seq<Seq<StringId>>,
    ids: Seq<StringId>,
    row: int,
)
    requires
        exactly_one(
            lhs.row_value(reals, row).less_spec(rhs.row_value(reals, row)),
            lhs.row_value(reals, row).same_spec(rhs.row_value(reals, row)),
            lhs.row_value(reals, row).greater_spec(rhs.row_value(reals, row)),
        ),
    ensures
        exactly_one(
            BoolExpression::Less(Box::new(lhs), Box::new(rhs)).row_value(reals, strings, ids, row),
            BoolExpression::Equal(Box::new(lhs), Box::new(rhs)).row_value(
                reals,
                strings,
                ids,
                row,
            ),
            BoolExpression::Greater(Box::new(lhs), Box::new(rhs)).row_value(
                reals,
                strings,
                ids,
                row,
            ),
        ),
{
}

/// Whether a tree is the sum of `terms` variables, added one after the other
/// from the left.
pub open spec fn is_sum_of_bindings<Real>(tree: RealExpression<Real>, terms: nat) -> bool
    decreases tree,
{
    match tree {
        RealExpression::Add(lhs, rhs) => *rhs is Binding && if terms == 2 {
            *lhs is Binding
        } else {
            terms > 2 && is_sum_of_bindings(*lhs, (terms - 1) as nat)
        },
        _ => false,
    }
}

/// A pool that has never allocated a register.
pub open spec fn cold_pool(rows: nat) -> PoolState {
    PoolState { rows, allocations: 0, reals: 0, bools: 0, strings: 0 }
}

/// Recycling bounds allocation by the registers that are live at once, not
/// by the size of the tree: from a cold pool, the sum of three or more
/// variables allocates two registers however many terms it has, and leaves
/// one of them idle in the pool.
pub proof fn lemma_sum_of_bindings_allocates_twice<Real: FloatExt>(
    tree: RealExpression<Real>,
    terms: nat,
    rows: nat,
)
    requires
        is_sum_of_bindings(tree, terms),
    ensures
        terms == 2 ==> tree.pool_after(cold_pool(rows)) == (PoolState {
            allocations: 1,
            ..cold_pool(rows)
        }),
        terms >= 3 ==> tree.pool_after(cold_pool(rows)) == (PoolState {
            allocations: 2,
            reals: 1,
            ..cold_pool(rows)
        }),
    decreases tree,
{
    assert(usize::MAX >= 2);
    match tree {
        RealExpression::Add(lhs, rhs) => {
            if terms > 2 {
                lemma_sum_of_bindings_allocates_twice(*lhs, (terms - 1) as nat, rows);
            }
        },
        _ => {},
    }
}

/// Whether exactly one of three statements holds.
pub open spec fn exactly_one(first: bool, second: bool, third: bool) -> bool {
    (first && !second && !third) || (!first && second && !third) || (!first && !second && third)
}

} // verus!
