//! Row-wise work fanned out over worker threads: real arithmetic row by row,
//! and comparisons packed one machine word of rows at a time.

use crate::bits::{
    bits_extend_from_words, bits_push, lemma_merge_bit, lemma_zero_word, merge_bit, word_bit,
    word_rows, BoolRegister, MAX_ROWS, WORD_ROWS,
};
use crate::numeric::{BinaryRealOp, Comparison, FloatExt, UnaryRealOp};
use rayon::iter::{
    IndexedParallelIterator, IntoParallelRefIterator, ParallelExtend, ParallelIterator,
};
use rayon::slice::ParallelSlice;
use vstd::prelude::*;

verus! {

/// The rows that a binary operation gives on two columns.
pub open spec fn binary_rows<Real: FloatExt>(
    op: BinaryRealOp,
    lhs: Seq<Real>,
    rhs: Seq<Real>,
) -> Seq<Real> {
    Seq::new(lhs.len(), |i: int| op.apply_spec(lhs[i], rhs[i]))
}

/// The rows that a unary operation gives on one column.
pub open spec fn unary_rows<Real: FloatExt>(op: UnaryRealOp, only: Seq<Real>) -> Seq<Real> {
    Seq::new(only.len(), |i: int| op.apply_spec(only[i]))
}

/// The rows that a comparison gives on two columns.
pub open spec fn compared_rows<T, C: Comparison<T>>(op: C, lhs: Seq<T>, rhs: Seq<T>) -> Seq<bool> {
    Seq::new(lhs.len(), |i: int| op.holds(lhs[i], rhs[i]))
}

/// Whether `block` packs the comparison of two chunks of at most one word of
/// rows: bit `j` is the comparison of row `j`, and clear past the last row.
pub open spec fn packs<T, C: Comparison<T>>(block: usize, op: C, lhs: Seq<T>, rhs: Seq<T>) -> bool {
    forall|j: int|
        0 <= j < WORD_ROWS ==> #[trigger] word_bit(block, j) == (j < lhs.len() && op.holds(
            lhs[j],
            rhs[j],
        ))
}

/// rayon's `par_iter`, `zip` and `map`, and `par_extend` of `Vec`: appends to
/// `output`, in the order of the rows, what `op` gives on each pair of rows.
#[verifier::external_body]
pub(crate) fn par_extend_binary<Real: FloatExt>(
    output: &mut Vec<Real>,
    op: BinaryRealOp,
    lhs: &[Real],
    rhs: &[Real],
)
    requires
        lhs@.len() == rhs@.len(),
    ensures
        final(output)@ == old(output)@ + binary_rows(op, lhs@, rhs@),
{
    output.par_extend(lhs.par_iter().zip(rhs.par_iter()).map(|(lhs, rhs)| op.apply(*lhs, *rhs)));
}

/// rayon's `par_iter` and `map`, and `par_extend` of `Vec`: appends to
/// `output`, in the order of the rows, what `op` gives on each row.
#[verifier::external_body]
pub(crate) fn par_extend_unary<Real: FloatExt>(
    output: &mut Vec<Real>,
    op: UnaryRealOp,
    only: &[Real],
)
    ensures
        final(output)@ == old(output)@ + unary_rows(op, only@),
{
    output.par_extend(only.par_iter().map(|only| op.apply(*only)));
}

/// rayon's `par_chunks_exact`, `zip`, `map` and `collect`: cuts both columns
/// into chunks of one word of rows, leaving out a shorter last chunk, and
/// gives, in the order of the chunks, the block that packs each pair of them.
#[verifier::external_body]
pub(crate) fn par_pack_blocks<T: Copy + Send + Sync, C: Comparison<T>>(
    op: C,
    lhs: &[T],
    rhs: &[T],
) -> (blocks: Vec<usize>)
    requires
        lhs@.len() == rhs@.len(),
    ensures
        blocks@.len() == lhs@.len() / WORD_ROWS as nat,
        forall|k: int|
            0 <= k < blocks@.len() ==> packs(
                #[trigger] blocks@[k],
                op,
                lhs@.subrange(k * WORD_ROWS, k * WORD_ROWS + WORD_ROWS),
                rhs@.subrange(k * WORD_ROWS, k * WORD_ROWS + WORD_ROWS),
            ),
{
    lhs.par_chunks_exact(WORD_ROWS).zip(rhs.par_chunks_exact(WORD_ROWS)).map(
        |(lhs, rhs)| pack_block(op, lhs, rhs),
    ).collect()
}

/// Packs the comparison of two chunks of at most one word of rows into one
/// block, by merging each row's result into the bit of the row's position.
pub fn pack_block<T: Copy, C: Comparison<T>>(op: C, lhs: &[T], rhs: &[T]) -> (block: usize)
    requires
        lhs@.len() == rhs@.len(),
        lhs@.len() <= WORD_ROWS,
    ensures
        packs(block, op, lhs@, rhs@),
{
    let mut block: usize = 0;
    let mut i: usize = 0;
    proof {
        assert forall|j: int| 0 <= j < WORD_ROWS implies !#[trigger] word_bit(block, j) by {
            lemma_zero_word(j);
        }
    }
    while i < lhs.len()
        invariant
            lhs@.len() == rhs@.len(),
            lhs@.len() <= WORD_ROWS,
            i <= lhs@.len(),
            forall|j: int|
                0 <= j < WORD_ROWS ==> #[trigger] word_bit(block, j) == (j < i && op.holds(
                    lhs@[j],
                    rhs@[j],
                )),
        decreases lhs@.len() - i,
    {
        let holds = op.test(lhs[i], rhs[i]);
        let bit: usize = if holds { 1 } else { 0 };
        let ghost before = block;
        proof {
            lemma_merge_bit(block, i, holds);
        }
        block = block | (bit << i);
        assert(block == merge_bit(before, i, holds));
        i += 1;
    }
    block
}

/// Facts of division by the word size on which the blocks of a column rest.
proof fn lemma_block_of_row(row: int, rows: int, width: int)
    requires
        width == WORD_ROWS,
        0 <= row < (rows / width) * width,
        0 <= rows,
    ensures
        0 <= row / width < rows / width,
        0 <= row % width < width,
        row == (row / width) * width + row % width,
        (row / width) * width + width <= rows,
{
    if width == 32 {
        assert(row == (row / 32) * 32 + row % 32);
    } else {
        assert(width == 64);
        assert(row == (row / 64) * 64 + row % 64);
    }
}

/// The whole blocks of a column hold no more rows than the column.
proof fn lemma_whole_blocks(rows: int, width: int)
    requires
        width == WORD_ROWS,
        0 <= rows,
    ensures
        0 <= (rows / width) * width <= rows,
{
    if width == 32 {
        assert(rows == (rows / 32) * 32 + rows % 32);
    } else {
        assert(width == 64);
        assert(rows == (rows / 64) * 64 + rows % 64);
    }
}

/// Compares two columns row by row into an empty boolean register.
///
/// The columns are cut into chunks of one machine word of rows. Each chunk
/// is packed into one block on its own, the chunks being handed out to
/// worker threads, and the blocks are appended to the register in the order
/// of the chunks. The rows of a shorter last chunk are appended one by one.
pub fn parallel_comparison<T: Copy + Send + Sync, C: Comparison<T>>(
    op: C,
    lhs_values: &[T],
    rhs_values: &[T],
    output: &mut BoolRegister,
)
    requires
        lhs_values@.len() == rhs_values@.len(),
        lhs_values@.len() <= MAX_ROWS,
        old(output)@.len() == 0,
    ensures
        final(output)@ == compared_rows(op, lhs_values@, rhs_values@),
{
    let rows = lhs_values.len();
    let blocks = par_pack_blocks(op, lhs_values, rhs_values);
    proof {
        lemma_whole_blocks(rows as int, WORD_ROWS as int);
    }
    let whole = blocks.len() * WORD_ROWS;
    bits_extend_from_words(output, blocks.as_slice());
    proof {
        let target = compared_rows(op, lhs_values@, rhs_values@).subrange(0, whole as int);
        assert forall|i: int| 0 <= i < whole implies output@[i] == target[i] by {
            lemma_block_of_row(i, rows as int, WORD_ROWS as int);
            let k = i / WORD_ROWS as int;
            let j = i % WORD_ROWS as int;
            let lhs_chunk = lhs_values@.subrange(k * WORD_ROWS, k * WORD_ROWS + WORD_ROWS);
            let rhs_chunk = rhs_values@.subrange(k * WORD_ROWS, k * WORD_ROWS + WORD_ROWS);
            assert(packs(blocks@[k], op, lhs_chunk, rhs_chunk));
            assert(word_bit(blocks@[k], j) == (j < lhs_chunk.len() && op.holds(
                lhs_chunk[j],
                rhs_chunk[j],
            )));
        }
        assert(output@ =~= target);
    }
    let mut row = whole;
    while row < rows
        invariant
            rows == lhs_values@.len(),
            lhs_values@.len() == rhs_values@.len(),
            rows <= MAX_ROWS,
            row <= rows,
            output@ == compared_rows(op, lhs_values@, rhs_values@).subrange(0, row as int),
        decreases rows - row,
    {
        bits_push(output, op.test(lhs_values[row], rhs_values[row]));
        row += 1;
        assert(output@ =~= compared_rows(op, lhs_values@, rhs_values@).subrange(0, row as int));
    }
    assert(output@ =~= compared_rows(op, lhs_values@, rhs_values@));
}

} // verus!
