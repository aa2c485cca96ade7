//! Packed boolean registers: one bit per row, stored in machine words.
//!
//! The registers are bit-vectors of the `bitvec` crate. Nothing here is
//! proved of that crate: each of its functions that the library calls stands
//! behind a function of this file, whose contract says over `bits_of` what
//! the call does to the rows.

use bitvec::vec::BitVec;
use vstd::prelude::*;

verus! {

/// The most rows that a packed boolean register can hold: `MAX_BITS` of a
/// `BitSlice`, an eighth of the range of `usize`.
pub const MAX_ROWS: usize = usize::MAX >> 3;

/// The number of rows that one machine word packs.
pub const WORD_ROWS: usize = usize::BITS as usize;

/// A packed sequence of boolean rows, one bit per row: a `BitVec<usize, Lsb0>`
/// of the `bitvec` crate, which the verifier does not look into.
#[verifier::external_body]
pub struct BoolRegister {
    bits: BitVec,
}

/// The rows held by a packed boolean register, first row first.
pub uninterp spec fn bits_of(register: BoolRegister) -> Seq<bool>;

/// Row `index` of the rows that a machine word packs: the word's bit of
/// weight `2^index`.
pub open spec fn word_bit(word: usize, index: int) -> bool {
    (word >> (index as usize)) & 1 == 1
}

/// The rows packed by a sequence of machine words, each word contributing
/// `WORD_ROWS` rows, least significant bit first.
pub open spec fn word_rows(words: Seq<usize>) -> Seq<bool> {
    Seq::new(
        words.len() * WORD_ROWS as nat,
        |i: int| word_bit(words[i / WORD_ROWS as int], i % WORD_ROWS as int),
    )
}

impl View for BoolRegister {
    type V = Seq<bool>;

    open spec fn view(&self) -> Seq<bool> {
        bits_of(*self)
    }
}

impl BoolRegister {
    /// An empty register with room for `rows` rows.
    pub fn with_capacity(rows: usize) -> (out: BoolRegister)
        requires
            rows <= MAX_ROWS,
        ensures
            out@ == Seq::<bool>::empty(),
    {
        bits_with_capacity(rows)
    }

    /// The number of rows held.
    pub fn len(&self) -> (out: usize)
        ensures
            out == self@.len(),
    {
        bits_len(self)
    }

    /// The value of row `index`.
    pub fn get(&self, index: usize) -> (out: bool)
        requires
            index < self@.len(),
        ensures
            out == self@[index as int],
    {
        bits_get(self, index)
    }

    /// The rows, unpacked.
    pub fn to_vec(&self) -> (out: Vec<bool>)
        ensures
            out@ == self@,
    {
        let rows = self.len();
        let mut out: Vec<bool> = Vec::with_capacity(rows);
        let mut row: usize = 0;
        while row < rows
            invariant
                rows == self@.len(),
                row <= rows,
                out@ == self@.subrange(0, row as int),
            decreases rows - row,
        {
            out.push(self.get(row));
            row += 1;
        }
        assert(self@.subrange(0, rows as int) == self@);
        out
    }
}

/// `BitVec::with_capacity`: an empty register with room for `rows` rows.
/// The outside function panics on more than `MAX_ROWS` rows.
#[verifier::external_body]
pub(crate) fn bits_with_capacity(rows: usize) -> (out: BoolRegister)
    requires
        rows <= MAX_ROWS,
    ensures
        bits_of(out) == Seq::<bool>::empty(),
{
    BoolRegister { bits: BitVec::with_capacity(rows) }
}

/// `BitVec::capacity`: the number of rows that the register's allocation has
/// room for. Nothing is claimed of the number, which is the allocator's.
/// The outside function panics where that number does not fit in a `usize`,
/// which no allocation for at most `MAX_ROWS` rows comes near.
#[verifier::external_body]
pub(crate) fn bits_capacity(register: &BoolRegister) -> usize {
    register.bits.capacity()
}

/// `BitVec::len`: the number of rows held.
#[verifier::external_body]
pub(crate) fn bits_len(register: &BoolRegister) -> (out: usize)
    ensures
        out == bits_of(*register).len(),
{
    register.bits.len()
}

/// `Index<usize>` of `BitVec`: the value of one row.
/// The outside function panics on an index past the last row.
#[verifier::external_body]
pub(crate) fn bits_get(register: &BoolRegister, index: usize) -> (out: bool)
    requires
        index < bits_of(*register).len(),
    ensures
        out == bits_of(*register)[index as int],
{
    register.bits[index]
}

/// `BitVec::clear`: drops every row and keeps the allocation.
#[verifier::external_body]
pub(crate) fn bits_clear(register: &mut BoolRegister)
    ensures
        bits_of(*final(register)) == Seq::<bool>::empty(),
{
    register.bits.clear()
}

/// `BitVec::resize`: keeps the first `rows` rows, or appends rows of `value`
/// until there are `rows` of them.
/// The outside function panics on more than `MAX_ROWS` rows.
#[verifier::external_body]
pub(crate) fn bits_resize(register: &mut BoolRegister, rows: usize, value: bool)
    requires
        rows <= MAX_ROWS,
    ensures
        bits_of(*final(register)).len() == rows,
        forall|i: int|
            0 <= i < rows ==> #[trigger] bits_of(*final(register))[i] == if i < bits_of(
                *old(register),
            ).len() {
                bits_of(*old(register))[i]
            } else {
                value
            },
{
    register.bits.resize(rows, value)
}

/// `BitVec::push`: appends one row.
/// The outside function panics where the rows would be more than `MAX_ROWS`.
#[verifier::external_body]
pub(crate) fn bits_push(register: &mut BoolRegister, value: bool)
    requires
        bits_of(*old(register)).len() < MAX_ROWS,
    ensures
        bits_of(*final(register)) == bits_of(*old(register)).push(value),
{
    register.bits.push(value)
}

/// `BitVec::extend_from_raw_slice`: appends the rows that `words` pack, word
/// after word, each word's least significant bit first.
/// The outside function panics where the rows would be more than `MAX_ROWS`.
#[verifier::external_body]
pub(crate) fn bits_extend_from_words(register: &mut BoolRegister, words: &[usize])
    requires
        bits_of(*old(register)).len() + words@.len() * WORD_ROWS <= MAX_ROWS,
    ensures
        bits_of(*final(register)) == bits_of(*old(register)) + word_rows(words@),
{
    register.bits.extend_from_raw_slice(words)
}

/// `BitAndAssign<&BitVec>` of `BitVec`: row by row, the conjunction of the
/// register's row and the other's. Stated for registers of one length.
#[verifier::external_body]
pub(crate) fn bits_and_assign(register: &mut BoolRegister, other: &BoolRegister)
    requires
        bits_of(*old(register)).len() == bits_of(*other).len(),
    ensures
        bits_of(*final(register)).len() == bits_of(*old(register)).len(),
        forall|i: int|
            0 <= i < bits_of(*old(register)).len() ==> #[trigger] bits_of(*final(register))[i] == (
            bits_of(*old(register))[i] && bits_of(*other)[i]),
{
    register.bits &= &other.bits;
}

/// `BitOrAssign<&BitVec>` of `BitVec`: row by row, the disjunction of the
/// register's row and the other's. Stated for registers of one length.
#[verifier::external_body]
pub(crate) fn bits_or_assign(register: &mut BoolRegister, other: &BoolRegister)
    requires
        bits_of(*old(register)).len() == bits_of(*other).len(),
    ensures
        bits_of(*final(register)).len() == bits_of(*old(register)).len(),
        forall|i: int|
            0 <= i < bits_of(*old(register)).len() ==> #[trigger] bits_of(*final(register))[i] == (
            bits_of(*old(register))[i] || bits_of(*other)[i]),
{
    register.bits |= &other.bits;
}

/// `Not` of `BitVec`: the same register with every row inverted.
#[verifier::external_body]
pub(crate) fn bits_not(register: BoolRegister) -> (out: BoolRegister)
    ensures
        bits_of(out).len() == bits_of(register).len(),
        forall|i: int|
            0 <= i < bits_of(register).len() ==> #[trigger] bits_of(out)[i] == !bits_of(
                register,
            )[i],
{
    BoolRegister { bits: !register.bits }
}

/// The word `word` with `value` merged into its bit of weight `2^index`.
pub open spec fn merge_bit(word: usize, index: usize, value: bool) -> usize {
    word | ((if value { 1usize } else { 0usize }) << index)
}

/// Merging a row into a word's bit that is still clear sets that row and
/// leaves every other row of the word as it was.
pub proof fn lemma_merge_bit(word: usize, index: usize, value: bool)
    requires
        index < usize::BITS,
        !word_bit(word, index as int),
    ensures
        forall|j: int|
            0 <= j < usize::BITS ==> #[trigger] word_bit(merge_bit(word, index, value), j) == if j
                == index {
                value
            } else {
                word_bit(word, j)
            },
{
    let bit = if value { 1usize } else { 0usize };
    let merged = merge_bit(word, index, value);
    assert forall|j: int| 0 <= j < usize::BITS implies #[trigger] word_bit(merged, j) == if j
        == index {
        value
    } else {
        word_bit(word, j)
    } by {
        let k = j as usize;
        assert(((word | (bit << index)) >> k) & 1 == if k == index {
            bit
        } else {
            (word >> k) & 1
        }) by (bit_vector)
            requires
                k < usize::BITS,
                index < usize::BITS,
                bit == 0 || bit == 1,
                (word >> index) & 1 != 1,
        ;
    }
}

/// No row of the zero word is set.
pub proof fn lemma_zero_word(j: int)
    requires
        0 <= j < usize::BITS,
    ensures
        !word_bit(0usize, j),
{
    let k = j as usize;
    assert((0usize >> k) & 1 == 0) by (bit_vector);
}

} // verus!
