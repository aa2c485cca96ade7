//! The pool of scratch registers that evaluation draws its buffers from.

use crate::bits::{bits_capacity, bits_clear, bits_with_capacity, BoolRegister, MAX_ROWS};
use crate::numeric::StringId;
use vstd::prelude::*;

verus! {

/// What a pool of registers holds, as far as evaluation can tell: the row
/// count that it serves, how many registers it has ever had to allocate, and
/// how many idle registers of each kind wait to be reused.
pub struct PoolState {
    /// The row count shared by all columns of an evaluation.
    pub rows: nat,
    /// The number of registers allocated over the pool's lifetime.
    pub allocations: nat,
    /// The number of idle registers of real rows.
    pub reals: nat,
    /// The number of idle registers of boolean rows.
    pub bools: nat,
    /// The number of idle registers of string-identifier rows.
    pub strings: nat,
}

impl PoolState {
    /// The pool after one more register was allocated. The count stops at
    /// the largest number that its counter holds.
    pub open spec fn allocate(self) -> PoolState {
        PoolState {
            allocations: if self.allocations < usize::MAX {
                self.allocations + 1
            } else {
                self.allocations
            },
            ..self
        }
    }

    /// The pool after a register of real rows was checked out: an idle one
    /// leaves the pool, or, where there is none, a new one is allocated.
    pub open spec fn take_real(self) -> PoolState {
        if self.reals > 0 {
            PoolState { reals: (self.reals - 1) as nat, ..self }
        } else {
            self.allocate()
        }
    }

    /// The pool after a register of boolean rows was checked out.
    pub open spec fn take_bool(self) -> PoolState {
        if self.bools > 0 {
            PoolState { bools: (self.bools - 1) as nat, ..self }
        } else {
            self.allocate()
        }
    }

    /// The pool after a register of string-identifier rows was checked out.
    pub open spec fn take_string(self) -> PoolState {
        if self.strings > 0 {
            PoolState { strings: (self.strings - 1) as nat, ..self }
        } else {
            self.allocate()
        }
    }

    /// The pool after a register of real rows was handed back.
    pub open spec fn give_real(self) -> PoolState {
        PoolState { reals: self.reals + 1, ..self }
    }

    /// The pool after a register of boolean rows was handed back.
    pub open spec fn give_bool(self) -> PoolState {
        PoolState { bools: self.bools + 1, ..self }
    }

    /// The pool after a register of string-identifier rows was handed back.
    pub open spec fn give_string(self) -> PoolState {
        PoolState { strings: self.strings + 1, ..self }
    }
}

/// `Vec::capacity`: the number of rows that the vector's allocation has room
/// for, which is no less than the number of rows it holds.
#[verifier::external_body]
fn vec_capacity<T>(register: &Vec<T>) -> (out: usize)
    ensures
        out >= register@.len(),
{
    register.capacity()
}

/// Drops from a pool of empty registers those whose allocation has no room
/// for `rows` rows, and keeps the others in their order.
fn retain_roomy<T>(pool: &mut Vec<Vec<T>>, rows: usize)
    requires
        forall|i: int| 0 <= i < old(pool)@.len() ==> old(pool)@[i]@.len() == 0,
    ensures
        exists|capacities: Seq<usize>|
            capacities.len() == old(pool)@.len() && final(pool)@ == #[trigger] retained(
                old(pool)@,
                capacities,
                rows,
            ),
        final(pool)@.len() <= old(pool)@.len(),
        rows == 0 ==> final(pool)@ == old(pool)@,
        forall|i: int| 0 <= i < final(pool)@.len() ==> final(pool)@[i]@.len() == 0,
{
    // The room of each register, as its allocation has it.
    let mut capacities: Vec<usize> = Vec::new();
    let mut i: usize = 0;
    while i < pool.len()
        invariant
            pool@ == old(pool)@,
            i <= pool@.len(),
            capacities@.len() == i,
        decreases pool@.len() - i,
    {
        capacities.push(vec_capacity(&pool[i]));
        i += 1;
    }
    retain_by_capacity(pool, &capacities, rows);
    proof {
        lemma_retained(old(pool)@, capacities@, rows);
    }
}

/// Drops from a pool of empty boolean registers those whose allocation has
/// no room for `rows` rows, and keeps the others in their order.
fn retain_roomy_bits(pool: &mut Vec<BoolRegister>, rows: usize)
    requires
        forall|i: int| 0 <= i < old(pool)@.len() ==> old(pool)@[i]@.len() == 0,
    ensures
        exists|capacities: Seq<usize>|
            capacities.len() == old(pool)@.len() && final(pool)@ == #[trigger] retained(
                old(pool)@,
                capacities,
                rows,
            ),
        final(pool)@.len() <= old(pool)@.len(),
        rows == 0 ==> final(pool)@ == old(pool)@,
        forall|i: int| 0 <= i < final(pool)@.len() ==> final(pool)@[i]@.len() == 0,
{
    // The room of each register, as its allocation has it.
    let mut capacities: Vec<usize> = Vec::new();
    let mut i: usize = 0;
    while i < pool.len()
        invariant
            pool@ == old(pool)@,
            i <= pool@.len(),
            capacities@.len() == i,
        decreases pool@.len() - i,
    {
        capacities.push(bits_capacity(&pool[i]));
        i += 1;
    }
    retain_by_capacity(pool, &capacities, rows);
    proof {
        lemma_retained(old(pool)@, capacities@, rows);
    }
}

/// The registers of a pool that stay where the pool is to serve `rows` rows:
/// those whose allocation has room for that many rows, in their order.
/// `capacities` holds, register by register, the room of each allocation.
pub open spec fn retained<R>(pool: Seq<R>, capacities: Seq<usize>, rows: usize) -> Seq<R>
    decreases pool.len(),
{
    if pool.len() == 0 {
        Seq::empty()
    } else {
        let before = retained(pool.drop_last(), capacities.drop_last(), rows);
        if capacities.last() >= rows {
            before.push(pool.last())
        } else {
            before
        }
    }
}

/// The registers that stay are registers of the pool, no more than it had,
/// and all of them where the pool is to serve no rows.
pub proof fn lemma_retained<R>(pool: Seq<R>, capacities: Seq<usize>, rows: usize)
    requires
        capacities.len() == pool.len(),
    ensures
        retained(pool, capacities, rows).len() <= pool.len(),
        forall|k: int|
            0 <= k < retained(pool, capacities, rows).len() ==> pool.contains(
                #[trigger] retained(pool, capacities, rows)[k],
            ),
        rows == 0 ==> retained(pool, capacities, rows) == pool,
    decreases pool.len(),
{
    if pool.len() > 0 {
        let before = retained(pool.drop_last(), capacities.drop_last(), rows);
        lemma_retained(pool.drop_last(), capacities.drop_last(), rows);
        assert forall|k: int| 0 <= k < retained(pool, capacities, rows).len() implies pool.contains(
            #[trigger] retained(pool, capacities, rows)[k],
        ) by {
            if k < before.len() {
                let j = choose|j: int|
                    0 <= j < pool.drop_last().len() && pool.drop_last()[j] == before[k];
                assert(pool[j] == before[k]);
            } else {
                assert(pool[pool.len() - 1] == pool.last());
            }
        }
        if rows == 0 {
            assert(pool.drop_last().push(pool.last()) =~= pool);
        }
    }
}

/// Drops from a pool the registers whose allocation, with room for as many
/// rows as `capacities` tells of each, has no room for `rows` rows, and keeps
/// the others in their order.
pub fn retain_by_capacity<R>(pool: &mut Vec<R>, capacities: &Vec<usize>, rows: usize)
    requires
        capacities@.len() == old(pool)@.len(),
    ensures
        final(pool)@ == retained(old(pool)@, capacities@, rows),
{
    let mut kept: usize = 0;
    let mut seen: usize = 0;
    assert(old(pool)@.take(0) =~= Seq::<R>::empty());
    assert(old(pool)@.skip(0) =~= old(pool)@);
    while seen < capacities.len()
        invariant
            capacities@.len() == old(pool)@.len(),
            kept <= seen <= capacities@.len(),
            kept == retained(
                old(pool)@.take(seen as int),
                capacities@.take(seen as int),
                rows,
            ).len(),
            pool@ == retained(old(pool)@.take(seen as int), capacities@.take(seen as int), rows)
                + old(pool)@.skip(seen as int),
        decreases capacities@.len() - seen,
    {
        proof {
            let all = old(pool)@;
            assert(all.take(seen + 1).drop_last() =~= all.take(seen as int));
            assert(capacities@.take(seen + 1).drop_last() =~= capacities@.take(seen as int));
            assert(all.take(seen + 1).last() == all[seen as int]);
            assert(capacities@.take(seen + 1).last() == capacities@[seen as int]);
            assert(all.skip(seen as int) =~= seq![all[seen as int]] + all.skip(seen + 1));
        }
        let ghost before = pool@;
        if capacities[seen] >= rows {
            kept += 1;
        } else {
            pool.remove(kept);
            assert(pool@ =~= before.remove(kept as int));
        }
        seen += 1;
        assert(pool@ =~= retained(
            old(pool)@.take(seen as int),
            capacities@.take(seen as int),
            rows,
        ) + old(pool)@.skip(seen as int));
    }
    assert(old(pool)@.take(seen as int) =~= old(pool)@);
    assert(capacities@.take(seen as int) =~= capacities@);
    assert(old(pool)@.skip(seen as int) =~= Seq::<R>::empty());
}

/// Scratch space for calculations. Can be reused across evaluations with the
/// same data binding length.
///
/// Attempts to minimize allocations by recycling registers after intermediate
/// calculations have finished.
pub struct Registers<Real> {
    num_allocations: usize,
    real_registers: Vec<Vec<Real>>,
    bool_registers: Vec<BoolRegister>,
    string_registers: Vec<Vec<StringId>>,
    register_length: usize,
}

impl<Real> View for Registers<Real> {
    type V = PoolState;

    closed spec fn view(&self) -> PoolState {
        PoolState {
            rows: self.register_length as nat,
            allocations: self.num_allocations as nat,
            reals: self.real_registers@.len(),
            bools: self.bool_registers@.len(),
            strings: self.string_registers@.len(),
        }
    }
}

impl<Real> Registers<Real> {
    /// Whether the pool is well formed: every idle register is empty.
    pub closed spec fn wf(&self) -> bool {
        &&& forall|i: int|
            0 <= i < self.real_registers@.len() ==> self.real_registers@[i]@.len() == 0
        &&& forall|i: int|
            0 <= i < self.bool_registers@.len() ==> self.bool_registers@[i]@.len() == 0
        &&& forall|i: int|
            0 <= i < self.string_registers@.len() ==> self.string_registers@[i]@.len() == 0
    }

    /// A pool without registers, for evaluations over `register_length` rows.
    pub fn new(register_length: usize) -> (out: Self)
        ensures
            out.wf(),
            out@ == (PoolState {
                rows: register_length as nat,
                allocations: 0,
                reals: 0,
                bools: 0,
                strings: 0,
            }),
    {
        Registers {
            num_allocations: 0,
            real_registers: Vec::new(),
            bool_registers: Vec::new(),
            string_registers: Vec::new(),
            register_length,
        }
    }

    /// The row count that the pool serves.
    pub fn register_length(&self) -> (out: usize)
        ensures
            out == self@.rows,
    {
        self.register_length
    }

    /// Change the register length.
    ///
    /// This allows reusing `self` across evaluations even when the register
    /// length changes.
    ///
    /// Allocated registers will be retained only if they have capacity of at
    /// least `register_length`: which of them do is the allocator's matter, so
    /// of each kind some idle registers stay and none is added. All of them
    /// have room for no rows.
    pub fn set_register_length(&mut self, register_length: usize)
        requires
            old(self).wf(),
        ensures
            final(self).wf(),
            final(self)@.rows == register_length,
            final(self)@.allocations == old(self)@.allocations,
            final(self)@.reals <= old(self)@.reals,
            final(self)@.bools <= old(self)@.bools,
            final(self)@.strings <= old(self)@.strings,
            register_length == 0 ==> final(self)@.reals == old(self)@.reals && final(self)@.bools
                == old(self)@.bools && final(self)@.strings == old(self)@.strings,
    {
        retain_roomy(&mut self.real_registers, register_length);
        retain_roomy_bits(&mut self.bool_registers, register_length);
        retain_roomy(&mut self.string_registers, register_length);
        self.register_length = register_length;
    }

    /// Counts one more allocation, up to the largest number that the
    /// counter holds.
    fn count_allocation(&mut self)
        requires
            old(self).wf(),
        ensures
            final(self).wf(),
            final(self)@ == old(self)@.allocate(),
    {
        if self.num_allocations < usize::MAX {
            self.num_allocations += 1;
        }
    }

    /// Hands a register of real rows back to the pool, cleared.
    pub(crate) fn recycle_real(&mut self, used: Vec<Real>)
        requires
            old(self).wf(),
        ensures
            final(self).wf(),
            final(self)@ == old(self)@.give_real(),
    {
        let mut used = used;
        used.clear();
        self.real_registers.push(used);
    }

    /// Hands a register of boolean rows back to the pool, cleared.
    pub(crate) fn recycle_bool(&mut self, used: BoolRegister)
        requires
            old(self).wf(),
        ensures
            final(self).wf(),
            final(self)@ == old(self)@.give_bool(),
    {
        let mut used = used;
        bits_clear(&mut used);
        self.bool_registers.push(used);
    }

    /// Hands a register of string-identifier rows back to the pool, cleared.
    pub(crate) fn recycle_string(&mut self, used: Vec<StringId>)
        requires
            old(self).wf(),
        ensures
            final(self).wf(),
            final(self)@ == old(self)@.give_string(),
    {
        let mut used = used;
        used.clear();
        self.string_registers.push(used);
    }

    /// Checks out an empty register of real rows: an idle one, or a new one
    /// where the pool has none.
    pub(crate) fn allocate_real(&mut self) -> (out: Vec<Real>)
        requires
            old(self).wf(),
        ensures
            final(self).wf(),
            final(self)@ == old(self)@.take_real(),
            out@.len() == 0,
    {
        match self.real_registers.pop() {
            Some(register) => register,
            None => {
                self.count_allocation();
                Vec::with_capacity(self.register_length)
            },
        }
    }

    /// Checks out an empty register of boolean rows: an idle one, or a new
    /// one where the pool has none.
    pub(crate) fn allocate_bool(&mut self) -> (out: BoolRegister)
        requires
            old(self).wf(),
            old(self)@.rows <= MAX_ROWS,
        ensures
            final(self).wf(),
            final(self)@ == old(self)@.take_bool(),
            out@.len() == 0,
    {
        match self.bool_registers.pop() {
            Some(register) => register,
            None => {
                self.count_allocation();
                bits_with_capacity(self.register_length)
            },
        }
    }

    /// Checks out an empty register of string-identifier rows: an idle one,
    /// or a new one where the pool has none.
    pub(crate) fn allocate_string(&mut self) -> (out: Vec<StringId>)
        requires
            old(self).wf(),
        ensures
            final(self).wf(),
            final(self)@ == old(self)@.take_string(),
            out@.len() == 0,
    {
        match self.string_registers.pop() {
            Some(register) => register,
            None => {
                self.count_allocation();
                Vec::with_capacity(self.register_length)
            },
        }
    }

    /// The number of registers allocated over the pool's lifetime.
    pub fn num_allocations(&self) -> (out: usize)
        ensures
            out == self@.allocations,
    {
        self.num_allocations
    }
}

} // verus!
