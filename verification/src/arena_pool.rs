use vstd::prelude::*;

verus! {

#[verifier::external_type_specification]
#[verifier::external_body]
pub struct ExBump<const MIN_ALIGN: usize>(bumpalo::Bump<MIN_ALIGN>);

/// `bumpalo::Bump::with_capacity`: a new arena with room for `capacity` bytes.  It aborts
/// the program where the memory cannot be had; nothing is said of the arena.
#[verifier::external_body]
fn new_arena(capacity: usize) -> (a: bumpalo::Bump) {
    bumpalo::Bump::with_capacity(capacity)
}

/// `bumpalo::Bump::reset`: frees what the arena holds, for reuse; nothing is said of it.
#[verifier::external_body]
fn reset_arena(a: &mut bumpalo::Bump) {
    a.reset()
}

/// The number of arenas in a pool made with `ArenaPool::new`.
pub const DEFAULT_POOL_SIZE: usize = 4;

/// The byte capacity of each arena in a pool made with `ArenaPool::new`.
pub const DEFAULT_ARENA_SIZE: usize = 65536;

/// One arena of a pool and whether it is checked out.
pub struct ArenaSlot {
    arena: bumpalo::Bump,
    in_use: bool,
}

/// A pool of arenas that are checked out for use and returned.
pub struct ArenaPool {
    slots: Vec<ArenaSlot>,
    active_count: usize,
}

/// An arena checked out of a pool: the index of its slot.
pub struct ArenaCheckout {
    slot_index: usize,
}

/// The number of `true` flags.
pub open spec fn count_used(s: Seq<bool>) -> nat
    decreases s.len(),
{
    if s.len() == 0 {
        0
    } else {
        count_used(s.drop_last()) + if s.last() {
            1nat
        } else {
            0nat
        }
    }
}

proof fn lemma_count_used_bound(s: Seq<bool>)
    ensures
        count_used(s) <= s.len(),
    decreases s.len(),
{
    if s.len() > 0 {
        lemma_count_used_bound(s.drop_last());
    }
}

proof fn lemma_count_used_update(s: Seq<bool>, i: int, b: bool)
    requires
        0 <= i < s.len(),
    ensures
        count_used(s.update(i, b)) == count_used(s) - (if s[i] {
            1int
        } else {
            0int
        }) + (if b {
            1int
        } else {
            0int
        }),
    decreases s.len(),
{
    if i == s.len() - 1 {
        assert(s.update(i, b).drop_last() == s.drop_last());
    } else {
        assert(s.update(i, b).drop_last() == s.drop_last().update(i, b));
        lemma_count_used_update(s.drop_last(), i, b);
    }
}

proof fn lemma_count_used_all_false(n: nat)
    ensures
        count_used(Seq::new(n, |i: int| false)) == 0,
    decreases n,
{
    if n > 0 {
        assert(Seq::new(n, |i: int| false).drop_last() == Seq::new((n - 1) as nat, |i: int| false));
        lemma_count_used_all_false((n - 1) as nat);
    }
}

impl ArenaPool {
    /// Which slots are checked out.
    pub closed spec fn used(&self) -> Seq<bool> {
        Seq::new(self.slots@.len(), |i: int| self.slots@[i].in_use)
    }

    /// The count of checked-out arenas that the pool keeps.
    pub closed spec fn spec_active_count(&self) -> nat {
        self.active_count as nat
    }

    /// The count of checked-out arenas is the number of slots in use.
    pub open spec fn wf(&self) -> bool {
        self.spec_active_count() == count_used(self.used())
    }

    /// The slot of `c` is one of this pool's slots.
    pub open spec fn holds(&self, c: &ArenaCheckout) -> bool {
        0 <= Self::slot_of(c) < self.used().len()
    }

    /// The index of the slot that `c` checked out.
    pub closed spec fn slot_of(c: &ArenaCheckout) -> int {
        c.slot_index as int
    }

    /// The arena of slot `i`.
    pub closed spec fn arena_at(&self, i: int) -> bumpalo::Bump {
        self.slots@[i].arena
    }

    /// A pool of `DEFAULT_POOL_SIZE` arenas of `DEFAULT_ARENA_SIZE` bytes, none checked out.
    pub fn new() -> (p: Self)
        ensures
            p.wf(),
            p.used() == Seq::new(DEFAULT_POOL_SIZE as nat, |i: int| false),
            p.spec_active_count() == 0,
    {
        Self::with_capacity(DEFAULT_POOL_SIZE, DEFAULT_ARENA_SIZE)
    }

    /// A pool of `num_arenas` arenas of `arena_size` bytes, none checked out.
    pub fn with_capacity(num_arenas: usize, arena_size: usize) -> (p: Self)
        ensures
            p.wf(),
            p.used() == Seq::new(num_arenas as nat, |i: int| false),
            p.spec_active_count() == 0,
    {
        let mut slots: Vec<ArenaSlot> = Vec::new();
        let mut i: usize = 0;
        while i < num_arenas
            invariant
                i <= num_arenas,
                slots@.len() == i,
                forall|k: int| 0 <= k < i ==> !(#[trigger] slots@[k]).in_use,
            decreases num_arenas - i,
        {
            slots.push(ArenaSlot { arena: new_arena(arena_size), in_use: false });
            i = i + 1;
        }
        let p = ArenaPool { slots, active_count: 0 };
        proof {
            assert(p.used() =~= Seq::new(num_arenas as nat, |i: int| false));
            lemma_count_used_all_false(num_arenas as nat);
        }
        p
    }

    /// Checks out the first arena that is free, emptied; `None` where all are checked out.
    pub fn checkout(&mut self) -> (r: Option<ArenaCheckout>)
        requires
            old(self).wf(),
        ensures
            final(self).wf(),
            match r {
                Some(c) => {
                    let i = Self::slot_of(&c);
                    &&& old(self).holds(&c)
                    &&& final(self).holds(&c)
                    &&& !old(self).used()[i]
                    &&& forall|k: int| 0 <= k < i ==> #[trigger] old(self).used()[k]
                    &&& final(self).used() == old(self).used().update(i, true)
                    &&& final(self).spec_active_count() == old(self).spec_active_count() + 1
                },
                None => {
                    &&& forall|k: int| 0 <= k < old(self).used().len() ==> #[trigger] old(self).used()[k]
                    &&& final(self).used() == old(self).used()
                    &&& final(self).spec_active_count() == old(self).spec_active_count()
                },
            },
    {
        let ghost u = self.used();
        let mut i: usize = 0;
        while i < self.slots.len()
            invariant
                i <= self.slots@.len(),
                u == self.used(),
                u == old(self).used(),
                self.active_count == old(self).active_count,
                self.wf(),
                forall|k: int| 0 <= k < i ==> #[trigger] u[k],
            decreases self.slots@.len() - i,
        {
            if !self.slots[i].in_use {
                proof {
                    lemma_count_used_update(u, i as int, true);
                    lemma_count_used_bound(u.update(i as int, true));
                }
                let mut slot = self.slots.remove(i);
                slot.in_use = true;
                reset_arena(&mut slot.arena);
                self.slots.insert(i, slot);
                self.active_count = self.active_count + 1;
                proof {
                    assert(self.used() =~= u.update(i as int, true));
                }
                return Some(ArenaCheckout { slot_index: i });
            }
            i = i + 1;
        }
        None
    }

    /// Returns a checked-out arena to the pool.
    pub fn release(&mut self, c: ArenaCheckout)
        requires
            old(self).wf(),
        ensures
            final(self).wf(),
            old(self).holds(&c) && old(self).used()[Self::slot_of(&c)] ==> {
                &&& final(self).used() == old(self).used().update(Self::slot_of(&c), false)
                &&& final(self).spec_active_count() == old(self).spec_active_count() - 1
            },
            !(old(self).holds(&c) && old(self).used()[Self::slot_of(&c)]) ==> {
                &&& final(self).used() == old(self).used()
                &&& final(self).spec_active_count() == old(self).spec_active_count()
            },
    {
        let i = c.slot_index;
        if i < self.slots.len() && self.slots[i].in_use {
            let ghost u = self.used();
            proof {
                lemma_count_used_update(u, i as int, false);
            }
            let mut slot = self.slots.remove(i);
            slot.in_use = false;
            self.slots.insert(i, slot);
            self.active_count = self.active_count - 1;
            proof {
                assert(self.used() =~= u.update(i as int, false));
            }
        }
    }

    /// The arena of a checkout.
    pub fn arena(&self, c: &ArenaCheckout) -> (a: &bumpalo::Bump)
        requires
            self.holds(c),
        ensures
            *a == self.arena_at(Self::slot_of(c)),
    {
        &self.slots[c.slot_index].arena
    }

    /// The number of arenas checked out.
    pub fn active_count(&self) -> (n: usize)
        ensures
            n == self.spec_active_count(),
    {
        self.active_count
    }

    /// The number of arenas in the pool.
    pub fn capacity(&self) -> (n: usize)
        ensures
            n == self.used().len(),
    {
        self.slots.len()
    }
}

/// The number of arenas of `pool` that are checked out.
pub fn active_count(pool: &ArenaPool) -> (n: usize)
    ensures
        n == pool.spec_active_count(),
{
    pool.active_count()
}

/// The number of arenas in `pool`.
pub fn capacity(pool: &ArenaPool) -> (n: usize)
    ensures
        n == pool.used().len(),
{
    pool.capacity()
}

/// The count of checked-out arenas is the number of slots in use, and never more than the
/// pool's size.
pub proof fn lemma_active_count_bounded(pool: &ArenaPool)
    requires
        pool.wf(),
    ensures
        pool.spec_active_count() == count_used(pool.used()),
        pool.spec_active_count() <= pool.used().len(),
{
    lemma_count_used_bound(pool.used());
}

} // verus!
