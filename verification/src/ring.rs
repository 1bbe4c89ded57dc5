//! Fixed-capacity FIFO ring without allocation after construction.
//!
//! The capacity is a non-zero power of two. Pushing into a full ring hands
//! the value back; popping an empty ring yields nothing.
use vstd::prelude::*;

verus! {

#[derive(Clone, Copy, Debug, PartialEq, Eq, Structural)]
pub enum RingError {
    CapacityMustBePowerOfTwo,
}

/// Whether `n` is a power of two (1, 2, 4, ...).
pub open spec fn is_power_of_two(n: nat) -> bool
    decreases n,
{
    if n == 0 {
        false
    } else if n == 1 {
        true
    } else if n % 2 == 1 {
        false
    } else {
        is_power_of_two(n / 2)
    }
}

pub fn power_of_two(n: usize) -> (result: bool)
    ensures
        result == is_power_of_two(n as nat),
{
    let mut value = n;
    while value > 1 && value % 2 == 0
        invariant
            is_power_of_two(value as nat) == is_power_of_two(n as nat),
        decreases value,
    {
        value = value / 2;
    }
    value == 1
}

pub struct SpscRing<T, const N: usize> {
    slots: Vec<Option<T>>,
    head: usize,
    count: usize,
}

impl<T, const N: usize> SpscRing<T, N> {
    /// The queued values, oldest first.
    pub closed spec fn view_items(&self) -> Seq<T> {
        Seq::new(self.count as nat, |i: int| self.slots@[(self.head + i) % (N as int)]->Some_0)
    }

    pub closed spec fn wf(&self) -> bool {
        &&& is_power_of_two(N as nat)
        &&& self.slots@.len() == N
        &&& self.head < N
        &&& self.count <= N
        &&& forall|i: int| 0 <= i < self.count ==> #[trigger] self.slots@[(self.head + i) % (N as int)] is Some
    }

    fn empty_ring() -> (ring: Self)
        requires
            is_power_of_two(N as nat),
        ensures
            ring.wf(),
            ring.view_items() == Seq::<T>::empty(),
    {
        let mut slots: Vec<Option<T>> = Vec::new();
        let mut i: usize = 0;
        while i < N
            invariant
                i <= N,
                slots@.len() == i,
            decreases N - i,
        {
            slots.push(None);
            i = i + 1;
        }
        let ring = SpscRing { slots, head: 0, count: 0 };
        assert(ring.view_items() =~= Seq::<T>::empty());
        ring
    }

    pub fn try_new() -> (result: Result<Self, RingError>)
        ensures
            !is_power_of_two(N as nat) ==> result == Err::<Self, RingError>(
                RingError::CapacityMustBePowerOfTwo,
            ),
            is_power_of_two(N as nat) ==> (result matches Ok(ring) && ring.wf()
                && ring.view_items() == Seq::<T>::empty()),
    {
        if !power_of_two(N) {
            return Err(RingError::CapacityMustBePowerOfTwo);
        }
        Ok(Self::empty_ring())
    }

    pub fn new() -> (ring: Self)
        requires
            is_power_of_two(N as nat),
        ensures
            ring.wf(),
            ring.view_items() == Seq::<T>::empty(),
    {
        Self::empty_ring()
    }

    /// The cursor and storage bounds that every operation relies on.
    fn shape_ok(&self) -> (ok: bool)
        ensures
            self.wf() ==> ok,
            ok ==> N > 0 && self.head < N && self.count <= N && self.slots@.len() == N,
    {
        N > 0 && self.head < N && self.count <= N && self.slots.len() == N
    }

    pub fn capacity(&self) -> (capacity: usize)
        ensures
            capacity == N,
    {
        N
    }

    pub fn len(&self) -> (len: usize)
        ensures
            len == self.view_items().len(),
    {
        self.count
    }

    pub fn is_empty(&self) -> (empty: bool)
        ensures
            empty == (self.view_items().len() == 0),
    {
        self.count == 0
    }

    pub fn is_full(&self) -> (full: bool)
        ensures
            full == (self.view_items().len() == N),
    {
        self.count == N
    }

    /// Append `value`, or hand it back when the ring is full.
    pub fn push(&mut self, value: T) -> (result: Result<(), T>)
        ensures
            old(self).wf() ==> final(self).wf(),
            old(self).wf() && old(self).view_items().len() >= N ==> result == Err::<(), T>(value)
                && final(self).view_items() == old(self).view_items(),
            old(self).wf() && old(self).view_items().len() < N ==> result is Ok && final(self).view_items()
                == old(self).view_items().push(value),
    {
        if !self.shape_ok() || self.count == N {
            return Err(value);
        }
        let ghost before = self.view_items();
        let room = N - self.head;
        let index = if self.count >= room {
            self.count - room
        } else {
            self.head + self.count
        };
        proof {
            let total = self.head + self.count;
            if self.count >= room {
                vstd::arithmetic::div_mod::lemma_mod_sub_multiples_vanish(total - N, N as int);
                assert(total - N + N == total);
                vstd::arithmetic::div_mod::lemma_small_mod((total - N) as nat, N as nat);
                vstd::arithmetic::div_mod::lemma_mod_add_multiples_vanish(total - N, N as int);
            } else {
                vstd::arithmetic::div_mod::lemma_small_mod(total as nat, N as nat);
            }
        }
        assert(index as int == (self.head + self.count) % (N as int));
        let ghost was_wf = self.wf();
        self.slots.set(index, Some(value));
        self.count = self.count + 1;
        proof {
            if was_wf {
                assert forall|i: int| 0 <= i < self.count implies #[trigger] self.slots@[(self.head + i) % (N as int)] is Some by {
                    if i < self.count - 1 {
                        assert((self.head + i) % (N as int) != index as int) by {
                            lemma_ring_positions_distinct(self.head as int, i, (self.count - 1) as int, N as int);
                        }
                    }
                }
                assert forall|i: int| 0 <= i < before.len() implies #[trigger] self.view_items()[i] == before[i] by {
                    lemma_ring_positions_distinct(self.head as int, i, (self.count - 1) as int, N as int);
                }
                assert(self.view_items() =~= before.push(value));
            }
        }
        Ok(())
    }

    /// Remove and return the oldest value.
    pub fn pop(&mut self) -> (value: Option<T>)
        ensures
            old(self).wf() ==> final(self).wf(),
            old(self).wf() && old(self).view_items().len() == 0 ==> value is None && final(self).view_items()
                == old(self).view_items(),
            old(self).wf() && old(self).view_items().len() > 0 ==> value == Some(old(self).view_items()[0])
                && final(self).view_items() == old(self).view_items().drop_first(),
    {
        if !self.shape_ok() || self.count == 0 {
            return None;
        }
        let ghost was_wf = self.wf();
        let ghost before = self.view_items();
        let ghost old_slots = self.slots@;
        let index = self.head;
        proof {
            vstd::arithmetic::div_mod::lemma_small_mod(self.head as nat, N as nat);
            if was_wf {
                assert(self.slots@[(self.head + 0) % (N as int)] is Some);
            }
        }
        let value = self.slots[index].take();
        assert(self.slots@ == old_slots.update(index as int, None));
        self.head = if index + 1 == N {
            0
        } else {
            index + 1
        };
        self.count = self.count - 1;
        proof {
            if was_wf {
                assert forall|i: int| 0 <= i < self.count implies (#[trigger] self.slots@[(self.head + i) % (N as int)] is Some
                    && self.slots@[(self.head + i) % (N as int)] == old_slots[(index + (i + 1)) % (N as int)]) by {
                    lemma_ring_step(index as int, i, N as int);
                    lemma_ring_positions_distinct(index as int, 0, i + 1, N as int);
                    assert(old_slots[(index + (i + 1)) % (N as int)] is Some);
                }
                assert(self.view_items() =~= before.drop_first());
            }
        }
        value
    }
}

/// Distinct offsets below the modulus land on distinct ring positions.
proof fn lemma_ring_positions_distinct(head: int, i: int, j: int, n: int)
    requires
        0 <= head < n,
        0 <= i < j < n,
    ensures
        (head + i) % n != (head + j) % n,
{
    assert((head + i) % n != (head + j) % n) by (nonlinear_arith)
        requires
            0 <= head < n,
            0 <= i < j < n,
    {
        let a = head + i;
        let b = head + j;
        assert(0 < b - a < n);
        if a % n == b % n {
            assert((b - a) % n == 0) by {
                vstd::arithmetic::div_mod::lemma_mod_sub_multiples_vanish(0, n);
                vstd::arithmetic::div_mod::lemma_sub_mod_noop(b, a, n);
            }
            vstd::arithmetic::div_mod::lemma_small_mod((b - a) as nat, n as nat);
        }
    }
}

/// Advancing the head by one slot shifts every offset by one.
proof fn lemma_ring_step(head: int, i: int, n: int)
    requires
        0 <= head < n,
        0 <= i,
    ensures
        ((if head + 1 == n {
            0
        } else {
            head + 1
        }) + i) % n == (head + (i + 1)) % n,
{
    if head + 1 == n {
        vstd::arithmetic::div_mod::lemma_mod_add_multiples_vanish(i, n);
        assert(head + (i + 1) == n + i);
    }
}

} // verus!
