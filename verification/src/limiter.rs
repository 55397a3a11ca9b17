//! A counting admission primitive: at most `capacity` permits are out at any
//! time.

use vstd::prelude::*;

verus! {

/// What a task asks of the limiter.
#[derive(Debug, Clone, Copy, PartialEq, Eq, Structural)]
pub enum Arrival {
    /// A task asks for a permit.
    Acquire,
    /// A task hands its permit back.
    Release,
}

/// The permits that are out after one arrival. A permit is granted only
/// while fewer than `capacity` are out; a release frees one slot.
pub open spec fn held_after(capacity: nat, held: nat, arrival: Arrival) -> nat {
    match arrival {
        Arrival::Acquire => if held < capacity {
            held + 1
        } else {
            held
        },
        Arrival::Release => if held > 0 {
            (held - 1) as nat
        } else {
            0
        },
    }
}

/// The permits that are out after a sequence of arrivals, starting with none.
pub open spec fn held_after_all(capacity: nat, arrivals: Seq<Arrival>) -> nat
    decreases arrivals.len(),
{
    if arrivals.len() == 0 {
        0
    } else {
        held_after(capacity, held_after_all(capacity, arrivals.drop_last()), arrivals.last())
    }
}

/// Whatever the arrival pattern, the permits that are out never exceed the
/// capacity: not at the end, and at no moment before it.
pub proof fn lemma_outstanding_never_exceeds_capacity(capacity: nat, arrivals: Seq<Arrival>)
    ensures
        held_after_all(capacity, arrivals) <= capacity,
        forall|k: int|
            0 <= k <= arrivals.len() ==> held_after_all(capacity, #[trigger] arrivals.take(k))
                <= capacity,
{
    lemma_bounded(capacity, arrivals);
    assert forall|k: int| 0 <= k <= arrivals.len() implies held_after_all(
        capacity,
        #[trigger] arrivals.take(k),
    ) <= capacity by {
        lemma_bounded(capacity, arrivals.take(k));
    }
}

proof fn lemma_bounded(capacity: nat, arrivals: Seq<Arrival>)
    ensures
        held_after_all(capacity, arrivals) <= capacity,
    decreases arrivals.len(),
{
    if arrivals.len() > 0 {
        lemma_bounded(capacity, arrivals.drop_last());
    }
}

/// The limiter. Its fields are private: the count of permits that are out
/// changes only through `try_acquire` and `release`.
#[derive(Debug)]
pub struct Limiter {
    capacity: usize,
    outstanding: usize,
}

impl Limiter {
    #[verifier::type_invariant]
    spec fn within_capacity(self) -> bool {
        self.outstanding <= self.capacity
    }

    /// The largest number of permits that may be out at once.
    pub closed spec fn cap(self) -> nat {
        self.capacity as nat
    }

    /// The number of permits that are out.
    pub closed spec fn held(self) -> nat {
        self.outstanding as nat
    }

    /// A limiter of the given capacity with no permit out.
    pub fn new(capacity: usize) -> (l: Self)
        ensures
            l.cap() == capacity,
            l.held() == 0,
    {
        Limiter { capacity, outstanding: 0 }
    }

    /// The capacity.
    pub fn capacity(&self) -> (n: usize)
        ensures
            n == self.cap(),
    {
        self.capacity
    }

    /// The number of permits that are out. It never exceeds the capacity.
    pub fn outstanding(&self) -> (n: usize)
        ensures
            n == self.held(),
            n <= self.cap(),
    {
        proof {
            use_type_invariant(self);
        }
        self.outstanding
    }

    /// The number of permits that can still be granted.
    pub fn available(&self) -> (n: usize)
        ensures
            n == self.cap() - self.held(),
    {
        proof {
            use_type_invariant(self);
        }
        self.capacity - self.outstanding
    }

    /// Grants a permit if fewer than the capacity are out, and says whether
    /// it did. A task that was refused waits and asks again after a release.
    pub fn try_acquire(&mut self) -> (granted: bool)
        ensures
            granted == (old(self).held() < old(self).cap()),
            final(self).cap() == old(self).cap(),
            final(self).held() == held_after(old(self).cap(), old(self).held(), Arrival::Acquire),
            final(self).held() <= final(self).cap(),
    {
        proof {
            use_type_invariant(&*self);
        }
        if self.outstanding < self.capacity {
            self.outstanding = self.outstanding + 1;
            true
        } else {
            false
        }
    }

    /// Takes a permit back and so frees a slot. With no permit out, nothing
    /// changes.
    pub fn release(&mut self)
        ensures
            final(self).cap() == old(self).cap(),
            final(self).held() == held_after(old(self).cap(), old(self).held(), Arrival::Release),
            final(self).held() <= final(self).cap(),
    {
        proof {
            use_type_invariant(&*self);
        }
        if self.outstanding > 0 {
            self.outstanding = self.outstanding - 1;
        }
    }

    /// Takes in one arrival; for an `Acquire` the result says whether the
    /// permit was granted, for a `Release` it is `true`.
    pub fn arrive(&mut self, arrival: Arrival) -> (granted: bool)
        ensures
            final(self).cap() == old(self).cap(),
            final(self).held() == held_after(old(self).cap(), old(self).held(), arrival),
            final(self).held() <= final(self).cap(),
            granted == (arrival is Release || old(self).held() < old(self).cap()),
    {
        match arrival {
            Arrival::Acquire => self.try_acquire(),
            Arrival::Release => {
                self.release();
                true
            },
        }
    }
}

} // verus!
