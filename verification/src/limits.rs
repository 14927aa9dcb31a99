//! Allocation limits shared by every channel of a supplied connection.
use vstd::multiset::Multiset;
use vstd::prelude::*;

use crate::error::{Error, ErrorKind};

verus! {

/// A connection-wide bound, checked before content assembly.
#[derive(Clone, Copy, Debug)]
pub struct ReceiveLimits {
    /// Maximum bytes in one message body.
    pub message_bytes: usize,
    /// Maximum total body bytes retained by all deliveries.
    pub retained_bytes: usize,
    /// Maximum total number of retained deliveries, including empty messages.
    pub retained_messages: usize,
}

/// What is retained under a [`ReceiveLimits`], as a sum over the live reservations.
pub struct Budget {
    limits: ReceiveLimits,
    used_bytes: usize,
    used_messages: usize,
    outstanding: Ghost<Multiset<nat>>,
    identity: Ghost<int>,
}

/// One retained delivery. It counts against its budget until it is released.
pub struct Reservation {
    bytes: usize,
    budget: Ghost<int>,
}

/// The bytes of all the reservations in a collection.
pub open spec fn total_bytes(sizes: Multiset<nat>) -> nat
    decreases sizes.len(),
{
    if sizes.len() == 0 {
        0
    } else {
        let size = sizes.choose();
        size + total_bytes(sizes.remove(size))
    }
}

/// Taking one size out of a collection takes that size off the total.
proof fn lemma_total_bytes_remove(sizes: Multiset<nat>, size: nat)
    requires
        sizes.contains(size),
    ensures
        total_bytes(sizes) == size + total_bytes(sizes.remove(size)),
    decreases sizes.len(),
{
    let first = sizes.choose();
    assert(sizes.contains(first));
    if first != size {
        let rest = sizes.remove(first);
        let other = sizes.remove(size);
        assert(rest.contains(size));
        assert(other.contains(first));
        lemma_total_bytes_remove(rest, size);
        lemma_total_bytes_remove(other, first);
        assert(rest.remove(size) =~= other.remove(first));
    }
}

/// Putting one size into a collection puts that size onto the total.
proof fn lemma_total_bytes_insert(sizes: Multiset<nat>, size: nat)
    ensures
        total_bytes(sizes.insert(size)) == size + total_bytes(sizes),
{
    let more = sizes.insert(size);
    assert(more.contains(size));
    lemma_total_bytes_remove(more, size);
    assert(more.remove(size) =~= sizes);
}

/// Nothing takes up no bytes, and each size adds itself to the total, whatever else is in the
/// collection and however often.
pub proof fn total_is_the_sum_of_the_sizes(sizes: Multiset<nat>, size: nat)
    ensures
        total_bytes(Multiset::empty()) == 0,
        total_bytes(sizes.insert(size)) == total_bytes(sizes) + size,
        total_bytes(Multiset::singleton(size)) == size,
{
    lemma_total_bytes_insert(sizes, size);
    lemma_total_bytes_insert(Multiset::empty(), size);
    assert(Multiset::<nat>::empty().insert(size) =~= Multiset::singleton(size));
}

/// Any two reservations compare equal: resource ownership does not change a message's equality.
pub proof fn reservations_compare_equal(a: Reservation, b: Reservation)
    ensures
        vstd::std_specs::cmp::PartialEqSpec::eq_spec(&a, &b),
{
}

/// Every live reservation is part of the total: its bytes stay counted until it is released.
pub proof fn live_reservation_is_counted(budget: Budget, bytes: nat)
    requires
        budget.holds(bytes),
    ensures
        bytes <= total_bytes(budget.outstanding()),
{
    lemma_total_bytes_remove(budget.outstanding(), bytes);
}

/// What is retained never exceeds the limits, neither in bytes nor in messages.
pub proof fn retained_stays_within_limits(budget: Budget)
    requires
        budget.well_formed(),
    ensures
        total_bytes(budget.outstanding()) <= budget.limits().retained_bytes,
        budget.outstanding().len() <= budget.limits().retained_messages,
{
}

/// Releasing a reservation undoes the reservation: afterwards the budget holds what it held before
/// and admits what it admitted before.
pub proof fn release_undoes_reserve(before: Budget, during: Budget, after: Budget, bytes: nat)
    requires
        during.limits() == before.limits(),
        during.outstanding() == before.outstanding().insert(bytes),
        after.limits() == during.limits(),
        after.outstanding() == during.outstanding().remove(bytes),
    ensures
        after.outstanding() == before.outstanding(),
        forall|size: nat| after.admits(size) == before.admits(size),
{
    assert(after.outstanding() =~= before.outstanding());
}

/// A reservation takes its bytes and one message off what a budget still admits.
pub proof fn reserve_takes_capacity(before: Budget, after: Budget, bytes: nat, size: nat)
    requires
        after.limits() == before.limits(),
        after.outstanding() == before.outstanding().insert(bytes),
    ensures
        after.admits(size) <==> {
            &&& size <= before.limits().message_bytes
            &&& total_bytes(before.outstanding()) + bytes + size <= before.limits().retained_bytes
            &&& before.outstanding().len() + 1 < before.limits().retained_messages
        },
{
    lemma_total_bytes_insert(before.outstanding(), bytes);
}

/// Resizing a reservation there and back leaves the budget as it was.
pub proof fn resize_back_undoes_resize(
    before: Budget,
    during: Budget,
    after: Budget,
    from: nat,
    to: nat,
)
    requires
        before.holds(from),
        during.outstanding() == before.outstanding().remove(from).insert(to),
        after.outstanding() == during.outstanding().remove(to).insert(from),
    ensures
        after.outstanding() == before.outstanding(),
{
    assert(after.outstanding() =~= before.outstanding());
}

/// The error for a request that a limit does not admit.
pub fn exceeded() -> (error: Error)
    ensures
        error.spec_kind() == ErrorKind::ResourceLimitExceeded,
{
    Error::new(ErrorKind::ResourceLimitExceeded)
}

impl Budget {
    /// The limits that the budget enforces.
    pub closed spec fn limits(self) -> ReceiveLimits {
        self.limits
    }

    /// Which budget this is. Nothing is known of the identities of two budgets.
    pub closed spec fn identity(self) -> int {
        self.identity@
    }

    /// The sizes of the live reservations.
    pub closed spec fn outstanding(self) -> Multiset<nat> {
        self.outstanding@
    }

    /// The counters are the sums over the live reservations, and no sum is over its limit.
    pub closed spec fn well_formed(self) -> bool {
        &&& self.used_bytes == total_bytes(self.outstanding@)
        &&& self.used_messages == self.outstanding@.len()
        &&& self.used_bytes <= self.limits.retained_bytes
        &&& self.used_messages <= self.limits.retained_messages
    }

    /// Is there room for one more delivery of this size?
    pub open spec fn admits(self, bytes: nat) -> bool {
        &&& bytes <= self.limits().message_bytes
        &&& total_bytes(self.outstanding()) + bytes <= self.limits().retained_bytes
        &&& self.outstanding().len() < self.limits().retained_messages
    }

    /// Is a reservation of this size live?
    pub open spec fn holds(self, bytes: nat) -> bool {
        self.outstanding().contains(bytes)
    }

    /// Is there room for a live reservation to change from one size to another?
    pub open spec fn admits_resize(self, from: nat, to: nat) -> bool {
        total_bytes(self.outstanding()) - from + to <= self.limits().retained_bytes
    }

    /// An empty budget.
    pub fn new(limits: ReceiveLimits) -> (budget: Budget)
        ensures
            budget.well_formed(),
            budget.limits() == limits,
            budget.outstanding() == Multiset::<nat>::empty(),
    {
            Budget {
            limits,
            used_bytes: 0,
            used_messages: 0,
            outstanding: Ghost(Multiset::empty()),
            identity: Ghost(arbitrary()),
        }
    }

    /// Count one delivery of `bytes` bytes, if every limit admits it.
    pub fn reserve(&mut self, bytes: u64) -> (result: Result<Reservation, Error>)
        requires
            old(self).well_formed(),
        ensures
            final(self).well_formed(),
            final(self).limits() == old(self).limits(),
            final(self).identity() == old(self).identity(),
            result is Ok <==> old(self).admits(bytes as nat),
            result is Ok <==> {
                &&& bytes <= old(self).limits().message_bytes
                &&& total_bytes(old(self).outstanding()) + bytes
                    <= old(self).limits().retained_bytes
                &&& old(self).outstanding().len() < old(self).limits().retained_messages
            },
            match result {
                Ok(reservation) => {
                    &&& reservation.size() == bytes
                    &&& reservation.budget() == old(self).identity()
                    &&& final(self).outstanding() == old(self).outstanding().insert(bytes as nat)
                },
                Err(error) => {
                    &&& error.spec_kind() == ErrorKind::ResourceLimitExceeded
                    &&& final(self).outstanding() == old(self).outstanding()
                },
            },
    {
            let bytes: usize = match usize::try_from(bytes) {
            Ok(bytes) => bytes,
            Err(_) => {
                return Err(exceeded());
            },
        };
        let total: usize = match self.used_bytes.checked_add(bytes) {
            Some(total) => total,
            None => {
                return Err(exceeded());
            },
        };
        if bytes > self.limits.message_bytes || total > self.limits.retained_bytes
            || self.used_messages >= self.limits.retained_messages {
            return Err(exceeded());
        }
        proof {
            lemma_total_bytes_insert(self.outstanding@, bytes as nat);
        }
        self.used_bytes = total;
        self.used_messages = self.used_messages + 1;
        self.outstanding = Ghost(self.outstanding@.insert(bytes as nat));
        Ok(Reservation { bytes, budget: Ghost(self.identity()) })
    }

    /// Stop counting a delivery that this budget counts.
    pub fn release(&mut self, reservation: Reservation)
        requires
            old(self).well_formed(),
            reservation.budget() == old(self).identity(),
            old(self).holds(reservation.size()),
        ensures
            final(self).well_formed(),
            final(self).limits() == old(self).limits(),
            final(self).identity() == old(self).identity(),
            final(self).outstanding() == old(self).outstanding().remove(reservation.size()),
    {
            proof {
            lemma_total_bytes_remove(self.outstanding@, reservation.bytes as nat);
        }
        self.used_bytes = self.used_bytes - reservation.bytes;
        self.used_messages = self.used_messages - 1;
        self.outstanding = Ghost(self.outstanding@.remove(reservation.bytes as nat));
    }
}

impl Reservation {
    /// The bytes that the reservation counts.
    pub closed spec fn size(self) -> nat {
        self.bytes as nat
    }

    /// The budget that the reservation counts against.
    pub closed spec fn budget(self) -> int {
        self.budget@
    }

    /// Change the bytes that the reservation counts against its budget, if the total stays within its limit.
    pub fn resize(&mut self, budget: &mut Budget, bytes: usize) -> (result: Result<(), Error>)
        requires
            old(budget).well_formed(),
            old(self).budget() == old(budget).identity(),
            old(budget).holds(old(self).size()),
        ensures
            final(budget).well_formed(),
            final(budget).limits() == old(budget).limits(),
            final(budget).identity() == old(budget).identity(),
            final(self).budget() == old(self).budget(),
            result is Ok <==> old(budget).admits_resize(old(self).size(), bytes as nat),
            result is Ok <==> total_bytes(old(budget).outstanding()) - old(self).size() + bytes
                <= old(budget).limits().retained_bytes,
            match result {
                Ok(_) => {
                    &&& final(self).size() == bytes
                    &&& final(budget).outstanding() == old(budget).outstanding().remove(
                        old(self).size(),
                    ).insert(bytes as nat)
                },
                Err(error) => {
                    &&& error.spec_kind() == ErrorKind::ResourceLimitExceeded
                    &&& final(self).size() == old(self).size()
                    &&& final(budget).outstanding() == old(budget).outstanding()
                },
            },
    {
            proof {
            lemma_total_bytes_remove(budget.outstanding@, self.bytes as nat);
        }
        let rest: usize = budget.used_bytes - self.bytes;
        let total: usize = match rest.checked_add(bytes) {
            Some(total) => total,
            None => {
                return Err(exceeded());
            },
        };
        if total > budget.limits.retained_bytes {
            return Err(exceeded());
        }
        proof {
            lemma_total_bytes_insert(
                budget.outstanding@.remove(self.bytes as nat),
                bytes as nat,
            );
        }
        budget.used_bytes = total;
        budget.outstanding = Ghost(
            budget.outstanding@.remove(self.bytes as nat).insert(bytes as nat),
        );
        self.bytes = bytes;
        Ok(())
    }
}

/// Resource ownership does not change a message's protocol equality.
impl PartialEq for Reservation {
    fn eq(&self, other: &Self) -> (same: bool) {
        true
    }
}

impl vstd::std_specs::cmp::PartialEqSpecImpl for Reservation {
    open spec fn obeys_eq_spec() -> bool {
        true
    }

    open spec fn eq_spec(&self, other: &Self) -> bool {
        true
    }
}

} // verus!
