//! A bounded first-in-first-out queue with a two-phase send: a sender first
//! reserves a slot and only then, perhaps much later, puts its item there.
//! A reserved slot counts against the capacity, so an item whose slot was
//! reserved always finds room.

use std::collections::VecDeque;
use vstd::prelude::*;

verus! {

/// What a queue holds.
pub struct QueueModel<T> {
    /// The items, oldest first.
    pub items: Seq<T>,
    /// How many slots are reserved and not yet filled.
    pub reserved: nat,
    /// How many items and reservations the queue has room for.
    pub capacity: nat,
}

impl<T> QueueModel<T> {
    /// Items and reservations together never exceed the capacity.
    pub open spec fn wf(self) -> bool {
        self.items.len() + self.reserved <= self.capacity
    }

    /// How many slots are taken, by an item or by a reservation.
    pub open spec fn occupied(self) -> nat {
        self.items.len() + self.reserved
    }

    /// The empty queue of the given capacity.
    pub open spec fn empty(capacity: nat) -> QueueModel<T> {
        QueueModel { items: Seq::empty(), reserved: 0, capacity }
    }

    /// Whether a slot is free.
    pub open spec fn can_reserve(self) -> bool {
        self.occupied() < self.capacity
    }

    /// The queue with one more slot reserved.
    pub open spec fn reserve(self) -> QueueModel<T> {
        QueueModel { reserved: self.reserved + 1, ..self }
    }

    /// The queue with one reservation given back.
    pub open spec fn release(self) -> QueueModel<T> {
        QueueModel { reserved: (self.reserved - 1) as nat, ..self }
    }

    /// The queue after `item` went into a reserved slot.
    pub open spec fn commit(self, item: T) -> QueueModel<T> {
        QueueModel { items: self.items.push(item), reserved: (self.reserved - 1) as nat, ..self }
    }

    /// The queue without its oldest item.
    pub open spec fn pop(self) -> QueueModel<T> {
        QueueModel { items: self.items.drop_first(), ..self }
    }

    /// One admission: a slot is reserved and filled with `item` if there is
    /// room, and nothing changes if there is none. The flag says which.
    pub open spec fn offer(self, item: T) -> (QueueModel<T>, bool) {
        if self.can_reserve() {
            (self.reserve().commit(item), true)
        } else {
            (self, false)
        }
    }

    /// The queue after one admission for each of `items`, in order, with
    /// nothing taken out in between.
    pub open spec fn offer_all(self, items: Seq<T>) -> QueueModel<T>
        decreases items.len(),
    {
        if items.len() == 0 {
            self
        } else {
            self.offer_all(items.drop_last()).offer(items.last()).0
        }
    }
}

/// A bounded queue of `T` with reserve-then-commit sending. Every queue that
/// `new` made and these methods changed is well-formed.
pub struct SessionQueue<T> {
    items: VecDeque<T>,
    reserved: usize,
    capacity: usize,
}

impl<T> View for SessionQueue<T> {
    type V = QueueModel<T>;

    closed spec fn view(&self) -> QueueModel<T> {
        QueueModel {
            items: self.items@,
            reserved: self.reserved as nat,
            capacity: self.capacity as nat,
        }
    }
}

impl<T> SessionQueue<T> {
    /// The empty queue with room for `capacity` items.
    pub fn new(capacity: usize) -> (r: SessionQueue<T>)
        ensures
            r@ == QueueModel::<T>::empty(capacity as nat),
            r@.wf(),
    {
        SessionQueue { items: VecDeque::new(), reserved: 0, capacity }
    }

    /// How many items wait in the queue.
    pub fn len(&self) -> (r: usize)
        ensures
            r == self@.items.len(),
    {
        self.items.len()
    }

    /// How many slots are reserved and not yet filled.
    pub fn reserved(&self) -> (r: usize)
        ensures
            r == self@.reserved,
    {
        self.reserved
    }

    /// How many items and reservations the queue has room for.
    pub fn capacity(&self) -> (r: usize)
        ensures
            r == self@.capacity,
    {
        self.capacity
    }

    /// Whether no item waits in the queue.
    pub fn is_empty(&self) -> (r: bool)
        ensures
            r == (self@.items.len() == 0),
    {
        self.items.len() == 0
    }

    /// Reserves one slot if one is free, and says whether it did. It never
    /// waits.
    pub fn try_reserve(&mut self) -> (ok: bool)
        requires
            old(self)@.wf(),
        ensures
            ok == old(self)@.can_reserve(),
            final(self)@ == (if ok {
                old(self)@.reserve()
            } else {
                old(self)@
            }),
            final(self)@.wf(),
    {
        if self.capacity - self.items.len() > self.reserved {
            self.reserved = self.reserved + 1;
            true
        } else {
            false
        }
    }

    /// Gives one reservation back, and says whether there was one.
    pub fn release(&mut self) -> (ok: bool)
        requires
            old(self)@.wf(),
        ensures
            ok == (old(self)@.reserved > 0),
            final(self)@ == (if ok {
                old(self)@.release()
            } else {
                old(self)@
            }),
            final(self)@.wf(),
    {
        if self.reserved > 0 {
            self.reserved = self.reserved - 1;
            true
        } else {
            false
        }
    }

    /// Puts `item` into a reserved slot, at the back of the queue. Without a
    /// reservation nothing changes and the item comes back.
    pub fn send(&mut self, item: T) -> (r: Result<(), T>)
        requires
            old(self)@.wf(),
        ensures
            old(self)@.reserved > 0 ==> r is Ok && final(self)@ == old(self)@.commit(item),
            old(self)@.reserved == 0 ==> r == Err::<(), T>(item) && final(self)@ == old(self)@,
            final(self)@.wf(),
    {
        if self.reserved > 0 {
            self.reserved = self.reserved - 1;
            self.items.push_back(item);
            Ok(())
        } else {
            Err(item)
        }
    }

    /// Takes the oldest item out, if there is one. It never waits.
    pub fn try_recv(&mut self) -> (r: Option<T>)
        requires
            old(self)@.wf(),
        ensures
            old(self)@.items.len() > 0 ==> r == Some(old(self)@.items[0]) && final(self)@ == old(
                self,
            )@.pop(),
            old(self)@.items.len() == 0 ==> r is None && final(self)@ == old(self)@,
            final(self)@.wf(),
    {
        let r = self.items.pop_front();
        proof {
            if r is Some {
                assert(self.items@ =~= old(self).items@.drop_first());
            }
        }
        r
    }
}

/// An admission into a well-formed queue leaves it well-formed.
pub proof fn lemma_offer_keeps_wf<T>(q: QueueModel<T>, item: T)
    requires
        q.wf(),
    ensures
        q.offer(item).0.wf(),
        q.offer(item).0.capacity == q.capacity,
{
}

/// As long as nothing is taken out, the first admissions into an empty queue
/// succeed until the capacity is reached, and keep their order.
pub proof fn lemma_offers_fill<T>(capacity: nat, items: Seq<T>)
    requires
        items.len() <= capacity,
    ensures
        QueueModel::<T>::empty(capacity).offer_all(items) == (QueueModel {
            items,
            reserved: 0,
            capacity,
        }),
    decreases items.len(),
{
    let q = QueueModel::<T>::empty(capacity);
    if items.len() == 0 {
        assert(items =~= Seq::empty());
    } else {
        lemma_offers_fill(capacity, items.drop_last());
        assert(items.drop_last().push(items.last()) =~= items);
    }
}

/// Admission control: once as many admissions as the capacity succeeded and
/// none of the items was taken out, the next admission is refused and changes
/// nothing.
pub proof fn lemma_offer_beyond_capacity<T>(capacity: nat, items: Seq<T>, next: T)
    requires
        items.len() == capacity,
    ensures
        !QueueModel::<T>::empty(capacity).offer_all(items).offer(next).1,
        QueueModel::<T>::empty(capacity).offer_all(items).offer(next).0 == QueueModel::<T>::empty(
            capacity,
        ).offer_all(items),
{
    lemma_offers_fill(capacity, items);
}

/// A queue whose slots are all taken, by items or by reservations, has no
/// slot to reserve.
pub proof fn lemma_full_queue_refuses<T>(q: QueueModel<T>)
    requires
        q.wf(),
        q.occupied() == q.capacity,
    ensures
        !q.can_reserve(),
{
}

} // verus!
