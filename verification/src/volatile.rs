//! A set whose members expire: each member carries the time at which it was
//! last put in, and a refresh drops those that were put in longer ago than
//! the time to live. Nothing but a refresh ever drops a member.
//!
//! The members are held in a list, so that any value that can be told from
//! another can be a member: looking a member up goes through the list.

use vstd::prelude::*;
use crate::model::{NodeRef, OmniAddress};

verus! {

/// A source of time, in ticks of the caller's choosing. The set reads it
/// whenever it needs the present time.
pub trait Clock {
    /// The present time.
    fn now(&self) -> u64;
}

/// What can be a member: a value that can be told from another by what it
/// stands for.
pub trait MemberKey: View + Sized {
    /// Whether two values stand for the same thing.
    fn same(&self, other: &Self) -> (r: bool)
        ensures
            r == (self@ == other@),
    ;
}

impl MemberKey for u64 {
    fn same(&self, other: &Self) -> (r: bool) {
        *self == *other
    }
}

impl MemberKey for String {
    fn same(&self, other: &Self) -> (r: bool) {
        *self == *other
    }
}

impl MemberKey for OmniAddress {
    fn same(&self, other: &Self) -> (r: bool) {
        *self == *other
    }
}

impl MemberKey for NodeRef {
    fn same(&self, other: &Self) -> (r: bool) {
        NodeRef::same(self, other)
    }
}

/// Whether what was put in at `stamp` has been in for longer than `ttl` at
/// time `now`.
pub open spec fn expired(stamp: u64, now: u64, ttl: u64) -> bool {
    now - stamp > ttl
}

/// The members that a refresh at time `now` keeps: those that have not
/// expired, with their times.
pub open spec fn spec_refresh<K>(members: Map<K, u64>, now: u64, ttl: u64) -> Map<K, u64> {
    Map::new(
        |k: K| members.dom().contains(k) && !expired(members[k], now, ttl),
        |k: K| members[k],
    )
}

/// Whether what was put in at `stamp` has been in for longer than `ttl` at
/// time `now`.
pub fn is_expired(stamp: u64, now: u64, ttl: u64) -> (r: bool)
    ensures
        r == expired(stamp, now, ttl),
{
    now > stamp && now - stamp > ttl
}

struct Entry<T> {
    key: T,
    stamp: u64,
}

spec fn key_at<T: View>(entries: Seq<Entry<T>>, i: int) -> T::V {
    entries[i].key@
}

spec fn has_key<T: View>(entries: Seq<Entry<T>>, k: T::V) -> bool {
    exists|i: int| 0 <= i < entries.len() && #[trigger] key_at(entries, i) == k
}

spec fn place_of<T: View>(entries: Seq<Entry<T>>, k: T::V) -> int {
    choose|i: int| 0 <= i < entries.len() && #[trigger] key_at(entries, i) == k
}

spec fn distinct<T: View>(entries: Seq<Entry<T>>) -> bool {
    forall|i: int, j: int|
        0 <= i < entries.len() && 0 <= j < entries.len() && i != j ==> #[trigger] key_at(
            entries,
            i,
        ) != #[trigger] key_at(entries, j)
}

spec fn to_map<T: View>(entries: Seq<Entry<T>>) -> Map<T::V, u64> {
    Map::new(|k: T::V| has_key(entries, k), |k: T::V| entries[place_of(entries, k)].stamp)
}

spec fn found_from<T>(entries: Seq<Entry<T>>, from: int, entry: Entry<T>) -> bool {
    exists|i: int| from <= i < entries.len() && 0 <= i && #[trigger] entries[i] == entry
}

spec fn place_from<T>(entries: Seq<Entry<T>>, from: int, entry: Entry<T>) -> int {
    choose|i: int| from <= i < entries.len() && 0 <= i && #[trigger] entries[i] == entry
}

proof fn lemma_lookup<T: View>(entries: Seq<Entry<T>>, i: int)
    requires
        distinct(entries),
        0 <= i < entries.len(),
    ensures
        to_map(entries).dom().contains(entries[i].key@),
        to_map(entries)[entries[i].key@] == entries[i].stamp,
{
    let k = entries[i].key@;
    assert(key_at(entries, i) == k);
    let j = place_of(entries, k);
    assert(key_at(entries, j) == k);
    assert(j == i);
}

proof fn lemma_absent<T: View>(entries: Seq<Entry<T>>, k: T::V)
    requires
        forall|i: int| 0 <= i < entries.len() ==> entries[i].key@ != k,
    ensures
        !to_map(entries).dom().contains(k),
{
    if has_key(entries, k) {
        let i = place_of(entries, k);
        assert(key_at(entries, i) == k);
    }
}

proof fn lemma_member_has_place<T: View>(entries: Seq<Entry<T>>, k: T::V) -> (i: int)
    requires
        to_map(entries).dom().contains(k),
    ensures
        0 <= i < entries.len(),
        entries[i].key@ == k,
{
    let i = place_of(entries, k);
    assert(key_at(entries, i) == k);
    i
}

/// A set of `T` whose members expire after a time to live, measured by the
/// clock that the set was made with.
pub struct VolatileMembershipSet<T, C> {
    entries: Vec<Entry<T>>,
    ttl: u64,
    clock: C,
}

impl<T: MemberKey, C: Clock> View for VolatileMembershipSet<T, C> {
    type V = Map<T::V, u64>;

    /// The members, each with the time at which it was last put in.
    closed spec fn view(&self) -> Map<T::V, u64> {
        to_map(self.entries@)
    }
}

impl<T: MemberKey, C: Clock> VolatileMembershipSet<T, C> {
    /// No member is held twice.
    pub closed spec fn wf(&self) -> bool {
        distinct(self.entries@)
    }

    /// The time to live.
    pub closed spec fn spec_ttl(&self) -> u64 {
        self.ttl
    }

    /// The empty set with the given time to live and clock.
    pub fn new(ttl: u64, clock: C) -> (r: Self)
        ensures
            r.wf(),
            r@ == Map::<T::V, u64>::empty(),
            r.spec_ttl() == ttl,
    {
        let r = VolatileMembershipSet { entries: Vec::new(), ttl, clock };
        proof {
            assert forall|k: T::V| !to_map(r.entries@).dom().contains(k) by {
                lemma_absent(r.entries@, k);
            }
            assert(r@ =~= Map::<T::V, u64>::empty());
        }
        r
    }

    /// The time to live.
    pub fn ttl(&self) -> (r: u64)
        ensures
            r == self.spec_ttl(),
    {
        self.ttl
    }

    fn position(&self, key: &T) -> (r: Option<usize>)
        ensures
            match r {
                Some(i) => i < self.entries@.len() && self.entries@[i as int].key@ == key@,
                None => forall|i: int| 0 <= i < self.entries@.len() ==> self.entries@[i].key@
                    != key@,
            },
    {
        let mut i: usize = 0;
        while i < self.entries.len()
            invariant
                i <= self.entries@.len(),
                forall|j: int| 0 <= j < i ==> self.entries@[j].key@ != key@,
            decreases self.entries@.len() - i,
        {
            if self.entries[i].key.same(key) {
                return Some(i);
            }
            i = i + 1;
        }
        None
    }

    /// Whether `key` is a member. Members that have expired and were not yet
    /// dropped by a refresh count.
    pub fn contains(&self, key: &T) -> (r: bool)
        ensures
            r == self@.dom().contains(key@),
    {
        match self.position(key) {
            Some(i) => {
                assert(key_at(self.entries@, i as int) == key@);
                true
            },
            None => {
                proof {
                    lemma_absent(self.entries@, key@);
                }
                false
            },
        }
    }

    /// Puts `key` in as of time `now`, and says whether it was new. A member
    /// that is put in again gets the new time.
    pub fn insert_at(&mut self, key: T, now: u64) -> (r: bool)
        requires
            old(self).wf(),
        ensures
            final(self).wf(),
            final(self).spec_ttl() == old(self).spec_ttl(),
            final(self)@ == old(self)@.insert(key@, now),
            r == !old(self)@.dom().contains(key@),
    {
        let ghost before = self.entries@;
        let ghost k = key@;
        match self.position(&key) {
            Some(i) => {
                self.entries.set(i, Entry { key, stamp: now });
                proof {
                    let after = self.entries@;
                    lemma_lookup(before, i as int);
                    assert forall|a: int, b: int|
                        0 <= a < after.len() && 0 <= b < after.len() && a != b implies key_at(
                        after,
                        a,
                    ) != key_at(after, b) by {
                        assert(key_at(after, a) == key_at(before, a));
                        assert(key_at(after, b) == key_at(before, b));
                    }
                    assert forall|x: T::V| #[trigger]
                        to_map(after).dom().contains(x) == to_map(before).insert(
                            k,
                            now,
                        ).dom().contains(x) by {
                        if to_map(after).dom().contains(x) {
                            let p = lemma_member_has_place(after, x);
                            assert(key_at(before, p) == x);
                        }
                        if to_map(before).dom().contains(x) {
                            let p = lemma_member_has_place(before, x);
                            assert(key_at(after, p) == x);
                        }
                        if x == k {
                            assert(key_at(after, i as int) == x);
                        }
                    }
                    assert forall|x: T::V| to_map(after).dom().contains(x) implies #[trigger]
                        to_map(after)[x] == to_map(before).insert(k, now)[x] by {
                        let p = lemma_member_has_place(after, x);
                        lemma_lookup(after, p);
                        if p != i {
                            assert(key_at(before, p) == x);
                            assert(key_at(before, i as int) == k);
                            lemma_lookup(before, p);
                        }
                    }
                    assert(to_map(after) =~= to_map(before).insert(k, now));
                }
                false
            },
            None => {
                self.entries.push(Entry { key, stamp: now });
                proof {
                    let after = self.entries@;
                    let n = before.len() as int;
                    lemma_absent(before, k);
                    assert forall|a: int, b: int|
                        0 <= a < after.len() && 0 <= b < after.len() && a != b implies key_at(
                        after,
                        a,
                    ) != key_at(after, b) by {
                        if a < n {
                            assert(key_at(after, a) == key_at(before, a));
                        }
                        if b < n {
                            assert(key_at(after, b) == key_at(before, b));
                        }
                    }
                    assert forall|x: T::V| #[trigger]
                        to_map(after).dom().contains(x) == to_map(before).insert(
                            k,
                            now,
                        ).dom().contains(x) by {
                        if to_map(after).dom().contains(x) {
                            let p = lemma_member_has_place(after, x);
                            if p < n {
                                assert(key_at(before, p) == x);
                            }
                        }
                        if to_map(before).dom().contains(x) {
                            let p = lemma_member_has_place(before, x);
                            assert(key_at(after, p) == x);
                        }
                        if x == k {
                            assert(key_at(after, n) == x);
                        }
                    }
                    assert forall|x: T::V| to_map(after).dom().contains(x) implies #[trigger]
                        to_map(after)[x] == to_map(before).insert(k, now)[x] by {
                        let p = lemma_member_has_place(after, x);
                        lemma_lookup(after, p);
                        if p < n {
                            assert(key_at(before, p) == x);
                            lemma_lookup(before, p);
                        }
                    }
                    assert(to_map(after) =~= to_map(before).insert(k, now));
                }
                true
            },
        }
    }

    /// Drops the members that have expired at time `now`, and no others.
    pub fn refresh_at(&mut self, now: u64)
        requires
            old(self).wf(),
        ensures
            final(self).wf(),
            final(self).spec_ttl() == old(self).spec_ttl(),
            final(self)@ == spec_refresh(old(self)@, now, old(self).spec_ttl()),
    {
        let ghost orig = self.entries@;
        let ttl = self.ttl;
        let mut kept: Vec<Entry<T>> = Vec::new();
        while self.entries.len() > 0
            invariant
                distinct(orig),
                self.ttl == ttl,
                self.entries@.len() <= orig.len(),
                self.entries@ == orig.take(self.entries@.len() as int),
                distinct(kept@),
                forall|j: int|
                    0 <= j < kept@.len() ==> !expired((#[trigger] kept@[j]).stamp, now, ttl),
                forall|j: int|
                    0 <= j < kept@.len() ==> found_from(
                        orig,
                        self.entries@.len() as int,
                        #[trigger] kept@[j],
                    ),
                forall|o: int|
                    self.entries@.len() <= o < orig.len() && !expired(orig[o].stamp, now, ttl)
                        ==> found_from(kept@, 0, #[trigger] orig[o]),
            decreases self.entries@.len(),
        {
            let ghost n = self.entries@.len() as int;
            let ghost kept_before = kept@;
            let popped = self.entries.pop();
            let entry = popped.unwrap();
            assert(entry == orig[n - 1]);
            assert(self.entries@ =~= orig.take(n - 1));
            if !is_expired(entry.stamp, now, ttl) {
                kept.push(entry);
            }
            proof {
                let after = kept@;
                let m = kept_before.len() as int;
                assert forall|a: int, b: int|
                    0 <= a < after.len() && 0 <= b < after.len() && a != b implies key_at(
                    after,
                    a,
                ) != key_at(after, b) by {
                    if a < m && b < m {
                        assert(key_at(kept_before, a) != key_at(kept_before, b));
                    } else if a < m {
                        let o = place_from(orig, n, kept_before[a]);
                        assert(key_at(orig, o) != key_at(orig, n - 1));
                    } else if b < m {
                        let o = place_from(orig, n, kept_before[b]);
                        assert(key_at(orig, o) != key_at(orig, n - 1));
                    }
                }
                assert forall|j: int| 0 <= j < after.len() implies found_from(
                    orig,
                    n - 1,
                    #[trigger] after[j],
                ) by {
                    if j < m {
                        let o = place_from(orig, n, kept_before[j]);
                        assert(orig[o] == after[j]);
                    } else {
                        assert(orig[n - 1] == after[j]);
                    }
                }
                assert forall|o: int|
                    n - 1 <= o < orig.len() && !expired(orig[o].stamp, now, ttl) implies found_from(
                    after,
                    0,
                    #[trigger] orig[o],
                ) by {
                    if o >= n {
                        let j = place_from(kept_before, 0, orig[o]);
                        assert(after[j] == orig[o]);
                    } else {
                        assert(after[m] == orig[o]);
                    }
                }
            }
        }
        self.entries = kept;
        proof {
            let after = self.entries@;
            let want = spec_refresh(to_map(orig), now, ttl);
            assert forall|x: T::V| #[trigger]
                to_map(after).dom().contains(x) == want.dom().contains(x) by {
                if to_map(after).dom().contains(x) {
                    let j = lemma_member_has_place(after, x);
                    let o = place_from(orig, 0, after[j]);
                    lemma_lookup(orig, o);
                }
                if want.dom().contains(x) {
                    let o = lemma_member_has_place(orig, x);
                    lemma_lookup(orig, o);
                    let j = place_from(after, 0, orig[o]);
                    assert(key_at(after, j) == x);
                }
            }
            assert forall|x: T::V| to_map(after).dom().contains(x) implies #[trigger]
                to_map(after)[x] == want[x] by {
                let j = lemma_member_has_place(after, x);
                lemma_lookup(after, j);
                let o = place_from(orig, 0, after[j]);
                lemma_lookup(orig, o);
            }
            assert(to_map(after) =~= want);
        }
    }

    /// The clock's present time.
    pub fn now(&self) -> u64 {
        self.clock.now()
    }

    /// Puts `key` in as of the clock's present time, and says whether it was
    /// new. Whatever the clock says, every other member stays as it was.
    pub fn insert(&mut self, key: T) -> (r: bool)
        requires
            old(self).wf(),
        ensures
            final(self).wf(),
            final(self).spec_ttl() == old(self).spec_ttl(),
            exists|now: u64| final(self)@ == #[trigger] old(self)@.insert(key@, now),
            r == !old(self)@.dom().contains(key@),
    {
        let now = self.clock.now();
        let ghost k = key@;
        let r = self.insert_at(key, now);
        assert(self@ == old(self)@.insert(k, now));
        r
    }

    /// Drops the members that have expired at the clock's present time, and
    /// no others.
    pub fn refresh(&mut self)
        requires
            old(self).wf(),
        ensures
            final(self).wf(),
            final(self).spec_ttl() == old(self).spec_ttl(),
            exists|now: u64|
                final(self)@ == #[trigger] spec_refresh(old(self)@, now, old(self).spec_ttl()),
    {
        let now = self.clock.now();
        self.refresh_at(now);
        assert(self@ == spec_refresh(old(self)@, now, old(self).spec_ttl()));
    }
}

/// Time to live: a member that was put in longer ago than the time to live
/// is still a member until the set is refreshed, and is none afterwards.
pub proof fn lemma_expired_member_is_dropped<K>(
    members: Map<K, u64>,
    key: K,
    stamp: u64,
    now: u64,
    ttl: u64,
)
    requires
        expired(stamp, now, ttl),
    ensures
        members.insert(key, stamp).dom().contains(key),
        !spec_refresh(members.insert(key, stamp), now, ttl).dom().contains(key),
{
}

/// A member that was put in no longer ago than the time to live stays through
/// a refresh, with its time.
pub proof fn lemma_fresh_member_stays<K>(
    members: Map<K, u64>,
    key: K,
    stamp: u64,
    now: u64,
    ttl: u64,
)
    requires
        !expired(stamp, now, ttl),
    ensures
        spec_refresh(members.insert(key, stamp), now, ttl).dom().contains(key),
        spec_refresh(members.insert(key, stamp), now, ttl)[key] == stamp,
{
}

/// Putting a member in drops no other member and changes no other time.
pub proof fn lemma_insert_drops_nothing<K>(members: Map<K, u64>, key: K, now: u64, other: K)
    requires
        members.dom().contains(other),
    ensures
        members.insert(key, now).dom().contains(other),
        other != key ==> members.insert(key, now)[other] == members[other],
{
}

/// A refresh at which no member has expired changes nothing.
pub proof fn lemma_refresh_without_expiry<K>(members: Map<K, u64>, now: u64, ttl: u64)
    requires
        forall|k: K| members.dom().contains(k) ==> !expired(#[trigger] members[k], now, ttl),
    ensures
        spec_refresh(members, now, ttl) == members,
{
    assert(spec_refresh(members, now, ttl) =~= members);
}

/// A refresh brings no member in and changes no time.
pub proof fn lemma_refresh_only_drops<K>(members: Map<K, u64>, now: u64, ttl: u64, key: K)
    requires
        spec_refresh(members, now, ttl).dom().contains(key),
    ensures
        members.dom().contains(key),
        spec_refresh(members, now, ttl)[key] == members[key],
{
}

} // verus!
