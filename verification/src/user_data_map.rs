//! Values kept by the 128-bit user data of physics objects. Identifiers
//! start at 1, since the physics engine gives every object 0 by default.

use std::collections::hash_map::Entry;
use std::collections::HashMap;
use vstd::prelude::*;

use crate::component_system::{entries_mut, lemma_lists_map_entries, lists_entries};

verus! {

broadcast use vstd::std_specs::hash::group_hash_axioms;

/// Values by identifier, with the identifier the next insertion gets.
pub struct UserDataMap<T> {
    data: HashMap<u128, T>,
    next: u128,
}

/// A user-data map as mathematical values.
pub struct UserDataMapView<T> {
    pub values: Map<u128, T>,
    pub next: int,
}

impl<T> View for UserDataMap<T> {
    type V = UserDataMapView<T>;

    closed spec fn view(&self) -> UserDataMapView<T> {
        UserDataMapView { values: self.data@, next: self.next as int }
    }
}

impl<T> UserDataMap<T> {
    /// Every identifier in use lies between 1 and the next one to be handed
    /// out.
    pub closed spec fn well_formed(&self) -> bool {
        &&& 1 <= self.next
        &&& forall|k: u128| #[trigger] self.data@.contains_key(k) ==> 1 <= k < self.next
    }

    /// An empty map whose first identifier is 1.
    pub fn new() -> (r: Self)
        ensures
            r.well_formed(),
            r@.values == Map::<u128, T>::empty(),
            r@.next == 1,
            r@ == data_replay(Seq::<DataChange<T>>::empty()),
    {
        Self { data: HashMap::new(), next: 1 }
    }

    /// Every value with its identifier, in no particular order.
    pub fn iter(&self) -> (r: Vec<(&u128, &T)>)
        ensures
            lists_entries(r@.map_values(|e: (&u128, &T)| (*e.0, *e.1)), self@.values),
    {
        let iter = self.data.iter();
        let ghost entries = vstd::std_specs::iter::IteratorSpec::remaining(&iter);
        let mut out: Vec<(&u128, &T)> = Vec::new();
        for e in it: iter
            invariant
                it.seq() == entries,
                out@.len() == it.index(),
                forall|i: int| 0 <= i < it.index() ==> #[trigger] out@[i] == entries[i],
        {
            out.push(e);
        }
        proof {
            lemma_lists_map_entries(out@.map_values(|e: (&u128, &T)| (*e.0, *e.1)), entries, self.data@);
        }
        out
    }

    /// Every value with its identifier, each to change in place, in no
    /// particular order.
    pub fn iter_mut(&mut self) -> (r: Vec<(&u128, &mut T)>)
        requires
            old(self).well_formed(),
        ensures
            final(self).well_formed(),
            final(self)@.next == old(self)@.next,
            lists_entries(r@.map_values(|e: (&u128, &mut T)| (*e.0, *e.1)), old(self)@.values),
            final(self)@.values.dom() == old(self)@.values.dom(),
            forall|i: int|
                #![trigger r@[i]]
                0 <= i < r@.len() ==> final(self)@.values[*r@[i].0] == *final(r@[i].1),
    {
        entries_mut(&mut self.data)
    }

    /// The value stored under `id`, if any.
    pub fn get(&self, id: u128) -> (r: Option<&T>)
        ensures
            match r {
                Some(v) => self@.values.contains_key(id) && self@.values[id] == *v,
                None => !self@.values.contains_key(id),
            },
    {
        self.data.get(&id)
    }

    /// The value stored under `id`, to change in place, if any.
    pub fn get_mut(&mut self, id: u128) -> (r: Option<&mut T>)
        requires
            old(self).well_formed(),
        ensures
            final(self).well_formed(),
            final(self)@.next == old(self)@.next,
            match r {
                Some(v) => {
                    &&& old(self)@.values.contains_key(id)
                    &&& *v == old(self)@.values[id]
                    &&& final(self)@.values == old(self)@.values.insert(id, *final(v))
                    &&& final(self)@ == data_after(old(self)@, DataChange::Change(id, *final(v)))
                },
                None => {
                    &&& !old(self)@.values.contains_key(id)
                    &&& final(self)@.values == old(self)@.values
                },
            },
    {
        match self.data.entry(id) {
            Entry::Occupied(o) => Some(o.into_mut()),
            Entry::Vacant(_) => None,
        }
    }

    /// Stores `value` under a new identifier and returns it.
    pub fn insert(&mut self, value: T) -> (r: u128)
        requires
            old(self).well_formed(),
            old(self)@.next < u128::MAX,
        ensures
            final(self).well_formed(),
            r == old(self)@.next,
            r != 0,
            !old(self)@.values.contains_key(r),
            final(self)@.values == old(self)@.values.insert(r, value),
            final(self)@.next == old(self)@.next + 1,
            final(self)@ == data_after(old(self)@, DataChange::Insert(value)),
    {
        let id = self.next;
        self.data.insert(id, value);
        self.next = self.next + 1;
        id
    }

    /// Reserves a new identifier, builds the value for it with `factory`,
    /// and stores it; when `factory` fails, its error is returned, nothing is
    /// stored, and the identifier stays used.
    pub fn insert_factory<E>(&mut self, factory: impl FnOnce(u128) -> Result<T, E>) -> (r: Result<
        u128,
        E,
    >)
        requires
            old(self).well_formed(),
            old(self)@.next < u128::MAX,
            factory.requires((old(self)@.next as u128,)),
        ensures
            final(self).well_formed(),
            final(self)@.next == old(self)@.next + 1,
            match r {
                Ok(id) => {
                    &&& id == old(self)@.next
                    &&& !old(self)@.values.contains_key(id)
                    &&& final(self)@.values.contains_key(id)
                    &&& factory.ensures((id,), Ok(final(self)@.values[id]))
                    &&& final(self)@.values == old(self)@.values.insert(
                        id,
                        final(self)@.values[id],
                    )
                },
                Err(e) => {
                    &&& factory.ensures((old(self)@.next as u128,), Err(e))
                    &&& final(self)@.values == old(self)@.values
                },
            },
            match r {
                Ok(id) => final(self)@ == data_after(
                    old(self)@,
                    DataChange::Insert(final(self)@.values[id]),
                ),
                Err(_) => final(self)@ == data_after(old(self)@, DataChange::FailedInsert),
            },
    {
        let id = self.next;
        self.next = self.next + 1;
        match factory(id) {
            Ok(value) => {
                self.data.insert(id, value);
                Ok(id)
            },
            Err(e) => Err(e),
        }
    }

    /// Takes out the value stored under `id`, if any.
    pub fn remove(&mut self, id: u128) -> (r: Option<T>)
        requires
            old(self).well_formed(),
        ensures
            final(self).well_formed(),
            final(self)@.values == old(self)@.values.remove(id),
            final(self)@.next == old(self)@.next,
            final(self)@ == data_after(old(self)@, DataChange::Remove(id)),
            match r {
                Some(v) => old(self)@.values.contains_key(id) && old(self)@.values[id] == v,
                None => !old(self)@.values.contains_key(id),
            },
    {
        self.data.remove(&id)
    }

    /// Drops every value; identifiers already handed out stay used.
    pub fn clear(&mut self)
        requires
            old(self).well_formed(),
        ensures
            final(self).well_formed(),
            final(self)@.values == Map::<u128, T>::empty(),
            final(self)@.next == old(self)@.next,
            final(self)@ == data_after(old(self)@, DataChange::Clear),
    {
        self.data.clear();
    }
}

/// One change made to a user-data map.
pub enum DataChange<T> {
    /// `insert`, or `insert_factory` whose factory built the value.
    Insert(T),
    /// `insert_factory` whose factory failed: its identifier is used up.
    FailedInsert,
    /// A value changed in place (`get_mut`, `iter_mut`).
    Change(u128, T),
    /// `remove`.
    Remove(u128),
    /// `clear`.
    Clear,
}

/// A user-data map after one change.
pub open spec fn data_after<T>(s: UserDataMapView<T>, c: DataChange<T>) -> UserDataMapView<T> {
    match c {
        DataChange::Insert(v) => UserDataMapView {
            values: s.values.insert(s.next as u128, v),
            next: s.next + 1,
        },
        DataChange::FailedInsert => UserDataMapView {
            values: s.values,
            next: s.next + 1,
        },
        DataChange::Change(k, v) => if s.values.contains_key(k) {
            UserDataMapView { values: s.values.insert(k, v), next: s.next }
        } else {
            s
        },
        DataChange::Remove(k) => UserDataMapView {
            values: s.values.remove(k),
            next: s.next,
        },
        DataChange::Clear => UserDataMapView {
            values: Map::empty(),
            next: s.next,
        },
    }
}

/// A new user-data map after the changes `cs`, first to last.
pub open spec fn data_replay<T>(cs: Seq<DataChange<T>>) -> UserDataMapView<T>
    decreases cs.len(),
{
    if cs.len() == 0 {
        UserDataMapView { values: Map::empty(), next: 1 }
    } else {
        data_after(data_replay(cs.drop_last()), cs.last())
    }
}

/// The number of insertions among `cs`, failed ones included.
pub open spec fn data_insertions<T>(cs: Seq<DataChange<T>>) -> nat
    decreases cs.len(),
{
    if cs.len() == 0 {
        0
    } else {
        data_insertions(cs.drop_last()) + if cs.last() is Insert || cs.last() is FailedInsert {
            1nat
        } else {
            0nat
        }
    }
}

/// The change `cs[p]` stores a value as insertion number `k` (from 1),
/// and no later change removes `k` or clears the system.
pub open spec fn live_data_insert<T>(cs: Seq<DataChange<T>>, k: int, p: int) -> bool {
    &&& 0 <= p < cs.len()
    &&& cs[p] is Insert
    &&& data_insertions(cs.take(p)) + 1 == k
    &&& forall|q: int|
        p < q < cs.len() ==> !(#[trigger] cs[q] matches DataChange::Remove(j) && j == k) && !(
        cs[q] is Clear)
}

/// The value most recently stored under `k` among `cs`: by the insertion
/// that gave `k`, or by a later change in place.
pub open spec fn data_latest<T>(cs: Seq<DataChange<T>>, k: int) -> Option<T>
    decreases cs.len(),
{
    if cs.len() == 0 {
        None
    } else {
        let pre = cs.drop_last();
        match cs.last() {
            DataChange::Insert(v) => if data_insertions(pre) + 1 == k {
                Some(v)
            } else {
                data_latest(pre, k)
            },
            DataChange::Change(j, v) => if j == k {
                Some(v)
            } else {
                data_latest(pre, k)
            },
            _ => data_latest(pre, k),
        }
    }
}

/// After any changes to a new user-data map: identifiers start at 1 and the
/// next one is one more than the number of insertions so far, failed ones
/// included, so 0 is never used and no identifier is handed out twice, even
/// after removals or a clear; an identifier has a value exactly when an
/// insertion gave it and no later removal of it or clear took it away; and
/// that value is the one most recently stored under it. (Identifiers are
/// counted in a `u128`, so fewer than `u128::MAX` insertions are considered.)
pub proof fn lemma_data_replay<T>(cs: Seq<DataChange<T>>, k: u128)
    requires
        data_insertions(cs) < u128::MAX,
    ensures
        data_replay(cs).next == data_insertions(cs) + 1,
        data_replay(cs).values.contains_key(k) <==> exists|p: int| live_data_insert(cs, k as int, p),
        data_replay(cs).values.contains_key(k) ==> 1 <= k < data_replay(cs).next,
        data_replay(cs).values.contains_key(k) ==> data_latest(cs, k as int) == Some(
            data_replay(cs).values[k],
        ),
    decreases cs.len(),
{
    if cs.len() > 0 {
        let pre = cs.drop_last();
        let n = cs.len() - 1;
        let ki = k as int;
        lemma_data_replay(pre, k);
        assert(cs.take(n) =~= pre);
        assert forall|p: int| 0 <= p < n implies #[trigger] cs.take(p) == pre.take(p) by {
            assert(cs.take(p) =~= pre.take(p));
        }
        assert forall|p: int|
            0 <= p < n && live_data_insert(pre, ki, p) && !(cs[n] matches DataChange::Remove(j) && j == k)
                && !(cs[n] is Clear) implies live_data_insert(cs, ki, p) by {
            assert(cs.take(p) == pre.take(p));
            assert forall|q: int| p < q < cs.len() implies !(#[trigger] cs[q] matches DataChange::Remove(
                j,
            ) && j == ki) && !(cs[q] is Clear) by {
                if q < n {
                    assert(cs[q] == pre[q]);
                }
            }
        }
        assert forall|p: int| 0 <= p < n && live_data_insert(cs, ki, p) implies live_data_insert(pre, ki, p) by {
            assert(cs.take(p) == pre.take(p));
            assert forall|q: int| p < q < pre.len() implies !(#[trigger] pre[q] matches DataChange::Remove(
                j,
            ) && j == ki) && !(pre[q] is Clear) by {
                assert(cs[q] == pre[q]);
            }
        }
        let old_s = data_replay(pre);
        assert(old_s.next as u128 == old_s.next);
        match cs[n] {
            DataChange::Insert(v) => {
                if data_replay(cs).values.contains_key(k) {
                    if ki == old_s.next {
                        assert(data_insertions(cs.take(n)) + 1 == ki);
                        assert(live_data_insert(cs, ki, n));
                    } else {
                        let p = choose|p: int| live_data_insert(pre, ki, p);
                        assert(live_data_insert(cs, ki, p));
                    }
                }
                if exists|p: int| live_data_insert(cs, ki, p) {
                    let p = choose|p: int| live_data_insert(cs, ki, p);
                    if p < n {
                        assert(live_data_insert(pre, ki, p));
                    }
                }
            },
            DataChange::FailedInsert => {
                if data_replay(cs).values.contains_key(k) {
                    let p = choose|p: int| live_data_insert(pre, ki, p);
                    assert(live_data_insert(cs, ki, p));
                }
                if exists|p: int| live_data_insert(cs, ki, p) {
                    let p = choose|p: int| live_data_insert(cs, ki, p);
                    assert(live_data_insert(pre, ki, p));
                }
            },
            DataChange::Change(j, v) => {
                if data_replay(cs).values.contains_key(k) {
                    let p = choose|p: int| live_data_insert(pre, ki, p);
                    assert(live_data_insert(cs, ki, p));
                }
                if exists|p: int| live_data_insert(cs, ki, p) {
                    let p = choose|p: int| live_data_insert(cs, ki, p);
                    assert(live_data_insert(pre, ki, p));
                }
            },
            DataChange::Remove(j) => {
                if data_replay(cs).values.contains_key(k) {
                    let p = choose|p: int| live_data_insert(pre, ki, p);
                    assert(live_data_insert(cs, ki, p));
                }
                if exists|p: int| live_data_insert(cs, ki, p) {
                    let p = choose|p: int| live_data_insert(cs, ki, p);
                    assert(live_data_insert(pre, ki, p));
                }
            },
            DataChange::Clear => {
                if exists|p: int| live_data_insert(cs, ki, p) {
                    let p = choose|p: int| live_data_insert(cs, ki, p);
                    assert(live_data_insert(pre, ki, p));
                }
            },
        }
    }
}

/// Removing what an insertion just stored gives back its value and leaves
/// the other values as they were before the insertion; removing it again
/// finds nothing and changes nothing.
pub proof fn lemma_remove_after_insert<T>(s: UserDataMapView<T>, v: T)
    requires
        1 <= s.next < u128::MAX,
        !s.values.contains_key(s.next as u128),
    ensures
        ({
            let id = s.next as u128;
            let inserted = data_after(s, DataChange::Insert(v));
            let removed = data_after(inserted, DataChange::Remove(id));
            &&& id != 0
            &&& inserted.values.contains_key(id) && inserted.values[id] == v
            &&& removed.values == s.values
            &&& !removed.values.contains_key(id)
            &&& data_after(removed, DataChange::Remove(id)) == removed
        }),
{
    let id = s.next as u128;
    let inserted = data_after(s, DataChange::Insert(v));
    let removed = data_after(inserted, DataChange::Remove(id));
    assert(removed.values =~= s.values);
    assert(removed.values.remove(id) =~= removed.values);
}
} // verus!
