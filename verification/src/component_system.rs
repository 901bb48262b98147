//! Components kept by identifier, where every insertion gets an identifier
//! that was never handed out before.

use std::collections::hash_map::Entry;
use std::collections::HashMap;
use vstd::prelude::*;

verus! {

broadcast use vstd::std_specs::hash::group_hash_axioms;

/// The identifier of a component.
#[derive(Debug, Clone, Copy, PartialEq, Eq, Hash)]
pub struct Id(pub usize);

/// Components by identifier, with the identifier the next insertion gets.
pub struct ComponentSystem<T> {
    data: HashMap<usize, T>,
    next_id: Id,
}

/// A component system as mathematical values: the components by the number
/// of their identifier, and the number the next insertion gets.
pub struct ComponentSystemView<T> {
    pub components: Map<usize, T>,
    pub next_id: int,
}

impl<T> View for ComponentSystem<T> {
    type V = ComponentSystemView<T>;

    closed spec fn view(&self) -> ComponentSystemView<T> {
        ComponentSystemView { components: self.data@, next_id: self.next_id.0 as int }
    }
}

/// The entries of `m` listed in `entries`: each exactly once, with its value.
pub open spec fn lists_entries<K, V>(entries: Seq<(K, V)>, m: Map<K, V>) -> bool {
    &&& entries.len() == m.len()
    &&& forall|i: int|
        0 <= i < entries.len() ==> #[trigger] m.contains_key(entries[i].0) && m[entries[i].0]
            == entries[i].1
    &&& forall|k: K| #[trigger] m.contains_key(k) ==> exists|i: int|
        0 <= i < entries.len() && #[trigger] entries[i].0 == k
    &&& forall|i: int, j: int|
        0 <= i < j < entries.len() ==> #[trigger] entries[i].0 != #[trigger] entries[j].0
}

impl<T> ComponentSystem<T> {
    /// Every identifier in use is below the next one to be handed out.
    pub closed spec fn well_formed(&self) -> bool {
        forall|k: usize| #[trigger] self.data@.contains_key(k) ==> k < self.next_id.0
    }

    /// An empty system whose first identifier is 0.
    pub fn new() -> (r: Self)
        ensures
            r.well_formed(),
            r@.components == Map::<usize, T>::empty(),
            r@.next_id == 0,
            r@ == system_replay(Seq::<SystemChange<T>>::empty()),
    {
        Self { data: HashMap::new(), next_id: Id(0) }
    }

    /// Stores `value` under a new identifier and returns it.
    pub fn insert(&mut self, value: T) -> (r: Id)
        requires
            old(self).well_formed(),
            old(self)@.next_id < usize::MAX,
        ensures
            final(self).well_formed(),
            r.0 == old(self)@.next_id,
            !old(self)@.components.contains_key(r.0),
            final(self)@.components == old(self)@.components.insert(r.0, value),
            final(self)@.next_id == old(self)@.next_id + 1,
            final(self)@ == system_after(old(self)@, SystemChange::Insert(value)),
    {
        let id = self.next_id;
        self.data.insert(id.0, value);
        self.next_id = Id(self.next_id.0 + 1);
        id
    }

    /// Reserves a new identifier, builds the component for it with
    /// `factory`, and stores it; when `factory` fails, its error is returned,
    /// nothing is stored, and the identifier stays used.
    pub fn insert_factory<E>(&mut self, factory: impl FnOnce(Id) -> Result<T, E>) -> (r: Result<
        Id,
        E,
    >)
        requires
            old(self).well_formed(),
            old(self)@.next_id < usize::MAX,
            factory.requires((Id(old(self)@.next_id as usize),)),
        ensures
            final(self).well_formed(),
            final(self)@.next_id == old(self)@.next_id + 1,
            match r {
                Ok(id) => {
                    &&& id.0 == old(self)@.next_id
                    &&& !old(self)@.components.contains_key(id.0)
                    &&& final(self)@.components.contains_key(id.0)
                    &&& factory.ensures((id,), Ok(final(self)@.components[id.0]))
                    &&& final(self)@.components == old(self)@.components.insert(
                        id.0,
                        final(self)@.components[id.0],
                    )
                },
                Err(e) => {
                    &&& factory.ensures((Id(old(self)@.next_id as usize),), Err(e))
                    &&& final(self)@.components == old(self)@.components
                },
            },
            match r {
                Ok(id) => final(self)@ == system_after(
                    old(self)@,
                    SystemChange::Insert(final(self)@.components[id.0]),
                ),
                Err(_) => final(self)@ == system_after(old(self)@, SystemChange::FailedInsert),
            },
    {
        let id = self.next_id;
        self.next_id = Id(self.next_id.0 + 1);
        match factory(id) {
            Ok(value) => {
                self.data.insert(id.0, value);
                Ok(id)
            },
            Err(e) => Err(e),
        }
    }

    /// The component stored under `index`, if any.
    pub fn get(&self, index: Id) -> (r: Option<&T>)
        ensures
            match r {
                Some(v) => self@.components.contains_key(index.0) && self@.components[index.0]
                    == *v,
                None => !self@.components.contains_key(index.0),
            },
    {
        self.data.get(&index.0)
    }

    /// The component stored under `index`, to change in place, if any.
    pub fn get_mut(&mut self, index: Id) -> (r: Option<&mut T>)
        requires
            old(self).well_formed(),
        ensures
            final(self).well_formed(),
            final(self)@.next_id == old(self)@.next_id,
            match r {
                Some(v) => {
                    &&& old(self)@.components.contains_key(index.0)
                    &&& *v == old(self)@.components[index.0]
                    &&& final(self)@.components == old(self)@.components.insert(
                        index.0,
                        *final(v),
                    )
                    &&& final(self)@ == system_after(
                        old(self)@,
                        SystemChange::Change(index.0, *final(v)),
                    )
                },
                None => {
                    &&& !old(self)@.components.contains_key(index.0)
                    &&& final(self)@.components == old(self)@.components
                },
            },
    {
        match self.data.entry(index.0) {
            Entry::Occupied(o) => Some(o.into_mut()),
            Entry::Vacant(_) => None,
        }
    }

    /// Drops the component stored under `index`, if any.
    pub fn remove(&mut self, index: Id)
        requires
            old(self).well_formed(),
        ensures
            final(self).well_formed(),
            final(self)@.components == old(self)@.components.remove(index.0),
            final(self)@.next_id == old(self)@.next_id,
            final(self)@ == system_after(old(self)@, SystemChange::Remove(index.0)),
    {
        self.data.remove(&index.0);
    }

    /// Drops every component; identifiers already handed out stay used.
    pub fn clear(&mut self)
        requires
            old(self).well_formed(),
        ensures
            final(self).well_formed(),
            final(self)@.components == Map::<usize, T>::empty(),
            final(self)@.next_id == old(self)@.next_id,
            final(self)@ == system_after(old(self)@, SystemChange::Clear),
    {
        self.data.clear();
    }

    /// Every component with its identifier, each to change in place, in no
    /// particular order.
    pub fn iter_mut(&mut self) -> (r: Vec<(Id, &mut T)>)
        requires
            old(self).well_formed(),
        ensures
            final(self).well_formed(),
            final(self)@.next_id == old(self)@.next_id,
            lists_entries(r@.map_values(|e: (Id, &mut T)| (e.0.0, *e.1)), old(self)@.components),
            final(self)@.components.dom() == old(self)@.components.dom(),
            forall|i: int|
                #![trigger r@[i]]
                0 <= i < r@.len() ==> final(self)@.components[r@[i].0.0] == *final(r@[i].1),
    {
        let mut entries = entries_mut(&mut self.data);
        let ghost all = entries@;
        let mut out: Vec<(Id, &mut T)> = Vec::new();
        while entries.len() > 0
            invariant
                entries@.len() + out@.len() == all.len(),
                forall|i: int| 0 <= i < entries@.len() ==> #[trigger] entries@[i] == all[i],
                forall|i: int|
                    0 <= i < out@.len() ==> #[trigger] out@[i] == (
                        Id(*all[all.len() - 1 - i].0),
                        all[all.len() - 1 - i].1,
                    ),
            decreases entries@.len(),
        {
            let e = entries.pop().unwrap();
            let item = (Id(*e.0), e.1);
            out.push(item);
        }
        proof {
            lemma_reversed_lists(
                out@.map_values(|e: (Id, &mut T)| (e.0.0, *e.1)),
                all.map_values(|e: (&usize, &mut T)| (*e.0, *e.1)),
                old(self)@.components,
            );
        }
        out
    }

    /// Every component with its identifier, in no particular order.
    pub fn iter(&self) -> (r: Vec<(Id, &T)>)
        ensures
            lists_entries(r@.map_values(|e: (Id, &T)| (e.0.0, *e.1)), self@.components),
    {
        let iter = self.data.iter();
        let ghost entries = vstd::std_specs::iter::IteratorSpec::remaining(&iter);
        let mut out: Vec<(Id, &T)> = Vec::new();
        for e in it: iter
            invariant
                it.seq() == entries,
                out@.len() == it.index(),
                forall|i: int|
                    0 <= i < it.index() ==> #[trigger] out@[i] == (Id(*entries[i].0), entries[i].1),
        {
            let (k, v) = e;
            out.push((Id(*k), v));
        }
        proof {
            lemma_lists_map_entries(out@.map_values(|e: (Id, &T)| (e.0.0, *e.1)), entries, self.data@);
        }
        out
    }
}

/// After storing `v` under `k`, a lookup of `k` finds `v` and a lookup of
/// any other identifier finds what it found before; after removing `k`, a
/// lookup of `k` finds nothing and the others are unchanged.
pub proof fn lemma_lookup_after_update<T>(components: Map<usize, T>, k: usize, v: T, j: usize)
    ensures
        components.insert(k, v).contains_key(k),
        components.insert(k, v)[k] == v,
        !components.remove(k).contains_key(k),
        j != k ==> (components.insert(k, v).contains_key(j) == components.contains_key(j)
            && components.remove(k).contains_key(j) == components.contains_key(j)),
        j != k && components.contains_key(j) ==> components.insert(k, v)[j] == components[j]
            && components.remove(k)[j] == components[j],
{
}

/// Hands out every entry of `m`, each value to change in place, by
/// `HashMap::iter_mut`, in the map's own order. Claimed, as the standard
/// library documents: every entry comes exactly once, with its value; the
/// entries stay those of the map, and a value changed through its reference
/// is the map's value afterwards.
#[verifier::external_body]
pub(crate) fn entries_mut<K, V>(m: &mut HashMap<K, V>) -> (r: Vec<(&K, &mut V)>)
    requires
        vstd::std_specs::hash::obeys_key_model::<K>(),
    ensures
        lists_entries(r@.map_values(|e: (&K, &mut V)| (*e.0, *e.1)), old(m)@),
        final(m)@.dom() == old(m)@.dom(),
        forall|i: int| #![trigger r@[i]] 0 <= i < r@.len() ==> final(m)@[*r@[i].0] == *final(r@[i].1),
{
    m.iter_mut().collect()
}

/// Removing what an insertion under a fresh key stored gives back the map
/// as it was: `remove` undoes `insert`.
pub proof fn lemma_remove_undoes_insert<K, V>(m: Map<K, V>, k: K, v: V)
    requires
        !m.contains_key(k),
    ensures
        m.insert(k, v).remove(k) == m,
{
    assert(m.insert(k, v).remove(k) =~= m);
}

/// One change made to a component system.
pub enum SystemChange<T> {
    /// `insert`, or `insert_factory` whose factory built the component.
    Insert(T),
    /// `insert_factory` whose factory failed: its identifier is used up.
    FailedInsert,
    /// A component changed in place (`get_mut`, `iter_mut`).
    Change(usize, T),
    /// `remove`.
    Remove(usize),
    /// `clear`.
    Clear,
}

/// A component system after one change.
pub open spec fn system_after<T>(s: ComponentSystemView<T>, c: SystemChange<T>) -> ComponentSystemView<T> {
    match c {
        SystemChange::Insert(v) => ComponentSystemView {
            components: s.components.insert(s.next_id as usize, v),
            next_id: s.next_id + 1,
        },
        SystemChange::FailedInsert => ComponentSystemView {
            components: s.components,
            next_id: s.next_id + 1,
        },
        SystemChange::Change(k, v) => if s.components.contains_key(k) {
            ComponentSystemView { components: s.components.insert(k, v), next_id: s.next_id }
        } else {
            s
        },
        SystemChange::Remove(k) => ComponentSystemView {
            components: s.components.remove(k),
            next_id: s.next_id,
        },
        SystemChange::Clear => ComponentSystemView {
            components: Map::empty(),
            next_id: s.next_id,
        },
    }
}

/// A new component system after the changes `cs`, first to last.
pub open spec fn system_replay<T>(cs: Seq<SystemChange<T>>) -> ComponentSystemView<T>
    decreases cs.len(),
{
    if cs.len() == 0 {
        ComponentSystemView { components: Map::empty(), next_id: 0 }
    } else {
        system_after(system_replay(cs.drop_last()), cs.last())
    }
}

/// The number of insertions among `cs`, failed ones included.
pub open spec fn insertions<T>(cs: Seq<SystemChange<T>>) -> nat
    decreases cs.len(),
{
    if cs.len() == 0 {
        0
    } else {
        insertions(cs.drop_last()) + if cs.last() is Insert || cs.last() is FailedInsert {
            1nat
        } else {
            0nat
        }
    }
}

/// The change `cs[p]` stores a component as insertion number `k` (from 0),
/// and no later change removes `k` or clears the system.
pub open spec fn live_insert<T>(cs: Seq<SystemChange<T>>, k: int, p: int) -> bool {
    &&& 0 <= p < cs.len()
    &&& cs[p] is Insert
    &&& insertions(cs.take(p)) == k
    &&& forall|q: int|
        p < q < cs.len() ==> !(#[trigger] cs[q] matches SystemChange::Remove(j) && j == k) && !(
        cs[q] is Clear)
}

/// The value most recently stored under `k` among `cs`: by the insertion
/// that gave `k`, or by a later change in place.
pub open spec fn latest<T>(cs: Seq<SystemChange<T>>, k: int) -> Option<T>
    decreases cs.len(),
{
    if cs.len() == 0 {
        None
    } else {
        let pre = cs.drop_last();
        match cs.last() {
            SystemChange::Insert(v) => if insertions(pre) == k {
                Some(v)
            } else {
                latest(pre, k)
            },
            SystemChange::Change(j, v) => if j == k {
                Some(v)
            } else {
                latest(pre, k)
            },
            _ => latest(pre, k),
        }
    }
}

/// After any changes to a new component system: the next identifier is the
/// number of insertions so far, failed ones included, so an identifier is
/// never handed out twice, even after removals or a clear; an identifier has
/// a component exactly when an insertion gave it and no later removal of it
/// or clear took it away; and that component is the value most recently
/// stored under it. (Identifiers are counted in a `usize`, so at most
/// `usize::MAX` insertions are considered.)
pub proof fn lemma_system_replay<T>(cs: Seq<SystemChange<T>>, k: usize)
    requires
        insertions(cs) <= usize::MAX,
    ensures
        system_replay(cs).next_id == insertions(cs),
        system_replay(cs).components.contains_key(k) <==> exists|p: int| live_insert(cs, k as int, p),
        system_replay(cs).components.contains_key(k) ==> k < system_replay(cs).next_id,
        system_replay(cs).components.contains_key(k) ==> latest(cs, k as int) == Some(
            system_replay(cs).components[k],
        ),
    decreases cs.len(),
{
    if cs.len() > 0 {
        let pre = cs.drop_last();
        let n = cs.len() - 1;
        let ki = k as int;
        lemma_system_replay(pre, k);
        assert(cs.take(n) =~= pre);
        assert forall|p: int| 0 <= p < n implies #[trigger] cs.take(p) == pre.take(p) by {
            assert(cs.take(p) =~= pre.take(p));
        }
        assert forall|p: int|
            0 <= p < n && live_insert(pre, ki, p) && !(cs[n] matches SystemChange::Remove(j) && j == k)
                && !(cs[n] is Clear) implies live_insert(cs, ki, p) by {
            assert(cs.take(p) == pre.take(p));
            assert forall|q: int| p < q < cs.len() implies !(#[trigger] cs[q] matches SystemChange::Remove(
                j,
            ) && j == ki) && !(cs[q] is Clear) by {
                if q < n {
                    assert(cs[q] == pre[q]);
                }
            }
        }
        assert forall|p: int| 0 <= p < n && live_insert(cs, ki, p) implies live_insert(pre, ki, p) by {
            assert(cs.take(p) == pre.take(p));
            assert forall|q: int| p < q < pre.len() implies !(#[trigger] pre[q] matches SystemChange::Remove(
                j,
            ) && j == ki) && !(pre[q] is Clear) by {
                assert(cs[q] == pre[q]);
            }
        }
        let old_s = system_replay(pre);
        assert(old_s.next_id as usize == old_s.next_id);
        match cs[n] {
            SystemChange::Insert(v) => {
                if system_replay(cs).components.contains_key(k) {
                    if ki == old_s.next_id {
                        assert(insertions(cs.take(n)) == ki);
                        assert(live_insert(cs, ki, n));
                    } else {
                        let p = choose|p: int| live_insert(pre, ki, p);
                        assert(live_insert(cs, ki, p));
                    }
                }
                if exists|p: int| live_insert(cs, ki, p) {
                    let p = choose|p: int| live_insert(cs, ki, p);
                    if p < n {
                        assert(live_insert(pre, ki, p));
                    }
                }
            },
            SystemChange::FailedInsert => {
                if system_replay(cs).components.contains_key(k) {
                    let p = choose|p: int| live_insert(pre, ki, p);
                    assert(live_insert(cs, ki, p));
                }
                if exists|p: int| live_insert(cs, ki, p) {
                    let p = choose|p: int| live_insert(cs, ki, p);
                    assert(live_insert(pre, ki, p));
                }
            },
            SystemChange::Change(j, v) => {
                if system_replay(cs).components.contains_key(k) {
                    let p = choose|p: int| live_insert(pre, ki, p);
                    assert(live_insert(cs, ki, p));
                }
                if exists|p: int| live_insert(cs, ki, p) {
                    let p = choose|p: int| live_insert(cs, ki, p);
                    assert(live_insert(pre, ki, p));
                }
            },
            SystemChange::Remove(j) => {
                if system_replay(cs).components.contains_key(k) {
                    let p = choose|p: int| live_insert(pre, ki, p);
                    assert(live_insert(cs, ki, p));
                }
                if exists|p: int| live_insert(cs, ki, p) {
                    let p = choose|p: int| live_insert(cs, ki, p);
                    assert(live_insert(pre, ki, p));
                }
            },
            SystemChange::Clear => {
                if exists|p: int| live_insert(cs, ki, p) {
                    let p = choose|p: int| live_insert(cs, ki, p);
                    assert(live_insert(pre, ki, p));
                }
            },
        }
    }
}

/// A list of entries read backwards lists the same entries.
proof fn lemma_reversed_lists<K, V>(rev: Seq<(K, V)>, fwd: Seq<(K, V)>, m: Map<K, V>)
    requires
        lists_entries(fwd, m),
        rev.len() == fwd.len(),
        forall|i: int| 0 <= i < rev.len() ==> #[trigger] rev[i] == fwd[fwd.len() - 1 - i],
    ensures
        lists_entries(rev, m),
{
    let n = fwd.len() as int;
    assert forall|i: int| 0 <= i < rev.len() implies #[trigger] m.contains_key(rev[i].0) && m[rev[i].0]
        == rev[i].1 by {
        assert(rev[i] == fwd[n - 1 - i]);
        assert(m.contains_key(fwd[n - 1 - i].0));
    }
    assert forall|k: K| #[trigger] m.contains_key(k) implies exists|i: int|
        0 <= i < rev.len() && #[trigger] rev[i].0 == k by {
        let j = choose|j: int| 0 <= j < fwd.len() && #[trigger] fwd[j].0 == k;
        assert(rev[n - 1 - j] == fwd[j]);
    }
    assert forall|i: int, j: int| 0 <= i < j < rev.len() implies #[trigger] rev[i].0
        != #[trigger] rev[j].0 by {
        assert(rev[i] == fwd[n - 1 - i]);
        assert(rev[j] == fwd[n - 1 - j]);
    }
}

/// A list that agrees, place by place, with the entries of a hash map's
/// iterator lists the map's entries.
pub(crate) proof fn lemma_lists_map_entries<K, V>(
    listed: Seq<(K, V)>,
    entries: Seq<(&K, &V)>,
    m: Map<K, V>,
)
    requires
        listed.len() == entries.len(),
        forall|i: int| 0 <= i < listed.len() ==> #[trigger] listed[i] == (*entries[i].0, *entries[i].1),
        entries.len() == m.dom().len(),
        entries.no_duplicates(),
        forall|i: int|
            #![trigger m.contains_key(*entries[i].0)]
            0 <= i < entries.len() ==> m.contains_key(*entries[i].0) && m[*entries[i].0] == *entries[i].1,
        forall|k: K| #[trigger] m.contains_key(k) ==> entries.contains((&k, &m[k])),
    ensures
        lists_entries(listed, m),
{
    assert forall|i: int| 0 <= i < listed.len() implies #[trigger] m.contains_key(listed[i].0)
        && m[listed[i].0] == listed[i].1 by {
        assert(m.contains_key(*entries[i].0));
    }
    assert forall|k: K| #[trigger] m.contains_key(k) implies exists|i: int|
        0 <= i < listed.len() && #[trigger] listed[i].0 == k by {
        assert(entries.contains((&k, &m[k])));
        let i = choose|i: int| 0 <= i < entries.len() && entries[i] == (&k, &m[k]);
        assert(listed[i].0 == k);
    }
    assert forall|i: int, j: int| 0 <= i < j < listed.len() implies #[trigger] listed[i].0
        != #[trigger] listed[j].0 by {
        if listed[i].0 == listed[j].0 {
            assert(m.contains_key(*entries[i].0));
            assert(m.contains_key(*entries[j].0));
            assert(entries[i] == entries[j]);
        }
    }
}

} // verus!
