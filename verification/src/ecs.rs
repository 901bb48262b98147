//! A vector of components addressed by index, whose entries can be killed.
//!
//! A killed entry keeps its place, so the indices of the others never move;
//! it is simply never handed out again.

use vstd::prelude::*;

verus! {

/// One slot of a component vector.
struct Entity<T> {
    value: T,
    alive: bool,
}

/// The position of a component in its vector.
#[derive(Debug, Clone, Copy, PartialEq, Eq)]
pub struct Index(pub usize);

impl Index {
    /// Moves the index `rhs` places on.
    pub fn add_assign(&mut self, rhs: usize)
        requires
            old(self).0 + rhs <= usize::MAX,
        ensures
            final(self).0 == old(self).0 + rhs,
    {
        self.0 = self.0 + rhs;
    }
}

/// Components in the order they were pushed.
pub struct ComponentVec<T> {
    entities: Vec<Entity<T>>,
}

/// What the slot at `i` holds, seen from outside: its value while it lives,
/// `None` once killed or past the end.
pub open spec fn slot<T>(slots: Seq<Option<T>>, i: int) -> Option<T> {
    if 0 <= i < slots.len() {
        slots[i]
    } else {
        None
    }
}

/// The slots after killing the one at `i` (nothing changes past the end).
pub open spec fn killed<T>(slots: Seq<Option<T>>, i: int) -> Seq<Option<T>> {
    if 0 <= i < slots.len() {
        slots.update(i, None)
    } else {
        slots
    }
}

/// The outside view of one slot.
spec fn entity_view<T>(e: Entity<T>) -> Option<T> {
    if e.alive {
        Some(e.value)
    } else {
        None
    }
}

impl<T> View for ComponentVec<T> {
    type V = Seq<Option<T>>;

    closed spec fn view(&self) -> Seq<Option<T>> {
        self.entities@.map_values(|e: Entity<T>| entity_view(e))
    }
}

impl<T> ComponentVec<T> {
    /// An empty vector.
    pub fn new() -> (r: Self)
        ensures
            r@ == Seq::<Option<T>>::empty(),
            r@ == replay(Seq::<VecChange<T>>::empty()),
    {
        let r = Self { entities: Vec::new() };
        assert(r@ =~= Seq::<Option<T>>::empty());
        r
    }

    /// The live component at `index`; `None` if it was killed or is past the
    /// end.
    pub fn get(&self, index: Index) -> (r: Option<&T>)
        ensures
            match r {
                Some(v) => slot(self@, index.0 as int) == Some(*v),
                None => slot(self@, index.0 as int) is None,
            },
    {
        if index.0 < self.entities.len() {
            let e = &self.entities[index.0];
            if e.alive {
                Some(&e.value)
            } else {
                None
            }
        } else {
            None
        }
    }

    /// The live component at `index`, to change in place; `None` if it was
    /// killed or is past the end.
    pub fn get_mut(&mut self, index: Index) -> (r: Option<&mut T>)
        ensures
            match r {
                Some(v) => {
                    &&& slot(old(self)@, index.0 as int) == Some(*v)
                    &&& final(self)@ == old(self)@.update(index.0 as int, Some(*final(v)))
                },
                None => {
                    &&& slot(old(self)@, index.0 as int) is None
                    &&& final(self)@ == old(self)@
                },
            },
    {
        if index.0 < self.entities.len() {
            let e = &mut self.entities[index.0];
            if e.alive {
                Some(&mut e.value)
            } else {
                None
            }
        } else {
            None
        }
    }

    /// Adds a live component after the others.
    pub fn push(&mut self, value: T)
        ensures
            final(self)@ == old(self)@.push(Some(value)),
            final(self)@ == changed(old(self)@, VecChange::Push(value)),
    {
        self.entities.push(Entity { value, alive: true });
        assert(self@ =~= old(self)@.push(Some(value)));
    }

    /// Kills the component at `index`, if there is one there.
    pub fn kill(&mut self, index: Index)
        ensures
            final(self)@ == killed(old(self)@, index.0 as int),
            final(self)@ == changed(old(self)@, VecChange::Kill(index.0)),
    {
        if index.0 < self.entities.len() {
            let e = &mut self.entities[index.0];
            e.alive = false;
        }
        assert(self@ =~= killed(old(self)@, index.0 as int));
    }
}

/// Walks a component vector from an index on.
pub struct ComponentVecIter<'a, T> {
    pub components: &'a ComponentVec<T>,
    pub next_index: Index,
}

impl<'a, T> ComponentVecIter<'a, T> {
    /// The live component at the current index, if any, moving one index on
    /// either way; a killed component ends the walk.
    pub fn next(&mut self) -> (r: Option<&'a T>)
        requires
            old(self).next_index.0 < usize::MAX,
        ensures
            final(self).components == old(self).components,
            final(self).next_index.0 == old(self).next_index.0 + 1,
            match r {
                Some(v) => slot(old(self).components@, old(self).next_index.0 as int) == Some(*v),
                None => slot(old(self).components@, old(self).next_index.0 as int) is None,
            },
    {
        let result = self.components.get(self.next_index);
        self.next_index.add_assign(1);
        result
    }
}

/// A component pushed onto a vector is found at the first free index, and
/// every other index keeps what it held.
pub proof fn lemma_get_after_push<T>(slots: Seq<Option<T>>, value: T, i: int)
    ensures
        slot(slots.push(Some(value)), slots.len() as int) == Some(value),
        i != slots.len() ==> slot(slots.push(Some(value)), i) == slot(slots, i),
{
}

/// A killed component is never found again, and killing it leaves every
/// other index as it was.
pub proof fn lemma_get_after_kill<T>(slots: Seq<Option<T>>, k: int, i: int)
    ensures
        slot(killed(slots, k), k) is None,
        i != k ==> slot(killed(slots, i), k) == slot(slots, k),
        killed(slots, k).len() == slots.len(),
{
}

/// One change made to a component vector: a push, or a kill of an index.
pub enum VecChange<T> {
    Push(T),
    Kill(usize),
}

/// The slots after one change.
pub open spec fn changed<T>(slots: Seq<Option<T>>, c: VecChange<T>) -> Seq<Option<T>> {
    match c {
        VecChange::Push(v) => slots.push(Some(v)),
        VecChange::Kill(i) => killed(slots, i as int),
    }
}

/// The slots of a new vector after the changes `cs`, first to last.
pub open spec fn replay<T>(cs: Seq<VecChange<T>>) -> Seq<Option<T>>
    decreases cs.len(),
{
    if cs.len() == 0 {
        Seq::empty()
    } else {
        changed(replay(cs.drop_last()), cs.last())
    }
}

/// The number of pushes among `cs`.
pub open spec fn pushes<T>(cs: Seq<VecChange<T>>) -> nat
    decreases cs.len(),
{
    if cs.len() == 0 {
        0
    } else {
        pushes(cs.drop_last()) + if cs.last() is Push {
            1nat
        } else {
            0nat
        }
    }
}

/// The change `cs[p]` pushes `x` as push number `i` (from 0), and no later
/// change kills index `i`.
pub open spec fn live_push<T>(cs: Seq<VecChange<T>>, i: int, p: int, x: T) -> bool {
    &&& 0 <= p < cs.len()
    &&& cs[p] == VecChange::Push(x)
    &&& pushes(cs.take(p)) == i
    &&& forall|q: int| p < q < cs.len() ==> !(#[trigger] cs[q] matches VecChange::Kill(k) && k == i)
}

/// Counting pushes over a longer prefix never gives fewer.
proof fn lemma_pushes_grow<T>(cs: Seq<VecChange<T>>, a: int, b: int)
    requires
        0 <= a <= b <= cs.len(),
    ensures
        pushes(cs.take(a)) <= pushes(cs.take(b)),
    decreases b - a,
{
    if a < b {
        assert(cs.take(b).drop_last() =~= cs.take(b - 1));
        lemma_pushes_grow(cs, a, b - 1);
    }
}

/// After any pushes and kills on a new vector, index `i` holds `x` exactly
/// when some push put `x` there (it was push number `i`) and no later kill
/// named `i`; every other index, including any past the end, holds nothing.
/// The vector has one slot per push.
pub proof fn lemma_replay<T>(cs: Seq<VecChange<T>>, i: int, x: T)
    ensures
        replay(cs).len() == pushes(cs),
        slot(replay(cs), i) == Some(x) <==> exists|p: int| live_push(cs, i, p, x),
    decreases cs.len(),
{
    if cs.len() > 0 {
        let pre = cs.drop_last();
        let n = cs.len() - 1;
        lemma_replay(pre, i, x);
        assert(cs.take(n) =~= pre);
        assert forall|p: int| 0 <= p < n implies #[trigger] cs.take(p) == pre.take(p) by {
            assert(cs.take(p) =~= pre.take(p));
        }
        assert forall|p: int| 0 <= p < n && live_push(pre, i, p, x)
            && !(cs[n] matches VecChange::Kill(k) && k == i) implies live_push(cs, i, p, x) by {
            assert(cs.take(p) == pre.take(p));
            assert forall|q: int| p < q < cs.len() implies !(#[trigger] cs[q] matches VecChange::Kill(
                k,
            ) && k == i) by {
                if q < n {
                    assert(cs[q] == pre[q]);
                }
            }
        }
        assert forall|p: int| 0 <= p < n && live_push(cs, i, p, x) implies live_push(pre, i, p, x) by {
            assert(cs.take(p) == pre.take(p));
            assert forall|q: int| p < q < pre.len() implies !(#[trigger] pre[q] matches VecChange::Kill(
                k,
            ) && k == i) by {
                assert(cs[q] == pre[q]);
            }
        }
        match cs[n] {
            VecChange::Push(v) => {
                assert(replay(cs) == replay(pre).push(Some(v)));
                assert(i != replay(pre).len() ==> slot(replay(cs), i) == slot(replay(pre), i));
                if slot(replay(cs), i) == Some(x) {
                    if i == replay(pre).len() {
                        assert(pushes(cs.take(n)) == i);
                        assert(live_push(cs, i, n, x));
                    } else {
                        let p = choose|p: int| live_push(pre, i, p, x);
                        assert(live_push(cs, i, p, x));
                    }
                }
                if exists|p: int| live_push(cs, i, p, x) {
                    let p = choose|p: int| live_push(cs, i, p, x);
                    if p < n {
                        assert(live_push(pre, i, p, x));
                        lemma_pushes_grow(cs, p + 1, n);
                        assert(cs.take(p + 1).drop_last() =~= cs.take(p));
                    }
                }
            },
            VecChange::Kill(k) => {
                assert(replay(cs) == killed(replay(pre), k as int));
                assert(k != i ==> slot(replay(cs), i) == slot(replay(pre), i));
                if slot(replay(cs), i) == Some(x) {
                    let p = choose|p: int| live_push(pre, i, p, x);
                    assert(live_push(cs, i, p, x));
                }
                if exists|p: int| live_push(cs, i, p, x) {
                    let p = choose|p: int| live_push(cs, i, p, x);
                    assert(live_push(pre, i, p, x));
                }
            },
        }
    }
}

} // verus!
