use vstd::prelude::*;

verus! {

/// A sparse association from entity index to component value, with no
/// invariant beyond storage itself. Viewed as a finite `Map` from index to
/// component.
pub struct Storage<C> {
    slots: Vec<Option<C>>,
}

impl<C> View for Storage<C> {
    type V = Map<int, C>;

    closed spec fn view(&self) -> Map<int, C> {
        Map::new(
            |i: int| 0 <= i < self.slots@.len() && self.slots@[i] is Some,
            |i: int| self.slots@[i]->Some_0,
        )
    }
}

impl<C> Storage<C> {
    pub fn new() -> (s: Storage<C>)
        ensures
            s@ == Map::<int, C>::empty(),
    {
        let s = Storage { slots: Vec::new() };
        proof {
            assert(s@ =~= Map::<int, C>::empty());
        }
        s
    }

    pub fn contains(&self, id: usize) -> (b: bool)
        ensures
            b == self@.dom().contains(id as int),
    {
        id < self.slots.len() && self.slots[id].is_some()
    }

    pub fn get(&self, id: usize) -> (r: Option<&C>)
        ensures
            r matches Some(c) ==> self@.dom().contains(id as int) && *c == self@[id as int],
            r is None ==> !self@.dom().contains(id as int),
    {
        if id < self.slots.len() {
            self.slots[id].as_ref()
        } else {
            None
        }
    }

    /// Attaches `c` to `id`, replacing any component already there.
    pub fn insert(&mut self, id: usize, c: C)
        requires
            id < usize::MAX,
        ensures
            final(self)@ == old(self)@.insert(id as int, c),
    {
        while self.slots.len() <= id
            invariant
                id < usize::MAX,
                self.slots@.len() >= old(self).slots@.len(),
                forall|i: int|
                    0 <= i < old(self).slots@.len() ==> self.slots@[i] == old(self).slots@[i],
                forall|i: int|
                    old(self).slots@.len() <= i < self.slots@.len() ==> self.slots@[i] is None,
            decreases id + 1 - self.slots@.len(),
        {
            self.slots.push(None);
        }
        self.slots[id] = Some(c);
        proof {
            assert(self@ =~= old(self)@.insert(id as int, c));
        }
    }

    /// Detaches the component of `id`, if any, and hands it to the caller.
    pub fn take(&mut self, id: usize) -> (r: Option<C>)
        ensures
            final(self)@ == old(self)@.remove(id as int),
            r matches Some(c) ==> old(self)@.dom().contains(id as int) && c == old(
                self,
            )@[id as int],
            r is None ==> !old(self)@.dom().contains(id as int),
    {
        if id < self.slots.len() {
            let slot = vstd::std_specs::vec::vec_index_mut(&mut self.slots, id);
            let mut tmp: Option<C> = None;
            core::mem::swap(slot, &mut tmp);
            proof {
                assert(self@ =~= old(self)@.remove(id as int));
            }
            tmp
        } else {
            proof {
                assert(self@ =~= old(self)@.remove(id as int));
            }
            None
        }
    }

    /// Detaches the component of `id`, if any, and drops it.
    pub fn remove(&mut self, id: usize)
        ensures
            final(self)@ == old(self)@.remove(id as int),
    {
        if id < self.slots.len() {
            self.slots[id] = None;
        }
        proof {
            assert(self@ =~= old(self)@.remove(id as int));
        }
    }
}

/// The capability of a component store to hand over the components that were
/// removed from it since the last drain. The maintenance step relies on this
/// to reclaim physics bodies only after the component-level removal is final.
pub trait Retained<C>: Sized {
    /// The buffered components, oldest removal first.
    spec fn retained_view(&self) -> Seq<C>;

    /// The live contents, as a map from entity index to component.
    spec fn store_map(&self) -> Map<int, C>;

    /// Atomically empties the buffer of removed components and returns it.
    fn retained(&mut self) -> (r: Vec<C>)
        ensures
            r@ == old(self).retained_view(),
            final(self).retained_view() == Seq::<C>::empty(),
            final(self).store_map() == old(self).store_map();
}

/// A component store that buffers every removed component instead of
/// discarding it, until the buffer is drained at a maintenance boundary.
pub struct RetainedStorage<C> {
    storage: Storage<C>,
    retained: Vec<C>,
}

impl<C> View for RetainedStorage<C> {
    type V = Map<int, C>;

    closed spec fn view(&self) -> Map<int, C> {
        self.storage@
    }
}

impl<C> Default for RetainedStorage<C> {
    fn default() -> (s: Self)
        ensures
            s@ == Map::<int, C>::empty(),
            s.retained_view() == Seq::<C>::empty(),
    {
        RetainedStorage { storage: Storage::new(), retained: Vec::new() }
    }
}

impl<C: Copy> RetainedStorage<C> {
    pub fn contains(&self, id: usize) -> (b: bool)
        ensures
            b == self@.dom().contains(id as int),
    {
        self.storage.contains(id)
    }

    pub fn get(&self, id: usize) -> (r: Option<&C>)
        ensures
            r matches Some(c) ==> self@.dom().contains(id as int) && *c == self@[id as int],
            r is None ==> !self@.dom().contains(id as int),
    {
        self.storage.get(id)
    }

    /// Attaches `c` to `id`. A component replaced this way is dropped, not
    /// buffered: only removal retains.
    pub fn insert(&mut self, id: usize, c: C)
        requires
            id < usize::MAX,
        ensures
            final(self)@ == old(self)@.insert(id as int, c),
            final(self).retained_view() == old(self).retained_view(),
    {
        self.storage.insert(id, c);
    }

    /// Detaches the component of `id`, if any, and buffers it for the next
    /// drain.
    pub fn remove(&mut self, id: usize)
        ensures
            final(self)@ == old(self)@.remove(id as int),
            old(self)@.dom().contains(id as int) ==> final(self).retained_view()
                == old(self).retained_view().push(old(self)@[id as int]),
            !old(self)@.dom().contains(id as int) ==> final(self).retained_view()
                == old(self).retained_view(),
    {
        match self.storage.get(id) {
            Some(c) => {
                let c = *c;
                self.storage.remove(id);
                self.retained.push(c);
            },
            None => {},
        }
    }
}

/// The live contents of a `RetainedStorage` and the `store_map` the
/// `Retained` trait speaks of are the same map.
pub proof fn lemma_view_is_store_map<C>(s: RetainedStorage<C>)
    ensures
        s@ == s.store_map(),
{
}

impl<C> Retained<C> for RetainedStorage<C> {
    closed spec fn retained_view(&self) -> Seq<C> {
        self.retained@
    }

    closed spec fn store_map(&self) -> Map<int, C> {
        self.storage@
    }

    fn retained(&mut self) -> (r: Vec<C>)
        ensures
            r@ == old(self).retained_view(),
            final(self).retained_view() == Seq::<C>::empty(),
            final(self).store_map() == old(self).store_map(),
    {
        let mut r: Vec<C> = Vec::new();
        core::mem::swap(&mut self.retained, &mut r);
        r
    }
}

} // verus!
