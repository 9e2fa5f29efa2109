use vstd::prelude::*;

verus! {

/// Number of distinct 32-bit identifiers.
pub open spec fn id_space() -> int {
    0x1_0000_0000
}

/// A table of rows keyed by 32-bit identifiers that this side allocates:
/// a new row always takes the smallest identifier not in use.
pub struct IdTable<T> {
    slots: Vec<Option<T>>,
}

impl<T> View for IdTable<T> {
    type V = Map<u32, T>;

    closed spec fn view(&self) -> Map<u32, T> {
        Map::new(
            |k: u32| (k as int) < self.slots@.len() && self.slots@[k as int] is Some,
            |k: u32| self.slots@[k as int]->Some_0,
        )
    }
}

/// Every identifier below `id` is in use in `m`.
pub open spec fn all_below_used<T>(m: Map<u32, T>, id: u32) -> bool {
    forall|j: u32| j < id ==> #[trigger] m.contains_key(j)
}

impl<T> IdTable<T> {
    pub closed spec fn wf(&self) -> bool {
        self.slots@.len() <= id_space()
    }

    pub fn new() -> (r: Self)
        ensures
            r.wf(),
            r@ == Map::<u32, T>::empty(),
    {
        let r = IdTable { slots: Vec::new() };
        assert(r@ =~= Map::<u32, T>::empty());
        r
    }

    /// Inserts `value` under the smallest free identifier and returns it;
    /// `None` when every identifier is taken.
    pub fn insert(&mut self, value: T) -> (r: Option<u32>)
        requires
            old(self).wf(),
        ensures
            final(self).wf(),
            match r {
                Some(id) => {
                    &&& !old(self)@.contains_key(id)
                    &&& all_below_used(old(self)@, id)
                    &&& final(self)@ == old(self)@.insert(id, value)
                },
                None => {
                    &&& forall|j: u32| #[trigger] old(self)@.contains_key(j)
                    &&& *final(self) == *old(self)
                },
            },
    {
        let n = self.slots.len();
        let mut i: usize = 0;
        while i < n
            invariant
                *self == *old(self),
                n == self.slots@.len(),
                n <= id_space(),
                i <= n,
                forall|j: int| 0 <= j < i ==> self.slots@[j] is Some,
            decreases n - i,
        {
            if self.slots[i].is_none() {
                let ghost prev = self@;
                self.slots.set(i, Some(value));
                let id = i as u32;
                assert(self@ =~= prev.insert(id, value));
                assert(all_below_used(prev, id)) by {
                    assert forall|j: u32| j < id implies #[trigger] prev.contains_key(j) by {
                        assert(self.slots@[j as int] is Some);
                    }
                }
                return Some(id);
            }
            i = i + 1;
        }
        if n <= u32::MAX as usize {
            let ghost prev = self@;
            self.slots.push(Some(value));
            let id = n as u32;
            assert(self@ =~= prev.insert(id, value));
            assert(all_below_used(prev, id)) by {
                assert forall|j: u32| j < id implies #[trigger] prev.contains_key(j) by {
                    assert(self.slots@[j as int] is Some);
                }
            }
            Some(id)
        } else {
            assert forall|j: u32| #[trigger] self@.contains_key(j) by {
                assert(self.slots@[j as int] is Some);
            }
            None
        }
    }

    pub fn get(&self, id: u32) -> (r: Option<&T>)
        ensures
            match r {
                Some(v) => self@.contains_key(id) && *v == self@[id],
                None => !self@.contains_key(id),
            },
    {
        let i = id as usize;
        if i < self.slots.len() {
            match &self.slots[i] {
                Some(v) => Some(v),
                None => None,
            }
        } else {
            None
        }
    }

    pub fn contains(&self, id: u32) -> (r: bool)
        ensures
            r == self@.contains_key(id),
    {
        self.get(id).is_some()
    }

    /// Takes the row out of the table.
    pub fn remove(&mut self, id: u32) -> (r: Option<T>)
        requires
            old(self).wf(),
        ensures
            final(self).wf(),
            final(self)@ == old(self)@.remove(id),
            match r {
                Some(v) => old(self)@.contains_key(id) && v == old(self)@[id],
                None => !old(self)@.contains_key(id),
            },
    {
        let ghost prev = self@;
        let i = id as usize;
        if i < self.slots.len() {
            let mut out: Option<T> = None;
            self.slots.set_and_swap(i, &mut out);
            assert(self@ =~= prev.remove(id));
            out
        } else {
            assert(self@ =~= prev.remove(id));
            None
        }
    }

    /// Replaces the row under an identifier in use.
    pub fn replace(&mut self, id: u32, value: T)
        requires
            old(self).wf(),
            old(self)@.contains_key(id),
        ensures
            final(self).wf(),
            final(self)@ == old(self)@.insert(id, value),
    {
        let ghost prev = self@;
        self.slots.set(id as usize, Some(value));
        assert(self@ =~= prev.insert(id, value));
    }

    /// Puts `value` in the row under an identifier in use and returns what
    /// was there.
    pub fn swap_row(&mut self, id: u32, value: T) -> (r: T)
        requires
            old(self).wf(),
            old(self)@.contains_key(id),
        ensures
            final(self).wf(),
            final(self)@ == old(self)@.insert(id, value),
            r == old(self)@[id],
    {
        let ghost prev = self@;
        let mut v = Some(value);
        self.slots.set_and_swap(id as usize, &mut v);
        assert(self@ =~= prev.insert(id, value));
        v.unwrap()
    }

    /// The identifiers in use, in increasing order.
    pub fn ids(&self) -> (r: Vec<u32>)
        requires
            self.wf(),
        ensures
            forall|k: int| 0 <= k < r@.len() ==> self@.contains_key(#[trigger] r@[k]),
            forall|id: u32| self@.contains_key(id) ==> r@.contains(id),
            forall|a: int, b: int| 0 <= a < b < r@.len() ==> r@[a] < r@[b],
    {
        let mut r: Vec<u32> = Vec::new();
        let n = self.slots.len();
        let mut i: usize = 0;
        while i < n
            invariant
                n == self.slots@.len(),
                n <= id_space(),
                i <= n,
                forall|k: int| 0 <= k < r@.len() ==> self@.contains_key(#[trigger] r@[k]),
                forall|k: int| 0 <= k < r@.len() ==> (r@[k] as int) < i,
                forall|id: u32| (id as int) < i && self@.contains_key(id) ==> r@.contains(id),
                forall|a: int, b: int| 0 <= a < b < r@.len() ==> r@[a] < r@[b],
            decreases n - i,
        {
            if self.slots[i].is_some() {
                let ghost before = r@;
                r.push(i as u32);
                assert forall|id: u32| (id as int) < i + 1 && self@.contains_key(id) implies r@.contains(id) by {
                    if (id as int) < i {
                        assert(before.contains(id));
                        let k = choose|k: int| 0 <= k < before.len() && before[k] == id;
                        assert(r@[k] == id);
                    } else {
                        assert(r@[before.len() as int] == id);
                    }
                }
            }
            i = i + 1;
        }
        r
    }

    /// Empties the table.
    pub fn clear(&mut self)
        ensures
            final(self).wf(),
            final(self)@ == Map::<u32, T>::empty(),
    {
        self.slots = Vec::new();
        assert(self@ =~= Map::<u32, T>::empty());
    }
}

} // verus!
