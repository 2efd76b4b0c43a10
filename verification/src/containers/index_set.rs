use vstd::prelude::*;

verus! {

/// A set of connection identifiers that remembers the order of insertion.
pub struct IndexSet {
    items: Vec<usize>,
}

impl View for IndexSet {
    type V = Seq<usize>;

    closed spec fn view(&self) -> Seq<usize> {
        self.items@
    }
}

impl IndexSet {
    /// No identifier occurs twice.
    pub open spec fn wf(&self) -> bool {
        self@.no_duplicates()
    }

    /// Whether `token` is in the set.
    pub open spec fn has(&self, token: usize) -> bool {
        self@.contains(token)
    }

    /// The identifiers of the set after `token` has been taken out of it by
    /// putting the last identifier in its place.
    pub open spec fn without(&self, token: usize) -> Seq<usize> {
        if self.has(token) {
            self@.update(self@.index_of(token), self@.last()).drop_last()
        } else {
            self@
        }
    }

    /// The empty set.
    pub fn new() -> (r: IndexSet)
        ensures
            r.wf(),
            r@ == Seq::<usize>::empty(),
    {
        IndexSet { items: Vec::new() }
    }

    /// The number of identifiers in the set.
    pub fn len(&self) -> (n: usize)
        ensures
            n == self@.len(),
    {
        self.items.len()
    }

    pub fn is_empty(&self) -> (r: bool)
        ensures
            r == (self@.len() == 0),
    {
        self.items.len() == 0
    }

    /// The position of `token`, if it is in the set.
    pub fn get_index_of(&self, token: usize) -> (r: Option<usize>)
        ensures
            r is Some <==> self.has(token),
            r matches Some(i) ==> i < self@.len() && self@[i as int] == token,
    {
        let mut i: usize = 0;
        while i < self.items.len()
            invariant
                i <= self.items@.len(),
                forall|k: int| 0 <= k < i ==> self.items@[k] != token,
            decreases self.items@.len() - i,
        {
            if self.items[i] == token {
                return Some(i);
            }
            i += 1;
        }
        None
    }

    pub fn contains(&self, token: usize) -> (r: bool)
        ensures
            r == self.has(token),
    {
        self.get_index_of(token).is_some()
    }

    /// The identifier at position `index`, if there is one.
    pub fn get_index(&self, index: usize) -> (r: Option<usize>)
        ensures
            r == if index < self@.len() {
                Some(self@[index as int])
            } else {
                None
            },
    {
        if index < self.items.len() {
            Some(self.items[index])
        } else {
            None
        }
    }

    /// Adds `token` at the end unless it is there already. Tells whether it was added.
    pub fn insert(&mut self, token: usize) -> (added: bool)
        requires
            old(self).wf(),
        ensures
            final(self).wf(),
            added == !old(self).has(token),
            final(self)@ == if added {
                old(self)@.push(token)
            } else {
                old(self)@
            },
    {
        if self.contains(token) {
            false
        } else {
            self.items.push(token);
            true
        }
    }

    /// Removes `token` by putting the last identifier in its place. Tells
    /// whether it was there.
    pub fn swap_remove(&mut self, token: usize) -> (removed: bool)
        requires
            old(self).wf(),
        ensures
            final(self).wf(),
            removed == old(self).has(token),
            !final(self).has(token),
            forall|t: usize| t != token ==> (final(self).has(t) <==> old(self).has(t)),
            final(self)@ == old(self).without(token),
    {
        match self.get_index_of(token) {
            None => false,
            Some(i) => {
                let ghost before = self.items@;
                let last = self.items.len() - 1;
                let moved = self.items[last];
                self.items.set(i, moved);
                self.items.pop();
                proof {
                    let after = self.items@;
                    let j = before.index_of(token);
                    assert(0 <= j < before.len() && before[j] == token);
                    assert(j == i);
                    assert(after =~= before.update(j, before.last()).drop_last());
                    assert forall|a: int, b: int|
                        0 <= a < after.len() && 0 <= b < after.len() && a != b implies after[a]
                        != after[b] by {
                        let a0 = if a == i as int { last as int } else { a };
                        let b0 = if b == i as int { last as int } else { b };
                        assert(after[a] == before[a0]);
                        assert(after[b] == before[b0]);
                    }
                    assert forall|t: usize| t != token implies (after.contains(t)
                        <==> before.contains(t)) by {
                        if before.contains(t) {
                            let k = choose|k: int| 0 <= k < before.len() && before[k] == t;
                            let k1 = if k == last as int { i as int } else { k };
                            assert(after[k1] == t);
                        }
                        if after.contains(t) {
                            let k = choose|k: int| 0 <= k < after.len() && after[k] == t;
                            let k0 = if k == i as int { last as int } else { k };
                            assert(before[k0] == t);
                        }
                    }
                    if after.contains(token) {
                        let k = choose|k: int| 0 <= k < after.len() && after[k] == token;
                        let k0 = if k == i as int { last as int } else { k };
                        assert(before[k0] == token);
                        assert(before[i as int] == token);
                    }
                }
                true
            },
        }
    }

    /// Taking an identifier out of a set leaves the others in it.
    pub proof fn lemma_without(&self, token: usize)
        requires
            self.wf(),
        ensures
            !self.without(token).contains(token),
            forall|t: usize| t != token ==> (self.without(token).contains(t) <==> self.has(t)),
            self.without(token).no_duplicates(),
    {
        let before = self@;
        let after = self.without(token);
        if self.has(token) {
            let i = before.index_of(token);
            assert(0 <= i < before.len() && before[i] == token);
            let last = before.len() - 1;
            assert forall|a: int, b: int|
                0 <= a < after.len() && 0 <= b < after.len() && a != b implies after[a]
                != after[b] by {
                let a0 = if a == i { last } else { a };
                let b0 = if b == i { last } else { b };
                assert(after[a] == before[a0]);
                assert(after[b] == before[b0]);
            }
            assert forall|t: usize| t != token implies (after.contains(t) <==> before.contains(
                t,
            )) by {
                if before.contains(t) {
                    let k = choose|k: int| 0 <= k < before.len() && before[k] == t;
                    let k1 = if k == last { i } else { k };
                    assert(after[k1] == t);
                }
                if after.contains(t) {
                    let k = choose|k: int| 0 <= k < after.len() && after[k] == t;
                    let k0 = if k == i { last } else { k };
                    assert(before[k0] == t);
                }
            }
            if after.contains(token) {
                let k = choose|k: int| 0 <= k < after.len() && after[k] == token;
                let k0 = if k == i { last } else { k };
                assert(before[k0] == token);
            }
        }
    }

    /// The identifiers in order, as a list of their own.
    pub fn snapshot(&self) -> (r: Vec<usize>)
        ensures
            r@ == self@,
    {
        self.items.clone()
    }
}

} // verus!
