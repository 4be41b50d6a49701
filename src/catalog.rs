//! The catalog: a mapping from item name to item record, with insert-or-replace,
//! update-in-place and enumeration.

use vstd::prelude::*;

verus! {

/// One stock-keeping unit: its name and a count in `0..=255`. A catalog
/// stores only records with non-empty names.
#[derive(Debug)]
pub struct Item {
    pub name: String,
    pub quantity: u8,
}

impl PartialEq for Item {
    fn eq(&self, o: &Item) -> (r: bool) {
        self.name == o.name && self.quantity == o.quantity
    }
}

impl vstd::std_specs::cmp::PartialEqSpecImpl for Item {
    open spec fn obeys_eq_spec() -> bool {
        true
    }

    open spec fn eq_spec(&self, o: &Item) -> bool {
        self.name@ == o.name@ && self.quantity == o.quantity
    }
}

/// The set of items, at most one per name.
pub struct Collection {
    items: Vec<Item>,
}

impl View for Collection {
    type V = Map<Seq<char>, u8>;

    /// Each stored name mapped to the quantity of its record.
    closed spec fn view(&self) -> Map<Seq<char>, u8> {
        Map::new(
            |k: Seq<char>| exists|i: int| 0 <= i < self.items@.len() && self.items@[i].name@ == k,
            |k: Seq<char>|
                self.items@[choose|i: int|
                    0 <= i < self.items@.len() && self.items@[i].name@ == k].quantity,
        )
    }
}

impl Collection {
    /// Names are non-empty and no two records share a name.
    pub closed spec fn wf(&self) -> bool {
        &&& forall|i: int| 0 <= i < self.items@.len() ==> self.items@[i].name@.len() > 0
        &&& forall|i: int, j: int|
            0 <= i < j < self.items@.len() ==> self.items@[i].name@ != self.items@[j].name@
    }

    /// An empty catalog.
    pub fn new() -> (r: Self)
        ensures
            r.wf(),
            r@ == Map::<Seq<char>, u8>::empty(),
    {
        let r = Collection { items: Vec::new() };
        assert(r@ =~= Map::<Seq<char>, u8>::empty());
        r
    }

    /// The record at `i` is what the view holds for its name.
    proof fn lemma_view_at(&self, i: int)
        requires
            self.wf(),
            0 <= i < self.items@.len(),
        ensures
            self@.contains_key(self.items@[i].name@),
            self@[self.items@[i].name@] == self.items@[i].quantity,
    {
        let k = self.items@[i].name@;
        assert(self@.dom().contains(k));
        let j = choose|j: int| 0 <= j < self.items@.len() && self.items@[j].name@ == k;
        if j < i {
            assert(self.items@[j].name@ != self.items@[i].name@);
        } else if i < j {
            assert(self.items@[i].name@ != self.items@[j].name@);
        }
    }

    /// Replacing one record by another of the same name sets that name's
    /// quantity and leaves the rest of the view as it was.
    proof fn lemma_replace_at(before: Self, after: Self, i: int)
        requires
            before.wf(),
            0 <= i < before.items@.len(),
            after.items@ == before.items@.update(i, after.items@[i]),
            after.items@[i].name@ == before.items@[i].name@,
        ensures
            after.wf(),
            after@ == before@.insert(before.items@[i].name@, after.items@[i].quantity),
    {
        let k = before.items@[i].name@;
        let q = after.items@[i].quantity;
        assert forall|a: int| 0 <= a < after.items@.len() implies
            after.items@[a].name@ == before.items@[a].name@ by {}
        assert(after.wf());
        assert forall|key: Seq<char>|
            #[trigger] after@.contains_key(key) == before@.insert(k, q).contains_key(key) by {
            if after@.contains_key(key) {
                let a = choose|a: int| 0 <= a < after.items@.len() && after.items@[a].name@ == key;
                before.lemma_view_at(a);
            }
            if before@.contains_key(key) {
                let a = choose|a: int| 0 <= a < before.items@.len() && before.items@[a].name@ == key;
                after.lemma_view_at(a);
            }
            after.lemma_view_at(i);
        }
        assert forall|key: Seq<char>| #[trigger] after@.contains_key(key) implies
            after@[key] == before@.insert(k, q)[key] by {
            let a = choose|a: int| 0 <= a < after.items@.len() && after.items@[a].name@ == key;
            after.lemma_view_at(a);
            if a != i {
                before.lemma_view_at(a);
            }
        }
        assert(after@ =~= before@.insert(k, q));
    }

    /// The index of the record named `name`, if there is one.
    fn position(&self, name: &String) -> (r: Option<usize>)
        requires
            self.wf(),
        ensures
            match r {
                Some(i) => i < self.items@.len() && self.items@[i as int].name@ == name@,
                None => forall|i: int|
                    0 <= i < self.items@.len() ==> self.items@[i].name@ != name@,
            },
    {
        let mut i: usize = 0;
        while i < self.items.len()
            invariant
                i <= self.items@.len(),
                forall|j: int| 0 <= j < i ==> self.items@[j].name@ != name@,
            decreases self.items@.len() - i,
        {
            if self.items[i].name == *name {
                return Some(i);
            }
            i += 1;
        }
        None
    }

    /// Inserts a record for `name`, replacing the record already stored under
    /// that name, if any: the last write wins, quantities are not added up.
    pub fn add_item(&mut self, name: String, quantity: u8)
        requires
            old(self).wf(),
            name@.len() > 0,
        ensures
            final(self).wf(),
            final(self)@ == old(self)@.insert(name@, quantity),
    {
        let ghost before = *self;
        let ghost k = name@;
        match self.position(&name) {
            Some(i) => {
                self.items.set(i, Item { name, quantity });
                proof {
                    Self::lemma_replace_at(before, *self, i as int);
                }
            },
            None => {
                self.items.push(Item { name, quantity });
                proof {
                    let n = before.items@.len() as int;
                    assert(self.wf());
                    assert forall|key: Seq<char>|
                        #[trigger] self@.contains_key(key) == before@.insert(k, quantity).contains_key(key)
                        by {
                        if self@.contains_key(key) {
                            let a = choose|a: int| 0 <= a < self.items@.len() && self.items@[a].name@ == key;
                            if a < n {
                                before.lemma_view_at(a);
                            }
                        }
                        if before@.contains_key(key) {
                            let a = choose|a: int| 0 <= a < before.items@.len() && before.items@[a].name@ == key;
                            self.lemma_view_at(a);
                        }
                        self.lemma_view_at(n);
                    }
                    assert forall|key: Seq<char>| #[trigger] self@.contains_key(key) implies
                        self@[key] == before@.insert(k, quantity)[key] by {
                        let a = choose|a: int| 0 <= a < self.items@.len() && self.items@[a].name@ == key;
                        self.lemma_view_at(a);
                        if a < n {
                            before.lemma_view_at(a);
                        }
                    }
                    assert(self@ =~= before@.insert(k, quantity));
                }
            },
        }
    }

    /// Sets the quantity of the record named `name` and reports `Updated`; where
    /// no record has that name, changes nothing and reports `NotFound`. Never
    /// inserts.
    pub fn update_item(&mut self, name: String, quantity: u8) -> (r: UpdateOutcome)
        requires
            old(self).wf(),
        ensures
            final(self).wf(),
            (r == UpdateOutcome::Updated) == old(self)@.contains_key(name@),
            old(self)@.contains_key(name@) ==> final(self)@ == old(self)@.insert(name@, quantity),
            !old(self)@.contains_key(name@) ==> final(self)@ == old(self)@,
            final(self)@.dom() == old(self)@.dom(),
            forall|k: Seq<char>|
                k != name@ && #[trigger] old(self)@.contains_key(k) ==> final(self)@[k] == old(
                    self,
                )@[k],
    {
        let ghost before = *self;
        match self.position(&name) {
            Some(i) => {
                self.items[i].quantity = quantity;
                proof {
                    Self::lemma_replace_at(before, *self, i as int);
                    assert(final(self)@.dom() =~= old(self)@.dom());
                }
                UpdateOutcome::Updated
            },
            None => {
                proof {
                    assert(!before@.contains_key(name@));
                }
                UpdateOutcome::NotFound
            },
        }
    }

    /// A snapshot of every record, one per stored name, or `Empty` where the
    /// catalog holds nothing.
    pub fn list_item(&self) -> (r: Listing)
        requires
            self.wf(),
        ensures
            (r is Empty) == (self@ == Map::<Seq<char>, u8>::empty()),
            r matches Listing::Items(v) ==> lists_exactly(v@, self@),
    {
        if self.items.len() == 0 {
            assert(self@ =~= Map::<Seq<char>, u8>::empty());
            return Listing::Empty;
        }
        proof {
            self.lemma_view_at(0);
        }
        let mut out: Vec<Item> = Vec::new();
        let mut i: usize = 0;
        while i < self.items.len()
            invariant
                i <= self.items@.len(),
                out@.len() == i,
                forall|j: int|
                    0 <= j < i ==> #[trigger] out@[j].name@ == self.items@[j].name@
                        && out@[j].quantity == self.items@[j].quantity,
            decreases self.items@.len() - i,
        {
            let item = Item { name: self.items[i].name.clone(), quantity: self.items[i].quantity };
            out.push(item);
            i += 1;
        }
        proof {
            assert forall|a: int| 0 <= a < out@.len() implies #[trigger] self@.contains_key(
                out@[a].name@,
            ) && self@[out@[a].name@] == out@[a].quantity by {
                self.lemma_view_at(a);
            }
            assert forall|k: Seq<char>| #[trigger] self@.contains_key(k) implies exists|a: int|
                0 <= a < out@.len() && out@[a].name@ == k by {
                let a = choose|a: int| 0 <= a < self.items@.len() && self.items@[a].name@ == k;
                assert(out@[a].name@ == k);
            }
            assert forall|a: int, b: int| 0 <= a < b < out@.len() implies out@[a].name@
                != out@[b].name@ by {
                assert(out@[a].name@ == self.items@[a].name@);
                assert(out@[b].name@ == self.items@[b].name@);
            }
        }
        Listing::Items(out)
    }
}

/// What `update_item` reports.
#[derive(PartialEq, Eq, Structural, Clone, Copy, Debug)]
pub enum UpdateOutcome {
    Updated,
    NotFound,
}

/// What `list_item` hands back: an explicit `Empty`, or the records.
#[derive(Debug)]
pub enum Listing {
    Empty,
    Items(Vec<Item>),
}

/// `v` holds exactly the entries of `m`: each record is an entry, each stored
/// name has a record, and no name has two.
pub open spec fn lists_exactly(v: Seq<Item>, m: Map<Seq<char>, u8>) -> bool {
    &&& forall|i: int|
        0 <= i < v.len() ==> #[trigger] m.contains_key(v[i].name@) && m[v[i].name@]
            == v[i].quantity
    &&& forall|k: Seq<char>| #[trigger]
        m.contains_key(k) ==> exists|i: int| 0 <= i < v.len() && v[i].name@ == k
    &&& forall|i: int, j: int| 0 <= i < j < v.len() ==> v[i].name@ != v[j].name@
}

/// The (name, quantity) pairs that the records of `v` carry.
pub open spec fn records(v: Seq<Item>) -> Set<(Seq<char>, u8)> {
    Set::new(
        |p: (Seq<char>, u8)| exists|i: int| 0 <= i < v.len() && v[i].name@ == p.0 && v[i].quantity == p.1,
    )
}

} // verus!
