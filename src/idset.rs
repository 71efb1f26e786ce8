use vstd::prelude::*;

verus! {

/// The character sequences of a sequence of strings, in order.
pub open spec fn views(items: Seq<String>) -> Seq<Seq<char>> {
    items.map_values(|s: String| s@)
}

/// The first `n` elements of `s`, as a set: growing `n` by one adds `s[n]`.
pub proof fn lemma_prefix_set_step(s: Seq<Seq<char>>, n: int)
    requires
        0 <= n < s.len(),
    ensures
        s.subrange(0, n + 1).to_set() == s.subrange(0, n).to_set().insert(s[n]),
{
    let a = s.subrange(0, n);
    let b = s.subrange(0, n + 1);
    assert(b =~= a.push(s[n]));
    assert forall|x: Seq<char>| #[trigger] b.contains(x) implies a.contains(x) || x == s[n] by {
        let j = choose|j: int| 0 <= j < b.len() && b[j] == x;
        if j < n {
            assert(a[j] == x);
        }
    }
    assert forall|x: Seq<char>| a.contains(x) implies #[trigger] b.contains(x) by {
        let j = choose|j: int| 0 <= j < a.len() && a[j] == x;
        assert(b[j] == x);
    }
    assert(b[n] == s[n]);
    assert(b.to_set() =~= a.to_set().insert(s[n]));
}

/// A finite set of identifiers, kept as a vector without repeats.
#[derive(Debug, Clone)]
pub struct IdSet {
    items: Vec<String>,
}

impl View for IdSet {
    type V = Set<Seq<char>>;

    closed spec fn view(&self) -> Set<Seq<char>> {
        views(self.items@).to_set()
    }
}

impl IdSet {
    /// No identifier is stored twice.
    pub closed spec fn wf(&self) -> bool {
        views(self.items@).no_duplicates()
    }

    /// The empty set.
    pub fn new() -> (r: IdSet)
        ensures
            r.wf(),
            r@ == Set::<Seq<char>>::empty(),
    {
        let r = IdSet { items: Vec::new() };
        assert(r@ =~= Set::<Seq<char>>::empty());
        r
    }

    fn position(&self, id: &String) -> (r: Option<usize>)
        ensures
            match r {
                Some(i) => i < self.items@.len() && self.items@[i as int]@ == id@,
                None => !views(self.items@).contains(id@),
            },
    {
        let mut i: usize = 0;
        while i < self.items.len()
            invariant
                i <= self.items@.len(),
                forall|j: int| 0 <= j < i ==> self.items@[j]@ != id@,
            decreases self.items@.len() - i,
        {
            if self.items[i] == *id {
                return Some(i);
            }
            i = i + 1;
        }
        proof {
            if views(self.items@).contains(id@) {
                let j = choose|j: int| 0 <= j < views(self.items@).len() && views(self.items@)[j] == id@;
                assert(self.items@[j]@ == id@);
            }
        }
        None
    }

    /// Whether `id` is a member.
    pub fn contains(&self, id: &String) -> (r: bool)
        ensures
            r == self@.contains(id@),
    {
        match self.position(id) {
            Some(i) => {
                assert(views(self.items@)[i as int] == id@);
                true
            },
            None => false,
        }
    }

    /// The number of members.
    pub fn len(&self) -> (r: usize)
        requires
            self.wf(),
        ensures
            r == self@.len(),
    {
        proof {
            views(self.items@).unique_seq_to_set();
        }
        self.items.len()
    }

    /// Whether the set has no member.
    pub fn is_empty(&self) -> (r: bool)
        requires
            self.wf(),
        ensures
            r == (self@ == Set::<Seq<char>>::empty()),
    {
        proof {
            views(self.items@).unique_seq_to_set();
            if self@.len() == 0 {
                assert(self@ =~= Set::<Seq<char>>::empty());
            }
        }
        self.items.len() == 0
    }

    /// Adds `id`; a member already present is kept once.
    pub fn insert(&mut self, id: String)
        requires
            old(self).wf(),
        ensures
            final(self).wf(),
            final(self)@ == old(self)@.insert(id@),
    {
        if !self.contains(&id) {
            let ghost old_items = self.items@;
            let ghost v = id@;
            self.items.push(id);
            assert(views(self.items@) =~= views(old_items).push(v));
            assert(views(self.items@).to_set() =~= views(old_items).to_set().insert(v)) by {
                assert forall|x: Seq<char>| #[trigger] views(self.items@).contains(x)
                    implies views(old_items).contains(x) || x == v by {
                    let j = choose|j: int| 0 <= j < views(self.items@).len() && views(self.items@)[j] == x;
                    if j < old_items.len() {
                        assert(views(old_items)[j] == x);
                    }
                }
                assert(views(self.items@)[old_items.len() as int] == v);
                assert forall|x: Seq<char>| views(old_items).contains(x) implies
                    #[trigger] views(self.items@).contains(x) by {
                    let j = choose|j: int| 0 <= j < views(old_items).len() && views(old_items)[j] == x;
                    assert(views(self.items@)[j] == x);
                }
            }
        } else {
            assert(self@.insert(id@) =~= self@);
        }
    }

    /// Removes `id`, if it is a member.
    pub fn remove(&mut self, id: &String)
        requires
            old(self).wf(),
        ensures
            final(self).wf(),
            final(self)@ == old(self)@.remove(id@),
    {
        match self.position(id) {
            None => {
                assert(self@.remove(id@) =~= self@);
            },
            Some(i) => {
                let ghost old_items = self.items@;
                let ghost ov = views(old_items);
                let ghost last = old_items.len() - 1;
                self.items.swap_remove(i);
                let ghost nv = views(self.items@);
                assert(nv =~= ov.update(i as int, ov[last]).drop_last());
                assert(nv.no_duplicates()) by {
                    assert forall|a: int, b: int| 0 <= a < nv.len() && 0 <= b < nv.len() && a != b
                        implies nv[a] != nv[b] by {
                        let oa = if a == i { last } else { a };
                        let ob = if b == i { last } else { b };
                        assert(nv[a] == ov[oa]);
                        assert(nv[b] == ov[ob]);
                    }
                }
                assert(nv.to_set() =~= ov.to_set().remove(id@)) by {
                    assert forall|x: Seq<char>| #[trigger] nv.contains(x) implies ov.contains(x) && x != id@ by {
                        let j = choose|j: int| 0 <= j < nv.len() && nv[j] == x;
                        let oj = if j == i { last } else { j };
                        assert(ov[oj] == x);
                        assert(ov[i as int] == id@);
                    }
                    assert forall|x: Seq<char>| ov.contains(x) && x != id@ implies #[trigger] nv.contains(x) by {
                        let j = choose|j: int| 0 <= j < ov.len() && ov[j] == x;
                        if j == last {
                            assert(nv[i as int] == x);
                        } else {
                            assert(nv[j] == x);
                        }
                    }
                }
            },
        }
    }

    /// The members of either set.
    pub fn union(&self, other: &IdSet) -> (r: IdSet)
        requires
            self.wf(),
            other.wf(),
        ensures
            r.wf(),
            r@ == self@.union(other@),
    {
        let mut r = self.copy();
        let mut i: usize = 0;
        let ghost ov = views(other.items@);
        assert(ov.subrange(0, 0).to_set() =~= Set::<Seq<char>>::empty());
        while i < other.items.len()
            invariant
                r.wf(),
                i <= other.items@.len(),
                ov == views(other.items@),
                r@ == self@.union(ov.subrange(0, i as int).to_set()),
            decreases other.items@.len() - i,
        {
            let s: String = other.items[i].clone();
            assert(s@ == ov[i as int]);
            proof {
                lemma_prefix_set_step(ov, i as int);
            }
            r.insert(s);
            i = i + 1;
            assert(r@ =~= self@.union(ov.subrange(0, i as int).to_set()));
        }
        assert(ov.subrange(0, i as int) =~= ov);
        r
    }

    /// The members of `self` that are, or with `keep == false` are not, members of `other`.
    fn filter_by(&self, other: &IdSet, keep: bool) -> (r: IdSet)
        requires
            self.wf(),
        ensures
            r.wf(),
            r@ == (if keep { self@.intersect(other@) } else { self@.difference(other@) }),
    {
        let mut r = IdSet::new();
        let mut i: usize = 0;
        let ghost sv = views(self.items@);
        assert(sv.subrange(0, 0).to_set() =~= Set::<Seq<char>>::empty());
        while i < self.items.len()
            invariant
                r.wf(),
                i <= self.items@.len(),
                sv == views(self.items@),
                r@ == (if keep {
                    sv.subrange(0, i as int).to_set().intersect(other@)
                } else {
                    sv.subrange(0, i as int).to_set().difference(other@)
                }),
            decreases self.items@.len() - i,
        {
            proof {
                lemma_prefix_set_step(sv, i as int);
            }
            assert(self.items@[i as int]@ == sv[i as int]);
            if other.contains(&self.items[i]) == keep {
                let s: String = self.items[i].clone();
                r.insert(s);
            }
            i = i + 1;
            if keep {
                assert(r@ =~= sv.subrange(0, i as int).to_set().intersect(other@));
            } else {
                assert(r@ =~= sv.subrange(0, i as int).to_set().difference(other@));
            }
        }
        assert(sv.subrange(0, i as int) =~= sv);
        r
    }

    /// The members of both sets.
    pub fn intersection(&self, other: &IdSet) -> (r: IdSet)
        requires
            self.wf(),
        ensures
            r.wf(),
            r@ == self@.intersect(other@),
    {
        self.filter_by(other, true)
    }

    /// The members of `self` that are not members of `other`.
    pub fn difference(&self, other: &IdSet) -> (r: IdSet)
        requires
            self.wf(),
        ensures
            r.wf(),
            r@ == self@.difference(other@),
    {
        self.filter_by(other, false)
    }

    /// Whether every member of `self` is a member of `other`.
    pub fn is_subset_of(&self, other: &IdSet) -> (r: bool)
        ensures
            r == self@.subset_of(other@),
    {
        let mut i: usize = 0;
        let ghost sv = views(self.items@);
        assert(sv.subrange(0, 0).to_set() =~= Set::<Seq<char>>::empty());
        while i < self.items.len()
            invariant
                i <= self.items@.len(),
                sv == views(self.items@),
                sv.subrange(0, i as int).to_set().subset_of(other@),
            decreases self.items@.len() - i,
        {
            proof {
                lemma_prefix_set_step(sv, i as int);
            }
            assert(self.items@[i as int]@ == sv[i as int]);
            if !other.contains(&self.items[i]) {
                assert(self@.contains(sv[i as int]));
                return false;
            }
            i = i + 1;
        }
        assert(sv.subrange(0, i as int) =~= sv);
        true
    }

    /// An equal set, held apart from this one.
    pub fn copy(&self) -> (r: IdSet)
        requires
            self.wf(),
        ensures
            r.wf(),
            r@ == self@,
    {
        IdSet { items: self.to_vec() }
    }

    /// The members, each once, in no particular order.
    pub fn to_vec(&self) -> (r: Vec<String>)
        requires
            self.wf(),
        ensures
            views(r@).no_duplicates(),
            views(r@).to_set() == self@,
    {
        let mut r: Vec<String> = Vec::new();
        let mut i: usize = 0;
        while i < self.items.len()
            invariant
                i <= self.items@.len(),
                views(r@) == views(self.items@).subrange(0, i as int),
            decreases self.items@.len() - i,
        {
            let s: String = self.items[i].clone();
            assert(s@ == self.items@[i as int]@);
            let ghost before = r@;
            r.push(s);
            assert(views(r@) =~= views(before).push(s@));
            i = i + 1;
            assert(views(r@) =~= views(self.items@).subrange(0, i as int));
        }
        assert(views(self.items@).subrange(0, i as int) =~= views(self.items@));
        r
    }
}

impl PartialEq for IdSet {
    fn eq(&self, other: &IdSet) -> (r: bool)
        ensures
            r == (self@ == other@),
    {
        let r = self.is_subset_of(other) && other.is_subset_of(self);
        proof {
            if r {
                assert(self@ =~= other@);
            }
        }
        r
    }
}

impl vstd::std_specs::cmp::PartialEqSpecImpl for IdSet {
    open spec fn obeys_eq_spec() -> bool {
        true
    }

    open spec fn eq_spec(&self, other: &IdSet) -> bool {
        self@ == other@
    }
}

impl Eq for IdSet {
}

} // verus!
