use vstd::prelude::*;

use crate::idset::{views, IdSet};

verus! {

/// A label registry as a mathematical map: each label to the identifiers that hold it.
pub type RegistryMap = Map<Seq<char>, Set<Seq<char>>>;

/// The registry after `id` is recorded under `label`.
pub open spec fn map_after_insert(m: RegistryMap, label: Seq<char>, id: Seq<char>) -> RegistryMap {
    if m.contains_key(label) {
        m.insert(label, m[label].insert(id))
    } else {
        m.insert(label, set![id])
    }
}

/// The registry after `id` is taken from under `label`; a label left with no identifier goes.
pub open spec fn map_after_delete(m: RegistryMap, label: Seq<char>, id: Seq<char>) -> RegistryMap {
    if m.contains_key(label) {
        if m[label].remove(id).is_empty() {
            m.remove(label)
        } else {
            m.insert(label, m[label].remove(id))
        }
    } else {
        m
    }
}

/// Every label of the registry holds at least one identifier.
pub open spec fn no_empty_label(m: RegistryMap) -> bool {
    forall|k: Seq<char>| #[trigger] m.contains_key(k) ==> !m[k].is_empty()
}

/// An inverted index from a label to the set of identifiers that hold it.
#[derive(Debug, Clone)]
pub struct RoleRegistry {
    labels: Vec<String>,
    sets: Vec<IdSet>,
}

impl View for RoleRegistry {
    type V = RegistryMap;

    closed spec fn view(&self) -> RegistryMap {
        Map::new(
            |k: Seq<char>| views(self.labels@).contains(k),
            |k: Seq<char>| self.sets@[views(self.labels@).index_of(k)]@,
        )
    }
}

impl RoleRegistry {
    /// Labels are stored once each, beside a non-empty, well-formed set.
    pub closed spec fn wf(&self) -> bool {
        &&& self.labels@.len() == self.sets@.len()
        &&& views(self.labels@).no_duplicates()
        &&& forall|i: int| 0 <= i < self.sets@.len() ==> (#[trigger] self.sets@[i]).wf()
        &&& forall|i: int| 0 <= i < self.sets@.len() ==> !(#[trigger] self.sets@[i])@.is_empty()
    }

    proof fn lemma_entry(&self, i: int)
        requires
            self.wf(),
            0 <= i < self.labels@.len(),
        ensures
            self@.contains_key(self.labels@[i]@),
            self@[self.labels@[i]@] == self.sets@[i]@,
    {
        let lv = views(self.labels@);
        assert(lv[i] == self.labels@[i]@);
        lv.index_of_first_ensures(lv[i]);
        assert(lv.index_of(lv[i]) == i) by {
            let j = lv.index_of(lv[i]);
            assert(0 <= j < lv.len() && lv[j] == lv[i]);
        }
    }

    /// Every label holds at least one identifier.
    pub proof fn lemma_no_empty_label(&self)
        requires
            self.wf(),
        ensures
            no_empty_label(self@),
    {
        assert forall|k: Seq<char>| #[trigger] self@.contains_key(k) implies !self@[k].is_empty() by {
            let lv = views(self.labels@);
            let i = choose|i: int| 0 <= i < lv.len() && lv[i] == k;
            self.lemma_entry(i);
        }
    }

    /// An empty registry.
    pub fn new() -> (r: RoleRegistry)
        ensures
            r.wf(),
            r@ == RegistryMap::empty(),
    {
        let r = RoleRegistry { labels: Vec::new(), sets: Vec::new() };
        assert(r@ =~= RegistryMap::empty());
        r
    }

    fn position(&self, label: &String) -> (r: Option<usize>)
        requires
            self.wf(),
        ensures
            match r {
                Some(i) => i < self.labels@.len() && self.labels@[i as int]@ == label@,
                None => !self@.contains_key(label@),
            },
    {
        let mut i: usize = 0;
        while i < self.labels.len()
            invariant
                i <= self.labels@.len(),
                forall|j: int| 0 <= j < i ==> self.labels@[j]@ != label@,
            decreases self.labels@.len() - i,
        {
            if self.labels[i] == *label {
                return Some(i);
            }
            i = i + 1;
        }
        proof {
            if self@.contains_key(label@) {
                let lv = views(self.labels@);
                let j = choose|j: int| 0 <= j < lv.len() && lv[j] == label@;
                assert(self.labels@[j]@ == label@);
            }
        }
        None
    }

    /// The identifiers that hold `label`, if the registry has it.
    pub fn lookup(&self, label: &String) -> (r: Option<&IdSet>)
        requires
            self.wf(),
        ensures
            match r {
                Some(s) => self@.contains_key(label@) && s.wf() && s@ == self@[label@],
                None => !self@.contains_key(label@),
            },
    {
        match self.position(label) {
            Some(i) => {
                proof {
                    self.lemma_entry(i as int);
                }
                Some(&self.sets[i])
            },
            None => None,
        }
    }

    /// `m` is the view of a well-formed registry whose entries are exactly those of `m`.
    proof fn lemma_view_from_entries(&self, m: RegistryMap)
        requires
            self.wf(),
            forall|i: int| 0 <= i < self.labels@.len() ==> m.contains_key(#[trigger] self.labels@[i]@)
                && m[self.labels@[i]@] == self.sets@[i]@,
            forall|k: Seq<char>| #[trigger] m.contains_key(k) ==> exists|i: int|
                0 <= i < self.labels@.len() && #[trigger] self.labels@[i]@ == k,
        ensures
            self@ == m,
    {
        let lv = views(self.labels@);
        assert forall|k: Seq<char>| #[trigger] self@.contains_key(k) implies m.contains_key(k) && self@[k] == m[k] by {
            let i = choose|i: int| 0 <= i < lv.len() && lv[i] == k;
            self.lemma_entry(i);
            assert(self.labels@[i]@ == k);
        }
        assert forall|k: Seq<char>| #[trigger] m.contains_key(k) implies self@.contains_key(k) by {
            let i = choose|i: int| 0 <= i < self.labels@.len() && #[trigger] self.labels@[i]@ == k;
            assert(lv[i] == k);
        }
        assert(self@ =~= m);
    }

    /// Records that `v` holds label `k`; the label is created on first use.
    pub fn insert(&mut self, k: String, v: String)
        requires
            old(self).wf(),
        ensures
            final(self).wf(),
            final(self)@ == map_after_insert(old(self)@, k@, v@),
    {
        let ghost old_self = *self;
        let ghost target = map_after_insert(old_self@, k@, v@);
        match self.position(&k) {
            Some(i) => {
                proof {
                    old_self.lemma_entry(i as int);
                }
                let mut s = IdSet::new();
                self.sets.set_and_swap(i, &mut s);
                s.insert(v);
                self.sets.set_and_swap(i, &mut s);
                proof {
                    assert forall|j: int| 0 <= j < self.labels@.len() implies target.contains_key(
                        #[trigger] self.labels@[j]@) && target[self.labels@[j]@] == self.sets@[j]@ by {
                        old_self.lemma_entry(j);
                        if j != i {
                            assert(views(self.labels@)[j] != views(self.labels@)[i as int]);
                        }
                    }
                    assert forall|key: Seq<char>| #[trigger] target.contains_key(key) implies exists|j: int|
                        0 <= j < self.labels@.len() && #[trigger] self.labels@[j]@ == key by {
                        if key != k@ {
                            let lv = views(old_self.labels@);
                            let j = choose|j: int| 0 <= j < lv.len() && lv[j] == key;
                            assert(self.labels@[j]@ == key);
                        } else {
                            assert(self.labels@[i as int]@ == key);
                        }
                    }
                    self.lemma_view_from_entries(target);
                }
            },
            None => {
                let mut s = IdSet::new();
                s.insert(v);
                let ghost kv = k@;
                self.labels.push(k);
                self.sets.push(s);
                proof {
                    let n = old_self.labels@.len() as int;
                    assert(views(self.labels@) =~= views(old_self.labels@).push(kv));
                    assert(s@ =~= set![v@]);
                    assert(views(self.labels@).no_duplicates()) by {
                        assert forall|a: int, b: int| 0 <= a < n && b == n implies
                            views(self.labels@)[a] != views(self.labels@)[b] by {
                            assert(views(old_self.labels@)[a] == views(self.labels@)[a]);
                        }
                    }
                    assert forall|j: int| 0 <= j < self.labels@.len() implies target.contains_key(
                        #[trigger] self.labels@[j]@) && target[self.labels@[j]@] == self.sets@[j]@ by {
                        if j < n {
                            old_self.lemma_entry(j);
                            assert(views(old_self.labels@)[j] == self.labels@[j]@);
                        }
                    }
                    assert forall|key: Seq<char>| #[trigger] target.contains_key(key) implies exists|j: int|
                        0 <= j < self.labels@.len() && #[trigger] self.labels@[j]@ == key by {
                        if key != kv {
                            let lv = views(old_self.labels@);
                            let j = choose|j: int| 0 <= j < lv.len() && lv[j] == key;
                            assert(self.labels@[j]@ == key);
                        } else {
                            assert(self.labels@[n]@ == key);
                        }
                    }
                    self.lemma_view_from_entries(target);
                }
            },
        }
    }

    /// Takes `v` from under label `k`; a label left with no identifier is removed.
    pub fn delete(&mut self, k: &String, v: &String)
        requires
            old(self).wf(),
        ensures
            final(self).wf(),
            final(self)@ == map_after_delete(old(self)@, k@, v@),
    {
        let ghost old_self = *self;
        let ghost target = map_after_delete(old_self@, k@, v@);
        match self.position(k) {
            None => {},
            Some(i) => {
                proof {
                    old_self.lemma_entry(i as int);
                }
                let mut s = IdSet::new();
                self.sets.set_and_swap(i, &mut s);
                s.remove(v);
                if s.is_empty() {
                    let ghost n = old_self.labels@.len() - 1;
                    self.labels.swap_remove(i);
                    self.sets.swap_remove(i);
                    proof {
                        let ov = views(old_self.labels@);
                        let nv = views(self.labels@);
                        assert(nv =~= ov.update(i as int, ov[n]).drop_last());
                        assert(nv.no_duplicates()) by {
                            assert forall|a: int, b: int| 0 <= a < nv.len() && 0 <= b < nv.len() && a != b
                                implies nv[a] != nv[b] by {
                                let oa = if a == i { n } else { a };
                                let ob = if b == i { n } else { b };
                                assert(nv[a] == ov[oa]);
                                assert(nv[b] == ov[ob]);
                            }
                        }
                        assert forall|j: int| 0 <= j < self.sets@.len() implies (#[trigger] self.sets@[j]).wf()
                            && !self.sets@[j]@.is_empty() by {
                            let oj = if j == i { n } else { j };
                            assert(self.sets@[j] == old_self.sets@[oj]);
                        }
                        assert forall|j: int| 0 <= j < self.labels@.len() implies target.contains_key(
                            #[trigger] self.labels@[j]@) && target[self.labels@[j]@] == self.sets@[j]@ by {
                            let oj = if j == i { n } else { j };
                            assert(self.labels@[j] == old_self.labels@[oj]);
                            assert(self.sets@[j] == old_self.sets@[oj]);
                            old_self.lemma_entry(oj);
                            assert(ov[oj] != ov[i as int]);
                        }
                        assert forall|key: Seq<char>| #[trigger] target.contains_key(key) implies exists|j: int|
                            0 <= j < self.labels@.len() && #[trigger] self.labels@[j]@ == key by {
                            let oj = choose|j: int| 0 <= j < ov.len() && ov[j] == key;
                            assert(oj != i);
                            if oj == n {
                                assert(self.labels@[i as int]@ == key);
                            } else {
                                assert(self.labels@[oj]@ == key);
                            }
                        }
                        self.lemma_view_from_entries(target);
                    }
                } else {
                    self.sets.set_and_swap(i, &mut s);
                    proof {
                        assert forall|j: int| 0 <= j < self.labels@.len() implies target.contains_key(
                            #[trigger] self.labels@[j]@) && target[self.labels@[j]@] == self.sets@[j]@ by {
                            old_self.lemma_entry(j);
                            if j != i {
                                assert(views(self.labels@)[j] != views(self.labels@)[i as int]);
                            }
                        }
                        assert forall|key: Seq<char>| #[trigger] target.contains_key(key) implies exists|j: int|
                            0 <= j < self.labels@.len() && #[trigger] self.labels@[j]@ == key by {
                            let lv = views(old_self.labels@);
                            let j = choose|j: int| 0 <= j < lv.len() && lv[j] == key;
                            assert(self.labels@[j]@ == key);
                        }
                        self.lemma_view_from_entries(target);
                    }
                }
            },
        }
    }
}

} // verus!
