//! Name sets and name-to-version maps, kept as vectors without repeated names.

use crate::text::{same_text, views};
use vstd::prelude::*;

verus! {

/// A set of names, such as taps or app-store entries.
#[derive(Debug)]
pub struct NameSet {
    names: Vec<String>,
}

impl View for NameSet {
    type V = Set<Seq<char>>;

    closed spec fn view(&self) -> Set<Seq<char>> {
        views(self.names@).to_set()
    }
}

impl NameSet {
    #[verifier::type_invariant]
    spec fn inv(self) -> bool {
        views(self.names@).no_duplicates()
    }

    /// The names in their order of insertion.
    pub closed spec fn listing(&self) -> Seq<Seq<char>> {
        views(self.names@)
    }

    pub fn new() -> (r: NameSet)
        ensures
            r@ == Set::<Seq<char>>::empty(),
            r.listing() == Seq::<Seq<char>>::empty(),
    {
        let r = NameSet { names: Vec::new() };
        assert(views(r.names@) =~= Seq::<Seq<char>>::empty());
        r
    }

    /// Whether `name` is in the set.
    pub fn contains(&self, name: &str) -> (r: bool)
        ensures
            r == self@.contains(name@),
    {
        let mut i: usize = 0;
        while i < self.names.len()
            invariant
                i <= self.names@.len(),
                forall|k: int| 0 <= k < i ==> self.names@[k]@ != name@,
            decreases self.names@.len() - i,
        {
            if same_text(self.names[i].as_str(), name) {
                proof {
                    assert(views(self.names@)[i as int] == name@);
                }
                return true;
            }
            i = i + 1;
        }
        proof {
            if views(self.names@).contains(name@) {
                let k = views(self.names@).index_of(name@);
                assert(self.names@[k]@ == name@);
            }
        }
        false
    }

    /// Adds `name`; says whether it was new.
    pub fn insert(&mut self, name: String) -> (r: bool)
        ensures
            final(self)@ == old(self)@.insert(name@),
            r == !old(self)@.contains(name@),
    {
        proof {
            use_type_invariant(&*self);
        }
        if self.contains(name.as_str()) {
            proof {
                assert(old(self)@.insert(name@) =~= old(self)@);
            }
            return false;
        }
        let mut names = Vec::new();
        std::mem::swap(&mut names, &mut self.names);
        let ghost before = names@;
        names.push(name);
        proof {
            assert(views(names@) =~= views(before).push(name@));
            assert(views(names@).to_set() =~= views(before).to_set().insert(name@)) by {
                assert forall|x: Seq<char>| views(names@).contains(x) implies views(
                    before,
                ).to_set().insert(name@).contains(x) by {
                    let k = views(names@).index_of(x);
                    if k < before.len() {
                        assert(views(before)[k] == x);
                    }
                }
                assert forall|x: Seq<char>| #[trigger] views(before).to_set().insert(
                    name@,
                ).contains(x) implies views(names@).contains(x) by {
                    if x != name@ {
                        let k = views(before).index_of(x);
                        assert(views(names@)[k] == x);
                    } else {
                        assert(views(names@)[before.len() as int] == x);
                    }
                }
            }
        }
        self.names = names;
        true
    }

    /// The number of names.
    pub fn len(&self) -> (r: usize)
        ensures
            r == self@.len(),
            self@.finite(),
    {
        proof {
            use_type_invariant(self);
            views(self.names@).unique_seq_to_set();
        }
        self.names.len()
    }

    pub fn is_empty(&self) -> (r: bool)
        ensures
            r == (self@.len() == 0),
    {
        self.len() == 0
    }

    /// The names, without repeats, in their order of insertion.
    pub fn as_vec(&self) -> (r: &Vec<String>)
        ensures
            views(r@) == self.listing(),
            self.listing().no_duplicates(),
            self.listing().to_set() == self@,
    {
        proof {
            use_type_invariant(self);
        }
        &self.names
    }
}

impl Clone for NameSet {
    fn clone(&self) -> (r: NameSet)
        ensures
            r@ == self@,
    {
        proof {
            use_type_invariant(self);
        }
        let names = self.names.clone();
        proof {
            assert forall|i: int| 0 <= i < names@.len() implies names@[i]@ == self.names@[i]@ by {
                assert(vstd::pervasive::cloned::<String>(self.names@[i], names@[i]));
            }
            assert(views(names@) =~= views(self.names@));
        }
        NameSet { names }
    }
}

impl PartialEq for NameSet {
    /// Set equality: the same names, whatever their order of insertion.
    fn eq(&self, other: &NameSet) -> (r: bool)
        ensures
            r == (self@ == other@),
    {
        proof {
            use_type_invariant(self);
            use_type_invariant(other);
        }
        if self.len() != other.len() {
            return false;
        }
        let mut i: usize = 0;
        while i < self.names.len()
            invariant
                i <= self.names@.len(),
                self@.len() == other@.len(),
                forall|k: int| 0 <= k < i ==> other@.contains(#[trigger] self.names@[k]@),
            decreases self.names@.len() - i,
        {
            if !other.contains(self.names[i].as_str()) {
                proof {
                    assert(views(self.names@)[i as int] == self.names@[i as int]@);
                    assert(self@.contains(self.names@[i as int]@));
                }
                return false;
            }
            i = i + 1;
        }
        proof {
            assert forall|x: Seq<char>| self@.contains(x) implies other@.contains(x) by {
                let k = views(self.names@).index_of(x);
                assert(self.names@[k]@ == x);
            }
            lemma_subset_same_len(self@, other@);
        }
        true
    }
}

impl vstd::std_specs::cmp::PartialEqSpecImpl for NameSet {
    open spec fn obeys_eq_spec() -> bool {
        true
    }

    open spec fn eq_spec(&self, other: &NameSet) -> bool {
        self@ == other@
    }
}

proof fn lemma_subset_same_len(a: Set<Seq<char>>, b: Set<Seq<char>>)
    requires
        a.subset_of(b),
        b.finite(),
        a.len() == b.len(),
    ensures
        a == b,
{
    if !(b.subset_of(a)) {
        let x = choose|x: Seq<char>| b.contains(x) && !a.contains(x);
        vstd::set_lib::lemma_len_subset(a, b.remove(x));
    }
    assert(a =~= b);
}

/// The names of a list of (name, version) entries.
pub open spec fn entry_names(e: Seq<(String, String)>) -> Seq<Seq<char>> {
    e.map_values(|p: (String, String)| p.0@)
}

/// A map from package name to installed version.
#[derive(Debug)]
pub struct PackageMap {
    entries: Vec<(String, String)>,
}

impl View for PackageMap {
    type V = Map<Seq<char>, Seq<char>>;

    closed spec fn view(&self) -> Map<Seq<char>, Seq<char>> {
        let names = entry_names(self.entries@);
        Map::new(|k: Seq<char>| names.contains(k), |k: Seq<char>| self.entries@[names.index_of(k)].1@)
    }
}

impl Clone for PackageMap {
    fn clone(&self) -> (r: PackageMap)
        ensures
            r@ == self@,
    {
        proof {
            use_type_invariant(self);
        }
        let mut entries: Vec<(String, String)> = Vec::new();
        let mut i: usize = 0;
        while i < self.entries.len()
            invariant
                i <= self.entries@.len(),
                entries@ == self.entries@.take(i as int),
            decreases self.entries@.len() - i,
        {
            let name = self.entries[i].0.clone();
            let version = self.entries[i].1.clone();
            entries.push((name, version));
            assert(entries@ =~= self.entries@.take(i + 1));
            i = i + 1;
        }
        assert(entries@ =~= self.entries@);
        PackageMap { entries }
    }
}

impl PackageMap {
    #[verifier::type_invariant]
    spec fn inv(self) -> bool {
        entry_names(self.entries@).no_duplicates()
    }

    proof fn lemma_lookup(&self, i: int)
        requires
            0 <= i < self.entries@.len(),
            entry_names(self.entries@).no_duplicates(),
        ensures
            self@.contains_key(self.entries@[i].0@),
            self@[self.entries@[i].0@] == self.entries@[i].1@,
    {
        let names = entry_names(self.entries@);
        assert(names[i] == self.entries@[i].0@);
        let j = names.index_of(self.entries@[i].0@);
        assert(names[j] == names[i]);
    }

    pub fn new() -> (r: PackageMap)
        ensures
            r@ == Map::<Seq<char>, Seq<char>>::empty(),
    {
        let r = PackageMap { entries: Vec::new() };
        assert(r@ =~= Map::<Seq<char>, Seq<char>>::empty());
        r
    }

    /// The position of `name` among the entries, if it is there.
    fn position(&self, name: &str) -> (r: Option<usize>)
        ensures
            r matches Some(i) ==> i < self.entries@.len() && self.entries@[i as int].0@ == name@,
            r is None ==> !self@.contains_key(name@),
    {
        let mut i: usize = 0;
        while i < self.entries.len()
            invariant
                i <= self.entries@.len(),
                forall|k: int| 0 <= k < i ==> self.entries@[k].0@ != name@,
            decreases self.entries@.len() - i,
        {
            if same_text(self.entries[i].0.as_str(), name) {
                return Some(i);
            }
            i = i + 1;
        }
        proof {
            let names = entry_names(self.entries@);
            if names.contains(name@) {
                let k = names.index_of(name@);
                assert(self.entries@[k].0@ == name@);
            }
        }
        None
    }

    /// Whether `name` has an entry.
    pub fn contains_key(&self, name: &str) -> (r: bool)
        ensures
            r == self@.contains_key(name@),
    {
        proof {
            use_type_invariant(self);
        }
        match self.position(name) {
            Some(i) => {
                proof {
                    self.lemma_lookup(i as int);
                }
                true
            },
            None => false,
        }
    }

    /// The version recorded for `name`.
    pub fn get(&self, name: &str) -> (r: Option<&String>)
        ensures
            r is Some == self@.contains_key(name@),
            r matches Some(v) ==> v@ == self@[name@],
    {
        proof {
            use_type_invariant(self);
        }
        match self.position(name) {
            Some(i) => {
                proof {
                    self.lemma_lookup(i as int);
                }
                Some(&self.entries[i].1)
            },
            None => None,
        }
    }

    /// Records `version` for `name`, replacing an earlier version.
    pub fn insert(&mut self, name: String, version: String)
        ensures
            final(self)@ == old(self)@.insert(name@, version@),
    {
        proof {
            use_type_invariant(&*self);
        }
        let pos = self.position(name.as_str());
        let mut entries = Vec::new();
        std::mem::swap(&mut entries, &mut self.entries);
        let ghost before = entries@;
        let ghost name_view = name@;
        let ghost version_view = version@;
        match pos {
            Some(i) => {
                entries.set(i, (name, version));
                proof {
                    assert(entry_names(entries@) =~= entry_names(before));
                }
            },
            None => {
                entries.push((name, version));
                proof {
                    assert(entry_names(entries@) =~= entry_names(before).push(name_view));
                    assert(!entry_names(before).contains(name_view));
                }
            },
        }
        self.entries = entries;
        proof {
            let names = entry_names(self.entries@);
            let old_names = entry_names(before);
            assert forall|k: Seq<char>| #[trigger] self@.contains_key(k) == old(self)@.insert(
                name_view,
                version_view,
            ).contains_key(k) by {
                if names.contains(k) {
                    let j = names.index_of(k);
                    if k != name_view {
                        assert(old_names[j] == k);
                    }
                }
                if old_names.contains(k) {
                    let j = old_names.index_of(k);
                    assert(names[j] == k);
                }
                if k == name_view {
                    match pos {
                        Some(i) => assert(names[i as int] == k),
                        None => assert(names[before.len() as int] == k),
                    }
                }
            }
            assert forall|k: Seq<char>| #[trigger] self@.contains_key(k) implies self@[k] == old(
                self,
            )@.insert(name_view, version_view)[k] by {
                let j = names.index_of(k);
                assert(names[j] == k);
                assert(names.no_duplicates());
                self.lemma_lookup(j);
                if k != name_view {
                    assert(old_names[j] == k);
                    old(self).lemma_lookup(j);
                } else {
                    match pos {
                        Some(i) => assert(names[i as int] == k),
                        None => assert(names[before.len() as int] == k),
                    }
                }
            }
            assert(self@ =~= old(self)@.insert(name_view, version_view));
        }
    }

    /// The number of entries.
    pub fn len(&self) -> (r: usize)
        ensures
            r == self@.len(),
    {
        proof {
            use_type_invariant(self);
            let names = entry_names(self.entries@);
            names.unique_seq_to_set();
            assert(self@.dom() =~= names.to_set());
        }
        self.entries.len()
    }

    pub fn is_empty(&self) -> (r: bool)
        ensures
            r == (self@.len() == 0),
    {
        self.len() == 0
    }

    /// The names that have an entry, each once.
    pub fn keys(&self) -> (r: Vec<String>)
        ensures
            views(r@).no_duplicates(),
            views(r@).to_set() == self@.dom(),
    {
        proof {
            use_type_invariant(self);
        }
        let mut r: Vec<String> = Vec::new();
        let mut i: usize = 0;
        while i < self.entries.len()
            invariant
                i <= self.entries@.len(),
                views(r@) == entry_names(self.entries@).take(i as int),
            decreases self.entries@.len() - i,
        {
            let name = self.entries[i].0.clone();
            let ghost prev = r@;
            r.push(name);
            proof {
                assert(views(r@) =~= views(prev).push(self.entries@[i as int].0@));
                assert(views(r@) =~= entry_names(self.entries@).take(i + 1));
            }
            i = i + 1;
        }
        proof {
            let names = entry_names(self.entries@);
            assert(views(r@) =~= names);
            assert(self@.dom() =~= names.to_set());
        }
        r
    }
}

} // verus!
