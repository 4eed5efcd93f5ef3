//! The difference between what is installed and what is declared, per category.

use crate::intent::HomebrewIntent;
use crate::names::{NameSet, PackageMap};
use crate::state::HomebrewState;
use crate::text::{lemma_lex_asymmetric, lemma_lex_irreflexive, lemma_lex_total, lemma_lex_transitive, lex_lt, str_lt, views};
use vstd::prelude::*;

verus! {

/// Every name comes strictly before the next one.
pub open spec fn strictly_sorted(v: Seq<Seq<char>>) -> bool {
    forall|i: int, j: int| 0 <= i < j < v.len() ==> lex_lt(#[trigger] v[i], #[trigger] v[j])
}

/// `v` lists the names of `s` in ascending order, each once.
pub open spec fn is_listing(v: Seq<Seq<char>>, s: Set<Seq<char>>) -> bool {
    strictly_sorted(v) && v.to_set() == s
}

proof fn lemma_sorted_no_duplicates(v: Seq<Seq<char>>)
    requires
        strictly_sorted(v),
    ensures
        v.no_duplicates(),
{
    assert forall|i: int, j: int| 0 <= i < v.len() && 0 <= j < v.len() && i != j implies v[i]
        != v[j] by {
        if i < j {
            lemma_lex_irreflexive(v[i]);
        } else {
            lemma_lex_irreflexive(v[j]);
        }
    }
}

proof fn lemma_take_push_to_set(s: Seq<Seq<char>>, i: int)
    requires
        0 <= i < s.len(),
    ensures
        s.take(i + 1).to_set() == s.take(i).to_set().insert(s[i]),
{
    assert(s.take(i + 1) =~= s.take(i).push(s[i]));
    let a = s.take(i + 1);
    let b = s.take(i);
    assert forall|x: Seq<char>| a.contains(x) implies b.to_set().insert(s[i]).contains(x) by {
        let k = a.index_of(x);
        if k < i {
            assert(b[k] == x);
        }
    }
    assert forall|x: Seq<char>| #[trigger] b.to_set().insert(s[i]).contains(x) implies a.contains(
        x,
    ) by {
        if x == s[i] {
            assert(a[i] == x);
        } else {
            let k = b.index_of(x);
            assert(a[k] == x);
        }
    }
    assert(a.to_set() =~= b.to_set().insert(s[i]));
}

/// `v` in ascending order.
fn sort_names(v: &Vec<String>) -> (r: Vec<String>)
    requires
        views(v@).no_duplicates(),
    ensures
        is_listing(views(r@), views(v@).to_set()),
{
    let mut r: Vec<String> = Vec::new();
    let mut i: usize = 0;
    while i < v.len()
        invariant
            i <= v@.len(),
            views(v@).no_duplicates(),
            strictly_sorted(views(r@)),
            views(r@).to_set() == views(v@).take(i as int).to_set(),
        decreases v@.len() - i,
    {
        let x = v[i].clone();
        let ghost xv = x@;
        assert(views(v@)[i as int] == xv);
        let mut p: usize = 0;
        while p < r.len() && str_lt(r[p].as_str(), x.as_str())
            invariant
                p <= r@.len(),
                x@ == xv,
                forall|k: int| 0 <= k < p ==> lex_lt(#[trigger] r@[k]@, xv),
            decreases r@.len() - p,
        {
            p = p + 1;
        }
        proof {
            // `x` is not listed yet, so it differs from every element of `r`
            assert forall|k: int| 0 <= k < r@.len() implies #[trigger] r@[k]@ != xv by {
                assert(views(r@)[k] == r@[k]@);
                assert(views(r@).to_set().contains(r@[k]@));
                let t = views(v@).take(i as int);
                let m = t.index_of(r@[k]@);
                assert(views(v@)[m] == t[m]);
            }
            if p < r@.len() {
                assert(!lex_lt(r@[p as int]@, xv));
                lemma_lex_total(r@[p as int]@, xv);
            }
        }
        let ghost before = r@;
        r.insert(p, x);
        proof {
            let b = views(before);
            let a = views(r@);
            assert(a =~= b.insert(p as int, xv));
            assert forall|s: int, t: int| 0 <= s < t < a.len() implies lex_lt(
                #[trigger] a[s],
                #[trigger] a[t],
            ) by {
                if t < p {
                    assert(lex_lt(b[s], b[t]));
                } else if t == p {
                    assert(lex_lt(before[s]@, xv));
                } else if s < p {
                    assert(lex_lt(before[s]@, xv));
                    if t - 1 > p {
                        assert(lex_lt(b[p as int], b[t - 1]));
                        lemma_lex_transitive(xv, b[p as int], b[t - 1]);
                    }
                    lemma_lex_transitive(b[s], xv, b[t - 1]);
                } else if s == p {
                    if t - 1 > p {
                        assert(lex_lt(b[p as int], b[t - 1]));
                        lemma_lex_transitive(xv, b[p as int], b[t - 1]);
                    }
                } else {
                    assert(lex_lt(b[s - 1], b[t - 1]));
                }
            }
            lemma_take_push_to_set(views(v@), i as int);
            assert forall|y: Seq<char>| a.contains(y) <==> b.to_set().insert(xv).contains(y) by {
                if a.contains(y) {
                    let k = a.index_of(y);
                    if k < p {
                        assert(b[k] == y);
                    } else if k > p {
                        assert(b[k - 1] == y);
                    }
                }
                if b.contains(y) {
                    let k = b.index_of(y);
                    if k < p {
                        assert(a[k] == y);
                    } else {
                        assert(a[k + 1] == y);
                    }
                }
                if y == xv {
                    assert(a[p as int] == y);
                }
            }
            assert(a.to_set() =~= b.to_set().insert(xv));
        }
        i = i + 1;
    }
    assert(views(v@).take(v@.len() as int) =~= views(v@));
    r
}

/// The names of `list` that `m` has no entry for.
fn absent_from_map(list: &Vec<String>, m: &PackageMap) -> (r: Vec<String>)
    requires
        views(list@).no_duplicates(),
    ensures
        views(r@).no_duplicates(),
        views(r@).to_set() == views(list@).to_set().difference(m@.dom()),
{
    let mut r: Vec<String> = Vec::new();
    let mut i: usize = 0;
    while i < list.len()
        invariant
            i <= list@.len(),
            views(list@).no_duplicates(),
            views(r@).no_duplicates(),
            views(r@).to_set() == views(list@).take(i as int).to_set().difference(m@.dom()),
        decreases list@.len() - i,
    {
        proof {
            lemma_take_push_to_set(views(list@), i as int);
        }
        let ghost xv = list@[i as int]@;
        assert(views(list@)[i as int] == xv);
        if !m.contains_key(list[i].as_str()) {
            let ghost before = r@;
            r.push(list[i].clone());
            proof {
                assert(views(r@) =~= views(before).push(xv));
                assert(!views(before).contains(xv)) by {
                    if views(before).contains(xv) {
                        assert(views(before).to_set().contains(xv));
                        let t = views(list@).take(i as int);
                        let k = t.index_of(xv);
                        assert(views(list@)[k] == xv);
                    }
                }
                lemma_push_to_set(views(before), xv);
            }
        }
        assert(views(r@).to_set() =~= views(list@).take(i + 1).to_set().difference(m@.dom()));
        i = i + 1;
    }
    assert(views(list@).take(list@.len() as int) =~= views(list@));
    r
}

/// The names of `list` that are not in `s`.
fn absent_from_set(list: &Vec<String>, s: &NameSet) -> (r: Vec<String>)
    requires
        views(list@).no_duplicates(),
    ensures
        views(r@).no_duplicates(),
        views(r@).to_set() == views(list@).to_set().difference(s@),
{
    let mut r: Vec<String> = Vec::new();
    let mut i: usize = 0;
    while i < list.len()
        invariant
            i <= list@.len(),
            views(list@).no_duplicates(),
            views(r@).no_duplicates(),
            views(r@).to_set() == views(list@).take(i as int).to_set().difference(s@),
        decreases list@.len() - i,
    {
        proof {
            lemma_take_push_to_set(views(list@), i as int);
        }
        let ghost xv = list@[i as int]@;
        assert(views(list@)[i as int] == xv);
        if !s.contains(list[i].as_str()) {
            let ghost before = r@;
            r.push(list[i].clone());
            proof {
                assert(views(r@) =~= views(before).push(xv));
                assert(!views(before).contains(xv)) by {
                    if views(before).contains(xv) {
                        assert(views(before).to_set().contains(xv));
                        let t = views(list@).take(i as int);
                        let k = t.index_of(xv);
                        assert(views(list@)[k] == xv);
                    }
                }
                lemma_push_to_set(views(before), xv);
            }
        }
        assert(views(r@).to_set() =~= views(list@).take(i + 1).to_set().difference(s@));
        i = i + 1;
    }
    assert(views(list@).take(list@.len() as int) =~= views(list@));
    r
}

pub proof fn lemma_push_to_set(s: Seq<Seq<char>>, x: Seq<char>)
    ensures
        s.push(x).to_set() == s.to_set().insert(x),
{
    let a = s.push(x);
    assert forall|y: Seq<char>| a.contains(y) implies s.to_set().insert(x).contains(y) by {
        let k = a.index_of(y);
        if k < s.len() {
            assert(s[k] == y);
        }
    }
    assert forall|y: Seq<char>| #[trigger] s.to_set().insert(x).contains(y) implies a.contains(y) by {
        if y == x {
            assert(a[s.len() as int] == y);
        } else {
            let k = s.index_of(y);
            assert(a[k] == y);
        }
    }
    assert(a.to_set() =~= s.to_set().insert(x));
}

/// What changes in one category of formulae or casks.
#[derive(Clone, Debug)]
pub struct PackageDiff {
    pub added: Vec<String>,
    pub removed: Vec<String>,
}

/// What changes in one category of taps or app-store apps.
#[derive(Clone, Debug)]
pub struct SetDiff {
    pub added: Vec<String>,
    pub removed: Vec<String>,
}

impl PackageDiff {
    /// `added` lists `after - before` and `removed` lists `before - after`, both ascending.
    pub open spec fn describes(&self, before: Set<Seq<char>>, after: Set<Seq<char>>) -> bool {
        is_listing(views(self.added@), after.difference(before)) && is_listing(
            views(self.removed@),
            before.difference(after),
        )
    }
}

impl SetDiff {
    /// `added` lists `after - before` and `removed` lists `before - after`, both ascending.
    pub open spec fn describes(&self, before: Set<Seq<char>>, after: Set<Seq<char>>) -> bool {
        is_listing(views(self.added@), after.difference(before)) && is_listing(
            views(self.removed@),
            before.difference(after),
        )
    }
}

impl Default for PackageDiff {
    fn default() -> (r: PackageDiff)
        ensures
            r.added@.len() == 0,
            r.removed@.len() == 0,
    {
        PackageDiff { added: Vec::new(), removed: Vec::new() }
    }
}

impl Default for SetDiff {
    fn default() -> (r: SetDiff)
        ensures
            r.added@.len() == 0,
            r.removed@.len() == 0,
    {
        SetDiff { added: Vec::new(), removed: Vec::new() }
    }
}

/// The changes that bring the installed state to the declared intent.
#[derive(Clone, Debug)]
pub struct HomebrewDiffData {
    pub brews: PackageDiff,
    pub casks: PackageDiff,
    pub taps: SetDiff,
    pub mas_apps: SetDiff,
}

impl Default for HomebrewDiffData {
    fn default() -> (r: HomebrewDiffData)
        ensures
            r.total() == 0,
    {
        HomebrewDiffData {
            brews: PackageDiff::default(),
            casks: PackageDiff::default(),
            taps: SetDiff::default(),
            mas_apps: SetDiff::default(),
        }
    }
}

impl HomebrewDiffData {
    /// The diff of `state` against `intent`, category by category.
    pub open spec fn describes(&self, state: &HomebrewState, intent: &HomebrewIntent) -> bool {
        &&& self.brews.describes(state.installed_brews@.dom(), intent.brews@)
        &&& self.casks.describes(state.installed_casks@.dom(), intent.casks@)
        &&& self.taps.describes(state.installed_taps@, intent.taps@)
        &&& self.mas_apps.describes(state.installed_mas_apps@, intent.mas_apps@)
    }

    /// Whether any of the eight lists is non-empty.
    pub open spec fn any_change(&self) -> bool {
        self.brews.added@.len() > 0 || self.brews.removed@.len() > 0 || self.casks.added@.len() > 0
            || self.casks.removed@.len() > 0 || self.taps.added@.len() > 0
            || self.taps.removed@.len() > 0 || self.mas_apps.added@.len() > 0
            || self.mas_apps.removed@.len() > 0
    }

    /// The sum of the lengths of the eight lists.
    pub open spec fn total(&self) -> nat {
        self.brews.added@.len() + self.brews.removed@.len() + self.casks.added@.len()
            + self.casks.removed@.len() + self.taps.added@.len() + self.taps.removed@.len()
            + self.mas_apps.added@.len() + self.mas_apps.removed@.len()
    }

    pub fn compute(current_state: &HomebrewState, nix_intent: &HomebrewIntent) -> (r: Self)
        ensures
            r.describes(current_state, nix_intent),
    {
        HomebrewDiffData {
            brews: Self::compute_package_diff(&current_state.installed_brews, &nix_intent.brews),
            casks: Self::compute_package_diff(&current_state.installed_casks, &nix_intent.casks),
            taps: Self::compute_set_diff(&current_state.installed_taps, &nix_intent.taps),
            mas_apps: Self::compute_set_diff(
                &current_state.installed_mas_apps,
                &nix_intent.mas_apps,
            ),
        }
    }

    /// Formulae or casks: declared names without an entry are added, entries
    /// whose name is not declared are removed; versions play no part.
    pub fn compute_package_diff(installed: &PackageMap, intended: &NameSet) -> (r: PackageDiff)
        ensures
            r.describes(installed@.dom(), intended@),
    {
        let declared = intended.as_vec();
        let added = absent_from_map(declared, installed);
        let present = installed.keys();
        let removed = absent_from_set(&present, intended);
        PackageDiff { added: sort_names(&added), removed: sort_names(&removed) }
    }

    /// Taps or app-store apps: plain set differences in both directions.
    pub fn compute_set_diff(current: &NameSet, intended: &NameSet) -> (r: SetDiff)
        ensures
            r.describes(current@, intended@),
    {
        let added = absent_from_set(intended.as_vec(), current);
        let removed = absent_from_set(current.as_vec(), intended);
        SetDiff { added: sort_names(&added), removed: sort_names(&removed) }
    }

    /// Check if there are any changes
    pub fn has_changes(&self) -> (r: bool)
        ensures
            r == self.any_change(),
    {
        !self.brews.added.is_empty() || !self.brews.removed.is_empty()
            || !self.casks.added.is_empty() || !self.casks.removed.is_empty()
            || !self.taps.added.is_empty() || !self.taps.removed.is_empty()
            || !self.mas_apps.added.is_empty() || !self.mas_apps.removed.is_empty()
    }

    /// Get total count of changes
    pub fn total_changes(&self) -> (r: usize)
        requires
            self.total() <= usize::MAX,
        ensures
            r == self.total(),
            r == 0 <==> !self.any_change(),
    {
        self.brews.added.len() + self.brews.removed.len() + self.casks.added.len()
            + self.casks.removed.len() + self.taps.added.len() + self.taps.removed.len()
            + self.mas_apps.added.len() + self.mas_apps.removed.len()
    }
}

/// Whichever diff is taken of two name sets, what it adds is exactly the
/// declared names not present, what it removes is exactly the present names
/// not declared, and no name is both added and removed.
pub proof fn lemma_added_removed_disjoint(d: PackageDiff, before: Set<Seq<char>>, after: Set<Seq<char>>)
    requires
        d.describes(before, after),
    ensures
        views(d.added@).to_set() == after.difference(before),
        views(d.removed@).to_set() == before.difference(after),
        views(d.added@).to_set().disjoint(views(d.removed@).to_set()),
{
}

/// The same law for the set categories: added and removed are the two set
/// differences and share no name.
pub proof fn lemma_set_added_removed_disjoint(d: SetDiff, before: Set<Seq<char>>, after: Set<Seq<char>>)
    requires
        d.describes(before, after),
    ensures
        views(d.added@).to_set() == after.difference(before),
        views(d.removed@).to_set() == before.difference(after),
        views(d.added@).to_set().disjoint(views(d.removed@).to_set()),
{
}

/// A diff has no changes exactly when its total count is zero, exactly when
/// all eight lists are empty.
pub proof fn lemma_no_changes_iff_zero_total(d: HomebrewDiffData)
    ensures
        !d.any_change() <==> d.total() == 0,
        d.total() == 0 <==> (d.brews.added@.len() == 0 && d.brews.removed@.len() == 0
            && d.casks.added@.len() == 0 && d.casks.removed@.len() == 0 && d.taps.added@.len()
            == 0 && d.taps.removed@.len() == 0 && d.mas_apps.added@.len() == 0
            && d.mas_apps.removed@.len() == 0),
{
}

/// A listing is free of repeats, and a set has only one listing: the order in
/// which its names were found leaves no trace in it.
pub proof fn lemma_listing_unique(a: Seq<Seq<char>>, b: Seq<Seq<char>>, s: Set<Seq<char>>)
    requires
        is_listing(a, s),
        is_listing(b, s),
    ensures
        a.no_duplicates(),
        a == b,
    decreases a.len(),
{
    lemma_sorted_no_duplicates(a);
    lemma_sorted_no_duplicates(b);
    if a.len() == 0 {
        if b.len() > 0 {
            assert(b.to_set().contains(b[0]));
            assert(!a.contains(b[0]));
        }
        assert(a =~= b);
    } else if b.len() == 0 {
        assert(a.to_set().contains(a[0]));
        assert(!b.contains(a[0]));
    } else {
        // both start with the least name of `s`
        assert(a.to_set().contains(b[0]));
        assert(b.to_set().contains(a[0]));
        let i = a.index_of(b[0]);
        let j = b.index_of(a[0]);
        if a[0] != b[0] {
            assert(i > 0 && j > 0);
            assert(lex_lt(a[0], a[i]));
            assert(lex_lt(b[0], b[j]));
            lemma_lex_asymmetric(a[0], b[0]);
        }
        let a1 = a.drop_first();
        let b1 = b.drop_first();
        let s1 = s.remove(a[0]);
        assert forall|x: Seq<char>| a1.contains(x) <==> s1.contains(x) by {
            if a1.contains(x) {
                let k = a1.index_of(x);
                assert(a[k + 1] == x);
                assert(a.to_set().contains(x));
            }
            if s1.contains(x) {
                let k = a.index_of(x);
                assert(k != 0);
                assert(a1[k - 1] == x);
            }
        }
        assert forall|x: Seq<char>| b1.contains(x) <==> s1.contains(x) by {
            if b1.contains(x) {
                let k = b1.index_of(x);
                assert(b[k + 1] == x);
                assert(b.to_set().contains(x));
            }
            if s1.contains(x) {
                assert(b.to_set().contains(x));
                let k = b.index_of(x);
                assert(k != 0);
                assert(b1[k - 1] == x);
            }
        }
        assert(a1.to_set() =~= s1);
        assert(b1.to_set() =~= s1);
        lemma_listing_unique(a1, b1, s1);
        assert(a =~= seq![a[0]] + a1);
        assert(b =~= seq![b[0]] + b1);
    }
}

} // verus!
