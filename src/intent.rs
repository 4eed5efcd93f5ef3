//! What a nix-darwin profile declares: the manifest its activation script installs from.

use crate::error::{Error, Result};
use crate::names::NameSet;
use crate::system::SystemQuery;
use crate::text::{chars_of, find_char, find_char_from, lines_of, split_lines, substring, trim, trim_bounds};
use vstd::prelude::*;

verus! {

/// The directives of the manifest that declare something.
#[derive(PartialEq, Eq, Structural, Clone, Copy)]
pub enum Directive {
    Brew,
    Cask,
    Tap,
    Mas,
}

/// The text a directive line starts with, up to and including its first quote.
pub open spec fn directive_prefix(d: Directive) -> Seq<char> {
    match d {
        Directive::Brew => seq!['b', 'r', 'e', 'w', ' ', '"'],
        Directive::Cask => seq!['c', 'a', 's', 'k', ' ', '"'],
        Directive::Tap => seq!['t', 'a', 'p', ' ', '"'],
        Directive::Mas => seq!['m', 'a', 's', ' ', '"'],
    }
}

fn prefix_chars(d: Directive) -> (r: Vec<char>)
    ensures
        r@ == directive_prefix(d),
{
    let r = match d {
        Directive::Brew => vec!['b', 'r', 'e', 'w', ' ', '"'],
        Directive::Cask => vec!['c', 'a', 's', 'k', ' ', '"'],
        Directive::Tap => vec!['t', 'a', 'p', ' ', '"'],
        Directive::Mas => vec!['m', 'a', 's', ' ', '"'],
    };
    assert(r@ =~= directive_prefix(d));
    r
}

pub open spec fn starts_with(t: Seq<char>, p: Seq<char>) -> bool {
    p.len() <= t.len() && t.take(p.len() as int) == p
}

fn has_prefix(t: &Vec<char>, p: &Vec<char>) -> (r: bool)
    ensures
        r == starts_with(t@, p@),
{
    if p.len() > t.len() {
        return false;
    }
    let mut i: usize = 0;
    while i < p.len()
        invariant
            p@.len() <= t@.len(),
            i <= p@.len(),
            forall|k: int| 0 <= k < i ==> t@[k] == p@[k],
        decreases p@.len() - i,
    {
        if t[i] != p[i] {
            assert(t@.take(p@.len() as int)[i as int] != p@[i as int]);
            return false;
        }
        i = i + 1;
    }
    assert(t@.take(p@.len() as int) =~= p@);
    true
}

/// The text between the first double quote of `t` and the next one.
pub open spec fn quoted_value(t: Seq<char>) -> Option<Seq<char>> {
    match find_char(t, '"', 0) {
        Some(a) => match find_char(t, '"', a + 1) {
            Some(b) => Some(t.subrange(a + 1, b)),
            None => None,
        },
        None => None,
    }
}

/// The first index at or after `i` where `pat` begins in `s`.
pub open spec fn find_text(s: Seq<char>, pat: Seq<char>, i: int) -> Option<int>
    decreases s.len() + 1 - i,
{
    if i < 0 || i + pat.len() > s.len() {
        None
    } else if s.subrange(i, i + pat.len()) == pat {
        Some(i)
    } else {
        find_text(s, pat, i + 1)
    }
}

pub open spec fn id_marker() -> Seq<char> {
    seq!['i', 'd', ':']
}

/// The app-store id of a `mas` line: the text after the first `id:` up to the
/// next `id:` (or the end), trimmed.
pub open spec fn mas_id(t: Seq<char>) -> Option<Seq<char>> {
    match find_text(t, id_marker(), 0) {
        Some(p) => {
            let from = p + 3;
            let to = match find_text(t, id_marker(), from) {
                Some(q) => q,
                None => t.len() as int,
            };
            Some(trim(t.subrange(from, to)))
        },
        None => None,
    }
}

/// How an app-store app is named in a set: `"<name> (<id>)"`.
pub open spec fn app_entry(name: Seq<char>, id: Seq<char>) -> Seq<char> {
    name + seq![' ', '('] + id + seq![')']
}

/// What one raw line of a manifest declares under directive `d`, if anything.
pub open spec fn line_entry(raw: Seq<char>, d: Directive) -> Option<Seq<char>> {
    let t = trim(raw);
    if !starts_with(t, directive_prefix(d)) {
        None
    } else if d == Directive::Mas {
        match (quoted_value(t), mas_id(t)) {
            (Some(n), Some(id)) => Some(app_entry(n, id)),
            _ => None,
        }
    } else {
        quoted_value(t)
    }
}

/// All that `lines` declare under directive `d`.
pub open spec fn declared(lines: Seq<Seq<char>>, d: Directive) -> Set<Seq<char>> {
    Set::new(|n: Seq<char>| exists|i: int| 0 <= i < lines.len() && line_entry(lines[i], d) == Some(n))
}

proof fn lemma_declared_step(lines: Seq<Seq<char>>, i: int, d: Directive)
    requires
        0 <= i < lines.len(),
    ensures
        declared(lines.take(i + 1), d) == match line_entry(lines[i], d) {
            Some(n) => declared(lines.take(i), d).insert(n),
            None => declared(lines.take(i), d),
        },
{
    let a = lines.take(i + 1);
    let b = lines.take(i);
    let rhs = match line_entry(lines[i], d) {
        Some(n) => declared(b, d).insert(n),
        None => declared(b, d),
    };
    assert forall|n: Seq<char>| declared(a, d).contains(n) <==> rhs.contains(n) by {
        if declared(a, d).contains(n) {
            let k = choose|k: int| 0 <= k < a.len() && line_entry(a[k], d) == Some(n);
            if k < i {
                assert(b[k] == a[k]);
            }
        }
        if declared(b, d).contains(n) {
            let k = choose|k: int| 0 <= k < b.len() && line_entry(b[k], d) == Some(n);
            assert(a[k] == b[k]);
        }
        if line_entry(lines[i], d) == Some(n) {
            assert(a[i] == lines[i]);
        }
    }
    assert(declared(a, d) =~= rhs);
}

/// The first index at or after `from` where `pat` begins in `cs`.
fn find_text_from(cs: &Vec<char>, pat: &Vec<char>, from: usize) -> (r: Option<usize>)
    ensures
        r matches Some(k) ==> find_text(cs@, pat@, from as int) == Some(k as int),
        r is None ==> find_text(cs@, pat@, from as int) is None,
{
    let n = cs.len();
    let m = pat.len();
    if m > n {
        return None;
    }
    let mut i: usize = from;
    while i <= n - m
        invariant
            m == pat@.len(),
            n == cs@.len(),
            m <= n,
            from <= i,
            find_text(cs@, pat@, from as int) == find_text(cs@, pat@, i as int),
        decreases n - i,
    {
        let mut j: usize = 0;
        while j < m && cs[i + j] == pat[j]
            invariant
                i + m <= n,
                m == pat@.len(),
                n == cs@.len(),
                j <= m,
                forall|k: int| 0 <= k < j ==> cs@[i + k] == pat@[k],
            decreases m - j,
        {
            j = j + 1;
        }
        if j == m {
            assert(cs@.subrange(i as int, i + m) =~= pat@);
            return Some(i);
        }
        assert(cs@.subrange(i as int, i + m)[j as int] != pat@[j as int]);
        i = i + 1;
    }
    None
}

/// The quoted value of the trimmed line `t` (whose characters are `cs`).
fn quoted_of(t: &str, cs: &Vec<char>) -> (r: Option<String>)
    requires
        cs@ == t@,
    ensures
        r matches Some(v) ==> quoted_value(t@) == Some(v@),
        r is None ==> quoted_value(t@) is None,
{
    let n = cs.len();
    proof {
        lemma_find_char_at_least(cs@, '"', 0);
    }
    match find_char_from(cs, '"', 0) {
        Some(a) => match find_char_from(cs, '"', {
            assert(find_char(cs@, '"', 0) == Some(a as int));
            assert(a < cs@.len());
            a + 1
        }) {
            Some(b) => {
                proof {
                    lemma_find_char_at_least(cs@, '"', a + 1);
                }
                Some(substring(t, a + 1, b))
            },
            None => None,
        },
        None => None,
    }
}

proof fn lemma_find_char_at_least(s: Seq<char>, c: char, i: int)
    ensures
        find_char(s, c, i) matches Some(k) ==> i <= k < s.len() && s[k] == c,
    decreases s.len() - i,
{
    if 0 <= i < s.len() && s[i] != c {
        lemma_find_char_at_least(s, c, i + 1);
    }
}

proof fn lemma_find_text_at_least(s: Seq<char>, pat: Seq<char>, i: int)
    ensures
        find_text(s, pat, i) matches Some(k) ==> i <= k && k + pat.len() <= s.len(),
    decreases s.len() + 1 - i,
{
    if 0 <= i && i + pat.len() <= s.len() && s.subrange(i, i + pat.len()) != pat {
        lemma_find_text_at_least(s, pat, i + 1);
    }
}

/// The id of the trimmed `mas` line `t` (whose characters are `cs`).
fn mas_id_of(t: &str, cs: &Vec<char>) -> (r: Option<String>)
    requires
        cs@ == t@,
    ensures
        r matches Some(v) ==> mas_id(t@) == Some(v@),
        r is None ==> mas_id(t@) is None,
{
    let n = cs.len();
    let marker = vec!['i', 'd', ':'];
    assert(marker@ =~= id_marker());
    match find_text_from(cs, &marker, 0) {
        Some(p) => {
            proof {
                lemma_find_text_at_least(cs@, marker@, 0);
                assert(find_text(cs@, marker@, 0) == Some(p as int));
                assert(marker@.len() == 3);
                assert(p + 3 <= cs@.len());
            }
            let from = p + 3;
            let to = match find_text_from(cs, &marker, from) {
                Some(q) => {
                    proof {
                        lemma_find_text_at_least(cs@, marker@, from as int);
                    }
                    q
                },
                None => cs.len(),
            };
            let part = substring(t, from, to);
            let pcs = chars_of(part.as_str());
            let (lo, hi) = trim_bounds(&pcs);
            Some(substring(part.as_str(), lo, hi))
        },
        None => None,
    }
}

proof fn lemma_prefix_first(t: Seq<char>, d: Directive)
    requires
        starts_with(t, directive_prefix(d)),
    ensures
        t.len() > 0,
        t[0] == directive_prefix(d)[0],
{
    assert(t.take(directive_prefix(d).len() as int)[0] == t[0]);
}

/// What the raw manifest line `line` declares, and under which directive.
fn entry_of(line: &str) -> (r: Option<(Directive, String)>)
    ensures
        forall|d: Directive| #[trigger]
            line_entry(line@, d) == match r {
                Some((e, n)) => if e == d {
                    Some(n@)
                } else {
                    None
                },
                None => None,
            },
{
    let raw = chars_of(line);
    let (lo, hi) = trim_bounds(&raw);
    let trimmed = substring(line, lo, hi);
    let t = chars_of(trimmed.as_str());
    assert(raw@ == line@);
    let ghost tv = t@;
    let kinds = [Directive::Brew, Directive::Cask, Directive::Tap, Directive::Mas];
    let mut i: usize = 0;
    while i < 4
        invariant
            i <= 4,
            tv == trim(line@),
            t@ == tv,
            trimmed@ == tv,
            kinds@ == seq![Directive::Brew, Directive::Cask, Directive::Tap, Directive::Mas],
            forall|k: int| 0 <= k < i ==> !starts_with(tv, #[trigger] directive_prefix(kinds@[k])),
        decreases 4 - i,
    {
        let d = kinds[i];
        let p = prefix_chars(d);
        if has_prefix(&t, &p) {
            proof {
                // the prefixes differ in their first character
                lemma_prefix_first(tv, d);
                assert forall|e: Directive| e != d implies !starts_with(tv, #[trigger] directive_prefix(e)) by {
                    if starts_with(tv, directive_prefix(e)) {
                        lemma_prefix_first(tv, e);
                    }
                }
            }
            let value = if d == Directive::Mas {
                match HomebrewIntent::parse_mas_line(trimmed.as_str()) {
                    Some((n, id)) => {
                        proof {
                            reveal_strlit(" (");
                            reveal_strlit(")");
                        }
                        let e = n.concat(" (").concat(id.as_str()).concat(")");
                        assert(e@ =~= app_entry(n@, id@));
                        Some(e)
                    },
                    None => None,
                }
            } else {
                HomebrewIntent::extract_quoted_value(trimmed.as_str())
            };
            return match value {
                Some(v) => Some((d, v)),
                None => None,
            };
        }
        i = i + 1;
    }
    proof {
        assert forall|e: Directive| !starts_with(tv, #[trigger] directive_prefix(e)) by {
            match e {
                Directive::Brew => assert(kinds@[0] == e),
                Directive::Cask => assert(kinds@[1] == e),
                Directive::Tap => assert(kinds@[2] == e),
                Directive::Mas => assert(kinds@[3] == e),
            }
        }
    }
    None
}

/// The start of the activation-script command that installs from a manifest.
pub open spec fn bundle_prefix() -> Seq<char> {
    seq!['b', 'r', 'e', 'w', ' ', 'b', 'u', 'n', 'd', 'l', 'e', ' ', '-', '-', 'f', 'i', 'l', 'e', '=', '\'']
}

/// The file name that a manifest path ends in.
pub open spec fn manifest_name() -> Seq<char> {
    seq!['B', 'r', 'e', 'w', 'f', 'i', 'l', 'e']
}

/// The manifest path of a bundle command starting at `i`: the text from the
/// end of the prefix to the next single quote, when it is longer than and ends
/// in the manifest file name.
pub open spec fn reference_at(s: Seq<char>, i: int) -> Option<Seq<char>> {
    if 0 <= i && starts_with(s.skip(i), bundle_prefix()) {
        let from = i + bundle_prefix().len();
        match find_char(s, '\'', from) {
            Some(q) => {
                let v = s.subrange(from, q);
                if v.len() > manifest_name().len() && v.skip(v.len() - manifest_name().len())
                    == manifest_name() {
                    Some(v)
                } else {
                    None
                }
            },
            None => None,
        }
    } else {
        None
    }
}

/// The manifest path of the first bundle command at or after `i` that names one.
pub open spec fn first_reference(s: Seq<char>, i: int) -> Option<Seq<char>>
    decreases s.len() + 1 - i,
{
    if i < 0 || i >= s.len() {
        None
    } else {
        match reference_at(s, i) {
            Some(v) => Some(v),
            None => first_reference(s, i + 1),
        }
    }
}

#[verifier::loop_isolation(false)]
fn reference_at_exec(script: &str, cs: &Vec<char>, i: usize) -> (r: Option<String>)
    requires
        cs@ == script@,
        i < cs@.len(),
    ensures
        r matches Some(v) ==> reference_at(script@, i as int) == Some(v@),
        r is None ==> reference_at(script@, i as int) is None,
{
    let p = vec![
        'b', 'r', 'e', 'w', ' ', 'b', 'u', 'n', 'd', 'l', 'e', ' ', '-', '-', 'f', 'i', 'l', 'e', '=', '\'',
    ];
    assert(p@ =~= bundle_prefix());
    let n = cs.len();
    if n - i < p.len() {
        proof {
            assert(!starts_with(script@.skip(i as int), bundle_prefix()));
        }
        return None;
    }
    let mut k: usize = 0;
    while k < p.len()
        invariant
            cs@ == script@,
            n == cs@.len(),
            i + p@.len() <= n,
            k <= p@.len(),
            p@ == bundle_prefix(),
            forall|j: int| 0 <= j < k ==> cs@[i + j] == p@[j],
        decreases p@.len() - k,
    {
        if cs[i + k] != p[k] {
            assert(script@.skip(i as int).take(p@.len() as int)[k as int] != p@[k as int]);
            return None;
        }
        k = k + 1;
    }
    assert(script@.skip(i as int).take(p@.len() as int) =~= p@);
    let from = i + p.len();
    proof {
        lemma_find_char_at_least(cs@, '\'', from as int);
    }
    match find_char_from(cs, '\'', from) {
        Some(q) => {
            let m = vec!['B', 'r', 'e', 'w', 'f', 'i', 'l', 'e'];
            assert(m@ =~= manifest_name());
            let v = substring(script, from, q);
            let vc = chars_of(v.as_str());
            if vc.len() <= m.len() {
                return None;
            }
            let off = vc.len() - m.len();
            let mut j: usize = 0;
            while j < m.len()
                invariant
                    off + m@.len() == vc@.len(),
                    j <= m@.len(),
                    forall|t: int| 0 <= t < j ==> vc@[off + t] == m@[t],
                decreases m@.len() - j,
            {
                if vc[off + j] != m[j] {
                    assert(vc@.skip(off as int)[j as int] != m@[j as int]);
                    return None;
                }
                j = j + 1;
            }
            assert(vc@.skip(off as int) =~= m@);
            Some(v)
        },
        None => None,
    }
}

/// The manifest path that the activation script installs from, if it names one.
pub fn manifest_reference(script: &str) -> (r: Option<String>)
    ensures
        r matches Some(v) ==> first_reference(script@, 0) == Some(v@),
        r is None ==> first_reference(script@, 0) is None,
{
    let cs = chars_of(script);
    let mut i: usize = 0;
    while i < cs.len()
        invariant
            cs@ == script@,
            i <= cs@.len(),
            first_reference(script@, 0) == first_reference(script@, i as int),
        decreases cs@.len() - i,
    {
        match reference_at_exec(script, &cs, i) {
            Some(v) => return Some(v),
            None => {},
        }
        i = i + 1;
    }
    None
}

/// `profile` joined with the activation script's name, as `Path::join` does it.
pub open spec fn activation_path(profile: Seq<char>) -> Seq<char> {
    let name = seq!['a', 'c', 't', 'i', 'v', 'a', 't', 'e'];
    if profile.len() == 0 {
        name
    } else if profile.last() == '/' {
        profile + name
    } else {
        profile + seq!['/'] + name
    }
}

/// The path of the activation script inside `profile`.
pub fn activation_script_path(profile: &str) -> (r: String)
    ensures
        r@ == activation_path(profile@),
{
    proof {
        reveal_strlit("activate");
        reveal_strlit("/activate");
    }
    let cs = chars_of(profile);
    let r = if cs.len() == 0 {
        String::from_str("activate")
    } else if cs[cs.len() - 1] == '/' {
        String::from_str(profile).concat("activate")
    } else {
        String::from_str(profile).concat("/activate")
    };
    assert(r@ =~= activation_path(profile@));
    r
}

/// The message for a manifest path that does not exist.
pub open spec fn missing_manifest_message(path: Seq<char>) -> Seq<char> {
    seq!['B', 'r', 'e', 'w', 'f', 'i', 'l', 'e', ' ', 'n', 'o', 't', ' ', 'f', 'o', 'u', 'n', 'd', ' ', 'a', 't', ':', ' '] + path
}

/// The formulae, casks, taps and app-store apps that a profile declares.
#[derive(Clone, Debug)]
pub struct HomebrewIntent {
    pub brews: NameSet,
    pub casks: NameSet,
    pub taps: NameSet,
    /// Entries of the form `"<name> (<id>)"`.
    pub mas_apps: NameSet,
}

impl Default for HomebrewIntent {
    fn default() -> (r: HomebrewIntent)
        ensures
            r.brews@ == Set::<Seq<char>>::empty(),
            r.casks@ == Set::<Seq<char>>::empty(),
            r.taps@ == Set::<Seq<char>>::empty(),
            r.mas_apps@ == Set::<Seq<char>>::empty(),
    {
        HomebrewIntent {
            brews: NameSet::new(),
            casks: NameSet::new(),
            taps: NameSet::new(),
            mas_apps: NameSet::new(),
        }
    }
}

impl PartialEq for HomebrewIntent {
    /// Equal when all four sets are equal.
    fn eq(&self, other: &HomebrewIntent) -> (r: bool)
        ensures
            r == (self.brews@ == other.brews@ && self.casks@ == other.casks@ && self.taps@
                == other.taps@ && self.mas_apps@ == other.mas_apps@),
    {
        self.brews == other.brews && self.casks == other.casks && self.taps == other.taps
            && self.mas_apps == other.mas_apps
    }
}

impl vstd::std_specs::cmp::PartialEqSpecImpl for HomebrewIntent {
    open spec fn obeys_eq_spec() -> bool {
        true
    }

    open spec fn eq_spec(&self, other: &HomebrewIntent) -> bool {
        self.brews@ == other.brews@ && self.casks@ == other.casks@ && self.taps@ == other.taps@
            && self.mas_apps@ == other.mas_apps@
    }
}

impl HomebrewIntent {
    /// Whether any formula, cask or app-store app is declared (taps do not count).
    pub fn has_packages(&self) -> (r: bool)
        ensures
            r == (self.brews@.len() > 0 || self.casks@.len() > 0 || self.mas_apps@.len() > 0),
    {
        !self.brews.is_empty() || !self.casks.is_empty() || !self.mas_apps.is_empty()
    }
}

impl HomebrewIntent {
    /// The intent holds exactly what the manifest `text` declares.
    pub open spec fn declares(&self, text: Seq<char>) -> bool {
        let lines = lines_of(text);
        &&& self.brews@ == declared(lines, Directive::Brew)
        &&& self.casks@ == declared(lines, Directive::Cask)
        &&& self.taps@ == declared(lines, Directive::Tap)
        &&& self.mas_apps@ == declared(lines, Directive::Mas)
    }

    /// The text between the first double quote of `line` and the next one.
    pub fn extract_quoted_value(line: &str) -> (r: Option<String>)
        ensures
            r matches Some(v) ==> quoted_value(line@) == Some(v@),
            r is None ==> quoted_value(line@) is None,
    {
        let cs = chars_of(line);
        quoted_of(line, &cs)
    }

    /// The name and id of a `mas "<name>", id: <id>` line.
    pub fn parse_mas_line(line: &str) -> (r: Option<(String, String)>)
        ensures
            match (quoted_value(line@), mas_id(line@)) {
                (Some(n), Some(id)) => r matches Some((a, b)) && a@ == n && b@ == id,
                _ => r is None,
            },
    {
        let cs = chars_of(line);
        match quoted_of(line, &cs) {
            Some(name) => match mas_id_of(line, &cs) {
                Some(id) => Some((name, id)),
                None => None,
            },
            None => None,
        }
    }

    /// The intent is what some manifest text declares.
    pub open spec fn from_some_manifest(&self) -> bool {
        exists|text: Seq<char>| #[trigger] self.declares(text)
    }

    /// Reads a manifest: `brew`, `cask`, `tap` and `mas` lines add to their
    /// sets; comments, blank lines and other directives are passed over.
    pub fn parse_brewfile(content: &str) -> (r: HomebrewIntent)
        ensures
            r.declares(content@),
    {
        let lines = split_lines(content);
        let ghost ls = lines_of(content@);
        let mut intent = HomebrewIntent::default();
        let mut i: usize = 0;
        while i < lines.len()
            invariant
                i <= lines@.len(),
                ls.len() == lines@.len(),
                forall|k: int| 0 <= k < ls.len() ==> #[trigger] ls[k] == lines@[k]@,
                intent.brews@ == declared(ls.take(i as int), Directive::Brew),
                intent.casks@ == declared(ls.take(i as int), Directive::Cask),
                intent.taps@ == declared(ls.take(i as int), Directive::Tap),
                intent.mas_apps@ == declared(ls.take(i as int), Directive::Mas),
            decreases lines@.len() - i,
        {
            proof {
                assert(ls[i as int] == lines@[i as int]@);
                lemma_declared_step(ls, i as int, Directive::Brew);
                lemma_declared_step(ls, i as int, Directive::Cask);
                lemma_declared_step(ls, i as int, Directive::Tap);
                lemma_declared_step(ls, i as int, Directive::Mas);
            }
            match entry_of(lines[i].as_str()) {
                Some((Directive::Brew, n)) => {
                    intent.brews.insert(n);
                },
                Some((Directive::Cask, n)) => {
                    intent.casks.insert(n);
                },
                Some((Directive::Tap, n)) => {
                    intent.taps.insert(n);
                },
                Some((Directive::Mas, n)) => {
                    intent.mas_apps.insert(n);
                },
                None => {},
            }
            i = i + 1;
        }
        proof {
            assert(ls.take(lines@.len() as int) =~= ls);
        }
        intent
    }

    /// The activation script's path when the host reports it exists; the
    /// missing-script error carrying that path when it does not.
    pub fn locate_activation_script(activate_path: String, exists: bool) -> (r: Result<String>)
        ensures
            exists ==> (r matches Ok(p) && p@ == activate_path@),
            !exists ==> (r matches Err(Error::NoActivationScript(p)) && p@ == activate_path@),
    {
        if exists {
            Ok(activate_path)
        } else {
            Err(Error::NoActivationScript(activate_path))
        }
    }

    /// The manifest path from the host's reading of the activation script:
    /// the first bundle command's path, `BrewfileNotFound` when there is none.
    pub fn manifest_path_from(script: std::result::Result<String, std::io::Error>) -> (r: Result<String>)
        ensures
            match script {
                Err(_) => r matches Err(e) && e is Io,
                Ok(t) => match first_reference(t@, 0) {
                    Some(p) => r matches Ok(x) && x@ == p,
                    None => r matches Err(Error::BrewfileNotFound),
                },
            },
    {
        match script {
            Ok(text) => match manifest_reference(text.as_str()) {
                Some(path) => Ok(path),
                None => Err(Error::BrewfileNotFound),
            },
            Err(e) => Err(Error::Io(e)),
        }
    }

    /// Nothing when the host reports the manifest exists; a parse error naming
    /// the missing path when it does not.
    pub fn locate_manifest(path: &str, exists: bool) -> (r: Result<()>)
        ensures
            exists <==> r is Ok,
            !exists ==> (r matches Err(Error::ParseError(m)) && m@ == missing_manifest_message(path@)),
    {
        if exists {
            return Ok(());
        }
        proof {
            reveal_strlit("Brewfile not found at: ");
        }
        let m = String::from_str("Brewfile not found at: ").concat(path);
        assert(m@ =~= missing_manifest_message(path@));
        Err(Error::ParseError(m))
    }

    /// The intent from the host's reading of the manifest: what its text declares.
    pub fn intent_from(manifest: std::result::Result<String, std::io::Error>) -> (r: Result<Self>)
        ensures
            match manifest {
                Err(_) => r matches Err(e) && e is Io,
                Ok(t) => r matches Ok(i) && i.declares(t@),
            },
            r matches Ok(i) ==> i.from_some_manifest(),
    {
        match manifest {
            Ok(text) => {
                let intent = Self::parse_brewfile(text.as_str());
                assert(intent.declares(text@));
                Ok(intent)
            },
            Err(e) => Err(Error::Io(e)),
        }
    }

    /// Extract Homebrew intent from a nix-darwin profile: find the activation
    /// script, the manifest it installs from, and read that manifest. Each
    /// decision on the host's answers is taken by `locate_activation_script`,
    /// `manifest_path_from`, `locate_manifest` and `intent_from`.
    pub fn extract<S: SystemQuery>(sys: &S, profile: &str) -> (r: Result<Self>)
        ensures
            r matches Err(Error::NoActivationScript(p)) ==> p@ == activation_path(profile@),
            r matches Ok(intent) ==> intent.from_some_manifest(),
            r matches Err(e) ==> (e is NoActivationScript || e is BrewfileNotFound || e is ParseError
                || e is Io),
    {
        let activate_path = activation_script_path(profile);
        let exists = sys.path_exists(activate_path.as_str());
        let script_path = match Self::locate_activation_script(activate_path, exists) {
            Ok(p) => p,
            Err(e) => return Err(e),
        };
        let path = match Self::manifest_path_from(sys.read_text(script_path.as_str())) {
            Ok(p) => p,
            Err(e) => return Err(e),
        };
        Self::read_brewfile(sys, path.as_str())
    }

    /// Reads the manifest at `path`; a missing file is a parse error naming it.
    pub fn read_brewfile<S: SystemQuery>(sys: &S, path: &str) -> (r: Result<Self>)
        ensures
            r matches Err(Error::ParseError(m)) ==> m@ == missing_manifest_message(path@),
            r matches Ok(intent) ==> intent.from_some_manifest(),
            r matches Err(e) ==> (e is ParseError || e is Io),
    {
        match Self::locate_manifest(path, sys.path_exists(path)) {
            Ok(()) => {},
            Err(e) => return Err(e),
        }
        Self::intent_from(sys.read_text(path))
    }
}

/// What a manifest declares does not depend on the order of its lines:
/// two texts whose lines are the same up to order declare the same names.
pub proof fn lemma_declared_order_independent(a: Seq<char>, b: Seq<char>, d: Directive)
    requires
        lines_of(a).to_multiset() == lines_of(b).to_multiset(),
    ensures
        declared(lines_of(a), d) == declared(lines_of(b), d),
{
    let la = lines_of(a);
    let lb = lines_of(b);
    la.to_multiset_ensures();
    lb.to_multiset_ensures();
    assert forall|n: Seq<char>| declared(la, d).contains(n) implies declared(lb, d).contains(n) by {
        let i = choose|i: int| 0 <= i < la.len() && line_entry(la[i], d) == Some(n);
        assert(la.contains(la[i]));
        assert(la.to_multiset().count(la[i]) > 0);
        assert(lb.contains(la[i]));
        let j = lb.index_of(la[i]);
        assert(line_entry(lb[j], d) == Some(n));
    }
    assert forall|n: Seq<char>| declared(lb, d).contains(n) implies declared(la, d).contains(n) by {
        let i = choose|i: int| 0 <= i < lb.len() && line_entry(lb[i], d) == Some(n);
        assert(lb.contains(lb[i]));
        assert(lb.to_multiset().count(lb[i]) > 0);
        assert(la.contains(lb[i]));
        let j = la.index_of(lb[i]);
        assert(line_entry(la[j], d) == Some(n));
    }
    assert(declared(la, d) =~= declared(lb, d));
}

/// Parsing is a function of the text, and manifests whose lines differ only in
/// order give the same intent.
pub proof fn lemma_parse_order_independent(x: HomebrewIntent, y: HomebrewIntent, a: Seq<char>, b: Seq<char>)
    requires
        x.declares(a),
        y.declares(b),
        lines_of(a).to_multiset() == lines_of(b).to_multiset(),
    ensures
        x.brews@ == y.brews@,
        x.casks@ == y.casks@,
        x.taps@ == y.taps@,
        x.mas_apps@ == y.mas_apps@,
{
    lemma_declared_order_independent(a, b, Directive::Brew);
    lemma_declared_order_independent(a, b, Directive::Cask);
    lemma_declared_order_independent(a, b, Directive::Tap);
    lemma_declared_order_independent(a, b, Directive::Mas);
}

} // verus!
