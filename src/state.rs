//! What Homebrew has installed, as its command-line tools report it.

use crate::error::{Error, Result};
use crate::intent::app_entry;
use crate::names::{NameSet, PackageMap};
use crate::system::{failure_message, output_text, query_stdout, CommandOutput, SystemQuery};
use crate::diff::lemma_push_to_set;
use crate::text::{chars_of, lines_of, pieces, split_lines, split_words, views, words};
use vstd::utf8::{decode_utf8, valid_utf8};
use vstd::prelude::*;

verus! {

/// The words of `ws` joined with single spaces.
pub open spec fn join_words(ws: Seq<Seq<char>>) -> Seq<char>
    decreases ws.len(),
{
    if ws.len() == 0 {
        Seq::empty()
    } else if ws.len() == 1 {
        ws[0]
    } else {
        join_words(ws.drop_last()) + seq![' '] + ws.last()
    }
}

fn join_with_spaces(ws: &Vec<String>, from: usize, to: usize) -> (r: String)
    requires
        from <= to <= ws@.len(),
    ensures
        r@ == join_words(views(ws@).subrange(from as int, to as int)),
{
    let mut r = String::new();
    let mut i: usize = from;
    proof {
        reveal_strlit(" ");
    }
    while i < to
        invariant
            from <= i <= to <= ws@.len(),
            r@ == join_words(views(ws@).subrange(from as int, i as int)),
        decreases to - i,
    {
        let ghost before = r@;
        proof {
            reveal_strlit(" ");
        }
        if i > from {
            r.append(" ");
        }
        r.append(ws[i].as_str());
        proof {
            let part = views(ws@).subrange(from as int, i + 1);
            assert(part.drop_last() =~= views(ws@).subrange(from as int, i as int));
            assert(part.last() == ws@[i as int]@);
            if i == from {
                assert(before =~= Seq::<char>::empty());
                assert(r@ =~= part[0]);
            } else {
                assert(r@ =~= join_words(part.drop_last()) + seq![' '] + part.last());
            }
        }
        i = i + 1;
    }
    r
}

/// The version recorded when a line names no version.
pub open spec fn unknown_version() -> Seq<char> {
    seq!['u', 'n', 'k', 'n', 'o', 'w', 'n']
}

/// What a `name [version...]` line records: the first word, and the other
/// words joined with spaces (or the unknown version); nothing for a blank line.
pub open spec fn version_entry(line: Seq<char>) -> Option<(Seq<char>, Seq<char>)> {
    let w = words(line);
    if w.len() == 0 {
        None
    } else if w.len() == 1 {
        Some((w[0], unknown_version()))
    } else {
        Some((w[0], join_words(w.skip(1))))
    }
}

/// The map that the lines record, a later line winning over an earlier one.
pub open spec fn versions_map(lines: Seq<Seq<char>>) -> Map<Seq<char>, Seq<char>>
    decreases lines.len(),
{
    if lines.len() == 0 {
        Map::empty()
    } else {
        let m = versions_map(lines.drop_last());
        match version_entry(lines.last()) {
            Some((n, v)) => m.insert(n, v),
            None => m,
        }
    }
}

/// The index of the last word of `ws` that starts with `(`.
pub open spec fn last_parenthesized(ws: Seq<Seq<char>>) -> Option<int>
    decreases ws.len(),
{
    if ws.len() == 0 {
        None
    } else if ws.last().len() > 0 && ws.last()[0] == '(' {
        Some(ws.len() - 1)
    } else {
        last_parenthesized(ws.drop_last())
    }
}

/// What an app-store listing line `<id> <name words...> (<version>)` records:
/// `"<name> (<id>)"`, the name being the words between the id and the last
/// parenthesized word; nothing for a line of fewer than two words.
pub open spec fn app_line_entry(line: Seq<char>) -> Option<Seq<char>> {
    let w = words(line);
    if w.len() < 2 {
        None
    } else {
        let rest = w.skip(1);
        let name = match last_parenthesized(rest) {
            Some(k) => rest.take(k),
            None => rest,
        };
        Some(app_entry(join_words(name), w[0]))
    }
}

/// The app-store entries that the listing lines record.
pub open spec fn reported_apps(lines: Seq<Seq<char>>) -> Set<Seq<char>> {
    Set::new(|e: Seq<char>| exists|i: int| 0 <= i < lines.len() && app_line_entry(lines[i]) == Some(e))
}

proof fn lemma_reported_apps_step(lines: Seq<Seq<char>>, i: int)
    requires
        0 <= i < lines.len(),
    ensures
        reported_apps(lines.take(i + 1)) == match app_line_entry(lines[i]) {
            Some(e) => reported_apps(lines.take(i)).insert(e),
            None => reported_apps(lines.take(i)),
        },
{
    let a = lines.take(i + 1);
    let b = lines.take(i);
    let rhs = match app_line_entry(lines[i]) {
        Some(e) => reported_apps(b).insert(e),
        None => reported_apps(b),
    };
    assert forall|e: Seq<char>| reported_apps(a).contains(e) <==> rhs.contains(e) by {
        if reported_apps(a).contains(e) {
            let k = choose|k: int| 0 <= k < a.len() && app_line_entry(a[k]) == Some(e);
            if k < i {
                assert(b[k] == a[k]);
            }
        }
        if reported_apps(b).contains(e) {
            let k = choose|k: int| 0 <= k < b.len() && app_line_entry(b[k]) == Some(e);
            assert(a[k] == b[k]);
        }
        if app_line_entry(lines[i]) == Some(e) {
            assert(a[i] == lines[i]);
        }
    }
    assert(reported_apps(a) =~= rhs);
}

/// Whether the first character of `w` is `(`.
fn opens_paren(w: &str) -> (r: bool)
    ensures
        r == (w@.len() > 0 && w@[0] == '('),
{
    let cs = chars_of(w);
    cs.len() > 0 && cs[0] == '('
}

/// What one app-store listing line records.
fn app_of_line(line: &str) -> (r: Option<String>)
    ensures
        r matches Some(e) ==> app_line_entry(line@) == Some(e@),
        r is None ==> app_line_entry(line@) is None,
{
    let ws = split_words(line);
    if ws.len() < 2 {
        return None;
    }
    let ghost w = views(ws@);
    let ghost rest = w.skip(1);
    let mut k: usize = ws.len();
    assert(rest.take(k - 1) =~= rest);
    while k > 1 && !opens_paren(ws[k - 1].as_str())
        invariant
            1 <= k <= ws@.len(),
            w == views(ws@),
            rest == w.skip(1),
            last_parenthesized(rest) == last_parenthesized(rest.take(k - 1)),
        decreases k,
    {
        proof {
            assert(rest.take(k - 1).drop_last() =~= rest.take(k - 2));
            assert(rest.take(k - 1).last() == ws@[k - 1]@);
        }
        k = k - 1;
    }
    let end = if k > 1 {
        proof {
            assert(rest.take(k - 1).last() == ws@[k - 1]@);
        }
        k - 1
    } else {
        ws.len()
    };
    proof {
        if k > 1 {
            assert(last_parenthesized(rest) == Some(k - 2));
            assert(rest.take(k - 2) =~= w.subrange(1, end as int));
        } else {
            assert(rest.take(0) =~= Seq::<Seq<char>>::empty());
            assert(rest =~= w.subrange(1, end as int));
        }
    }
    let name = join_with_spaces(&ws, 1, end);
    proof {
        reveal_strlit(" (");
        reveal_strlit(")");
    }
    let e = name.concat(" (").concat(ws[0].as_str()).concat(")");
    assert(e@ =~= app_entry(name@, w[0]));
    Some(e)
}

/// The name and version that one `name [version...]` line records.
fn version_of_line(line: &str) -> (r: Option<(String, String)>)
    ensures
        r matches Some((n, v)) ==> version_entry(line@) == Some((n@, v@)),
        r is None ==> version_entry(line@) is None,
{
    let ws = split_words(line);
    if ws.len() == 0 {
        return None;
    }
    let name = ws[0].clone();
    let version = if ws.len() > 1 {
        let v = join_with_spaces(&ws, 1, ws.len());
        assert(views(ws@).subrange(1, ws@.len() as int) =~= words(line@).skip(1));
        v
    } else {
        proof {
            reveal_strlit("unknown");
        }
        let v = String::from_str("unknown");
        assert(v@ =~= unknown_version());
        v
    };
    Some((name, version))
}

/// `m` is what some `name [version...]` listing reports.
pub open spec fn listed_versions(m: Map<Seq<char>, Seq<char>>) -> bool {
    exists|t: Seq<char>| #[trigger] versions_map(lines_of(t)) == m
}

/// `s` is what some tap listing reports.
pub open spec fn listed_taps(s: Set<Seq<char>>) -> bool {
    exists|t: Seq<char>| #[trigger] lines_of(t).to_set() == s
}

/// `s` is what some app-store listing reports.
pub open spec fn listed_apps(s: Set<Seq<char>>) -> bool {
    exists|t: Seq<char>| #[trigger] reported_apps(lines_of(t)) == s
}

/// An empty listing reports nothing.
proof fn lemma_empty_listing()
    ensures
        listed_versions(Map::empty()),
        listed_taps(Set::empty()),
        listed_apps(Set::empty()),
{
    let e = Seq::<char>::empty();
    assert(pieces(e) == seq![Seq::<char>::empty()]);
    assert(lines_of(e) =~= Seq::<Seq<char>>::empty());
    assert(versions_map(lines_of(e)) =~= Map::<Seq<char>, Seq<char>>::empty());
    assert(lines_of(e).to_set() =~= Set::<Seq<char>>::empty());
    assert(reported_apps(lines_of(e)) =~= Set::<Seq<char>>::empty());
}

/// The installed formulae and casks (name to version), taps and app-store apps.
#[derive(Clone, Debug)]
pub struct HomebrewState {
    pub installed_brews: PackageMap,
    pub installed_casks: PackageMap,
    pub installed_taps: NameSet,
    /// Entries of the form `"<name> (<id>)"`.
    pub installed_mas_apps: NameSet,
}

impl Default for HomebrewState {
    fn default() -> (r: HomebrewState)
        ensures
            r.installed_brews@ == Map::<Seq<char>, Seq<char>>::empty(),
            r.installed_casks@ == Map::<Seq<char>, Seq<char>>::empty(),
            r.installed_taps@ == Set::<Seq<char>>::empty(),
            r.installed_mas_apps@ == Set::<Seq<char>>::empty(),
    {
        HomebrewState {
            installed_brews: PackageMap::new(),
            installed_casks: PackageMap::new(),
            installed_taps: NameSet::new(),
            installed_mas_apps: NameSet::new(),
        }
    }
}

impl HomebrewState {
    /// Every part of the state is what some listing reports.
    pub open spec fn from_some_listings(&self) -> bool {
        &&& listed_versions(self.installed_brews@)
        &&& listed_versions(self.installed_casks@)
        &&& listed_taps(self.installed_taps@)
        &&& listed_apps(self.installed_mas_apps@)
    }

    /// Reads `name [version...]` lines, as `brew list --versions` prints them.
    pub fn parse_list_versions_output(output: &[u8]) -> (r: Result<PackageMap>)
        ensures
            r is Ok <==> valid_utf8(output@),
            r matches Ok(m) ==> m@ == versions_map(lines_of(decode_utf8(output@))),
            r matches Ok(m) ==> listed_versions(m@),
            r matches Err(e) ==> e is Utf8,
    {
        let mut bytes: Vec<u8> = Vec::new();
        let mut k: usize = 0;
        while k < output.len()
            invariant
                k <= output@.len(),
                bytes@ == output@.take(k as int),
            decreases output@.len() - k,
        {
            bytes.push(output[k]);
            assert(bytes@ =~= output@.take(k + 1));
            k = k + 1;
        }
        assert(bytes@ =~= output@);
        let content = match output_text(bytes) {
            Ok(c) => c,
            Err(e) => return Err(e),
        };
        let lines = split_lines(content.as_str());
        let ghost ls = lines_of(content@);
        let mut result = PackageMap::new();
        let mut i: usize = 0;
        while i < lines.len()
            invariant
                i <= lines@.len(),
                ls == views(lines@),
                result@ == versions_map(ls.take(i as int)),
            decreases lines@.len() - i,
        {
            proof {
                assert(ls.take(i + 1).drop_last() =~= ls.take(i as int));
                assert(ls.take(i + 1).last() == lines@[i as int]@);
            }
            match version_of_line(lines[i].as_str()) {
                Some((name, version)) => {
                    result.insert(name, version);
                },
                None => {},
            }
            i = i + 1;
        }
        assert(ls.take(lines@.len() as int) =~= ls);
        assert(versions_map(lines_of(content@)) == result@);
        Ok(result)
    }

    /// Reads the app-store listing, one `<id> <name...> (<version>)` line per app.
    pub fn parse_mas_output(content: &str) -> (r: NameSet)
        ensures
            r@ == reported_apps(lines_of(content@)),
            listed_apps(r@),
    {
        let lines = split_lines(content);
        let ghost ls = lines_of(content@);
        let mut apps = NameSet::new();
        let mut i: usize = 0;
        while i < lines.len()
            invariant
                i <= lines@.len(),
                ls == views(lines@),
                apps@ == reported_apps(ls.take(i as int)),
            decreases lines@.len() - i,
        {
            proof {
                assert(ls[i as int] == lines@[i as int]@);
                lemma_reported_apps_step(ls, i as int);
            }
            match app_of_line(lines[i].as_str()) {
                Some(e) => {
                    apps.insert(e);
                },
                None => {},
            }
            i = i + 1;
        }
        assert(ls.take(lines@.len() as int) =~= ls);
        assert(reported_apps(lines_of(content@)) == apps@);
        apps
    }

    /// Reads the tap listing: every line is a tap.
    pub fn parse_taps_output(content: &str) -> (r: NameSet)
        ensures
            r@ == lines_of(content@).to_set(),
            listed_taps(r@),
    {
        let lines = split_lines(content);
        let ghost ls = lines_of(content@);
        let mut taps = NameSet::new();
        let mut i: usize = 0;
        while i < lines.len()
            invariant
                i <= lines@.len(),
                ls == views(lines@),
                taps@ == ls.take(i as int).to_set(),
            decreases lines@.len() - i,
        {
            proof {
                assert(ls.take(i + 1) =~= ls.take(i as int).push(lines@[i as int]@));
                lemma_push_to_set(ls.take(i as int), lines@[i as int]@);
            }
            taps.insert(lines[i].clone());
            i = i + 1;
        }
        assert(ls.take(lines@.len() as int) =~= ls);
        assert(lines_of(content@).to_set() == taps@);
        taps
    }

    /// Whether Homebrew stands at one of its usual install paths.
    pub fn homebrew_installed<S: SystemQuery>(sys: &S) -> bool {
        sys.path_exists("/opt/homebrew/bin/brew") || sys.path_exists("/usr/local/bin/brew")
    }

    /// The Homebrew executable: the Apple Silicon path when it exists, else the Intel one.
    pub fn get_brew_command<S: SystemQuery>(sys: &S) -> (r: &'static str)
        ensures
            r@ == "/opt/homebrew/bin/brew"@ || r@ == "/usr/local/bin/brew"@,
    {
        if sys.path_exists("/opt/homebrew/bin/brew") {
            "/opt/homebrew/bin/brew"
        } else {
            "/usr/local/bin/brew"
        }
    }

    /// The arguments that ask for the versions of `leaves`.
    pub fn versions_query_args(leaves: &Vec<String>) -> (r: Vec<String>)
        ensures
            views(r@) == seq!["list"@, "--versions"@] + views(leaves@),
    {
        let mut args: Vec<String> = Vec::new();
        args.push(String::from_str("list"));
        args.push(String::from_str("--versions"));
        let mut i: usize = 0;
        while i < leaves.len()
            invariant
                i <= leaves@.len(),
                views(args@) == seq!["list"@, "--versions"@] + views(leaves@).take(i as int),
            decreases leaves@.len() - i,
        {
            let ghost before = args@;
            args.push(leaves[i].clone());
            assert(views(args@) =~= views(before).push(leaves@[i as int]@));
            assert(views(leaves@).take(i + 1) =~= views(leaves@).take(i as int).push(leaves@[i as int]@));
            i = i + 1;
        }
        assert(views(leaves@).take(leaves@.len() as int) =~= views(leaves@));
        args
    }

    /// The Homebrew executable given which of its two install paths exist:
    /// none when neither does; the Apple Silicon path when it exists.
    pub fn brew_command(opt_exists: bool, usr_exists: bool) -> (r: Option<&'static str>)
        ensures
            r is None <==> (!opt_exists && !usr_exists),
            r matches Some(c) ==> (if opt_exists {
                c@ == "/opt/homebrew/bin/brew"@
            } else {
                c@ == "/usr/local/bin/brew"@
            }),
    {
        if opt_exists {
            Some("/opt/homebrew/bin/brew")
        } else if usr_exists {
            Some("/usr/local/bin/brew")
        } else {
            None
        }
    }

    /// A name-to-version category from the answer to its listing query:
    /// empty on a failure status, the parsed listing otherwise.
    pub fn versions_from(result: std::result::Result<CommandOutput, String>, what: &str) -> (r: Result<PackageMap>)
        ensures
            match result {
                Err(m) => r matches Err(Error::CommandFailed(x)) && x@ == failure_message(what@, m@),
                Ok(o) => if !o.success {
                    r matches Ok(p) && p@ == Map::<Seq<char>, Seq<char>>::empty()
                } else if valid_utf8(o.stdout@) {
                    r matches Ok(p) && p@ == versions_map(lines_of(decode_utf8(o.stdout@)))
                } else {
                    r matches Err(e) && e is Utf8
                },
            },
            r matches Ok(p) ==> listed_versions(p@),
    {
        proof {
            lemma_empty_listing();
        }
        match query_stdout(result, what) {
            Ok(Some(b)) => Self::parse_list_versions_output(b.as_slice()),
            Ok(None) => Ok(PackageMap::new()),
            Err(e) => Err(e),
        }
    }

    /// What the answer to `brew leaves` leads to: `None` when nothing more is
    /// to be asked (a failure status, or no leaves), else the arguments of the
    /// query for the leaves' versions.
    pub fn leaves_step(result: std::result::Result<CommandOutput, String>) -> (r: Result<Option<Vec<String>>>)
        ensures
            match result {
                Err(m) => r matches Err(Error::CommandFailed(x)) && x@ == failure_message(
                    "brew leaves"@,
                    m@,
                ),
                Ok(o) => if !o.success {
                    r matches Ok(None)
                } else if valid_utf8(o.stdout@) {
                    let leaves = lines_of(decode_utf8(o.stdout@));
                    if leaves.len() == 0 {
                        r matches Ok(None)
                    } else {
                        r matches Ok(Some(args)) && views(args@) == seq!["list"@, "--versions"@]
                            + leaves
                    }
                } else {
                    r matches Err(e) && e is Utf8
                },
            },
    {
        let out = match query_stdout(result, "brew leaves") {
            Ok(Some(b)) => b,
            Ok(None) => return Ok(None),
            Err(e) => return Err(e),
        };
        let text = match output_text(out) {
            Ok(t) => t,
            Err(e) => return Err(e),
        };
        let leaves = split_lines(text.as_str());
        if leaves.len() == 0 {
            return Ok(None);
        }
        Ok(Some(Self::versions_query_args(&leaves)))
    }

    /// The taps from the answer to `brew tap`: empty on a failure status,
    /// every line of the output otherwise.
    pub fn taps_from(result: std::result::Result<CommandOutput, String>) -> (r: Result<NameSet>)
        ensures
            match result {
                Err(m) => r matches Err(Error::CommandFailed(x)) && x@ == failure_message("brew tap"@, m@),
                Ok(o) => if !o.success {
                    r matches Ok(t) && t@ == Set::<Seq<char>>::empty()
                } else if valid_utf8(o.stdout@) {
                    r matches Ok(t) && t@ == lines_of(decode_utf8(o.stdout@)).to_set()
                } else {
                    r matches Err(e) && e is Utf8
                },
            },
            r matches Ok(t) ==> listed_taps(t@),
    {
        proof {
            lemma_empty_listing();
        }
        match query_stdout(result, "brew tap") {
            Ok(Some(b)) => match output_text(b) {
                Ok(t) => Ok(Self::parse_taps_output(t.as_str())),
                Err(e) => Err(e),
            },
            Ok(None) => Ok(NameSet::new()),
            Err(e) => Err(e),
        }
    }

    /// Whether the app-store helper is installed, from the answer to `which mas`.
    pub fn mas_helper_present(result: std::result::Result<CommandOutput, String>) -> (r: Result<bool>)
        ensures
            match result {
                Err(m) => r matches Err(Error::CommandFailed(x)) && x@ == failure_message("which mas"@, m@),
                Ok(o) => r matches Ok(b) && b == o.success,
            },
    {
        match query_stdout(result, "which mas") {
            Ok(Some(_)) => Ok(true),
            Ok(None) => Ok(false),
            Err(e) => Err(e),
        }
    }

    /// The app-store apps from the answer to `mas list`: empty on a failure
    /// status, the parsed listing otherwise.
    pub fn apps_from(result: std::result::Result<CommandOutput, String>) -> (r: Result<NameSet>)
        ensures
            match result {
                Err(m) => r matches Err(Error::CommandFailed(x)) && x@ == failure_message("mas list"@, m@),
                Ok(o) => if !o.success {
                    r matches Ok(a) && a@ == Set::<Seq<char>>::empty()
                } else if valid_utf8(o.stdout@) {
                    r matches Ok(a) && a@ == reported_apps(lines_of(decode_utf8(o.stdout@)))
                } else {
                    r matches Err(e) && e is Utf8
                },
            },
            r matches Ok(a) ==> listed_apps(a@),
    {
        proof {
            lemma_empty_listing();
        }
        match query_stdout(result, "mas list") {
            Ok(Some(b)) => match output_text(b) {
                Ok(t) => Ok(Self::parse_mas_output(t.as_str())),
                Err(e) => Err(e),
            },
            Ok(None) => Ok(NameSet::new()),
            Err(e) => Err(e),
        }
    }

    /// Formulae the user installed (not those pulled in as dependencies), with versions.
    fn get_installed_formulae<S: SystemQuery>(sys: &S, brew: &str) -> (r: Result<PackageMap>)
        ensures
            r matches Err(e) ==> (e is CommandFailed || e is Utf8),
            r matches Ok(m) ==> listed_versions(m@),
    {
        proof {
            lemma_empty_listing();
        }
        let leaves_args = vec![String::from_str("leaves")];
        match Self::leaves_step(sys.run(brew, &leaves_args)) {
            Ok(Some(args)) => Self::versions_from(sys.run(brew, &args), "brew list --versions"),
            Ok(None) => Ok(PackageMap::new()),
            Err(e) => Err(e),
        }
    }

    /// App-store apps, through the `mas` helper; none when it is not installed.
    fn get_mas_apps<S: SystemQuery>(sys: &S) -> (r: Result<NameSet>)
        ensures
            r matches Err(e) ==> (e is CommandFailed || e is Utf8),
            r matches Ok(a) ==> listed_apps(a@),
    {
        proof {
            lemma_empty_listing();
        }
        let which_args = vec![String::from_str("mas")];
        match Self::mas_helper_present(sys.run("which", &which_args)) {
            Ok(true) => {},
            Ok(false) => return Ok(NameSet::new()),
            Err(e) => return Err(e),
        }
        let args = vec![String::from_str("list")];
        Self::apps_from(sys.run("mas", &args))
    }

    /// Detect current Homebrew state by querying brew commands.
    ///
    /// Without Homebrew the state is empty (see `brew_command`). A query that
    /// cannot be started is an error; one that exits with a failure status
    /// counts as empty (see `versions_from`, `leaves_step`, `taps_from`,
    /// `mas_helper_present` and `apps_from`).
    pub fn detect<S: SystemQuery>(sys: &S) -> (r: Result<Self>)
        ensures
            r matches Err(e) ==> (e is CommandFailed || e is Utf8),
            r matches Ok(st) ==> st.from_some_listings(),
    {
        proof {
            lemma_empty_listing();
        }
        let opt_exists = sys.path_exists("/opt/homebrew/bin/brew");
        let usr_exists = sys.path_exists("/usr/local/bin/brew");
        let brew = match Self::brew_command(opt_exists, usr_exists) {
            Some(b) => b,
            None => return Ok(Self::default()),
        };
        let installed_brews = match Self::get_installed_formulae(sys, brew) {
            Ok(m) => m,
            Err(e) => return Err(e),
        };
        let cask_args = vec![String::from_str("list"), String::from_str("--cask"), String::from_str("--versions")];
        let installed_casks = match Self::versions_from(sys.run(brew, &cask_args), "brew list --cask") {
            Ok(m) => m,
            Err(e) => return Err(e),
        };
        let tap_args = vec![String::from_str("tap")];
        let installed_taps = match Self::taps_from(sys.run(brew, &tap_args)) {
            Ok(t) => t,
            Err(e) => return Err(e),
        };
        let installed_mas_apps = match Self::get_mas_apps(sys) {
            Ok(a) => a,
            Err(e) => return Err(e),
        };
        Ok(HomebrewState { installed_brews, installed_casks, installed_taps, installed_mas_apps })
    }
}

} // verus!
