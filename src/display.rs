//! Text reports of a diff: the block format, the grouped format and the summary line.

use crate::diff::HomebrewDiffData;
use crate::error::{Error, Result};
use crate::system::write_line;
use crate::text::views;
use owo_colors::OwoColorize;
use vstd::prelude::*;

verus! {

/// The terminal escape sequence `ESC [ <code> m`.
pub open spec fn ansi(code: Seq<char>) -> Seq<char> {
    seq!['\x1b', '['] + code + seq!['m']
}

/// Relies on owo_colors' `green`: the text between the codes that set the
/// foreground to green (32) and back to the default (39).
#[verifier::external_body]
fn paint_green(s: &str) -> (r: String)
    ensures
        r@ == ansi(seq!['3', '2']) + s@ + ansi(seq!['3', '9']),
{
    format!("{}", s.green())
}

/// Relies on owo_colors' `red`: the text between the codes that set the
/// foreground to red (31) and back to the default (39).
#[verifier::external_body]
fn paint_red(s: &str) -> (r: String)
    ensures
        r@ == ansi(seq!['3', '1']) + s@ + ansi(seq!['3', '9']),
{
    format!("{}", s.red())
}

/// Relies on owo_colors' `bold`: the text between the codes that set bold (1)
/// and reset all attributes (0).
#[verifier::external_body]
fn paint_bold(s: &str) -> (r: String)
    ensures
        r@ == ansi(seq!['1']) + s@ + ansi(seq!['0']),
{
    format!("{}", s.bold())
}

pub open spec fn green(s: Seq<char>) -> Seq<char> {
    ansi(seq!['3', '2']) + s + ansi(seq!['3', '9'])
}

pub open spec fn red(s: Seq<char>) -> Seq<char> {
    ansi(seq!['3', '1']) + s + ansi(seq!['3', '9'])
}

pub open spec fn bold(s: Seq<char>) -> Seq<char> {
    ansi(seq!['1']) + s + ansi(seq!['0'])
}

/// The marker of an added entry: a bold green `A`.
pub open spec fn added_mark() -> Seq<char> {
    bold(green(seq!['A']))
}

/// The marker of a removed entry: a bold red `R`.
pub open spec fn removed_mark() -> Seq<char> {
    bold(red(seq!['R']))
}

/// `[<mark>] <name>`
pub open spec fn marked(mark: Seq<char>, name: Seq<char>) -> Seq<char> {
    seq!['['] + mark + seq![']', ' '] + name
}

pub open spec fn marked_all(mark: Seq<char>, items: Seq<Seq<char>>) -> Seq<Seq<char>> {
    items.map_values(|x: Seq<char>| marked(mark, x))
}

/// A sub-header and one marked line per entry; nothing for no entries.
pub open spec fn section(title: Seq<char>, items: Seq<Seq<char>>, mark: Seq<char>) -> Seq<Seq<char>> {
    if items.len() == 0 {
        seq![]
    } else {
        seq![title] + marked_all(mark, items)
    }
}

pub open spec fn any_added(d: &HomebrewDiffData) -> bool {
    d.taps.added@.len() > 0 || d.brews.added@.len() > 0 || d.casks.added@.len() > 0
        || d.mas_apps.added@.len() > 0
}

pub open spec fn any_removed(d: &HomebrewDiffData) -> bool {
    d.taps.removed@.len() > 0 || d.brews.removed@.len() > 0 || d.casks.removed@.len() > 0
        || d.mas_apps.removed@.len() > 0
}

/// The sections of the block format in their order: taps, formulae, casks, app store.
pub open spec fn sections(
    taps: Seq<Seq<char>>,
    brews: Seq<Seq<char>>,
    casks: Seq<Seq<char>>,
    apps: Seq<Seq<char>>,
    mark: Seq<char>,
) -> Seq<Seq<char>> {
    section("Taps"@, taps, mark) + section("Formulae"@, brews, mark) + section("Casks"@, casks, mark)
        + section("App Store"@, apps, mark)
}

/// The lines of the block format: nothing without changes; else an `ADDED`
/// block, a blank line when removals follow, and a `REMOVED` block.
pub open spec fn block_lines(d: &HomebrewDiffData) -> Seq<Seq<char>> {
    let added = if any_added(d) {
        seq!["ADDED"@] + sections(
            views(d.taps.added@),
            views(d.brews.added@),
            views(d.casks.added@),
            views(d.mas_apps.added@),
            added_mark(),
        )
    } else {
        seq![]
    };
    let gap = if any_added(d) && any_removed(d) {
        seq![Seq::<char>::empty()]
    } else {
        seq![]
    };
    let removed = if any_removed(d) {
        seq!["REMOVED"@] + sections(
            views(d.taps.removed@),
            views(d.brews.removed@),
            views(d.casks.removed@),
            views(d.mas_apps.removed@),
            removed_mark(),
        )
    } else {
        seq![]
    };
    if !d.any_change() {
        seq![]
    } else {
        added + gap + removed
    }
}

fn push_marked(out: &mut Vec<String>, items: &Vec<String>, mark: &str)
    ensures
        views(final(out)@) == views(old(out)@) + marked_all(mark@, views(items@)),
{
    let mut i: usize = 0;
    while i < items.len()
        invariant
            i <= items@.len(),
            views(out@) == views(old(out)@) + marked_all(mark@, views(items@).take(i as int)),
        decreases items@.len() - i,
    {
        proof {
            reveal_strlit("[");
            reveal_strlit("] ");
        }
        let line = String::from_str("[").concat(mark).concat("] ").concat(items[i].as_str());
        let ghost before = out@;
        out.push(line);
        proof {
            assert(line@ =~= marked(mark@, items@[i as int]@));
            assert(views(out@) =~= views(before).push(line@));
            assert(marked_all(mark@, views(items@).take(i + 1)) =~= marked_all(
                mark@,
                views(items@).take(i as int),
            ).push(line@));
        }
        i = i + 1;
    }
    assert(views(items@).take(items@.len() as int) =~= views(items@));
}

fn push_section(out: &mut Vec<String>, title: &str, items: &Vec<String>, mark: &str)
    ensures
        views(final(out)@) == views(old(out)@) + section(title@, views(items@), mark@),
{
    if items.len() > 0 {
        let ghost before = out@;
        out.push(String::from_str(title));
        assert(views(out@) =~= views(before) + seq![title@]);
        push_marked(out, items, mark);
        assert(views(out@) =~= views(before) + section(title@, views(items@), mark@));
    } else {
        assert(views(out@) =~= views(out@) + section(title@, views(items@), mark@));
    }
}

fn push_sections(
    out: &mut Vec<String>,
    taps: &Vec<String>,
    brews: &Vec<String>,
    casks: &Vec<String>,
    apps: &Vec<String>,
    mark: &str,
)
    ensures
        views(final(out)@) == views(old(out)@) + sections(
            views(taps@),
            views(brews@),
            views(casks@),
            views(apps@),
            mark@,
        ),
{
    push_section(out, "Taps", taps, mark);
    push_section(out, "Formulae", brews, mark);
    push_section(out, "Casks", casks, mark);
    push_section(out, "App Store", apps, mark);
    assert(views(out@) =~= views(old(out)@) + sections(
        views(taps@),
        views(brews@),
        views(casks@),
        views(apps@),
        mark@,
    ));
}

/// The lines of the block format for `diff_data`.
pub fn diff_lines(diff_data: &HomebrewDiffData) -> (r: Vec<String>)
    ensures
        views(r@) == block_lines(diff_data),
{
    let mut out: Vec<String> = Vec::new();
    if !diff_data.has_changes() {
        assert(views(out@) =~= block_lines(diff_data));
        return out;
    }
    let d = diff_data;
    let any_add = !d.brews.added.is_empty() || !d.casks.added.is_empty()
        || !d.taps.added.is_empty() || !d.mas_apps.added.is_empty();
    let any_rem = !d.brews.removed.is_empty() || !d.casks.removed.is_empty()
        || !d.taps.removed.is_empty() || !d.mas_apps.removed.is_empty();
    let ghost added_part = if any_added(d) {
        seq!["ADDED"@] + sections(
            views(d.taps.added@),
            views(d.brews.added@),
            views(d.casks.added@),
            views(d.mas_apps.added@),
            added_mark(),
        )
    } else {
        seq![]
    };
    let ghost gap = if any_added(d) && any_removed(d) {
        seq![Seq::<char>::empty()]
    } else {
        seq![]
    };
    if any_add {
        proof {
            reveal_strlit("A");
        }
        let a = paint_bold(paint_green("A").as_str());
        assert(a@ =~= added_mark());
        out.push(String::from_str("ADDED"));
        push_sections(&mut out, &d.taps.added, &d.brews.added, &d.casks.added, &d.mas_apps.added, a.as_str());
        assert(views(out@) =~= added_part);
        if any_rem {
            out.push(String::new());
        }
    }
    assert(views(out@) =~= added_part + gap);
    let ghost mid = views(out@);
    if any_rem {
        proof {
            reveal_strlit("R");
        }
        let r = paint_bold(paint_red("R").as_str());
        assert(r@ =~= removed_mark());
        let ghost before = views(out@);
        out.push(String::from_str("REMOVED"));
        push_sections(&mut out, &d.taps.removed, &d.brews.removed, &d.casks.removed, &d.mas_apps.removed, r.as_str());
        assert(views(out@) =~= mid + (seq!["REMOVED"@] + sections(
            views(d.taps.removed@),
            views(d.brews.removed@),
            views(d.casks.removed@),
            views(d.mas_apps.removed@),
            removed_mark(),
        )));
    } else {
        assert(views(out@) =~= mid + Seq::<Seq<char>>::empty());
    }
    assert(views(out@) =~= block_lines(diff_data));
    out
}

/// Writes `lines`, one per line, and says how many.
fn write_all_lines<W: std::io::Write>(writer: &mut W, lines: &Vec<String>) -> (r: Result<usize>)
    ensures
        r matches Ok(n) ==> n == lines@.len(),
        r matches Err(e) ==> e is Io,
        lines@.len() == 0 ==> r matches Ok(0),
{
    let mut i: usize = 0;
    while i < lines.len()
        invariant
            i <= lines@.len(),
        decreases lines@.len() - i,
    {
        match write_line(writer, lines[i].as_str()) {
            Ok(()) => {},
            Err(e) => return Err(Error::Io(e)),
        }
        i = i + 1;
    }
    Ok(lines.len())
}

/// Write the diff output, returns number of lines written
pub fn write_diff<W: std::io::Write>(writer: &mut W, diff_data: &HomebrewDiffData) -> (r: Result<usize>)
    ensures
        r matches Ok(n) ==> n == block_lines(diff_data).len(),
        r matches Err(e) ==> e is Io,
        !diff_data.any_change() ==> r matches Ok(0),
{
    let lines = diff_lines(diff_data);
    assert(views(lines@).len() == lines@.len());
    write_all_lines(writer, &lines)
}

/// The two-line header naming the profiles compared, and a blank line.
pub open spec fn header_lines(current: Seq<char>, new: Seq<char>) -> Seq<Seq<char>> {
    seq!["<<< "@ + current, ">>> "@ + new, Seq::empty()]
}

/// The block format under a header naming the old and the new profile.
pub fn diff_lines_with_header(current_profile: &str, new_profile: &str, diff_data: &HomebrewDiffData) -> (r: Vec<String>)
    ensures
        views(r@) == header_lines(current_profile@, new_profile@) + block_lines(diff_data),
{
    let mut out: Vec<String> = Vec::new();
    out.push(String::from_str("<<< ").concat(current_profile));
    out.push(String::from_str(">>> ").concat(new_profile));
    out.push(String::new());
    let body = diff_lines(diff_data);
    let mut i: usize = 0;
    while i < body.len()
        invariant
            i <= body@.len(),
            views(out@) == header_lines(current_profile@, new_profile@) + views(body@).take(i as int),
        decreases body@.len() - i,
    {
        let ghost before = out@;
        out.push(body[i].clone());
        assert(views(out@) =~= views(before).push(body@[i as int]@));
        assert(views(body@).take(i + 1) =~= views(body@).take(i as int).push(body@[i as int]@));
        i = i + 1;
    }
    assert(views(body@).take(body@.len() as int) =~= views(body@));
    out
}

/// Write the diff output with header, returns number of lines written
pub fn write_diff_with_header<W: std::io::Write>(
    writer: &mut W,
    current_profile: &str,
    new_profile: &str,
    diff_data: &HomebrewDiffData,
) -> (r: Result<usize>)
    ensures
        r matches Ok(n) ==> n == 3 + block_lines(diff_data).len(),
        r matches Err(e) ==> e is Io,
{
    let lines = diff_lines_with_header(current_profile, new_profile, diff_data);
    assert(views(lines@).len() == lines@.len());
    assert(header_lines(current_profile@, new_profile@).len() == 3);
    write_all_lines(writer, &lines)
}

/// The marker of an entry to install: a green `+`.
pub open spec fn plus_mark() -> Seq<char> {
    green(seq!['+'])
}

/// The marker of an entry to uninstall: a red `-`.
pub open spec fn minus_mark() -> Seq<char> {
    red(seq!['-'])
}

/// `<mark> <name>`
pub open spec fn signed(mark: Seq<char>, name: Seq<char>) -> Seq<char> {
    mark + seq![' '] + name
}

pub open spec fn signed_all(mark: Seq<char>, items: Seq<Seq<char>>) -> Seq<Seq<char>> {
    items.map_values(|x: Seq<char>| signed(mark, x))
}

/// One category of the grouped format: a header, the additions, the removals;
/// nothing when the category has no change.
pub open spec fn group(title: Seq<char>, added: Seq<Seq<char>>, removed: Seq<Seq<char>>) -> Seq<Seq<char>> {
    if added.len() == 0 && removed.len() == 0 {
        seq![]
    } else {
        seq![title] + signed_all(plus_mark(), added) + signed_all(minus_mark(), removed)
    }
}

/// The lines of the grouped format: one "no changes" line without changes;
/// else formulae, casks and taps, each category that changes under a header.
pub open spec fn grouped_lines(d: &HomebrewDiffData) -> Seq<Seq<char>> {
    if !d.any_change() {
        seq!["No changes"@]
    } else {
        group("Formulae"@, views(d.brews.added@), views(d.brews.removed@)) + group(
            "Casks"@,
            views(d.casks.added@),
            views(d.casks.removed@),
        ) + group("Taps"@, views(d.taps.added@), views(d.taps.removed@))
    }
}

fn push_signed(out: &mut Vec<String>, items: &Vec<String>, mark: &str)
    ensures
        views(final(out)@) == views(old(out)@) + signed_all(mark@, views(items@)),
{
    let mut i: usize = 0;
    while i < items.len()
        invariant
            i <= items@.len(),
            views(out@) == views(old(out)@) + signed_all(mark@, views(items@).take(i as int)),
        decreases items@.len() - i,
    {
        proof {
            reveal_strlit(" ");
        }
        let line = String::from_str(mark).concat(" ").concat(items[i].as_str());
        let ghost before = out@;
        out.push(line);
        proof {
            assert(line@ =~= signed(mark@, items@[i as int]@));
            assert(views(out@) =~= views(before).push(line@));
            assert(signed_all(mark@, views(items@).take(i + 1)) =~= signed_all(
                mark@,
                views(items@).take(i as int),
            ).push(line@));
        }
        i = i + 1;
    }
    assert(views(items@).take(items@.len() as int) =~= views(items@));
}

fn push_group(out: &mut Vec<String>, title: &str, added: &Vec<String>, removed: &Vec<String>)
    ensures
        views(final(out)@) == views(old(out)@) + group(title@, views(added@), views(removed@)),
{
    if added.len() > 0 || removed.len() > 0 {
        proof {
            reveal_strlit("+");
            reveal_strlit("-");
        }
        let plus = paint_green("+");
        let minus = paint_red("-");
        assert(plus@ =~= plus_mark());
        assert(minus@ =~= minus_mark());
        let ghost before = views(out@);
        out.push(String::from_str(title));
        push_signed(out, added, plus.as_str());
        push_signed(out, removed, minus.as_str());
        assert(views(out@) =~= before + group(title@, views(added@), views(removed@)));
    } else {
        assert(views(out@) =~= views(out@) + group(title@, views(added@), views(removed@)));
    }
}

/// The lines of the grouped format for `diff_data`.
pub fn grouped_diff_lines(diff_data: &HomebrewDiffData) -> (r: Vec<String>)
    ensures
        views(r@) == grouped_lines(diff_data),
{
    let mut out: Vec<String> = Vec::new();
    if !diff_data.has_changes() {
        out.push(String::from_str("No changes"));
        assert(views(out@) =~= grouped_lines(diff_data));
        return out;
    }
    push_group(&mut out, "Formulae", &diff_data.brews.added, &diff_data.brews.removed);
    push_group(&mut out, "Casks", &diff_data.casks.added, &diff_data.casks.removed);
    push_group(&mut out, "Taps", &diff_data.taps.added, &diff_data.taps.removed);
    assert(views(out@) =~= grouped_lines(diff_data));
    out
}

/// Writes the grouped format, returns number of lines written
pub fn write_grouped_diff<W: std::io::Write>(writer: &mut W, diff_data: &HomebrewDiffData) -> (r: Result<usize>)
    ensures
        r matches Ok(n) ==> n == grouped_lines(diff_data).len(),
        r matches Err(e) ==> e is Io,
{
    let lines = grouped_diff_lines(diff_data);
    assert(views(lines@).len() == lines@.len());
    write_all_lines(writer, &lines)
}

pub open spec fn digit(d: nat) -> char {
    seq!['0', '1', '2', '3', '4', '5', '6', '7', '8', '9'][d as int]
}

/// The decimal digits of `n`, without leading zeros.
pub open spec fn decimal(n: nat) -> Seq<char>
    decreases n,
{
    if n < 10 {
        seq![digit(n)]
    } else {
        decimal(n / 10).push(digit(n % 10))
    }
}

/// `n` written in decimal.
pub fn decimal_string(n: usize) -> (r: String)
    ensures
        r@ == decimal(n as nat),
    decreases n,
{
    proof {
        reveal_strlit("0123456789");
    }
    let digits = "0123456789";
    let d = n % 10;
    let last = digits.substring_char(d, d + 1);
    assert(last@ =~= seq![digit(d as nat)]);
    if n < 10 {
        String::from_str(last)
    } else {
        let r = decimal_string(n / 10).concat(last);
        assert(r@ =~= decimal((n / 10) as nat).push(digit((n % 10) as nat)));
        r
    }
}

/// Formulae, casks and taps to install (app-store apps are not counted).
pub open spec fn added_count(d: &HomebrewDiffData) -> nat {
    d.brews.added@.len() + d.casks.added@.len() + d.taps.added@.len()
}

/// Formulae, casks and taps to remove (app-store apps are not counted).
pub open spec fn removed_count(d: &HomebrewDiffData) -> nat {
    d.brews.removed@.len() + d.casks.removed@.len() + d.taps.removed@.len()
}

/// The summary: nothing without changes; else a blank line and
/// `HOMEBREW: <added> added, <removed> removed`.
pub open spec fn stats_lines(d: &HomebrewDiffData) -> Seq<Seq<char>> {
    if !d.any_change() {
        seq![]
    } else {
        seq![
            Seq::empty(),
            "HOMEBREW: "@ + green(decimal(added_count(d))) + " added, "@ + red(
                decimal(removed_count(d)),
            ) + " removed"@,
        ]
    }
}

/// The summary lines for `diff_data`.
pub fn diff_stats_lines(diff_data: &HomebrewDiffData) -> (r: Vec<String>)
    requires
        added_count(diff_data) <= usize::MAX,
        removed_count(diff_data) <= usize::MAX,
    ensures
        views(r@) == stats_lines(diff_data),
{
    let mut out: Vec<String> = Vec::new();
    if !diff_data.has_changes() {
        assert(views(out@) =~= stats_lines(diff_data));
        return out;
    }
    let total_added = diff_data.brews.added.len() + diff_data.casks.added.len()
        + diff_data.taps.added.len();
    let total_removed = diff_data.brews.removed.len() + diff_data.casks.removed.len()
        + diff_data.taps.removed.len();
    let a = paint_green(decimal_string(total_added).as_str());
    let r = paint_red(decimal_string(total_removed).as_str());
    let line = String::from_str("HOMEBREW: ").concat(a.as_str()).concat(" added, ").concat(
        r.as_str(),
    ).concat(" removed");
    out.push(String::new());
    out.push(line);
    assert(views(out@) =~= stats_lines(diff_data));
    out
}

/// Write statistics about the diff (optional, for detailed summaries)
pub fn write_stats<W: std::io::Write>(writer: &mut W, diff_data: &HomebrewDiffData) -> (r: Result<()>)
    requires
        added_count(diff_data) <= usize::MAX,
        removed_count(diff_data) <= usize::MAX,
    ensures
        r matches Err(e) ==> e is Io,
        !diff_data.any_change() ==> r is Ok,
{
    let lines = diff_stats_lines(diff_data);
    assert(views(lines@).len() == lines@.len());
    match write_all_lines(writer, &lines) {
        Ok(_) => Ok(()),
        Err(e) => Err(e),
    }
}

} // verus!
