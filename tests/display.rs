use brewdiff::display::{
    decimal_string, diff_lines, grouped_diff_lines, write_diff, write_diff_with_header,
    write_grouped_diff, write_stats,
};
use brewdiff::{write_homebrew_stats, HomebrewDiffData, HomebrewIntent, HomebrewState};

fn strip_ansi_codes(s: &str) -> String {
    let re = regex::Regex::new(r"\x1b\[[0-9;]*m").unwrap();
    re.replace_all(s, "").to_string()
}

#[test]
fn test_write_diff_no_changes() {
    let diff = HomebrewDiffData::default();
    let mut output = Vec::new();

    let lines = write_diff(&mut output, &diff).unwrap();

    assert_eq!(lines, 0);
    assert!(output.is_empty());
}

#[test]
fn test_write_diff_with_changes() {
    let mut diff = HomebrewDiffData::default();
    diff.brews.added = vec!["wget".to_string(), "curl".to_string()];
    diff.brews.removed = vec!["git".to_string()];

    let mut output = Vec::new();
    let lines = write_diff(&mut output, &diff).unwrap();

    assert_eq!(lines, 8);
    let output_str = String::from_utf8(output).unwrap();
    let clean = strip_ansi_codes(&output_str);
    assert!(clean.contains("ADDED"));
    assert!(clean.contains("Formulae"));
    assert!(clean.contains("[A] wget"));
    assert!(clean.contains("[A] curl"));
    assert!(clean.contains("REMOVED"));
    assert!(clean.contains("[R] git"));
}

#[test]
fn test_write_stats() {
    let mut diff = HomebrewDiffData::default();
    diff.brews.added = vec!["wget".to_string()];
    diff.casks.removed = vec!["firefox".to_string()];

    let mut output = Vec::new();
    write_stats(&mut output, &diff).unwrap();

    let output_str = String::from_utf8(output).unwrap();
    let clean_output = strip_ansi_codes(&output_str);
    assert!(clean_output.contains("HOMEBREW: 1 added, 1 removed"));
}

#[test]
fn block_layout_is_exact() {
    let mut diff = HomebrewDiffData::default();
    diff.taps.added = vec!["homebrew/cask".to_string()];
    diff.brews.added = vec!["curl".to_string()];
    diff.mas_apps.added = vec!["Xcode (497799835)".to_string()];
    diff.casks.removed = vec!["firefox".to_string()];
    let mut output = Vec::new();
    let lines = write_diff(&mut output, &diff).unwrap();
    let clean = strip_ansi_codes(&String::from_utf8(output).unwrap());
    assert_eq!(
        clean,
        "ADDED\nTaps\n[A] homebrew/cask\nFormulae\n[A] curl\nApp Store\n[A] Xcode (497799835)\n\nREMOVED\nCasks\n[R] firefox\n"
    );
    assert_eq!(lines, 11);
}

#[test]
fn markers_are_coloured() {
    let mut diff = HomebrewDiffData::default();
    diff.brews.added = vec!["curl".to_string()];
    let lines = diff_lines(&diff);
    assert_eq!(lines.len(), 3);
    assert_eq!(lines[2], "[\x1b[1m\x1b[32mA\x1b[39m\x1b[0m] curl");
}

#[test]
fn removals_only_have_no_blank_line() {
    let mut diff = HomebrewDiffData::default();
    diff.taps.removed = vec!["old/tap".to_string()];
    let lines = diff_lines(&diff);
    let clean: Vec<String> = lines.iter().map(|l| strip_ansi_codes(l)).collect();
    assert_eq!(clean, vec!["REMOVED", "Taps", "[R] old/tap"]);
}

#[test]
fn header_adds_three_lines() {
    let mut diff = HomebrewDiffData::default();
    diff.brews.added = vec!["curl".to_string()];
    let mut output = Vec::new();
    let lines =
        write_diff_with_header(&mut output, "/run/current-system", "/nix/store/new", &diff).unwrap();
    assert_eq!(lines, 6);
    let clean = strip_ansi_codes(&String::from_utf8(output).unwrap());
    assert!(clean.starts_with("<<< /run/current-system\n>>> /nix/store/new\n\nADDED\n"));

    let mut empty_out = Vec::new();
    let n = write_diff_with_header(&mut empty_out, "a", "b", &HomebrewDiffData::default()).unwrap();
    assert_eq!(n, 3);
}

#[test]
fn empty_diff_in_both_formats() {
    let state = HomebrewState::default();
    let intent = HomebrewIntent::default();
    let diff = HomebrewDiffData::compute(&state, &intent);
    assert!(!diff.has_changes());
    let mut grouped = Vec::new();
    assert_eq!(write_grouped_diff(&mut grouped, &diff).unwrap(), 1);
    assert_eq!(String::from_utf8(grouped).unwrap(), "No changes\n");
    let mut block = Vec::new();
    assert_eq!(write_diff(&mut block, &diff).unwrap(), 0);
    assert!(block.is_empty());
}

#[test]
fn grouped_layout() {
    let mut diff = HomebrewDiffData::default();
    diff.brews.added = vec!["curl".to_string()];
    diff.brews.removed = vec!["git".to_string()];
    diff.taps.added = vec!["homebrew/cask".to_string()];
    let lines = grouped_diff_lines(&diff);
    let clean: Vec<String> = lines.iter().map(|l| strip_ansi_codes(l)).collect();
    assert_eq!(clean, vec!["Formulae", "+ curl", "- git", "Taps", "+ homebrew/cask"]);

    let mut only_apps = HomebrewDiffData::default();
    only_apps.mas_apps.added = vec!["Xcode (1)".to_string()];
    assert!(grouped_diff_lines(&only_apps).is_empty());
}

#[test]
fn stats_skip_app_store_and_empty_diffs() {
    let mut diff = HomebrewDiffData::default();
    diff.brews.added = vec!["a".to_string(), "b".to_string()];
    diff.taps.added = vec!["t/t".to_string()];
    diff.mas_apps.added = vec!["X (1)".to_string()];
    diff.taps.removed = vec!["u/u".to_string()];
    let mut output = Vec::new();
    write_homebrew_stats(&mut output, &diff).unwrap();
    let clean = strip_ansi_codes(&String::from_utf8(output).unwrap());
    assert_eq!(clean, "\nHOMEBREW: 3 added, 1 removed\n");

    let mut none = Vec::new();
    write_stats(&mut none, &HomebrewDiffData::default()).unwrap();
    assert!(none.is_empty());
}

#[test]
fn decimal_numbers() {
    assert_eq!(decimal_string(0), "0");
    assert_eq!(decimal_string(7), "7");
    assert_eq!(decimal_string(10), "10");
    assert_eq!(decimal_string(4096), "4096");
    assert_eq!(decimal_string(usize::MAX), usize::MAX.to_string());
}

struct FailingSink;

impl std::io::Write for FailingSink {
    fn write(&mut self, _buf: &[u8]) -> std::io::Result<usize> {
        Err(std::io::Error::new(std::io::ErrorKind::Other, "closed"))
    }
    fn flush(&mut self) -> std::io::Result<()> {
        Ok(())
    }
}

#[test]
fn sink_failure_is_an_io_error() {
    let mut diff = HomebrewDiffData::default();
    diff.brews.added = vec!["curl".to_string()];
    let r = write_diff(&mut FailingSink, &diff);
    assert!(matches!(r, Err(brewdiff::Error::Io(_))));
}

#[test]
fn removal_marker_and_counts_are_coloured() {
    let mut diff = HomebrewDiffData::default();
    diff.brews.removed = vec!["git".to_string()];
    let lines = diff_lines(&diff);
    assert_eq!(lines[2], "[\x1b[1m\x1b[31mR\x1b[39m\x1b[0m] git");
    let mut output = Vec::new();
    write_stats(&mut output, &diff).unwrap();
    assert_eq!(
        String::from_utf8(output).unwrap(),
        "\nHOMEBREW: \x1b[32m0\x1b[39m added, \x1b[31m1\x1b[39m removed\n"
    );
}
