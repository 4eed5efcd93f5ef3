use brewdiff::{HomebrewDiffData, HomebrewIntent, HomebrewState, NameSet, PackageMap};

#[test]
fn test_compute_package_diff_additions() {
    let mut installed = PackageMap::new();
    installed.insert("wget".to_string(), "1.21.3".to_string());

    let mut intended = NameSet::new();
    intended.insert("wget".to_string());
    intended.insert("curl".to_string());

    let diff = HomebrewDiffData::compute_package_diff(&installed, &intended);

    assert_eq!(diff.added, vec!["curl"]);
    assert!(diff.removed.is_empty());
}

#[test]
fn test_compute_package_diff_removals() {
    let mut installed = PackageMap::new();
    installed.insert("wget".to_string(), "1.21.3".to_string());
    installed.insert("curl".to_string(), "8.4.0".to_string());

    let mut intended = NameSet::new();
    intended.insert("wget".to_string());

    let diff = HomebrewDiffData::compute_package_diff(&installed, &intended);

    assert!(diff.added.is_empty());
    assert_eq!(diff.removed, vec!["curl"]);
}

#[test]
fn test_compute_set_diff() {
    let mut current = NameSet::new();
    current.insert("homebrew/core".to_string());

    let mut intended = NameSet::new();
    intended.insert("homebrew/core".to_string());
    intended.insert("homebrew/cask".to_string());

    let diff = HomebrewDiffData::compute_set_diff(&current, &intended);

    assert_eq!(diff.added, vec!["homebrew/cask"]);
    assert!(diff.removed.is_empty());
}

#[test]
fn test_has_changes() {
    let state = HomebrewState::default();
    let intent = HomebrewIntent::default();
    let diff = HomebrewDiffData::compute(&state, &intent);
    assert!(!diff.has_changes());

    let mut intent_with_brew = HomebrewIntent::default();
    intent_with_brew.brews.insert("git".to_string());
    let diff_with_changes = HomebrewDiffData::compute(&state, &intent_with_brew);
    assert!(diff_with_changes.has_changes());
}

#[test]
fn scenario_formula_to_add() {
    let mut state = HomebrewState::default();
    state.installed_brews.insert("wget".to_string(), "1.21.3".to_string());
    let mut intent = HomebrewIntent::default();
    intent.brews.insert("wget".to_string());
    intent.brews.insert("curl".to_string());
    let diff = HomebrewDiffData::compute(&state, &intent);
    assert_eq!(diff.brews.added, vec!["curl"]);
    assert!(diff.brews.removed.is_empty());
    assert_eq!(diff.total_changes(), 1);
}

#[test]
fn lists_sorted_whatever_the_insertion_order() {
    let mut a = NameSet::new();
    for n in ["zsh", "bat", "mc", "jq", "Bat", "ack"] {
        a.insert(n.to_string());
    }
    let mut b = NameSet::new();
    for n in ["ack", "jq", "mc", "zsh", "bat", "Bat"] {
        b.insert(n.to_string());
    }
    let empty = NameSet::new();
    let da = HomebrewDiffData::compute_set_diff(&empty, &a);
    let db = HomebrewDiffData::compute_set_diff(&empty, &b);
    assert_eq!(da.added, vec!["Bat", "ack", "bat", "jq", "mc", "zsh"]);
    assert_eq!(da.added, db.added);
    let dr = HomebrewDiffData::compute_set_diff(&a, &empty);
    assert_eq!(dr.removed, vec!["Bat", "ack", "bat", "jq", "mc", "zsh"]);
    assert!(dr.added.is_empty());
}

#[test]
fn added_and_removed_are_the_two_differences() {
    let mut current = NameSet::new();
    for n in ["a", "b", "c"] {
        current.insert(n.to_string());
    }
    let mut intended = NameSet::new();
    for n in ["b", "c", "d", "e"] {
        intended.insert(n.to_string());
    }
    let diff = HomebrewDiffData::compute_set_diff(&current, &intended);
    assert_eq!(diff.added, vec!["d", "e"]);
    assert_eq!(diff.removed, vec!["a"]);
    for name in &diff.added {
        assert!(!diff.removed.contains(name));
    }
}

#[test]
fn versions_are_not_compared() {
    let mut installed = PackageMap::new();
    installed.insert("git".to_string(), "2.42.0 2.41.0".to_string());
    installed.insert("vim".to_string(), "9.0".to_string());
    let mut intended = NameSet::new();
    intended.insert("git".to_string());
    intended.insert("vim".to_string());
    let diff = HomebrewDiffData::compute_package_diff(&installed, &intended);
    assert!(diff.added.is_empty());
    assert!(diff.removed.is_empty());
}

#[test]
fn total_counts_all_eight_lists() {
    let mut state = HomebrewState::default();
    state.installed_brews.insert("old".to_string(), "1".to_string());
    state.installed_casks.insert("oldcask".to_string(), "1".to_string());
    state.installed_taps.insert("old/tap".to_string());
    state.installed_mas_apps.insert("Old (1)".to_string());
    let mut intent = HomebrewIntent::default();
    intent.brews.insert("new".to_string());
    intent.casks.insert("newcask".to_string());
    intent.taps.insert("new/tap".to_string());
    intent.mas_apps.insert("New (2)".to_string());
    let diff = HomebrewDiffData::compute(&state, &intent);
    assert!(diff.has_changes());
    assert_eq!(diff.total_changes(), 8);
    assert_eq!(diff.mas_apps.added, vec!["New (2)"]);
    assert_eq!(diff.mas_apps.removed, vec!["Old (1)"]);
    assert_eq!(HomebrewDiffData::default().total_changes(), 0);
}

#[test]
fn name_set_and_package_map_basics() {
    let mut s = NameSet::new();
    assert!(s.is_empty());
    assert!(s.insert("x".to_string()));
    assert!(!s.insert("x".to_string()));
    assert_eq!(s.len(), 1);
    assert!(s.contains("x"));
    assert!(!s.contains("y"));

    let mut m = PackageMap::new();
    m.insert("wget".to_string(), "1.0".to_string());
    m.insert("wget".to_string(), "2.0".to_string());
    assert_eq!(m.len(), 1);
    assert_eq!(m.get("wget"), Some(&"2.0".to_string()));
    assert_eq!(m.get("curl"), None);
    assert!(m.contains_key("wget"));
    assert_eq!(m.keys(), vec!["wget".to_string()]);
}

#[test]
fn clones_keep_contents() {
    let mut s = NameSet::new();
    s.insert("a".to_string());
    let t = s.clone();
    assert!(t == s);
    let mut m = PackageMap::new();
    m.insert("wget".to_string(), "1.0".to_string());
    let n = m.clone();
    assert_eq!(n.get("wget"), Some(&"1.0".to_string()));
    let mut intent = HomebrewIntent::default();
    intent.taps.insert("x/y".to_string());
    assert_eq!(intent.clone(), intent);
}
