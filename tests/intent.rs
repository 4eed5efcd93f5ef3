use brewdiff::intent::{activation_script_path, manifest_reference};
use brewdiff::{
    extract_nix_darwin_intent, CommandOutput, Error, HomebrewDiffData, HomebrewIntent,
    HomebrewState, SystemQuery,
};
use std::collections::HashMap;

struct Files {
    files: HashMap<String, String>,
}

impl Files {
    fn new(entries: &[(&str, &str)]) -> Files {
        let mut files = HashMap::new();
        for (p, t) in entries {
            files.insert(p.to_string(), t.to_string());
        }
        Files { files }
    }
}

impl SystemQuery for Files {
    fn path_exists(&self, path: &str) -> bool {
        self.files.contains_key(path)
    }

    fn read_text(&self, path: &str) -> Result<String, std::io::Error> {
        match self.files.get(path) {
            Some(t) => Ok(t.clone()),
            None => Err(std::io::Error::new(std::io::ErrorKind::NotFound, "no such file")),
        }
    }

    fn run(&self, _program: &str, _args: &Vec<String>) -> Result<CommandOutput, String> {
        Err("no processes here".to_string())
    }
}

const BREWFILE: &str = r#"
# Created by `nix-darwin`'s `homebrew` module

# Taps
tap "homebrew/bundle"
tap "homebrew/core"

# Brews
brew "wget"
brew "curl"

# Casks
cask "firefox"
cask "visual-studio-code"
"#;

#[test]
fn test_parse_brewfile() {
    let intent = HomebrewIntent::parse_brewfile(BREWFILE);

    assert_eq!(intent.brews.len(), 2);
    assert!(intent.brews.contains("wget"));
    assert!(intent.brews.contains("curl"));

    assert_eq!(intent.casks.len(), 2);
    assert!(intent.casks.contains("firefox"));
    assert!(intent.casks.contains("visual-studio-code"));

    assert_eq!(intent.taps.len(), 2);
    assert!(intent.taps.contains("homebrew/bundle"));
    assert!(intent.taps.contains("homebrew/core"));
}

#[test]
fn test_extract_quoted_value() {
    assert_eq!(
        HomebrewIntent::extract_quoted_value("brew \"wget\""),
        Some("wget".to_string())
    );
    assert_eq!(
        HomebrewIntent::extract_quoted_value("cask \"visual-studio-code\""),
        Some("visual-studio-code".to_string())
    );
    assert_eq!(HomebrewIntent::extract_quoted_value("no quotes here"), None);
}

#[test]
fn test_extract_from_activation_script() {
    let activate = "#!/bin/sh\necho \"Setting up Homebrew...\"\nbrew bundle --file='/tmp/profile/Brewfile' --no-upgrade\necho \"Done\"\n";
    let sys = Files::new(&[
        ("/tmp/profile/activate", activate),
        ("/tmp/profile/Brewfile", "brew \"git\""),
    ]);
    let intent = HomebrewIntent::extract(&sys, "/tmp/profile").unwrap();
    assert!(intent.brews.contains("git"));
}

#[test]
fn missing_activation_script_names_the_path() {
    let sys = Files::new(&[]);
    match HomebrewIntent::extract(&sys, "/nix/store/abc-darwin-system") {
        Err(Error::NoActivationScript(p)) => assert_eq!(p, "/nix/store/abc-darwin-system/activate"),
        _ => panic!("expected a missing activation script"),
    }
}

#[test]
fn activation_script_without_manifest() {
    let sys = Files::new(&[("/p/activate", "#!/bin/sh\necho hi\n")]);
    assert!(matches!(extract_nix_darwin_intent(&sys, "/p"), Err(Error::BrewfileNotFound)));
}

#[test]
fn referenced_manifest_missing() {
    let sys = Files::new(&[("/p/activate", "brew bundle --file='/gone/Brewfile' --no-upgrade\n")]);
    match HomebrewIntent::extract(&sys, "/p/") {
        Err(Error::ParseError(m)) => assert_eq!(m, "Brewfile not found at: /gone/Brewfile"),
        _ => panic!("expected a parse error"),
    }
}

#[test]
fn activation_path_joins_like_path_join() {
    assert_eq!(activation_script_path("/p"), "/p/activate");
    assert_eq!(activation_script_path("/p/"), "/p/activate");
    assert_eq!(activation_script_path(""), "activate");
}

#[test]
fn manifest_reference_rules() {
    assert_eq!(
        manifest_reference("x\nbrew bundle --file='/nix/store/xyz-Brewfile' --no-upgrade\n"),
        Some("/nix/store/xyz-Brewfile".to_string())
    );
    assert_eq!(manifest_reference("brew bundle --file='Brewfile'"), None);
    assert_eq!(manifest_reference("brew bundle --file='/a/Brewfile.bak'"), None);
    assert_eq!(manifest_reference("brew bundle --file='/a/Brewfile"), None);
    assert_eq!(
        manifest_reference("brew bundle --file='/x/other' ; brew bundle --file='/y/Brewfile'"),
        Some("/y/Brewfile".to_string())
    );
    assert_eq!(manifest_reference(""), None);
}

#[test]
fn mas_line_gives_name_and_id() {
    let intent = HomebrewIntent::parse_brewfile("mas \"Xcode\", id: 497799835\n");
    assert_eq!(intent.mas_apps.len(), 1);
    assert!(intent.mas_apps.contains("Xcode (497799835)"));
    assert_eq!(
        HomebrewIntent::parse_mas_line("mas \"Xcode\", id: 497799835"),
        Some(("Xcode".to_string(), "497799835".to_string()))
    );
    assert_eq!(HomebrewIntent::parse_mas_line("mas \"Xcode\""), None);
}

#[test]
fn comments_unknown_lines_and_spacing() {
    let text = "  brew \"jq\"  \r\n# brew \"commented\"\nwhalebrew \"x\"\nbrew \"unclosed\ncask \"iterm2\", greedy: true\n\tmas \"Things 3\", id:  904280696 \n";
    let intent = HomebrewIntent::parse_brewfile(text);
    assert_eq!(intent.brews.len(), 1);
    assert!(intent.brews.contains("jq"));
    assert!(intent.casks.contains("iterm2"));
    assert!(intent.mas_apps.contains("Things 3 (904280696)"));
    assert!(intent.taps.is_empty());
    assert!(intent.has_packages());
    assert!(!HomebrewIntent::parse_brewfile("tap \"a/b\"\n").has_packages());
}

#[test]
fn line_order_does_not_matter() {
    let a = HomebrewIntent::parse_brewfile("brew \"a\"\ncask \"c\"\ntap \"t/t\"\nbrew \"b\"\n");
    let b = HomebrewIntent::parse_brewfile("tap \"t/t\"\nbrew \"b\"\nbrew \"a\"\ncask \"c\"");
    assert!(a == b);
    let again = HomebrewIntent::parse_brewfile("brew \"a\"\ncask \"c\"\ntap \"t/t\"\nbrew \"b\"\n");
    assert!(a == again);
    let other = HomebrewIntent::parse_brewfile("brew \"a\"\ncask \"c\"\ntap \"t/t\"\n");
    assert!(a != other);
    let empty = HomebrewState::default();
    let da = HomebrewDiffData::compute(&empty, &a);
    let db = HomebrewDiffData::compute(&empty, &b);
    assert_eq!(da.brews.added, db.brews.added);
    assert_eq!(da.casks.added, db.casks.added);
    assert_eq!(da.taps.added, db.taps.added);
    assert_eq!(da.brews.added, vec!["a", "b"]);
}

#[test]
fn taps_from_manifest_against_state() {
    let intent = HomebrewIntent::parse_brewfile("tap \"homebrew/core\"\ntap \"homebrew/cask\"\n");
    let mut state = HomebrewState::default();
    state.installed_taps.insert("homebrew/core".to_string());
    let diff = HomebrewDiffData::compute(&state, &intent);
    assert_eq!(diff.taps.added, vec!["homebrew/cask"]);
    assert!(diff.taps.removed.is_empty());
}

#[test]
fn extraction_decisions() {
    match HomebrewIntent::locate_activation_script("/p/activate".to_string(), false) {
        Err(Error::NoActivationScript(p)) => assert_eq!(p, "/p/activate"),
        _ => panic!("expected a missing activation script"),
    }
    assert_eq!(
        HomebrewIntent::locate_activation_script("/p/activate".to_string(), true).unwrap(),
        "/p/activate"
    );
    assert_eq!(
        HomebrewIntent::manifest_path_from(Ok("brew bundle --file='/s/Brewfile'\n".to_string())).unwrap(),
        "/s/Brewfile"
    );
    assert!(matches!(
        HomebrewIntent::manifest_path_from(Ok("echo nothing\n".to_string())),
        Err(Error::BrewfileNotFound)
    ));
    assert!(matches!(
        HomebrewIntent::manifest_path_from(Err(std::io::Error::new(std::io::ErrorKind::Other, "x"))),
        Err(Error::Io(_))
    ));
    assert!(HomebrewIntent::locate_manifest("/s/Brewfile", true).is_ok());
    match HomebrewIntent::locate_manifest("/s/Brewfile", false) {
        Err(Error::ParseError(m)) => assert_eq!(m, "Brewfile not found at: /s/Brewfile"),
        _ => panic!("expected a parse error"),
    }
    let intent = HomebrewIntent::intent_from(Ok("brew \"git\"\n".to_string())).unwrap();
    assert!(intent.brews.contains("git"));
    assert_eq!(intent.brews.len(), 1);
    assert!(matches!(
        HomebrewIntent::intent_from(Err(std::io::Error::new(std::io::ErrorKind::Other, "x"))),
        Err(Error::Io(_))
    ));
}
