use brewdiff::{
    get_current_homebrew_state, write_homebrew_diffln, CommandOutput, Error, HomebrewState,
    SystemQuery,
};
use std::collections::HashMap;

struct Probe;

impl SystemQuery for Probe {
    fn path_exists(&self, path: &str) -> bool {
        std::path::Path::new(path).exists()
    }

    fn read_text(&self, _path: &str) -> Result<String, std::io::Error> {
        Err(std::io::Error::new(std::io::ErrorKind::Unsupported, "not read here"))
    }

    fn run(&self, _program: &str, _args: &Vec<String>) -> Result<CommandOutput, String> {
        Err("not run here".to_string())
    }
}

/// Canned answers: paths that exist, files, and the output of each command line.
struct Fixture {
    paths: Vec<String>,
    files: HashMap<String, String>,
    commands: HashMap<String, Result<(bool, Vec<u8>), String>>,
}

impl Fixture {
    fn with_brew() -> Fixture {
        Fixture {
            paths: vec!["/usr/local/bin/brew".to_string()],
            files: HashMap::new(),
            commands: HashMap::new(),
        }
    }

    fn answer(&mut self, line: &str, ok: bool, out: &[u8]) {
        self.commands.insert(line.to_string(), Ok((ok, out.to_vec())));
    }
}

impl SystemQuery for Fixture {
    fn path_exists(&self, path: &str) -> bool {
        self.paths.iter().any(|p| p == path) || self.files.contains_key(path)
    }

    fn read_text(&self, path: &str) -> Result<String, std::io::Error> {
        match self.files.get(path) {
            Some(t) => Ok(t.clone()),
            None => Err(std::io::Error::new(std::io::ErrorKind::NotFound, "no such file")),
        }
    }

    fn run(&self, program: &str, args: &Vec<String>) -> Result<CommandOutput, String> {
        let mut line = program.to_string();
        for a in args {
            line.push(' ');
            line.push_str(a);
        }
        match self.commands.get(&line) {
            Some(Ok((success, stdout))) => Ok(CommandOutput { success: *success, stdout: stdout.clone() }),
            Some(Err(m)) => Err(m.clone()),
            None => Ok(CommandOutput { success: false, stdout: Vec::new() }),
        }
    }
}

#[test]
fn test_parse_list_versions_output() {
    let input = b"wget 1.21.3\ncurl 8.4.0\ngit 2.42.0 2.41.0\n";
    let result = HomebrewState::parse_list_versions_output(input).unwrap();

    assert_eq!(result.get("wget"), Some(&"1.21.3".to_string()));
    assert_eq!(result.get("curl"), Some(&"8.4.0".to_string()));
    assert_eq!(result.get("git"), Some(&"2.42.0 2.41.0".to_string()));
}

#[test]
fn test_parse_empty_output() {
    let input = b"";
    let result = HomebrewState::parse_list_versions_output(input).unwrap();
    assert!(result.is_empty());
}

#[test]
fn test_homebrew_detection() {
    let is_installed = HomebrewState::homebrew_installed(&Probe);
    if is_installed {
        assert!(
            std::path::Path::new("/opt/homebrew/bin/brew").exists()
                || std::path::Path::new("/usr/local/bin/brew").exists()
        );
    }
}

#[test]
fn version_lines_edge_cases() {
    let input = b"  htop   3.2.2  \r\n\n   \nlonely\nwget 1.0\nwget 2.0\n";
    let result = HomebrewState::parse_list_versions_output(input).unwrap();
    assert_eq!(result.len(), 3);
    assert_eq!(result.get("htop"), Some(&"3.2.2".to_string()));
    assert_eq!(result.get("lonely"), Some(&"unknown".to_string()));
    assert_eq!(result.get("wget"), Some(&"2.0".to_string()));
}

#[test]
fn invalid_utf8_is_an_error() {
    let r = HomebrewState::parse_list_versions_output(&[0x66, 0xff, 0x0a]);
    assert!(matches!(r, Err(Error::Utf8(_))));
}

#[test]
fn app_store_listing() {
    let apps = HomebrewState::parse_mas_output(
        "497799835  Xcode            (15.0)\n904280696  Things 3  (3.17.4)\n123 Plain Name\nlonely\n",
    );
    assert_eq!(apps.len(), 3);
    assert!(apps.contains("Xcode (497799835)"));
    assert!(apps.contains("Things 3 (904280696)"));
    assert!(apps.contains("Plain Name (123)"));
}

#[test]
fn tap_listing_keeps_every_line() {
    let taps = HomebrewState::parse_taps_output("homebrew/core\nhomebrew/cask\r\n");
    assert_eq!(taps.len(), 2);
    assert!(taps.contains("homebrew/cask"));
}

#[test]
fn no_homebrew_means_empty_state() {
    let sys = Fixture { paths: Vec::new(), files: HashMap::new(), commands: HashMap::new() };
    let state = get_current_homebrew_state(&sys).unwrap();
    assert!(state.installed_brews.is_empty());
    assert!(state.installed_casks.is_empty());
    assert!(state.installed_taps.is_empty());
    assert!(state.installed_mas_apps.is_empty());
}

#[test]
fn detect_collects_all_four_queries() {
    let mut sys = Fixture::with_brew();
    sys.answer("/usr/local/bin/brew leaves", true, b"wget\ngit\n");
    sys.answer("/usr/local/bin/brew list --versions wget git", true, b"wget 1.21.3\ngit 2.42.0\n");
    sys.answer("/usr/local/bin/brew list --cask --versions", true, b"firefox 120.0\n");
    sys.answer("/usr/local/bin/brew tap", true, b"homebrew/core\n");
    sys.answer("which mas", true, b"/usr/local/bin/mas\n");
    sys.answer("mas list", true, b"497799835 Xcode (15.0)\n");
    let state = HomebrewState::detect(&sys).unwrap();
    assert_eq!(state.installed_brews.get("git"), Some(&"2.42.0".to_string()));
    assert_eq!(state.installed_brews.len(), 2);
    assert_eq!(state.installed_casks.get("firefox"), Some(&"120.0".to_string()));
    assert!(state.installed_taps.contains("homebrew/core"));
    assert!(state.installed_mas_apps.contains("Xcode (497799835)"));
}

#[test]
fn failing_queries_count_as_empty() {
    let mut sys = Fixture::with_brew();
    sys.answer("/usr/local/bin/brew leaves", false, b"wget\n");
    sys.answer("/usr/local/bin/brew tap", true, b"homebrew/core\n");
    let state = HomebrewState::detect(&sys).unwrap();
    assert!(state.installed_brews.is_empty());
    assert!(state.installed_casks.is_empty());
    assert_eq!(state.installed_taps.len(), 1);
    assert!(state.installed_mas_apps.is_empty());
}

#[test]
fn unstartable_query_is_fatal() {
    let mut sys = Fixture::with_brew();
    sys.commands.insert("/usr/local/bin/brew leaves".to_string(), Err("not found".to_string()));
    match HomebrewState::detect(&sys) {
        Err(Error::CommandFailed(m)) => assert_eq!(m, "brew leaves failed: not found"),
        _ => panic!("expected a command failure"),
    }
}

#[test]
fn brew_command_prefers_apple_silicon_path() {
    let mut sys = Fixture::with_brew();
    assert_eq!(HomebrewState::get_brew_command(&sys), "/usr/local/bin/brew");
    sys.paths.push("/opt/homebrew/bin/brew".to_string());
    assert_eq!(HomebrewState::get_brew_command(&sys), "/opt/homebrew/bin/brew");
}

#[test]
fn whole_pipeline_in_block_format() {
    let mut sys = Fixture::with_brew();
    sys.answer("/usr/local/bin/brew leaves", true, b"wget\n");
    sys.answer("/usr/local/bin/brew list --versions wget", true, b"wget 1.21.3\n");
    sys.files.insert(
        "/prof/activate".to_string(),
        "brew bundle --file='/store/Brewfile' --no-upgrade\n".to_string(),
    );
    sys.files.insert("/store/Brewfile".to_string(), "brew \"wget\"\nbrew \"curl\"\n".to_string());
    let mut out = Vec::new();
    let n = write_homebrew_diffln(&mut out, &sys, "/prof").unwrap();
    assert_eq!(n, 3);
    let text = String::from_utf8(out).unwrap();
    assert!(text.starts_with("ADDED\nFormulae\n"));
    assert!(text.ends_with("] curl\n"));
}

fn answered(success: bool, out: &[u8]) -> Result<CommandOutput, String> {
    Ok(CommandOutput { success, stdout: out.to_vec() })
}

#[test]
fn brew_command_from_probes() {
    assert_eq!(HomebrewState::brew_command(false, false), None);
    assert_eq!(HomebrewState::brew_command(true, false), Some("/opt/homebrew/bin/brew"));
    assert_eq!(HomebrewState::brew_command(true, true), Some("/opt/homebrew/bin/brew"));
    assert_eq!(HomebrewState::brew_command(false, true), Some("/usr/local/bin/brew"));
}

#[test]
fn versions_from_each_answer() {
    let m = HomebrewState::versions_from(answered(true, b"firefox 120.0\n"), "brew list --cask").unwrap();
    assert_eq!(m.get("firefox"), Some(&"120.0".to_string()));
    let empty = HomebrewState::versions_from(answered(false, b"firefox 120.0\n"), "brew list --cask").unwrap();
    assert!(empty.is_empty());
    assert!(matches!(
        HomebrewState::versions_from(answered(true, &[0xc3]), "x"),
        Err(Error::Utf8(_))
    ));
    match HomebrewState::versions_from(Err("denied".to_string()), "brew list --cask") {
        Err(Error::CommandFailed(m)) => assert_eq!(m, "brew list --cask failed: denied"),
        _ => panic!("expected a command failure"),
    }
}

#[test]
fn leaves_step_answers() {
    assert!(HomebrewState::leaves_step(answered(true, b"")).unwrap().is_none());
    assert!(HomebrewState::leaves_step(answered(false, b"wget\n")).unwrap().is_none());
    let args = HomebrewState::leaves_step(answered(true, b"wget\ngit\n")).unwrap().unwrap();
    assert_eq!(args, vec!["list", "--versions", "wget", "git"]);
    match HomebrewState::leaves_step(Err("gone".to_string())) {
        Err(Error::CommandFailed(m)) => assert_eq!(m, "brew leaves failed: gone"),
        _ => panic!("expected a command failure"),
    }
}

#[test]
fn taps_and_apps_from_answers() {
    let taps = HomebrewState::taps_from(answered(true, b"homebrew/core\nuser/tools\n")).unwrap();
    assert_eq!(taps.len(), 2);
    assert!(HomebrewState::taps_from(answered(false, b"homebrew/core\n")).unwrap().is_empty());
    assert!(HomebrewState::mas_helper_present(answered(true, b"/bin/mas\n")).unwrap());
    assert!(!HomebrewState::mas_helper_present(answered(false, b"")).unwrap());
    assert!(matches!(
        HomebrewState::mas_helper_present(Err("no which".to_string())),
        Err(Error::CommandFailed(_))
    ));
    let apps = HomebrewState::apps_from(answered(true, b"497799835 Xcode (15.0)\n")).unwrap();
    assert!(apps.contains("Xcode (497799835)"));
    assert!(HomebrewState::apps_from(answered(false, b"497799835 Xcode (15.0)\n")).unwrap().is_empty());
}
