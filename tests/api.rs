use brewdiff::{
    extract_nix_darwin_intent, get_current_homebrew_state, write_homebrew_diffln,
    write_homebrew_stats, CommandOutput, SystemQuery,
};

struct Nothing;

impl SystemQuery for Nothing {
    fn path_exists(&self, _path: &str) -> bool {
        false
    }

    fn read_text(&self, _path: &str) -> Result<String, std::io::Error> {
        Err(std::io::Error::new(std::io::ErrorKind::NotFound, "nothing"))
    }

    fn run(&self, _program: &str, _args: &Vec<String>) -> Result<CommandOutput, String> {
        Err("nothing".to_string())
    }
}

#[test]
fn test_public_api_exists() {
    let _ = get_current_homebrew_state::<Nothing>;
    let _ = extract_nix_darwin_intent::<Nothing>;
    let _ = write_homebrew_diffln::<Vec<u8>, Nothing>;
    let _ = write_homebrew_stats::<Vec<u8>>;
}
