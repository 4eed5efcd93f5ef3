//! Reconciles what Homebrew has installed with what a nix-darwin profile declares.

pub mod diff;
pub mod display;
pub mod error;
pub mod intent;
pub mod names;
pub mod state;
pub mod system;
pub mod text;

pub use diff::{HomebrewDiffData, PackageDiff, SetDiff};
pub use error::{Error, Result};
pub use intent::HomebrewIntent;
pub use names::{NameSet, PackageMap};
pub use state::HomebrewState;
pub use system::{CommandOutput, SystemQuery};

use vstd::prelude::*;

verus! {

/// Write homebrew diff output, returns number of lines written: the current
/// state against the intent of `new_profile`, in the block format.
pub fn write_homebrew_diffln<W: std::io::Write, S: SystemQuery>(
    writer: &mut W,
    sys: &S,
    new_profile: &str,
) -> (r: Result<usize>)
    ensures
        r matches Err(Error::NoActivationScript(p)) ==> p@ == intent::activation_path(new_profile@),
        r matches Err(e) ==> (e is CommandFailed || e is Utf8 || e is NoActivationScript
            || e is BrewfileNotFound || e is ParseError || e is Io),
        r matches Ok(n) ==> exists|st: HomebrewState, it: HomebrewIntent, d: HomebrewDiffData|
            #![trigger st.from_some_listings(), it.from_some_manifest(), d.describes(&st, &it)]
            st.from_some_listings() && it.from_some_manifest() && d.describes(&st, &it) && n
                == display::block_lines(&d).len(),
{
    let current_state = match HomebrewState::detect(sys) {
        Ok(s) => s,
        Err(e) => return Err(e),
    };
    let nix_intent = match HomebrewIntent::extract(sys, new_profile) {
        Ok(i) => i,
        Err(e) => return Err(e),
    };
    let diff_data = HomebrewDiffData::compute(&current_state, &nix_intent);
    let r = display::write_diff(writer, &diff_data);
    proof {
        if r is Ok {
            assert(current_state.from_some_listings() && nix_intent.from_some_manifest()
                && diff_data.describes(&current_state, &nix_intent));
        }
    }
    r
}

/// Write homebrew diff statistics
pub fn write_homebrew_stats<W: std::io::Write>(writer: &mut W, diff_data: &HomebrewDiffData) -> (r: Result<()>)
    requires
        display::added_count(diff_data) <= usize::MAX,
        display::removed_count(diff_data) <= usize::MAX,
    ensures
        r matches Err(e) ==> e is Io,
{
    display::write_stats(writer, diff_data)
}

/// Get current Homebrew state
pub fn get_current_homebrew_state<S: SystemQuery>(sys: &S) -> (r: Result<HomebrewState>)
    ensures
        r matches Err(e) ==> (e is CommandFailed || e is Utf8),
        r matches Ok(st) ==> st.from_some_listings(),
{
    HomebrewState::detect(sys)
}

/// Extract nix-darwin intent from a built profile
pub fn extract_nix_darwin_intent<S: SystemQuery>(sys: &S, profile: &str) -> (r: Result<HomebrewIntent>)
    ensures
        r matches Err(Error::NoActivationScript(p)) ==> p@ == intent::activation_path(profile@),
        r matches Ok(i) ==> i.from_some_manifest(),
        r matches Err(e) ==> (e is NoActivationScript || e is BrewfileNotFound || e is ParseError
            || e is Io),
{
    HomebrewIntent::extract(sys, profile)
}

} // verus!
