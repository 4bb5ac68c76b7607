//! The isolation policy for a version's working directory.
use vstd::prelude::*;
use crate::text::str_eq;

verus! {

/// Which versions get a working directory of their own.
#[derive(Clone, Copy, Debug, PartialEq, Eq, Structural)]
pub enum IsolationMode {
    All,
    Modded,
    Snapshot,
    ModdedAndSnapshot,
    Disabled,
}

/// Persisted launcher preferences.
#[derive(Clone, Copy, Debug, PartialEq, Eq, Structural)]
pub struct AppConfig {
    pub isolation_mode: IsolationMode,
}

/// Whether a version is isolated under the given policy.
pub open spec fn isolates(mode: IsolationMode, is_modded: bool, version_type: Seq<char>) -> bool {
    let not_release = version_type != "release"@;
    match mode {
        IsolationMode::All => true,
        IsolationMode::Modded => is_modded,
        IsolationMode::Snapshot => not_release,
        IsolationMode::ModdedAndSnapshot => is_modded || not_release,
        IsolationMode::Disabled => false,
    }
}

impl Default for AppConfig {
    fn default() -> (r: Self)
        ensures
            r.isolation_mode == IsolationMode::Modded,
    {
        AppConfig { isolation_mode: IsolationMode::Modded }
    }
}

/// Decides whether a version's mods, configuration and saves live in its own
/// directory rather than in the shared game root.
pub fn should_isolate(mode: &IsolationMode, is_modded: bool, version_type: &str) -> (r: bool)
    ensures
        r == isolates(*mode, is_modded, version_type@),
{
    match mode {
        IsolationMode::All => true,
        IsolationMode::Modded => is_modded,
        IsolationMode::Snapshot => !str_eq(version_type, "release"),
        IsolationMode::ModdedAndSnapshot => is_modded || !str_eq(version_type, "release"),
        IsolationMode::Disabled => false,
    }
}

} // verus!
