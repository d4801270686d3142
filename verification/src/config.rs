//! Backend selection for the unified video wrapper: which presentation
//! backend a new video should use, resolved from the configured preference
//! and the environment the host reports.

use vstd::prelude::*;

verus! {

/// Which backend to use
#[derive(Debug, Clone, Copy, PartialEq, Eq, Structural)]
pub enum BackendPreference {
    Auto,
    ForceAppsink,
    ForceWayland,
}

/// Configuration for backend selection
#[derive(Debug, Clone, Copy, PartialEq, Eq, Structural)]
pub struct SubwaveConfig {
    pub preference: BackendPreference,
}

impl Default for SubwaveConfig {
    /// The default configuration selects the backend automatically.
    fn default() -> (c: SubwaveConfig)
        ensures
            c.preference == BackendPreference::Auto,
    {
        SubwaveConfig { preference: BackendPreference::Auto }
    }
}

/// Resolve a backend preference against the environment: an automatic
/// preference picks the compositor-integrated backend exactly when the host
/// reports a compositor display, and a forced preference is kept as it is.
/// The result is never `Auto`.
pub fn resolve_backend(preference: BackendPreference, wayland_available: bool) -> (r:
    BackendPreference)
    ensures
        r != BackendPreference::Auto,
        preference == BackendPreference::Auto ==> r == if wayland_available {
            BackendPreference::ForceWayland
        } else {
            BackendPreference::ForceAppsink
        },
        preference != BackendPreference::Auto ==> r == preference,
{
    match preference {
        BackendPreference::Auto => {
            if wayland_available {
                BackendPreference::ForceWayland
            } else {
                BackendPreference::ForceAppsink
            }
        },
        other => other,
    }
}

} // verus!
