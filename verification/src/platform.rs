//! The capture-permission probe's decision, separated from the platform
//! inspection that feeds it.
use vstd::prelude::*;

verus! {

/// The platform the probe runs on, as far as the decision cares.
#[derive(PartialEq, Eq, Structural, Clone, Copy, Debug)]
pub enum Platform {
    MacOs,
    Windows,
    Other,
}

pub open spec fn spec_has_chmodbpf(platform: Platform, helper_present: bool) -> bool {
    match platform {
        Platform::MacOs => helper_present,
        Platform::Windows => true,
        Platform::Other => false,
    }
}

/// Whether the capture helper service is considered installed: on macOS
/// exactly when the helper's launch daemon file is present (the caller
/// probes for it), on Windows always — no special permission is needed
/// there — and on any other platform never.
pub fn has_chmodbpf(platform: Platform, helper_present: bool) -> (r: bool)
    ensures
        r == spec_has_chmodbpf(platform, helper_present),
{
    match platform {
        Platform::MacOs => helper_present,
        Platform::Windows => true,
        Platform::Other => false,
    }
}

} // verus!
