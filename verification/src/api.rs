//! The plugin's answer to the host's initialisation call.
use vstd::prelude::*;

verus! {

/// Whether the plugin initialised.
#[derive(Clone, Copy, Debug, PartialEq, Eq)]
pub enum InitResult {
    Error,
    Success,
}

/// The host's plugin interface versions this plugin runs on: 3 and later.
pub fn supports_api_version(version: i32) -> (r: bool)
    ensures
        r == (version >= 3),
{
    version >= 3
}

} // verus!
