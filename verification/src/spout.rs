//! The Windows shared-texture sender as seen from a build that does not
//! have it: construction always fails, which the router reads as a sink
//! that is not available.

use vstd::prelude::*;
use vstd::string::*;

verus! {

/// The shared-texture sender of this platform.
pub struct PlatformSpoutOut;

impl PlatformSpoutOut {
    /// Tries to bring up a sender called `name` for frames of `width` by
    /// `height`. On a build without the sender this fails, whatever the
    /// arguments.
    pub fn new(name: &str, width: i32, height: i32, invert: bool) -> (r: Result<Self, String>)
        ensures
            r matches Err(msg) && msg@ == "Spout is Windows-only"@,
    {
        Err(String::from_str("Spout is Windows-only"))
    }
}

} // verus!
