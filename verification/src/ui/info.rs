//! Static app metadata used by the title bar and the status bar.

use vstd::prelude::*;

verus! {

/// Static metadata about the running app.
#[derive(Clone, Copy, Debug)]
pub struct AppInfo {
    /// Marketing name, e.g. `"BSE"`.
    pub name: &'static str,
    /// Semver of the binary.
    pub version: &'static str,
    /// Active milestone tag, e.g. `"v002"`.
    pub milestone: &'static str,
}

impl AppInfo {
    /// The title bar text, `"{name} {version} — {milestone}"`.
    pub fn title(&self) -> (t: String)
        ensures
            t@ == self.name@ + " "@ + self.version@ + " — "@ + self.milestone@,
    {
        self.name.to_owned().concat(" ").concat(self.version).concat(" — ").concat(self.milestone)
    }
}

} // verus!
