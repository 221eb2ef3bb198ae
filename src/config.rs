use vstd::prelude::*;

verus! {

/// Settings of the program: where the task file lies, and when the settings
/// were last read (seconds since the epoch).
#[derive(Debug)]
pub struct Config {
    pub path: Option<String>,
    pub last_updated: u64,
}

impl Config {
    /// Settings that name no path and were never read.
    pub fn new() -> (r: Self)
        ensures
            r.path is None,
            r.last_updated == 0,
    {
        Self { path: None, last_updated: 0 }
    }
}

} // verus!
