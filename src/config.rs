use vstd::prelude::*;

verus! {

/// Where descriptors are searched when no configuration names a directory.
pub const DEFAULT_DIRECTORY: &'static str = "/usr/share/applications";

/// The directories that descriptor discovery scans.
pub struct Config {
    pub directories: Vec<String>,
}

impl Config {
    /// The configuration used when no file gives one: the system-wide
    /// application directory alone.
    pub fn new() -> (r: Config)
        ensures
            r.directories@.len() == 1,
            r.directories@[0]@ == DEFAULT_DIRECTORY@,
    {
        let mut directories: Vec<String> = Vec::new();
        directories.push(DEFAULT_DIRECTORY.to_owned());
        Config { directories }
    }
}

} // verus!
