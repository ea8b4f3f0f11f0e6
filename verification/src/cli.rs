use vstd::prelude::*;

verus! {

/// What one invocation of the tool is asked to do.
///
/// Reading the actual command line happens outside; the library works
/// from this plain record.
#[derive(Debug, Clone)]
pub struct Cli {
    /// Repository locator, e.g. `https://github.com/owner/repo/tree/main/dir`.
    pub url: String,
    /// Personal access token, required for private repositories.
    pub token: Option<String>,
    /// Output directory for downloaded files.
    pub output: String,
    /// Concurrent download limit; at least one.
    pub limit: u64,
    /// Preview the file list without downloading.
    pub dry_run: bool,
    /// Skip files that already exist locally.
    pub resume: bool,
    /// Verbosity level.
    pub verbose: u8,
    /// Quietness level.
    pub quiet: u8,
    /// Disable the progress bar.
    pub no_progress: bool,
}

} // verus!
