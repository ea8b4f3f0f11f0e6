use vstd::prelude::*;

verus! {

/// Application configuration.
///
/// The surrounding tool persists it as a file and reads the credential
/// from `github_token_path`; the library only carries the plain values.
#[derive(Debug, Clone)]
pub struct Config {
    pub concurrent_download_limit: u64,
    pub progress_bar_style: String,
    pub github_token_path: String,
}

impl Config {
    /// The default configuration for a given home directory: five
    /// concurrent downloads, a block-style bar, and the token stored
    /// under `.github/token` in that home.
    pub fn with_home(home: &str) -> (c: Config)
        ensures
            c.concurrent_download_limit == 5,
            c.progress_bar_style@ == "█"@,
            c.github_token_path@ == home@ + "/.github/token"@,
    {
        Config {
            concurrent_download_limit: 5,
            progress_bar_style: String::from_str("█"),
            github_token_path: String::from_str(home).concat("/.github/token"),
        }
    }
}

} // verus!
