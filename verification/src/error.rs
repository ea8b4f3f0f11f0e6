use vstd::prelude::*;

verus! {

/// Everything that can go wrong while resolving, listing, fetching or
/// saving files. Transport-level causes are carried as plain text in
/// `detail` fields so that callers can surface them.
#[derive(Debug)]
pub enum RepoPackError {
    /// The locator string could not be parsed into owner/repo/ref/dir.
    InvalidUrl { url: String, hint: String },
    /// The API refused the request because the rate limit is exhausted.
    RateLimited { reset_time: String },
    /// The repository (or the ref) does not exist or is not visible.
    NotFound { owner: String, repo: String, hint: String },
    /// A private resource was requested without a sufficient credential.
    AuthRequired,
    /// Retrieving one file's content failed.
    DownloadFailed { path: String, detail: String },
    /// Writing one file to disk failed.
    IoError { path: String, detail: String },
    /// A resolved output path would escape the output root.
    PathTraversal { path: String },
    /// The configuration file could not be read.
    ConfigLoad { detail: String },
    /// The configuration file could not be parsed.
    ConfigParse { detail: String },
    /// The configuration file could not be written.
    ConfigSave { detail: String },
}

impl RepoPackError {
    /// The user-facing description of this error.
    pub open spec fn message_view(self) -> Seq<char> {
        match self {
            RepoPackError::InvalidUrl { url, .. } => "invalid url: "@ + url@,
            RepoPackError::RateLimited { reset_time } => "rate limit exceeded, resets at "@
                + reset_time@,
            RepoPackError::NotFound { owner, repo, .. } => "repository not found: "@ + owner@
                + "/"@ + repo@,
            RepoPackError::AuthRequired => "authentication required for private repository"@,
            RepoPackError::DownloadFailed { path, .. } => "failed to download "@ + path@,
            RepoPackError::IoError { path, .. } => "failed to save file "@ + path@,
            RepoPackError::PathTraversal { path } => "path traversal detected: "@ + path@,
            RepoPackError::ConfigLoad { .. } => "failed to load config"@,
            RepoPackError::ConfigParse { .. } => "failed to parse config"@,
            RepoPackError::ConfigSave { .. } => "failed to save config"@,
        }
    }

    /// Renders the user-facing description of this error.
    pub fn message(&self) -> (m: String)
        ensures
            m@ == self.message_view(),
    {
        match self {
            RepoPackError::InvalidUrl { url, .. } => String::from_str("invalid url: ").concat(
                url.as_str(),
            ),
            RepoPackError::RateLimited { reset_time } => String::from_str(
                "rate limit exceeded, resets at ",
            ).concat(reset_time.as_str()),
            RepoPackError::NotFound { owner, repo, .. } => String::from_str(
                "repository not found: ",
            ).concat(owner.as_str()).concat("/").concat(repo.as_str()),
            RepoPackError::AuthRequired => String::from_str(
                "authentication required for private repository",
            ),
            RepoPackError::DownloadFailed { path, .. } => String::from_str(
                "failed to download ",
            ).concat(path.as_str()),
            RepoPackError::IoError { path, .. } => String::from_str("failed to save file ").concat(
                path.as_str(),
            ),
            RepoPackError::PathTraversal { path } => String::from_str(
                "path traversal detected: ",
            ).concat(path.as_str()),
            RepoPackError::ConfigLoad { .. } => String::from_str("failed to load config"),
            RepoPackError::ConfigParse { .. } => String::from_str("failed to parse config"),
            RepoPackError::ConfigSave { .. } => String::from_str("failed to save config"),
        }
    }
}

} // verus!
