pub mod cli;
pub mod config;
pub mod download;
pub mod error;
pub mod fetch;
pub mod listing;
pub mod locator;
pub mod paths;
pub mod text;

pub use cli::Cli;
pub use config::Config;
pub use download::{DownloadOptions, DownloadOutcome, DownloadResult, UnitStep};
pub use error::RepoPackError;
pub use locator::ParsedUrl;
pub use paths::{extract_relative_path, needs_normalization, normalize_path, resolve_output_path};
pub use text::truncate_path;
