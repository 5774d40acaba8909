//! The arguments of the download and batch commands, as the library receives them.

use vstd::prelude::*;

verus! {

/// The arguments of a single-media download command.
#[derive(Debug, Clone)]
pub struct DownloadArgs {
    /// URL of the media.
    pub url: String,
    /// Quality tier or resolution that overrides the preset's.
    pub quality: Option<String>,
    /// Whether to fetch lyrics or subtitles, when given.
    pub lyrics: Option<bool>,
    /// Only inspect and display metadata.
    pub info_only: bool,
    /// Explain the decisions without downloading.
    pub explain: bool,
    /// Output directory.
    pub output_dir: Option<String>,
}

/// The arguments of the batch command.
#[derive(Debug, Clone)]
pub struct BatchArgs {
    /// URL list files or URLs.
    pub inputs: Vec<String>,
    /// Preset of the batch, or `auto` to classify each item.
    pub preset: String,
    /// Quality tier or resolution that overrides the preset's.
    pub quality: Option<String>,
    /// Whether to fetch lyrics, when given.
    pub lyrics: Option<bool>,
    /// Output directory.
    pub output_dir: Option<String>,
    /// Skip the items the checkpoint has as completed.
    pub resume: bool,
    /// Number of parallel downloads.
    pub concurrency: Option<usize>,
}

} // verus!
