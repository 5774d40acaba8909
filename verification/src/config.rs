//! User configuration and its defaults.

use vstd::prelude::*;

verus! {

/// Download behaviour settings.
#[derive(Debug, Clone)]
pub struct DownloadPolicy {
    pub concurrency: usize,
    pub retry_delay_sec: u64,
    pub rate_limit: Option<String>,
}

/// The default number of parallel downloads: one (sequential).
pub fn default_concurrency() -> (r: usize)
    ensures
        r == 1,
{
    1
}

/// The default delay between retries, in seconds.
pub fn default_retry_delay() -> (r: u64)
    ensures
        r == 2,
{
    2
}

/// The preset used when none is chosen.
pub fn default_preset() -> (r: String)
    ensures
        r@ == "video"@,
{
    "video".to_owned()
}

impl Default for DownloadPolicy {
    fn default() -> (r: Self)
        ensures
            r.concurrency == 1,
            r.retry_delay_sec == 2,
            r.rate_limit is None,
    {
        Self { concurrency: default_concurrency(), retry_delay_sec: default_retry_delay(), rate_limit: None }
    }
}

/// The application configuration.
#[derive(Debug, Clone)]
pub struct Config {
    pub default_preset: String,
    pub download_dir: Option<String>,
    pub download: DownloadPolicy,
}

impl Default for Config {
    fn default() -> (r: Self)
        ensures
            r.default_preset@ == "video"@,
            r.download_dir is None,
            r.download.concurrency == 1,
            r.download.retry_delay_sec == 2,
            r.download.rate_limit is None,
    {
        Self { default_preset: default_preset(), download_dir: None, download: DownloadPolicy::default() }
    }
}

} // verus!
