use dlp::config::{default_concurrency, default_preset, default_retry_delay, Config, DownloadPolicy};

#[test]
fn test_default_download_policy() {
    let policy = DownloadPolicy::default();
    assert_eq!(policy.concurrency, 1);
    assert_eq!(policy.retry_delay_sec, 2);
    assert_eq!(policy.rate_limit, None);

    let config = Config::default();
    assert_eq!(config.download.concurrency, 1);
    assert_eq!(config.download.retry_delay_sec, 2);
}

#[test]
fn config_defaults_name_the_video_preset() {
    let config = Config::default();
    assert_eq!(config.default_preset, "video");
    assert_eq!(config.download_dir, None);
    assert_eq!(default_preset(), "video");
    assert_eq!(default_concurrency(), 1);
    assert_eq!(default_retry_delay(), 2);
}
