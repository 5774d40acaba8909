use dlp::tiktok::{creator_dir, download_file_name};
use dlp::metadata::DurationSecs;
use dlp::tiktok::{chrono_fallback_or_timestamp, safe_title_of, tiktok_file_name, TikTokFallback, TikwmStep};

#[test]
fn test_is_tiktok_url() {
    assert!(TikTokFallback::is_tiktok_url("https://www.tiktok.com/@ryoun_e/video/7680213075999427860"));
    assert!(TikTokFallback::is_tiktok_url("https://vt.tiktok.com/ZSjXq123/"));
    assert!(TikTokFallback::is_tiktok_url("https://vm.tiktok.com/ZM8xY/"));
    assert!(!TikTokFallback::is_tiktok_url("https://www.youtube.com/watch?v=dQw4w9WgXcQ"));
}

#[test]
fn test_clean_tiktok_url() {
    let raw = "https://www.tiktok.com/@ryoun_e/video/7680213075999427860?is_from_webapp=1&sender_device=pc&web_id=7679184587146872337";
    assert_eq!(
        TikTokFallback::clean_url(raw),
        "https://www.tiktok.com/@ryoun_e/video/7680213075999427860"
    );
}

#[test]
fn tikwm_request_and_replies() {
    assert_eq!(
        TikTokFallback::tikwm_api_url("https://www.tiktok.com/@a/video/1"),
        "https://www.tikwm.com/api/?url=https%3A%2F%2Fwww.tiktok.com%2F%40a%2Fvideo%2F1"
    );
    assert_eq!(TikTokFallback::tikwm_reply_step(Some(0), None, 0), TikwmStep::Accept);
    assert_eq!(
        TikTokFallback::tikwm_reply_step(Some(-1), Some("Free Api Limit: 1 request/second"), 0),
        TikwmStep::RetryAfterPause
    );
    assert_eq!(
        TikTokFallback::tikwm_reply_step(Some(-1), Some("Free Api Limit: 1 request/second"), 1),
        TikwmStep::Fail("TikWM API error: Free Api Limit: 1 request/second".to_string())
    );
    assert_eq!(
        TikTokFallback::tikwm_reply_step(None, None, 0),
        TikwmStep::Fail("TikWM API error: Unknown TikWM error".to_string())
    );
    assert_eq!(
        TikTokFallback::play_url(None, Some("/video/media/play/1.mp4")),
        Some("https://www.tikwm.com/video/media/play/1.mp4".to_string())
    );
    assert_eq!(
        TikTokFallback::play_url(Some("https://cdn/x.mp4"), Some("/y")),
        Some("https://cdn/x.mp4".to_string())
    );
    assert_eq!(TikTokFallback::play_url(None, None), None);
}

#[test]
fn tiktok_file_naming() {
    assert_eq!(safe_title_of("Hello, World! #fyp 🎉 ok_go-now"), "Hello World fyp  ok_go-now");
    assert_eq!(tiktok_file_name("2024-05-01", "123", "dance"), "2024-05-01_123_dance.mp4");
    assert_eq!(chrono_fallback_or_timestamp(0), "1970-01-01");
    assert_eq!(chrono_fallback_or_timestamp(86400 * 400), "1971-02-06");
}

#[test]
fn rotation_arguments_and_clients() {
    let clients = TikTokFallback::impersonate_clients();
    assert_eq!(clients.len(), 10);
    assert_eq!(clients[0], "safari-18.0:macos-15");
    assert_eq!(clients[9], "chrome-99:windows-10");
}

#[test]
fn metadata_from_reply_uses_defaults() {
    let m = TikTokFallback::metadata_from_reply(
        "https://www.tiktok.com/@a/video/1",
        None,
        Some("Dance"),
        Some("creator"),
        Some(DurationSecs { whole: 15, positive: true }),
        None,
        Some("https://cover"),
    );
    assert_eq!(m.id, "tiktok_video");
    assert_eq!(m.title, "Dance");
    assert_eq!(m.uploader.as_deref(), Some("creator"));
    assert_eq!(m.thumbnail.as_deref(), Some("https://cover"));
    assert_eq!(m.extractor.as_deref(), Some("tiktok"));
    assert_eq!(m.available_resolutions(), vec![1920]);
    assert_eq!(m.format_duration(), "00:15");
}

#[test]
fn download_folder_and_file_name_defaults() {
    assert_eq!(creator_dir(Some("someone")), "someone");
    assert_eq!(creator_dir(None), "TikTok_Creator");
    assert_eq!(download_file_name(None, None, None), "video_video_tiktok_video.mp4");
    assert_eq!(download_file_name(Some("42"), Some("Hi! there #fyp"), Some(0)), "1970-01-01_42_Hi there fyp.mp4");
}
