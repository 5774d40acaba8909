use dlp::metadata::{DurationSecs, VideoMetadata};
use dlp::normalizer::DecisionTrace;
use dlp::preset::Preset;
use dlp::quality::QualityPreference;
use dlp::recovery::{DiagnosticReport, FailureCategory};
use dlp::scheduler::{PlatformCategory, ScheduledPlan};

#[test]
fn test_decision_trace_terminal_snapshot() {
    let meta = VideoMetadata {
        id: "snapshot_id".to_string(),
        title: "Test Snapshot Title (Official Music Video)".to_string(),
        uploader: Some("Official Channel - Topic".to_string()),
        duration: Some(DurationSecs { whole: 215, positive: true }),
        width: Some(1920),
        height: Some(1080),
        filesize: None,
        filesize_approx: None,
        formats: None,
        webpage_url: None,
        thumbnail: None,
        categories: None,
        extractor: None,
        is_live: None,
        subtitles: None,
        automatic_captions: None,
    };

    let preset = Preset {
        name: "video".to_string(),
        description: None,
        container: "mp4".to_string(),
        quality: "best".to_string(),
        max_horizontal: Some(1080),
        max_vertical: None,
        embed_metadata: true,
        embed_thumbnail: true,
        crop_thumbnail_square: false,
        extract_audio: false,
        audio_format: None,
        audio_quality: None,
        write_lyrics: false,
        embed_lyrics: false,
        lyrics_format: None,
        sub_langs: None,
        clean_metadata: false,
        parse_music_tags: false,
        output_template: None,
        output_dir: None,
    };

    let trace = DecisionTrace::build(
        "https://www.youtube.com/watch?v=snapshot_id",
        &meta,
        &preset,
        &QualityPreference::SpecificHeight(1080),
        None,
    );

    assert_eq!(trace.platform, "YouTube");
    assert_eq!(trace.content_type, "Standard Video");
    assert_eq!(trace.resolution, "1920x1080");
    assert_eq!(trace.duration, "03:35");
    assert_eq!(trace.policy_name, "video");
    assert_eq!(trace.output_filename, "Test Snapshot Title.mp4");
}

#[test]
fn test_diagnostic_report_terminal_snapshot() {
    let report = DiagnosticReport::new(
        FailureCategory::BotBlockOrExtractor {
            reason: "Sign in to confirm you're not a bot".to_string(),
        },
        Some("Engaging Safari-18 TLS fingerprint rotation...".to_string()),
    );

    let display_str = report.to_string();
    assert!(display_str.contains("Anti-Bot/Rate-Limit"));
    assert!(report.category.is_retryable());
}

#[test]
fn test_scheduler_plan_snapshot() {
    let urls = vec![
        "https://www.youtube.com/watch?v=1".to_string(),
        "https://www.tiktok.com/@u/video/2".to_string(),
        "https://music.youtube.com/watch?v=3".to_string(),
    ];

    let plan = ScheduledPlan::from_urls(&urls);

    assert_eq!(plan.tasks.len(), 3);
    assert_eq!(plan.group(PlatformCategory::YouTube).unwrap().len(), 1);
    assert_eq!(plan.group(PlatformCategory::TikTok).unwrap().len(), 1);
    assert_eq!(plan.group(PlatformCategory::YouTubeMusic).unwrap().len(), 1);
    assert_eq!(PlatformCategory::TikTok.max_safe_concurrency(4), 2);
}
