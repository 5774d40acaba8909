use dlp::classifier::SmartClassifier;
use dlp::lyrics::LyricsFetcher;
use dlp::metadata::{DurationSecs, VideoMetadata};
use dlp::normalizer::MetadataNormalizer;
use dlp::orientation::Orientation;
use dlp::provider::ProviderRegistry;
use dlp::tiktok::TikTokFallback;

fn meta(id: &str, title: &str, uploader: &str, duration: u64, width: u32, height: u32) -> VideoMetadata {
    VideoMetadata {
        id: id.to_string(),
        title: title.to_string(),
        uploader: Some(uploader.to_string()),
        duration: Some(DurationSecs { whole: duration, positive: true }),
        width: Some(width),
        height: Some(height),
        filesize: None,
        filesize_approx: None,
        formats: None,
        webpage_url: None,
        thumbnail: None,
        categories: None,
        extractor: None,
        is_live: None,
        subtitles: None,
        automatic_captions: None,
    }
}

#[test]
fn test_regression_url_edge_cases() {
    let registry = ProviderRegistry::new();

    let yt_variants = [
        "https://www.youtube.com/watch?v=dQw4w9WgXcQ",
        "https://m.youtube.com/watch?v=dQw4w9WgXcQ",
        "https://youtu.be/dQw4w9WgXcQ",
        "https://youtu.be/dQw4w9WgXcQ?si=abcdef123456",
        "https://www.youtube.com/shorts/3iM_L16k630",
        "https://www.youtube.com/live/dQw4w9WgXcQ",
        "https://www.youtube.com/embed/dQw4w9WgXcQ",
    ];
    for url in yt_variants {
        let p = registry.find_provider(url);
        assert_eq!(p.name(), "YouTube", "Failed for URL variant: {}", url);
    }

    let tiktok_variants = [
        "https://www.tiktok.com/@creator/video/7123456789012345678",
        "https://m.tiktok.com/v/7123456789012345678.html",
        "https://vt.tiktok.com/ZSxxxxxxx/",
        "https://vm.tiktok.com/ZMxxxxxxx/",
        "https://www.tiktok.com/@user/video/7123456789012345678?is_from_webapp=1&sender_device=pc",
    ];
    for url in tiktok_variants {
        let p = registry.find_provider(url);
        assert_eq!(p.name(), "TikTok", "Failed for TikTok URL variant: {}", url);
        assert!(TikTokFallback::is_tiktok_url(url));
    }
}

#[test]
fn test_regression_smart_classification_matrix() {
    let music_meta = meta("123", "K-Pop Hit", "Artist", 180, 1920, 1080);

    let preset = SmartClassifier::classify("https://music.youtube.com/watch?v=123", &music_meta);
    assert_eq!(preset.default_preset_name(), "music");

    let shorts_preset = SmartClassifier::classify("https://www.youtube.com/shorts/abc", &music_meta);
    assert_eq!(shorts_preset.default_preset_name(), "tiktok");

    let tiktok_preset = SmartClassifier::classify("https://www.tiktok.com/@user/video/123", &music_meta);
    assert_eq!(tiktok_preset.default_preset_name(), "tiktok");

    let vertical_meta = meta("vertical_id", "Vertical Video", "Creator", 45, 1080, 1920);

    let vertical_preset = SmartClassifier::classify("https://example.com/video", &vertical_meta);
    assert_eq!(vertical_preset.default_preset_name(), "tiktok");

    let standard_preset = SmartClassifier::classify("https://www.youtube.com/watch?v=standard", &music_meta);
    assert_eq!(standard_preset.default_preset_name(), "video");
}

#[test]
fn test_regression_metadata_sanitizer_edge_cases() {
    let raw_title = "IVE - Accendio [Official MV] (Performance Video) (Color Coded Lyrics)";
    let cleaned = MetadataNormalizer::clean_title(raw_title);
    assert_eq!(cleaned, "IVE - Accendio");

    let raw_remaster = "Queen - Bohemian Rhapsody [Remastered] (4K Remaster)";
    let cleaned_remaster = MetadataNormalizer::clean_title(raw_remaster);
    assert_eq!(cleaned_remaster, "Queen - Bohemian Rhapsody");

    let track_num = "007 - Secret Agent Song (Official Video)";
    let cleaned_lyrics_title = LyricsFetcher::clean_title(track_num);
    assert_eq!(cleaned_lyrics_title, "Secret Agent Song");

    let illegal_filename = "Song: Title / Subtitle * Edition? <2024> | Extra \"Quotes\" \\ Backslash";
    let safe_filename = MetadataNormalizer::sanitize_filename(illegal_filename, "mp4");
    assert!(!safe_filename.contains(':'));
    assert!(!safe_filename.contains('/'));
    assert!(!safe_filename.contains('\\'));
    assert!(!safe_filename.contains('*'));
    assert!(!safe_filename.contains('?'));
    assert!(!safe_filename.contains('<'));
    assert!(!safe_filename.contains('>'));
    assert!(!safe_filename.contains('|'));
    assert!(!safe_filename.contains('"'));
}

#[test]
fn test_regression_orientation_boundary_conditions() {
    assert_eq!(Orientation::from_dimensions(1920, 1080), Orientation::Horizontal);
    assert_eq!(Orientation::from_dimensions(1080, 1920), Orientation::Vertical);
    assert_eq!(Orientation::from_dimensions(1080, 1080), Orientation::Square);
    assert_eq!(Orientation::from_dimensions(1081, 1080), Orientation::Horizontal);
    assert_eq!(Orientation::from_dimensions(1080, 1081), Orientation::Vertical);
}

#[test]
fn orientation_names() {
    assert_eq!(Orientation::Vertical.short_name(), "Vertical");
    assert_eq!(Orientation::Square.display_name(), "Square (1:1)");
    assert_eq!(Orientation::Horizontal.display_name(), "Horizontal (Landscape - 16:9 / 4:3)");
}
