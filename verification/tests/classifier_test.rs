use dlp::classifier::{MediaType, SmartClassifier};
use dlp::metadata::{DurationSecs, VideoFormat, VideoMetadata};

fn meta(
    id: &str,
    title: &str,
    uploader: &str,
    duration: u64,
    width: u32,
    height: u32,
    categories: Option<Vec<&str>>,
    extractor: &str,
) -> VideoMetadata {
    VideoMetadata {
        id: id.to_string(),
        title: title.to_string(),
        uploader: Some(uploader.to_string()),
        duration: Some(DurationSecs { whole: duration, positive: duration > 0 }),
        width: Some(width),
        height: Some(height),
        filesize: None,
        filesize_approx: None,
        formats: None,
        webpage_url: None,
        thumbnail: None,
        categories: categories.map(|cs| cs.into_iter().map(|c| c.to_string()).collect()),
        extractor: Some(extractor.to_string()),
        is_live: None,
        subtitles: None,
        automatic_captions: None,
    }
}

fn confidence(c: u32) -> f32 {
    c as f32 / 100.0
}

#[test]
fn test_classify_youtube_music() {
    let meta = meta("abc", "Song Title", "Artist", 180, 1920, 1080, Some(vec!["Music"]), "youtube");

    let classified = SmartClassifier::classify("https://music.youtube.com/watch?v=abc", &meta);
    assert_eq!(classified.media_type, MediaType::Music);
    assert!(confidence(classified.confidence) >= 0.70);
    assert_eq!(classified.default_preset_name(), "music");
    assert_eq!(classified.display_label(), "🎵 Music / Audio");
    assert!(classified.reasons.contains(&"music platform URL".to_string()));
    assert!(classified.reasons.contains(&"category tagged as Music".to_string()));
    assert!(classified.reasons.contains(&"standard track duration (< 10 min)".to_string()));
}

#[test]
fn test_classify_tiktok_url() {
    let meta = meta("123", "Dance", "creator", 30, 1080, 1920, None, "tiktok");

    let classified = SmartClassifier::classify("https://www.tiktok.com/@creator/video/123", &meta);
    assert_eq!(classified.media_type, MediaType::VerticalVideo);
    assert!(confidence(classified.confidence) >= 0.70);
    assert_eq!(classified.default_preset_name(), "tiktok");
    assert_eq!(classified.display_label(), "📱 Vertical Short-Form Video");
    assert!(classified.reasons.contains(&"short-form / vertical video URL".to_string()));
    assert!(classified.reasons.contains(&"vertical aspect ratio (e.g. 9:16)".to_string()));
}

#[test]
fn test_classify_vertical_shorts() {
    let meta = meta("short123", "Shorts Video", "channel", 45, 1080, 1920, None, "youtube");

    let classified = SmartClassifier::classify("https://www.youtube.com/shorts/short123", &meta);
    assert_eq!(classified.media_type, MediaType::VerticalVideo);
    assert!(confidence(classified.confidence) >= 0.70);
    assert_eq!(classified.default_preset_name(), "tiktok");
    assert_eq!(classified.display_label(), "📱 Vertical Short-Form Video");
    assert!(classified.reasons.contains(&"short-form / vertical video URL".to_string()));
    assert!(classified.reasons.contains(&"vertical aspect ratio (e.g. 9:16)".to_string()));
}

#[test]
fn test_classify_standard_video() {
    let meta = meta(
        "vid123",
        "Long Tutorial",
        "Tech",
        1200,
        1920,
        1080,
        Some(vec!["Science & Technology"]),
        "youtube",
    );

    let classified = SmartClassifier::classify("https://www.youtube.com/watch?v=vid123", &meta);
    assert_eq!(classified.media_type, MediaType::StandardVideo);
    assert!(confidence(classified.confidence) >= 0.60);
    assert_eq!(classified.default_preset_name(), "video");
    assert_eq!(classified.display_label(), "🎬 Standard Horizontal Video");
    assert!(classified.reasons.contains(&"horizontal aspect ratio (e.g. 16:9)".to_string()));
}

#[test]
fn classification_scores_and_clamps_confidence() {
    // music URL (50) + category (20) + short track (10) = 80 against horizontal 30.
    let m = meta("a", "t", "u", 180, 1920, 1080, Some(vec!["MUSIC"]), "youtube");
    let c = SmartClassifier::classify("https://music.youtube.com/watch?v=a", &m);
    assert_eq!(c.media_type, MediaType::Music);
    assert_eq!(c.confidence, 80);
    assert_eq!(
        c.reasons,
        vec![
            "music platform URL".to_string(),
            "category tagged as Music".to_string(),
            "standard track duration (< 10 min)".to_string()
        ]
    );
    // vertical URL (55) + vertical frame (40) = 95.
    let v = meta("b", "t", "u", 30, 1080, 1920, None, "tiktok");
    let cv = SmartClassifier::classify("https://vm.tiktok.com/x", &v);
    assert_eq!(cv.confidence, 95);
    // Horizontal only: 30 points, raised to the 60 floor.
    let s = meta("c", "t", "u", 1200, 1920, 1080, None, "youtube");
    let cs = SmartClassifier::classify("https://example.com/v", &s);
    assert_eq!(cs.media_type, MediaType::StandardVideo);
    assert_eq!(cs.confidence, 60);
}

#[test]
fn square_video_without_signals_falls_back_to_standard() {
    let sq = meta("d", "t", "u", 1200, 1080, 1080, None, "generic");
    let c = SmartClassifier::classify("https://example.com/v", &sq);
    assert_eq!(c.media_type, MediaType::StandardVideo);
    assert_eq!(c.confidence, 60);
    assert_eq!(c.reasons, vec!["default standard video fallback".to_string()]);
}

#[test]
fn music_and_vertical_tie_goes_to_standard() {
    // Audio-only (35) + music category (20) = 55 music points, a Shorts URL gives 55
    // vertical points, a square frame gives no standard points: the tie goes to standard.
    let mut m = meta("e", "t", "u", 700, 1080, 1080, Some(vec!["Music"]), "x");
    m.formats = Some(vec![VideoFormat {
        format_id: "a".to_string(),
        ext: Some("webm".to_string()),
        width: None,
        height: None,
        vcodec: Some("none".to_string()),
        acodec: Some("opus".to_string()),
        filesize: None,
        filesize_approx: None,
        format_note: None,
        resolution: None,
    }]);
    let c = SmartClassifier::classify("https://www.youtube.com/shorts/e", &m);
    assert_eq!(c.media_type, MediaType::StandardVideo);
    assert_eq!(c.confidence, 60);
    assert_eq!(c.reasons, vec!["default standard video fallback".to_string()]);
}

#[test]
fn vertical_url_outweighs_music_category() {
    let sq = meta("f", "t", "u", 100, 1080, 1080, Some(vec!["Music"]), "x");
    let c = SmartClassifier::classify("https://www.youtube.com/shorts/f", &sq);
    assert_eq!(c.media_type, MediaType::VerticalVideo);
    assert_eq!(c.confidence, 60);
    assert_eq!(c.reasons, vec!["short-form / vertical video URL".to_string()]);
}
