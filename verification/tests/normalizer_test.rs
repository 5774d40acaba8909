use dlp::metadata::{DurationSecs, VideoMetadata};
use dlp::normalizer::MetadataNormalizer;
use dlp::orientation::Orientation;
use dlp::preset::Preset;

#[test]
fn test_clean_title_patterns() {
    assert_eq!(MetadataNormalizer::clean_title("IVE - LOVE DIVE (Official MV)"), "IVE - LOVE DIVE");
    assert_eq!(
        MetadataNormalizer::clean_title("Taylor Swift - Anti-Hero (Official Music Video)"),
        "Taylor Swift - Anti-Hero"
    );
    assert_eq!(
        MetadataNormalizer::clean_title("NewJeans 'Ditto' [Performance Video]"),
        "NewJeans 'Ditto'"
    );
    assert_eq!(
        MetadataNormalizer::clean_title("Kenshi Yonezu - KICK BACK (Visualizer)"),
        "Kenshi Yonezu - KICK BACK"
    );
    assert_eq!(MetadataNormalizer::clean_title("YOASOBI - IDOL [Official Audio]"), "YOASOBI - IDOL");
    assert_eq!(MetadataNormalizer::clean_title("Track Name (Color Coded Lyrics)"), "Track Name");
}

#[test]
fn test_clean_artist() {
    assert_eq!(MetadataNormalizer::clean_artist("IVE - Topic"), "IVE");
    assert_eq!(MetadataNormalizer::clean_artist("NewJeans – Topic"), "NewJeans");
    assert_eq!(MetadataNormalizer::clean_artist("Taylor Swift"), "Taylor Swift");
}

#[test]
fn test_sanitize_filename() {
    let raw = "What/If:This*Was?A<Forbidden>Filename|";
    let sanitized = MetadataNormalizer::sanitize_filename(raw, "mp4");
    assert_eq!(sanitized, "What_If_This_Was_A_Forbidden_Filename_.mp4");

    let simple = MetadataNormalizer::sanitize_filename("Clean Title", "opus");
    assert_eq!(simple, "Clean Title.opus");
}

fn music_preset() -> Preset {
    Preset {
        name: "music".to_string(),
        description: None,
        container: "opus".to_string(),
        quality: "best".to_string(),
        max_horizontal: None,
        max_vertical: None,
        embed_metadata: true,
        embed_thumbnail: true,
        crop_thumbnail_square: true,
        extract_audio: true,
        audio_format: Some("opus".to_string()),
        audio_quality: Some("0".to_string()),
        write_lyrics: true,
        embed_lyrics: false,
        lyrics_format: Some("lrc".to_string()),
        sub_langs: None,
        clean_metadata: true,
        parse_music_tags: true,
        output_template: None,
        output_dir: None,
    }
}

fn meta_of(id: &str, title: &str, uploader: &str, duration: u64, w: u32, h: u32, page: &str) -> VideoMetadata {
    VideoMetadata {
        id: id.to_string(),
        title: title.to_string(),
        uploader: Some(uploader.to_string()),
        duration: Some(DurationSecs { whole: duration, positive: true }),
        width: Some(w),
        height: Some(h),
        filesize: None,
        filesize_approx: None,
        formats: None,
        webpage_url: Some(page.to_string()),
        thumbnail: None,
        categories: None,
        extractor: None,
        is_live: None,
        subtitles: None,
        automatic_captions: None,
    }
}

#[test]
fn test_normalize_metadata() {
    let meta = meta_of(
        "A9EpZWrQ3dM",
        "IVE - ELEVEN (Official MV)",
        "StarshipTV - Topic",
        184,
        1920,
        1080,
        "https://music.youtube.com/watch?v=A9EpZWrQ3dM",
    );
    let preset = music_preset();

    let norm = MetadataNormalizer::normalize("https://music.youtube.com/watch?v=A9EpZWrQ3dM", &meta, &preset);
    assert_eq!(norm.platform, "YouTube Music");
    assert_eq!(norm.content_type, "Music / Audio");
    assert_eq!(norm.clean_title, "IVE - ELEVEN");
    assert_eq!(norm.clean_artist, Some("StarshipTV".to_string()));
    assert_eq!(norm.sanitized_filename, "IVE - ELEVEN.opus");
}

#[test]
fn normalize_reports_dimensions_duration_and_subtitles() {
    let meta = meta_of("x", "Clip", "Chan", 3725, 1080, 1920, "https://www.tiktok.com/@a/video/1");
    let mut preset = music_preset();
    preset.extract_audio = false;
    preset.container = "mp4".to_string();
    let norm = MetadataNormalizer::normalize("https://www.tiktok.com/@a/video/1", &meta, &preset);
    assert_eq!(norm.platform, "TikTok");
    assert_eq!(norm.content_type, "Shorts / Vertical Video");
    assert_eq!(norm.orientation, Orientation::Vertical);
    assert_eq!(norm.duration_secs, 3725);
    assert_eq!(norm.duration_formatted, "01:02:05");
    assert!(!norm.has_subtitles);
    assert!(norm.available_resolutions.is_empty());
    assert_eq!(norm.clean_album, None);
    assert_eq!(norm.sanitized_filename, "Clip.mp4");
}

#[test]
fn sanitize_filename_edge_cases() {
    // Only forbidden characters and dots: trimmed to nothing, so "media".
    assert_eq!(MetadataNormalizer::sanitize_filename("  ...  ", "mkv"), "media.mkv");
    // Control characters are dropped, the extension's leading dots removed.
    assert_eq!(MetadataNormalizer::sanitize_filename("a\u{1}b", "..mp3"), "ab.mp3");
    // No extension: the base alone.
    assert_eq!(MetadataNormalizer::sanitize_filename("name. ", ""), "name");
    // Long names are cut to 200 characters.
    let long = "x".repeat(250);
    assert_eq!(MetadataNormalizer::sanitize_filename(&long, "").chars().count(), 200);
}

#[test]
fn clean_title_keeps_title_when_only_noise() {
    assert_eq!(MetadataNormalizer::clean_title("  (Official Video)  "), "(Official Video)");
    assert_eq!(MetadataNormalizer::clean_title("Song  -  Name | "), "Song - Name");
}

#[test]
fn noise_tags_are_cut_at_byte_offsets_of_the_lowercase_text() {
    // 'ẞ' takes three bytes and its lowercase 'ß' two, so the tag found in the lowercase
    // text covers other bytes of the title itself.
    assert_eq!(MetadataNormalizer::clean_title("ẞẞẞ x (MV)"), "ẞẞẞMV)");
    assert_eq!(MetadataNormalizer::clean_title("Song (MV)"), "Song");
}
