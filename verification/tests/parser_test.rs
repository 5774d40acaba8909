use dlp::metadata::{DurationSecs, VideoFormat, VideoMetadata};
use dlp::orientation::Orientation;
use dlp::quality::QualityPreference;

#[test]
fn test_orientation_detection() {
    assert_eq!(Orientation::from_dimensions(1920, 1080), Orientation::Horizontal);
    assert_eq!(Orientation::from_dimensions(3840, 2160), Orientation::Horizontal);
    assert_eq!(Orientation::from_dimensions(640, 480), Orientation::Horizontal);
    assert_eq!(Orientation::from_dimensions(1080, 1920), Orientation::Vertical);
    assert_eq!(Orientation::from_dimensions(720, 1280), Orientation::Vertical);
    assert_eq!(Orientation::from_dimensions(1080, 1080), Orientation::Square);
}

#[test]
fn test_quality_preference_parsing() {
    assert_eq!(QualityPreference::parse("best").unwrap(), QualityPreference::Best);
    assert_eq!(QualityPreference::parse("BEST").unwrap(), QualityPreference::Best);
    assert_eq!(QualityPreference::parse("4k").unwrap(), QualityPreference::SpecificHeight(2160));
    assert_eq!(QualityPreference::parse("2160p").unwrap(), QualityPreference::SpecificHeight(2160));
    assert_eq!(QualityPreference::parse("1440p").unwrap(), QualityPreference::SpecificHeight(1440));
    assert_eq!(QualityPreference::parse("qhd").unwrap(), QualityPreference::SpecificHeight(1440));
    assert_eq!(QualityPreference::parse("1080").unwrap(), QualityPreference::SpecificHeight(1080));
    assert_eq!(QualityPreference::parse("fhd").unwrap(), QualityPreference::SpecificHeight(1080));
    assert_eq!(QualityPreference::parse("720p").unwrap(), QualityPreference::SpecificHeight(720));
    assert_eq!(QualityPreference::parse("hd").unwrap(), QualityPreference::SpecificHeight(720));
    assert_eq!(QualityPreference::parse("480p").unwrap(), QualityPreference::SpecificHeight(480));
    assert_eq!(QualityPreference::parse("sd").unwrap(), QualityPreference::SpecificHeight(480));

    assert!(QualityPreference::parse("invalid_tier").is_err());
}

#[test]
fn test_format_selector_generation() {
    let best = QualityPreference::Best;
    assert_eq!(best.to_format_selector(), "bestvideo+bestaudio/best");

    let fhd = QualityPreference::SpecificHeight(1080);
    assert_eq!(
        fhd.to_format_selector(),
        "bestvideo[height<=1080]+bestaudio/best[height<=1080]/best"
    );
}

#[test]
fn test_quality_resolution_matching() {
    let available = vec![2160, 1440, 1080, 720, 480];

    assert_eq!(QualityPreference::Best.select_best_resolution(&available), Some(2160));

    let q1080 = QualityPreference::SpecificHeight(1080);
    assert_eq!(q1080.select_best_resolution(&available), Some(1080));

    let q900 = QualityPreference::SpecificHeight(900);
    assert_eq!(q900.select_best_resolution(&available), Some(720));

    let q240 = QualityPreference::SpecificHeight(240);
    assert_eq!(q240.select_best_resolution(&available), Some(480));
}

fn format(id: &str, vcodec: &str, acodec: &str, height: Option<u32>) -> VideoFormat {
    VideoFormat {
        format_id: id.to_string(),
        ext: None,
        width: None,
        height,
        vcodec: Some(vcodec.to_string()),
        acodec: Some(acodec.to_string()),
        filesize: None,
        filesize_approx: None,
        format_note: None,
        resolution: None,
    }
}

#[test]
fn test_video_metadata_deserialization() {
    let meta = VideoMetadata {
        id: "abc_xyz".to_string(),
        title: "Rust Tutorial for Beginners".to_string(),
        uploader: Some("Rustacean".to_string()),
        duration: Some(DurationSecs { whole: 3665, positive: true }),
        width: Some(2560),
        height: Some(1440),
        filesize: None,
        filesize_approx: None,
        formats: Some(vec![
            format("1", "avc1", "none", Some(1440)),
            format("2", "avc1", "none", Some(1080)),
            format("3", "avc1", "none", Some(720)),
            format("4", "none", "mp4a", None),
        ]),
        webpage_url: None,
        thumbnail: None,
        categories: None,
        extractor: None,
        is_live: None,
        subtitles: None,
        automatic_captions: None,
    };

    assert_eq!(meta.title, "Rust Tutorial for Beginners");
    assert_eq!(meta.format_duration(), "01:01:05");
    assert_eq!(meta.orientation(), Orientation::Horizontal);
    assert_eq!(meta.available_resolutions(), vec![1440, 1080, 720]);
}

#[test]
fn empty_and_invalid_quality_inputs_are_rejected() {
    assert_eq!(
        QualityPreference::parse("  ").unwrap_err(),
        dlp::error::DlpError::InvalidQuality("  ".to_string())
    );
    assert_eq!(QualityPreference::parse(" 1080P ").unwrap(), QualityPreference::SpecificHeight(1080));
    assert_eq!(QualityPreference::Best.select_best_resolution(&[]), None);
}

#[test]
fn format_stream_kinds() {
    let video = format("v", "avc1", "none", Some(720));
    assert!(video.is_video_only() && !video.is_audio_only() && video.has_video());
    let audio = format("a", "none", "opus", None);
    assert!(audio.is_audio_only() && !audio.is_video_only() && !audio.has_video());
    let muxed = format("m", "avc1", "aac", Some(360));
    assert!(!muxed.is_audio_only() && !muxed.is_video_only() && muxed.has_video());
}

#[test]
fn metadata_helpers_cover_edge_cases() {
    let mut meta = VideoMetadata {
        id: "i".to_string(),
        title: "t".to_string(),
        uploader: None,
        duration: Some(DurationSecs { whole: 0, positive: false }),
        width: Some(0),
        height: Some(720),
        filesize: None,
        filesize_approx: None,
        formats: Some(vec![format("a", "none", "opus", None)]),
        webpage_url: None,
        thumbnail: None,
        categories: None,
        extractor: None,
        is_live: None,
        subtitles: Some(vec!["live_chat".to_string(), "en".to_string(), "de".to_string()]),
        automatic_captions: Some(vec!["en".to_string(), "ar".to_string()]),
    };
    assert_eq!(meta.format_duration(), "Unknown");
    assert_eq!(meta.orientation(), Orientation::Horizontal);
    assert!(meta.is_audio_only());
    assert_eq!(meta.available_subtitle_languages(), vec!["ar", "de", "en"]);
    meta.duration = Some(DurationSecs { whole: 59, positive: true });
    assert_eq!(meta.format_duration(), "00:59");
    meta.formats = Some(vec![]);
    assert!(!meta.is_audio_only());
}

#[test]
fn estimated_size_adds_the_largest_audio_stream() {
    let mut v1 = format("v1", "avc1", "none", Some(1080));
    v1.filesize = Some(1000);
    let v2 = format("v2", "avc1", "none", Some(1080));
    let mut a1 = format("a1", "none", "opus", None);
    a1.filesize_approx = Some(200);
    let a2 = format("a2", "none", "opus", None);
    let meta = VideoMetadata {
        id: "x".to_string(),
        title: "x".to_string(),
        uploader: None,
        duration: Some(DurationSecs { whole: 60, positive: true }),
        width: Some(1920),
        height: Some(1080),
        filesize: Some(42),
        filesize_approx: None,
        formats: Some(vec![v1, v2, a1, a2]),
        webpage_url: None,
        thumbnail: None,
        categories: None,
        extractor: None,
        is_live: None,
        subtitles: None,
        automatic_captions: None,
    };
    let estimates = vec![(None, None), (None, Some(3000)), (Some(999), None), (Some(500), None)];
    assert_eq!(meta.estimated_size_for_resolution(1080, &estimates), Some(3500));
    assert_eq!(meta.estimated_size_for_resolution(1080, &[]), Some(1200));
    assert_eq!(meta.estimated_size_for_resolution(720, &estimates), Some(42));
}

#[test]
fn decimal_heights_round_trip() {
    for n in [1u32, 144, 480, 999, 1080, 2160, 4320, u32::MAX] {
        assert_eq!(QualityPreference::parse(&n.to_string()), Ok(QualityPreference::SpecificHeight(n)));
        assert_eq!(QualityPreference::parse(&format!("{}p", n)), Ok(QualityPreference::SpecificHeight(n)));
        assert_eq!(QualityPreference::parse(&format!("  {}P ", n)), Ok(QualityPreference::SpecificHeight(n)));
    }
}
