use dlp::metadata::{DurationSecs, VideoMetadata};
use dlp::normalizer::DecisionTrace;
use dlp::preset::Preset;
use dlp::quality::QualityPreference;

fn meta(id: &str, title: &str, uploader: &str, duration: u64, w: u32, h: u32, page: &str) -> VideoMetadata {
    VideoMetadata {
        id: id.to_string(),
        title: title.to_string(),
        uploader: Some(uploader.to_string()),
        duration: Some(DurationSecs { whole: duration, positive: true }),
        width: Some(w),
        height: Some(h),
        filesize: None,
        filesize_approx: None,
        formats: None,
        webpage_url: Some(page.to_string()),
        thumbnail: None,
        categories: None,
        extractor: None,
        is_live: None,
        subtitles: None,
        automatic_captions: None,
    }
}

#[test]
fn test_decision_trace_video_pipeline() {
    let meta = meta(
        "test_video",
        "Amazing 4K Nature Video (Official Video)",
        "NatureChannel",
        120,
        3840,
        2160,
        "https://www.youtube.com/watch?v=test_video",
    );
    let preset = Preset {
        name: "video".to_string(),
        description: None,
        container: "mp4".to_string(),
        quality: "1080p".to_string(),
        max_horizontal: Some(1080),
        max_vertical: None,
        embed_metadata: true,
        embed_thumbnail: true,
        crop_thumbnail_square: false,
        extract_audio: false,
        audio_format: None,
        audio_quality: None,
        write_lyrics: false,
        embed_lyrics: false,
        lyrics_format: None,
        sub_langs: None,
        clean_metadata: true,
        parse_music_tags: false,
        output_template: None,
        output_dir: Some("Downloads".to_string()),
    };

    let effective_quality = QualityPreference::SpecificHeight(1080);
    let trace = DecisionTrace::build(
        "https://www.youtube.com/watch?v=test_video",
        &meta,
        &preset,
        &effective_quality,
        None,
    );

    assert_eq!(trace.platform, "YouTube");
    assert_eq!(trace.content_type, "Standard Video");
    assert_eq!(trace.resolution, "3840x2160");
    assert_eq!(trace.policy_name, "video");
    assert!(trace.policy_rules.iter().any(|r| r.contains("max_horizontal = 1080p")));
    assert!(trace.selected_format_desc.iter().any(|s| s.contains("container: mp4")));
    assert!(trace.post_processing_steps.iter().any(|s| s.contains("ffmpeg remux/merge to mp4")));
    assert_eq!(trace.output_filename, "Amazing 4K Nature Video.mp4");
}

#[test]
fn test_decision_trace_music_pipeline() {
    let meta = meta(
        "music_track",
        "IVE - Accendio (Official MV)",
        "IVE - Topic",
        190,
        1920,
        1080,
        "https://music.youtube.com/watch?v=music_track",
    );
    let preset = Preset {
        name: "music".to_string(),
        description: None,
        container: "opus".to_string(),
        quality: "best".to_string(),
        max_horizontal: None,
        max_vertical: None,
        embed_metadata: true,
        embed_thumbnail: true,
        crop_thumbnail_square: true,
        extract_audio: true,
        audio_format: Some("opus".to_string()),
        audio_quality: Some("0".to_string()),
        write_lyrics: true,
        embed_lyrics: false,
        lyrics_format: Some("lrc".to_string()),
        sub_langs: None,
        clean_metadata: true,
        parse_music_tags: true,
        output_template: None,
        output_dir: None,
    };

    let effective_quality = QualityPreference::Best;
    let trace = DecisionTrace::build(
        "https://music.youtube.com/watch?v=music_track",
        &meta,
        &preset,
        &effective_quality,
        Some("/custom/music/path"),
    );

    assert_eq!(trace.platform, "YouTube Music");
    assert_eq!(trace.content_type, "Music / Audio");
    assert!(trace.post_processing_steps.iter().any(|s| s.contains("ffmpeg 1:1 square cover crop")));
    assert!(trace.post_processing_steps.iter().any(|s| s.contains("LRCLIB synced lyrics")));
    assert_eq!(trace.output_dir, Some("/custom/music/path".to_string()));
    assert_eq!(trace.output_filename, "IVE - Accendio.opus");
}

#[test]
fn trace_lists_every_rule_and_renders_a_box() {
    let meta = meta("v", "Clip", "Chan", 59, 1280, 720, "https://example.com/v");
    let mut preset = Preset {
        name: "video".to_string(),
        description: None,
        container: "mkv".to_string(),
        quality: "best".to_string(),
        max_horizontal: Some(2160),
        max_vertical: Some(1440),
        embed_metadata: true,
        embed_thumbnail: false,
        crop_thumbnail_square: false,
        extract_audio: false,
        audio_format: None,
        audio_quality: None,
        write_lyrics: false,
        embed_lyrics: false,
        lyrics_format: None,
        sub_langs: Some(vec!["en".to_string()]),
        clean_metadata: false,
        parse_music_tags: false,
        output_template: None,
        output_dir: Some("out".to_string()),
    };
    let trace = DecisionTrace::build("https://example.com/v", &meta, &preset, &QualityPreference::SpecificHeight(720), None);
    assert_eq!(
        trace.policy_rules,
        vec!["Preset: video", "max_horizontal = 2160p", "max_vertical = 1440p", "preferred = best"]
    );
    assert_eq!(
        trace.selected_format_desc,
        vec!["selector: bestvideo[height<=720]+bestaudio/best[height<=720]/best", "container: mkv"]
    );
    assert_eq!(
        trace.post_processing_steps,
        vec!["ffmpeg remux/merge to mkv", "metadata embedding", "subtitles → external .srt sidecar"]
    );
    assert_eq!(trace.platform, "Generic");
    assert_eq!(trace.duration, "00:59");
    assert_eq!(trace.orientation, "Horizontal (Landscape - 16:9 / 4:3)");
    assert_eq!(trace.output_dir, Some("out".to_string()));
    let lines = trace.trace_lines();
    assert_eq!(lines[3], format!("║ Platform       : {:<32}║", "Generic"));
    assert_eq!(lines[10], format!("║   → {:<45}║", "Preset: video"));
    assert_eq!(lines.last().unwrap(), "╚══════════════════════════════════════════════════╝\n");
    assert!(lines.iter().any(|l| l == &format!("║   Folder: {:<41}║", "out")));

    preset.extract_audio = true;
    preset.audio_format = None;
    let audio = DecisionTrace::build("https://example.com/v", &meta, &preset, &QualityPreference::Best, None);
    assert_eq!(audio.selected_format_desc, vec!["audio stream: 251/140/bestaudio", "codec: opus"]);
    assert_eq!(audio.post_processing_steps, vec!["ffmpeg audio extraction"]);
    assert_eq!(audio.output_filename, "Clip.opus");
}

#[test]
fn explanation_names_what_the_download_runs() {
    let m = meta("v", "Clip", "Someone", 90, 1920, 1080, "https://www.youtube.com/watch?v=v");
    let mut p = Preset::builtin_video();
    p.sub_langs = Some(vec!["en".to_string()]);
    let q = QualityPreference::SpecificHeight(1080);
    let trace = DecisionTrace::build("https://www.youtube.com/watch?v=v", &m, &p, &q, Some("out"));
    let args = dlp::downloader::Downloader::download_args("https://www.youtube.com/watch?v=v", &p, &q, Some("out"), None);
    let selector = q.to_format_selector();
    assert_eq!(trace.selected_format_desc[0], format!("selector: {}", selector));
    let f = args.iter().position(|a| a == "-f").unwrap();
    assert_eq!(args[f + 1], selector);
    assert_eq!(trace.post_processing_steps.last().unwrap(), "subtitles → external .srt sidecar");
    assert!(args.iter().any(|a| a == "--write-subs"));
    assert!(args.iter().any(|a| a == "--convert-subs"));
    assert_eq!(trace.output_dir.as_deref(), Some("out"));
    assert_eq!(args[args.len() - 3], "-P");
    assert_eq!(args[args.len() - 2], "out");
}
