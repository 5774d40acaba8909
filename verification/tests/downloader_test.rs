use dlp::downloader::{is_format_fallback, transient_retry_limit};
use dlp::downloader::{DownloadRecovery, Downloader, MetadataRecovery, MetadataStep, RetryAction};
use dlp::engine::YtDlpEngine;
use dlp::preset::Preset;
use dlp::quality::QualityPreference;
use dlp::recovery::FailureCategory;
use dlp::tiktok::TikTokFallback;

fn preset() -> Preset {
    Preset {
        name: "video".to_string(),
        description: None,
        container: "mp4".to_string(),
        quality: "best".to_string(),
        max_horizontal: None,
        max_vertical: None,
        embed_metadata: true,
        embed_thumbnail: false,
        crop_thumbnail_square: false,
        extract_audio: false,
        audio_format: None,
        audio_quality: None,
        write_lyrics: false,
        embed_lyrics: false,
        lyrics_format: None,
        sub_langs: None,
        clean_metadata: false,
        parse_music_tags: false,
        output_template: None,
        output_dir: Some("dl".to_string()),
    }
}

#[test]
fn video_download_arguments() {
    let args = Downloader::download_args(
        "https://youtu.be/x",
        &preset(),
        &QualityPreference::SpecificHeight(720),
        None,
        None,
    );
    let expected: Vec<String> = [
        "-f",
        "bestvideo[height<=720]+bestaudio/best[height<=720]/best",
        "--merge-output-format",
        "mp4",
        "--remux-video",
        "mp4",
        "--windows-filenames",
        "--embed-metadata",
        "--no-playlist",
        "--newline",
        "--progress",
        "--progress-template",
        "download:__DLP__:%(progress._percent_str)s|%(progress._speed_str)s|%(progress._eta_str)s|%(progress._total_bytes_str,progress._total_bytes_estimate_str)s",
        "-P",
        "dl",
        "https://youtu.be/x",
    ]
    .iter()
    .map(|s| s.to_string())
    .collect();
    assert_eq!(args, expected);
}

#[test]
fn audio_download_arguments_with_subtitles_and_tags() {
    let mut p = preset();
    p.extract_audio = true;
    p.audio_quality = Some("0".to_string());
    p.write_lyrics = true;
    p.sub_langs = Some(vec!["en".to_string(), "ko".to_string()]);
    p.crop_thumbnail_square = true;
    p.clean_metadata = true;
    p.parse_music_tags = true;
    p.output_template = Some("%(title)s.%(ext)s".to_string());
    let args = Downloader::download_args(
        "https://www.tiktok.com/@a/video/1",
        &p,
        &QualityPreference::Best,
        Some("music"),
        None,
    );
    assert_eq!(&args[0..2], &["--impersonate".to_string(), "chrome".to_string()]);
    assert_eq!(
        &args[2..8],
        &["--ignore-config", "-x", "--audio-format", "opus", "--audio-quality", "0"].map(|s| s.to_string())
    );
    let sub_pos = args.iter().position(|a| a == "--sub-langs").unwrap();
    assert_eq!(args[sub_pos + 1], "en,ko");
    assert_eq!(args[sub_pos + 3], "lrc/best");
    assert_eq!(args.iter().filter(|a| *a == "--parse-metadata").count(), 10);
    assert!(args.contains(&"ThumbnailsConvertor+ffmpeg_o:-vf crop=ih:ih -c:v mjpeg".to_string()));
    let o = args.iter().position(|a| a == "-o").unwrap();
    assert_eq!(args[o + 1], "%(title)s.%(ext)s");
    assert_eq!(args[args.len() - 3], "-P");
    assert_eq!(args[args.len() - 2], "music");
    let rotated = Downloader::download_args("https://youtu.be/x", &p, &QualityPreference::Best, None, Some("safari-18"));
    assert_eq!(&rotated[0..2], &["--impersonate".to_string(), "safari-18".to_string()]);
}

#[test]
fn recovery_falls_back_rotates_and_gives_up() {
    let mut r = DownloadRecovery::new(QualityPreference::SpecificHeight(1080));
    let format_err = FailureCategory::FormatUnavailable { requested: None, details: "d".to_string() };
    let (report, action) = r.on_failure(format_err.clone());
    assert_eq!(action, RetryAction::RetryNow);
    assert_eq!(r.quality, QualityPreference::SpecificHeight(720));
    assert_eq!(report.fallback_action.as_deref(), Some("Fallback to 720p resolution → retrying..."));

    let bot = FailureCategory::BotBlockOrExtractor { reason: "429".to_string() };
    let clients: Vec<String> = (0..3)
        .map(|_| {
            let (rep, act) = r.on_failure(bot.clone());
            assert_eq!(act, RetryAction::RetryNow);
            assert!(rep.fallback_action.unwrap().starts_with("Rotating TLS client fingerprint to '"));
            r.client.clone().unwrap()
        })
        .collect();
    assert_eq!(clients, vec!["safari-18", "chrome-136", "firefox-135"]);
    let (rep, act) = r.on_failure(bot);
    assert_eq!(act, RetryAction::GiveUp);
    assert_eq!(rep.fallback_action.as_deref(), Some("All anti-bot impersonation strategies exhausted."));

    let transient = FailureCategory::Transient { reason: "t".to_string() };
    for n in 1..=3u32 {
        let (rep, act) = r.on_failure(transient.clone());
        assert_eq!(act, RetryAction::RetryAfterBackoff { attempt: n });
        assert_eq!(rep.fallback_action, Some(format!("Attempt {}/3 failed. Backing off...", n)));
    }
    let (rep, act) = r.on_failure(transient);
    assert_eq!(act, RetryAction::GiveUp);
    assert_eq!(rep.fallback_action.as_deref(), Some("Max transient retries exceeded. Aborting."));

    let mut last = DownloadRecovery::new(QualityPreference::SpecificHeight(480));
    let (rep, act) = last.on_failure(format_err.clone());
    assert_eq!(act, RetryAction::RetryNow);
    assert_eq!(rep.fallback_action.as_deref(), Some("Fallback to best available stream → retrying..."));
    let (rep, act) = last.on_failure(format_err);
    assert_eq!(act, RetryAction::GiveUp);
    assert_eq!(rep.fallback_action.as_deref(), Some("No further format fallbacks available."));

    let (rep, act) = last.on_failure(FailureCategory::Permanent { reason: "p".to_string() });
    assert_eq!(act, RetryAction::GiveUp);
    assert_eq!(rep.fallback_action, None);
}

#[test]
fn metadata_fetch_retries_twice_at_most() {
    let mut m = MetadataRecovery::new("https://vm.tiktok.com/x");
    assert_eq!(m.client.as_deref(), Some("chrome"));
    let bot = FailureCategory::BotBlockOrExtractor { reason: "b".to_string() };
    assert!(matches!(m.on_failure(bot.clone()), MetadataStep::RotateClient));
    assert_eq!(m.client.as_deref(), Some("safari-18"));
    let transient = FailureCategory::Transient { reason: "t".to_string() };
    assert!(matches!(m.on_failure(transient.clone()), MetadataStep::RetryAfterPause));
    match m.on_failure(transient) {
        MetadataStep::GiveUp { report } => assert_eq!(report.fallback_action, None),
        other => panic!("unexpected {:?}", other),
    }
    let mut y = MetadataRecovery::new("https://youtu.be/x");
    assert_eq!(y.client, None);
    assert!(matches!(
        y.on_failure(FailureCategory::FormatUnavailable { requested: None, details: "d".to_string() }),
        MetadataStep::GiveUp { .. }
    ));
    assert_eq!(MetadataRecovery::with_client(Some("edge")).client.as_deref(), Some("edge"));
}

#[test]
fn engine_requests_and_descriptions() {
    assert_eq!(
        YtDlpEngine::metadata_args("https://u", Some("chrome")),
        vec!["--dump-single-json", "--no-playlist", "--impersonate", "chrome", "https://u"]
    );
    assert_eq!(YtDlpEngine::metadata_args("https://u", None), vec!["--dump-single-json", "--no-playlist", "https://u"]);
    let p = preset();
    assert_eq!(
        YtDlpEngine::format_description(&p, &QualityPreference::Best),
        "bestvideo+bestaudio/best"
    );
    assert_eq!(YtDlpEngine::output_location(&p, None), "dl");
    assert_eq!(YtDlpEngine::output_location(&p, Some("x")), "x");
    assert_eq!(YtDlpEngine::quality_tag(&QualityPreference::SpecificHeight(720)), "720p");
    assert_eq!(YtDlpEngine::quality_tag(&QualityPreference::Best), "best");
}

#[test]
fn tiktok_rotation_arguments() {
    let args = TikTokFallback::rotation_args(
        "chrome-99:windows-10",
        "https://www.tiktok.com/@a/video/1",
        &preset(),
        &QualityPreference::Best,
        None,
    );
    assert_eq!(
        args,
        vec![
            "--impersonate",
            "chrome-99:windows-10",
            "-f",
            "bestvideo+bestaudio/best",
            "--merge-output-format",
            "mp4",
            "--remux-video",
            "mp4",
            "--windows-filenames",
            "--embed-metadata",
            "--no-playlist",
            "-P",
            "dl",
            "https://www.tiktok.com/@a/video/1"
        ]
    );
}

#[test]
fn download_recovery_retries_at_most_eleven_times() {
    let mut rec = DownloadRecovery::new(QualityPreference::SpecificHeight(2160));
    let kinds = [
        FailureCategory::FormatUnavailable { requested: None, details: "gone".to_string() },
        FailureCategory::Transient { reason: "timeout".to_string() },
        FailureCategory::BotBlockOrExtractor { reason: "429".to_string() },
    ];
    let mut retries = 0;
    for kind in kinds.iter() {
        loop {
            let (_, action) = rec.on_failure(kind.clone());
            if action == RetryAction::GiveUp {
                break;
            }
            retries += 1;
        }
    }
    assert_eq!(retries, 11);
}

#[test]
fn fallbacks_are_told_apart_from_other_retries() {
    let fmt = FailureCategory::FormatUnavailable { requested: None, details: "x".to_string() };
    let bot = FailureCategory::BotBlockOrExtractor { reason: "429".to_string() };
    assert!(is_format_fallback(&fmt, RetryAction::RetryNow));
    assert!(!is_format_fallback(&fmt, RetryAction::GiveUp));
    assert!(!is_format_fallback(&bot, RetryAction::RetryNow));
    assert_eq!(transient_retry_limit(), 3);
}
