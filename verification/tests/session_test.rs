use dlp::session::chosen_preset_name;
use dlp::doctor::{Doctor, ProbeResults};
use dlp::event::{default_log_level, JsonLinesEventListener, TracingEventListener};
use dlp::metadata::{DurationSecs, VideoMetadata};
use dlp::preset::Preset;
use dlp::quality::QualityPreference;
use dlp::session::{
    apply_lyrics_override, batch_preset, has_url, info_lines, preset_listing_line, resolutions_display,
    target_quality_display,
};
use dlp::wizard::{MenuChoice, QualityRequest, SubtitleStep, Wizard};

fn preset(name: &str, audio: bool) -> Preset {
    Preset {
        name: name.to_string(),
        description: if audio { None } else { Some("General video".to_string()) },
        container: "mp4".to_string(),
        quality: "best".to_string(),
        max_horizontal: None,
        max_vertical: None,
        embed_metadata: true,
        embed_thumbnail: true,
        crop_thumbnail_square: false,
        extract_audio: audio,
        audio_format: None,
        audio_quality: None,
        write_lyrics: false,
        embed_lyrics: false,
        lyrics_format: None,
        sub_langs: None,
        clean_metadata: false,
        parse_music_tags: false,
        output_template: None,
        output_dir: None,
    }
}

fn meta() -> VideoMetadata {
    VideoMetadata {
        id: "i".to_string(),
        title: "Title".to_string(),
        uploader: Some("Up".to_string()),
        duration: Some(DurationSecs { whole: 215, positive: true }),
        width: Some(1920),
        height: Some(1080),
        filesize: None,
        filesize_approx: None,
        formats: None,
        webpage_url: None,
        thumbnail: None,
        categories: None,
        extractor: None,
        is_live: None,
        subtitles: None,
        automatic_captions: None,
    }
}

#[test]
fn command_line_decisions() {
    assert!(has_url(Some(" https://x ")));
    assert!(!has_url(Some("   ")));
    assert!(!has_url(None));
    assert_eq!(batch_preset("AuTo"), None);
    assert_eq!(batch_preset("music"), Some("music".to_string()));
    assert_eq!(default_log_level(true, true), "error");
    assert_eq!(default_log_level(true, false), "debug");
    assert_eq!(default_log_level(false, false), "info");
    let _json = JsonLinesEventListener::new();
    let _tracing = TracingEventListener::new();
}

#[test]
fn listing_and_quality_lines() {
    assert_eq!(preset_listing_line(&preset("video", false)), "• video      [Video (mp4)] - General video");
    assert_eq!(preset_listing_line(&preset("music", true)), "• music      [Audio (opus)] - No description");
    assert_eq!(resolutions_display(&[]), "Auto");
    assert_eq!(resolutions_display(&[1080, 720]), "1080p, 720p");
    assert_eq!(target_quality_display(&QualityPreference::Best, &[1080]), "Best available");
    assert_eq!(
        target_quality_display(&QualityPreference::SpecificHeight(900), &[1080, 720]),
        "720p (Capped at 900p)"
    );
    assert_eq!(target_quality_display(&QualityPreference::SpecificHeight(900), &[]), "900p");
    let lines = info_lines(&meta(), &preset("video", false), &[1080]);
    assert_eq!(
        lines,
        vec![
            "━━━━━━━━━━━━━━━━━━━━━━━━━━━━━━━━━━━━━━━━━━━━━━━━━━━━",
            "🎬 Title       : Title",
            "👤 Uploader    : Up",
            "⏱️  Duration    : 03:35",
            "📐 Orientation : Horizontal (Landscape - 16:9 / 4:3)",
            "📺 Available   : 1080p",
            "⚙️  Active Preset: video (Video)",
            "━━━━━━━━━━━━━━━━━━━━━━━━━━━━━━━━━━━━━━━━━━━━━━━━━━━━"
        ]
    );
    let mut p = preset("video", false);
    apply_lyrics_override(&mut p, Some(true));
    assert!(p.write_lyrics);
    apply_lyrics_override(&mut p, None);
    assert!(p.write_lyrics);
}

#[test]
fn wizard_menus_and_answers() {
    assert_eq!(Wizard::menu_options().len(), 7);
    assert_eq!(Wizard::menu_choice("🎵 Music (Extract Opus / Audio)"), (MenuChoice::Download, "music"));
    assert_eq!(Wizard::menu_choice("🚪 Exit").0, MenuChoice::Exit);
    assert_eq!(Wizard::menu_choice("anything"), (MenuChoice::Download, "video"));
    assert!(Wizard::is_back(" B "));
    assert!(Wizard::is_back("Back"));
    assert!(!Wizard::is_back("bac"));
    let choices = Wizard::quality_choices(" (~1.2 GB)", &[(1080, " (~900 MB)".to_string()), (1080, " (~900 MB)".to_string()), (640, String::new())]);
    assert_eq!(
        choices,
        vec![
            "🌟 Best Available (~1.2 GB)",
            "📺 1080p (Full HD) (~900 MB)",
            "📺 640p",
            "⬅️  Back to URL / Main Menu"
        ]
    );
    assert_eq!(Wizard::quality_request("⬅️  Back to URL / Main Menu"), QualityRequest::Back);
    assert_eq!(Wizard::quality_request("🌟 Best Available"), QualityRequest::Best);
    assert_eq!(Wizard::quality_request("📺 1080p (Full HD) (~900 MB)"), QualityRequest::Height(1080));
    assert_eq!(Wizard::quality_request("🌟 Best Available (~1.2 GB)"), QualityRequest::Height(1));
    assert_eq!(Wizard::quality_request("no digits"), QualityRequest::Best);
    assert_eq!(Wizard::batch_menu_choice("🎵 Music (Opus Audio)"), Some("music"));
    assert_eq!(Wizard::batch_menu_choice("⬅️  Back to Menu"), None);
}

#[test]
fn wizard_subtitle_choices() {
    let langs = vec!["en".to_string(), "ja".to_string()];
    assert_eq!(
        Wizard::subtitle_choices(&langs),
        vec![
            "🚫 No Subtitles (None)",
            "🇬🇧 English (.srt)",
            "🇯🇵 Japanese (.srt)",
            "🌐 All Available Languages (.srt)",
            "📝 Select Specific Language(s)...",
            "⬅️  Back to Quality"
        ]
    );
    let mut p = preset("video", false);
    assert_eq!(Wizard::apply_subtitle_choice(&mut p, "🇬🇧 English (.srt)"), SubtitleStep::Done);
    assert!(p.write_lyrics);
    assert_eq!(p.sub_langs, Some(vec!["en".to_string()]));
    assert_eq!(Wizard::apply_subtitle_choice(&mut p, "🚫 No Subtitles (None)"), SubtitleStep::Done);
    assert!(!p.write_lyrics);
    assert_eq!(p.sub_langs, None);
    assert_eq!(Wizard::apply_subtitle_choice(&mut p, "⬅️  Back to Quality"), SubtitleStep::Back);
    assert_eq!(
        Wizard::apply_subtitle_choice(&mut p, "📝 Select Specific Language(s)..."),
        SubtitleStep::PickLanguages
    );
    Wizard::apply_picked_languages(&mut p, vec!["ko".to_string()]);
    assert_eq!(p.sub_langs, Some(vec!["ko".to_string()]));
    Wizard::apply_picked_languages(&mut p, vec![]);
    assert!(!p.write_lyrics);
    let info = Wizard::info_lines(&meta(), &preset("music", true), &[]);
    assert_eq!(info[5], "📺 Available   : Auto");
    assert_eq!(info[6], "⚙️  Active Mode : music [Audio]");
}

#[test]
fn doctor_report_lines() {
    let probes = ProbeResults {
        ytdlp_output: Some("2024.08.06\n".to_string()),
        ffmpeg_output: Some("ffmpeg version 6.1\nbuilt with gcc".to_string()),
        ffprobe_ok: false,
        preset_count: 3,
        user_preset_dir: Some(("/home/u/.config/dlp/presets".to_string(), false)),
        download_dir: None,
        lrclib: Ok(()),
        tikwm: Err("timeout".to_string()),
    };
    let lines = Doctor::report_lines(&probes);
    assert_eq!(lines[6], "• Checking 'yt-dlp' binary... ✅ OK (version: 2024.08.06)");
    assert_eq!(lines[7], "• Checking 'ffmpeg' binary... ✅ OK (ffmpeg version 6.1)");
    assert_eq!(lines[8], "• Checking 'ffprobe' binary... ⚠️  WARNING (ffprobe not found, optional but recommended)");
    assert_eq!(lines[9], "• Active Presets Loaded: ✅ 3 preset(s)");
    assert_eq!(
        lines[10],
        "• User Custom Presets Directory (/home/u/.config/dlp/presets): ℹ️  None (Using built-in defaults)"
    );
    assert_eq!(lines[11], "• Testing LRCLIB API connectivity... ✅ Online & Reachable");
    assert_eq!(lines[12], "• Testing TikWM API connectivity... ⚠️  Unreachable (timeout)");
    assert_eq!(lines[14], "🎉 All critical core dependencies and services are healthy and ready!\n");
    let missing = ProbeResults {
        ytdlp_output: None,
        ffmpeg_output: Some(String::new()),
        ffprobe_ok: true,
        preset_count: 0,
        user_preset_dir: None,
        download_dir: Some(("dl".to_string(), true)),
        lrclib: Ok(()),
        tikwm: Ok(()),
    };
    let l2 = Doctor::report_lines(&missing);
    assert_eq!(l2[7], "• Checking 'ffmpeg' binary... ✅ OK (Installed)");
    assert_eq!(l2[10], "• Configured Download Directory (dl): ✅ Exists");
    assert_eq!(l2.last().unwrap(), "⚠️  Some dependencies are missing. Please review the errors above.\n");
}

#[test]
fn preset_is_the_named_one_else_the_classified_one() {
    assert_eq!(chosen_preset_name(Some("tiktok"), "https://example.com/v", &meta()), "tiktok");
    assert_eq!(chosen_preset_name(None, "https://example.com/v", &meta()), "video");
    assert_eq!(chosen_preset_name(None, "https://music.youtube.com/watch?v=x", &meta()), "music");
}

#[test]
fn batch_menu_entries_are_the_ones_it_reads() {
    let entries = Wizard::batch_menu_options();
    assert_eq!(entries.len(), 4);
    assert_eq!(Wizard::batch_menu_choice(&entries[0]), Some("video"));
    assert_eq!(Wizard::batch_menu_choice(&entries[1]), Some("music"));
    assert_eq!(Wizard::batch_menu_choice(&entries[2]), Some("tiktok"));
    assert_eq!(Wizard::batch_menu_choice(&entries[3]), None);
}
