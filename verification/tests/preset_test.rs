use dlp::classifier::MediaType;
use dlp::orientation::Orientation;
use dlp::preset::{Preset, PresetManager};
use dlp::quality::QualityPreference;

#[test]
fn test_preset_manager_loads_defaults() {
    let manager = PresetManager::with_defaults();

    let video_preset = manager.get("video").expect("video preset should exist");
    assert_eq!(video_preset.name, "video");
    assert_eq!(video_preset.container, "mp4");
    assert_eq!(video_preset.max_horizontal, Some(2160));
    assert_eq!(video_preset.max_vertical, Some(1440));
    assert!(!video_preset.extract_audio);

    let music_preset = manager.get("music").expect("music preset should exist");
    assert_eq!(music_preset.name, "music");
    assert_eq!(music_preset.container, "opus");
    assert!(music_preset.extract_audio);
    assert_eq!(music_preset.audio_format.as_deref(), Some("opus"));
    assert!(music_preset.crop_thumbnail_square);
    assert!(music_preset.write_lyrics);
    assert!(!music_preset.embed_lyrics);
    assert_eq!(music_preset.lyrics_format.as_deref(), Some("lrc"));
    assert!(music_preset.clean_metadata);
    assert!(music_preset.parse_music_tags);

    let tiktok_preset = manager.get("tiktok").expect("tiktok preset should exist");
    assert_eq!(tiktok_preset.name, "tiktok");
    assert_eq!(tiktok_preset.container, "mp4");
    assert_eq!(tiktok_preset.max_vertical, Some(1440));
    assert!(!tiktok_preset.extract_audio);
    assert_eq!(
        tiktok_preset.output_template.as_deref(),
        Some("%(uploader,creator)s/%(upload_date>%Y-%m-%d)s_%(id)s_%(title).60s.%(ext)s")
    );
}

fn custom(name: &str, max_h: Option<u32>, max_v: Option<u32>) -> Preset {
    Preset {
        name: name.to_string(),
        description: None,
        container: "mp4".to_string(),
        quality: "best".to_string(),
        max_horizontal: max_h,
        max_vertical: max_v,
        embed_metadata: true,
        embed_thumbnail: true,
        crop_thumbnail_square: false,
        extract_audio: false,
        audio_format: None,
        audio_quality: None,
        write_lyrics: false,
        embed_lyrics: false,
        lyrics_format: None,
        sub_langs: None,
        clean_metadata: false,
        parse_music_tags: false,
        output_template: None,
        output_dir: None,
    }
}

#[test]
fn test_preset_orientation_policy_enforcement() {
    let preset = custom("custom", Some(1440), Some(1080));

    let eff_horiz = preset.effective_quality_preference(None, Orientation::Horizontal).unwrap();
    assert_eq!(eff_horiz, QualityPreference::SpecificHeight(1440));

    let eff_vert = preset.effective_quality_preference(None, Orientation::Vertical).unwrap();
    assert_eq!(eff_vert, QualityPreference::SpecificHeight(1080));

    let eff_vert_720 = preset.effective_quality_preference(Some("720"), Orientation::Vertical).unwrap();
    assert_eq!(eff_vert_720, QualityPreference::SpecificHeight(720));

    let eff_vert_4k = preset.effective_quality_preference(Some("4k"), Orientation::Vertical).unwrap();
    assert_eq!(eff_vert_4k, QualityPreference::SpecificHeight(1080));
}

#[test]
fn insert_replaces_a_preset_of_the_same_name_and_list_is_sorted() {
    let mut manager = PresetManager::new();
    manager.insert(custom("zeta", None, None));
    manager.insert(custom("alpha", Some(720), None));
    manager.insert(custom("zeta", Some(480), None));
    assert_eq!(manager.get("zeta").unwrap().max_horizontal, Some(480));
    assert_eq!(manager.get("alpha").unwrap().max_horizontal, Some(720));
    assert!(manager.get("missing").is_none());
    let names: Vec<&str> = manager.list().iter().map(|p| p.name.as_str()).collect();
    assert_eq!(names, vec!["alpha", "zeta"]);
    let defaults = PresetManager::with_defaults();
    let default_names: Vec<&str> = defaults.list().iter().map(|p| p.name.as_str()).collect();
    assert_eq!(default_names, vec!["music", "tiktok", "video"]);
}

#[test]
fn classified_presets_survive_custom_presets() {
    let mut manager = PresetManager::with_defaults();
    let mut custom = Preset::builtin_music();
    custom.name = "music".to_string();
    custom.description = Some("My music".to_string());
    manager.insert(custom);
    let mut extra = Preset::builtin_video();
    extra.name = "archive".to_string();
    manager.insert(extra);
    for t in [MediaType::Music, MediaType::VerticalVideo, MediaType::StandardVideo] {
        assert!(manager.get(t.default_preset_name()).is_some());
    }
    assert_eq!(manager.get("music").unwrap().description.as_deref(), Some("My music"));
    assert_eq!(manager.list().len(), 4);
}
