use dlp::orientation::Orientation;
use dlp::preset::Preset;
use dlp::quality::QualityPreference;

fn preset(name: &str, max_h: Option<u32>, max_v: Option<u32>) -> Preset {
    Preset {
        name: name.to_string(),
        description: None,
        container: "mp4".to_string(),
        quality: "best".to_string(),
        max_horizontal: max_h,
        max_vertical: max_v,
        embed_metadata: true,
        embed_thumbnail: true,
        crop_thumbnail_square: false,
        extract_audio: false,
        audio_format: None,
        audio_quality: None,
        write_lyrics: false,
        embed_lyrics: false,
        lyrics_format: None,
        sub_langs: None,
        clean_metadata: false,
        parse_music_tags: false,
        output_template: None,
        output_dir: None,
    }
}

#[test]
fn test_quality_and_orientation_matrix() {
    let heights = [2160, 1440, 1080, 720, 480, 360];

    for h in heights {
        let q = QualityPreference::SpecificHeight(h);
        let selector = q.to_format_selector();
        assert!(selector.contains(&format!("height<={}", h)));
        assert!(selector.contains("bestvideo"));
        assert!(selector.contains("bestaudio"));
    }

    let best = QualityPreference::Best;
    assert_eq!(best.to_format_selector(), "bestvideo+bestaudio/best");
}

#[test]
fn test_preset_policy_enforcement_matrix() {
    let preset = preset("matrix_test", Some(1080), Some(720));

    let horiz_4k = preset
        .effective_quality_preference(Some("4k"), Orientation::Horizontal)
        .unwrap();
    assert_eq!(horiz_4k, QualityPreference::SpecificHeight(1080));

    let horiz_720 = preset
        .effective_quality_preference(Some("720"), Orientation::Horizontal)
        .unwrap();
    assert_eq!(horiz_720, QualityPreference::SpecificHeight(720));

    let vert_1080 = preset
        .effective_quality_preference(Some("1080"), Orientation::Vertical)
        .unwrap();
    assert_eq!(vert_1080, QualityPreference::SpecificHeight(720));

    let sq_default = preset
        .effective_quality_preference(None, Orientation::Square)
        .unwrap();
    assert_eq!(sq_default, QualityPreference::Best);
}

#[test]
fn invalid_override_quality_is_reported() {
    let preset = preset("matrix_test", Some(1080), Some(720));
    let err = preset
        .effective_quality_preference(Some("ultra"), Orientation::Horizontal)
        .unwrap_err();
    assert_eq!(err, dlp::error::DlpError::InvalidQuality("ultra".to_string()));
}
