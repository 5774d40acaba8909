use dlp::quality::QualityPreference;
use dlp::recovery::{backoff_delay_secs, truncate_str, DiagnosticReport, FailureCategory};

#[test]
fn test_classify_transient_network_errors() {
    let timeout_err = "ERROR: [download] Got error: <urlopen error timed out>";
    let cat = FailureCategory::classify(timeout_err);
    assert!(matches!(cat, FailureCategory::Transient { .. }));
    assert!(cat.is_retryable());

    let conn_reset = "ERROR: [youtube] 12345: Unable to download API page: Connection reset by peer (caused by ConnectionResetError(104, 'Connection reset by peer'))";
    let cat2 = FailureCategory::classify(conn_reset);
    assert!(matches!(cat2, FailureCategory::Transient { .. }));

    let http_503 = "ERROR: [download] HTTP Error 503: Service Temporarily Unavailable";
    let cat3 = FailureCategory::classify(http_503);
    assert!(matches!(cat3, FailureCategory::Transient { .. }));
}

#[test]
fn test_classify_format_unavailable() {
    let format_err = "ERROR: [youtube] abc123: Requested format is not available. Use --list-formats for a list of available formats";
    let cat = FailureCategory::classify(format_err);
    assert!(matches!(cat, FailureCategory::FormatUnavailable { .. }));
    assert!(cat.is_retryable());

    let format_num_err = "ERROR: requested format 399 is not available";
    let cat2 = FailureCategory::classify(format_num_err);
    match cat2 {
        FailureCategory::FormatUnavailable { requested, .. } => {
            assert_eq!(requested, Some("399".to_string()));
        }
        _ => panic!("Expected FormatUnavailable variant"),
    }
}

#[test]
fn test_classify_bot_and_rate_limit() {
    let bot_err = "ERROR: [youtube] Sign in to confirm you're not a bot. This helps protect our community.";
    let cat = FailureCategory::classify(bot_err);
    assert!(matches!(cat, FailureCategory::BotBlockOrExtractor { .. }));
    assert!(cat.is_retryable());

    let http_429 = "ERROR: [youtube] HTTP Error 429: Too Many Requests";
    let cat2 = FailureCategory::classify(http_429);
    assert!(matches!(cat2, FailureCategory::BotBlockOrExtractor { .. }));
}

#[test]
fn test_classify_permanent_errors() {
    let private_err = "ERROR: [youtube] abc123: Private video. Sign in if you've been granted access to this video";
    let cat = FailureCategory::classify(private_err);
    assert!(matches!(cat, FailureCategory::Permanent { .. }));
    assert!(!cat.is_retryable());

    let deleted_err = "ERROR: [youtube] abc123: This video has been removed by the uploader";
    let cat2 = FailureCategory::classify(deleted_err);
    assert!(matches!(cat2, FailureCategory::Permanent { .. }));
    assert!(!cat2.is_retryable());

    let copyright_err = "ERROR: [youtube] abc123: Video unavailable. This video contains content from SME, who has blocked it on copyright grounds.";
    let cat3 = FailureCategory::classify(copyright_err);
    assert!(matches!(cat3, FailureCategory::Permanent { .. }));
    assert!(!cat3.is_retryable());
}

#[test]
fn test_classify_ffmpeg_processing() {
    let ffmpeg_err = "ERROR: Postprocessing: Error opening output files: Conversion failed!";
    let cat = FailureCategory::classify(ffmpeg_err);
    assert!(matches!(cat, FailureCategory::FFmpegProcessing { .. }));
}

#[test]
fn test_quality_fallback_stepping() {
    let q_4k = QualityPreference::SpecificHeight(2160);
    assert_eq!(q_4k.fallback_step(), Some(QualityPreference::SpecificHeight(1440)));

    let q_2k = QualityPreference::SpecificHeight(1440);
    assert_eq!(q_2k.fallback_step(), Some(QualityPreference::SpecificHeight(1080)));

    let q_1080 = QualityPreference::SpecificHeight(1080);
    assert_eq!(q_1080.fallback_step(), Some(QualityPreference::SpecificHeight(720)));

    let q_720 = QualityPreference::SpecificHeight(720);
    assert_eq!(q_720.fallback_step(), Some(QualityPreference::SpecificHeight(480)));

    let q_480 = QualityPreference::SpecificHeight(480);
    assert_eq!(q_480.fallback_step(), Some(QualityPreference::Best));

    let q_best = QualityPreference::Best;
    assert_eq!(q_best.fallback_step(), None);
}

#[test]
fn test_diagnostic_report_display() {
    let report = DiagnosticReport::new(
        FailureCategory::FormatUnavailable {
            requested: Some("399".to_string()),
            details: "Format not available".to_string(),
        },
        Some("Fallback: 1080p selected".to_string()),
    );

    let display_str = report.to_string();
    assert!(display_str.contains("Format Unavailable (399)"));
}

#[test]
fn unknown_errors_keep_their_text_and_are_not_retried() {
    let cat = FailureCategory::classify("something odd happened");
    assert_eq!(cat, FailureCategory::Unknown("something odd happened".to_string()));
    assert!(!cat.is_retryable());
    assert_eq!(
        FailureCategory::extract_primary_error("WARNING: x\nERROR: boom\nmore"),
        Some("boom".to_string())
    );
    assert_eq!(FailureCategory::extract_format_code("requested format 22 is not available"), Some("22".to_string()));
}

#[test]
fn backoff_doubles_from_the_base() {
    assert_eq!(backoff_delay_secs(1, 2), Some(2));
    assert_eq!(backoff_delay_secs(2, 2), Some(4));
    assert_eq!(backoff_delay_secs(3, 2), Some(8));
    assert_eq!(backoff_delay_secs(0, 5), Some(5));
    assert_eq!(backoff_delay_secs(70, 2), None);
}

#[test]
fn report_box_lines() {
    let report = DiagnosticReport::new(
        FailureCategory::Permanent { reason: "Private video\nsecond".to_string() },
        None,
    );
    let lines = report.block_lines();
    assert_eq!(lines.len(), 7);
    assert_eq!(lines[3], "║ Type    : Permanent Error (Unrecoverable)        ║");
    assert_eq!(lines[4], format!("║ Reason  : {:<39}║", "Private video second"));
    assert_eq!(lines[5], "║ Action  : Skipping item without retry            ║");
    assert_eq!(truncate_str("abcdefghij", 6), "abc...");
}

#[test]
fn any_http_5xx_is_transient() {
    for code in ["500", "520", "599", "508"] {
        let stderr = format!("ERROR: [youtube] HTTP Error {}: Origin Error", code);
        let c = FailureCategory::classify(&stderr);
        assert!(matches!(c, FailureCategory::Transient { .. }), "{}", code);
        assert!(c.is_retryable());
    }
    assert!(!matches!(FailureCategory::classify("ERROR: HTTP Error 5: odd"), FailureCategory::Transient { .. }));
}
