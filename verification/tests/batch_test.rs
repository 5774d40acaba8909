use dlp::batch::{
    batch_mode, determine_checkpoint_path, parse_url_lines, resolve_inputs_to_urls, resolved_checkpoint_path,
    timestamp_label, BatchCheckpoint, BatchMode, BatchReport, BatchRun, CheckpointEntry, ItemStatus,
};

#[test]
fn test_batch_report_calculation() {
    let report = BatchReport {
        total: 3,
        succeeded: 2,
        skipped: 0,
        failed: vec![("https://example.com/bad".to_string(), "404 Not Found".to_string())],
    };

    assert_eq!(report.total, 3);
    assert_eq!(report.succeeded, 2);
    assert_eq!(report.failed.len(), 1);
}

#[test]
fn test_read_urls_from_file_with_comments_and_whitespace() {
    let content = "# This is a comment\nhttps://youtube.com/watch?v=11111111111\n   \n// Another comment\n  https://youtube.com/watch?v=22222222222  \n\nhttps://music.youtube.com/watch?v=33333333333\n";
    let urls = parse_url_lines(content);
    assert_eq!(urls.len(), 3);
    assert_eq!(urls[0], "https://youtube.com/watch?v=11111111111");
    assert_eq!(urls[1], "https://youtube.com/watch?v=22222222222");
    assert_eq!(urls[2], "https://music.youtube.com/watch?v=33333333333");
}

#[test]
fn url_lines_accept_crlf() {
    assert_eq!(parse_url_lines("a\r\nb"), vec!["a", "b"]);
}

#[test]
fn test_resolve_inputs_combines_files_and_direct_urls() {
    let inputs = vec![
        (
            "list.txt".to_string(),
            Some("https://youtube.com/watch?v=file_url_1\nhttps://youtube.com/watch?v=file_url_2\n".to_string()),
        ),
        ("  https://youtube.com/watch?v=direct_url_3 ".to_string(), None),
        ("   ".to_string(), None),
    ];
    let resolved = resolve_inputs_to_urls(&inputs);
    assert_eq!(resolved.len(), 3);
    assert_eq!(resolved[0], "https://youtube.com/watch?v=file_url_1");
    assert_eq!(resolved[1], "https://youtube.com/watch?v=file_url_2");
    assert_eq!(resolved[2], "https://youtube.com/watch?v=direct_url_3");
}

#[test]
fn checkpoint_path_choices() {
    let inputs = vec![("https://a".to_string(), false), ("urls.txt".to_string(), true)];
    assert_eq!(determine_checkpoint_path(&inputs, Some("out")), "urls.txt.dlp_checkpoint.json");
    let direct = vec![("https://a".to_string(), false)];
    assert_eq!(determine_checkpoint_path(&direct, Some("out")), "out/.dlp_checkpoint.json");
    assert_eq!(determine_checkpoint_path(&direct, Some("out/")), "out/.dlp_checkpoint.json");
    assert_eq!(determine_checkpoint_path(&direct, None), ".dlp_checkpoint.json");
    assert_eq!(resolved_checkpoint_path(None), ".dlp_checkpoint.json");
    assert_eq!(resolved_checkpoint_path(Some("x.json")), "x.json");
}

#[test]
fn checkpoint_reads_back_what_was_marked() {
    let mut cp = BatchCheckpoint::new();
    assert!(!cp.is_completed("u1"));
    cp.mark_completed_at("u1", "Song", "unix:10");
    cp.mark_failed_at("u2", "boom", "unix:11");
    assert!(cp.is_completed("u1"));
    assert!(!cp.is_completed("u2"));
    assert_eq!(
        cp.get_status("u1"),
        Some(&ItemStatus::Completed { title: "Song".to_string(), timestamp: "unix:10".to_string() })
    );
    cp.mark_failed_at("u1", "later", "unix:12");
    assert!(!cp.is_completed("u1"));
    assert_eq!(cp.entries().len(), 2);
    cp.mark_completed("u3", "Live");
    match cp.get_status("u3") {
        Some(ItemStatus::Completed { title, timestamp }) => {
            assert_eq!(title, "Live");
            assert!(timestamp.starts_with("unix:") || timestamp == "unknown");
        }
        other => panic!("unexpected status {:?}", other),
    }
    cp.mark_failed("u4", "err");
    assert!(matches!(cp.get_status("u4"), Some(ItemStatus::Failed { .. })));
    assert_eq!(cp.get_status("nope"), None);
}

#[test]
fn checkpoint_from_entries_keeps_the_last_entry_per_url() {
    let entries = vec![
        CheckpointEntry { url: "a".to_string(), status: ItemStatus::Pending },
        CheckpointEntry {
            url: "a".to_string(),
            status: ItemStatus::Completed { title: "T".to_string(), timestamp: "unix:1".to_string() },
        },
        CheckpointEntry { url: "b".to_string(), status: ItemStatus::Pending },
    ];
    let cp = BatchCheckpoint::from_entries(entries);
    assert!(cp.is_completed("a"));
    assert_eq!(cp.get_status("b"), Some(&ItemStatus::Pending));
    assert_eq!(cp.entries().len(), 2);
}

#[test]
fn timestamps_and_modes() {
    assert_eq!(timestamp_label(Some(1700000000)), "unix:1700000000");
    assert_eq!(timestamp_label(None), "unknown");
    assert_eq!(batch_mode(0, 4), BatchMode::Empty);
    assert_eq!(batch_mode(3, 0), BatchMode::Sequential);
    assert_eq!(batch_mode(3, 1), BatchMode::Sequential);
    assert_eq!(batch_mode(3, 8), BatchMode::Parallel { workers: 3 });
    assert_eq!(batch_mode(10, 4), BatchMode::Parallel { workers: 4 });
}

#[test]
fn batch_run_counts_every_url_once() {
    let mut loaded = BatchCheckpoint::new();
    loaded.mark_completed_at("done", "Old", "unix:1");
    let mut run = BatchRun::start(3, true, loaded);
    assert!(run.should_skip("done"));
    assert!(!run.should_skip("new"));
    run.record_skip();
    run.record_success("new", "Fresh");
    run.record_failure("bad", "404 Not Found");
    assert_eq!(run.report.succeeded + run.report.skipped + run.report.failed.len(), 3);
    assert_eq!(run.report.failed, vec![("bad".to_string(), "404 Not Found".to_string())]);
    assert!(run.checkpoint.is_completed("new"));
    assert!(!run.checkpoint.is_completed("bad"));
    let fresh = BatchRun::start(2, false, run.checkpoint.clone());
    assert!(!fresh.should_skip("new"));
}

#[test]
fn summary_lists_failures() {
    let report = BatchReport {
        total: 3,
        succeeded: 1,
        skipped: 1,
        failed: vec![("https://x".to_string(), "boom".to_string())],
    };
    let lines = report.summary_lines();
    assert_eq!(lines[3], format!("║  Total URLs Processed : {:<24} ║", 3));
    assert_eq!(lines[5], format!("║  ⏭️  Skipped (Resumed)  : {:<24} ║", 1));
    assert_eq!(lines[8], "\n⚠️  Failed URLs:");
    assert_eq!(lines[9], "1. URL: https://x");
    assert_eq!(lines[10], "   Reason: boom\n");
    let clean = BatchReport { total: 1, succeeded: 1, skipped: 0, failed: vec![] };
    let ok_lines = clean.summary_lines();
    assert_eq!(ok_lines.last().unwrap(), "🎉 All items in the batch processed successfully!\n");
    assert_eq!(ok_lines.len(), 8);
    let d = BatchReport::default();
    assert_eq!((d.total, d.succeeded, d.skipped, d.failed.len()), (0, 0, 0, 0));
}

#[test]
fn checkpoint_survives_a_round_trip_and_resume_skips_downloads() {
    let mut first = BatchRun::start(2, false, BatchCheckpoint::new());
    first.record_success("ok", "Title");
    first.record_failure("bad", "403");
    let back = BatchCheckpoint::from_entries(first.checkpoint.entries().clone());
    assert_eq!(back.get_status("ok"), first.checkpoint.get_status("ok"));
    assert_eq!(back.get_status("bad"), first.checkpoint.get_status("bad"));
    let resumed = BatchRun::start(2, true, back);
    assert!(resumed.should_skip("ok"));
    assert!(!resumed.should_skip("bad"));
}
