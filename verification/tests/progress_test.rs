use dlp::progress::{BarUpdate, ProgressTracker};

#[test]
fn test_progress_tracker_aria2_parsing() {
    let mut tracker = ProgressTracker::new();

    tracker.parse_line("[#59bb07 19MiB/84MiB(23%) CN:16 DL:5.0MiB ETA:12s]");
    tracker.parse_line("[#59bb07 45MiB/84MiB(53%) CN:16 DL:4.5MiB ETA:8s]");
    tracker.parse_line("[#59bb07 84MiB/84MiB(100%) CN:11 DL:4.5MiB]");
}

#[test]
fn test_progress_tracker_ytdlp_parsing() {
    let mut tracker = ProgressTracker::new();

    tracker.parse_line("__DLP__:25.0%|12.5MiB/s|00:06|100MiB");
    tracker.parse_line("__DLP__:75.0%|12.5MiB/s|00:02|100MiB");
    tracker.parse_line("__DLP__:100.0%|12.5MiB/s|00:00|100MiB");
}

#[test]
fn test_progress_tracker_ignores_subtitles_and_thumbnails() {
    let mut tracker = ProgressTracker::new();

    tracker.parse_line("[download] Destination: /path/to/video.id.srt");
    let progress = tracker.parse_line("[download] 100% of 2.5KiB in 00:00:00 at 450KiB/s");
    tracker.parse_line("[info] Downloading video thumbnail 41 ...");
    assert_eq!(progress.bar, BarUpdate::Keep);
    assert!(!progress.refresh);
    assert_eq!(tracker.current_speed, "-");
    assert_eq!(tracker.current_eta, "-");
    assert_eq!(tracker.current_size, "-");
    assert_eq!(tracker.last_file_path, None);
}

#[test]
fn aria2_line_sets_position_speed_eta_and_size() {
    let mut t = ProgressTracker::new();
    let e = t.parse_line("[#59bb07 19MiB/84MiB(23%) CN:16 DL:5.0MiB ETA:12s]");
    assert_eq!(e.bar, BarUpdate::SetPosition(23));
    assert!(e.refresh);
    assert_eq!(t.current_speed, "5.0MiB/s");
    assert_eq!(t.current_eta, "12s");
    assert_eq!(t.current_size, "84MiB");
    let last = t.parse_line("[#59bb07 84MiB/84MiB(100%) CN:11 DL:4.5MiB]");
    assert_eq!(last.bar, BarUpdate::SetPosition(100));
    assert_eq!(t.current_eta, "12s");
    assert_eq!(t.current_speed, "4.5MiB/s");
}

#[test]
fn template_line_hands_the_percentage_text_on() {
    let mut t = ProgressTracker::new();
    let e = t.parse_line("  __DLP__: 87.5%|12.4MiB/s|NA|1.42GiB ");
    assert_eq!(e.bar, BarUpdate::SetPercentText("87.5".to_string()));
    assert_eq!(t.current_speed, "12.4MiB/s");
    assert_eq!(t.current_eta, "-");
    assert_eq!(t.current_size, "1.42GiB");
    let short = t.parse_line("__DLP__:1%|2");
    assert_eq!(short.bar, BarUpdate::Keep);
    assert!(!short.refresh);
}

#[test]
fn download_line_and_destination_and_cached_file() {
    let mut t = ProgressTracker::new();
    t.parse_line("[download] Destination: /media/video.mp4");
    assert_eq!(t.last_file_path.as_deref(), Some("/media/video.mp4"));
    let e = t.parse_line("[download]  87.0% of  1.42GiB at 12.40MiB/s ETA 00:08");
    assert_eq!(e.bar, BarUpdate::SetPercentText("87.0".to_string()));
    assert_eq!(t.current_speed, "12.40MiB/s");
    assert_eq!(t.current_eta, "00:08");
    assert_eq!(t.current_size, "1.42GiB");
    let cached = t.parse_line("[download] /media/old.mp4 has already been downloaded");
    assert_eq!(cached.bar, BarUpdate::SetPosition(100));
    assert_eq!(t.last_file_path.as_deref(), Some("/media/old.mp4"));
    assert_eq!(t.current_speed, "Cached");
    assert_eq!(t.current_eta, "Done");
    let merge = t.parse_line("[Merger] Merging formats into \"/media/final.mkv\"");
    assert_eq!(merge.bar, BarUpdate::Keep);
    assert_eq!(t.last_file_path.as_deref(), Some("/media/final.mkv"));
    assert_eq!(t.current_speed, "Processing (FFmpeg)");
    assert_eq!(t.current_eta, "Finishing");
}

#[test]
fn subtitle_destination_is_not_the_media_file() {
    let mut t = ProgressTracker::new();
    let e = t.parse_line("[download] Destination: /path/to/video.id.srt");
    assert_eq!(e.bar, BarUpdate::Keep);
    assert_eq!(t.last_file_path, None);
    let blank = t.parse_line("   ");
    assert!(!blank.refresh);
}

#[test]
fn stats_message_and_checklist() {
    let mut t = ProgressTracker::new();
    assert_eq!(
        t.stats_message(),
        format!("Speed     -{0}\nETA       -{0}\nSize      -{0}", " ".repeat(13))
    );
    t.parse_line("[download] Destination: out/clip.mp4");
    let lines = t.checklist_lines(true, false, true, None);
    assert_eq!(
        lines,
        vec![
            "",
            "✓ Download complete",
            "✓ Metadata embedded",
            "✓ Standalone subtitle/lyrics saved",
            "",
            "Saved to:",
            "out/clip.mp4",
            ""
        ]
    );
    let fresh = ProgressTracker::new();
    assert_eq!(fresh.checklist_lines(false, false, false, None)[3], "Saved to:");
    assert_eq!(fresh.checklist_lines(false, false, false, None)[4], "./");
    assert_eq!(fresh.checklist_lines(false, false, false, Some("given/path.mp4"))[4], "given/path.mp4");
}

#[test]
fn progress_of_a_subtitle_download_is_not_shown() {
    let mut t = ProgressTracker::new();
    t.parse_line("[download] Destination: /path/to/video.id.srt");
    let e = t.parse_line("[download] 100% of 2.5KiB in 00:00:00 at 450KiB/s");
    assert_eq!(e.bar, BarUpdate::Keep);
    assert!(!e.refresh);
    assert_eq!(t.current_speed, "-");
    assert_eq!(t.current_size, "-");
    assert_eq!(t.last_file_path, None);
    t.parse_line("[download] Destination: /path/to/video.mp4");
    let e = t.parse_line("[download]  42.0% of 10.00MiB at 1.00MiB/s ETA 00:06");
    assert_eq!(e.bar, BarUpdate::SetPercentText("42.0".to_string()));
    assert_eq!(t.current_size, "10.00MiB");
    assert_eq!(t.last_file_path.as_deref(), Some("/path/to/video.mp4"));
}
