use dlp::scheduler::{PlatformCategory, PlatformSlots, ScheduledPlan};

#[test]
fn test_platform_detection() {
    assert_eq!(
        ScheduledPlan::detect_platform("https://www.youtube.com/watch?v=dQw4w9WgXcQ"),
        PlatformCategory::YouTube
    );
    assert_eq!(ScheduledPlan::detect_platform("https://youtu.be/dQw4w9WgXcQ"), PlatformCategory::YouTube);
    assert_eq!(
        ScheduledPlan::detect_platform("https://music.youtube.com/watch?v=abcdef"),
        PlatformCategory::YouTubeMusic
    );
    assert_eq!(
        ScheduledPlan::detect_platform("https://www.tiktok.com/@creator/video/1234567890"),
        PlatformCategory::TikTok
    );
    assert_eq!(ScheduledPlan::detect_platform("https://example.com/stream.mp4"), PlatformCategory::Generic);
}

#[test]
fn test_scheduled_plan_grouping() {
    let urls = vec![
        "https://www.youtube.com/watch?v=vid1".to_string(),
        "https://music.youtube.com/watch?v=music1".to_string(),
        "https://www.tiktok.com/@creator/video/111".to_string(),
        "https://www.youtube.com/watch?v=vid2".to_string(),
        "https://www.tiktok.com/@creator/video/222".to_string(),
    ];

    let plan = ScheduledPlan::from_urls(&urls);
    assert_eq!(plan.tasks.len(), 5);

    let yt_tasks = plan.group(PlatformCategory::YouTube).unwrap();
    assert_eq!(yt_tasks.len(), 2);

    let music_tasks = plan.group(PlatformCategory::YouTubeMusic).unwrap();
    assert_eq!(music_tasks.len(), 1);

    let tiktok_tasks = plan.group(PlatformCategory::TikTok).unwrap();
    assert_eq!(tiktok_tasks.len(), 2);
}

#[test]
fn test_platform_concurrency_capping() {
    assert_eq!(PlatformCategory::TikTok.max_safe_concurrency(5), 2);
    assert_eq!(PlatformCategory::TikTok.max_safe_concurrency(1), 1);

    assert_eq!(PlatformCategory::YouTube.max_safe_concurrency(5), 5);
    assert_eq!(PlatformCategory::Generic.max_safe_concurrency(8), 8);
}

#[test]
fn groups_keep_task_order_and_ids() {
    let urls = vec![
        "https://www.tiktok.com/@a/video/1".to_string(),
        "https://example.com/a.mp4".to_string(),
        "https://www.tiktok.com/@a/video/2".to_string(),
    ];
    let plan = ScheduledPlan::from_urls(&urls);
    let tiktok = plan.group(PlatformCategory::TikTok).unwrap();
    assert_eq!(tiktok[0].id, 1);
    assert_eq!(tiktok[1].id, 3);
    assert_eq!(tiktok[1].url, urls[2]);
    assert!(plan.group(PlatformCategory::YouTube).is_none());
    assert_eq!(PlatformCategory::TikTok.max_safe_concurrency(0), 1);
    assert_eq!(PlatformCategory::YouTube.display_name(), "YouTube Video");
    let lines = plan.summary_lines(2);
    assert_eq!(lines[3], format!("║  Total Scheduled Items : {:<24}║", 3));
    assert_eq!(lines[4], format!("║  Target Concurrency    : {:<24}║", 2));
    assert_eq!(lines[6], format!("║  {:<48}║", "• TikTok / Shorts: 2 item(s)"));
    assert_eq!(lines[7], format!("║  {:<48}║", "• Generic / Direct Media: 1 item(s)"));
    assert_eq!(lines.len(), 9);
}

#[test]
fn platform_slots_hold_tiktok_at_two() {
    let plan = ScheduledPlan::from_urls(&[
        "https://www.tiktok.com/@a/video/1".to_string(),
        "https://www.tiktok.com/@a/video/2".to_string(),
        "https://www.tiktok.com/@a/video/3".to_string(),
        "https://www.youtube.com/watch?v=x".to_string(),
    ]);
    let mut slots = PlatformSlots::new();
    let mut waiting = plan.tasks.clone();
    let mut started = Vec::new();
    while let Some(i) = slots.first_runnable(&waiting, 4) {
        let t = waiting.remove(i);
        slots.take(t.platform);
        started.push(t.id);
    }
    assert_eq!(started, vec![1, 2, 4]);
    assert_eq!(slots.running(PlatformCategory::TikTok), 2);
    assert!(!slots.has_room(PlatformCategory::TikTok, 4));
    slots.release(PlatformCategory::TikTok);
    assert_eq!(slots.first_runnable(&waiting, 4), Some(0));
    slots.release(PlatformCategory::Generic);
    assert_eq!(slots.running(PlatformCategory::Generic), 0);
}
