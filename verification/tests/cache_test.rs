use dlp::cache::{CachedMetadata, MetadataCache};
use dlp::metadata::VideoMetadata;

fn meta(id: &str, live: Option<bool>) -> VideoMetadata {
    VideoMetadata {
        id: id.to_string(),
        title: "Title".to_string(),
        uploader: None,
        duration: None,
        width: None,
        height: None,
        filesize: None,
        filesize_approx: None,
        formats: None,
        webpage_url: None,
        thumbnail: None,
        categories: None,
        extractor: None,
        is_live: live,
        subtitles: None,
        automatic_captions: None,
    }
}

#[test]
fn test_url_normalization_tracking_parameters() {
    let url_clean = "https://www.youtube.com/watch?v=dQw4w9WgXcQ";
    let url_si = "https://www.youtube.com/watch?v=dQw4w9WgXcQ&si=abc123xyz";
    let url_feature = "https://www.youtube.com/watch?v=dQw4w9WgXcQ&feature=share";
    let url_multi = "https://www.youtube.com/watch?feature=share&v=dQw4w9WgXcQ&si=xyz&utm_source=twitter";

    let key_clean = MetadataCache::normalize_key(url_clean);
    assert_eq!(key_clean, MetadataCache::normalize_key(url_si));
    assert_eq!(key_clean, MetadataCache::normalize_key(url_feature));
    assert_eq!(key_clean, MetadataCache::normalize_key(url_multi));

    let short_clean = "https://youtu.be/dQw4w9WgXcQ";
    let short_si = "https://youtu.be/dQw4w9WgXcQ?si=tracking123";
    let short_feature = "https://youtu.be/dQw4w9WgXcQ?feature=shared";
    assert_eq!(MetadataCache::normalize_key(short_clean), MetadataCache::normalize_key(short_si));
    assert_eq!(MetadataCache::normalize_key(short_clean), MetadataCache::normalize_key(short_feature));
}

#[test]
fn canonical_urls_drop_tracking_fragments_and_sort() {
    assert_eq!(
        MetadataCache::canonical_url(" https://x.com/p?b=2&utm_campaign=z&a=1&gclid=q#frag "),
        "https://x.com/p?a=1&b=2"
    );
    assert_eq!(MetadataCache::canonical_url("https://x.com/p?si=1&&fbclid=2"), "https://x.com/p");
    assert_eq!(MetadataCache::canonical_url("https://x.com/p#a?b"), "https://x.com/p");
    assert_eq!(MetadataCache::canonical_url("https://x.com/p?utm_x=1&k"), "https://x.com/p?k");
    assert_eq!(MetadataCache::canonical_url("https://x.com/p?b&a&b"), "https://x.com/p?a&b&b");
}

#[test]
fn keys_are_sixteen_hex_digits() {
    let key = MetadataCache::normalize_key("https://example.com/v");
    assert_eq!(key.len(), 16);
    assert!(key.chars().all(|c| c.is_ascii_hexdigit() && !c.is_ascii_uppercase()));
    assert_eq!(MetadataCache::key_from_hash(255), "00000000000000ff");
    assert_eq!(MetadataCache::key_from_hash(u64::MAX), "ffffffffffffffff");
    assert_ne!(
        MetadataCache::normalize_key("https://example.com/a"),
        MetadataCache::normalize_key("https://example.com/b")
    );
}

#[test]
fn test_cache_dir_accessors() {
    let cache = MetadataCache::with_dir("/tmp/cache/subcache".to_string(), 3600);
    assert_eq!(cache.cache_dir(), "/tmp/cache/subcache");
    let path = cache.cache_file_path("https://youtu.be/abc?si=1");
    let key = MetadataCache::normalize_key("https://youtu.be/abc");
    assert_eq!(path, format!("/tmp/cache/subcache/{}.json", key));

    let default_cache = MetadataCache::new();
    assert!(default_cache.cache_dir().ends_with("dlp/metadata"));
}

#[test]
fn test_live_stream_not_cached() {
    let cache = MetadataCache::with_dir("c".to_string(), 7200);
    assert!(cache.entry_for("https://l", meta("live", Some(true)), 100, None).is_none());
    let entry = cache.entry_for("https://v", meta("vod", Some(false)), 100, None).unwrap();
    assert_eq!(entry.url, "https://v");
    assert_eq!(entry.cached_at, 100);
    assert_eq!(entry.expires_at, 7300);
    assert!(entry.is_fresh_at(7299));
    assert!(!entry.is_fresh_at(7300));
    let custom = cache.entry_for("https://v", meta("vod", None), u64::MAX - 1, Some(10)).unwrap();
    assert_eq!(custom.expires_at, u64::MAX);
    let expired: CachedMetadata = cache.entry_for("https://v", meta("vod", None), 50, Some(0)).unwrap();
    assert!(!expired.is_fresh_at(50));
}

#[test]
fn joined_urls_with_reordered_and_tracking_params_share_a_key() {
    let b = "https://www.youtube.com/watch";
    let k = |u: &str| MetadataCache::normalize_key(u);
    assert_eq!(
        k(&format!("{b}?utm_source=x&list=L&si=zz&v=abc#t=1 ")),
        k(&format!("{b}?v=abc&list=L"))
    );
    assert_eq!(k(&format!("{b}?si=zz&feature=share")), k(b));
    let key = k(&format!("{b}?v=abc"));
    assert_eq!(key.len(), 16);
    assert!(key.chars().all(|c| c.is_ascii_digit() || ('a'..='f').contains(&c)));
}

#[test]
fn params_with_question_marks_and_inner_spaces_share_a_key() {
    let b = "https://example.com/a b&c";
    let k = |u: &str| MetadataCache::normalize_key(u);
    assert_eq!(k(&format!("{b}?q=what?&utm_medium=x&n=a b#frag  ")), k(&format!("{b}?n=a b&q=what?")));
    assert_eq!(k(&format!("{b}?gclid=1")), k(b));
}
