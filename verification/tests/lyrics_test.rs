use dlp::lyrics::{LrcResponse, LyricsFetcher};

#[test]
fn test_clean_title_for_lyrics_search() {
    assert_eq!(
        LyricsFetcher::clean_title("ICONIC HEART [Official Music Video]"),
        "ICONIC HEART"
    );
    assert_eq!(
        LyricsFetcher::clean_title("Never Gonna Give You Up (Official Video)"),
        "Never Gonna Give You Up"
    );
    assert_eq!(LyricsFetcher::clean_title("Song Title (MV)"), "Song Title");
    assert_eq!(LyricsFetcher::clean_title("01 - Accendio (Official MV)"), "Accendio");
    assert_eq!(LyricsFetcher::clean_title("02. HEYA [Remastered]"), "HEYA");
}

#[test]
fn test_clean_artist_for_lyrics_search() {
    assert_eq!(LyricsFetcher::clean_artist("Hearts2Hearts - Topic"), "Hearts2Hearts");
    assert_eq!(LyricsFetcher::clean_artist("Singer A, Singer B"), "Singer A");
}

fn reply(synced: Option<&str>, plain: Option<&str>) -> LrcResponse {
    LrcResponse {
        id: None,
        track_name: None,
        artist_name: None,
        plain_lyrics: plain.map(|s| s.to_string()),
        synced_lyrics: synced.map(|s| s.to_string()),
        instrumental: None,
    }
}

#[test]
fn lyrics_urls_are_percent_encoded() {
    let url = LyricsFetcher::lyrics_get_url("Love Dive", Some("IVE"), Some(178));
    assert_eq!(
        url,
        "https://lrclib.net/api/get?track_name=Love%20Dive&artist_name=IVE&duration=178"
    );
    let bare = LyricsFetcher::lyrics_get_url("A&B", None, None);
    assert_eq!(bare, "https://lrclib.net/api/get?track_name=A%26B");
    let search = LyricsFetcher::lyrics_search_url("Ditto", Some("NewJeans"));
    assert_eq!(search, "https://lrclib.net/api/search?q=NewJeans%20Ditto");
    let search_no_artist = LyricsFetcher::lyrics_search_url("Ditto", Some(""));
    assert_eq!(search_no_artist, "https://lrclib.net/api/search?q=Ditto");
}

#[test]
fn synced_lyrics_are_preferred_over_plain() {
    let r = reply(Some("[00:01.00] la"), Some("la"));
    assert_eq!(LyricsFetcher::reply_lyrics(&r), Some("[00:01.00] la".to_string()));
    let blank_synced = reply(Some("   "), Some("plain words"));
    assert_eq!(LyricsFetcher::reply_lyrics(&blank_synced), Some("plain words".to_string()));
    let nothing = reply(Some(" "), None);
    assert_eq!(LyricsFetcher::reply_lyrics(&nothing), None);
    let replies = vec![reply(None, Some("  ")), reply(None, Some("second")), reply(Some("third"), None)];
    assert_eq!(LyricsFetcher::first_lyrics(&replies), Some("second".to_string()));
    assert_eq!(LyricsFetcher::first_lyrics(&[]), None);
}

#[test]
fn lyrics_tags_are_cut_at_byte_offsets_of_the_lowercase_text() {
    assert_eq!(LyricsFetcher::clean_title("ẞẞẞ x (MV)"), "ẞẞẞMV)");
    assert_eq!(LyricsFetcher::clean_title("Song (MV)"), "Song");
}
