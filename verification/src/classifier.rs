//! Classification of a media item as music, vertical short-form video or standard video,
//! from its URL and its metadata.
//!
//! Each kind collects points (in hundredths) from the signals that speak for it; the kind
//! with strictly the most points wins, and standard video wins every tie.

use vstd::prelude::*;
use crate::metadata::VideoMetadata;
use crate::orientation::Orientation;
use crate::text::{chars_of, contains_seq, contains_str, lowercase, match_at, push_text_if, string_views, to_lowercase};
use crate::tiktok::{tiktok_lowered, TikTokFallback};

verus! {

/// The kind of a media item.
#[derive(Debug, Clone, Copy, PartialEq, Eq, Structural)]
pub enum MediaType {
    Music,
    VerticalVideo,
    StandardVideo,
}

/// The name of the preset that suits a kind of media.
pub open spec fn preset_for(t: MediaType) -> Seq<char> {
    match t {
        MediaType::Music => "music"@,
        MediaType::VerticalVideo => "tiktok"@,
        MediaType::StandardVideo => "video"@,
    }
}

impl MediaType {
    /// The name of the preset that suits the kind.
    pub fn default_preset_name(&self) -> (s: &'static str)
        ensures
            s@ == preset_for(*self),
    {
        match self {
            MediaType::Music => "music",
            MediaType::VerticalVideo => "tiktok",
            MediaType::StandardVideo => "video",
        }
    }

    /// The user-facing label of the kind.
    pub fn display_label(&self) -> (s: &'static str)
        ensures
            s@ == match *self {
                MediaType::Music => "🎵 Music / Audio"@,
                MediaType::VerticalVideo => "📱 Vertical Short-Form Video"@,
                MediaType::StandardVideo => "🎬 Standard Horizontal Video"@,
            },
    {
        match self {
            MediaType::Music => "🎵 Music / Audio",
            MediaType::VerticalVideo => "📱 Vertical Short-Form Video",
            MediaType::StandardVideo => "🎬 Standard Horizontal Video",
        }
    }
}

/// The outcome of a classification: the kind, the confidence in hundredths
/// (between 60 and 99), and the signals that led to it.
#[derive(Debug, Clone)]
pub struct Classification {
    pub media_type: MediaType,
    pub confidence: u32,
    pub reasons: Vec<String>,
}

impl Classification {
    /// The name of the preset that suits the classified kind.
    pub fn default_preset_name(&self) -> (s: &'static str)
        ensures
            s@ == preset_for(self.media_type),
    {
        self.media_type.default_preset_name()
    }

    /// The user-facing label of the classified kind.
    pub fn display_label(&self) -> (s: &'static str)
        ensures
            s@ == match self.media_type {
                MediaType::Music => "🎵 Music / Audio"@,
                MediaType::VerticalVideo => "📱 Vertical Short-Form Video"@,
                MediaType::StandardVideo => "🎬 Standard Horizontal Video"@,
            },
    {
        self.media_type.display_label()
    }
}

/// The signals read from a URL (through its lowercase mapping `u`) and from the metadata.
pub struct Signals {
    pub music_url: bool,
    pub vertical_url: bool,
    pub orientation: Orientation,
    pub audio_only: bool,
    pub music_category: bool,
    pub short_track: bool,
}

/// The URL belongs to a music platform.
pub open spec fn music_url(u: Seq<char>) -> bool {
    contains_seq(u, "music.youtube.com"@) || contains_seq(u, "soundcloud.com"@) || contains_seq(
        u,
        "spotify.com"@,
    ) || contains_seq(u, "bandcamp.com"@) || contains_seq(u, "deezer.com"@)
}

/// The URL points to short-form, vertical content.
pub open spec fn vertical_url(u: Seq<char>) -> bool {
    tiktok_lowered(u) || contains_seq(u, "/shorts/"@) || contains_seq(u, "/reel/"@) || contains_seq(
        u,
        "/reels/"@,
    ) || contains_seq(u, "instagram.com/p/"@)
}

/// A category name that mentions music, in any case.
pub open spec fn mentions_music(c: Seq<char>) -> bool {
    contains_seq(lowercase(c), "music"@)
}

/// Some category of the item mentions music.
pub open spec fn tagged_music(cats: Option<Vec<String>>) -> bool {
    match cats {
        Some(cs) => any_mentions_music(cs@),
        None => false,
    }
}

/// Some name of `names` mentions music.
pub open spec fn any_mentions_music(names: Seq<String>) -> bool {
    exists|i: int| 0 <= i < names.len() && #[trigger] mentions_music(names[i]@)
}

/// The signals of a URL and its metadata.
pub open spec fn signals_of(url: Seq<char>, meta: VideoMetadata) -> Signals {
    let u = lowercase(url);
    Signals {
        music_url: music_url(u),
        vertical_url: vertical_url(u),
        orientation: meta.orientation_spec(),
        audio_only: meta.audio_only(),
        music_category: tagged_music(meta.categories),
        short_track: match meta.duration {
            Some(d) => d.whole < 600,
            None => false,
        },
    }
}

impl Signals {
    /// The duration bonus applies: a short item that is audio-only or tagged as music.
    pub open spec fn track_bonus(self) -> bool {
        self.short_track && (self.music_category || self.audio_only)
    }

    /// Points for music, in hundredths.
    pub open spec fn music_points(self) -> int {
        (if self.music_url { 50int } else { 0 }) + (if self.audio_only { 35int } else { 0 }) + (
        if self.music_category { 20int } else { 0 }) + (if self.track_bonus() { 10int } else { 0 })
    }

    /// Points for vertical video, in hundredths.
    pub open spec fn vertical_points(self) -> int {
        (if self.vertical_url { 55int } else { 0 }) + (if self.orientation == Orientation::Vertical {
            40int
        } else {
            0
        })
    }

    /// Points for standard video, in hundredths.
    pub open spec fn standard_points(self) -> int {
        if self.orientation == Orientation::Horizontal { 30 } else { 0 }
    }

    /// The kind with strictly the most points; standard video on a tie.
    pub open spec fn winner(self) -> MediaType {
        let m = self.music_points();
        let v = self.vertical_points();
        let s = self.standard_points();
        if m > v && m > s {
            MediaType::Music
        } else if v > m && v > s {
            MediaType::VerticalVideo
        } else {
            MediaType::StandardVideo
        }
    }

    /// The points of the winning kind.
    pub open spec fn winning_points(self) -> int {
        match self.winner() {
            MediaType::Music => self.music_points(),
            MediaType::VerticalVideo => self.vertical_points(),
            MediaType::StandardVideo => self.standard_points(),
        }
    }

    /// The reasons given for music, in the order the signals are read.
    pub open spec fn music_reasons(self) -> Seq<Seq<char>> {
        (if self.music_url { seq!["music platform URL"@] } else { seq![] }) + (if self.audio_only {
            seq!["audio-only stream detected"@]
        } else {
            seq![]
        }) + (if self.music_category { seq!["category tagged as Music"@] } else { seq![] }) + (
        if self.track_bonus() {
            seq!["standard track duration (< 10 min)"@]
        } else {
            seq![]
        })
    }

    /// The reasons given for vertical video.
    pub open spec fn vertical_reasons(self) -> Seq<Seq<char>> {
        (if self.vertical_url { seq!["short-form / vertical video URL"@] } else { seq![] }) + (
        if self.orientation == Orientation::Vertical {
            seq!["vertical aspect ratio (e.g. 9:16)"@]
        } else {
            seq![]
        })
    }

    /// The reasons given for standard video.
    pub open spec fn standard_reasons(self) -> Seq<Seq<char>> {
        if self.orientation == Orientation::Horizontal {
            seq!["horizontal aspect ratio (e.g. 16:9)"@]
        } else {
            seq![]
        }
    }

    /// The reasons of the winning kind, or the fallback reason when it has none.
    pub open spec fn reasons(self) -> Seq<Seq<char>> {
        let r = match self.winner() {
            MediaType::Music => self.music_reasons(),
            MediaType::VerticalVideo => self.vertical_reasons(),
            MediaType::StandardVideo => self.standard_reasons(),
        };
        if r.len() == 0 {
            seq!["default standard video fallback"@]
        } else {
            r
        }
    }
}

/// `x` clamped to `lo..=hi`.
pub open spec fn clamp(x: int, lo: int, hi: int) -> int {
    if x < lo {
        lo
    } else if x > hi {
        hi
    } else {
        x
    }
}

/// Detects whether a media item is music, vertical video or standard video.
pub struct SmartClassifier;

fn has_music_tag(cats: &Option<Vec<String>>) -> (r: bool)
    ensures
        r == tagged_music(*cats),
{
    match cats {
        Some(cs) => {
            let mut i: usize = 0;
            while i < cs.len()
                invariant
                    *cats == Some(*cs),
                    i <= cs@.len(),
                    forall|k: int| 0 <= k < i ==> !#[trigger] mentions_music(cs@[k]@),
                decreases cs.len() - i,
            {
                let low = to_lowercase(cs[i].as_str());
                if contains_str(&chars_of(low.as_str()), "music") {
                    assert(mentions_music(cs@[i as int]@));
                    return true;
                }
                i = i + 1;
            }
            false
        },
        None => false,
    }
}

impl SmartClassifier {
    /// Reads the classification signals of a URL and its metadata.
    pub fn signals(url: &str, meta: &VideoMetadata) -> (s: Signals)
        ensures
            s == signals_of(url@, *meta),
    {
        let u = to_lowercase(url);
        let uc = chars_of(u.as_str());
        let music = contains_str(&uc, "music.youtube.com") || contains_str(&uc, "soundcloud.com")
            || contains_str(&uc, "spotify.com") || contains_str(&uc, "bandcamp.com") || contains_str(
            &uc,
            "deezer.com",
        );
        let vertical = TikTokFallback::is_tiktok_url(url) || contains_str(&uc, "/shorts/")
            || contains_str(&uc, "/reel/") || contains_str(&uc, "/reels/") || contains_str(
            &uc,
            "instagram.com/p/",
        );
        let short_track = match meta.duration {
            Some(d) => d.whole < 600,
            None => false,
        };
        Signals {
            music_url: music,
            vertical_url: vertical,
            orientation: meta.orientation(),
            audio_only: meta.is_audio_only(),
            music_category: has_music_tag(&meta.categories),
            short_track,
        }
    }

    /// Decides the kind from the signals: points per kind, the strict winner (standard
    /// video on a tie), its reasons, and the confidence clamped to 60..=99 hundredths.
    pub fn decide(s: &Signals) -> (c: Classification)
        ensures
            c.media_type == s.winner(),
            c.confidence == clamp(s.winning_points(), 60, 99),
            string_views(c.reasons@) == s.reasons(),
    {
        let bonus = s.short_track && (s.music_category || s.audio_only);
        let mut music: u32 = 0;
        if s.music_url {
            music = music + 50;
        }
        if s.audio_only {
            music = music + 35;
        }
        if s.music_category {
            music = music + 20;
        }
        if bonus {
            music = music + 10;
        }
        let mut vertical: u32 = 0;
        if s.vertical_url {
            vertical = vertical + 55;
        }
        let is_vertical = match s.orientation {
            Orientation::Vertical => true,
            _ => false,
        };
        let is_horizontal = match s.orientation {
            Orientation::Horizontal => true,
            _ => false,
        };
        if is_vertical {
            vertical = vertical + 40;
        }
        let standard: u32 = if is_horizontal { 30 } else { 0 };

        let mut reasons: Vec<String> = Vec::new();
        let media_type;
        let raw: u32;
        if music > vertical && music > standard {
            media_type = MediaType::Music;
            raw = music;
            push_text_if(&mut reasons, s.music_url, "music platform URL");
            push_text_if(&mut reasons, s.audio_only, "audio-only stream detected");
            push_text_if(&mut reasons, s.music_category, "category tagged as Music");
            push_text_if(&mut reasons, bonus, "standard track duration (< 10 min)");
        } else if vertical > music && vertical > standard {
            media_type = MediaType::VerticalVideo;
            raw = vertical;
            push_text_if(&mut reasons, s.vertical_url, "short-form / vertical video URL");
            push_text_if(&mut reasons, is_vertical, "vertical aspect ratio (e.g. 9:16)");
        } else {
            media_type = MediaType::StandardVideo;
            raw = standard;
            push_text_if(&mut reasons, is_horizontal, "horizontal aspect ratio (e.g. 16:9)");
        }
        if reasons.len() == 0 {
            reasons.push("default standard video fallback".to_owned());
            assert(string_views(reasons@) =~= seq!["default standard video fallback"@]);
        }
        let confidence = if raw < 60 {
            60
        } else if raw > 99 {
            99
        } else {
            raw
        };
        Classification { media_type, confidence, reasons }
    }

    /// Classifies a media item from its URL and metadata.
    pub fn classify(url: &str, meta: &VideoMetadata) -> (c: Classification)
        ensures
            c.media_type == signals_of(url@, *meta).winner(),
            c.confidence == clamp(signals_of(url@, *meta).winning_points(), 60, 99),
            string_views(c.reasons@) == signals_of(url@, *meta).reasons(),
    {
        let s = Self::signals(url, meta);
        Self::decide(&s)
    }
}

/// The confidence of a classification lies between 60 and 99 hundredths, and standard
/// video wins whenever no other kind has strictly the most points.
pub proof fn classification_bounds(s: Signals)
    ensures
        60 <= clamp(s.winning_points(), 60, 99) <= 99,
        !(s.music_points() > s.vertical_points() && s.music_points() > s.standard_points())
            && !(s.vertical_points() > s.music_points() && s.vertical_points() > s.standard_points())
            ==> s.winner() == MediaType::StandardVideo,
{
}

/// A URL whose lowercase form names TikTok, a Shorts or Reels path, or an Instagram post
/// gives the short-form signal; with a frame that is not horizontal and no music signal
/// (no music platform host, not audio-only, no category mentioning music), such an item
/// is classified as vertical video, for the short-form URL.
pub proof fn short_form_urls_are_vertical(url: Seq<char>, meta: VideoMetadata)
    requires
        ({
            let u = lowercase(url);
            contains_seq(u, "tiktok.com"@) || contains_seq(u, "/shorts/"@) || contains_seq(
                u,
                "/reel/"@,
            ) || contains_seq(u, "/reels/"@) || contains_seq(u, "instagram.com/p/"@)
        }),
    ensures
        signals_of(url, meta).vertical_url,
        ({
            let u = lowercase(url);
            &&& meta.orientation_spec() != Orientation::Horizontal
            &&& !contains_seq(u, "music.youtube.com"@)
            &&& !contains_seq(u, "soundcloud.com"@)
            &&& !contains_seq(u, "spotify.com"@)
            &&& !contains_seq(u, "bandcamp.com"@)
            &&& !contains_seq(u, "deezer.com"@)
            &&& !meta.audio_only()
            &&& !tagged_music(meta.categories)
        }) ==> {
            &&& signals_of(url, meta).winner() == MediaType::VerticalVideo
            &&& signals_of(url, meta).reasons()[0] == "short-form / vertical video URL"@
        },
{
}

/// A URL whose lowercase form names a music platform (YouTube Music, SoundCloud, Spotify,
/// Bandcamp, Deezer) gives the music signal; when it names no short-form path or host and
/// the frame is not vertical, such an item is classified as music, for the platform URL.
pub proof fn music_platform_urls_are_music(url: Seq<char>, meta: VideoMetadata)
    requires
        ({
            let u = lowercase(url);
            contains_seq(u, "music.youtube.com"@) || contains_seq(u, "soundcloud.com"@)
                || contains_seq(u, "spotify.com"@) || contains_seq(u, "bandcamp.com"@)
                || contains_seq(u, "deezer.com"@)
        }),
    ensures
        signals_of(url, meta).music_url,
        ({
            let u = lowercase(url);
            &&& meta.orientation_spec() != Orientation::Vertical
            &&& !contains_seq(u, "tiktok.com"@)
            &&& !contains_seq(u, "/shorts/"@)
            &&& !contains_seq(u, "/reel/"@)
            &&& !contains_seq(u, "/reels/"@)
            &&& !contains_seq(u, "instagram.com/p/"@)
        }) ==> {
            &&& signals_of(url, meta).winner() == MediaType::Music
            &&& signals_of(url, meta).reasons()[0] == "music platform URL"@
        },
{
    let u = lowercase(url);
    reveal_strlit("tiktok.com");
    reveal_strlit("vt.tiktok.com");
    reveal_strlit("vm.tiktok.com");
    if contains_seq(u, "vt.tiktok.com"@) {
        lemma_contains_tail(u, "vt.tiktok.com"@, 3);
        assert("vt.tiktok.com"@.skip(3) =~= "tiktok.com"@);
    }
    if contains_seq(u, "vm.tiktok.com"@) {
        lemma_contains_tail(u, "vm.tiktok.com"@, 3);
        assert("vm.tiktok.com"@.skip(3) =~= "tiktok.com"@);
    }
}

/// A text that contains a pattern contains every tail of it.
proof fn lemma_contains_tail(s: Seq<char>, pat: Seq<char>, k: int)
    requires
        0 <= k <= pat.len(),
        contains_seq(s, pat),
    ensures
        contains_seq(s, pat.skip(k)),
{
    let i = choose|i: int| match_at(s, pat, i);
    assert(s.subrange(i + k, i + k + pat.skip(k).len()) =~= pat.skip(k));
    assert(match_at(s, pat.skip(k), i + k));
}

} // verus!
