//! Media metadata as reported by the extractor, and the facts derived from it.

use vstd::prelude::*;
use crate::orientation::Orientation;
use crate::text::{
    append_chars, append_str, chars_eq_str, chars_of, decimal, less_than, pad_left, padded_decimal,
    seq_lt, starts_with, starts_with_seq, string_of, lemma_lt_total, lemma_lt_transitive, chars_eq,
};

verus! {

/// A duration in seconds: its whole part and whether it is above zero.
#[derive(Debug, Clone, Copy, PartialEq, Eq, Structural)]
pub struct DurationSecs {
    pub whole: u64,
    pub positive: bool,
}

/// One downloadable stream of a media item.
#[derive(Debug, Clone)]
pub struct VideoFormat {
    pub format_id: String,
    pub ext: Option<String>,
    pub width: Option<u32>,
    pub height: Option<u32>,
    pub vcodec: Option<String>,
    pub acodec: Option<String>,
    pub filesize: Option<u64>,
    pub filesize_approx: Option<u64>,
    pub format_note: Option<String>,
    pub resolution: Option<String>,
}

/// A codec name, `none` when absent.
pub open spec fn codec(o: Option<String>) -> Seq<char> {
    match o {
        Some(s) => s@,
        None => "none"@,
    }
}

fn codec_is_none(o: &Option<String>) -> (r: bool)
    ensures
        r == (codec(*o) == "none"@),
{
    match o {
        Some(s) => chars_eq_str(&chars_of(s.as_str()), "none"),
        None => true,
    }
}

impl VideoFormat {
    /// The stream has video and no audio.
    pub open spec fn video_only(self) -> bool {
        codec(self.vcodec) != "none"@ && codec(self.acodec) == "none"@
    }

    /// The stream has audio and no video.
    pub open spec fn audio_only(self) -> bool {
        codec(self.vcodec) == "none"@ && codec(self.acodec) != "none"@
    }

    /// Whether the stream has video and no audio.
    pub fn is_video_only(&self) -> (r: bool)
        ensures
            r == self.video_only(),
    {
        !codec_is_none(&self.vcodec) && codec_is_none(&self.acodec)
    }

    /// Whether the stream has audio and no video.
    pub fn is_audio_only(&self) -> (r: bool)
        ensures
            r == self.audio_only(),
    {
        codec_is_none(&self.vcodec) && !codec_is_none(&self.acodec)
    }

    /// Whether the stream has video.
    pub fn has_video(&self) -> (r: bool)
        ensures
            r == (codec(self.vcodec) != "none"@),
    {
        !codec_is_none(&self.vcodec)
    }
}

/// Metadata of a media item.
#[derive(Debug, Clone)]
pub struct VideoMetadata {
    pub id: String,
    pub title: String,
    pub uploader: Option<String>,
    pub duration: Option<DurationSecs>,
    pub width: Option<u32>,
    pub height: Option<u32>,
    pub filesize: Option<u64>,
    pub filesize_approx: Option<u64>,
    pub formats: Option<Vec<VideoFormat>>,
    pub webpage_url: Option<String>,
    pub thumbnail: Option<String>,
    pub categories: Option<Vec<String>>,
    pub extractor: Option<String>,
    pub is_live: Option<bool>,
    /// Languages of the uploaded subtitles, when the extractor reports subtitles.
    pub subtitles: Option<Vec<String>>,
    /// Languages of the automatic captions, when the extractor reports them.
    pub automatic_captions: Option<Vec<String>>,
}

/// `HH:MM:SS`, or `MM:SS` under an hour, of a whole number of seconds.
pub open spec fn clock_text(t: nat) -> Seq<char> {
    let h = t / 3600;
    let m = (t % 3600) / 60;
    let s = t % 60;
    if h > 0 {
        pad_left(decimal(h), 2, '0') + ":"@ + pad_left(decimal(m), 2, '0') + ":"@ + pad_left(decimal(s), 2, '0')
    } else {
        pad_left(decimal(m), 2, '0') + ":"@ + pad_left(decimal(s), 2, '0')
    }
}

/// The positive heights that the formats offer.
pub open spec fn offered_height(formats: Option<Vec<VideoFormat>>, h: u32) -> bool {
    match formats {
        Some(fs) => h > 0 && exists|i: int| 0 <= i < fs@.len() && fs@[i].height == Some(h),
        None => false,
    }
}

/// The languages reported in `subs` or `auto`, other than live chat.
pub open spec fn offered_language(subs: Option<Vec<String>>, auto: Option<Vec<String>>, l: Seq<char>) -> bool {
    !starts_with_seq(l, "live_chat"@) && (match subs {
        Some(v) => holds_text(v@, l),
        None => false,
    } || match auto {
        Some(v) => holds_text(v@, l),
        None => false,
    })
}

/// Inserts `h` into a strictly decreasing list unless already present.
fn insert_desc(v: &mut Vec<u32>, h: u32)
    requires
        forall|a: int, b: int| 0 <= a < b < old(v)@.len() ==> old(v)@[a] > old(v)@[b],
    ensures
        forall|a: int, b: int| 0 <= a < b < final(v)@.len() ==> final(v)@[a] > final(v)@[b],
        forall|x: u32| final(v)@.contains(x) <==> (old(v)@.contains(x) || x == h),
{
    let mut pos: usize = 0;
    while pos < v.len() && v[pos] > h
        invariant
            pos <= v@.len(),
            forall|a: int| 0 <= a < pos ==> v@[a] > h,
        decreases v.len() - pos,
    {
        pos = pos + 1;
    }
    if pos < v.len() && v[pos] == h {
        return;
    }
    let ghost old_v = v@;
    v.insert(pos, h);
    proof {
        assert(v@ == old_v.insert(pos as int, h));
        assert forall|a: int, b: int| 0 <= a < b < v@.len() implies v@[a] > v@[b] by {
            if b < pos {
            } else if b == pos {
            } else if a < pos {
                assert(v@[b] == old_v[b - 1]);
            } else if a == pos {
                assert(v@[b] == old_v[b - 1]);
                if b - 1 > pos {
                    assert(old_v[pos as int] > old_v[b - 1]);
                }
            } else {
                assert(v@[a] == old_v[a - 1] && v@[b] == old_v[b - 1]);
            }
        }
        assert forall|x: u32| v@.contains(x) <==> (old_v.contains(x) || x == h) by {
            if v@.contains(x) {
                let k = choose|k: int| 0 <= k < v@.len() && v@[k] == x;
                if k < pos {
                    assert(old_v[k] == x);
                } else if k > pos {
                    assert(old_v[k - 1] == x);
                }
            }
            if old_v.contains(x) {
                let k = choose|k: int| 0 <= k < old_v.len() && old_v[k] == x;
                if k < pos {
                    assert(v@[k] == x);
                } else {
                    assert(v@[k + 1] == x);
                }
            }
            if x == h {
                assert(v@[pos as int] == h);
            }
        }
    }
}

/// Some string of `v` reads `x`.
pub open spec fn holds_text(v: Seq<String>, x: Seq<char>) -> bool {
    exists|k: int| 0 <= k < v.len() && #[trigger] v[k]@ == x
}

/// Inserts `s` into a strictly increasing list of strings unless already present.
fn insert_sorted_unique(v: &mut Vec<String>, s: String)
    requires
        forall|a: int, b: int| 0 <= a < b < old(v)@.len() ==> seq_lt(old(v)@[a]@, old(v)@[b]@),
    ensures
        forall|a: int, b: int| 0 <= a < b < final(v)@.len() ==> seq_lt(final(v)@[a]@, final(v)@[b]@),
        forall|x: Seq<char>| #[trigger] holds_text(final(v)@, x) <==> (holds_text(old(v)@, x) || x == s@),
{
    let sc = chars_of(s.as_str());
    let mut pos: usize = 0;
    while pos < v.len() && less_than(&chars_of(v[pos].as_str()), &sc)
        invariant
            pos <= v@.len(),
            sc@ == s@,
            forall|a: int| 0 <= a < pos ==> seq_lt(v@[a]@, s@),
        decreases v.len() - pos,
    {
        pos = pos + 1;
    }
    if pos < v.len() && chars_eq(&chars_of(v[pos].as_str()), &sc) {
        return;
    }
    let ghost old_v = v@;
    let ghost sv = s@;
    proof {
        if pos < old_v.len() {
            lemma_lt_total(sv, old_v[pos as int]@);
            assert forall|b: int| pos <= b < old_v.len() implies seq_lt(sv, old_v[b]@) by {
                if b > pos {
                    lemma_lt_transitive(sv, old_v[pos as int]@, old_v[b]@);
                }
            }
        }
    }
    v.insert(pos, s);
    proof {
        assert(v@ == old_v.insert(pos as int, v@[pos as int]));
        assert forall|a: int, b: int| 0 <= a < b < v@.len() implies seq_lt(v@[a]@, v@[b]@) by {
            if b < pos {
            } else if b == pos {
            } else if a < pos {
                assert(v@[b] == old_v[b - 1]);
                lemma_lt_transitive(v@[a]@, sv, v@[b]@);
            } else if a == pos {
                assert(v@[b] == old_v[b - 1]);
            } else {
                assert(v@[a] == old_v[a - 1] && v@[b] == old_v[b - 1]);
            }
        }
        assert forall|x: Seq<char>| #[trigger] holds_text(v@, x) <==> (holds_text(old_v, x) || x == sv) by {
            if exists|k: int| 0 <= k < v@.len() && v@[k]@ == x {
                let k = choose|k: int| 0 <= k < v@.len() && v@[k]@ == x;
                if k < pos {
                    assert(old_v[k]@ == x);
                } else if k > pos {
                    assert(old_v[k - 1]@ == x);
                }
            }
            if exists|k: int| 0 <= k < old_v.len() && old_v[k]@ == x {
                let k = choose|k: int| 0 <= k < old_v.len() && old_v[k]@ == x;
                if k < pos {
                    assert(v@[k]@ == x);
                } else {
                    assert(v@[k + 1]@ == x);
                }
            }
            if x == sv {
                assert(v@[pos as int]@ == sv);
            }
        }
    }
}

/// The size a stream states: its exact size, else its approximate one.
pub open spec fn stated_size(f: VideoFormat) -> Option<u64> {
    match f.filesize {
        Some(s) => Some(s),
        None => f.filesize_approx,
    }
}

/// The bitrate-based size estimates of stream `i` (audio, video), none past the end.
pub open spec fn estimates_at(est: Seq<(Option<u64>, Option<u64>)>, i: int) -> (Option<u64>, Option<u64>) {
    if 0 <= i < est.len() {
        est[i]
    } else {
        (None, None)
    }
}

/// The size of an audio stream: stated, else estimated, else zero.
pub open spec fn audio_size(f: VideoFormat, e: Option<u64>) -> u64 {
    match stated_size(f) {
        Some(s) => s,
        None => match e {
            Some(x) => x,
            None => 0,
        },
    }
}

/// The size of a video stream: stated, else estimated.
pub open spec fn video_size(f: VideoFormat, e: Option<u64>) -> Option<u64> {
    match stated_size(f) {
        Some(s) => Some(s),
        None => e,
    }
}

/// The largest size among the first `n` audio-only streams, zero when there is none.
pub open spec fn best_audio_size(fs: Seq<VideoFormat>, est: Seq<(Option<u64>, Option<u64>)>, n: int) -> u64
    decreases n,
{
    if n <= 0 {
        0
    } else {
        let rest = best_audio_size(fs, est, n - 1);
        let f = fs[n - 1];
        if f.audio_only() && audio_size(f, estimates_at(est, n - 1).0) > rest {
            audio_size(f, estimates_at(est, n - 1).0)
        } else {
            rest
        }
    }
}

/// The largest positive size among the first `n` streams of height `h`.
pub open spec fn best_video_size(fs: Seq<VideoFormat>, est: Seq<(Option<u64>, Option<u64>)>, h: u32, n: int) -> Option<u64>
    decreases n,
{
    if n <= 0 {
        None
    } else {
        let rest = best_video_size(fs, est, h, n - 1);
        let f = fs[n - 1];
        if f.height == Some(h) {
            match video_size(f, estimates_at(est, n - 1).1) {
                Some(s) => if s > 0 && (match rest {
                    Some(c) => s > c,
                    None => true,
                }) {
                    Some(s)
                } else {
                    rest
                },
                None => rest,
            }
        } else {
            rest
        }
    }
}

/// `a + b`, or the largest `u64` when the sum does not fit.
pub open spec fn saturating_sum(a: u64, b: u64) -> u64 {
    if a + b > u64::MAX {
        u64::MAX
    } else {
        (a + b) as u64
    }
}

/// The estimated download size at height `h`: the largest stream of that height plus the
/// largest audio-only stream, else the size stated for the whole item.
pub open spec fn estimated_size(m: VideoMetadata, h: u32, est: Seq<(Option<u64>, Option<u64>)>) -> Option<u64> {
    let whole = match m.filesize {
        Some(s) => Some(s),
        None => m.filesize_approx,
    };
    match m.formats {
        Some(fs) => match best_video_size(fs@, est, h, fs@.len() as int) {
            Some(v) => Some(saturating_sum(v, best_audio_size(fs@, est, fs@.len() as int))),
            None => whole,
        },
        None => whole,
    }
}

impl VideoMetadata {
    /// Every format is audio-only (and there is at least one).
    pub open spec fn audio_only(self) -> bool {
        match self.formats {
            Some(fs) => fs@.len() > 0 && forall|i: int| 0 <= i < fs@.len() ==> fs@[i].audio_only(),
            None => false,
        }
    }

    /// The orientation of the frame; horizontal when the dimensions are unknown or zero.
    pub open spec fn orientation_spec(self) -> Orientation {
        match (self.width, self.height) {
            (Some(w), Some(h)) => if w > 0 && h > 0 {
                Orientation::of_dimensions(w, h)
            } else {
                Orientation::Horizontal
            },
            _ => Orientation::Horizontal,
        }
    }

    /// The duration as clock text, `Unknown` when absent or not positive.
    pub open spec fn duration_text(self) -> Seq<char> {
        match self.duration {
            Some(d) => if d.positive { clock_text(d.whole as nat) } else { "Unknown"@ },
            None => "Unknown"@,
        }
    }

    /// Whether every stream is audio-only.
    pub fn is_audio_only(&self) -> (r: bool)
        ensures
            r == self.audio_only(),
    {
        match &self.formats {
            Some(formats) => {
                if formats.len() == 0 {
                    return false;
                }
                let mut i: usize = 0;
                while i < formats.len()
                    invariant
                        self.formats == Some(*formats),
                        i <= formats@.len(),
                        forall|k: int| 0 <= k < i ==> formats@[k].audio_only(),
                    decreases formats.len() - i,
                {
                    if !formats[i].is_audio_only() {
                        return false;
                    }
                    i = i + 1;
                }
                true
            },
            None => false,
        }
    }

    /// The orientation of the frame.
    pub fn orientation(&self) -> (o: Orientation)
        ensures
            o == self.orientation_spec(),
    {
        match (self.width, self.height) {
            (Some(w), Some(h)) => if w > 0 && h > 0 {
                Orientation::from_dimensions(w, h)
            } else {
                Orientation::Horizontal
            },
            _ => Orientation::Horizontal,
        }
    }

    /// The distinct positive heights the formats offer, highest first.
    pub fn available_resolutions(&self) -> (r: Vec<u32>)
        ensures
            forall|a: int, b: int| 0 <= a < b < r@.len() ==> r@[a] > r@[b],
            forall|h: u32| r@.contains(h) <==> offered_height(self.formats, h),
    {
        let mut res: Vec<u32> = Vec::new();
        match &self.formats {
            Some(formats) => {
                let mut i: usize = 0;
                while i < formats.len()
                    invariant
                        self.formats == Some(*formats),
                        i <= formats@.len(),
                        forall|a: int, b: int| 0 <= a < b < res@.len() ==> res@[a] > res@[b],
                        forall|h: u32| res@.contains(h) <==> (h > 0 && exists|k: int| 0 <= k < i && formats@[k].height == Some(h)),
                    decreases formats.len() - i,
                {
                    match formats[i].height {
                        Some(h) => {
                            if h > 0 {
                                insert_desc(&mut res, h);
                            }
                        },
                        None => {},
                    }
                    proof {
                        assert forall|x: u32| res@.contains(x) <==> (x > 0 && exists|k: int| 0 <= k < i + 1 && formats@[k].height == Some(x)) by {
                            if x > 0 && exists|k: int| 0 <= k < i + 1 && formats@[k].height == Some(x) {
                                let k = choose|k: int| 0 <= k < i + 1 && formats@[k].height == Some(x);
                                if k < i {
                                    assert(exists|k2: int| 0 <= k2 < i && formats@[k2].height == Some(x));
                                }
                            }
                        }
                    }
                    i = i + 1;
                }
            },
            None => {},
        }
        res
    }

    /// The estimated download size at height `height`. Stream `i` may come with size
    /// estimates from its bitrate and the duration, `rate_estimates[i]`: one as an audio
    /// stream and one as a video stream; they count only where the stream states no size.
    pub fn estimated_size_for_resolution(&self, height: u32, rate_estimates: &[(Option<u64>, Option<u64>)]) -> (r:
        Option<u64>)
        ensures
            r == estimated_size(*self, height, rate_estimates@),
    {
        let whole = match self.filesize {
            Some(s) => Some(s),
            None => self.filesize_approx,
        };
        let fs = match &self.formats {
            Some(fs) => fs,
            None => return whole,
        };
        let ghost est = rate_estimates@;
        let mut best_audio: u64 = 0;
        let mut best_video: Option<u64> = None;
        let mut i: usize = 0;
        while i < fs.len()
            invariant
                i <= fs@.len(),
                est == rate_estimates@,
                best_audio == best_audio_size(fs@, est, i as int),
                best_video == best_video_size(fs@, est, height, i as int),
            decreases fs.len() - i,
        {
            let f = &fs[i];
            let (audio_est, video_est) = if i < rate_estimates.len() {
                rate_estimates[i]
            } else {
                (None, None)
            };
            let stated = match f.filesize {
                Some(s) => Some(s),
                None => f.filesize_approx,
            };
            if f.is_audio_only() {
                let sz = match stated {
                    Some(s) => s,
                    None => match audio_est {
                        Some(x) => x,
                        None => 0,
                    },
                };
                if sz > best_audio {
                    best_audio = sz;
                }
            }
            if f.height == Some(height) {
                let vs = match stated {
                    Some(s) => Some(s),
                    None => video_est,
                };
                if let Some(sz) = vs {
                    let better = match best_video {
                        Some(c) => sz > c,
                        None => true,
                    };
                    if sz > 0 && better {
                        best_video = Some(sz);
                    }
                }
            }
            i = i + 1;
        }
        match best_video {
            Some(v) => Some(v.saturating_add(best_audio)),
            None => whole,
        }
    }

    /// The duration as `HH:MM:SS` (or `MM:SS`), `Unknown` when absent or not positive.
    pub fn format_duration(&self) -> (r: String)
        ensures
            r@ == self.duration_text(),
    {
        match self.duration {
            Some(d) => {
                if d.positive {
                    let t = d.whole;
                    let hours = t / 3600;
                    let minutes = (t % 3600) / 60;
                    let seconds = t % 60;
                    let mut out: Vec<char> = Vec::new();
                    if hours > 0 {
                        append_chars(&mut out, &padded_decimal(hours, 2));
                        append_str(&mut out, ":");
                    }
                    append_chars(&mut out, &padded_decimal(minutes, 2));
                    append_str(&mut out, ":");
                    append_chars(&mut out, &padded_decimal(seconds, 2));
                    string_of(&out)
                } else {
                    "Unknown".to_owned()
                }
            },
            None => "Unknown".to_owned(),
        }
    }

    /// The subtitle and caption languages, live chat excluded, sorted and without repeats.
    pub fn available_subtitle_languages(&self) -> (r: Vec<String>)
        ensures
            forall|a: int, b: int| 0 <= a < b < r@.len() ==> seq_lt(r@[a]@, r@[b]@),
            forall|l: Seq<char>| #[trigger] holds_text(r@, l) <==> offered_language(
                self.subtitles,
                self.automatic_captions,
                l,
            ),
    {
        let mut langs: Vec<String> = Vec::new();
        let empty: Vec<String> = Vec::new();
        let subs: &Vec<String> = match &self.subtitles {
            Some(v) => v,
            None => &empty,
        };
        let auto: &Vec<String> = match &self.automatic_captions {
            Some(v) => v,
            None => &empty,
        };
        let mut i: usize = 0;
        while i < subs.len()
            invariant
                i <= subs@.len(),
                forall|a: int, b: int| 0 <= a < b < langs@.len() ==> seq_lt(langs@[a]@, langs@[b]@),
                forall|l: Seq<char>| #[trigger] holds_text(langs@, l) <==> (
                    !starts_with_seq(l, "live_chat"@) && holds_text(subs@.take(i as int), l)),
            decreases subs.len() - i,
        {
            if !starts_with(&chars_of(subs[i].as_str()), "live_chat") {
                insert_sorted_unique(&mut langs, subs[i].clone());
            }
            proof {
                let prev = subs@.take(i as int);
                let next = subs@.take(i + 1);
                assert forall|l: Seq<char>| holds_text(next, l) <==> (holds_text(prev, l) || l == subs@[i as int]@) by {
                    if holds_text(next, l) {
                        let k = choose|k: int| 0 <= k < next.len() && #[trigger] next[k]@ == l;
                        if k < i {
                            assert(prev[k]@ == l);
                        }
                    }
                    if holds_text(prev, l) {
                        let k = choose|k: int| 0 <= k < prev.len() && #[trigger] prev[k]@ == l;
                        assert(next[k]@ == l);
                    }
                    if l == subs@[i as int]@ {
                        assert(next[i as int]@ == l);
                    }
                }
            }
            i = i + 1;
        }
        let ghost subs_all = subs@;
        proof {
            assert(subs@.take(subs@.len() as int) == subs@);
        }
        let mut j: usize = 0;
        while j < auto.len()
            invariant
                j <= auto@.len(),
                subs_all == subs@,
                forall|a: int, b: int| 0 <= a < b < langs@.len() ==> seq_lt(langs@[a]@, langs@[b]@),
                forall|l: Seq<char>| #[trigger] holds_text(langs@, l) <==> (
                    !starts_with_seq(l, "live_chat"@) && (holds_text(subs_all, l) || holds_text(auto@.take(j as int), l))),
            decreases auto.len() - j,
        {
            if !starts_with(&chars_of(auto[j].as_str()), "live_chat") {
                insert_sorted_unique(&mut langs, auto[j].clone());
            }
            proof {
                let prev = auto@.take(j as int);
                let next = auto@.take(j + 1);
                assert forall|l: Seq<char>| holds_text(next, l) <==> (holds_text(prev, l) || l == auto@[j as int]@) by {
                    if holds_text(next, l) {
                        let k = choose|k: int| 0 <= k < next.len() && #[trigger] next[k]@ == l;
                        if k < j {
                            assert(prev[k]@ == l);
                        }
                    }
                    if holds_text(prev, l) {
                        let k = choose|k: int| 0 <= k < prev.len() && #[trigger] prev[k]@ == l;
                        assert(next[k]@ == l);
                    }
                    if l == auto@[j as int]@ {
                        assert(next[j as int]@ == l);
                    }
                }
            }
            j = j + 1;
        }
        proof {
            assert(auto@.take(auto@.len() as int) == auto@);
            assert(self.subtitles is None ==> subs@.len() == 0);
            assert(self.automatic_captions is None ==> auto@.len() == 0);
        }
        langs
    }
}

} // verus!
