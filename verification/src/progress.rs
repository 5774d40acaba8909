//! Reading the progress lines that yt-dlp and aria2 print, and the statistics shown to
//! the user while a download runs.

use vstd::prelude::*;
use crate::text::{
    append_str, chars_eq_str, chars_of, contains_seq, contains_str, ends_with, ends_with_seq, find,
    find_seq, first_word, first_word_of, last_index, pad_right, pad_right_chars, parse_u64,
    parse_u64_spec, push_text_if, remove_all, remove_all_chars, rfind_char, split, split_once,
    split_once_seq, split_seq, starts_with, starts_with_seq, string_of, string_views, strip_prefix,
    sub_chars, trim, trim_end_in, trim_end_set, trim_start_in, trim_start_set, trim_ws, views,
    append_chars,
};

verus! {

/// How a progress line moves the progress bar.
#[derive(Debug, Clone, PartialEq, Eq)]
pub enum BarUpdate {
    /// The bar stays where it is.
    Keep,
    /// The bar moves to this percentage.
    SetPosition(u64),
    /// The bar moves to this decimal percentage, rounded and capped at 100, when the text
    /// is a number.
    SetPercentText(String),
}

/// The mathematical value of a [`BarUpdate`].
pub ghost enum BarView {
    Keep,
    Position(nat),
    Percent(Seq<char>),
}

impl View for BarUpdate {
    type V = BarView;

    open spec fn view(&self) -> BarView {
        match self {
            BarUpdate::Keep => BarView::Keep,
            BarUpdate::SetPosition(n) => BarView::Position(*n as nat),
            BarUpdate::SetPercentText(s) => BarView::Percent(s@),
        }
    }
}

/// What a progress line changes: the bar, and whether the statistics are shown anew.
#[derive(Debug, Clone, PartialEq, Eq)]
pub struct LineEffect {
    pub bar: BarUpdate,
    pub refresh: bool,
}

/// The statistics of a running download: speed, remaining time, total size, and the path
/// of the media file last named.
#[derive(Debug, Clone)]
pub struct ProgressTracker {
    pub current_speed: String,
    pub current_eta: String,
    pub current_size: String,
    pub last_file_path: Option<String>,
    /// The file being downloaded is a subtitle or an image, whose progress is not shown.
    pub in_side_download: bool,
}

/// The mathematical value of a [`ProgressTracker`].
pub ghost struct TrackerView {
    pub speed: Seq<char>,
    pub eta: Seq<char>,
    pub size: Seq<char>,
    pub last: Option<Seq<char>>,
    pub side: bool,
}

impl View for ProgressTracker {
    type V = TrackerView;

    open spec fn view(&self) -> TrackerView {
        TrackerView {
            speed: self.current_speed@,
            eta: self.current_eta@,
            size: self.current_size@,
            last: match self.last_file_path {
                Some(p) => Some(p@),
                None => None,
            },
            side: self.in_side_download,
        }
    }
}

/// A line of ffmpeg post-processing.
pub open spec fn processing_line(t: Seq<char>) -> bool {
    starts_with_seq(t, "[Merger]"@) || starts_with_seq(t, "[VideoRemuxer]"@) || starts_with_seq(
        t,
        "[Metadata]"@,
    ) || starts_with_seq(t, "[ThumbnailsConvertor]"@) || starts_with_seq(t, "[EmbedThumbnail]"@)
}

/// A path that names a subtitle or an image rather than the media file.
pub open spec fn side_file(p: Seq<char>) -> bool {
    ends_with_seq(p, ".srt"@) || ends_with_seq(p, ".vtt"@) || ends_with_seq(p, ".jpg"@) || ends_with_seq(
        p,
        ".webp"@,
    ) || ends_with_seq(p, ".image"@)
}

/// A line about a subtitle or an image download.
pub open spec fn side_line(t: Seq<char>) -> bool {
    contains_seq(t, ".srt"@) || contains_seq(t, ".vtt"@) || contains_seq(t, ".webp"@) || contains_seq(
        t,
        ".jpg"@,
    ) || contains_seq(t, ".image"@)
}

/// `s` without `"` at either end.
pub open spec fn unquoted(s: Seq<char>) -> Seq<char> {
    trim_end_set(trim_start_set(s, seq!['"']), seq!['"'])
}

/// The integer percentage of an aria2 line: the digits between the first `(` and the
/// `%)` after it.
pub open spec fn aria2_percent(t: Seq<char>) -> Option<u64> {
    match find_seq(t, "("@) {
        Some(o) => match find_seq(t.skip(o), "%)"@) {
            Some(c) => if 1 <= c {
                parse_u64_spec(t.subrange(o + 1, o + c))
            } else {
                None
            },
            None => None,
        },
        None => None,
    }
}

/// The word after the first `key` of an aria2 line, without trailing `]`, when not empty.
pub open spec fn aria2_field(t: Seq<char>, key: Seq<char>) -> Option<Seq<char>> {
    match find_seq(t, key) {
        Some(p) => {
            let w = match first_word(t.skip(p + key.len())) {
                Some(w) => w,
                None => seq![],
            };
            let s = trim_end_set(w, seq![']']);
            if s.len() > 0 {
                Some(s)
            } else {
                None
            }
        },
        None => None,
    }
}

/// The total size of an aria2 line: the text between the first space and the `(` after
/// it, trimmed, after its `/` when it has one.
pub open spec fn aria2_size(t: Seq<char>) -> Option<Seq<char>> {
    match find_seq(t, " "@) {
        Some(f) => match find_seq(t.skip(f), "("@) {
            Some(o) => {
                let part = trim_ws(t.subrange(f + 1, f + o));
                Some(
                    match split_once_seq(part, '/') {
                        Some((_, total)) => total,
                        None => part,
                    },
                )
            },
            None => None,
        },
        None => None,
    }
}

/// A value of the template line that is set: not empty and not `NA`.
pub open spec fn known_value(v: Seq<char>) -> Option<Seq<char>> {
    if v.len() > 0 && v != "NA"@ {
        Some(v)
    } else {
        None
    }
}

/// The word after the first `key` of a `[download]` line, when there is one other than `-`.
pub open spec fn download_field(t: Seq<char>, key: Seq<char>) -> Option<Seq<char>> {
    match find_seq(t, key) {
        Some(p) => match first_word(t.skip(p + key.len())) {
            Some(w) => if w != "-"@ {
                Some(w)
            } else {
                None
            },
            None => None,
        },
        None => None,
    }
}

/// The percentage text of a `[download]` line: the word that ends at its first `%`.
pub open spec fn download_percent(t: Seq<char>) -> Option<Seq<char>> {
    match find_seq(t, "%"@) {
        Some(pp) => match last_index(t.take(pp), ' ') {
            Some(ls) => Some(t.take(pp).skip(ls + 1)),
            None => None,
        },
        None => None,
    }
}

/// `v` replaced by `o` when `o` holds a value.
pub open spec fn or_keep(o: Option<Seq<char>>, v: Seq<char>) -> Seq<char> {
    match o {
        Some(x) => x,
        None => v,
    }
}

/// The bar update of a percentage text, if any.
pub open spec fn percent_bar(o: Option<Seq<char>>) -> BarView {
    match o {
        Some(p) => BarView::Percent(p),
        None => BarView::Keep,
    }
}

/// The effect of one output line on the statistics and on the bar.
pub open spec fn line_step(st: TrackerView, line: Seq<char>) -> (TrackerView, BarView, bool) {
    let t = trim_ws(line);
    if t.len() == 0 {
        (st, BarView::Keep, false)
    } else if processing_line(t) {
        let merged = "[Merger] Merging formats into"@;
        (
            TrackerView {
                speed: "Processing (FFmpeg)"@,
                eta: "Finishing"@,
                last: if starts_with_seq(t, merged) {
                    Some(unquoted(trim_ws(t.skip(merged.len() as int))))
                } else {
                    st.last
                },
                ..st
            },
            BarView::Keep,
            true,
        )
    } else {
        let dest = "[download] Destination:"@;
        let st1 = if starts_with_seq(t, dest) {
            if side_file(trim_ws(t.skip(dest.len() as int))) {
                TrackerView { side: true, ..st }
            } else {
                TrackerView { last: Some(trim_ws(t.skip(dest.len() as int))), side: false, ..st }
            }
        } else {
            st
        };
        if !starts_with_seq(t, dest) && contains_seq(t, "has already been downloaded"@) {
            let dl = "[download]"@;
            let p = trim_ws(remove_all(t.skip(dl.len() as int), "has already been downloaded"@));
            (
                TrackerView {
                    speed: "Cached"@,
                    eta: "Done"@,
                    last: if starts_with_seq(t, dl) && p.len() > 0 {
                        Some(p)
                    } else {
                        st.last
                    },
                    ..st
                },
                BarView::Position(100),
                true,
            )
        } else if side_line(t) || st1.side {
            (st1, BarView::Keep, false)
        } else if starts_with_seq(t, "[#"@) && contains_seq(t, "%"@) {
            (
                TrackerView {
                    speed: match aria2_field(t, "DL:"@) {
                        Some(s) => s + "/s"@,
                        None => st1.speed,
                    },
                    eta: or_keep(aria2_field(t, "ETA:"@), st1.eta),
                    size: or_keep(aria2_size(t), st1.size),
                    ..st1
                },
                match aria2_percent(t) {
                    Some(p) => BarView::Position(if p > 100 { 100 } else { p as nat }),
                    None => BarView::Keep,
                },
                true,
            )
        } else if starts_with_seq(t, "__DLP__:"@) {
            let parts = split_seq(t.skip(8), '|');
            if parts.len() >= 4 {
                (
                    TrackerView {
                        speed: or_keep(known_value(trim_ws(parts[1])), st1.speed),
                        eta: or_keep(known_value(trim_ws(parts[2])), st1.eta),
                        size: or_keep(known_value(trim_ws(parts[3])), st1.size),
                        ..st1
                    },
                    BarView::Percent(trim_end_set(trim_ws(parts[0]), seq!['%'])),
                    true,
                )
            } else {
                (st1, BarView::Keep, false)
            }
        } else if starts_with_seq(t, "[download]"@) && contains_seq(t, "%"@) {
            (
                TrackerView {
                    speed: or_keep(download_field(t, " at "@), st1.speed),
                    eta: or_keep(download_field(t, "ETA "@), st1.eta),
                    size: or_keep(download_field(t, " of "@), st1.size),
                    ..st1
                },
                percent_bar(download_percent(t)),
                true,
            )
        } else {
            (st1, BarView::Keep, false)
        }
    }
}

/// The statistics block shown under the bar.
pub open spec fn stats_text(st: TrackerView) -> Seq<char> {
    "Speed     "@ + pad_right(st.speed, 14) + "\nETA       "@ + pad_right(st.eta, 14) + "\nSize      "@
        + pad_right(st.size, 14)
}

/// The checklist printed after a download.
pub open spec fn checklist_text(
    st: TrackerView,
    embed_metadata: bool,
    embed_thumbnail: bool,
    lyrics_saved: bool,
    saved_path: Option<Seq<char>>,
) -> Seq<Seq<char>> {
    seq![""@, "✓ Download complete"@] + (if embed_metadata {
        seq!["✓ Metadata embedded"@]
    } else {
        seq![]
    }) + (if embed_thumbnail {
        seq!["✓ Thumbnail embedded"@]
    } else {
        seq![]
    }) + (if lyrics_saved {
        seq!["✓ Standalone subtitle/lyrics saved"@]
    } else {
        seq![]
    }) + seq![
        ""@,
        "Saved to:"@,
        match saved_path {
            Some(p) => p,
            None => match st.last {
                Some(l) => l,
                None => "./"@,
            },
        },
        ""@
    ]
}

fn first_word_or_empty(s: &[char]) -> (r: Vec<char>)
    ensures
        r@ == match first_word(s@) {
            Some(w) => w,
            None => seq![],
        },
{
    match first_word_of(s) {
        Some(w) => w,
        None => Vec::new(),
    }
}

fn aria2_field_of(t: &[char], key: &str) -> (r: Option<Vec<char>>)
    ensures
        match r {
            Some(v) => aria2_field(t@, key@) == Some(v@),
            None => aria2_field(t@, key@) is None,
        },
{
    let k = chars_of(key);
    match find(t, &k) {
        Some(p) => {
            assert(crate::text::match_at(t@, k@, p as int));
            assert(t@.len() == t.len());
            let after = sub_chars(t, p + k.len(), t.len());
            assert(after@ =~= t@.skip(p + key@.len()));
            let w = first_word_or_empty(&after);
            let s = trim_end_in(&w, &[']']);
            assert([']']@ =~= seq![']']);
            if s.len() > 0 {
                Some(s)
            } else {
                None
            }
        },
        None => None,
    }
}

fn aria2_percent_of(t: &[char]) -> (r: Option<u64>)
    ensures
        r == aria2_percent(t@),
{
    let open = chars_of("(");
    match find(t, &open) {
        Some(o) => {
            assert(crate::text::match_at(t@, open@, o as int));
            assert(t@.len() == t.len());
            let tail = sub_chars(t, o, t.len());
            assert(tail@ =~= t@.skip(o as int));
            let close = chars_of("%)");
            match find(&tail, &close) {
                Some(c) => {
                    assert(crate::text::match_at(tail@, close@, c as int));
                    if 1 <= c {
                        let digits = sub_chars(t, o + 1, o + c);
                        assert(digits@ =~= t@.subrange(o + 1, o + c));
                        parse_u64(&digits)
                    } else {
                        None
                    }
                },
                None => None,
            }
        },
        None => None,
    }
}

fn aria2_size_of(t: &[char]) -> (r: Option<Vec<char>>)
    ensures
        match r {
            Some(v) => aria2_size(t@) == Some(v@),
            None => aria2_size(t@) is None,
        },
{
    let space = chars_of(" ");
    match find(t, &space) {
        Some(f) => {
            assert(crate::text::match_at(t@, space@, f as int));
            assert(t@.len() == t.len());
            let tail = sub_chars(t, f, t.len());
            assert(tail@ =~= t@.skip(f as int));
            let open = chars_of("(");
            match find(&tail, &open) {
                Some(o) => {
                    assert(crate::text::match_at(tail@, open@, o as int));
                    proof {
                        reveal_strlit(" ");
                        reveal_strlit("(");
                    }
                    assert(o >= 1) by {
                        if o == 0 {
                            assert(tail@[0] == ' ');
                            assert(tail@.subrange(0, 1) == open@);
                            assert(tail@.subrange(0, 1)[0] == tail@[0]);
                        }
                    }
                    let part_raw = sub_chars(t, f + 1, f + o);
                    assert(part_raw@ =~= t@.subrange(f + 1, f + o));
                    let part = trim(&part_raw);
                    match split_once(&part, '/') {
                        Some((_, total)) => Some(total),
                        None => Some(part),
                    }
                },
                None => None,
            }
        },
        None => None,
    }
}

fn known_value_of(v: &[char]) -> (r: Option<Vec<char>>)
    ensures
        match r {
            Some(x) => known_value(v@) == Some(x@),
            None => known_value(v@) is None,
        },
{
    if v.len() > 0 && !chars_eq_str(v, "NA") {
        Some(sub_chars(v, 0, v.len()))
    } else {
        None
    }
}

fn download_field_of(t: &[char], key: &str) -> (r: Option<Vec<char>>)
    ensures
        match r {
            Some(v) => download_field(t@, key@) == Some(v@),
            None => download_field(t@, key@) is None,
        },
{
    let k = chars_of(key);
    match find(t, &k) {
        Some(p) => {
            assert(crate::text::match_at(t@, k@, p as int));
            assert(t@.len() == t.len());
            let after = sub_chars(t, p + k.len(), t.len());
            assert(after@ =~= t@.skip(p + key@.len()));
            match first_word_of(&after) {
                Some(w) => if !chars_eq_str(&w, "-") {
                    Some(w)
                } else {
                    None
                },
                None => None,
            }
        },
        None => None,
    }
}

fn download_percent_of(t: &[char]) -> (r: Option<Vec<char>>)
    ensures
        match r {
            Some(v) => download_percent(t@) == Some(v@),
            None => download_percent(t@) is None,
        },
{
    let pct = chars_of("%");
    match find(t, &pct) {
        Some(pp) => {
            assert(crate::text::match_at(t@, pct@, pp as int));
            assert(t@.len() == t.len());
            let pre = sub_chars(t, 0, pp);
            assert(pre@ =~= t@.take(pp as int));
            match rfind_char(&pre, ' ') {
                Some(ls) => {
                    let w = sub_chars(&pre, ls + 1, pre.len());
                    assert(w@ =~= pre@.skip(ls + 1));
                    Some(w)
                },
                None => None,
            }
        },
        None => None,
    }
}

fn set_text(dst: &mut String, o: Option<Vec<char>>)
    ensures
        final(dst)@ == match o {
            Some(v) => v@,
            None => old(dst)@,
        },
{
    match o {
        Some(v) => {
            *dst = string_of(&v);
        },
        None => {},
    }
}

impl ProgressTracker {
    /// A tracker that knows nothing yet.
    pub fn new() -> (t: Self)
        ensures
            t@ == (TrackerView { speed: "-"@, eta: "-"@, size: "-"@, last: None, side: false }),
    {
        ProgressTracker {
            current_speed: "-".to_owned(),
            current_eta: "-".to_owned(),
            current_size: "-".to_owned(),
            last_file_path: None,
            in_side_download: false,
        }
    }

    /// Reads one output line: ffmpeg post-processing, destination files, cached files,
    /// aria2 progress, the progress template and standard `[download]` progress; subtitle
    /// and image downloads leave the statistics alone.
    #[verifier::rlimit(40)]
    pub fn parse_line(&mut self, line: &str) -> (e: LineEffect)
        ensures
            final(self)@ == line_step(old(self)@, line@).0,
            e.bar@ == line_step(old(self)@, line@).1,
            e.refresh == line_step(old(self)@, line@).2,
    {
        let t = trim(&chars_of(line));
        if t.len() == 0 {
            return LineEffect { bar: BarUpdate::Keep, refresh: false };
        }
        if starts_with(&t, "[Merger]") || starts_with(&t, "[VideoRemuxer]") || starts_with(&t, "[Metadata]")
            || starts_with(&t, "[ThumbnailsConvertor]") || starts_with(&t, "[EmbedThumbnail]") {
            self.current_speed = "Processing (FFmpeg)".to_owned();
            self.current_eta = "Finishing".to_owned();
            match strip_prefix(&t, "[Merger] Merging formats into") {
                Some(merged) => {
                    let inner = trim(&merged);
                    let p = trim_end_in(&trim_start_in(&inner, &['"']), &['"']);
                    assert(['"']@ =~= seq!['"']);
                    self.last_file_path = Some(string_of(&p));
                },
                None => {},
            }
            return LineEffect { bar: BarUpdate::Keep, refresh: true };
        }
        let is_dest = match strip_prefix(&t, "[download] Destination:") {
            Some(dest) => {
                let p = trim(&dest);
                if !(ends_with(&p, ".srt") || ends_with(&p, ".vtt") || ends_with(&p, ".jpg") || ends_with(
                    &p,
                    ".webp",
                ) || ends_with(&p, ".image")) {
                    self.last_file_path = Some(string_of(&p));
                    self.in_side_download = false;
                } else {
                    self.in_side_download = true;
                }
                true
            },
            None => false,
        };
        if !is_dest && contains_str(&t, "has already been downloaded") {
            match strip_prefix(&t, "[download]") {
                Some(dest) => {
                    let p = trim(&remove_all_chars(&dest, "has already been downloaded"));
                    if p.len() > 0 {
                        self.last_file_path = Some(string_of(&p));
                    }
                },
                None => {},
            }
            self.current_speed = "Cached".to_owned();
            self.current_eta = "Done".to_owned();
            return LineEffect { bar: BarUpdate::SetPosition(100), refresh: true };
        }
        if contains_str(&t, ".srt") || contains_str(&t, ".vtt") || contains_str(&t, ".webp") || contains_str(
            &t,
            ".jpg",
        ) || contains_str(&t, ".image") || self.in_side_download {
            return LineEffect { bar: BarUpdate::Keep, refresh: false };
        }
        if starts_with(&t, "[#") && contains_str(&t, "%") {
            let bar = match aria2_percent_of(&t) {
                Some(p) => BarUpdate::SetPosition(if p > 100 { 100 } else { p }),
                None => BarUpdate::Keep,
            };
            match aria2_field_of(&t, "DL:") {
                Some(s) => {
                    let mut sp = s;
                    append_str(&mut sp, "/s");
                    self.current_speed = string_of(&sp);
                },
                None => {},
            }
            set_text(&mut self.current_eta, aria2_field_of(&t, "ETA:"));
            set_text(&mut self.current_size, aria2_size_of(&t));
            return LineEffect { bar, refresh: true };
        }
        match strip_prefix(&t, "__DLP__:") {
            Some(data) => {
                proof {
                    reveal_strlit("__DLP__:");
                }
                let parts = split(&data, '|');
                if parts.len() >= 4 {
                    assert(views(parts@)[0] == parts@[0]@);
                    assert(views(parts@)[1] == parts@[1]@);
                    assert(views(parts@)[2] == parts@[2]@);
                    assert(views(parts@)[3] == parts@[3]@);
                    let pct = trim_end_in(&trim(&parts[0]), &['%']);
                    assert(['%']@ =~= seq!['%']);
                    set_text(&mut self.current_speed, known_value_of(&trim(&parts[1])));
                    set_text(&mut self.current_eta, known_value_of(&trim(&parts[2])));
                    set_text(&mut self.current_size, known_value_of(&trim(&parts[3])));
                    return LineEffect { bar: BarUpdate::SetPercentText(string_of(&pct)), refresh: true };
                }
                return LineEffect { bar: BarUpdate::Keep, refresh: false };
            },
            None => {},
        }
        if starts_with(&t, "[download]") && contains_str(&t, "%") {
            let bar = match download_percent_of(&t) {
                Some(p) => BarUpdate::SetPercentText(string_of(&p)),
                None => BarUpdate::Keep,
            };
            set_text(&mut self.current_speed, download_field_of(&t, " at "));
            set_text(&mut self.current_eta, download_field_of(&t, "ETA "));
            set_text(&mut self.current_size, download_field_of(&t, " of "));
            return LineEffect { bar, refresh: true };
        }
        LineEffect { bar: BarUpdate::Keep, refresh: false }
    }

    /// The statistics block shown under the bar.
    pub fn stats_message(&self) -> (r: String)
        ensures
            r@ == stats_text(self@),
    {
        let mut out = chars_of("Speed     ");
        append_chars(&mut out, &pad_right_chars(&chars_of(self.current_speed.as_str()), 14));
        append_str(&mut out, "\nETA       ");
        append_chars(&mut out, &pad_right_chars(&chars_of(self.current_eta.as_str()), 14));
        append_str(&mut out, "\nSize      ");
        append_chars(&mut out, &pad_right_chars(&chars_of(self.current_size.as_str()), 14));
        string_of(&out)
    }

    /// The checklist printed after a download, line by line; the saved path is the one
    /// given, else the media file last named, else `./`.
    pub fn checklist_lines(
        &self,
        embed_metadata: bool,
        embed_thumbnail: bool,
        lyrics_saved: bool,
        saved_path: Option<&str>,
    ) -> (r: Vec<String>)
        ensures
            string_views(r@) == checklist_text(
                self@,
                embed_metadata,
                embed_thumbnail,
                lyrics_saved,
                match saved_path {
                    Some(p) => Some(p@),
                    None => None,
                },
            ),
    {
        let mut v: Vec<String> = Vec::new();
        push_text_if(&mut v, true, "");
        push_text_if(&mut v, true, "✓ Download complete");
        push_text_if(&mut v, embed_metadata, "✓ Metadata embedded");
        push_text_if(&mut v, embed_thumbnail, "✓ Thumbnail embedded");
        push_text_if(&mut v, lyrics_saved, "✓ Standalone subtitle/lyrics saved");
        push_text_if(&mut v, true, "");
        push_text_if(&mut v, true, "Saved to:");
        match saved_path {
            Some(p) => push_text_if(&mut v, true, p),
            None => match &self.last_file_path {
                Some(l) => push_text_if(&mut v, true, l.as_str()),
                None => push_text_if(&mut v, true, "./"),
            },
        }
        push_text_if(&mut v, true, "");
        assert(string_views(v@) =~= checklist_text(
            self@,
            embed_metadata,
            embed_thumbnail,
            lyrics_saved,
            match saved_path {
                Some(p) => Some(p@),
                None => None,
            },
        ));
        v
    }
}

/// Progress of a subtitle or image download never moves the bar and never changes the
/// speed, time left or size shown: only the media stream is tracked. This holds of lines
/// that name such a file and of every progress line while one is being downloaded.
pub proof fn side_downloads_leave_progress_alone(st: TrackerView, line: Seq<char>)
    requires
        side_line(trim_ws(line)) || (st.side && !starts_with_seq(trim_ws(line), "[download] Destination:"@)),
        !processing_line(trim_ws(line)),
        !contains_seq(trim_ws(line), "has already been downloaded"@),
    ensures
        line_step(st, line).1 == BarView::Keep,
        !line_step(st, line).2,
        line_step(st, line).0.speed == st.speed,
        line_step(st, line).0.eta == st.eta,
        line_step(st, line).0.size == st.size,
{
    let t = trim_ws(line);
    if t.len() == 0 {
        reveal_strlit(".srt");
        reveal_strlit(".vtt");
        reveal_strlit(".webp");
        reveal_strlit(".jpg");
        reveal_strlit(".image");
        assert(!contains_seq(t, ".srt"@));
        assert(!contains_seq(t, ".vtt"@));
        assert(!contains_seq(t, ".webp"@));
        assert(!contains_seq(t, ".jpg"@));
        assert(!contains_seq(t, ".image"@));
    }
}

} // verus!
