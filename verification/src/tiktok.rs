//! TikTok URL recognition and the naming and request decisions of the TikWM engine.

use vstd::prelude::*;
use crate::downloader::{flag_if, opt_pair, target_dir};
use crate::lyrics::{url_encode, url_encoded};
use crate::metadata::{DurationSecs, VideoFormat, VideoMetadata};
use crate::preset::Preset;
use crate::quality::QualityPreference;
use crate::recovery::opt_view;
use crate::text::{
    append_chars, append_str, chars_of, contains_seq, contains_str, decimal, decimal_chars,
    lowercase, pad_left, padded_decimal, split_once, split_once_seq, starts_with_seq, string_of,
    to_lowercase, trim, trim_ws, alphanumeric, is_alphanumeric, sub_chars, push_text_if, string_views,
};

verus! {

/// A URL whose lowercase mapping is `lower` points to TikTok.
pub open spec fn tiktok_lowered(lower: Seq<char>) -> bool {
    contains_seq(lower, "tiktok.com"@) || contains_seq(lower, "vt.tiktok.com"@) || contains_seq(
        lower,
        "vm.tiktok.com"@,
    )
}

/// A URL without its query string.
pub open spec fn without_query(url: Seq<char>) -> Seq<char> {
    match split_once_seq(url, '?') {
        Some((base, _)) => base,
        None => url,
    }
}

/// Integer division rounding toward zero, as Rust's `/` on signed integers.
pub open spec fn tdiv(a: int, b: int) -> int {
    if a >= 0 {
        a / b
    } else {
        -((-a) / b)
    }
}

/// The remainder of [`tdiv`], as Rust's `%` on signed integers.
pub open spec fn tmod(a: int, b: int) -> int {
    a - b * tdiv(a, b)
}

/// `{:0width}` formatting of a signed number: the sign counts toward the width.
pub open spec fn signed_padded(n: int, width: nat) -> Seq<char> {
    if n < 0 {
        seq!['-'] + pad_left(decimal((-n) as nat), if width >= 1 { (width - 1) as nat } else { 0 }, '0')
    } else {
        pad_left(decimal(n as nat), width, '0')
    }
}

/// The approximate `YYYY-MM-DD` label of a Unix timestamp (365-day years, 30-day months).
pub open spec fn date_label(ts: int) -> Seq<char> {
    let days = tdiv(ts, 86400);
    let year = 1970 + tdiv(days, 365);
    let rem = tmod(days, 365);
    let month = 1 + (if tdiv(rem, 30) < 11 { tdiv(rem, 30) } else { 11 });
    let day = 1 + tmod(rem, 30);
    signed_padded(year, 4) + "-"@ + signed_padded(month, 2) + "-"@ + signed_padded(day, 2)
}

/// What the engine does with a TikWM reply.
#[derive(Debug, Clone, PartialEq, Eq)]
pub enum TikwmStep {
    /// The reply carries data.
    Accept,
    /// The API asked to slow down: pause and ask once more.
    RetryAfterPause,
    /// The request failed with this message.
    Fail(String),
}

/// A character kept in TikTok file titles.
pub open spec fn title_char_kept(c: char) -> bool {
    alphanumeric(c) || c == ' ' || c == '-' || c == '_'
}

/// The kept characters of a title.
pub open spec fn kept_title_chars(raw: Seq<char>) -> Seq<char>
    decreases raw.len(),
{
    if raw.len() == 0 {
        seq![]
    } else if title_char_kept(raw.last()) {
        kept_title_chars(raw.drop_last()).push(raw.last())
    } else {
        kept_title_chars(raw.drop_last())
    }
}

/// The title part of a TikTok file name: kept characters, at most 60, trimmed.
pub open spec fn safe_title(raw: Seq<char>) -> Seq<char> {
    let k = kept_title_chars(raw);
    trim_ws(k.take(if k.len() < 60 { k.len() as int } else { 60 }))
}

/// The message of a TikWM reply, with its default.
pub open spec fn tikwm_message(msg: Option<Seq<char>>) -> Seq<char> {
    match msg {
        Some(m) => m,
        None => "Unknown TikWM error"@,
    }
}

/// TikTok downloads through the TikWM engine, with yt-dlp impersonation as the fallback.
pub struct TikTokFallback;

/// Executable form of `signed_padded`.
fn signed_padded_chars(n: i128, width: usize) -> (r: Vec<char>)
    requires
        width >= 1,
        -0x1_0000_0000_0000_0000 < n < 0x1_0000_0000_0000_0000,
    ensures
        r@ == signed_padded(n as int, width as nat),
{
    if n < 0 {
        let m = (-n) as u64;
        let mut out: Vec<char> = Vec::new();
        out.push('-');
        let d = padded_decimal(m, width - 1);
        append_chars(&mut out, &d);
        assert(out@ =~= seq!['-'] + d@);
        out
    } else {
        padded_decimal(n as u64, width)
    }
}

/// Rust's truncating division for a positive divisor.
fn trunc_div(a: i128, b: i128) -> (r: i128)
    requires
        b > 0,
        -0x1_0000_0000_0000_0000 < a < 0x1_0000_0000_0000_0000,
    ensures
        r == tdiv(a as int, b as int),
        -0x1_0000_0000_0000_0000 < r < 0x1_0000_0000_0000_0000,
{
    if a >= 0 {
        a / b
    } else {
        -((-a) / b)
    }
}

impl TikTokFallback {
    /// Whether a URL whose lowercase mapping is `lower` points to TikTok.
    pub fn is_tiktok_lowered(lower: &str) -> (r: bool)
        ensures
            r == tiktok_lowered(lower@),
    {
        let l = chars_of(lower);
        contains_str(&l, "tiktok.com") || contains_str(&l, "vt.tiktok.com") || contains_str(
            &l,
            "vm.tiktok.com",
        )
    }

    /// Whether a URL points to TikTok (matched case-insensitively).
    pub fn is_tiktok_url(url: &str) -> (r: bool)
        ensures
            r == tiktok_lowered(lowercase(url@)),
    {
        let lower = to_lowercase(url);
        Self::is_tiktok_lowered(lower.as_str())
    }

    /// The URL without its query string (tracking parameters).
    pub fn clean_url(url: &str) -> (r: String)
        ensures
            r@ == without_query(url@),
    {
        let u = chars_of(url);
        match split_once(&u, '?') {
            Some((base, _)) => string_of(&base),
            None => url.to_owned(),
        }
    }

    /// The TikWM API request URL for a cleaned TikTok URL.
    pub fn tikwm_api_url(clean_url: &str) -> (r: String)
        ensures
            r@ == "https://www.tikwm.com/api/?url="@ + url_encoded(clean_url@),
    {
        let mut out: Vec<char> = Vec::new();
        append_str(&mut out, "https://www.tikwm.com/api/?url=");
        let e = url_encode(clean_url);
        append_str(&mut out, e.as_str());
        string_of(&out)
    }

    /// The decision on a TikWM reply with status `code` and message `msg` (absent values
    /// are read as code -1 and "Unknown TikWM error") at try `attempt` (from 0).
    pub fn tikwm_reply_step(code: Option<i64>, msg: Option<&str>, attempt: u32) -> (r: TikwmStep)
        ensures
            (match code { Some(c) => c as int, None => -1int }) == 0 ==> r == TikwmStep::Accept,
            (match code { Some(c) => c as int, None => -1int }) != 0 ==> {
                let m = tikwm_message(match msg { Some(s) => Some(s@), None => None });
                if (contains_seq(m, "1 request/second"@) || contains_seq(m, "Limit"@)) && attempt == 0 {
                    r == TikwmStep::RetryAfterPause
                } else {
                    r matches TikwmStep::Fail(e) && e@ == "TikWM API error: "@ + m
                }
            },
    {
        let c = match code {
            Some(c) => c,
            None => -1,
        };
        if c == 0 {
            return TikwmStep::Accept;
        }
        let m = match msg {
            Some(s) => chars_of(s),
            None => chars_of("Unknown TikWM error"),
        };
        if (contains_str(&m, "1 request/second") || contains_str(&m, "Limit")) && attempt == 0 {
            return TikwmStep::RetryAfterPause;
        }
        let mut out: Vec<char> = Vec::new();
        append_str(&mut out, "TikWM API error: ");
        append_chars(&mut out, &m);
        TikwmStep::Fail(string_of(&out))
    }

    /// The download link of a reply: the HD link, else the plain one; site-relative
    /// links are made absolute.
    pub fn play_url(hdplay: Option<&str>, play: Option<&str>) -> (r: Option<String>)
        ensures
            match (if hdplay is Some { hdplay } else { play }) {
                Some(p) => r matches Some(u) && u@ == (if starts_with_seq(p@, "/"@) {
                    "https://www.tikwm.com"@ + p@
                } else {
                    p@
                }),
                None => r is None,
            },
    {
        let chosen = match hdplay {
            Some(h) => Some(h),
            None => play,
        };
        match chosen {
            Some(p) => {
                let pc = chars_of(p);
                if crate::text::starts_with(&pc, "/") {
                    let mut out: Vec<char> = Vec::new();
                    append_str(&mut out, "https://www.tikwm.com");
                    append_chars(&mut out, &pc);
                    Some(string_of(&out))
                } else {
                    Some(p.to_owned())
                }
            },
            None => None,
        }
    }
}

/// The title part of a TikTok file name: letters, digits, spaces, `-` and `_` only, at
/// most 60 characters, trimmed.
pub fn safe_title_of(raw: &str) -> (r: String)
    ensures
        r@ == safe_title(raw@),
{
    let cs = chars_of(raw);
    let mut kept: Vec<char> = Vec::new();
    let mut i: usize = 0;
    assert(cs@.take(0) =~= Seq::<char>::empty());
    while i < cs.len()
        invariant
            i <= cs.len(),
            kept@ == kept_title_chars(cs@.take(i as int)),
        decreases cs.len() - i,
    {
        let c = cs[i];
        assert(cs@.take(i + 1).drop_last() =~= cs@.take(i as int));
        if is_alphanumeric(c) || c == ' ' || c == '-' || c == '_' {
            kept.push(c);
        }
        i = i + 1;
    }
    assert(cs@.take(cs.len() as int) =~= cs@);
    let n = if kept.len() < 60 { kept.len() } else { 60 };
    let first = sub_chars(&kept, 0, n);
    assert(first@ =~= kept@.take(n as int));
    string_of(&trim(&first))
}

/// The file name `date_id_title.mp4` of a TikTok download.
pub fn tiktok_file_name(date: &str, id: &str, safe_title: &str) -> (r: String)
    ensures
        r@ == date@ + "_"@ + id@ + "_"@ + safe_title@ + ".mp4"@,
{
    let mut out: Vec<char> = Vec::new();
    append_str(&mut out, date);
    append_str(&mut out, "_");
    append_str(&mut out, id);
    append_str(&mut out, "_");
    append_str(&mut out, safe_title);
    append_str(&mut out, ".mp4");
    string_of(&out)
}

/// The folder of a TikTok download: the creator's name, `TikTok_Creator` when the reply
/// gives none.
pub open spec fn creator_folder(uploader: Option<Seq<char>>) -> Seq<char> {
    match uploader {
        Some(u) => u,
        None => "TikTok_Creator"@,
    }
}

/// The folder of a TikTok download.
pub fn creator_dir(uploader: Option<&str>) -> (r: String)
    ensures
        r@ == creator_folder(match uploader {
            Some(u) => Some(u@),
            None => None,
        }),
{
    match uploader {
        Some(u) => u.to_owned(),
        None => "TikTok_Creator".to_owned(),
    }
}

/// The file name of a TikTok download from the reply's fields: the date of `create_time`
/// (`video` without one), the id (`video`), and the filtered title (`tiktok_video`).
pub open spec fn download_file_name_of(id: Option<Seq<char>>, title: Option<Seq<char>>, create_time: Option<i64>) -> Seq<
    char,
> {
    (match create_time {
        Some(t) => date_label(t as int),
        None => "video"@,
    }) + "_"@ + (match id {
        Some(i) => i,
        None => "video"@,
    }) + "_"@ + safe_title(
        match title {
            Some(t) => t,
            None => "tiktok_video"@,
        },
    ) + ".mp4"@
}

/// The file name of a TikTok download.
pub fn download_file_name(id: Option<&str>, title: Option<&str>, create_time: Option<i64>) -> (r: String)
    ensures
        r@ == download_file_name_of(
            match id {
                Some(i) => Some(i@),
                None => None,
            },
            match title {
                Some(t) => Some(t@),
                None => None,
            },
            create_time,
        ),
{
    let date = match create_time {
        Some(ts) => chrono_fallback_or_timestamp(ts),
        None => "video".to_owned(),
    };
    let safe = safe_title_of(
        match title {
            Some(t) => t,
            None => "tiktok_video",
        },
    );
    tiktok_file_name(
        date.as_str(),
        match id {
            Some(i) => i,
            None => "video",
        },
        safe.as_str(),
    )
}

/// The approximate `YYYY-MM-DD` label of a Unix timestamp, used in file names.
pub fn chrono_fallback_or_timestamp(ts: i64) -> (r: String)
    ensures
        r@ == date_label(ts as int),
{
    let t = ts as i128;
    let days = trunc_div(t, 86400);
    let years = trunc_div(days, 365);
    let year = 1970 + years;
    let rem_days = days - 365 * years;
    let q = trunc_div(rem_days, 30);
    let month: i128 = 1 + if q < 11 { q } else { 11 };
    let day: i128 = 1 + (rem_days - 30 * q);
    let mut out = signed_padded_chars(year, 4);
    append_str(&mut out, "-");
    let m = signed_padded_chars(month, 2);
    append_chars(&mut out, &m);
    append_str(&mut out, "-");
    let d = signed_padded_chars(day, 2);
    append_chars(&mut out, &d);
    string_of(&out)
}

/// The ten browser clients that yt-dlp impersonates, in the order a blocked TikTok
/// download tries them.
pub open spec fn impersonate_client_list() -> Seq<Seq<char>> {
    seq!["safari-18.0:macos-15"@, "chrome-131:macos-14"@, "chrome-136:macos-15"@, "edge-101:windows-10"@, "safari-18.0:ios-18.0"@, "firefox-135:macos-14"@, "chrome-131:android-14"@, "chrome-116:windows-10"@, "tor-14.5:macos-14"@, "chrome-99:windows-10"@]
}

/// The impersonation rotation tries ten clients, each once.
pub proof fn rotation_has_ten_distinct_clients()
    ensures
        impersonate_client_list().len() == 10,
        forall|i: int, j: int|
            0 <= i < j < 10 ==> #[trigger] impersonate_client_list()[i] != #[trigger] impersonate_client_list()[j],
{
    reveal_strlit("safari-18.0:macos-15");
    reveal_strlit("chrome-131:macos-14");
    reveal_strlit("chrome-136:macos-15");
    reveal_strlit("edge-101:windows-10");
    reveal_strlit("safari-18.0:ios-18.0");
    reveal_strlit("firefox-135:macos-14");
    reveal_strlit("chrome-131:android-14");
    reveal_strlit("chrome-116:windows-10");
    reveal_strlit("tor-14.5:macos-14");
    reveal_strlit("chrome-99:windows-10");
    let l = impersonate_client_list();
    assert forall|i: int, j: int| 0 <= i < j < 10 implies #[trigger] l[i] != #[trigger] l[j] by {
        assert(l[i].len() != l[j].len() || l[i][0] != l[j][0] || l[i][7] != l[j][7] || l[i][8] != l[j][8]
            || l[i][9] != l[j][9] || l[i][10] != l[j][10] || l[i][12] != l[j][12] || l[i][13] != l[j][13]);
    }
}

/// The yt-dlp arguments of a TikTok download attempt impersonating `client`.
pub open spec fn rotation_args_for(
    client: Seq<char>,
    url: Seq<char>,
    p: Preset,
    q: QualityPreference,
    override_dir: Option<Seq<char>>,
) -> Seq<Seq<char>> {
    seq![
        "--impersonate"@,
        client,
        "-f"@,
        q.selector(),
        "--merge-output-format"@,
        p.container@,
        "--remux-video"@,
        p.container@,
        "--windows-filenames"@
    ] + flag_if(p.embed_metadata, "--embed-metadata"@) + flag_if(p.embed_thumbnail, "--embed-thumbnail"@)
        + seq!["--no-playlist"@] + opt_pair("-o"@, opt_view(p.output_template)) + opt_pair(
        "-P"@,
        target_dir(p, override_dir),
    ) + seq![url]
}

/// The metadata of a TikWM reply: the fields it gave, with defaults for the missing ones,
/// and one vertical 1080x1920 H.264/AAC format.
pub open spec fn tikwm_metadata_fits(
    m: VideoMetadata,
    clean_url: Seq<char>,
    id: Option<Seq<char>>,
    title: Option<Seq<char>>,
    uploader: Option<Seq<char>>,
    duration: Option<DurationSecs>,
    cover: Option<Seq<char>>,
    origin_cover: Option<Seq<char>>,
) -> bool {
    &&& m.id@ == match id { Some(x) => x, None => "tiktok_video"@ }
    &&& m.title@ == match title { Some(x) => x, None => "TikTok Video"@ }
    &&& opt_view(m.uploader) == uploader
    &&& m.duration == duration
    &&& m.width == Some(1080u32) && m.height == Some(1920u32)
    &&& m.filesize is None && m.filesize_approx is None
    &&& opt_view(m.webpage_url) == Some(clean_url)
    &&& opt_view(m.thumbnail) == match cover { Some(c) => Some(c), None => origin_cover }
    &&& m.categories is None && m.is_live is None
    &&& m.subtitles is None && m.automatic_captions is None
    &&& opt_view(m.extractor) == Some("tiktok"@)
    &&& m.formats matches Some(fs) && fs@.len() == 1 && {
        let f = fs@[0];
        &&& f.format_id@ == "hd"@
        &&& opt_view(f.ext) == Some("mp4"@)
        &&& f.width == Some(1080u32) && f.height == Some(1920u32)
        &&& opt_view(f.vcodec) == Some("h264"@) && opt_view(f.acodec) == Some("aac"@)
        &&& f.filesize is None && f.filesize_approx is None
        &&& opt_view(f.format_note) == Some("HD Watermark-Free"@)
        &&& opt_view(f.resolution) == Some("1080x1920"@)
    }
}

fn owned_opt(o: Option<&str>) -> (r: Option<String>)
    ensures
        opt_view(r) == match o {
            Some(x) => Some(x@),
            None => None,
        },
{
    match o {
        Some(x) => Some(x.to_owned()),
        None => None,
    }
}

impl TikTokFallback {
    /// The impersonation clients, in the order they are tried.
    pub fn impersonate_clients() -> (r: Vec<String>)
        ensures
            string_views(r@) == impersonate_client_list(),
    {
        let mut v: Vec<String> = Vec::new();
        push_text_if(&mut v, true, "safari-18.0:macos-15");
        push_text_if(&mut v, true, "chrome-131:macos-14");
        push_text_if(&mut v, true, "chrome-136:macos-15");
        push_text_if(&mut v, true, "edge-101:windows-10");
        push_text_if(&mut v, true, "safari-18.0:ios-18.0");
        push_text_if(&mut v, true, "firefox-135:macos-14");
        push_text_if(&mut v, true, "chrome-131:android-14");
        push_text_if(&mut v, true, "chrome-116:windows-10");
        push_text_if(&mut v, true, "tor-14.5:macos-14");
        push_text_if(&mut v, true, "chrome-99:windows-10");
        assert(string_views(v@) =~= impersonate_client_list());
        v
    }

    /// The yt-dlp arguments of a TikTok download attempt impersonating `client`.
    pub fn rotation_args(
        client: &str,
        url: &str,
        preset: &Preset,
        quality: &QualityPreference,
        override_output_dir: Option<&str>,
    ) -> (r: Vec<String>)
        ensures
            string_views(r@) == rotation_args_for(
                client@,
                url@,
                *preset,
                *quality,
                match override_output_dir {
                    Some(d) => Some(d@),
                    None => None,
                },
            ),
    {
        let mut v: Vec<String> = Vec::new();
        let sel = quality.to_format_selector();
        push_text_if(&mut v, true, "--impersonate");
        push_text_if(&mut v, true, client);
        push_text_if(&mut v, true, "-f");
        push_text_if(&mut v, true, sel.as_str());
        push_text_if(&mut v, true, "--merge-output-format");
        push_text_if(&mut v, true, preset.container.as_str());
        push_text_if(&mut v, true, "--remux-video");
        push_text_if(&mut v, true, preset.container.as_str());
        push_text_if(&mut v, true, "--windows-filenames");
        push_text_if(&mut v, preset.embed_metadata, "--embed-metadata");
        push_text_if(&mut v, preset.embed_thumbnail, "--embed-thumbnail");
        push_text_if(&mut v, true, "--no-playlist");
        match &preset.output_template {
            Some(t) => {
                push_text_if(&mut v, true, "-o");
                push_text_if(&mut v, true, t.as_str());
            },
            None => {},
        }
        let target: Option<&str> = match override_output_dir {
            Some(d) => Some(d),
            None => match &preset.output_dir {
                Some(d) => Some(d.as_str()),
                None => None,
            },
        };
        match target {
            Some(d) => {
                push_text_if(&mut v, true, "-P");
                push_text_if(&mut v, true, d);
            },
            None => {},
        }
        push_text_if(&mut v, true, url);
        assert(string_views(v@) =~= rotation_args_for(
            client@,
            url@,
            *preset,
            *quality,
            match override_output_dir {
                Some(d) => Some(d@),
                None => None,
            },
        ));
        v
    }

    /// The metadata of a TikWM reply for the cleaned URL `clean_url`, from the fields
    /// the reply gave.
    pub fn metadata_from_reply(
        clean_url: &str,
        id: Option<&str>,
        title: Option<&str>,
        uploader: Option<&str>,
        duration: Option<DurationSecs>,
        cover: Option<&str>,
        origin_cover: Option<&str>,
    ) -> (m: VideoMetadata)
        ensures
            tikwm_metadata_fits(
                m,
                clean_url@,
                match id { Some(x) => Some(x@), None => None },
                match title { Some(x) => Some(x@), None => None },
                match uploader { Some(x) => Some(x@), None => None },
                duration,
                match cover { Some(x) => Some(x@), None => None },
                match origin_cover { Some(x) => Some(x@), None => None },
            ),
    {
        let format = VideoFormat {
            format_id: "hd".to_owned(),
            ext: Some("mp4".to_owned()),
            width: Some(1080),
            height: Some(1920),
            vcodec: Some("h264".to_owned()),
            acodec: Some("aac".to_owned()),
            filesize: None,
            filesize_approx: None,
            format_note: Some("HD Watermark-Free".to_owned()),
            resolution: Some("1080x1920".to_owned()),
        };
        let mut formats: Vec<VideoFormat> = Vec::new();
        formats.push(format);
        let thumbnail = match cover {
            Some(c) => Some(c.to_owned()),
            None => owned_opt(origin_cover),
        };
        VideoMetadata {
            id: match id {
                Some(x) => x.to_owned(),
                None => "tiktok_video".to_owned(),
            },
            title: match title {
                Some(x) => x.to_owned(),
                None => "TikTok Video".to_owned(),
            },
            uploader: owned_opt(uploader),
            duration,
            width: Some(1080),
            height: Some(1920),
            filesize: None,
            filesize_approx: None,
            formats: Some(formats),
            webpage_url: Some(clean_url.to_owned()),
            thumbnail,
            categories: None,
            extractor: Some("tiktok".to_owned()),
            is_live: None,
            subtitles: None,
            automatic_captions: None,
        }
    }
}

} // verus!
