//! Classification of download failures from the text that yt-dlp and ffmpeg print,
//! and the diagnostic report shown for them.

use vstd::prelude::*;
use crate::text::{
    pad_right, pad_right_chars, push_text_if, string_views,
    all_digits, is_digit, matches_at, append_chars, match_at, append_str, chars_of, contains_seq, contains_str, find, find_seq,
    is_all_digits, lines, lines_of, lowercase, replace_char, replace_chars, starts_with_seq,
    string_of, strip_prefix, sub_chars, to_lowercase, trim, trim_non_digits, trim_nondigit,
    trim_ws, truncate_chars, truncated, views, words, words_of,
};

verus! {

/// Categorization of download/extraction failures.
#[derive(Debug, Clone, PartialEq, Eq)]
pub enum FailureCategory {
    /// Transient network error (timeout, connection reset, HTTP 5xx, socket disconnect)
    Transient { reason: String },
    /// Requested format code or resolution stream is not available
    FormatUnavailable { requested: Option<String>, details: String },
    /// Anti-bot protection, rate limit (HTTP 429), or 403 Forbidden challenge
    BotBlockOrExtractor { reason: String },
    /// FFmpeg conversion, muxing, or post-processing failure
    FFmpegProcessing { reason: String },
    /// Permanent error (video deleted, private, geo-blocked, copyright claim)
    Permanent { reason: String },
    /// General unclassified failure
    Unknown(String),
}

/// The mathematical value of a [`FailureCategory`].
pub ghost enum FailureView {
    Transient(Seq<char>),
    FormatUnavailable(Option<Seq<char>>, Seq<char>),
    BotBlockOrExtractor(Seq<char>),
    FFmpegProcessing(Seq<char>),
    Permanent(Seq<char>),
    Unknown(Seq<char>),
}

/// The view of an optional string.
pub open spec fn opt_view(o: Option<String>) -> Option<Seq<char>> {
    match o {
        Some(s) => Some(s@),
        None => None,
    }
}

impl View for FailureCategory {
    type V = FailureView;

    open spec fn view(&self) -> FailureView {
        match self {
            FailureCategory::Transient { reason } => FailureView::Transient(reason@),
            FailureCategory::FormatUnavailable { requested, details } => FailureView::FormatUnavailable(
                opt_view(*requested),
                details@,
            ),
            FailureCategory::BotBlockOrExtractor { reason } => FailureView::BotBlockOrExtractor(reason@),
            FailureCategory::FFmpegProcessing { reason } => FailureView::FFmpegProcessing(reason@),
            FailureCategory::Permanent { reason } => FailureView::Permanent(reason@),
            FailureCategory::Unknown(reason) => FailureView::Unknown(reason@),
        }
    }
}

// ---------------------------------------------------------------------------
// Markers searched in the lowercased error text
// ---------------------------------------------------------------------------

/// The text reports media that is gone, private or restricted.
pub open spec fn permanent_marker(l: Seq<char>) -> bool {
    ||| contains_seq(l, "video unavailable"@)
    ||| contains_seq(l, "this video has been removed"@)
    ||| contains_seq(l, "private video"@)
    ||| contains_seq(l, "this video is private"@)
    ||| contains_seq(l, "copyright claim"@)
    ||| contains_seq(l, "account has been terminated"@)
    ||| contains_seq(l, "geo-restricted"@)
    ||| contains_seq(l, "not available in your country"@)
    ||| contains_seq(l, "confirm your age"@)
    ||| contains_seq(l, "sign in to confirm your age"@)
    ||| contains_seq(l, "members-only content"@)
    ||| contains_seq(l, "is not a valid url"@)
}

/// The text reports an unavailable format.
pub open spec fn format_marker(l: Seq<char>) -> bool {
    &&& (contains_seq(l, "format"@) || contains_seq(l, "formats"@))
    &&& (contains_seq(l, "not available"@) || contains_seq(l, "unavailable"@) || contains_seq(
        l,
        "no video formats found"@,
    ) || contains_seq(l, "could not find format"@))
}

/// The text reports an anti-bot challenge or a rate limit.
pub open spec fn bot_marker(l: Seq<char>) -> bool {
    ||| contains_seq(l, "sign in to confirm you're not a bot"@)
    ||| contains_seq(l, "bot detection"@)
    ||| contains_seq(l, "http error 429"@)
    ||| contains_seq(l, "too many requests"@)
    ||| contains_seq(l, "http error 403"@)
    ||| contains_seq(l, "forbidden"@)
    ||| contains_seq(l, "blocked by cloudflare"@)
}

/// An HTTP 5xx status at position `i`: `http error 5` followed by two digits.
pub open spec fn server_error_at(l: Seq<char>, i: int) -> bool {
    match_at(l, "http error 5"@, i) && i + 14 <= l.len() && is_digit(l[i + 12]) && is_digit(l[i + 13])
}

/// The text reports an HTTP 5xx server error.
pub open spec fn http_server_error(l: Seq<char>) -> bool {
    exists|i: int| server_error_at(l, i)
}

/// The text reports a transient network failure (timeouts, resets, HTTP 5xx).
pub open spec fn transient_marker(l: Seq<char>) -> bool {
    ||| contains_seq(l, "timed out"@)
    ||| contains_seq(l, "connection reset"@)
    ||| contains_seq(l, "network is unreachable"@)
    ||| contains_seq(l, "temporary failure in name resolution"@)
    ||| http_server_error(l)
    ||| contains_seq(l, "incompleteread"@)
    ||| contains_seq(l, "connection refused"@)
    ||| contains_seq(l, "read timed out"@)
    ||| contains_seq(l, "remote end closed connection"@)
}

/// The text reports an ffmpeg post-processing failure.
pub open spec fn ffmpeg_marker(l: Seq<char>) -> bool {
    ||| contains_seq(l, "ffmpeg: error"@)
    ||| contains_seq(l, "conversion failed"@)
    ||| contains_seq(l, "postprocessing: error"@)
    ||| contains_seq(l, "postprocessing failed"@)
    ||| contains_seq(l, "failed to merge formats"@)
}

/// Whether the text holds `http error 5` followed by two digits.
fn has_server_error(l: &[char]) -> (r: bool)
    ensures
        r == http_server_error(l@),
{
    let pat = chars_of("http error 5");
    proof {
        reveal_strlit("http error 5");
    }
    let mut i: usize = 0;
    while i < l.len()
        invariant
            i <= l@.len(),
            pat@ == "http error 5"@,
            forall|j: int| 0 <= j < i ==> !server_error_at(l@, j),
        decreases l.len() - i,
    {
        if matches_at(l, &pat, i) && l.len() - i >= 14 && '0' <= l[i + 12] && l[i + 12] <= '9' && '0' <= l[i
            + 13] && l[i + 13] <= '9' {
            assert(server_error_at(l@, i as int));
            return true;
        }
        i = i + 1;
    }
    assert forall|j: int| !server_error_at(l@, j) by {
        if 0 <= j < l@.len() {
        } else if j >= l@.len() {
            assert(!match_at(l@, "http error 5"@, j));
        }
    }
    false
}

// ---------------------------------------------------------------------------
// Extraction of the primary error line and of a format code
// ---------------------------------------------------------------------------

/// The message a single trimmed line carries, if it is an error line.
pub open spec fn primary_in_line(t: Seq<char>) -> Option<Seq<char>> {
    if starts_with_seq(t, "ERROR:"@) {
        Some(trim_ws(t.skip("ERROR:"@.len() as int)))
    } else if starts_with_seq(t, "[download] Got error:"@) {
        Some(trim_ws(t.skip("[download] Got error:"@.len() as int)))
    } else if contains_seq(t, "yt_dlp.utils"@) {
        match find_seq(t, seq![':']) {
            Some(p) => Some(trim_ws(t.skip(p + 1))),
            None => None,
        }
    } else {
        None
    }
}

/// The message of the first error line among `ls`.
pub open spec fn primary_in_lines(ls: Seq<Seq<char>>) -> Option<Seq<char>>
    decreases ls.len(),
{
    if ls.len() == 0 {
        None
    } else {
        match primary_in_line(trim_ws(ls[0])) {
            Some(m) => Some(m),
            None => primary_in_lines(ls.drop_first()),
        }
    }
}

/// The first line of `ls` that is not blank, trimmed.
pub open spec fn first_nonblank(ls: Seq<Seq<char>>) -> Option<Seq<char>>
    decreases ls.len(),
{
    if ls.len() == 0 {
        None
    } else if trim_ws(ls[0]).len() > 0 {
        Some(trim_ws(ls[0]))
    } else {
        first_nonblank(ls.drop_first())
    }
}

/// The primary error message of an error output: the first `ERROR:` line or similar,
/// else the first non-blank line.
pub open spec fn primary_error(stderr: Seq<char>) -> Option<Seq<char>> {
    match primary_in_lines(lines_of(stderr)) {
        Some(m) => Some(m),
        None => first_nonblank(lines_of(stderr)),
    }
}

/// The first word whose digit-trimmed form is a non-empty run of digits.
pub open spec fn code_in_words(ws: Seq<Seq<char>>) -> Option<Seq<char>>
    decreases ws.len(),
{
    if ws.len() == 0 {
        None
    } else if trim_nondigit(ws[0]).len() > 0 && all_digits(trim_nondigit(ws[0])) {
        Some(trim_nondigit(ws[0]))
    } else {
        code_in_words(ws.drop_first())
    }
}

/// The format code named after the word `format` on the first line that has one.
pub open spec fn format_code_in_lines(ls: Seq<Seq<char>>) -> Option<Seq<char>>
    decreases ls.len(),
{
    if ls.len() == 0 {
        None
    } else {
        let here = match find_seq(ls[0], "format"@) {
            Some(idx) => code_in_words(words_of(ls[0].skip(idx))),
            None => None,
        };
        match here {
            Some(c) => Some(c),
            None => format_code_in_lines(ls.drop_first()),
        }
    }
}

/// The format code mentioned by an error output.
pub open spec fn format_code(stderr: Seq<char>) -> Option<Seq<char>> {
    format_code_in_lines(lines_of(stderr))
}

/// `primary_error` with a default.
pub open spec fn primary_or(stderr: Seq<char>, default: Seq<char>) -> Seq<char> {
    match primary_error(stderr) {
        Some(m) => m,
        None => default,
    }
}

/// The category of an error output whose lowercase mapping is `lower`.
pub open spec fn classification(stderr: Seq<char>, lower: Seq<char>) -> FailureView {
    if permanent_marker(lower) {
        FailureView::Permanent(
            primary_or(stderr, "Media is permanently unavailable, private, or restricted"@),
        )
    } else if format_marker(lower) {
        FailureView::FormatUnavailable(
            format_code(stderr),
            primary_or(stderr, "Requested format is not available on this stream"@),
        )
    } else if bot_marker(lower) {
        FailureView::BotBlockOrExtractor(
            primary_or(stderr, "Anti-bot challenge or rate limit triggered"@),
        )
    } else if transient_marker(lower) {
        FailureView::Transient(primary_or(stderr, "Transient network timeout or server error"@))
    } else if ffmpeg_marker(lower) {
        FailureView::FFmpegProcessing(primary_or(stderr, "FFmpeg post-processing / remuxing failed"@))
    } else {
        FailureView::Unknown(primary_or(stderr, trim_ws(stderr)))
    }
}

/// A retry can help: transient errors, unavailable formats and anti-bot blocks.
pub open spec fn retryable(v: FailureView) -> bool {
    v is Transient || v is FormatUnavailable || v is BotBlockOrExtractor
}

fn primary_of_line(t: &[char]) -> (r: Option<Vec<char>>)
    ensures
        match r {
            Some(m) => primary_in_line(t@) == Some(m@),
            None => primary_in_line(t@) is None,
        },
{
    if let Some(rest) = strip_prefix(t, "ERROR:") {
        return Some(trim(&rest));
    }
    if let Some(rest) = strip_prefix(t, "[download] Got error:") {
        return Some(trim(&rest));
    }
    if contains_str(t, "yt_dlp.utils") {
        let colon = [':'];
        assert(colon@ =~= seq![':']);
        if let Some(pos) = find(t, &colon) {
            assert(match_at(t@, colon@, pos as int));
            assert(colon@.len() == 1);
            assert(pos + 1 <= t@.len());
            assert(t@.len() == t.len());
            let rest = sub_chars(t, pos + 1, t.len());
            assert(rest@ =~= t@.skip(pos + 1));
            return Some(trim(&rest));
        }
    }
    None
}

proof fn lemma_skip_first<T>(ls: Seq<T>, i: int)
    requires
        0 <= i < ls.len(),
    ensures
        ls.skip(i).drop_first() == ls.skip(i + 1),
        ls.skip(i)[0] == ls[i],
{
    assert(ls.skip(i).drop_first() =~= ls.skip(i + 1));
}

impl FailureCategory {
    /// The primary error message of an error output (first `ERROR:` line, a
    /// `[download] Got error:` line or a `yt_dlp.utils` line; else the first
    /// non-blank line).
    pub fn extract_primary_error(stderr: &str) -> (r: Option<String>)
        ensures
            opt_view(r) == primary_error(stderr@),
    {
        let s = chars_of(stderr);
        let ls = lines(&s);
        let ghost lv = views(ls@);
        let mut i: usize = 0;
        assert(lv.skip(0) =~= lv);
        while i < ls.len()
            invariant
                i <= ls.len(),
                lv == views(ls@),
                lv == lines_of(stderr@),
                primary_in_lines(lv.skip(i as int)) == primary_in_lines(lv),
            decreases ls.len() - i,
        {
            let t = trim(&ls[i]);
            proof { lemma_skip_first(lv, i as int); }
            match primary_of_line(&t) {
                Some(m) => {
                    return Some(string_of(&m));
                },
                None => {},
            }
            i = i + 1;
        }
        assert(primary_in_lines(lv) is None);
        let mut j: usize = 0;
        while j < ls.len()
            invariant
                j <= ls.len(),
                lv == views(ls@),
                lv == lines_of(stderr@),
                primary_in_lines(lv) is None,
                first_nonblank(lv.skip(j as int)) == first_nonblank(lv),
            decreases ls.len() - j,
        {
            let t = trim(&ls[j]);
            proof { lemma_skip_first(lv, j as int); }
            if t.len() > 0 {
                return Some(string_of(&t));
            }
            j = j + 1;
        }
        None
    }

    /// The first numeric format code named after `format` in an error output.
    pub fn extract_format_code(stderr: &str) -> (r: Option<String>)
        ensures
            opt_view(r) == format_code(stderr@),
    {
        let s = chars_of(stderr);
        let ls = lines(&s);
        let ghost lv = views(ls@);
        let mut i: usize = 0;
        assert(lv.skip(0) =~= lv);
        while i < ls.len()
            invariant
                i <= ls.len(),
                lv == views(ls@),
                lv == lines_of(stderr@),
                format_code_in_lines(lv.skip(i as int)) == format_code_in_lines(lv),
            decreases ls.len() - i,
        {
            let line = &ls[i];
            proof { lemma_skip_first(lv, i as int); }
            let fmt = chars_of("format");
            assert(line@ == lv[i as int]);
            if let Some(idx) = find(line, &fmt) {
                let slice = sub_chars(line, idx, line.len());
                assert(slice@ =~= lv[i as int].skip(idx as int));
                let ws = words(&slice);
                let ghost wv = views(ws@);
                let mut k: usize = 0;
                assert(wv.skip(0) =~= wv);
                while k < ws.len()
                    invariant
                        k <= ws.len(),
                        i < lv.len(),
                        lv == lines_of(stderr@),
                        wv == views(ws@),
                        wv == words_of(lv[i as int].skip(idx as int)),
                        find_seq(lv[i as int], "format"@) == Some(idx as int),
                        format_code_in_lines(lv.skip(i as int)) == format_code_in_lines(lv),
                        lv.skip(i as int)[0] == lv[i as int],
                        lv.skip(i as int).drop_first() == lv.skip(i + 1),
                        code_in_words(wv.skip(k as int)) == code_in_words(wv),
                    decreases ws.len() - k,
                {
                    proof { lemma_skip_first(wv, k as int); }
                    let cleaned = trim_non_digits(&ws[k]);
                    if cleaned.len() > 0 && is_all_digits(&cleaned) {
                        proof {
                            assert(wv[k as int] == ws@[k as int]@);
                            assert(code_in_words(wv.skip(k as int)) == Some(cleaned@));
                            assert(code_in_words(wv) == Some(cleaned@));
                            assert(format_code_in_lines(lv.skip(i as int)) == Some(cleaned@));
                        }
                        return Some(string_of(&cleaned));
                    }
                    k = k + 1;
                }
            }
            i = i + 1;
        }
        None
    }

    /// Categorizes an error output whose lowercase mapping is `lowered`.
    pub fn classify_lowered(stderr: &str, lowered: &str) -> (r: Self)
        ensures
            r@ == classification(stderr@, lowered@),
    {
        let l = chars_of(lowered);
        if contains_str(&l, "video unavailable") || contains_str(&l, "this video has been removed")
            || contains_str(&l, "private video") || contains_str(&l, "this video is private")
            || contains_str(&l, "copyright claim") || contains_str(&l, "account has been terminated")
            || contains_str(&l, "geo-restricted") || contains_str(&l, "not available in your country")
            || contains_str(&l, "confirm your age") || contains_str(&l, "sign in to confirm your age")
            || contains_str(&l, "members-only content") || contains_str(&l, "is not a valid url") {
            let reason = match Self::extract_primary_error(stderr) {
                Some(m) => m,
                None => "Media is permanently unavailable, private, or restricted".to_owned(),
            };
            return FailureCategory::Permanent { reason };
        }
        if (contains_str(&l, "format") || contains_str(&l, "formats")) && (contains_str(
            &l,
            "not available",
        ) || contains_str(&l, "unavailable") || contains_str(&l, "no video formats found")
            || contains_str(&l, "could not find format")) {
            let requested = Self::extract_format_code(stderr);
            let details = match Self::extract_primary_error(stderr) {
                Some(m) => m,
                None => "Requested format is not available on this stream".to_owned(),
            };
            return FailureCategory::FormatUnavailable { requested, details };
        }
        if contains_str(&l, "sign in to confirm you're not a bot") || contains_str(&l, "bot detection")
            || contains_str(&l, "http error 429") || contains_str(&l, "too many requests")
            || contains_str(&l, "http error 403") || contains_str(&l, "forbidden")
            || contains_str(&l, "blocked by cloudflare") {
            let reason = match Self::extract_primary_error(stderr) {
                Some(m) => m,
                None => "Anti-bot challenge or rate limit triggered".to_owned(),
            };
            return FailureCategory::BotBlockOrExtractor { reason };
        }
        if contains_str(&l, "timed out") || contains_str(&l, "connection reset") || contains_str(
            &l,
            "network is unreachable",
        ) || contains_str(&l, "temporary failure in name resolution") || has_server_error(&l)
            || contains_str(&l, "incompleteread")
            || contains_str(&l, "connection refused") || contains_str(&l, "read timed out")
            || contains_str(&l, "remote end closed connection") {
            let reason = match Self::extract_primary_error(stderr) {
                Some(m) => m,
                None => "Transient network timeout or server error".to_owned(),
            };
            return FailureCategory::Transient { reason };
        }
        if contains_str(&l, "ffmpeg: error") || contains_str(&l, "conversion failed") || contains_str(
            &l,
            "postprocessing: error",
        ) || contains_str(&l, "postprocessing failed") || contains_str(&l, "failed to merge formats") {
            let reason = match Self::extract_primary_error(stderr) {
                Some(m) => m,
                None => "FFmpeg post-processing / remuxing failed".to_owned(),
            };
            return FailureCategory::FFmpegProcessing { reason };
        }
        let reason = match Self::extract_primary_error(stderr) {
            Some(m) => m,
            None => {
                let s = chars_of(stderr);
                string_of(&trim(&s))
            },
        };
        FailureCategory::Unknown(reason)
    }

    /// Parses the error output of yt-dlp/ffmpeg and categorizes the failure.
    pub fn classify(stderr: &str) -> (r: Self)
        ensures
            r@ == classification(stderr@, lowercase(stderr@)),
    {
        let lowered = to_lowercase(stderr);
        Self::classify_lowered(stderr, lowered.as_str())
    }

    /// Whether a retry can help.
    pub fn is_retryable(&self) -> (r: bool)
        ensures
            r == retryable(self@),
    {
        match self {
            FailureCategory::Transient { .. } => true,
            FailureCategory::FormatUnavailable { .. } => true,
            FailureCategory::BotBlockOrExtractor { .. } => true,
            _ => false,
        }
    }
}

/// A failure category together with the recovery action taken for it.
#[derive(Debug, Clone)]
pub struct DiagnosticReport {
    pub category: FailureCategory,
    pub fallback_action: Option<String>,
}

/// The one-line summary of a failure category.
pub open spec fn report_line(v: FailureView) -> Seq<char> {
    match v {
        FailureView::Transient(r) => "Transient Network Error: "@ + r,
        FailureView::FormatUnavailable(req, d) => match req {
            Some(q) => "Format Unavailable ("@ + q + "): "@ + d,
            None => "Format Unavailable: "@ + d,
        },
        FailureView::BotBlockOrExtractor(r) => "Anti-Bot/Rate-Limit: "@ + r,
        FailureView::FFmpegProcessing(r) => "FFmpeg Error: "@ + r,
        FailureView::Permanent(r) => "Permanent Error: "@ + r,
        FailureView::Unknown(r) => "Error: "@ + r,
    }
}

impl DiagnosticReport {
    /// A report for `category` with an optional recovery action.
    pub fn new(category: FailureCategory, fallback_action: Option<String>) -> (r: Self)
        ensures
            r.category == category,
            r.fallback_action == fallback_action,
    {
        Self { category, fallback_action }
    }

    /// The one-line summary of the report (what `Display` prints).
    pub fn to_string(&self) -> (s: String)
        ensures
            s@ == report_line(self.category@),
    {
        let mut out: Vec<char> = Vec::new();
        match &self.category {
            FailureCategory::Transient { reason } => {
                append_str(&mut out, "Transient Network Error: ");
                append_str(&mut out, reason.as_str());
            },
            FailureCategory::FormatUnavailable { requested, details } => {
                match requested {
                    Some(req) => {
                        append_str(&mut out, "Format Unavailable (");
                        append_str(&mut out, req.as_str());
                        append_str(&mut out, "): ");
                    },
                    None => {
                        append_str(&mut out, "Format Unavailable: ");
                    },
                }
                append_str(&mut out, details.as_str());
            },
            FailureCategory::BotBlockOrExtractor { reason } => {
                append_str(&mut out, "Anti-Bot/Rate-Limit: ");
                append_str(&mut out, reason.as_str());
            },
            FailureCategory::FFmpegProcessing { reason } => {
                append_str(&mut out, "FFmpeg Error: ");
                append_str(&mut out, reason.as_str());
            },
            FailureCategory::Permanent { reason } => {
                append_str(&mut out, "Permanent Error: ");
                append_str(&mut out, reason.as_str());
            },
            FailureCategory::Unknown(reason) => {
                append_str(&mut out, "Error: ");
                append_str(&mut out, reason.as_str());
            },
        }
        string_of(&out)
    }
}

/// A line of a report box: newlines become spaces and the text is cut to `max_len`
/// characters, ending in `...` when cut.
pub fn truncate_str(s: &str, max_len: usize) -> (r: String)
    ensures
        r@ == truncated(replace_char(s@, '\n', ' '), max_len as nat),
{
    let cs = chars_of(s);
    let clean = replace_chars(&cs, '\n', ' ');
    string_of(&truncate_chars(&clean, max_len))
}

/// `2^n`.
pub open spec fn pow2(n: nat) -> nat
    decreases n,
{
    if n == 0 {
        1
    } else {
        2 * pow2((n - 1) as nat)
    }
}

/// The exponential backoff delay before retry `attempt`: `base * 2^(attempt - 1)`
/// (`2^0` for attempt 0), or `None` when it does not fit in 64 bits.
pub fn backoff_delay_secs(attempt: u32, base_delay_secs: u64) -> (r: Option<u64>)
    ensures
        match r {
            Some(d) => d == base_delay_secs * pow2(if attempt > 0 { (attempt - 1) as nat } else { 0 }),
            None => base_delay_secs * pow2(if attempt > 0 { (attempt - 1) as nat } else { 0 }) > u64::MAX,
        },
{
    let e: u32 = if attempt > 0 { attempt - 1 } else { 0 };
    let mut factor: u64 = 1;
    let mut k: u32 = 0;
    while k < e
        invariant
            k <= e,
            e == (if attempt > 0 { (attempt - 1) as u32 } else { 0u32 }),
            factor == pow2(k as nat),
        decreases e - k,
    {
        if factor > u64::MAX / 2 {
            proof { lemma_pow2_grows(k as nat, e as nat); }
            if base_delay_secs == 0 {
                return Some(0);
            }
            assert(base_delay_secs * pow2(e as nat) >= pow2(e as nat)) by (nonlinear_arith)
                requires base_delay_secs >= 1;
            assert(pow2(e as nat) >= 2 * factor);
            assert(e as nat == (if attempt > 0 { (attempt - 1) as nat } else { 0 }));
            return None;
        }
        factor = factor * 2;
        k = k + 1;
    }
    match base_delay_secs.checked_mul(factor) {
        Some(d) => Some(d),
        None => None,
    }
}

proof fn lemma_pow2_grows(k: nat, e: nat)
    requires
        k < e,
    ensures
        pow2(e) >= 2 * pow2(k),
    decreases e - k,
{
    if k + 1 < e {
        lemma_pow2_grows(k + 1, e);
    }
    assert(pow2(k + 1) == 2 * pow2(k));
    lemma_pow2_mono(k + 1, e);
}

proof fn lemma_pow2_mono(a: nat, b: nat)
    requires
        a <= b,
    ensures
        pow2(a) <= pow2(b),
    decreases b - a,
{
    if a < b {
        lemma_pow2_mono(a, (b - 1) as nat);
    }
}

/// A labelled row of the diagnostic box: the value cleaned and cut to `width` characters,
/// then padded to it.
pub open spec fn box_row(label: Seq<char>, value: Seq<char>, width: nat) -> Seq<char> {
    label + pad_right(truncated(replace_char(value, '\n', ' '), width), width) + "║"@
}

/// The action row of the diagnostic box, when the report has an action.
pub open spec fn action_rows(label: Seq<char>, action: Option<Seq<char>>) -> Seq<Seq<char>> {
    match action {
        Some(a) => seq![box_row(label, a, 39)],
        None => seq![],
    }
}

/// The rows that describe a failure in the diagnostic box.
pub open spec fn category_rows(v: FailureView, action: Option<Seq<char>>) -> Seq<Seq<char>> {
    match v {
        FailureView::Transient(r) => seq!["║ Type    : Transient Network Error                ║"@, box_row(
            "║ Reason  : "@,
            r,
            39,
        )] + action_rows("║ Action  : "@, action),
        FailureView::FormatUnavailable(req, d) => seq!["║ Type    : Requested Format Unavailable           ║"@]
            + match req {
            Some(q) => seq![box_row("║ Format  : Code "@, q, 34)],
            None => seq![],
        } + seq![box_row("║ Details : "@, d, 39)] + action_rows("║ Fallback: "@, action),
        FailureView::BotBlockOrExtractor(r) => seq![
            "║ Type    : Anti-Bot Challenge / Rate Limit        ║"@,
            box_row("║ Reason  : "@, r, 39)
        ] + action_rows("║ Action  : "@, action),
        FailureView::FFmpegProcessing(r) => seq![
            "║ Type    : FFmpeg Processing Error                ║"@,
            box_row("║ Reason  : "@, r, 39)
        ] + action_rows("║ Action  : "@, action),
        FailureView::Permanent(r) => seq![
            "║ Type    : Permanent Error (Unrecoverable)        ║"@,
            box_row("║ Reason  : "@, r, 39),
            "║ Action  : Skipping item without retry            ║"@
        ],
        FailureView::Unknown(r) => seq![
            "║ Type    : Unclassified Download Error            ║"@,
            box_row("║ Reason  : "@, r, 39)
        ] + action_rows("║ Action  : "@, action),
    }
}

fn push_box_row(v: &mut Vec<String>, label: &str, value: &str, width: usize)
    ensures
        string_views(final(v)@) == string_views(old(v)@).push(box_row(label@, value@, width as nat)),
{
    let mut row = chars_of(label);
    let t = truncate_str(value, width);
    append_chars(&mut row, &pad_right_chars(&chars_of(t.as_str()), width));
    append_str(&mut row, "║");
    let r = string_of(&row);
    push_text_if(v, true, r.as_str());
}

fn push_action_row(v: &mut Vec<String>, label: &str, action: &Option<String>)
    ensures
        string_views(final(v)@) == string_views(old(v)@) + action_rows(label@, opt_view(*action)),
{
    let ghost start = string_views(v@);
    match action {
        Some(a) => push_box_row(v, label, a.as_str(), 39),
        None => {},
    }
    assert(string_views(v@) =~= start + action_rows(label@, opt_view(*action)));
}

impl DiagnosticReport {
    /// The lines of the boxed report shown to the user.
    pub open spec fn block_text(self) -> Seq<Seq<char>> {
        seq!["\n╔══════════════════════════════════════════════════╗"@, "║            ⚠️  DIAGNOSTIC & RECOVERY             ║"@, "╠══════════════════════════════════════════════════╣"@] + category_rows(self.category@, opt_view(self.fallback_action))
            + seq!["╚══════════════════════════════════════════════════╝\n"@]
    }

    /// The lines of the boxed report, to be printed one per line.
    pub fn block_lines(&self) -> (r: Vec<String>)
        ensures
            string_views(r@) == self.block_text(),
    {
        let mut v: Vec<String> = Vec::new();
        push_text_if(&mut v, true, "\n╔══════════════════════════════════════════════════╗");
        push_text_if(&mut v, true, "║            ⚠️  DIAGNOSTIC & RECOVERY             ║");
        push_text_if(&mut v, true, "╠══════════════════════════════════════════════════╣");
        let ghost head = string_views(v@);
        match &self.category {
            FailureCategory::Transient { reason } => {
                push_text_if(&mut v, true, "║ Type    : Transient Network Error                ║");
                push_box_row(&mut v, "║ Reason  : ", reason.as_str(), 39);
                push_action_row(&mut v, "║ Action  : ", &self.fallback_action);
            },
            FailureCategory::FormatUnavailable { requested, details } => {
                push_text_if(&mut v, true, "║ Type    : Requested Format Unavailable           ║");
                match requested {
                    Some(q) => push_box_row(&mut v, "║ Format  : Code ", q.as_str(), 34),
                    None => {},
                }
                push_box_row(&mut v, "║ Details : ", details.as_str(), 39);
                push_action_row(&mut v, "║ Fallback: ", &self.fallback_action);
            },
            FailureCategory::BotBlockOrExtractor { reason } => {
                push_text_if(&mut v, true, "║ Type    : Anti-Bot Challenge / Rate Limit        ║");
                push_box_row(&mut v, "║ Reason  : ", reason.as_str(), 39);
                push_action_row(&mut v, "║ Action  : ", &self.fallback_action);
            },
            FailureCategory::FFmpegProcessing { reason } => {
                push_text_if(&mut v, true, "║ Type    : FFmpeg Processing Error                ║");
                push_box_row(&mut v, "║ Reason  : ", reason.as_str(), 39);
                push_action_row(&mut v, "║ Action  : ", &self.fallback_action);
            },
            FailureCategory::Permanent { reason } => {
                push_text_if(&mut v, true, "║ Type    : Permanent Error (Unrecoverable)        ║");
                push_box_row(&mut v, "║ Reason  : ", reason.as_str(), 39);
                push_text_if(&mut v, true, "║ Action  : Skipping item without retry            ║");
            },
            FailureCategory::Unknown(reason) => {
                push_text_if(&mut v, true, "║ Type    : Unclassified Download Error            ║");
                push_box_row(&mut v, "║ Reason  : ", reason.as_str(), 39);
                push_action_row(&mut v, "║ Action  : ", &self.fallback_action);
            },
        }
        assert(string_views(v@) =~= head + category_rows(self.category@, opt_view(self.fallback_action)));
        push_text_if(&mut v, true, "╚══════════════════════════════════════════════════╝\n");
        assert(string_views(v@) =~= self.block_text());
        v
    }
}

/// An error text whose lowercase form names an anti-bot challenge, a rate limit
/// (HTTP 429, too many requests), an HTTP 403 / "forbidden" answer or a Cloudflare block,
/// and holds none of the permanent or format-unavailable markers, is an anti-bot block,
/// which a retry with another client can help.
pub proof fn bot_markers_mean_bot_block(stderr: Seq<char>, lower: Seq<char>)
    requires
        contains_seq(lower, "sign in to confirm you're not a bot"@) ||
        contains_seq(lower, "bot detection"@) ||
        contains_seq(lower, "http error 429"@) ||
        contains_seq(lower, "too many requests"@) ||
        contains_seq(lower, "http error 403"@) ||
        contains_seq(lower, "forbidden"@) ||
        contains_seq(lower, "blocked by cloudflare"@),
        !contains_seq(lower, "video unavailable"@),
        !contains_seq(lower, "this video has been removed"@),
        !contains_seq(lower, "private video"@),
        !contains_seq(lower, "this video is private"@),
        !contains_seq(lower, "copyright claim"@),
        !contains_seq(lower, "account has been terminated"@),
        !contains_seq(lower, "geo-restricted"@),
        !contains_seq(lower, "not available in your country"@),
        !contains_seq(lower, "confirm your age"@),
        !contains_seq(lower, "sign in to confirm your age"@),
        !contains_seq(lower, "members-only content"@),
        !contains_seq(lower, "is not a valid url"@),
        !((contains_seq(lower, "format"@) || contains_seq(lower, "formats"@)) && (contains_seq(
            lower,
            "not available"@,
        ) || contains_seq(lower, "unavailable"@) || contains_seq(lower, "no video formats found"@)
            || contains_seq(lower, "could not find format"@))),
    ensures
        classification(stderr, lower) is BotBlockOrExtractor,
        retryable(classification(stderr, lower)),
{
}

/// An error text whose lowercase form names a removed, private, geo-blocked, claimed,
/// age-gated or members-only video, a terminated account or an invalid URL is a
/// permanent failure, whatever else it says, and no retry is made for it.
pub proof fn permanent_markers_mean_permanent(stderr: Seq<char>, lower: Seq<char>)
    requires
        contains_seq(lower, "video unavailable"@) ||
        contains_seq(lower, "this video has been removed"@) ||
        contains_seq(lower, "private video"@) ||
        contains_seq(lower, "this video is private"@) ||
        contains_seq(lower, "copyright claim"@) ||
        contains_seq(lower, "account has been terminated"@) ||
        contains_seq(lower, "geo-restricted"@) ||
        contains_seq(lower, "not available in your country"@) ||
        contains_seq(lower, "confirm your age"@) ||
        contains_seq(lower, "sign in to confirm your age"@) ||
        contains_seq(lower, "members-only content"@) ||
        contains_seq(lower, "is not a valid url"@),
    ensures
        classification(stderr, lower) is Permanent,
        !retryable(classification(stderr, lower)),
{
}

} // verus!
