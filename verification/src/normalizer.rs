//! Cleaning of titles, artist names and file names, and the normalized media profile.

use vstd::prelude::*;
use crate::metadata::{offered_height, VideoMetadata};
use crate::orientation::Orientation;
use crate::preset::Preset;
use crate::quality::QualityPreference;
use crate::recovery::opt_view;
use crate::scheduler::{platform_of, PlatformCategory, ScheduledPlan};
use crate::text::{
    decimal, decimal_chars, lowercase, concat_str, pad_right, pad_right_chars, push_text_if,
    string_views, truncated, truncate_chars,
    append_chars, append_str, chars_of, collapse_double_spaces, collapse_spaces, cut, cut_chars,
    find_lower, lower_match, lowercase_chars, string_of, strip_prefix, sub_chars, trim,
    trim_end_in, trim_end_set, trim_start_in, trim_start_set, trim_ws, views, ends_with_seq,
    trim_start_ws, trim_end_ws,
    ends_with,
};

verus! {

/// The noise tags removed from video titles, matched case-insensitively, in the order tried.
pub open spec fn title_noise_patterns() -> Seq<Seq<char>> {
    seq![
        "(official music video)"@,
        "[official music video]"@,
        "(official video)"@,
        "[official video]"@,
        "(official mv)"@,
        "[official mv]"@,
        "(official m/v)"@,
        "[official m/v]"@,
        "(official audio)"@,
        "[official audio]"@,
        "(performance video)"@,
        "[performance video]"@,
        "(visualizer)"@,
        "[visualizer]"@,
        "(lyric video)"@,
        "[lyric video]"@,
        "(lyrics video)"@,
        "[lyrics video]"@,
        "(color coded lyrics)"@,
        "[color coded lyrics]"@,
        "(audio)"@,
        "[audio]"@,
        "(mv)"@,
        "[mv]"@,
        "(m/v)"@,
        "[m/v]"@,
        "- official video"@,
        "- official audio"@,
        "(remastered)"@,
        "[remastered]"@,
        "(4k remaster)"@,
        "[4k remaster]"@,
        "- remastered"@
    ]
}

fn title_noise_pattern_chars() -> (v: Vec<Vec<char>>)
    ensures
        views(v@) == title_noise_patterns(),
{
    let mut v: Vec<Vec<char>> = Vec::new();
    v.push(chars_of("(official music video)"));
    v.push(chars_of("[official music video]"));
    v.push(chars_of("(official video)"));
    v.push(chars_of("[official video]"));
    v.push(chars_of("(official mv)"));
    v.push(chars_of("[official mv]"));
    v.push(chars_of("(official m/v)"));
    v.push(chars_of("[official m/v]"));
    v.push(chars_of("(official audio)"));
    v.push(chars_of("[official audio]"));
    v.push(chars_of("(performance video)"));
    v.push(chars_of("[performance video]"));
    v.push(chars_of("(visualizer)"));
    v.push(chars_of("[visualizer]"));
    v.push(chars_of("(lyric video)"));
    v.push(chars_of("[lyric video]"));
    v.push(chars_of("(lyrics video)"));
    v.push(chars_of("[lyrics video]"));
    v.push(chars_of("(color coded lyrics)"));
    v.push(chars_of("[color coded lyrics]"));
    v.push(chars_of("(audio)"));
    v.push(chars_of("[audio]"));
    v.push(chars_of("(mv)"));
    v.push(chars_of("[mv]"));
    v.push(chars_of("(m/v)"));
    v.push(chars_of("[m/v]"));
    v.push(chars_of("- official video"));
    v.push(chars_of("- official audio"));
    v.push(chars_of("(remastered)"));
    v.push(chars_of("[remastered]"));
    v.push(chars_of("(4k remaster)"));
    v.push(chars_of("[4k remaster]"));
    v.push(chars_of("- remastered"));
    assert(views(v@) =~= title_noise_patterns());
    v
}

/// The first noise pattern (in list order) found in the lowercase mapping of `s`: the
/// position and length of the characters of `s` its byte range covers.
pub open spec fn first_noise(s: Seq<char>, pats: Seq<Seq<char>>) -> Option<(int, int)>
    decreases pats.len(),
{
    if pats.len() == 0 {
        None
    } else {
        match lower_match(s, pats[0]) {
            Some((i, j)) => Some((i, j - i)),
            None => first_noise(s, pats.drop_first()),
        }
    }
}

/// `s` after removing noise tags until none is left.
pub open spec fn strip_noise(s: Seq<char>) -> Seq<char>
    decreases s.len(),
{
    match first_noise(s, title_noise_patterns()) {
        Some((p, l)) => if l > 0 && 0 <= p && p + l <= s.len() {
            strip_noise(cut(s, p, l))
        } else {
            s
        },
        None => s,
    }
}

/// Trailing separators removed from cleaned titles.
pub open spec fn title_tail_separators() -> Seq<char> {
    seq!['-', '_', '|', ':', ' ']
}

/// The cleaned form of a video title: noise tags removed, trimmed, trailing separators
/// removed, runs of spaces collapsed; the trimmed title itself when nothing is left.
pub open spec fn cleaned_title(title: Seq<char>) -> Seq<char> {
    let c = collapse_spaces(trim_ws(trim_end_set(trim_ws(strip_noise(trim_ws(title))), title_tail_separators())));
    if c.len() == 0 {
        trim_ws(title)
    } else {
        c
    }
}

/// The cleaned form of an uploader name: a trailing `- Topic` (hyphen or en dash) removed.
pub open spec fn cleaned_artist(artist: Seq<char>) -> Seq<char> {
    let t = trim_ws(artist);
    if ends_with_seq(t, "- Topic"@) {
        trim_ws(t.take(t.len() - "- Topic"@.len()))
    } else if ends_with_seq(t, "– Topic"@) {
        trim_ws(t.take(t.len() - "– Topic"@.len()))
    } else {
        t
    }
}

/// Characters that file systems forbid; each becomes `_`.
pub open spec fn forbidden_in_filename(c: char) -> bool {
    c == '/' || c == '\\' || c == ':' || c == '*' || c == '?' || c == '"' || c == '<' || c == '>' || c == '|'
}

/// A name with forbidden characters replaced by `_` and control characters dropped.
pub open spec fn filename_chars(name: Seq<char>) -> Seq<char>
    decreases name.len(),
{
    if name.len() == 0 {
        seq![]
    } else {
        let c = name.last();
        let rest = filename_chars(name.drop_last());
        if forbidden_in_filename(c) {
            rest.push('_')
        } else if '\0' <= c <= '\x1f' {
            rest
        } else {
            rest.push(c)
        }
    }
}

/// The base of a sanitized file name: trimmed, without trailing dots and spaces, at most
/// 200 characters, `media` when empty.
pub open spec fn filename_base(name: Seq<char>) -> Seq<char> {
    let t = trim_end_set(trim_ws(filename_chars(name)), seq!['.', ' ']);
    if t.len() == 0 {
        "media"@
    } else {
        t.take(if t.len() < 200 { t.len() as int } else { 200 })
    }
}

/// The sanitized file name `base.ext` (just `base` without an extension).
pub open spec fn sanitized_filename(name: Seq<char>, ext: Seq<char>) -> Seq<char> {
    if ext.len() == 0 {
        filename_base(name)
    } else {
        filename_base(name) + "."@ + trim_start_set(ext, seq!['.'])
    }
}

/// Cleans noisy media titles and names.
pub struct MetadataNormalizer;

fn find_first_noise(s: &[char], pats: &Vec<Vec<char>>) -> (r: Option<(usize, usize)>)
    ensures
        match r {
            Some((p, l)) => first_noise(s@, views(pats@)) == Some((p as int, l as int))
                && p + l <= s@.len(),
            None => first_noise(s@, views(pats@)) is None,
        },
{
    let lower = lowercase_chars(s);
    let ghost pv = views(pats@);
    let mut k: usize = 0;
    assert(pv.skip(0) =~= pv);
    while k < pats.len()
        invariant
            k <= pats.len(),
            pv == views(pats@),
            lower@ == crate::text::lowercase(s@),
            first_noise(s@, pv.skip(k as int)) == first_noise(s@, pv),
        decreases pats.len() - k,
    {
        assert(pv.skip(k as int)[0] == pats@[k as int]@);
        assert(pv.skip(k as int).drop_first() =~= pv.skip(k + 1));
        match find_lower(s, &lower, &pats[k]) {
            Some((i, j)) => {
                return Some((i, j - i));
            },
            None => {},
        }
        k = k + 1;
    }
    None
}

impl MetadataNormalizer {
    /// Cleans a noisy video title (removes "(Official MV)", "[Visualizer]" and similar tags,
    /// trailing separators and repeated spaces).
    pub fn clean_title(title: &str) -> (r: String)
        ensures
            r@ == cleaned_title(title@),
    {
        let original = trim(&chars_of(title));
        let pats = title_noise_pattern_chars();
        let mut cleaned = sub_chars(&original, 0, original.len());
        assert(cleaned@ =~= trim_ws(title@));
        loop
            invariant
                views(pats@) == title_noise_patterns(),
                strip_noise(cleaned@) == strip_noise(trim_ws(title@)),
            ensures
                strip_noise(cleaned@) == strip_noise(trim_ws(title@)),
                strip_noise(cleaned@) == cleaned@,
            decreases cleaned.len(),
        {
            match find_first_noise(&cleaned, &pats) {
                Some((p, l)) => {
                    if l > 0 {
                        cleaned = cut_chars(&cleaned, p, l);
                    } else {
                        break;
                    }
                },
                None => {
                    break;
                },
            }
        }
        let t1 = trim(&cleaned);
        let t2 = trim_end_in(&t1, &['-', '_', '|', ':', ' ']);
        proof {
            assert([ '-', '_', '|', ':', ' ' ]@ =~= title_tail_separators());
        }
        let t3 = trim(&t2);
        let c = collapse_double_spaces(&t3);
        if c.len() == 0 {
            string_of(&original)
        } else {
            string_of(&c)
        }
    }

    /// Cleans an uploader or artist name (removes a trailing `- Topic`).
    pub fn clean_artist(artist: &str) -> (r: String)
        ensures
            r@ == cleaned_artist(artist@),
    {
        let t = trim(&chars_of(artist));
        let dash = chars_of("- Topic");
        let en_dash = chars_of("– Topic");
        if ends_with(&t, "- Topic") {
            let s = sub_chars(&t, 0, t.len() - dash.len());
            assert(s@ =~= t@.take(t@.len() - "- Topic"@.len()));
            string_of(&trim(&s))
        } else if ends_with(&t, "– Topic") {
            let s = sub_chars(&t, 0, t.len() - en_dash.len());
            assert(s@ =~= t@.take(t@.len() - "– Topic"@.len()));
            string_of(&trim(&s))
        } else {
            string_of(&t)
        }
    }

    /// Makes a file name valid on Windows, Linux and macOS and appends the extension.
    pub fn sanitize_filename(name: &str, ext: &str) -> (r: String)
        ensures
            r@ == sanitized_filename(name@, ext@),
    {
        let n = chars_of(name);
        let mut clean: Vec<char> = Vec::new();
        let mut i: usize = 0;
        assert(n@.take(0) =~= Seq::<char>::empty());
        while i < n.len()
            invariant
                i <= n.len(),
                clean@ == filename_chars(n@.take(i as int)),
            decreases n.len() - i,
        {
            let ch = n[i];
            assert(n@.take(i + 1).drop_last() =~= n@.take(i as int));
            if ch == '/' || ch == '\\' || ch == ':' || ch == '*' || ch == '?' || ch == '"' || ch == '<'
                || ch == '>' || ch == '|' {
                clean.push('_');
            } else if '\0' <= ch && ch <= '\x1f' {
            } else {
                clean.push(ch);
            }
            i = i + 1;
        }
        assert(n@.take(n.len() as int) =~= n@);
        let t = trim(&clean);
        let trimmed = trim_end_in(&t, &['.', ' ']);
        proof {
            assert([ '.', ' ' ]@ =~= seq!['.', ' ']);
        }
        let mut base: Vec<char> = if trimmed.len() == 0 {
            chars_of("media")
        } else {
            let keep = if trimmed.len() < 200 { trimmed.len() } else { 200 };
            let b = sub_chars(&trimmed, 0, keep);
            assert(b@ =~= trimmed@.take(keep as int));
            b
        };
        let e = chars_of(ext);
        if e.len() == 0 {
            string_of(&base)
        } else {
            let clean_ext = trim_start_in(&e, &['.']);
            proof {
                assert([ '.' ]@ =~= seq!['.']);
            }
            append_str(&mut base, ".");
            append_chars(&mut base, &clean_ext);
            string_of(&base)
        }
    }
}

/// The profile of a media item that the download pipeline works from.
#[derive(Debug, Clone)]
pub struct NormalizedMetadata {
    pub platform: String,
    pub content_type: String,
    pub clean_title: String,
    pub clean_artist: Option<String>,
    pub clean_album: Option<String>,
    pub orientation: Orientation,
    pub width: Option<u32>,
    pub height: Option<u32>,
    pub duration_secs: u64,
    pub duration_formatted: String,
    pub has_subtitles: bool,
    pub available_resolutions: Vec<u32>,
    pub sanitized_filename: String,
}

/// The short platform name of the normalized profile.
pub open spec fn platform_label(p: PlatformCategory) -> Seq<char> {
    match p {
        PlatformCategory::YouTube => "YouTube"@,
        PlatformCategory::YouTubeMusic => "YouTube Music"@,
        PlatformCategory::TikTok => "TikTok"@,
        PlatformCategory::Generic => "Generic"@,
    }
}

/// What kind of content a preset makes of an item with orientation `o`.
pub open spec fn content_label(extract_audio: bool, o: Orientation) -> Seq<char> {
    if extract_audio {
        "Music / Audio"@
    } else if o == Orientation::Vertical {
        "Shorts / Vertical Video"@
    } else {
        "Standard Video"@
    }
}

/// The extension of the files a preset writes: its audio format (`opus` by default)
/// when it extracts audio, else its container.
pub open spec fn output_ext(p: Preset) -> Seq<char> {
    if p.extract_audio {
        match p.audio_format {
            Some(f) => f@,
            None => "opus"@,
        }
    } else {
        p.container@
    }
}

/// The duration in whole seconds, zero when unknown.
pub open spec fn whole_seconds(meta: VideoMetadata) -> u64 {
    match meta.duration {
        Some(d) => d.whole,
        None => 0,
    }
}

/// `r` lists the positive heights offered by the formats, each once, highest first.
pub open spec fn resolutions_listed(r: Seq<u32>, meta: VideoMetadata) -> bool {
    &&& forall|a: int, b: int| 0 <= a < b < r.len() ==> r[a] > r[b]
    &&& forall|h: u32| r.contains(h) <==> offered_height(meta.formats, h)
}

fn platform_label_str(p: PlatformCategory) -> (s: &'static str)
    ensures
        s@ == platform_label(p),
{
    match p {
        PlatformCategory::YouTube => "YouTube",
        PlatformCategory::YouTubeMusic => "YouTube Music",
        PlatformCategory::TikTok => "TikTok",
        PlatformCategory::Generic => "Generic",
    }
}

fn output_ext_str(p: &Preset) -> (s: &str)
    ensures
        s@ == output_ext(*p),
{
    if p.extract_audio {
        match &p.audio_format {
            Some(f) => f.as_str(),
            None => "opus",
        }
    } else {
        p.container.as_str()
    }
}

impl MetadataNormalizer {
    /// Normalizes raw metadata into the profile the pipeline works from.
    pub fn normalize(url: &str, meta: &VideoMetadata, preset: &Preset) -> (n: NormalizedMetadata)
        ensures
            n.platform@ == platform_label(platform_of(lowercase(url@))),
            n.content_type@ == content_label(preset.extract_audio, meta.orientation_spec()),
            n.clean_title@ == cleaned_title(meta.title@),
            opt_view(n.clean_artist) == match meta.uploader {
                Some(u) => Some(cleaned_artist(u@)),
                None => None::<Seq<char>>,
            },
            n.clean_album is None,
            n.orientation == meta.orientation_spec(),
            n.width == meta.width,
            n.height == meta.height,
            n.duration_secs == whole_seconds(*meta),
            n.duration_formatted@ == meta.duration_text(),
            n.has_subtitles == (meta.subtitles is Some || meta.automatic_captions is Some),
            resolutions_listed(n.available_resolutions@, *meta),
            n.sanitized_filename@ == sanitized_filename(cleaned_title(meta.title@), output_ext(*preset)),
    {
        let platform = platform_label_str(ScheduledPlan::detect_platform(url));
        let orientation = meta.orientation();
        let content_type = if preset.extract_audio {
            "Music / Audio"
        } else if orientation == Orientation::Vertical {
            "Shorts / Vertical Video"
        } else {
            "Standard Video"
        };
        let clean_title = Self::clean_title(meta.title.as_str());
        let clean_artist = match &meta.uploader {
            Some(u) => Some(Self::clean_artist(u.as_str())),
            None => None,
        };
        let sanitized_filename = Self::sanitize_filename(clean_title.as_str(), output_ext_str(preset));
        let duration_secs = match meta.duration {
            Some(d) => d.whole,
            None => 0,
        };
        NormalizedMetadata {
            platform: platform.to_owned(),
            content_type: content_type.to_owned(),
            clean_title,
            clean_artist,
            clean_album: None,
            orientation,
            width: meta.width,
            height: meta.height,
            duration_secs,
            duration_formatted: meta.format_duration(),
            has_subtitles: meta.subtitles.is_some() || meta.automatic_captions.is_some(),
            available_resolutions: meta.available_resolutions(),
            sanitized_filename,
        }
    }
}

/// An explanation of the policy, format and post-processing decisions for one item.
#[derive(Debug, Clone)]
pub struct DecisionTrace {
    pub platform: String,
    pub content_type: String,
    pub orientation: String,
    pub resolution: String,
    pub duration: String,
    pub policy_name: String,
    pub policy_rules: Vec<String>,
    pub selected_format_desc: Vec<String>,
    pub post_processing_steps: Vec<String>,
    pub output_filename: String,
    pub output_dir: Option<String>,
}

/// `WxH`, or `Unknown` when a dimension is missing.
pub open spec fn resolution_text(meta: VideoMetadata) -> Seq<char> {
    match (meta.width, meta.height) {
        (Some(w), Some(h)) => decimal(w as nat) + "x"@ + decimal(h as nat),
        _ => "Unknown"@,
    }
}

/// A line naming a height limit, when the preset has one.
pub open spec fn limit_rule(label: Seq<char>, limit: Option<u32>) -> Seq<Seq<char>> {
    match limit {
        Some(h) => seq![label + " = "@ + decimal(h as nat) + "p"@],
        None => seq![],
    }
}

/// The policy rules of a preset, as listed in the trace.
pub open spec fn policy_rules_of(p: Preset) -> Seq<Seq<char>> {
    seq!["Preset: "@ + p.name@] + limit_rule("max_horizontal"@, p.max_horizontal) + limit_rule(
        "max_vertical"@,
        p.max_vertical,
    ) + seq!["preferred = "@ + p.quality@]
}

/// The description of the selected format.
pub open spec fn format_desc_of(p: Preset, q: QualityPreference) -> Seq<Seq<char>> {
    if p.extract_audio {
        seq!["audio stream: 251/140/bestaudio"@, "codec: "@ + output_ext(p)]
    } else {
        seq!["selector: "@ + q.selector(), "container: "@ + p.container@]
    }
}

/// `seq![line]` when `cond` holds, else nothing.
pub open spec fn line_if(cond: bool, line: Seq<char>) -> Seq<Seq<char>> {
    if cond {
        seq![line]
    } else {
        seq![]
    }
}

/// The post-processing steps a preset asks for.
pub open spec fn post_steps_of(p: Preset) -> Seq<Seq<char>> {
    if p.extract_audio {
        seq!["ffmpeg audio extraction"@] + line_if(p.crop_thumbnail_square, "ffmpeg 1:1 square cover crop"@)
            + line_if(p.write_lyrics, "LRCLIB synced lyrics (.lrc sidecar)"@)
    } else {
        seq!["ffmpeg remux/merge to "@ + p.container@] + line_if(p.embed_metadata, "metadata embedding"@)
            + line_if(p.embed_thumbnail, "thumbnail embedding"@) + line_if(
            p.write_lyrics || p.sub_langs is Some,
            "subtitles → external .srt sidecar"@,
        )
    }
}

fn push_limit_rule(v: &mut Vec<String>, label: &str, limit: Option<u32>)
    ensures
        string_views(final(v)@) == string_views(old(v)@) + limit_rule(label@, limit),
{
    match limit {
        Some(h) => {
            let mut line = chars_of(label);
            append_str(&mut line, " = ");
            append_chars(&mut line, &decimal_chars(h as u64));
            append_str(&mut line, "p");
            let t = string_of(&line);
            push_text_if(v, true, t.as_str());
        },
        None => {
            push_text_if(v, false, label);
        },
    }
}

impl DecisionTrace {
    /// Builds the trace for an item, the preset applied to it, the effective quality and an
    /// output directory that overrides the preset's.
    pub fn build(
        url: &str,
        meta: &VideoMetadata,
        preset: &Preset,
        effective_quality: &QualityPreference,
        override_output_dir: Option<&str>,
    ) -> (t: Self)
        ensures
            t.platform@ == platform_label(platform_of(lowercase(url@))),
            t.content_type@ == content_label(preset.extract_audio, meta.orientation_spec()),
            t.orientation@ == meta.orientation_spec().display_text(),
            t.resolution@ == resolution_text(*meta),
            t.duration@ == meta.duration_text(),
            t.policy_name@ == preset.name@,
            string_views(t.policy_rules@) == policy_rules_of(*preset),
            string_views(t.selected_format_desc@) == format_desc_of(*preset, *effective_quality),
            string_views(t.post_processing_steps@) == post_steps_of(*preset),
            t.output_filename@ == sanitized_filename(cleaned_title(meta.title@), output_ext(*preset)),
            opt_view(t.output_dir) == match override_output_dir {
                Some(d) => Some(d@),
                None => opt_view(preset.output_dir),
            },
    {
        let norm = MetadataNormalizer::normalize(url, meta, preset);
        let resolution = match (meta.width, meta.height) {
            (Some(w), Some(h)) => {
                let mut r = decimal_chars(w as u64);
                append_str(&mut r, "x");
                append_chars(&mut r, &decimal_chars(h as u64));
                string_of(&r)
            },
            _ => "Unknown".to_owned(),
        };

        let mut policy_rules: Vec<String> = Vec::new();
        let first = concat_str("Preset: ", preset.name.as_str());
        push_text_if(&mut policy_rules, true, first.as_str());
        push_limit_rule(&mut policy_rules, "max_horizontal", preset.max_horizontal);
        push_limit_rule(&mut policy_rules, "max_vertical", preset.max_vertical);
        let preferred = concat_str("preferred = ", preset.quality.as_str());
        push_text_if(&mut policy_rules, true, preferred.as_str());
        assert(string_views(policy_rules@) =~= policy_rules_of(*preset));

        let mut selected_format_desc: Vec<String> = Vec::new();
        if preset.extract_audio {
            push_text_if(&mut selected_format_desc, true, "audio stream: 251/140/bestaudio");
            let codec = concat_str("codec: ", output_ext_str(preset));
            push_text_if(&mut selected_format_desc, true, codec.as_str());
        } else {
            let sel = effective_quality.to_format_selector();
            let line = concat_str("selector: ", sel.as_str());
            push_text_if(&mut selected_format_desc, true, line.as_str());
            let cont = concat_str("container: ", preset.container.as_str());
            push_text_if(&mut selected_format_desc, true, cont.as_str());
        }
        assert(string_views(selected_format_desc@) =~= format_desc_of(*preset, *effective_quality));

        let mut post_processing_steps: Vec<String> = Vec::new();
        if preset.extract_audio {
            push_text_if(&mut post_processing_steps, true, "ffmpeg audio extraction");
            push_text_if(&mut post_processing_steps, preset.crop_thumbnail_square, "ffmpeg 1:1 square cover crop");
            push_text_if(&mut post_processing_steps, preset.write_lyrics, "LRCLIB synced lyrics (.lrc sidecar)");
        } else {
            let remux = concat_str("ffmpeg remux/merge to ", preset.container.as_str());
            push_text_if(&mut post_processing_steps, true, remux.as_str());
            push_text_if(&mut post_processing_steps, preset.embed_metadata, "metadata embedding");
            push_text_if(&mut post_processing_steps, preset.embed_thumbnail, "thumbnail embedding");
            push_text_if(
                &mut post_processing_steps,
                preset.write_lyrics || preset.sub_langs.is_some(),
                "subtitles → external .srt sidecar",
            );
        }
        assert(string_views(post_processing_steps@) =~= post_steps_of(*preset));

        let output_dir = match override_output_dir {
            Some(d) => Some(d.to_owned()),
            None => match &preset.output_dir {
                Some(d) => Some(d.clone()),
                None => None,
            },
        };
        DecisionTrace {
            platform: norm.platform,
            content_type: norm.content_type,
            orientation: norm.orientation.display_name().to_owned(),
            resolution,
            duration: norm.duration_formatted,
            policy_name: preset.name.clone(),
            policy_rules,
            selected_format_desc,
            post_processing_steps,
            output_filename: norm.sanitized_filename,
            output_dir,
        }
    }
}

/// A labelled row of the trace box: the label, the value padded to 32 characters, the border.
pub open spec fn field_row(label: Seq<char>, value: Seq<char>) -> Seq<char> {
    "║ "@ + label + ": "@ + pad_right(value, 32) + "║"@
}

/// A listed entry of the trace box, padded to 45 characters.
pub open spec fn arrow_row(entry: Seq<char>) -> Seq<char> {
    "║   → "@ + pad_right(entry, 45) + "║"@
}

/// The listed entries of the trace box.
pub open spec fn arrow_rows(entries: Seq<Seq<char>>) -> Seq<Seq<char>> {
    entries.map_values(|e: Seq<char>| arrow_row(e))
}

/// The folder row of the trace box, when there is an output directory.
pub open spec fn folder_rows(dir: Option<Seq<char>>) -> Seq<Seq<char>> {
    match dir {
        Some(d) => seq!["║   Folder: "@ + pad_right(truncated(d, 41), 41) + "║"@],
        None => seq![],
    }
}

impl DecisionTrace {
    /// The lines of the boxed trace shown to the user, in order.
    pub open spec fn trace_text(self) -> Seq<Seq<char>> {
        seq![
            "\n╔══════════════════════════════════════════════════╗"@,
            "║               🔍 DLP DECISION TRACE              ║"@,
            "╠══════════════════════════════════════════════════╣"@,
            field_row("Platform       "@, self.platform@),
            field_row("Content        "@, self.content_type@),
            field_row("Orientation    "@, self.orientation@),
            field_row("Resolution     "@, self.resolution@),
            field_row("Duration       "@, self.duration@),
            "╠══════════════════════════════════════════════════╣"@,
            "║ Detected Policy:                                 ║"@
        ] + arrow_rows(string_views(self.policy_rules@)) + seq!["╠══════════════════════════════════════════════════╣"@, "║ Selected Format:                                 ║"@] + arrow_rows(
            string_views(self.selected_format_desc@),
        ) + seq!["╠══════════════════════════════════════════════════╣"@, "║ Post-processing Pipeline:                        ║"@] + arrow_rows(string_views(self.post_processing_steps@)) + seq![
            "╠══════════════════════════════════════════════════╣"@,
            "║ Output:                                          ║"@,
            arrow_row(truncated(self.output_filename@, 45))
        ] + folder_rows(opt_view(self.output_dir)) + seq!["╚══════════════════════════════════════════════════╝\n"@]
    }

    /// The lines of the boxed trace, to be printed one per line.
    pub fn trace_lines(&self) -> (r: Vec<String>)
        ensures
            string_views(r@) == self.trace_text(),
    {
        let mut out: Vec<String> = Vec::new();
        push_text_if(&mut out, true, "\n╔══════════════════════════════════════════════════╗");
        push_text_if(&mut out, true, "║               🔍 DLP DECISION TRACE              ║");
        push_text_if(&mut out, true, "╠══════════════════════════════════════════════════╣");
        push_field_row(&mut out, "Platform       ", self.platform.as_str());
        push_field_row(&mut out, "Content        ", self.content_type.as_str());
        push_field_row(&mut out, "Orientation    ", self.orientation.as_str());
        push_field_row(&mut out, "Resolution     ", self.resolution.as_str());
        push_field_row(&mut out, "Duration       ", self.duration.as_str());
        push_text_if(&mut out, true, "╠══════════════════════════════════════════════════╣");
        push_text_if(&mut out, true, "║ Detected Policy:                                 ║");
        push_arrow_rows(&mut out, &self.policy_rules);
        push_text_if(&mut out, true, "╠══════════════════════════════════════════════════╣");
        push_text_if(&mut out, true, "║ Selected Format:                                 ║");
        push_arrow_rows(&mut out, &self.selected_format_desc);
        push_text_if(&mut out, true, "╠══════════════════════════════════════════════════╣");
        push_text_if(&mut out, true, "║ Post-processing Pipeline:                        ║");
        push_arrow_rows(&mut out, &self.post_processing_steps);
        push_text_if(&mut out, true, "╠══════════════════════════════════════════════════╣");
        push_text_if(&mut out, true, "║ Output:                                          ║");
        let name = truncate_chars(&chars_of(self.output_filename.as_str()), 45);
        let name_row = arrow_row_string(&name);
        push_text_if(&mut out, true, name_row.as_str());
        match &self.output_dir {
            Some(d) => {
                let mut row = chars_of("║   Folder: ");
                append_chars(&mut row, &pad_right_chars(&truncate_chars(&chars_of(d.as_str()), 41), 41));
                append_str(&mut row, "║");
                let r = string_of(&row);
                push_text_if(&mut out, true, r.as_str());
            },
            None => {},
        }
        push_text_if(&mut out, true, "╚══════════════════════════════════════════════════╝\n");
        assert(string_views(out@) =~= self.trace_text());
        out
    }
}

fn arrow_row_string(entry: &[char]) -> (r: String)
    ensures
        r@ == arrow_row(entry@),
{
    let mut row = chars_of("║   → ");
    append_chars(&mut row, &pad_right_chars(entry, 45));
    append_str(&mut row, "║");
    string_of(&row)
}

fn push_field_row(v: &mut Vec<String>, label: &str, value: &str)
    ensures
        string_views(final(v)@) == string_views(old(v)@).push(field_row(label@, value@)),
{
    let mut row = chars_of("║ ");
    append_str(&mut row, label);
    append_str(&mut row, ": ");
    append_chars(&mut row, &pad_right_chars(&chars_of(value), 32));
    append_str(&mut row, "║");
    let r = string_of(&row);
    push_text_if(v, true, r.as_str());
}

fn push_arrow_rows(v: &mut Vec<String>, entries: &Vec<String>)
    ensures
        string_views(final(v)@) == string_views(old(v)@) + arrow_rows(string_views(entries@)),
{
    let ghost start = string_views(v@);
    let mut i: usize = 0;
    while i < entries.len()
        invariant
            i <= entries@.len(),
            string_views(v@) == start + arrow_rows(string_views(entries@.take(i as int))),
        decreases entries.len() - i,
    {
        let row = arrow_row_string(&chars_of(entries[i].as_str()));
        push_text_if(v, true, row.as_str());
        assert(arrow_rows(string_views(entries@.take(i + 1))) =~= arrow_rows(string_views(entries@.take(i as int))).push(arrow_row(entries@[i as int]@)));
        assert(string_views(v@) =~= start + arrow_rows(string_views(entries@.take(i + 1))));
        i = i + 1;
    }
    assert(entries@.take(entries@.len() as int) =~= entries@);
}

/// No character of `s` is forbidden in file names or a control character.
pub open spec fn portable(s: Seq<char>) -> bool {
    forall|i: int| 0 <= i < s.len() ==> !forbidden_in_filename(#[trigger] s[i]) && !('\0' <= s[i] <= '\x1f')
}

proof fn lemma_filename_chars_portable(name: Seq<char>)
    ensures
        portable(filename_chars(name)),
    decreases name.len(),
{
    if name.len() > 0 {
        lemma_filename_chars_portable(name.drop_last());
    }
}

proof fn lemma_trim_start_portable(s: Seq<char>)
    requires
        portable(s),
    ensures
        portable(trim_start_ws(s)),
    decreases s.len(),
{
    if s.len() > 0 && crate::text::is_ws(s[0]) {
        assert forall|i: int| 0 <= i < s.drop_first().len() implies !forbidden_in_filename(
            #[trigger] s.drop_first()[i],
        ) && !('\0' <= s.drop_first()[i] <= '\x1f') by {
            assert(s.drop_first()[i] == s[i + 1]);
        }
        lemma_trim_start_portable(s.drop_first());
    }
}

proof fn lemma_trim_end_portable(s: Seq<char>)
    requires
        portable(s),
    ensures
        portable(trim_end_ws(s)),
    decreases s.len(),
{
    if s.len() > 0 && crate::text::is_ws(s.last()) {
        assert forall|i: int| 0 <= i < s.drop_last().len() implies !forbidden_in_filename(
            #[trigger] s.drop_last()[i],
        ) && !('\0' <= s.drop_last()[i] <= '\x1f') by {
            assert(s.drop_last()[i] == s[i]);
        }
        lemma_trim_end_portable(s.drop_last());
    }
}

proof fn lemma_trim_end_set_portable(s: Seq<char>, set: Seq<char>)
    requires
        portable(s),
    ensures
        portable(trim_end_set(s, set)),
    decreases s.len(),
{
    if s.len() > 0 && set.contains(s.last()) {
        assert forall|i: int| 0 <= i < s.drop_last().len() implies !forbidden_in_filename(
            #[trigger] s.drop_last()[i],
        ) && !('\0' <= s.drop_last()[i] <= '\x1f') by {
            assert(s.drop_last()[i] == s[i]);
        }
        lemma_trim_end_set_portable(s.drop_last(), set);
    }
}

/// A sanitized file name base is portable: it is not empty, has at most 200 characters,
/// and holds none of `/ \ : * ? " < > |` and no control character.
pub proof fn sanitized_base_is_portable(name: Seq<char>)
    ensures
        portable(filename_base(name)),
        0 < filename_base(name).len() <= 200,
{
    lemma_filename_chars_portable(name);
    let f = filename_chars(name);
    lemma_trim_start_portable(f);
    lemma_trim_end_portable(trim_start_ws(f));
    lemma_trim_end_set_portable(trim_ws(f), seq!['.', ' ']);
    let t = trim_end_set(trim_ws(f), seq!['.', ' ']);
    if t.len() == 0 {
    reveal_strlit("media");
        assert("media"@.len() == 5);
    } else {
        let k: int = if t.len() < 200 { t.len() as int } else { 200 };
        assert forall|i: int| 0 <= i < t.take(k).len() implies !forbidden_in_filename(#[trigger] t.take(k)[i])
            && !('\0' <= t.take(k)[i] <= '\x1f') by {
            assert(t.take(k)[i] == t[i]);
        }
    }
}

/// Every noise pattern is non-empty.
proof fn lemma_noise_patterns_nonempty()
    ensures
        forall|k: int|
            0 <= k < title_noise_patterns().len() ==> #[trigger] title_noise_patterns()[k].len() > 0,
{
    let ps = title_noise_patterns();
    reveal_strlit("(official music video)");
    reveal_strlit("[official music video]");
    reveal_strlit("(official video)");
    reveal_strlit("[official video]");
    reveal_strlit("(official mv)");
    reveal_strlit("[official mv]");
    reveal_strlit("(official m/v)");
    reveal_strlit("[official m/v]");
    reveal_strlit("(official audio)");
    reveal_strlit("[official audio]");
    reveal_strlit("(performance video)");
    reveal_strlit("[performance video]");
    reveal_strlit("(visualizer)");
    reveal_strlit("[visualizer]");
    reveal_strlit("(lyric video)");
    reveal_strlit("[lyric video]");
    reveal_strlit("(lyrics video)");
    reveal_strlit("[lyrics video]");
    reveal_strlit("(color coded lyrics)");
    reveal_strlit("[color coded lyrics]");
    reveal_strlit("(audio)");
    reveal_strlit("[audio]");
    reveal_strlit("(mv)");
    reveal_strlit("[mv]");
    reveal_strlit("(m/v)");
    reveal_strlit("[m/v]");
    reveal_strlit("- official video");
    reveal_strlit("- official audio");
    reveal_strlit("(remastered)");
    reveal_strlit("[remastered]");
    reveal_strlit("(4k remaster)");
    reveal_strlit("[4k remaster]");
    reveal_strlit("- remastered");
    assert(ps[0].len() > 0);
    assert(ps[1].len() > 0);
    assert(ps[2].len() > 0);
    assert(ps[3].len() > 0);
    assert(ps[4].len() > 0);
    assert(ps[5].len() > 0);
    assert(ps[6].len() > 0);
    assert(ps[7].len() > 0);
    assert(ps[8].len() > 0);
    assert(ps[9].len() > 0);
    assert(ps[10].len() > 0);
    assert(ps[11].len() > 0);
    assert(ps[12].len() > 0);
    assert(ps[13].len() > 0);
    assert(ps[14].len() > 0);
    assert(ps[15].len() > 0);
    assert(ps[16].len() > 0);
    assert(ps[17].len() > 0);
    assert(ps[18].len() > 0);
    assert(ps[19].len() > 0);
    assert(ps[20].len() > 0);
    assert(ps[21].len() > 0);
    assert(ps[22].len() > 0);
    assert(ps[23].len() > 0);
    assert(ps[24].len() > 0);
    assert(ps[25].len() > 0);
    assert(ps[26].len() > 0);
    assert(ps[27].len() > 0);
    assert(ps[28].len() > 0);
    assert(ps[29].len() > 0);
    assert(ps[30].len() > 0);
    assert(ps[31].len() > 0);
    assert(ps[32].len() > 0);
    assert forall|k: int| 0 <= k < ps.len() implies #[trigger] ps[k].len() > 0 by {
        assert(k == 0 || k == 1 || k == 2 || k == 3 || k == 4 || k == 5 || k == 6 || k == 7 || k == 8 || k == 9 || k == 10 || k == 11 || k == 12 || k == 13 || k == 14 || k == 15 || k == 16 || k == 17 || k == 18 || k == 19 || k == 20 || k == 21 || k == 22 || k == 23 || k == 24 || k == 25 || k == 26 || k == 27 || k == 28 || k == 29 || k == 30 || k == 31 || k == 32);
    }
}

/// When no pattern of `pats` is found, no single pattern of it is found.
proof fn lemma_first_noise_none(s: Seq<char>, pats: Seq<Seq<char>>)
    requires
        first_noise(s, pats) is None,
    ensures
        forall|k: int| 0 <= k < pats.len() ==> lower_match(s, #[trigger] pats[k]) is None,
    decreases pats.len(),
{
    if pats.len() > 0 {
        lemma_first_noise_none(s, pats.drop_first());
        assert forall|k: int| 0 <= k < pats.len() implies lower_match(s, #[trigger] pats[k]) is None by {
            if k > 0 {
                assert(pats[k] == pats.drop_first()[k - 1]);
            }
        }
    }
}

/// A pattern found among non-empty patterns covers a non-empty range of `s`.
proof fn lemma_first_noise_range(s: Seq<char>, pats: Seq<Seq<char>>)
    requires
        forall|k: int| 0 <= k < pats.len() ==> #[trigger] pats[k].len() > 0,
    ensures
        first_noise(s, pats) matches Some((p, l)) ==> l > 0 && 0 <= p && p + l <= s.len(),
    decreases pats.len(),
{
    if pats.len() > 0 {
        crate::text::lemma_lower_match_range(s, pats[0]);
        assert forall|k: int| 0 <= k < pats.drop_first().len() implies #[trigger] pats.drop_first()[k].len() > 0 by {
            assert(pats.drop_first()[k] == pats[k + 1]);
        }
        lemma_first_noise_range(s, pats.drop_first());
    }
}

/// Noise removal runs until no noise pattern is found.
proof fn lemma_strip_noise_clean(s: Seq<char>)
    ensures
        first_noise(strip_noise(s), title_noise_patterns()) is None,
    decreases s.len(),
{
    lemma_noise_patterns_nonempty();
    lemma_first_noise_range(s, title_noise_patterns());
    if let Some((p, l)) = first_noise(s, title_noise_patterns()) {
        lemma_strip_noise_clean(cut(s, p, l));
    }
}

/// After noise removal, the case-insensitive search of title cleaning finds none of the
/// noise tags in the title: each one, in any case, is gone.
pub proof fn stripped_titles_hold_no_noise(title: Seq<char>)
    ensures
        lower_match(strip_noise(trim_ws(title)), "(official music video)"@) is None,
        lower_match(strip_noise(trim_ws(title)), "[official music video]"@) is None,
        lower_match(strip_noise(trim_ws(title)), "(official video)"@) is None,
        lower_match(strip_noise(trim_ws(title)), "[official video]"@) is None,
        lower_match(strip_noise(trim_ws(title)), "(official mv)"@) is None,
        lower_match(strip_noise(trim_ws(title)), "[official mv]"@) is None,
        lower_match(strip_noise(trim_ws(title)), "(official m/v)"@) is None,
        lower_match(strip_noise(trim_ws(title)), "[official m/v]"@) is None,
        lower_match(strip_noise(trim_ws(title)), "(official audio)"@) is None,
        lower_match(strip_noise(trim_ws(title)), "[official audio]"@) is None,
        lower_match(strip_noise(trim_ws(title)), "(performance video)"@) is None,
        lower_match(strip_noise(trim_ws(title)), "[performance video]"@) is None,
        lower_match(strip_noise(trim_ws(title)), "(visualizer)"@) is None,
        lower_match(strip_noise(trim_ws(title)), "[visualizer]"@) is None,
        lower_match(strip_noise(trim_ws(title)), "(lyric video)"@) is None,
        lower_match(strip_noise(trim_ws(title)), "[lyric video]"@) is None,
        lower_match(strip_noise(trim_ws(title)), "(lyrics video)"@) is None,
        lower_match(strip_noise(trim_ws(title)), "[lyrics video]"@) is None,
        lower_match(strip_noise(trim_ws(title)), "(color coded lyrics)"@) is None,
        lower_match(strip_noise(trim_ws(title)), "[color coded lyrics]"@) is None,
        lower_match(strip_noise(trim_ws(title)), "(audio)"@) is None,
        lower_match(strip_noise(trim_ws(title)), "[audio]"@) is None,
        lower_match(strip_noise(trim_ws(title)), "(mv)"@) is None,
        lower_match(strip_noise(trim_ws(title)), "[mv]"@) is None,
        lower_match(strip_noise(trim_ws(title)), "(m/v)"@) is None,
        lower_match(strip_noise(trim_ws(title)), "[m/v]"@) is None,
        lower_match(strip_noise(trim_ws(title)), "- official video"@) is None,
        lower_match(strip_noise(trim_ws(title)), "- official audio"@) is None,
        lower_match(strip_noise(trim_ws(title)), "(remastered)"@) is None,
        lower_match(strip_noise(trim_ws(title)), "[remastered]"@) is None,
        lower_match(strip_noise(trim_ws(title)), "(4k remaster)"@) is None,
        lower_match(strip_noise(trim_ws(title)), "[4k remaster]"@) is None,
        lower_match(strip_noise(trim_ws(title)), "- remastered"@) is None,
{
    let r = strip_noise(trim_ws(title));
    let ps = title_noise_patterns();
    lemma_strip_noise_clean(trim_ws(title));
    lemma_first_noise_none(r, ps);
    assert(lower_match(r, ps[0]) is None);
    assert(lower_match(r, ps[1]) is None);
    assert(lower_match(r, ps[2]) is None);
    assert(lower_match(r, ps[3]) is None);
    assert(lower_match(r, ps[4]) is None);
    assert(lower_match(r, ps[5]) is None);
    assert(lower_match(r, ps[6]) is None);
    assert(lower_match(r, ps[7]) is None);
    assert(lower_match(r, ps[8]) is None);
    assert(lower_match(r, ps[9]) is None);
    assert(lower_match(r, ps[10]) is None);
    assert(lower_match(r, ps[11]) is None);
    assert(lower_match(r, ps[12]) is None);
    assert(lower_match(r, ps[13]) is None);
    assert(lower_match(r, ps[14]) is None);
    assert(lower_match(r, ps[15]) is None);
    assert(lower_match(r, ps[16]) is None);
    assert(lower_match(r, ps[17]) is None);
    assert(lower_match(r, ps[18]) is None);
    assert(lower_match(r, ps[19]) is None);
    assert(lower_match(r, ps[20]) is None);
    assert(lower_match(r, ps[21]) is None);
    assert(lower_match(r, ps[22]) is None);
    assert(lower_match(r, ps[23]) is None);
    assert(lower_match(r, ps[24]) is None);
    assert(lower_match(r, ps[25]) is None);
    assert(lower_match(r, ps[26]) is None);
    assert(lower_match(r, ps[27]) is None);
    assert(lower_match(r, ps[28]) is None);
    assert(lower_match(r, ps[29]) is None);
    assert(lower_match(r, ps[30]) is None);
    assert(lower_match(r, ps[31]) is None);
    assert(lower_match(r, ps[32]) is None);
}

} // verus!
