//! The decisions of a command-line session: what the user asked for, and the lines that
//! describe the media and the chosen settings.

use vstd::prelude::*;
use crate::classifier::{preset_for, signals_of, SmartClassifier};
use crate::metadata::VideoMetadata;
use crate::normalizer::output_ext;
use crate::preset::Preset;
use crate::quality::QualityPreference;
use crate::text::{
    append_chars, append_str, chars_of, concat_str, decimal, decimal_chars, eq_ignore_ascii_case,
    eq_ignore_ascii_case_seq, pad_right, pad_right_chars, push_text_if, string_of, string_views, trim,
    trim_ws,
};

verus! {

/// Whether the command line names a URL: one that is not blank.
pub fn has_url(url: Option<&str>) -> (r: bool)
    ensures
        r == match url {
            Some(u) => trim_ws(u@).len() > 0,
            None => false,
        },
{
    match url {
        Some(u) => trim(&chars_of(u)).len() > 0,
        None => false,
    }
}

/// The preset a batch runs with: none (classify each item) for `auto` in any ASCII case,
/// else the one named.
pub fn batch_preset(preset: &str) -> (r: Option<String>)
    ensures
        match r {
            Some(p) => !eq_ignore_ascii_case_seq(preset@, "auto"@) && p@ == preset@,
            None => eq_ignore_ascii_case_seq(preset@, "auto"@),
        },
{
    if eq_ignore_ascii_case(&chars_of(preset), "auto") {
        None
    } else {
        Some(preset.to_owned())
    }
}

/// How a preset is listed: its name padded to ten characters, its mode and its description.
pub open spec fn preset_listing(p: Preset) -> Seq<char> {
    "• "@ + pad_right(p.name@, 10) + " ["@ + (if p.extract_audio {
        "Audio ("@ + output_ext(p) + ")"@
    } else {
        "Video ("@ + p.container@ + ")"@
    }) + "] - "@ + match p.description {
        Some(d) => d@,
        None => "No description"@,
    }
}

/// The preset an item is downloaded with: the one named, else the one that suits the
/// item's classification.
pub fn chosen_preset_name(explicit: Option<&str>, url: &str, meta: &VideoMetadata) -> (r: String)
    ensures
        r@ == match explicit {
            Some(p) => p@,
            None => preset_for(signals_of(url@, *meta).winner()),
        },
{
    match explicit {
        Some(p) => p.to_owned(),
        None => SmartClassifier::classify(url, meta).default_preset_name().to_owned(),
    }
}

/// The line that lists a preset.
pub fn preset_listing_line(p: &Preset) -> (r: String)
    ensures
        r@ == preset_listing(*p),
{
    let mut v = chars_of("• ");
    append_chars(&mut v, &pad_right_chars(&chars_of(p.name.as_str()), 10));
    append_str(&mut v, " [");
    if p.extract_audio {
        append_str(&mut v, "Audio (");
        match &p.audio_format {
            Some(f) => append_str(&mut v, f.as_str()),
            None => append_str(&mut v, "opus"),
        }
        append_str(&mut v, ")");
    } else {
        append_str(&mut v, "Video (");
        append_str(&mut v, p.container.as_str());
        append_str(&mut v, ")");
    }
    append_str(&mut v, "] - ");
    match &p.description {
        Some(d) => append_str(&mut v, d.as_str()),
        None => append_str(&mut v, "No description"),
    }
    string_of(&v)
}

/// The resolutions joined as `1080p, 720p, ...`.
pub open spec fn heights_text(hs: Seq<u32>) -> Seq<char>
    decreases hs.len(),
{
    if hs.len() == 0 {
        seq![]
    } else if hs.len() == 1 {
        decimal(hs[0] as nat) + "p"@
    } else {
        heights_text(hs.drop_last()) + ", "@ + decimal(hs.last() as nat) + "p"@
    }
}

/// The available resolutions as shown to the user: `Auto` when there are none.
pub open spec fn resolutions_text(hs: Seq<u32>) -> Seq<char> {
    if hs.len() == 0 {
        "Auto"@
    } else {
        heights_text(hs)
    }
}

/// The available resolutions as shown to the user.
pub fn resolutions_display(available: &[u32]) -> (r: String)
    ensures
        r@ == resolutions_text(available@),
{
    if available.len() == 0 {
        return "Auto".to_owned();
    }
    let mut v: Vec<char> = Vec::new();
    let mut i: usize = 0;
    while i < available.len()
        invariant
            i <= available@.len(),
            v@ == heights_text(available@.take(i as int)),
        decreases available.len() - i,
    {
        let ghost pre = available@.take(i + 1);
        assert(pre.drop_last() =~= available@.take(i as int));
        if i > 0 {
            append_str(&mut v, ", ");
        }
        append_chars(&mut v, &decimal_chars(available[i] as u64));
        append_str(&mut v, "p");
        proof {
            if i == 0 {
                assert(v@ =~= decimal(pre[0] as nat) + "p"@);
            }
        }
        i = i + 1;
    }
    assert(available@.take(available@.len() as int) =~= available@);
    string_of(&v)
}

/// The quality the download aims at, as shown to the user.
pub open spec fn target_quality_text(q: QualityPreference, available: Seq<u32>) -> Seq<char> {
    match q {
        QualityPreference::Best => "Best available"@,
        QualityPreference::SpecificHeight(h) => match q.chosen_resolution(available) {
            Some(m) => decimal(m as nat) + "p (Capped at "@ + decimal(h as nat) + "p)"@,
            None => decimal(h as nat) + "p"@,
        },
    }
}

/// The quality the download aims at, as shown to the user.
pub fn target_quality_display(q: &QualityPreference, available: &[u32]) -> (r: String)
    ensures
        r@ == target_quality_text(*q, available@),
{
    match q {
        QualityPreference::Best => "Best available".to_owned(),
        QualityPreference::SpecificHeight(h) => {
            match q.select_best_resolution(available) {
                Some(m) => {
                    let mut v = decimal_chars(m as u64);
                    append_str(&mut v, "p (Capped at ");
                    append_chars(&mut v, &decimal_chars(*h as u64));
                    append_str(&mut v, "p)");
                    string_of(&v)
                },
                None => {
                    let mut v = decimal_chars(*h as u64);
                    append_str(&mut v, "p");
                    string_of(&v)
                },
            }
        },
    }
}

/// The rows that describe a media item: title, uploader, duration, orientation and
/// available resolutions.
pub open spec fn media_rows(meta: VideoMetadata) -> Seq<Seq<char>> {
    seq!["🎬 Title       : "@ + meta.title@] + match meta.uploader {
        Some(u) => seq!["👤 Uploader    : "@ + u@],
        None => seq![],
    } + seq![
        "⏱️  Duration    : "@ + meta.duration_text(),
        "📐 Orientation : "@ + meta.orientation_spec().display_text()
    ]
}

/// Appends the rows that describe a media item.
pub fn push_media_rows(v: &mut Vec<String>, meta: &VideoMetadata)
    ensures
        string_views(final(v)@) == string_views(old(v)@) + media_rows(*meta),
{
    let ghost start = string_views(v@);
    let t = concat_str("🎬 Title       : ", meta.title.as_str());
    push_text_if(v, true, t.as_str());
    match &meta.uploader {
        Some(u) => {
            let l = concat_str("👤 Uploader    : ", u.as_str());
            push_text_if(v, true, l.as_str());
        },
        None => {},
    }
    let d = meta.format_duration();
    let dl = concat_str("⏱️  Duration    : ", d.as_str());
    push_text_if(v, true, dl.as_str());
    let o = meta.orientation();
    let ol = concat_str("📐 Orientation : ", o.display_name());
    push_text_if(v, true, ol.as_str());
    assert(string_views(v@) =~= start + media_rows(*meta));
}

/// The block that describes the media and the active preset before a download.
pub open spec fn info_text(meta: VideoMetadata, p: Preset, available: Seq<u32>) -> Seq<Seq<char>> {
    seq!["━━━━━━━━━━━━━━━━━━━━━━━━━━━━━━━━━━━━━━━━━━━━━━━━━━━━"@] + media_rows(meta) + seq![
        "📺 Available   : "@ + resolutions_text(available),
        "⚙️  Active Preset: "@ + p.name@ + " ("@ + (if p.extract_audio { "Audio"@ } else { "Video"@ }) + ")"@,
        "━━━━━━━━━━━━━━━━━━━━━━━━━━━━━━━━━━━━━━━━━━━━━━━━━━━━"@
    ]
}

/// The block that describes the media and the active preset, line by line.
pub fn info_lines(meta: &VideoMetadata, p: &Preset, available: &[u32]) -> (r: Vec<String>)
    ensures
        string_views(r@) == info_text(*meta, *p, available@),
{
    let mut v: Vec<String> = Vec::new();
    push_text_if(&mut v, true, "━━━━━━━━━━━━━━━━━━━━━━━━━━━━━━━━━━━━━━━━━━━━━━━━━━━━");
    push_media_rows(&mut v, meta);
    let res = resolutions_display(available);
    let rl = concat_str("📺 Available   : ", res.as_str());
    push_text_if(&mut v, true, rl.as_str());
    let mut pl = chars_of("⚙️  Active Preset: ");
    append_str(&mut pl, p.name.as_str());
    append_str(&mut pl, " (");
    append_str(&mut pl, if p.extract_audio { "Audio" } else { "Video" });
    append_str(&mut pl, ")");
    let ps = string_of(&pl);
    push_text_if(&mut v, true, ps.as_str());
    push_text_if(&mut v, true, "━━━━━━━━━━━━━━━━━━━━━━━━━━━━━━━━━━━━━━━━━━━━━━━━━━━━");
    assert(string_views(v@) =~= info_text(*meta, *p, available@));
    v
}

/// The preset with the lyrics choice of the command line applied, when given.
pub fn apply_lyrics_override(p: &mut Preset, lyrics: Option<bool>)
    ensures
        final(p).write_lyrics == match lyrics {
            Some(b) => b,
            None => old(p).write_lyrics,
        },
        *final(p) == (Preset { write_lyrics: final(p).write_lyrics, ..*old(p) }),
{
    match lyrics {
        Some(b) => {
            p.write_lyrics = b;
        },
        None => {},
    }
}

} // verus!
