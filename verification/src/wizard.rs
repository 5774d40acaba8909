//! The decisions of the interactive wizard: the menus it offers and what each answer
//! selects.

use vstd::prelude::*;
use crate::metadata::{holds_text, VideoMetadata};
use crate::preset::Preset;
use crate::session::{media_rows, push_media_rows, resolutions_display, resolutions_text};
use crate::text::{
    append_chars, append_str, chars_eq_str, chars_of, concat_str, decimal, decimal_chars,
    eq_ignore_ascii_case, eq_ignore_ascii_case_seq, is_digit, parse_u32, parse_u32_spec, push_text_if,
    string_of, string_views, trim, trim_ws,
};

verus! {

/// What the main menu offers.
#[derive(Debug, Clone, Copy, PartialEq, Eq, Structural)]
pub enum MenuChoice {
    Download,
    Batch,
    Doctor,
    ListPresets,
    Exit,
}

/// The entries of the main menu, in order.
pub open spec fn menu_entries() -> Seq<Seq<char>> {
    seq![
        "🎬 Video (General MP4)"@,
        "🎵 Music (Extract Opus / Audio)"@,
        "📱 TikTok / Shorts (Vertical MP4)"@,
        "📦 Batch Download (from file)"@,
        "🩺 System Diagnostics (Doctor)"@,
        "📑 View All Presets"@,
        "🚪 Exit"@
    ]
}

/// What a main menu answer selects, with the preset of a download: the music and TikTok
/// entries pick their presets, every other download the video preset.
pub open spec fn menu_selection(sel: Seq<char>) -> (MenuChoice, Seq<char>) {
    if sel == "📦 Batch Download (from file)"@ {
        (MenuChoice::Batch, "video"@)
    } else if sel == "🩺 System Diagnostics (Doctor)"@ {
        (MenuChoice::Doctor, "video"@)
    } else if sel == "📑 View All Presets"@ {
        (MenuChoice::ListPresets, "video"@)
    } else if sel == "🚪 Exit"@ {
        (MenuChoice::Exit, "video"@)
    } else if sel == "🎵 Music (Extract Opus / Audio)"@ {
        (MenuChoice::Download, "music"@)
    } else if sel == "📱 TikTok / Shorts (Vertical MP4)"@ {
        (MenuChoice::Download, "tiktok"@)
    } else {
        (MenuChoice::Download, "video"@)
    }
}

/// A prompt answer that means going back: `b` or `back` in any ASCII case, around blanks.
pub open spec fn back_answer(input: Seq<char>) -> bool {
    eq_ignore_ascii_case_seq(trim_ws(input), "b"@) || eq_ignore_ascii_case_seq(trim_ws(input), "back"@)
}

/// The leading characters of `s` that are not digits removed.
pub open spec fn skip_nondigits(s: Seq<char>) -> Seq<char>
    decreases s.len(),
{
    if s.len() == 0 || is_digit(s[0]) {
        s
    } else {
        skip_nondigits(s.drop_first())
    }
}

/// The digits at the start of `s`.
pub open spec fn digit_run(s: Seq<char>) -> Seq<char>
    decreases s.len(),
{
    if s.len() > 0 && is_digit(s[0]) {
        seq![s[0]] + digit_run(s.drop_first())
    } else {
        seq![]
    }
}

/// The label of a resolution in the quality menu, with its size note.
pub open spec fn resolution_label(h: u32, note: Seq<char>) -> Seq<char> {
    if h == 2160 {
        "📺 2160p (4K UHD)"@ + note
    } else if h == 1440 {
        "📺 1440p (2K QHD)"@ + note
    } else if h == 1080 {
        "📺 1080p (Full HD)"@ + note
    } else if h == 720 {
        "📺 720p (HD)"@ + note
    } else if h == 480 {
        "📺 480p (SD)"@ + note
    } else if h == 360 {
        "📺 360p"@ + note
    } else {
        "📺 "@ + decimal(h as nat) + "p"@ + note
    }
}

/// `s` with `x` appended unless it already holds it.
pub open spec fn push_new(s: Seq<Seq<char>>, x: Seq<char>) -> Seq<Seq<char>> {
    if s.contains(x) {
        s
    } else {
        s.push(x)
    }
}

/// The resolution entries of the quality menu added to `acc`, each once.
pub open spec fn resolution_entries(acc: Seq<Seq<char>>, options: Seq<(u32, String)>) -> Seq<Seq<char>>
    decreases options.len(),
{
    if options.len() == 0 {
        acc
    } else {
        push_new(
            resolution_entries(acc, options.drop_last()),
            resolution_label(options.last().0, options.last().1@),
        )
    }
}

/// The quality menu: the best entry with its size note, each resolution with its size
/// note (once), and the way back.
pub open spec fn quality_menu(best_note: Seq<char>, options: Seq<(u32, String)>) -> Seq<Seq<char>> {
    resolution_entries(seq!["🌟 Best Available"@ + best_note], options).push("⬅️  Back to URL / Main Menu"@)
}

/// What a quality menu answer asks for.
#[derive(Debug, Clone, Copy, PartialEq, Eq, Structural)]
pub enum QualityRequest {
    /// Go back to the URL prompt.
    Back,
    /// The best quality.
    Best,
    /// The given height.
    Height(u32),
}

/// What a quality menu answer asks for: the way back, the plain best entry, or the number
/// in the label (best when it has none that fits).
pub open spec fn quality_request_of(sel: Seq<char>) -> QualityRequest {
    if sel == "⬅️  Back to URL / Main Menu"@ {
        QualityRequest::Back
    } else if sel == "🌟 Best Available"@ {
        QualityRequest::Best
    } else {
        match parse_u32_spec(digit_run(skip_nondigits(sel))) {
            Some(h) => QualityRequest::Height(h),
            None => QualityRequest::Best,
        }
    }
}

/// The subtitle menu for the languages `langs`.
pub open spec fn subtitle_menu(langs: Seq<String>) -> Seq<Seq<char>> {
    seq!["🚫 No Subtitles (None)"@] + (if holds_text(langs, "id"@) {
        seq!["🇮🇩 Indonesian (.srt)"@]
    } else {
        seq![]
    }) + (if holds_text(langs, "en"@) {
        seq!["🇬🇧 English (.srt)"@]
    } else {
        seq![]
    }) + (if holds_text(langs, "ko"@) {
        seq!["🇰🇷 Korean (.srt)"@]
    } else {
        seq![]
    }) + (if holds_text(langs, "ja"@) {
        seq!["🇯🇵 Japanese (.srt)"@]
    } else {
        seq![]
    }) + seq![
        "🌐 All Available Languages (.srt)"@,
        "📝 Select Specific Language(s)..."@,
        "⬅️  Back to Quality"@
    ]
}

/// What a subtitle menu answer does.
#[derive(Debug, Clone, Copy, PartialEq, Eq, Structural)]
pub enum SubtitleStep {
    /// Go back to the quality menu.
    Back,
    /// The preset is set.
    Done,
    /// The user picks the languages next.
    PickLanguages,
}

/// The subtitle language a menu answer picks, if it picks a single one (or all).
pub open spec fn subtitle_language(sel: Seq<char>) -> Option<Seq<char>> {
    if sel == "🇮🇩 Indonesian (.srt)"@ {
        Some("id"@)
    } else if sel == "🇬🇧 English (.srt)"@ {
        Some("en"@)
    } else if sel == "🇰🇷 Korean (.srt)"@ {
        Some("ko"@)
    } else if sel == "🇯🇵 Japanese (.srt)"@ {
        Some("ja"@)
    } else if sel == "🌐 All Available Languages (.srt)"@ {
        Some("all"@)
    } else {
        None
    }
}

/// What a subtitle menu answer does, and how it sets the subtitles of the preset: not at
/// all, none, or one language (or all).
pub open spec fn subtitle_outcome(sel: Seq<char>) -> (SubtitleStep, Option<Option<Seq<char>>>) {
    if sel == "⬅️  Back to Quality"@ {
        (SubtitleStep::Back, None)
    } else if sel == "📝 Select Specific Language(s)..."@ {
        (SubtitleStep::PickLanguages, None)
    } else if sel == "🚫 No Subtitles (None)"@ {
        (SubtitleStep::Done, Some(None))
    } else {
        match subtitle_language(sel) {
            Some(l) => (SubtitleStep::Done, Some(Some(l))),
            None => (SubtitleStep::Done, None),
        }
    }
}

/// The entries of the batch preset menu, in order.
pub open spec fn batch_menu_entries() -> Seq<Seq<char>> {
    seq!["🎬 Video (MP4 Video)"@, "🎵 Music (Opus Audio)"@, "📱 TikTok (Vertical MP4)"@, "⬅️  Back to Menu"@]
}

/// The presets a batch menu answer picks.
pub open spec fn batch_menu_preset(sel: Seq<char>) -> Option<Seq<char>> {
    if sel == "🎬 Video (MP4 Video)"@ {
        Some("video"@)
    } else if sel == "🎵 Music (Opus Audio)"@ {
        Some("music"@)
    } else if sel == "📱 TikTok (Vertical MP4)"@ {
        Some("tiktok"@)
    } else {
        None
    }
}

/// The block that describes the media and the active mode in the wizard.
pub open spec fn wizard_info_text(meta: VideoMetadata, p: Preset, available: Seq<u32>) -> Seq<Seq<char>> {
    seq!["\n━━━━━━━━━━━━━━━━━━━━━━━━━━━━━━━━━━━━━━━━━━━━━━━━━━━━"@] + media_rows(meta) + seq![
        "📺 Available   : "@ + resolutions_text(available),
        "⚙️  Active Mode : "@ + p.name@ + " ["@ + (if p.extract_audio { "Audio"@ } else { "Video"@ }) + "]"@,
        "━━━━━━━━━━━━━━━━━━━━━━━━━━━━━━━━━━━━━━━━━━━━━━━━━━━━\n"@
    ]
}

/// The interactive wizard.
pub struct Wizard;

fn text_eq(a: &str, b: &str) -> (r: bool)
    ensures
        r == (a@ == b@),
{
    chars_eq_str(&chars_of(a), b)
}

impl Wizard {
    /// The entries of the main menu.
    pub fn menu_options() -> (r: Vec<String>)
        ensures
            string_views(r@) == menu_entries(),
    {
        let mut v: Vec<String> = Vec::new();
        push_text_if(&mut v, true, "🎬 Video (General MP4)");
        push_text_if(&mut v, true, "🎵 Music (Extract Opus / Audio)");
        push_text_if(&mut v, true, "📱 TikTok / Shorts (Vertical MP4)");
        push_text_if(&mut v, true, "📦 Batch Download (from file)");
        push_text_if(&mut v, true, "🩺 System Diagnostics (Doctor)");
        push_text_if(&mut v, true, "📑 View All Presets");
        push_text_if(&mut v, true, "🚪 Exit");
        assert(string_views(v@) =~= menu_entries());
        v
    }

    /// The entries of the batch preset menu.
    pub fn batch_menu_options() -> (r: Vec<String>)
        ensures
            string_views(r@) == batch_menu_entries(),
    {
        let mut v: Vec<String> = Vec::new();
        push_text_if(&mut v, true, "🎬 Video (MP4 Video)");
        push_text_if(&mut v, true, "🎵 Music (Opus Audio)");
        push_text_if(&mut v, true, "📱 TikTok (Vertical MP4)");
        push_text_if(&mut v, true, "⬅️  Back to Menu");
        assert(string_views(v@) =~= batch_menu_entries());
        v
    }

    /// What a main menu answer selects, and the preset of a download.
    pub fn menu_choice(sel: &str) -> (r: (MenuChoice, &'static str))
        ensures
            r.0 == menu_selection(sel@).0,
            r.1@ == menu_selection(sel@).1,
    {
        if text_eq(sel, "📦 Batch Download (from file)") {
            (MenuChoice::Batch, "video")
        } else if text_eq(sel, "🩺 System Diagnostics (Doctor)") {
            (MenuChoice::Doctor, "video")
        } else if text_eq(sel, "📑 View All Presets") {
            (MenuChoice::ListPresets, "video")
        } else if text_eq(sel, "🚪 Exit") {
            (MenuChoice::Exit, "video")
        } else if text_eq(sel, "🎵 Music (Extract Opus / Audio)") {
            (MenuChoice::Download, "music")
        } else if text_eq(sel, "📱 TikTok / Shorts (Vertical MP4)") {
            (MenuChoice::Download, "tiktok")
        } else {
            (MenuChoice::Download, "video")
        }
    }

    /// Whether a prompt answer means going back.
    pub fn is_back(input: &str) -> (r: bool)
        ensures
            r == back_answer(input@),
    {
        let t = trim(&chars_of(input));
        eq_ignore_ascii_case(&t, "b") || eq_ignore_ascii_case(&t, "back")
    }

    /// The block that describes the media and the active mode.
    pub fn info_lines(meta: &VideoMetadata, p: &Preset, available: &[u32]) -> (r: Vec<String>)
        ensures
            string_views(r@) == wizard_info_text(*meta, *p, available@),
    {
        let mut v: Vec<String> = Vec::new();
        push_text_if(&mut v, true, "\n━━━━━━━━━━━━━━━━━━━━━━━━━━━━━━━━━━━━━━━━━━━━━━━━━━━━");
        push_media_rows(&mut v, meta);
        let res = resolutions_display(available);
        let rl = concat_str("📺 Available   : ", res.as_str());
        push_text_if(&mut v, true, rl.as_str());
        let mut pl = chars_of("⚙️  Active Mode : ");
        append_str(&mut pl, p.name.as_str());
        append_str(&mut pl, " [");
        append_str(&mut pl, if p.extract_audio { "Audio" } else { "Video" });
        append_str(&mut pl, "]");
        let ps = string_of(&pl);
        push_text_if(&mut v, true, ps.as_str());
        push_text_if(&mut v, true, "━━━━━━━━━━━━━━━━━━━━━━━━━━━━━━━━━━━━━━━━━━━━━━━━━━━━\n");
        assert(string_views(v@) =~= wizard_info_text(*meta, *p, available@));
        v
    }

    /// The label of a resolution with its size note.
    pub fn resolution_label(h: u32, note: &str) -> (r: String)
        ensures
            r@ == resolution_label(h, note@),
    {
        let head = if h == 2160 {
            "📺 2160p (4K UHD)".to_owned()
        } else if h == 1440 {
            "📺 1440p (2K QHD)".to_owned()
        } else if h == 1080 {
            "📺 1080p (Full HD)".to_owned()
        } else if h == 720 {
            "📺 720p (HD)".to_owned()
        } else if h == 480 {
            "📺 480p (SD)".to_owned()
        } else if h == 360 {
            "📺 360p".to_owned()
        } else {
            let mut v = chars_of("📺 ");
            append_chars(&mut v, &decimal_chars(h as u64));
            append_str(&mut v, "p");
            string_of(&v)
        };
        concat_str(head.as_str(), note)
    }

    /// The quality menu: best first (with `best_note`), then the resolutions with their
    /// size notes, each label once, then the way back.
    pub fn quality_choices(best_note: &str, options: &[(u32, String)]) -> (r: Vec<String>)
        ensures
            string_views(r@) == quality_menu(best_note@, options@),
    {
        let mut v: Vec<String> = Vec::new();
        let best = concat_str("🌟 Best Available", best_note);
        push_text_if(&mut v, true, best.as_str());
        let ghost first = string_views(v@);
        assert(first =~= seq!["🌟 Best Available"@ + best_note@]);
        let mut i: usize = 0;
        while i < options.len()
            invariant
                i <= options@.len(),
                first == seq!["🌟 Best Available"@ + best_note@],
                string_views(v@) == resolution_entries(first, options@.take(i as int)),
            decreases options.len() - i,
        {
            let label = Self::resolution_label(options[i].0, options[i].1.as_str());
            let mut seen = false;
            let mut k: usize = 0;
            while k < v.len()
                invariant
                    k <= v@.len(),
                    seen == (exists|j: int| 0 <= j < k && v@[j]@ == label@),
                decreases v.len() - k,
            {
                if text_eq(v[k].as_str(), label.as_str()) {
                    seen = true;
                }
                k = k + 1;
            }
            proof {
                let sv = string_views(v@);
                assert(seen == sv.contains(label@)) by {
                    if seen {
                        let j = choose|j: int| 0 <= j < v@.len() && v@[j]@ == label@;
                        assert(sv[j] == label@);
                    }
                    if sv.contains(label@) {
                        let j = choose|j: int| 0 <= j < sv.len() && sv[j] == label@;
                        assert(v@[j]@ == label@);
                    }
                }
                let pre = options@.take(i + 1);
                assert(pre.drop_last() =~= options@.take(i as int));
                assert(pre.last() == options@[i as int]);
            }
            push_text_if(&mut v, !seen, label.as_str());
            proof {
                let sv_old = resolution_entries(first, options@.take(i as int));
                assert(string_views(v@) =~= push_new(sv_old, label@));
            }
            i = i + 1;
        }
        assert(options@.take(options@.len() as int) =~= options@);
        push_text_if(&mut v, true, "⬅️  Back to URL / Main Menu");
        v
    }

    /// What a quality menu answer asks for.
    pub fn quality_request(sel: &str) -> (r: QualityRequest)
        ensures
            r == quality_request_of(sel@),
    {
        if text_eq(sel, "⬅️  Back to URL / Main Menu") {
            return QualityRequest::Back;
        }
        if text_eq(sel, "🌟 Best Available") {
            return QualityRequest::Best;
        }
        let cs = chars_of(sel);
        let mut i: usize = 0;
        assert(cs@.skip(0) =~= cs@);
        while i < cs.len() && !('0' <= cs[i] && cs[i] <= '9')
            invariant
                i <= cs@.len(),
                skip_nondigits(cs@.skip(i as int)) == skip_nondigits(cs@),
            decreases cs.len() - i,
        {
            assert(cs@.skip(i as int).drop_first() =~= cs@.skip(i + 1));
            i = i + 1;
        }
        let ghost rest = cs@.skip(i as int);
        assert(skip_nondigits(rest) == rest);
        let mut digits: Vec<char> = Vec::new();
        let mut j: usize = i;
        assert(cs@.skip(i as int) =~= rest);
        while j < cs.len() && '0' <= cs[j] && cs[j] <= '9'
            invariant
                i <= j <= cs@.len(),
                rest == cs@.skip(i as int),
                digit_run(rest) == digits@ + digit_run(cs@.skip(j as int)),
            decreases cs.len() - j,
        {
            assert(cs@.skip(j as int).drop_first() =~= cs@.skip(j + 1));
            let ghost prev = digits@;
            digits.push(cs[j]);
            assert(prev + digit_run(cs@.skip(j as int)) =~= digits@ + digit_run(cs@.skip(j + 1)));
            j = j + 1;
        }
        assert(digit_run(cs@.skip(j as int)) =~= Seq::<char>::empty());
        assert(digits@ =~= digit_run(rest));
        match parse_u32(&digits) {
            Some(h) => QualityRequest::Height(h),
            None => QualityRequest::Best,
        }
    }

    /// The subtitle menu for the languages on offer.
    pub fn subtitle_choices(langs: &Vec<String>) -> (r: Vec<String>)
        ensures
            string_views(r@) == subtitle_menu(langs@),
    {
        let mut v: Vec<String> = Vec::new();
        push_text_if(&mut v, true, "🚫 No Subtitles (None)");
        push_text_if(&mut v, offers(langs, "id"), "🇮🇩 Indonesian (.srt)");
        push_text_if(&mut v, offers(langs, "en"), "🇬🇧 English (.srt)");
        push_text_if(&mut v, offers(langs, "ko"), "🇰🇷 Korean (.srt)");
        push_text_if(&mut v, offers(langs, "ja"), "🇯🇵 Japanese (.srt)");
        push_text_if(&mut v, true, "🌐 All Available Languages (.srt)");
        push_text_if(&mut v, true, "📝 Select Specific Language(s)...");
        push_text_if(&mut v, true, "⬅️  Back to Quality");
        assert(string_views(v@) =~= subtitle_menu(langs@));
        v
    }

    /// Applies a subtitle menu answer to the preset: none clears the subtitles, a language
    /// (or all) asks for it as a sidecar file; the way back and the choice to pick
    /// languages leave the preset as it is.
    pub fn apply_subtitle_choice(p: &mut Preset, sel: &str) -> (r: SubtitleStep)
        ensures
            r == subtitle_outcome(sel@).0,
            match subtitle_outcome(sel@).1 {
                None => *final(p) == *old(p),
                Some(None) => !final(p).write_lyrics && final(p).sub_langs is None,
                Some(Some(l)) => final(p).write_lyrics && (final(p).sub_langs matches Some(ls) && string_views(
                    ls@,
                ) == seq![l]),
            },
            final(p).name == old(p).name && final(p).extract_audio == old(p).extract_audio
                && final(p).container == old(p).container,
    {
        if text_eq(sel, "⬅️  Back to Quality") {
            return SubtitleStep::Back;
        }
        if text_eq(sel, "📝 Select Specific Language(s)...") {
            return SubtitleStep::PickLanguages;
        }
        if text_eq(sel, "🚫 No Subtitles (None)") {
            p.write_lyrics = false;
            p.sub_langs = None;
            return SubtitleStep::Done;
        }
        let lang: Option<&str> = if text_eq(sel, "🇮🇩 Indonesian (.srt)") {
            Some("id")
        } else if text_eq(sel, "🇬🇧 English (.srt)") {
            Some("en")
        } else if text_eq(sel, "🇰🇷 Korean (.srt)") {
            Some("ko")
        } else if text_eq(sel, "🇯🇵 Japanese (.srt)") {
            Some("ja")
        } else if text_eq(sel, "🌐 All Available Languages (.srt)") {
            Some("all")
        } else {
            None
        };
        match lang {
            Some(l) => {
                let mut ls: Vec<String> = Vec::new();
                push_text_if(&mut ls, true, l);
                p.write_lyrics = true;
                p.sub_langs = Some(ls);
            },
            None => {},
        }
        SubtitleStep::Done
    }

    /// Applies the languages picked one by one: subtitles in those languages, or none when
    /// nothing was picked.
    pub fn apply_picked_languages(p: &mut Preset, picked: Vec<String>)
        ensures
            final(p).write_lyrics == (picked@.len() > 0),
            picked@.len() > 0 ==> final(p).sub_langs == Some(picked),
            picked@.len() == 0 ==> final(p).sub_langs is None,
            final(p).name == old(p).name && final(p).extract_audio == old(p).extract_audio
                && final(p).container == old(p).container,
    {
        if picked.len() > 0 {
            p.write_lyrics = true;
            p.sub_langs = Some(picked);
        } else {
            p.write_lyrics = false;
            p.sub_langs = None;
        }
    }

    /// The preset a batch menu answer picks; any other answer goes back.
    pub fn batch_menu_choice(sel: &str) -> (r: Option<&'static str>)
        ensures
            match r {
                Some(p) => batch_menu_preset(sel@) == Some(p@),
                None => batch_menu_preset(sel@) is None,
            },
    {
        if text_eq(sel, "🎬 Video (MP4 Video)") {
            Some("video")
        } else if text_eq(sel, "🎵 Music (Opus Audio)") {
            Some("music")
        } else if text_eq(sel, "📱 TikTok (Vertical MP4)") {
            Some("tiktok")
        } else {
            None
        }
    }
}

fn offers(langs: &Vec<String>, l: &str) -> (r: bool)
    ensures
        r == holds_text(langs@, l@),
{
    let mut i: usize = 0;
    while i < langs.len()
        invariant
            i <= langs@.len(),
            forall|k: int| 0 <= k < i ==> langs@[k]@ != l@,
        decreases langs.len() - i,
    {
        if text_eq(langs[i].as_str(), l) {
            assert(langs@[i as int]@ == l@);
            return true;
        }
        i = i + 1;
    }
    false
}

} // verus!
