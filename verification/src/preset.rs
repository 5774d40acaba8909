//! Download presets and the orientation-aware quality policy.

use vstd::prelude::*;
use crate::classifier::{preset_for, MediaType};
use crate::error::{DlpError, Result};
use crate::orientation::Orientation;
use crate::quality::{parse_quality, QualityPreference};
use crate::text::{chars_of, chars_eq, string_of, less_than, seq_lt, lemma_lt_total, lemma_lt_transitive};

verus! {

/// A named set of download options.
#[derive(Debug, Clone, PartialEq, Eq)]
pub struct Preset {
    pub name: String,
    pub description: Option<String>,
    pub container: String,
    pub quality: String,
    pub max_horizontal: Option<u32>,
    pub max_vertical: Option<u32>,
    pub embed_metadata: bool,
    pub embed_thumbnail: bool,
    pub crop_thumbnail_square: bool,
    pub extract_audio: bool,
    pub audio_format: Option<String>,
    pub audio_quality: Option<String>,
    pub write_lyrics: bool,
    pub embed_lyrics: bool,
    pub lyrics_format: Option<String>,
    pub sub_langs: Option<Vec<String>>,
    pub clean_metadata: bool,
    pub parse_music_tags: bool,
    pub output_template: Option<String>,
    pub output_dir: Option<String>,
}

/// The container used when a preset names none.
pub fn default_container() -> (r: String)
    ensures
        r@ == "mp4"@,
{
    "mp4".to_owned()
}

/// The quality used when a preset names none.
pub fn default_quality() -> (r: String)
    ensures
        r@ == "best"@,
{
    "best".to_owned()
}

/// The default of the boolean preset options that are on unless said otherwise.
pub fn default_true() -> (r: bool)
    ensures
        r,
{
    true
}

/// `base` limited to at most `max` (a `best` request becomes the limit itself).
pub open spec fn capped(base: QualityPreference, max: Option<u32>) -> QualityPreference {
    match max {
        Some(m) => match base {
            QualityPreference::Best => QualityPreference::SpecificHeight(m),
            QualityPreference::SpecificHeight(h) => if h > m {
                QualityPreference::SpecificHeight(m)
            } else {
                base
            },
        },
        None => base,
    }
}

impl Preset {
    /// The effective quality: the override (or the preset's own quality) capped by the
    /// limit of the orientation; `None` when the quality text is invalid.
    pub open spec fn effective_quality(self, override_quality: Option<Seq<char>>, o: Orientation) -> Option<
        QualityPreference,
    > {
        let q = match override_quality {
            Some(s) => s,
            None => self.quality@,
        };
        match parse_quality(q) {
            Some(b) => Some(
                match o {
                    Orientation::Horizontal => capped(b, self.max_horizontal),
                    Orientation::Vertical => capped(b, self.max_vertical),
                    Orientation::Square => b,
                },
            ),
            None => None,
        }
    }

    /// Determines the effective quality limit considering orientation policies.
    pub fn effective_quality_preference(&self, override_quality: Option<&str>, orientation: Orientation) -> (r:
        Result<QualityPreference>)
        ensures
            match r {
                Ok(q) => self.effective_quality(
                    match override_quality { Some(s) => Some(s@), None => None },
                    orientation,
                ) == Some(q),
                Err(e) => self.effective_quality(
                    match override_quality { Some(s) => Some(s@), None => None },
                    orientation,
                ) is None && (e matches DlpError::InvalidQuality(s) && s@ == (match override_quality {
                    Some(s) => s@,
                    None => self.quality@,
                })),
            },
    {
        let qual_str: &str = match override_quality {
            Some(s) => s,
            None => self.quality.as_str(),
        };
        let base_pref = QualityPreference::parse(qual_str)?;
        let cap = match orientation {
            Orientation::Horizontal => self.max_horizontal,
            Orientation::Vertical => self.max_vertical,
            Orientation::Square => None,
        };
        let effective = match cap {
            Some(m) => match base_pref {
                QualityPreference::Best => QualityPreference::SpecificHeight(m),
                QualityPreference::SpecificHeight(h) => if h > m {
                    QualityPreference::SpecificHeight(m)
                } else {
                    base_pref
                },
            },
            None => base_pref,
        };
        Ok(effective)
    }
}

/// The preset of `ps` named `name`, if any.
pub open spec fn lookup(ps: Seq<Preset>, name: Seq<char>) -> Option<Preset>
    decreases ps.len(),
{
    if ps.len() == 0 {
        None
    } else if ps.last().name@ == name {
        Some(ps.last())
    } else {
        lookup(ps.drop_last(), name)
    }
}

/// No two presets share a name.
pub open spec fn names_unique(ps: Seq<Preset>) -> bool {
    forall|i: int, j: int| 0 <= i < j < ps.len() ==> ps[i].name@ != ps[j].name@
}

/// The presets known to the application, at most one per name.
#[derive(Debug, Clone)]
pub struct PresetManager {
    presets: Vec<Preset>,
}

proof fn lemma_lookup_found(ps: Seq<Preset>, i: int)
    requires
        names_unique(ps),
        0 <= i < ps.len(),
    ensures
        lookup(ps, ps[i].name@) == Some(ps[i]),
    decreases ps.len(),
{
    if i < ps.len() - 1 {
        assert(ps.last().name@ != ps[i].name@);
        assert(ps.drop_last()[i] == ps[i]);
        lemma_lookup_found(ps.drop_last(), i);
    }
}

proof fn lemma_lookup_absent(ps: Seq<Preset>, name: Seq<char>)
    requires
        forall|i: int| 0 <= i < ps.len() ==> ps[i].name@ != name,
    ensures
        lookup(ps, name) is None,
    decreases ps.len(),
{
    if ps.len() > 0 {
        assert forall|i: int| 0 <= i < ps.drop_last().len() implies ps.drop_last()[i].name@ != name by {
            assert(ps.drop_last()[i] == ps[i]);
        }
        lemma_lookup_absent(ps.drop_last(), name);
    }
}

proof fn lemma_lookup_is_some(ps: Seq<Preset>, name: Seq<char>)
    requires
        lookup(ps, name) is Some,
    ensures
        exists|i: int| 0 <= i < ps.len() && ps[i].name@ == name && lookup(ps, name) == Some(ps[i]),
    decreases ps.len(),
{
    if ps.last().name@ != name {
        lemma_lookup_is_some(ps.drop_last(), name);
        let i = choose|i: int| 0 <= i < ps.drop_last().len() && ps.drop_last()[i].name@ == name && lookup(
            ps.drop_last(),
            name,
        ) == Some(ps.drop_last()[i]);
        assert(ps[i] == ps.drop_last()[i]);
    } else {
        assert(ps[ps.len() - 1] == ps.last());
    }
}

impl PresetManager {
    /// The presets, as a sequence without repeated names.
    pub closed spec fn presets(self) -> Seq<Preset> {
        self.presets@
    }

    /// The preset named `name`, if any (the mathematical map of the manager).
    pub open spec fn get_spec(self, name: Seq<char>) -> Option<Preset> {
        lookup(self.presets(), name)
    }

    /// No two presets share a name.
    pub closed spec fn wf(self) -> bool {
        names_unique(self.presets@)
    }

    /// A manager without presets.
    pub fn new() -> (m: Self)
        ensures
            m.wf(),
            m.presets().len() == 0,
            forall|n: Seq<char>| m.get_spec(n) is None,
    {
        PresetManager { presets: Vec::new() }
    }

    /// Adds `preset`, replacing any preset of the same name.
    pub fn insert(&mut self, preset: Preset)
        requires
            old(self).wf(),
        ensures
            final(self).wf(),
            final(self).get_spec(preset.name@) == Some(preset),
            forall|n: Seq<char>| n != preset.name@ ==> final(self).get_spec(n) == old(self).get_spec(n),
    {
        let ghost old_ps = self.presets@;
        let pn = chars_of(preset.name.as_str());
        let mut i: usize = 0;
        while i < self.presets.len() && !chars_eq(&chars_of(self.presets[i].name.as_str()), &pn)
            invariant
                i <= self.presets@.len(),
                self.presets@ == old_ps,
                pn@ == preset.name@,
                forall|k: int| 0 <= k < i ==> self.presets@[k].name@ != preset.name@,
            decreases self.presets.len() - i,
        {
            i = i + 1;
        }
        if i < self.presets.len() {
            let ghost p = preset;
            self.presets.set(i, preset);
            proof {
                let nw = self.presets@;
                assert(nw == old_ps.update(i as int, p));
                assert(old_ps[i as int].name@ == p.name@);
                assert(names_unique(nw)) by {
                    assert forall|a: int, b: int| 0 <= a < b < nw.len() implies nw[a].name@ != nw[b].name@ by {
                        if a == i {
                            assert(old_ps[b].name@ != old_ps[i as int].name@);
                        } else if b == i {
                            assert(old_ps[a].name@ != old_ps[i as int].name@);
                        }
                    }
                }
                lemma_lookup_found(nw, i as int);
                assert forall|n: Seq<char>| n != p.name@ implies lookup(nw, n) == lookup(old_ps, n) by {
                    if lookup(old_ps, n) is Some {
                        lemma_lookup_is_some(old_ps, n);
                        let k = choose|k: int| 0 <= k < old_ps.len() && old_ps[k].name@ == n && lookup(old_ps, n) == Some(old_ps[k]);
                        assert(k != i);
                        assert(nw[k] == old_ps[k]);
                        lemma_lookup_found(nw, k);
                        lemma_lookup_found(old_ps, k);
                    } else {
                        if exists|k: int| 0 <= k < old_ps.len() && old_ps[k].name@ == n {
                            let k = choose|k: int| 0 <= k < old_ps.len() && old_ps[k].name@ == n;
                            lemma_lookup_found(old_ps, k);
                        }
                        assert forall|k: int| 0 <= k < nw.len() implies nw[k].name@ != n by {
                            if k != i {
                                assert(nw[k] == old_ps[k]);
                            }
                        }
                        lemma_lookup_absent(nw, n);
                    }
                }
            }
        } else {
            let ghost p = preset;
            self.presets.push(preset);
            proof {
                let nw = self.presets@;
                assert(nw == old_ps.push(p));
                assert(nw.drop_last() =~= old_ps);
                assert(names_unique(nw)) by {
                    assert forall|a: int, b: int| 0 <= a < b < nw.len() implies nw[a].name@ != nw[b].name@ by {
                        if b == nw.len() - 1 {
                            assert(old_ps[a].name@ != p.name@);
                        } else {
                            assert(nw[a] == old_ps[a] && nw[b] == old_ps[b]);
                        }
                    }
                }
            }
        }
    }

    /// The preset named `name`, if any.
    pub fn get(&self, name: &str) -> (r: Option<&Preset>)
        requires
            self.wf(),
        ensures
            match r {
                Some(p) => self.get_spec(name@) == Some(*p),
                None => self.get_spec(name@) is None,
            },
    {
        let nm = chars_of(name);
        let mut i: usize = 0;
        while i < self.presets.len()
            invariant
                i <= self.presets@.len(),
                nm@ == name@,
                names_unique(self.presets@),
                forall|k: int| 0 <= k < i ==> self.presets@[k].name@ != name@,
            decreases self.presets.len() - i,
        {
            if chars_eq(&chars_of(self.presets[i].name.as_str()), &nm) {
                proof { lemma_lookup_found(self.presets@, i as int); }
                return Some(&self.presets[i]);
            }
            i = i + 1;
        }
        proof { lemma_lookup_absent(self.presets@, name@); }
        None
    }

    /// The presets sorted by name.
    pub fn list(&self) -> (r: Vec<&Preset>)
        requires
            self.wf(),
        ensures
            r@.len() == self.presets().len(),
            forall|i: int, j: int| 0 <= i < j < r@.len() ==> seq_lt(r@[i].name@, r@[j].name@),
            forall|i: int| 0 <= i < r@.len() ==> self.get_spec(r@[i].name@) == Some(*r@[i]),
    {
        let ghost ps = self.presets@;
        let mut res: Vec<&Preset> = Vec::new();
        let mut i: usize = 0;
        while i < self.presets.len()
            invariant
                ps == self.presets@,
                names_unique(ps),
                i <= ps.len(),
                res@.len() == i,
                forall|a: int, b: int| 0 <= a < b < res@.len() ==> seq_lt(res@[a].name@, res@[b].name@),
                forall|a: int| 0 <= a < res@.len() ==> exists|k: int| 0 <= k < i && *(#[trigger] res@[a]) == ps[k],
            decreases self.presets.len() - i,
        {
            let p: &Preset = &self.presets[i];
            let pn = chars_of(p.name.as_str());
            let mut pos: usize = 0;
            while pos < res.len() && !less_than(&pn, &chars_of(res[pos].name.as_str()))
                invariant
                    pos <= res@.len(),
                    pn@ == p.name@,
                    forall|a: int| 0 <= a < pos ==> !seq_lt(p.name@, #[trigger] res@[a].name@),
                decreases res.len() - pos,
            {
                pos = pos + 1;
            }
            proof {
                assert forall|a: int| 0 <= a < res@.len() implies res@[a].name@ != p.name@ by {
                    let k = choose|k: int| 0 <= k < i && *res@[a] == ps[k];
                    assert(ps[k].name@ != ps[i as int].name@);
                }
                assert forall|a: int| 0 <= a < pos implies seq_lt(res@[a].name@, p.name@) by {
                    lemma_lt_total(res@[a].name@, p.name@);
                }
                if pos < res@.len() {
                    assert forall|a: int| pos <= a < res@.len() implies seq_lt(p.name@, res@[a].name@) by {
                        if a > pos {
                            lemma_lt_transitive(p.name@, res@[pos as int].name@, res@[a].name@);
                        }
                    }
                }
            }
            let ghost old_res = res@;
            res.insert(pos, p);
            proof {
                assert(res@ == old_res.insert(pos as int, p));
                assert forall|a: int, b: int| 0 <= a < b < res@.len() implies seq_lt(res@[a].name@, res@[b].name@) by {
                    if a < pos && b < pos {
                        assert(res@[a] == old_res[a] && res@[b] == old_res[b]);
                    } else if a < pos && b == pos {
                        assert(res@[a] == old_res[a]);
                    } else if a < pos && b > pos {
                        assert(res@[a] == old_res[a] && res@[b] == old_res[b - 1]);
                        lemma_lt_transitive(old_res[a].name@, p.name@, old_res[b - 1].name@);
                    } else if a == pos {
                        assert(res@[b] == old_res[b - 1]);
                    } else {
                        assert(res@[a] == old_res[a - 1] && res@[b] == old_res[b - 1]);
                    }
                }
                assert forall|a: int| 0 <= a < res@.len() implies exists|k: int| 0 <= k < i + 1 && *(#[trigger] res@[a]) == ps[k] by {
                    if a < pos {
                        assert(res@[a] == old_res[a]);
                        let k = choose|k: int| 0 <= k < i && *old_res[a] == ps[k];
                        assert(*res@[a] == ps[k]);
                    } else if a == pos {
                        assert(*res@[a] == ps[i as int]);
                    } else {
                        assert(res@[a] == old_res[a - 1]);
                        let k = choose|k: int| 0 <= k < i && *old_res[a - 1] == ps[k];
                        assert(*res@[a] == ps[k]);
                    }
                }
            }
            i = i + 1;
        }
        proof {
            assert forall|a: int| 0 <= a < res@.len() implies self.get_spec(res@[a].name@) == Some(*res@[a]) by {
                let k = choose|k: int| 0 <= k < ps.len() && *res@[a] == ps[k];
                lemma_lookup_found(ps, k);
            }
        }
        res
    }

    /// A manager holding the built-in `video`, `music` and `tiktok` presets.
    pub fn with_defaults() -> (m: Self)
        ensures
            m.wf(),
            m.get_spec("video"@) matches Some(p) && builtin_video(p),
            m.get_spec("music"@) matches Some(p) && builtin_music(p),
            m.get_spec("tiktok"@) matches Some(p) && builtin_tiktok(p),
            forall|n: Seq<char>| n != "video"@ && n != "music"@ && n != "tiktok"@ ==> m.get_spec(n) is None,
    {
        let mut m = Self::new();
        let v = Preset::builtin_video();
        let mu = Preset::builtin_music();
        let t = Preset::builtin_tiktok();
        proof {
            reveal_strlit("video");
            reveal_strlit("music");
            reveal_strlit("tiktok");
            assert("video"@[0] != "music"@[0]);
            assert(v.name@ != mu.name@);
            assert("video"@.len() != "tiktok"@.len());
            assert(v.name@ != t.name@);
            assert(mu.name@ != t.name@);
        }
        m.insert(v);
        m.insert(mu);
        m.insert(t);
        m
    }
}

/// The built-in video preset: MP4 up to 2160p horizontal and 1440p vertical.
pub open spec fn builtin_video(p: Preset) -> bool {
    &&& p.name@ == "video"@
    &&& p.container@ == "mp4"@
    &&& p.quality@ == "best"@
    &&& p.max_horizontal == Some(2160u32)
    &&& p.max_vertical == Some(1440u32)
    &&& p.embed_metadata && p.embed_thumbnail
    &&& !p.crop_thumbnail_square && !p.extract_audio && !p.write_lyrics && !p.embed_lyrics
    &&& p.audio_format is None && p.output_template is None && p.output_dir is None
}

/// The built-in music preset: Opus audio with square cover art and `.lrc` lyrics.
pub open spec fn builtin_music(p: Preset) -> bool {
    &&& p.name@ == "music"@
    &&& p.container@ == "opus"@
    &&& p.quality@ == "best"@
    &&& p.extract_audio
    &&& p.audio_format matches Some(f) && f@ == "opus"@
    &&& p.audio_quality matches Some(q) && q@ == "0"@
    &&& p.crop_thumbnail_square && p.write_lyrics && !p.embed_lyrics
    &&& p.lyrics_format matches Some(l) && l@ == "lrc"@
    &&& p.clean_metadata && p.parse_music_tags
    &&& p.embed_metadata && p.embed_thumbnail
}

/// The built-in TikTok preset: vertical MP4 up to 1440p in per-creator folders.
pub open spec fn builtin_tiktok(p: Preset) -> bool {
    &&& p.name@ == "tiktok"@
    &&& p.container@ == "mp4"@
    &&& p.quality@ == "best"@
    &&& p.max_vertical == Some(1440u32)
    &&& !p.extract_audio
    &&& p.output_template matches Some(t)
        && t@ == "%(uploader,creator)s/%(upload_date>%Y-%m-%d)s_%(id)s_%(title).60s.%(ext)s"@
}

impl Preset {
    /// The built-in video preset.
    pub fn builtin_video() -> (p: Self)
        ensures
            builtin_video(p),
    {
        Preset {
            name: "video".to_owned(),
            description: Some("Standard video download (MP4, orientation-aware resolution caps)".to_owned()),
            container: "mp4".to_owned(),
            quality: "best".to_owned(),
            max_horizontal: Some(2160),
            max_vertical: Some(1440),
            embed_metadata: true,
            embed_thumbnail: true,
            crop_thumbnail_square: false,
            extract_audio: false,
            audio_format: None,
            audio_quality: None,
            write_lyrics: false,
            embed_lyrics: false,
            lyrics_format: None,
            sub_langs: None,
            clean_metadata: false,
            parse_music_tags: false,
            output_template: None,
            output_dir: None,
        }
    }

    /// The built-in music preset.
    pub fn builtin_music() -> (p: Self)
        ensures
            builtin_music(p),
    {
        Preset {
            name: "music".to_owned(),
            description: Some("Studio-quality Opus audio with 1:1 cover art and synced lyrics".to_owned()),
            container: "opus".to_owned(),
            quality: "best".to_owned(),
            max_horizontal: None,
            max_vertical: None,
            embed_metadata: true,
            embed_thumbnail: true,
            crop_thumbnail_square: true,
            extract_audio: true,
            audio_format: Some("opus".to_owned()),
            audio_quality: Some("0".to_owned()),
            write_lyrics: true,
            embed_lyrics: false,
            lyrics_format: Some("lrc".to_owned()),
            sub_langs: None,
            clean_metadata: true,
            parse_music_tags: true,
            output_template: None,
            output_dir: None,
        }
    }

    /// The built-in TikTok preset.
    pub fn builtin_tiktok() -> (p: Self)
        ensures
            builtin_tiktok(p),
    {
        Preset {
            name: "tiktok".to_owned(),
            description: Some("Vertical short-form video (TikTok / Shorts / Reels)".to_owned()),
            container: "mp4".to_owned(),
            quality: "best".to_owned(),
            max_horizontal: None,
            max_vertical: Some(1440),
            embed_metadata: true,
            embed_thumbnail: true,
            crop_thumbnail_square: false,
            extract_audio: false,
            audio_format: None,
            audio_quality: None,
            write_lyrics: false,
            embed_lyrics: false,
            lyrics_format: None,
            sub_langs: None,
            clean_metadata: false,
            parse_music_tags: false,
            output_template: Some(
                "%(uploader,creator)s/%(upload_date>%Y-%m-%d)s_%(id)s_%(title).60s.%(ext)s".to_owned(),
            ),
            output_dir: None,
        }
    }
}

/// Adding a preset never takes one away: every name the manager knew it still knows.
pub proof fn insert_keeps_every_name(before: PresetManager, after: PresetManager, added: Preset)
    requires
        after.get_spec(added.name@) == Some(added),
        forall|n: Seq<char>| n != added.name@ ==> after.get_spec(n) == before.get_spec(n),
    ensures
        forall|n: Seq<char>| #[trigger] before.get_spec(n) is Some ==> after.get_spec(n) is Some,
{
    assert forall|n: Seq<char>| #[trigger] before.get_spec(n) is Some implies after.get_spec(n) is Some by {
        if n != added.name@ {
            assert(after.get_spec(n) == before.get_spec(n));
        }
    }
}

/// Automatic preset choice always finds its preset: a classification names `video`,
/// `music` or `tiktok`, which are built in, and presets loaded later only add or replace.
pub proof fn classified_preset_is_available(defaults: PresetManager, loaded: PresetManager, t: MediaType)
    requires
        defaults.get_spec("video"@) is Some,
        defaults.get_spec("music"@) is Some,
        defaults.get_spec("tiktok"@) is Some,
        forall|n: Seq<char>| #[trigger] defaults.get_spec(n) is Some ==> loaded.get_spec(n) is Some,
    ensures
        loaded.get_spec(preset_for(t)) is Some,
{
    match t {
        MediaType::Music => assert(defaults.get_spec("music"@) is Some),
        MediaType::VerticalVideo => assert(defaults.get_spec("tiktok"@) is Some),
        MediaType::StandardVideo => assert(defaults.get_spec("video"@) is Some),
    }
}

/// The orientation policy holds: the effective quality of a preset never asks for more
/// than the preset's limit for the orientation (a limited preset never asks for the best
/// stream).
pub proof fn effective_quality_within_limit(p: Preset, override_quality: Option<Seq<char>>, o: Orientation)
    ensures
        match p.effective_quality(override_quality, o) {
            Some(QualityPreference::SpecificHeight(h)) => (o == Orientation::Horizontal && p.max_horizontal is Some
                ==> h <= p.max_horizontal.unwrap()) && (o == Orientation::Vertical && p.max_vertical is Some ==> h
                <= p.max_vertical.unwrap()),
            Some(QualityPreference::Best) => (o == Orientation::Horizontal ==> p.max_horizontal is None) && (o
                == Orientation::Vertical ==> p.max_vertical is None),
            None => true,
        },
{
}

} // verus!
