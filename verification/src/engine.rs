//! The yt-dlp engine: the metadata request and the descriptions that the download events
//! carry.

use vstd::prelude::*;
use crate::downloader::{opt_pair, target_dir};
use crate::normalizer::output_ext;
use crate::preset::Preset;
use crate::quality::QualityPreference;
use crate::recovery::opt_view;
use crate::text::{append_chars, append_str, chars_of, decimal, decimal_chars, push_text_if, string_of, string_views};

verus! {

/// The engine that drives yt-dlp.
#[derive(Debug, Clone, Copy)]
pub struct YtDlpEngine;

/// The yt-dlp arguments that fetch the metadata of `url` as one JSON document.
pub open spec fn metadata_args_for(url: Seq<char>, client: Option<Seq<char>>) -> Seq<Seq<char>> {
    seq!["--dump-single-json"@, "--no-playlist"@] + opt_pair("--impersonate"@, client) + seq![url]
}

/// How a quality is named in a fallback event: `best`, or the height with `p`.
pub open spec fn quality_tag(q: QualityPreference) -> Seq<char> {
    match q {
        QualityPreference::Best => "best"@,
        QualityPreference::SpecificHeight(h) => decimal(h as nat) + "p"@,
    }
}

impl YtDlpEngine {
    /// The yt-dlp arguments that fetch the metadata of `url`, impersonating `client` if any.
    pub fn metadata_args(url: &str, client: Option<&str>) -> (r: Vec<String>)
        ensures
            string_views(r@) == metadata_args_for(
                url@,
                match client {
                    Some(c) => Some(c@),
                    None => None,
                },
            ),
    {
        let mut v: Vec<String> = Vec::new();
        push_text_if(&mut v, true, "--dump-single-json");
        push_text_if(&mut v, true, "--no-playlist");
        match client {
            Some(c) => {
                push_text_if(&mut v, true, "--impersonate");
                push_text_if(&mut v, true, c);
            },
            None => {},
        }
        push_text_if(&mut v, true, url);
        assert(string_views(v@) =~= metadata_args_for(
            url@,
            match client {
                Some(c) => Some(c@),
                None => None,
            },
        ));
        v
    }

    /// The format a download starts with: the audio format for audio presets, else the
    /// video format selector.
    pub fn format_description(preset: &Preset, quality: &QualityPreference) -> (r: String)
        ensures
            r@ == if preset.extract_audio {
                output_ext(*preset)
            } else {
                quality.selector()
            },
    {
        if preset.extract_audio {
            match &preset.audio_format {
                Some(f) => f.clone(),
                None => "opus".to_owned(),
            }
        } else {
            quality.to_format_selector()
        }
    }

    /// Where a finished download is reported to be: the directory asked for, else the
    /// preset's, else `.`.
    pub fn output_location(preset: &Preset, override_output_dir: Option<&str>) -> (r: String)
        ensures
            r@ == match target_dir(
                *preset,
                match override_output_dir {
                    Some(d) => Some(d@),
                    None => None,
                },
            ) {
                Some(d) => d,
                None => "."@,
            },
    {
        match override_output_dir {
            Some(d) => d.to_owned(),
            None => match &preset.output_dir {
                Some(d) => d.clone(),
                None => ".".to_owned(),
            },
        }
    }

    /// How a quality is named in a fallback event.
    pub fn quality_tag(q: &QualityPreference) -> (r: String)
        ensures
            r@ == quality_tag(*q),
    {
        match q {
            QualityPreference::Best => "best".to_owned(),
            QualityPreference::SpecificHeight(h) => {
                let mut v = decimal_chars(*h as u64);
                append_str(&mut v, "p");
                string_of(&v)
            },
        }
    }
}

} // verus!
