//! The yt-dlp invocations of a download and the self-healing recovery that decides,
//! after each failed attempt, whether and how to try again.

use vstd::prelude::*;
use vstd::seq_lib::lemma_concat_associative;
use crate::normalizer::{format_desc_of, output_ext, post_steps_of};
use crate::preset::Preset;
use crate::quality::QualityPreference;
use crate::recovery::{DiagnosticReport, FailureCategory, FailureView, opt_view};
use crate::text::{
    append_chars, append_str, chars_of, chars_eq_str, decimal, decimal_chars, lowercase, push_text_if,
    string_of, string_views,
};
use crate::tiktok::{tiktok_lowered, TikTokFallback};

verus! {

/// The strings joined with `,`.
pub open spec fn join_commas(s: Seq<Seq<char>>) -> Seq<char>
    decreases s.len(),
{
    if s.len() == 0 {
        seq![]
    } else if s.len() == 1 {
        s[0]
    } else {
        join_commas(s.drop_last()) + ","@ + s.last()
    }
}

fn join_with_commas(ls: &Vec<String>) -> (r: String)
    ensures
        r@ == join_commas(string_views(ls@)),
{
    let mut out: Vec<char> = Vec::new();
    let mut i: usize = 0;
    while i < ls.len()
        invariant
            i <= ls@.len(),
            out@ == join_commas(string_views(ls@).take(i as int)),
        decreases ls.len() - i,
    {
        let ghost pre = string_views(ls@).take(i + 1);
        assert(pre.drop_last() =~= string_views(ls@).take(i as int));
        if i > 0 {
            append_str(&mut out, ",");
        }
        append_str(&mut out, ls[i].as_str());
        proof {
            if i == 0 {
                assert(out@ =~= pre[0]);
            }
        }
        i = i + 1;
    }
    assert(string_views(ls@).take(ls@.len() as int) =~= string_views(ls@));
    string_of(&out)
}

/// The arguments that convert the thumbnail and crop it to a square.
pub open spec fn crop_args() -> Seq<Seq<char>> {
    seq!["--convert-thumbnails"@, "jpg"@, "--postprocessor-args"@, "ThumbnailsConvertor+ffmpeg_o:-vf crop=ih:ih -c:v mjpeg"@, "--postprocessor-args"@, "EmbedThumbnail:-map_metadata 0"@]
}

fn push_crop_args(v: &mut Vec<String>)
    ensures
        string_views(final(v)@) == string_views(old(v)@) + crop_args(),
{
    let ghost start = string_views(v@);
    push_text_if(v, true, "--convert-thumbnails");
    push_text_if(v, true, "jpg");
    push_text_if(v, true, "--postprocessor-args");
    push_text_if(v, true, "ThumbnailsConvertor+ffmpeg_o:-vf crop=ih:ih -c:v mjpeg");
    push_text_if(v, true, "--postprocessor-args");
    push_text_if(v, true, "EmbedThumbnail:-map_metadata 0");
    assert(string_views(v@) =~= start + crop_args());
}

/// The arguments that strip " - Topic" and noise tags from the metadata.
pub open spec fn clean_args() -> Seq<Seq<char>> {
    seq!["--replace-in-metadata"@, "uploader,artist"@, " - Topic$"@, ""@, "--replace-in-metadata"@, "title"@, "(?i)\\s*[\\(\\[](?:official\\s*(?:video|audio|music\\s*video|lyric\\s*video|visualizer|mv)?|mv|performance\\s*video|audio|lyrics?|color\\s*coded\\s*lyrics?|remastered(?:\\s*\\d+)?|\\d+k\\s*remaster)[\\)\\]]"@, ""@]
}

fn push_clean_args(v: &mut Vec<String>)
    ensures
        string_views(final(v)@) == string_views(old(v)@) + clean_args(),
{
    let ghost start = string_views(v@);
    push_text_if(v, true, "--replace-in-metadata");
    push_text_if(v, true, "uploader,artist");
    push_text_if(v, true, " - Topic$");
    push_text_if(v, true, "");
    push_text_if(v, true, "--replace-in-metadata");
    push_text_if(v, true, "title");
    push_text_if(v, true, "(?i)\\s*[\\(\\[](?:official\\s*(?:video|audio|music\\s*video|lyric\\s*video|visualizer|mv)?|mv|performance\\s*video|audio|lyrics?|color\\s*coded\\s*lyrics?|remastered(?:\\s*\\d+)?|\\d+k\\s*remaster)[\\)\\]]");
    push_text_if(v, true, "");
    assert(string_views(v@) =~= start + clean_args());
}

/// The arguments that map music tags into the file metadata.
pub open spec fn music_tag_args() -> Seq<Seq<char>> {
    seq!["--parse-metadata"@, "playlist_index:%(track_number)s"@, "--parse-metadata"@, "%(artist,uploader)s:^(?P<main_artist>[^,]+)"@, "--parse-metadata"@, "%(main_artist,artist,uploader)s:%(meta_artist)s"@, "--parse-metadata"@, "%(main_artist,artist,uploader)s:%(meta_album_artist)s"@, "--parse-metadata"@, "%(album,playlist_title)s:%(meta_album)s"@, "--parse-metadata"@, "%(genre)s:%(meta_genre)s"@, "--parse-metadata"@, "%(disc_number)s:%(meta_disc)s"@, "--parse-metadata"@, "%(release_date>%Y-%m-%d,upload_date>%Y-%m-%d,timestamp>%Y-%m-%d)s:%(meta_date)s"@, "--parse-metadata"@, "%(release_date>%Y,upload_date>%Y,timestamp>%Y)s:%(meta_year)s"@, "--parse-metadata"@, "%(release_timestamp>%Y-%m-%d %H\\:%M\\:%S,timestamp>%Y-%m-%d %H\\:%M\\:%S,upload_date>%Y-%m-%d 00\\:00\\:00)s:%(meta_creation_time)s"@]
}

fn push_music_tag_args(v: &mut Vec<String>)
    ensures
        string_views(final(v)@) == string_views(old(v)@) + music_tag_args(),
{
    let ghost start = string_views(v@);
    push_text_if(v, true, "--parse-metadata");
    push_text_if(v, true, "playlist_index:%(track_number)s");
    push_text_if(v, true, "--parse-metadata");
    push_text_if(v, true, "%(artist,uploader)s:^(?P<main_artist>[^,]+)");
    push_text_if(v, true, "--parse-metadata");
    push_text_if(v, true, "%(main_artist,artist,uploader)s:%(meta_artist)s");
    push_text_if(v, true, "--parse-metadata");
    push_text_if(v, true, "%(main_artist,artist,uploader)s:%(meta_album_artist)s");
    push_text_if(v, true, "--parse-metadata");
    push_text_if(v, true, "%(album,playlist_title)s:%(meta_album)s");
    push_text_if(v, true, "--parse-metadata");
    push_text_if(v, true, "%(genre)s:%(meta_genre)s");
    push_text_if(v, true, "--parse-metadata");
    push_text_if(v, true, "%(disc_number)s:%(meta_disc)s");
    push_text_if(v, true, "--parse-metadata");
    push_text_if(v, true, "%(release_date>%Y-%m-%d,upload_date>%Y-%m-%d,timestamp>%Y-%m-%d)s:%(meta_date)s");
    push_text_if(v, true, "--parse-metadata");
    push_text_if(v, true, "%(release_date>%Y,upload_date>%Y,timestamp>%Y)s:%(meta_year)s");
    push_text_if(v, true, "--parse-metadata");
    push_text_if(v, true, "%(release_timestamp>%Y-%m-%d %H\\:%M\\:%S,timestamp>%Y-%m-%d %H\\:%M\\:%S,upload_date>%Y-%m-%d 00\\:00\\:00)s:%(meta_creation_time)s");
    assert(string_views(v@) =~= start + music_tag_args());
}

/// The arguments that make yt-dlp print one parsable progress line per update.
pub open spec fn progress_args() -> Seq<Seq<char>> {
    seq!["--no-playlist"@, "--newline"@, "--progress"@, "--progress-template"@, "download:__DLP__:%(progress._percent_str)s|%(progress._speed_str)s|%(progress._eta_str)s|%(progress._total_bytes_str,progress._total_bytes_estimate_str)s"@]
}

fn push_progress_args(v: &mut Vec<String>)
    ensures
        string_views(final(v)@) == string_views(old(v)@) + progress_args(),
{
    let ghost start = string_views(v@);
    push_text_if(v, true, "--no-playlist");
    push_text_if(v, true, "--newline");
    push_text_if(v, true, "--progress");
    push_text_if(v, true, "--progress-template");
    push_text_if(v, true, "download:__DLP__:%(progress._percent_str)s|%(progress._speed_str)s|%(progress._eta_str)s|%(progress._total_bytes_str,progress._total_bytes_estimate_str)s");
    assert(string_views(v@) =~= start + progress_args());
}

/// `seq![a, b]` when the option holds `b`, else nothing.
pub open spec fn opt_pair(flag: Seq<char>, o: Option<Seq<char>>) -> Seq<Seq<char>> {
    match o {
        Some(x) => seq![flag, x],
        None => seq![],
    }
}

/// `seq![a]` when `cond`, else nothing.
pub open spec fn flag_if(cond: bool, a: Seq<char>) -> Seq<Seq<char>> {
    if cond {
        seq![a]
    } else {
        seq![]
    }
}

/// The impersonation arguments: the client asked for, else `chrome` for TikTok URLs.
pub open spec fn impersonation_args(url: Seq<char>, client: Option<Seq<char>>) -> Seq<Seq<char>> {
    match client {
        Some(c) => seq!["--impersonate"@, c],
        None => if tiktok_lowered(lowercase(url)) {
            seq!["--impersonate"@, "chrome"@]
        } else {
            seq![]
        },
    }
}

/// The format arguments: audio extraction, or the video selector and container.
pub open spec fn format_args(p: Preset, q: QualityPreference) -> Seq<Seq<char>> {
    if p.extract_audio {
        seq!["--ignore-config"@, "-x"@, "--audio-format"@, output_ext(p)] + opt_pair(
            "--audio-quality"@,
            opt_view(p.audio_quality),
        ) + seq!["-f"@, "251/140/bestaudio/best"@, "--remux-video"@, output_ext(p)]
    } else {
        seq!["-f"@, q.selector(), "--merge-output-format"@, p.container@, "--remux-video"@, p.container@]
    }
}

/// The languages of the subtitles to fetch.
pub open spec fn sub_langs_arg(p: Preset) -> Seq<char> {
    match p.sub_langs {
        Some(ls) => if ls@.len() > 0 {
            join_commas(string_views(ls@))
        } else {
            "all,-live_chat"@
        },
        None => "all,-live_chat"@,
    }
}

/// The subtitle format: the preset's lyrics format, else `lrc` for audio and `srt` for video.
pub open spec fn sub_format(p: Preset) -> Seq<char> {
    match p.lyrics_format {
        Some(f) => f@,
        None => if p.extract_audio {
            "lrc"@
        } else {
            "srt"@
        },
    }
}

/// The subtitle arguments, when the preset wants lyrics or subtitles (always as sidecar files).
pub open spec fn subtitle_args(p: Preset) -> Seq<Seq<char>> {
    if p.write_lyrics || p.sub_langs is Some {
        seq![
            "--write-subs"@,
            "--write-auto-subs"@,
            "--sub-langs"@,
            sub_langs_arg(p),
            "--sub-format"@,
            sub_format(p) + "/best"@,
            "--convert-subs"@,
            sub_format(p)
        ]
    } else {
        seq![]
    }
}

/// The output directory: the one asked for, else the preset's.
pub open spec fn target_dir(p: Preset, override_dir: Option<Seq<char>>) -> Option<Seq<char>> {
    match override_dir {
        Some(d) => Some(d),
        None => opt_view(p.output_dir),
    }
}

/// The yt-dlp arguments of one download attempt.
pub open spec fn download_args_for(
    url: Seq<char>,
    p: Preset,
    q: QualityPreference,
    override_dir: Option<Seq<char>>,
    client: Option<Seq<char>>,
) -> Seq<Seq<char>> {
    impersonation_args(url, client) + format_args(p, q) + seq!["--windows-filenames"@] + flag_if(
        p.embed_metadata,
        "--embed-metadata"@,
    ) + flag_if(p.embed_thumbnail, "--embed-thumbnail"@) + (if p.crop_thumbnail_square {
        crop_args()
    } else {
        seq![]
    }) + (if p.clean_metadata {
        clean_args()
    } else {
        seq![]
    }) + subtitle_args(p) + (if p.parse_music_tags {
        music_tag_args()
    } else {
        seq![]
    }) + progress_args() + opt_pair("-o"@, opt_view(p.output_template)) + opt_pair(
        "-P"@,
        target_dir(p, override_dir),
    ) + seq![url]
}

/// The arguments between the format ones and the subtitle ones.
spec fn middle_args(p: Preset) -> Seq<Seq<char>> {
    seq!["--windows-filenames"@] + flag_if(p.embed_metadata, "--embed-metadata"@) + flag_if(
        p.embed_thumbnail,
        "--embed-thumbnail"@,
    ) + (if p.crop_thumbnail_square {
        crop_args()
    } else {
        seq![]
    }) + (if p.clean_metadata {
        clean_args()
    } else {
        seq![]
    })
}

/// The arguments after the subtitle ones, up to the output directory.
spec fn output_args(p: Preset) -> Seq<Seq<char>> {
    (if p.parse_music_tags {
        music_tag_args()
    } else {
        seq![]
    }) + progress_args() + opt_pair("-o"@, opt_view(p.output_template))
}

/// The arguments of a download grouped by purpose.
proof fn lemma_args_shape(url: Seq<char>, p: Preset, q: QualityPreference, override_dir: Option<Seq<char>>, client: Option<
    Seq<char>,
>)
    ensures
        download_args_for(url, p, q, override_dir, client) == impersonation_args(url, client) + format_args(p, q)
            + middle_args(p) + subtitle_args(p) + output_args(p) + opt_pair("-P"@, target_dir(p, override_dir))
            + seq![url],
{
    let a = impersonation_args(url, client) + format_args(p, q);
    let wf = seq!["--windows-filenames"@];
    let em = flag_if(p.embed_metadata, "--embed-metadata"@);
    let et = flag_if(p.embed_thumbnail, "--embed-thumbnail"@);
    let cr: Seq<Seq<char>> = if p.crop_thumbnail_square {
        crop_args()
    } else {
        seq![]
    };
    let cl: Seq<Seq<char>> = if p.clean_metadata {
        clean_args()
    } else {
        seq![]
    };
    lemma_concat_associative(a, wf, em);
    lemma_concat_associative(a, wf + em, et);
    lemma_concat_associative(a, wf + em + et, cr);
    lemma_concat_associative(a, wf + em + et + cr, cl);
    let l3 = a + middle_args(p) + subtitle_args(p);
    let mu: Seq<Seq<char>> = if p.parse_music_tags {
        music_tag_args()
    } else {
        seq![]
    };
    lemma_concat_associative(l3, mu, progress_args());
    lemma_concat_associative(l3, mu + progress_args(), opt_pair("-o"@, opt_view(p.output_template)));
}

proof fn lemma_concat_index<A>(a: Seq<A>, b: Seq<A>, i: int)
    requires
        0 <= i < a.len(),
    ensures
        (a + b)[i] == a[i],
{
}

proof fn lemma_concat_index_right<A>(a: Seq<A>, b: Seq<A>, i: int)
    requires
        0 <= i < b.len(),
    ensures
        (a + b)[a.len() + i] == b[i],
{
}

proof fn lemma_format_named(url: Seq<char>, p: Preset, q: QualityPreference, override_dir: Option<Seq<char>>, client: Option<
    Seq<char>,
>)
    ensures
        ({
            let args = download_args_for(url, p, q, override_dir, client);
            &&& !p.extract_audio ==> exists|i: int|
                0 <= i && i + 1 < args.len() && #[trigger] args[i] == "-f"@ && args[i + 1] == q.selector()
            &&& p.extract_audio ==> exists|i: int|
                0 <= i && i + 1 < args.len() && #[trigger] args[i] == "--audio-format"@ && args[i + 1]
                == output_ext(p)
        }),
{
    lemma_args_shape(url, p, q, override_dir, client);
    let imp = impersonation_args(url, client);
    let fa = format_args(p, q);
    let l1 = imp + fa;
    let l2 = l1 + middle_args(p);
    let l3 = l2 + subtitle_args(p);
    let l4 = l3 + output_args(p);
    let l5 = l4 + opt_pair("-P"@, target_dir(p, override_dir));
    let args = download_args_for(url, p, q, override_dir, client);
    assert(args == l5 + seq![url]);
    assert(imp.len() == 0 || imp.len() == 2);
    let j: int = if p.extract_audio { 2 } else { 0 };
    let i: int = imp.len() + j;
    assert forall|k: int| i <= k <= i + 1 implies #[trigger] args[k] == fa[k - imp.len()] by {
        lemma_concat_index_right(imp, fa, k - imp.len());
        lemma_concat_index(l1, middle_args(p), k);
        lemma_concat_index(l2, subtitle_args(p), k);
        lemma_concat_index(l3, output_args(p), k);
        lemma_concat_index(l4, opt_pair("-P"@, target_dir(p, override_dir)), k);
        lemma_concat_index(l5, seq![url], k);
    }
    assert(args[i] == fa[j]);
    assert(args[i + 1] == fa[j + 1]);
}

proof fn lemma_subtitles_written(url: Seq<char>, p: Preset, q: QualityPreference, override_dir: Option<Seq<char>>, client: Option<
    Seq<char>,
>)
    requires
        p.write_lyrics || p.sub_langs is Some,
    ensures
        download_args_for(url, p, q, override_dir, client).contains("--write-subs"@),
        download_args_for(url, p, q, override_dir, client).contains("--convert-subs"@),
{
    lemma_args_shape(url, p, q, override_dir, client);
    let l2 = impersonation_args(url, client) + format_args(p, q) + middle_args(p);
    let sa = subtitle_args(p);
    let l3 = l2 + sa;
    let l4 = l3 + output_args(p);
    let l5 = l4 + opt_pair("-P"@, target_dir(p, override_dir));
    let args = download_args_for(url, p, q, override_dir, client);
    assert(args == l5 + seq![url]);
    assert forall|k: int| 0 <= k < sa.len() implies #[trigger] args[l2.len() + k] == sa[k] by {
        lemma_concat_index_right(l2, sa, k);
        lemma_concat_index(l3, output_args(p), l2.len() + k);
        lemma_concat_index(l4, opt_pair("-P"@, target_dir(p, override_dir)), l2.len() + k);
        lemma_concat_index(l5, seq![url], l2.len() + k);
    }
    assert(args[l2.len() + 0int] == "--write-subs"@);
    assert(args[l2.len() + 6int] == "--convert-subs"@);
}

proof fn lemma_output_dir_passed(url: Seq<char>, p: Preset, q: QualityPreference, override_dir: Option<Seq<char>>, client: Option<
    Seq<char>,
>)
    ensures
        ({
            let args = download_args_for(url, p, q, override_dir, client);
            match target_dir(p, override_dir) {
                Some(d) => args[args.len() - 3] == "-P"@ && args[args.len() - 2] == d,
                None => true,
            }
        }),
{
    lemma_args_shape(url, p, q, override_dir, client);
    if let Some(d) = target_dir(p, override_dir) {
        let l4 = impersonation_args(url, client) + format_args(p, q) + middle_args(p) + subtitle_args(p) + output_args(
            p,
        );
        let pd = opt_pair("-P"@, target_dir(p, override_dir));
        let l5 = l4 + pd;
        let args = download_args_for(url, p, q, override_dir, client);
        assert(args == l5 + seq![url]);
        assert(pd == seq!["-P"@, d]);
        lemma_concat_index_right(l4, pd, 0);
        lemma_concat_index_right(l4, pd, 1);
        lemma_concat_index(l5, seq![url], l4.len() as int);
        lemma_concat_index(l5, seq![url], l4.len() + 1int);
    }
}

/// The explanation of a download (`--explain`) describes the download that runs: the
/// format it names is the one the command line asks for, subtitles it announces are
/// written as sidecar files, and the output directory is the one passed with `-P`.
pub proof fn explanation_matches_download(
    url: Seq<char>,
    p: Preset,
    q: QualityPreference,
    override_dir: Option<Seq<char>>,
    client: Option<Seq<char>>,
)
    ensures
        ({
            let args = download_args_for(url, p, q, override_dir, client);
            &&& !p.extract_audio ==> format_desc_of(p, q)[0] == "selector: "@ + q.selector() && exists|i: int|
                0 <= i && i + 1 < args.len() && #[trigger] args[i] == "-f"@ && args[i + 1] == q.selector()
            &&& p.extract_audio ==> format_desc_of(p, q)[1] == "codec: "@ + output_ext(p) && exists|i: int|
                0 <= i && i + 1 < args.len() && #[trigger] args[i] == "--audio-format"@ && args[i + 1]
                == output_ext(p)
            &&& (!p.extract_audio && (p.write_lyrics || p.sub_langs is Some)) ==> post_steps_of(p).last()
                == "subtitles → external .srt sidecar"@ && args.contains("--write-subs"@) && args.contains(
                "--convert-subs"@,
            )
            &&& (match target_dir(p, override_dir) {
                Some(d) => args[args.len() - 3] == "-P"@ && args[args.len() - 2] == d,
                None => true,
            })
        }),
{
    lemma_format_named(url, p, q, override_dir, client);
    lemma_output_dir_passed(url, p, q, override_dir, client);
    if p.write_lyrics || p.sub_langs is Some {
        lemma_subtitles_written(url, p, q, override_dir, client);
    }
}

fn push_opt_pair(v: &mut Vec<String>, flag: &str, o: Option<&str>)
    ensures
        string_views(final(v)@) == string_views(old(v)@) + opt_pair(
            flag@,
            match o {
                Some(x) => Some(x@),
                None => None,
            },
        ),
{
    let ghost start = string_views(v@);
    match o {
        Some(x) => {
            push_text_if(v, true, flag);
            push_text_if(v, true, x);
        },
        None => {},
    }
    assert(string_views(v@) =~= start + opt_pair(
        flag@,
        match o {
            Some(x) => Some(x@),
            None => None,
        },
    ));
}

fn opt_str(o: &Option<String>) -> (r: Option<&str>)
    ensures
        match r {
            Some(x) => Some(x@),
            None => None,
        } == opt_view(*o),
{
    match o {
        Some(s) => Some(s.as_str()),
        None => None,
    }
}

fn audio_format_str(p: &Preset) -> (r: &str)
    ensures
        p.extract_audio ==> r@ == output_ext(*p),
{
    match &p.audio_format {
        Some(f) => f.as_str(),
        None => "opus",
    }
}

fn sub_format_str(p: &Preset) -> (r: &str)
    ensures
        r@ == sub_format(*p),
{
    match &p.lyrics_format {
        Some(f) => f.as_str(),
        None => if p.extract_audio {
            "lrc"
        } else {
            "srt"
        },
    }
}

fn push_subtitle_args(v: &mut Vec<String>, p: &Preset)
    ensures
        string_views(final(v)@) == string_views(old(v)@) + subtitle_args(*p),
{
    let ghost start = string_views(v@);
    if p.write_lyrics || p.sub_langs.is_some() {
        push_text_if(v, true, "--write-subs");
        push_text_if(v, true, "--write-auto-subs");
        push_text_if(v, true, "--sub-langs");
        let langs = match &p.sub_langs {
            Some(ls) => if ls.len() > 0 {
                join_with_commas(ls)
            } else {
                "all,-live_chat".to_owned()
            },
            None => "all,-live_chat".to_owned(),
        };
        push_text_if(v, true, langs.as_str());
        let fmt = sub_format_str(p);
        push_text_if(v, true, "--sub-format");
        let mut f = chars_of(fmt);
        append_str(&mut f, "/best");
        let fs = string_of(&f);
        push_text_if(v, true, fs.as_str());
        push_text_if(v, true, "--convert-subs");
        push_text_if(v, true, fmt);
    }
    assert(string_views(v@) =~= start + subtitle_args(*p));
}

fn push_format_args(v: &mut Vec<String>, p: &Preset, q: &QualityPreference)
    ensures
        string_views(final(v)@) == string_views(old(v)@) + format_args(*p, *q),
{
    let ghost start = string_views(v@);
    if p.extract_audio {
        let afmt = audio_format_str(p);
        push_text_if(v, true, "--ignore-config");
        push_text_if(v, true, "-x");
        push_text_if(v, true, "--audio-format");
        push_text_if(v, true, afmt);
        push_opt_pair(v, "--audio-quality", opt_str(&p.audio_quality));
        push_text_if(v, true, "-f");
        push_text_if(v, true, "251/140/bestaudio/best");
        push_text_if(v, true, "--remux-video");
        push_text_if(v, true, afmt);
    } else {
        let sel = q.to_format_selector();
        push_text_if(v, true, "-f");
        push_text_if(v, true, sel.as_str());
        push_text_if(v, true, "--merge-output-format");
        push_text_if(v, true, p.container.as_str());
        push_text_if(v, true, "--remux-video");
        push_text_if(v, true, p.container.as_str());
    }
    assert(string_views(v@) =~= start + format_args(*p, *q));
}

/// Media downloading through yt-dlp, with recovery from failed attempts.
pub struct Downloader;

impl Downloader {
    /// The yt-dlp arguments of one download attempt of `url` with `preset` at `quality`,
    /// into `override_output_dir` (else the preset's directory), impersonating `client`
    /// (else `chrome` for TikTok URLs).
    pub fn download_args(
        url: &str,
        preset: &Preset,
        quality: &QualityPreference,
        override_output_dir: Option<&str>,
        client: Option<&str>,
    ) -> (r: Vec<String>)
        ensures
            string_views(r@) == download_args_for(
                url@,
                *preset,
                *quality,
                match override_output_dir {
                    Some(d) => Some(d@),
                    None => None,
                },
                match client {
                    Some(c) => Some(c@),
                    None => None,
                },
            ),
    {
        let mut v: Vec<String> = Vec::new();
        match client {
            Some(c) => {
                push_text_if(&mut v, true, "--impersonate");
                push_text_if(&mut v, true, c);
            },
            None => {
                let tiktok = TikTokFallback::is_tiktok_url(url);
                push_text_if(&mut v, tiktok, "--impersonate");
                push_text_if(&mut v, tiktok, "chrome");
            },
        }
        let ghost s1 = string_views(v@);
        assert(s1 =~= impersonation_args(
            url@,
            match client {
                Some(c) => Some(c@),
                None => None,
            },
        ));
        push_format_args(&mut v, preset, quality);
        push_text_if(&mut v, true, "--windows-filenames");
        push_text_if(&mut v, preset.embed_metadata, "--embed-metadata");
        push_text_if(&mut v, preset.embed_thumbnail, "--embed-thumbnail");
        if preset.crop_thumbnail_square {
            push_crop_args(&mut v);
        }
        if preset.clean_metadata {
            push_clean_args(&mut v);
        }
        push_subtitle_args(&mut v, preset);
        if preset.parse_music_tags {
            push_music_tag_args(&mut v);
        }
        push_progress_args(&mut v);
        push_opt_pair(&mut v, "-o", opt_str(&preset.output_template));
        let target: Option<&str> = match override_output_dir {
            Some(d) => Some(d),
            None => opt_str(&preset.output_dir),
        };
        push_opt_pair(&mut v, "-P", target);
        push_text_if(&mut v, true, url);
        assert(string_views(v@) =~= download_args_for(
            url@,
            *preset,
            *quality,
            match override_output_dir {
                Some(d) => Some(d@),
                None => None,
            },
            match client {
                Some(c) => Some(c@),
                None => None,
            },
        ));
        v
    }
}

/// What the downloader does after a failed attempt.
#[derive(Debug, Clone, Copy, PartialEq, Eq, Structural)]
pub enum RetryAction {
    /// Try again at once with the new settings.
    RetryNow,
    /// Back off (exponentially in `attempt`) and try again.
    RetryAfterBackoff { attempt: u32 },
    /// Stop and report the failure.
    GiveUp,
}

/// The impersonation client tried after `c` when anti-bot protection blocks a download:
/// `safari-18`, then `chrome-136`, then `firefox-135`, then none.
pub open spec fn next_client(c: Option<Seq<char>>) -> Option<Seq<char>> {
    match c {
        None => Some("safari-18"@),
        Some(x) => if x == "safari-18"@ {
            Some("chrome-136"@)
        } else if x == "chrome-136"@ {
            Some("firefox-135"@)
        } else {
            None
        },
    }
}

/// How a quality step is described to the user.
pub open spec fn quality_phrase(q: QualityPreference) -> Seq<char> {
    match q {
        QualityPreference::Best => "best available stream"@,
        QualityPreference::SpecificHeight(h) => decimal(h as nat) + "p resolution"@,
    }
}

/// The number of format fallbacks left from `q`.
pub open spec fn fallbacks_left(q: QualityPreference) -> nat {
    match q {
        QualityPreference::Best => 0,
        QualityPreference::SpecificHeight(h) => if h > 1440 {
            5
        } else if h > 1080 {
            4
        } else if h > 720 {
            3
        } else if h > 480 {
            2
        } else {
            1
        },
    }
}

/// The number of client rotations left from `c`.
pub open spec fn rotations_left(c: Option<Seq<char>>) -> nat {
    match c {
        None => 3,
        Some(x) => if x == "safari-18"@ {
            2
        } else if x == "chrome-136"@ {
            1
        } else {
            0
        },
    }
}

/// The most transient failures that are retried.
pub open spec fn max_transient_retries() -> u32 {
    3
}

/// The recovery state of a download: the quality tried, the client impersonated, and the
/// transient failures retried so far.
#[derive(Debug, Clone)]
pub struct DownloadRecovery {
    pub quality: QualityPreference,
    pub client: Option<String>,
    pub transient_attempts: u32,
}

impl DownloadRecovery {
    /// The retries left: format fallbacks, transient retries and client rotations. Every
    /// retry uses one up, so the downloader stops after finitely many attempts.
    pub open spec fn budget(self) -> nat {
        fallbacks_left(self.quality) + (if self.transient_attempts < 3 {
            (3 - self.transient_attempts) as nat
        } else {
            0
        }) + rotations_left(opt_view(self.client))
    }

    /// The state of a fresh download at `quality`, without impersonation.
    pub fn new(quality: QualityPreference) -> (r: Self)
        ensures
            r.quality == quality,
            r.client is None,
            r.transient_attempts == 0,
    {
        DownloadRecovery { quality, client: None, transient_attempts: 0 }
    }

    /// Decides what to do after an attempt failed with `category`: a format that is not
    /// available falls back to the next lower quality; a transient error is retried with
    /// backoff up to three times; an anti-bot block rotates the impersonated client; any
    /// other failure, or an exhausted strategy, gives up. The report explains the decision.
    pub fn on_failure(&mut self, category: FailureCategory) -> (r: (DiagnosticReport, RetryAction))
        ensures
            r.0.category == category,
            r.1 != RetryAction::GiveUp ==> final(self).budget() < old(self).budget(),
            match category@ {
                FailureView::FormatUnavailable(_, _) => match old(self).quality.next_fallback() {
                    Some(nq) => final(self).quality == nq && r.1 == RetryAction::RetryNow && opt_view(
                        r.0.fallback_action,
                    ) == Some("Fallback to "@ + quality_phrase(nq) + " → retrying..."@)
                        && final(self).client == old(self).client && final(self).transient_attempts
                        == old(self).transient_attempts,
                    None => r.1 == RetryAction::GiveUp && opt_view(r.0.fallback_action) == Some(
                        "No further format fallbacks available."@,
                    ) && *final(self) == *old(self),
                },
                FailureView::Transient(_) => if old(self).transient_attempts < max_transient_retries() {
                    final(self).transient_attempts == old(self).transient_attempts + 1 && r.1
                        == RetryAction::RetryAfterBackoff { attempt: final(self).transient_attempts }
                        && opt_view(r.0.fallback_action) == Some(
                        "Attempt "@ + decimal(final(self).transient_attempts as nat) + "/3 failed. Backing off..."@,
                    ) && final(self).quality == old(self).quality && final(self).client == old(self).client
                } else {
                    r.1 == RetryAction::GiveUp && opt_view(r.0.fallback_action) == Some(
                        "Max transient retries exceeded. Aborting."@,
                    ) && *final(self) == *old(self)
                },
                FailureView::BotBlockOrExtractor(_) => match next_client(opt_view(old(self).client)) {
                    Some(c) => opt_view(final(self).client) == Some(c) && r.1 == RetryAction::RetryNow
                        && opt_view(r.0.fallback_action) == Some(
                        "Rotating TLS client fingerprint to '"@ + c + "'..."@,
                    ) && final(self).quality == old(self).quality && final(self).transient_attempts
                        == old(self).transient_attempts,
                    None => r.1 == RetryAction::GiveUp && opt_view(r.0.fallback_action) == Some(
                        "All anti-bot impersonation strategies exhausted."@,
                    ) && *final(self) == *old(self),
                },
                _ => r.1 == RetryAction::GiveUp && r.0.fallback_action is None && *final(self) == *old(
                    self,
                ),
            },
    {
        let is_format = match &category {
            FailureCategory::FormatUnavailable { .. } => true,
            _ => false,
        };
        let is_transient = match &category {
            FailureCategory::Transient { .. } => true,
            _ => false,
        };
        let is_bot = match &category {
            FailureCategory::BotBlockOrExtractor { .. } => true,
            _ => false,
        };
        if is_format {
            match self.quality.fallback_step() {
                Some(nq) => {
                    let mut note = chars_of("Fallback to ");
                    match nq {
                        QualityPreference::Best => append_str(&mut note, "best available stream"),
                        QualityPreference::SpecificHeight(h) => {
                            append_chars(&mut note, &decimal_chars(h as u64));
                            append_str(&mut note, "p resolution");
                        },
                    }
                    append_str(&mut note, " → retrying...");
                    self.quality = nq;
                    (DiagnosticReport::new(category, Some(string_of(&note))), RetryAction::RetryNow)
                },
                None => (
                    DiagnosticReport::new(category, Some("No further format fallbacks available.".to_owned())),
                    RetryAction::GiveUp,
                ),
            }
        } else if is_transient {
            if self.transient_attempts < 3 {
                self.transient_attempts = self.transient_attempts + 1;
                let mut note = chars_of("Attempt ");
                append_chars(&mut note, &decimal_chars(self.transient_attempts as u64));
                append_str(&mut note, "/3 failed. Backing off...");
                (
                    DiagnosticReport::new(category, Some(string_of(&note))),
                    RetryAction::RetryAfterBackoff { attempt: self.transient_attempts },
                )
            } else {
                (
                    DiagnosticReport::new(category, Some("Max transient retries exceeded. Aborting.".to_owned())),
                    RetryAction::GiveUp,
                )
            }
        } else if is_bot {
            proof {
                reveal_strlit("safari-18");
                reveal_strlit("chrome-136");
                reveal_strlit("firefox-135");
            }
            let next: Option<&str> = match &self.client {
                None => Some("safari-18"),
                Some(c) => if chars_eq_str(&chars_of(c.as_str()), "safari-18") {
                    Some("chrome-136")
                } else if chars_eq_str(&chars_of(c.as_str()), "chrome-136") {
                    Some("firefox-135")
                } else {
                    None
                },
            };
            match next {
                Some(c) => {
                    let mut note = chars_of("Rotating TLS client fingerprint to '");
                    append_str(&mut note, c);
                    append_str(&mut note, "'...");
                    self.client = Some(c.to_owned());
                    (DiagnosticReport::new(category, Some(string_of(&note))), RetryAction::RetryNow)
                },
                None => (
                    DiagnosticReport::new(
                        category,
                        Some("All anti-bot impersonation strategies exhausted.".to_owned()),
                    ),
                    RetryAction::GiveUp,
                ),
            }
        } else {
            (DiagnosticReport::new(category, None), RetryAction::GiveUp)
        }
    }
}

/// A download is retried at most eleven times: five format fallbacks, three transient
/// retries and three client rotations. Each retry lowers the budget (see `on_failure`),
/// which starts at most at eleven.
pub proof fn download_retries_are_bounded(r: DownloadRecovery)
    ensures
        r.budget() <= 11,
{
}

/// The most transient failures a download retries.
pub fn transient_retry_limit() -> (r: u32)
    ensures
        r == max_transient_retries(),
{
    3
}

/// Whether a retry decided on a failure steps down to a lower quality (a format fallback),
/// rather than backing off or rotating the impersonated client.
pub fn is_format_fallback(category: &FailureCategory, action: RetryAction) -> (r: bool)
    ensures
        r == (category@ is FormatUnavailable && action == RetryAction::RetryNow),
{
    match category {
        FailureCategory::FormatUnavailable { .. } => action == RetryAction::RetryNow,
        _ => false,
    }
}

/// What the metadata fetcher does after a failed attempt.
#[derive(Debug)]
pub enum MetadataStep {
    /// Retry impersonating another client.
    RotateClient,
    /// Retry after a pause of one second.
    RetryAfterPause,
    /// Stop, with the report of the failure.
    GiveUp { report: DiagnosticReport },
}

/// The recovery state of a metadata fetch: the retries made and the client impersonated.
#[derive(Debug, Clone)]
pub struct MetadataRecovery {
    pub attempt: u32,
    pub client: Option<String>,
}

impl MetadataRecovery {
    /// The state of a fresh fetch of `url`: TikTok URLs start impersonating `chrome`.
    pub fn new(url: &str) -> (r: Self)
        ensures
            r.attempt == 0,
            opt_view(r.client) == if tiktok_lowered(lowercase(url@)) {
                Some("chrome"@)
            } else {
                None
            },
    {
        let client = if TikTokFallback::is_tiktok_url(url) { Some("chrome".to_owned()) } else { None };
        MetadataRecovery { attempt: 0, client }
    }

    /// The state of a fetch that starts impersonating `client`.
    pub fn with_client(client: Option<&str>) -> (r: Self)
        ensures
            r.attempt == 0,
            opt_view(r.client) == match client {
                Some(c) => Some(c@),
                None => None,
            },
    {
        let client = match client {
            Some(c) => Some(c.to_owned()),
            None => None,
        };
        MetadataRecovery { attempt: 0, client }
    }

    /// Decides what to do after a fetch failed with `category`: the first two anti-bot
    /// blocks switch to `safari-18`, the first two transient errors wait a second, and
    /// anything else gives up with the report of the failure.
    pub fn on_failure(&mut self, category: FailureCategory) -> (r: MetadataStep)
        ensures
            match r {
                MetadataStep::RotateClient => category@ is BotBlockOrExtractor && old(self).attempt < 2
                    && final(self).attempt == old(self).attempt + 1 && opt_view(final(self).client)
                    == Some("safari-18"@),
                MetadataStep::RetryAfterPause => category@ is Transient && old(self).attempt < 2
                    && final(self).attempt == old(self).attempt + 1 && final(self).client
                    == old(self).client,
                MetadataStep::GiveUp { report } => !((category@ is BotBlockOrExtractor
                    || category@ is Transient) && old(self).attempt < 2) && report.category == category
                    && report.fallback_action is None,
            },
    {
        match &category {
            FailureCategory::BotBlockOrExtractor { .. } => if self.attempt < 2 {
                self.attempt = self.attempt + 1;
                self.client = Some("safari-18".to_owned());
                return MetadataStep::RotateClient;
            },
            FailureCategory::Transient { .. } => if self.attempt < 2 {
                self.attempt = self.attempt + 1;
                return MetadataStep::RetryAfterPause;
            },
            _ => {},
        }
        MetadataStep::GiveUp { report: DiagnosticReport::new(category, None) }
    }
}

} // verus!
