//! The system health report: what the probes of the environment found, as the lines
//! shown to the user.

use vstd::prelude::*;
use crate::recovery::opt_view;
use crate::text::{
    append_chars, append_str, chars_of, concat_str, decimal, decimal_chars, lines, lines_of, push_text_if,
    string_of, string_views, trim, trim_ws, views,
};

verus! {

/// The system health doctor.
#[derive(Debug, Clone, Copy)]
pub struct Doctor;

/// What the probes of the environment found.
#[derive(Debug)]
pub struct ProbeResults {
    /// What `yt-dlp --version` printed, when it ran successfully.
    pub ytdlp_output: Option<String>,
    /// What `ffmpeg -version` printed, when it ran successfully.
    pub ffmpeg_output: Option<String>,
    /// Whether `ffprobe -version` ran successfully.
    pub ffprobe_ok: bool,
    /// The number of presets loaded.
    pub preset_count: usize,
    /// The user's preset directory and whether it exists, when there is a configuration directory.
    pub user_preset_dir: Option<(String, bool)>,
    /// The configured download directory and whether it exists.
    pub download_dir: Option<(String, bool)>,
    /// The LRCLIB probe: reachable, or the error.
    pub lrclib: Result<(), String>,
    /// The TikWM probe: reachable, or the error.
    pub tikwm: Result<(), String>,
}

/// The first line of `s`, or `Installed` when it has none.
pub open spec fn first_line_or_installed(s: Seq<char>) -> Seq<char> {
    if lines_of(s).len() > 0 {
        lines_of(s)[0]
    } else {
        "Installed"@
    }
}

/// The line of a service probe.
pub open spec fn service_line(label: Seq<char>, r: Result<(), String>) -> Seq<char> {
    label + match r {
        Ok(_) => "✅ Online & Reachable"@,
        Err(e) => "⚠️  Unreachable ("@ + e@ + ")"@,
    }
}

/// The lines of the health report.
pub open spec fn doctor_text(p: ProbeResults) -> Seq<Seq<char>> {
    seq![
        ""@,
        "╭──────────────────────────────────────────────────╮"@,
        "│           🩺 dlp — System Health Doctor          │"@,
        "│        Diagnostics & Environment Verification    │"@,
        "╰──────────────────────────────────────────────────╯"@,
        ""@,
        "• Checking 'yt-dlp' binary... "@ + match p.ytdlp_output {
            Some(o) => "✅ OK (version: "@ + trim_ws(o@) + ")"@,
            None => "❌ NOT FOUND (Install yt-dlp on your PATH)"@,
        },
        "• Checking 'ffmpeg' binary... "@ + match p.ffmpeg_output {
            Some(o) => "✅ OK ("@ + first_line_or_installed(o@) + ")"@,
            None => "❌ NOT FOUND (Install ffmpeg on your PATH)"@,
        },
        "• Checking 'ffprobe' binary... "@ + if p.ffprobe_ok {
            "✅ OK"@
        } else {
            "⚠️  WARNING (ffprobe not found, optional but recommended)"@
        },
        "• Active Presets Loaded: ✅ "@ + decimal(p.preset_count as nat) + " preset(s)"@
    ] + match p.user_preset_dir {
        Some((d, exists)) => seq![
            "• User Custom Presets Directory ("@ + d@ + "): "@ + if exists {
                "✅ Found"@
            } else {
                "ℹ️  None (Using built-in defaults)"@
            }
        ],
        None => seq![],
    } + match p.download_dir {
        Some((d, exists)) => seq![
            "• Configured Download Directory ("@ + d@ + "): "@ + if exists {
                "✅ Exists"@
            } else {
                "⚠️  Directory does not exist yet"@
            }
        ],
        None => seq![],
    } + seq![
        service_line("• Testing LRCLIB API connectivity... "@, p.lrclib),
        service_line("• Testing TikWM API connectivity... "@, p.tikwm),
        ""@,
        if p.ytdlp_output is Some && p.ffmpeg_output is Some {
            "🎉 All critical core dependencies and services are healthy and ready!\n"@
        } else {
            "⚠️  Some dependencies are missing. Please review the errors above.\n"@
        }
    ]
}

fn service_line_of(label: &str, r: &Result<(), String>) -> (s: String)
    ensures
        s@ == service_line(label@, *r),
{
    let mut v = chars_of(label);
    match r {
        Ok(_) => append_str(&mut v, "✅ Online & Reachable"),
        Err(e) => {
            append_str(&mut v, "⚠️  Unreachable (");
            append_str(&mut v, e.as_str());
            append_str(&mut v, ")");
        },
    }
    string_of(&v)
}

fn dir_line(prefix: &str, dir: &str, found: &str, missing: &str, exists: bool) -> (s: String)
    ensures
        s@ == prefix@ + dir@ + "): "@ + (if exists { found@ } else { missing@ }),
{
    let mut v = chars_of(prefix);
    append_str(&mut v, dir);
    append_str(&mut v, "): ");
    if exists {
        append_str(&mut v, found);
    } else {
        append_str(&mut v, missing);
    }
    string_of(&v)
}

impl Doctor {
    /// The lines of the health report for what the probes found.
    pub fn report_lines(p: &ProbeResults) -> (r: Vec<String>)
        ensures
            string_views(r@) == doctor_text(*p),
    {
        let mut v: Vec<String> = Vec::new();
        push_text_if(&mut v, true, "");
        push_text_if(&mut v, true, "╭──────────────────────────────────────────────────╮");
        push_text_if(&mut v, true, "│           🩺 dlp — System Health Doctor          │");
        push_text_if(&mut v, true, "│        Diagnostics & Environment Verification    │");
        push_text_if(&mut v, true, "╰──────────────────────────────────────────────────╯");
        push_text_if(&mut v, true, "");
        let mut l1 = chars_of("• Checking 'yt-dlp' binary... ");
        match &p.ytdlp_output {
            Some(o) => {
                append_str(&mut l1, "✅ OK (version: ");
                append_chars(&mut l1, &trim(&chars_of(o.as_str())));
                append_str(&mut l1, ")");
            },
            None => append_str(&mut l1, "❌ NOT FOUND (Install yt-dlp on your PATH)"),
        }
        let s1 = string_of(&l1);
        assert(s1@ == doctor_text(*p)[6]);
        push_text_if(&mut v, true, s1.as_str());
        let mut l2 = chars_of("• Checking 'ffmpeg' binary... ");
        match &p.ffmpeg_output {
            Some(o) => {
                append_str(&mut l2, "✅ OK (");
                let ls = lines(&chars_of(o.as_str()));
                if ls.len() > 0 {
                    assert(views(ls@)[0] == ls@[0]@);
                    append_chars(&mut l2, &ls[0]);
                } else {
                    append_str(&mut l2, "Installed");
                }
                append_str(&mut l2, ")");
            },
            None => append_str(&mut l2, "❌ NOT FOUND (Install ffmpeg on your PATH)"),
        }
        let s2 = string_of(&l2);
        assert(s2@ == doctor_text(*p)[7]);
        push_text_if(&mut v, true, s2.as_str());
        let l3 = if p.ffprobe_ok {
            concat_str("• Checking 'ffprobe' binary... ", "✅ OK")
        } else {
            concat_str(
                "• Checking 'ffprobe' binary... ",
                "⚠️  WARNING (ffprobe not found, optional but recommended)",
            )
        };
        assert(l3@ == doctor_text(*p)[8]);
        push_text_if(&mut v, true, l3.as_str());
        let mut l4 = chars_of("• Active Presets Loaded: ✅ ");
        append_chars(&mut l4, &decimal_chars(p.preset_count as u64));
        append_str(&mut l4, " preset(s)");
        let s4 = string_of(&l4);
        assert(s4@ == doctor_text(*p)[9]);
        push_text_if(&mut v, true, s4.as_str());
        let ghost head = string_views(v@);
        assert(head =~= doctor_text(*p).take(10));
        match &p.user_preset_dir {
            Some((d, exists)) => {
                let l = dir_line(
                    "• User Custom Presets Directory (",
                    d.as_str(),
                    "✅ Found",
                    "ℹ️  None (Using built-in defaults)",
                    *exists,
                );
                push_text_if(&mut v, true, l.as_str());
            },
            None => {},
        }
        match &p.download_dir {
            Some((d, exists)) => {
                let l = dir_line(
                    "• Configured Download Directory (",
                    d.as_str(),
                    "✅ Exists",
                    "⚠️  Directory does not exist yet",
                    *exists,
                );
                push_text_if(&mut v, true, l.as_str());
            },
            None => {},
        }
        let ghost dirs = string_views(v@);
        assert(dirs =~= head + (match p.user_preset_dir {
            Some((d, exists)) => seq![
                "• User Custom Presets Directory ("@ + d@ + "): "@ + (if exists { "✅ Found"@ } else { "ℹ️  None (Using built-in defaults)"@ })
            ],
            None => seq![],
        }) + (match p.download_dir {
            Some((d, exists)) => seq![
                "• Configured Download Directory ("@ + d@ + "): "@ + (if exists { "✅ Exists"@ } else { "⚠️  Directory does not exist yet"@ })
            ],
            None => seq![],
        }));
        let lr = service_line_of("• Testing LRCLIB API connectivity... ", &p.lrclib);
        push_text_if(&mut v, true, lr.as_str());
        let tk = service_line_of("• Testing TikWM API connectivity... ", &p.tikwm);
        push_text_if(&mut v, true, tk.as_str());
        push_text_if(&mut v, true, "");
        if p.ytdlp_output.is_some() && p.ffmpeg_output.is_some() {
            push_text_if(&mut v, true, "🎉 All critical core dependencies and services are healthy and ready!\n");
        } else {
            push_text_if(&mut v, true, "⚠️  Some dependencies are missing. Please review the errors above.\n");
        }
        assert(string_views(v@) =~= doctor_text(*p));
        v
    }
}

} // verus!
