# dlp

`dlp` is a command-line front end for yt-dlp and ffmpeg: it inspects a link's
metadata, classifies the media (music, vertical video, standard video), picks a
preset and a quality under the preset's orientation policy, and drives yt-dlp with
self-healing retries (format fallback, transient back-off, TLS client rotation).
Batches can run in parallel under per-platform limits and resume from a checkpoint.

## Layout

- `src/` — the library, written in Verus. Every decision of the program lives here
  with a contract: quality parsing and fallback, presets and their orientation
  policy, the classifier, failure classification and recovery, yt-dlp command lines,
  progress-line parsing, metadata normalisation and the decision trace, cache keys,
  batch checkpoints and accounting, scheduling, TikTok and LRCLIB request handling,
  and the text of every report and the entries of every menu.
- `tests/` — tests of the library on concrete values.
- `app/` — the executable: command-line parsing, processes, network, files,
  terminal prompts and progress bars, calling the library for every decision.
