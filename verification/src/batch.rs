//! Batch downloads: the input list, the resume checkpoint, the report, and the decisions
//! the batch runner takes for each URL.

use vstd::prelude::*;
use crate::cache::clock_seconds;
use crate::recovery::opt_view;
use crate::text::{
    append_chars, append_str, chars_of, chars_eq, decimal, decimal_chars, join_path, lines,
    lines_of, pad_right, pad_right_chars, path_join, push_text_if, starts_with, starts_with_seq,
    string_of, string_views, trim, trim_ws, views,
};

verus! {

/// The state of one URL of a batch.
#[derive(Debug, Clone, PartialEq, Eq)]
pub enum ItemStatus {
    Completed { title: String, timestamp: String },
    Failed { error: String, timestamp: String },
    Pending,
}

/// The mathematical value of an [`ItemStatus`].
pub ghost enum StatusView {
    Completed(Seq<char>, Seq<char>),
    Failed(Seq<char>, Seq<char>),
    Pending,
}

impl View for ItemStatus {
    type V = StatusView;

    open spec fn view(&self) -> StatusView {
        match self {
            ItemStatus::Completed { title, timestamp } => StatusView::Completed(title@, timestamp@),
            ItemStatus::Failed { error, timestamp } => StatusView::Failed(error@, timestamp@),
            ItemStatus::Pending => StatusView::Pending,
        }
    }
}

impl ItemStatus {
    /// A copy of the status.
    pub fn copy(&self) -> (r: Self)
        ensures
            r@ == self@,
    {
        match self {
            ItemStatus::Completed { title, timestamp } => ItemStatus::Completed {
                title: title.clone(),
                timestamp: timestamp.clone(),
            },
            ItemStatus::Failed { error, timestamp } => ItemStatus::Failed {
                error: error.clone(),
                timestamp: timestamp.clone(),
            },
            ItemStatus::Pending => ItemStatus::Pending,
        }
    }
}

/// One URL of a checkpoint with its status.
#[derive(Debug, Clone)]
pub struct CheckpointEntry {
    pub url: String,
    pub status: ItemStatus,
}

/// The status recorded for `url` among `es` (the last entry for it wins).
pub open spec fn status_in(es: Seq<CheckpointEntry>, url: Seq<char>) -> Option<StatusView>
    decreases es.len(),
{
    if es.len() == 0 {
        None
    } else if es.last().url@ == url {
        Some(es.last().status@)
    } else {
        status_in(es.drop_last(), url)
    }
}

/// No URL appears twice.
pub open spec fn urls_unique(es: Seq<CheckpointEntry>) -> bool {
    forall|i: int, j: int| 0 <= i < j < es.len() ==> es[i].url@ != es[j].url@
}

/// The status of each URL of a batch, kept so that an interrupted batch can resume.
#[derive(Debug, Clone)]
pub struct BatchCheckpoint {
    items: Vec<CheckpointEntry>,
}

proof fn lemma_status_found(es: Seq<CheckpointEntry>, i: int)
    requires
        urls_unique(es),
        0 <= i < es.len(),
    ensures
        status_in(es, es[i].url@) == Some(es[i].status@),
    decreases es.len(),
{
    if i < es.len() - 1 {
        assert(es.last().url@ != es[i].url@);
        assert(es.drop_last()[i] == es[i]);
        lemma_status_found(es.drop_last(), i);
    }
}

proof fn lemma_status_absent(es: Seq<CheckpointEntry>, url: Seq<char>)
    requires
        forall|i: int| 0 <= i < es.len() ==> es[i].url@ != url,
    ensures
        status_in(es, url) is None,
    decreases es.len(),
{
    if es.len() > 0 {
        assert forall|i: int| 0 <= i < es.drop_last().len() implies es.drop_last()[i].url@ != url by {
            assert(es.drop_last()[i] == es[i]);
        }
        lemma_status_absent(es.drop_last(), url);
    }
}

proof fn lemma_status_is_some(es: Seq<CheckpointEntry>, url: Seq<char>)
    requires
        status_in(es, url) is Some,
    ensures
        exists|i: int| 0 <= i < es.len() && es[i].url@ == url,
    decreases es.len(),
{
    if es.last().url@ != url {
        lemma_status_is_some(es.drop_last(), url);
        let i = choose|i: int| 0 <= i < es.drop_last().len() && es.drop_last()[i].url@ == url;
        assert(es[i] == es.drop_last()[i]);
    } else {
        assert(es[es.len() - 1] == es.last());
    }
}

/// The label recorded with a status: `unix:<seconds>`, or `unknown` when the clock is
/// before the epoch.
pub open spec fn timestamp_text(secs: Option<u64>) -> Seq<char> {
    match secs {
        Some(s) => "unix:"@ + decimal(s as nat),
        None => "unknown"@,
    }
}

/// The timestamp label of a clock reading.
pub fn timestamp_label(secs: Option<u64>) -> (r: String)
    ensures
        r@ == timestamp_text(secs),
{
    match secs {
        Some(s) => {
            let mut v = chars_of("unix:");
            append_chars(&mut v, &decimal_chars(s));
            string_of(&v)
        },
        None => "unknown".to_owned(),
    }
}

/// The timestamp label of the current time.
pub fn current_timestamp() -> (r: String)
    ensures
        exists|secs: Option<u64>| r@ == timestamp_text(secs),
{
    let secs = clock_seconds();
    timestamp_label(secs)
}

impl BatchCheckpoint {
    /// The recorded status of `url`.
    pub closed spec fn status_of(self, url: Seq<char>) -> Option<StatusView> {
        status_in(self.items@, url)
    }

    /// The number of URLs with a recorded status.
    pub closed spec fn size(self) -> nat {
        self.items@.len()
    }

    /// No URL is recorded twice.
    pub closed spec fn wf(self) -> bool {
        urls_unique(self.items@)
    }

    /// `url` is recorded as completed.
    pub open spec fn completed(self, url: Seq<char>) -> bool {
        self.status_of(url) matches Some(StatusView::Completed(_, _))
    }

    /// An empty checkpoint.
    pub fn new() -> (c: Self)
        ensures
            c.wf(),
            c.size() == 0,
            forall|u: Seq<char>| c.status_of(u) is None,
    {
        BatchCheckpoint { items: Vec::new() }
    }

    /// Records `status` for `url`, replacing what was recorded for it.
    pub fn set_status(&mut self, url: &str, status: ItemStatus)
        requires
            old(self).wf(),
        ensures
            final(self).wf(),
            final(self).size() == old(self).size() + (if old(self).status_of(url@) is Some {
                0nat
            } else {
                1nat
            }),
            final(self).status_of(url@) == Some(status@),
            forall|u: Seq<char>| u != url@ ==> final(self).status_of(u) == old(self).status_of(u),
    {
        let ghost old_es = self.items@;
        let un = chars_of(url);
        let mut i: usize = 0;
        while i < self.items.len() && !chars_eq(&chars_of(self.items[i].url.as_str()), &un)
            invariant
                i <= self.items@.len(),
                self.items@ == old_es,
                un@ == url@,
                forall|k: int| 0 <= k < i ==> self.items@[k].url@ != url@,
            decreases self.items.len() - i,
        {
            i = i + 1;
        }
        let entry = CheckpointEntry { url: url.to_owned(), status };
        let ghost e = entry;
        if i < self.items.len() {
            self.items.set(i, entry);
            proof {
                lemma_status_found(old_es, i as int);
                let nw = self.items@;
                assert(nw == old_es.update(i as int, e));
                assert(urls_unique(nw)) by {
                    assert forall|a: int, b: int| 0 <= a < b < nw.len() implies nw[a].url@ != nw[b].url@ by {
                        if a == i {
                            assert(old_es[b].url@ != old_es[i as int].url@);
                        } else if b == i {
                            assert(old_es[a].url@ != old_es[i as int].url@);
                        }
                    }
                }
                lemma_status_found(nw, i as int);
                assert forall|u: Seq<char>| u != url@ implies status_in(nw, u) == status_in(old_es, u) by {
                    if exists|k: int| 0 <= k < old_es.len() && old_es[k].url@ == u {
                        let k = choose|k: int| 0 <= k < old_es.len() && old_es[k].url@ == u;
                        assert(k != i);
                        assert(nw[k] == old_es[k]);
                        lemma_status_found(nw, k);
                        lemma_status_found(old_es, k);
                    } else {
                        lemma_status_absent(old_es, u);
                        assert forall|k: int| 0 <= k < nw.len() implies nw[k].url@ != u by {
                            if k != i {
                                assert(nw[k] == old_es[k]);
                            }
                        }
                        lemma_status_absent(nw, u);
                    }
                }
            }
        } else {
            self.items.push(entry);
            proof {
                lemma_status_absent(old_es, url@);
                let nw = self.items@;
                assert(nw == old_es.push(e));
                assert(nw.drop_last() =~= old_es);
                assert(urls_unique(nw)) by {
                    assert forall|a: int, b: int| 0 <= a < b < nw.len() implies nw[a].url@ != nw[b].url@ by {
                        if b == nw.len() - 1 {
                            assert(old_es[a].url@ != url@);
                        } else {
                            assert(nw[a] == old_es[a] && nw[b] == old_es[b]);
                        }
                    }
                }
            }
        }
    }

    /// Records `url` as completed under `title` at the time labelled `timestamp`.
    pub fn mark_completed_at(&mut self, url: &str, title: &str, timestamp: &str)
        requires
            old(self).wf(),
        ensures
            final(self).wf(),
            final(self).size() == old(self).size() + (if old(self).status_of(url@) is Some {
                0nat
            } else {
                1nat
            }),
            final(self).status_of(url@) == Some(StatusView::Completed(title@, timestamp@)),
            forall|u: Seq<char>| u != url@ ==> final(self).status_of(u) == old(self).status_of(u),
    {
        self.set_status(url, ItemStatus::Completed { title: title.to_owned(), timestamp: timestamp.to_owned() });
    }

    /// Records `url` as failed with `error` at the time labelled `timestamp`.
    pub fn mark_failed_at(&mut self, url: &str, error: &str, timestamp: &str)
        requires
            old(self).wf(),
        ensures
            final(self).wf(),
            final(self).size() == old(self).size() + (if old(self).status_of(url@) is Some {
                0nat
            } else {
                1nat
            }),
            final(self).status_of(url@) == Some(StatusView::Failed(error@, timestamp@)),
            forall|u: Seq<char>| u != url@ ==> final(self).status_of(u) == old(self).status_of(u),
    {
        self.set_status(url, ItemStatus::Failed { error: error.to_owned(), timestamp: timestamp.to_owned() });
    }

    /// Records `url` as completed under `title`, stamped with the current time.
    pub fn mark_completed(&mut self, url: &str, title: &str)
        requires
            old(self).wf(),
        ensures
            final(self).wf(),
            final(self).size() == old(self).size() + (if old(self).status_of(url@) is Some {
                0nat
            } else {
                1nat
            }),
            exists|ts: Option<u64>| final(self).status_of(url@) == Some(
                StatusView::Completed(title@, timestamp_text(ts)),
            ),
            forall|u: Seq<char>| u != url@ ==> final(self).status_of(u) == old(self).status_of(u),
    {
        let ts = current_timestamp();
        self.mark_completed_at(url, title, ts.as_str());
    }

    /// Records `url` as failed with `error`, stamped with the current time.
    pub fn mark_failed(&mut self, url: &str, error: &str)
        requires
            old(self).wf(),
        ensures
            final(self).wf(),
            final(self).size() == old(self).size() + (if old(self).status_of(url@) is Some {
                0nat
            } else {
                1nat
            }),
            exists|ts: Option<u64>| final(self).status_of(url@) == Some(
                StatusView::Failed(error@, timestamp_text(ts)),
            ),
            forall|u: Seq<char>| u != url@ ==> final(self).status_of(u) == old(self).status_of(u),
    {
        let ts = current_timestamp();
        self.mark_failed_at(url, error, ts.as_str());
    }

    /// The recorded status of `url`, if any.
    pub fn get_status(&self, url: &str) -> (r: Option<&ItemStatus>)
        requires
            self.wf(),
        ensures
            match r {
                Some(s) => self.status_of(url@) == Some(s@),
                None => self.status_of(url@) is None,
            },
    {
        let un = chars_of(url);
        let mut i: usize = 0;
        while i < self.items.len()
            invariant
                i <= self.items@.len(),
                un@ == url@,
                urls_unique(self.items@),
                forall|k: int| 0 <= k < i ==> self.items@[k].url@ != url@,
            decreases self.items.len() - i,
        {
            if chars_eq(&chars_of(self.items[i].url.as_str()), &un) {
                proof { lemma_status_found(self.items@, i as int); }
                return Some(&self.items[i].status);
            }
            i = i + 1;
        }
        proof { lemma_status_absent(self.items@, url@); }
        None
    }

    /// Whether `url` is recorded as completed.
    pub fn is_completed(&self, url: &str) -> (r: bool)
        requires
            self.wf(),
        ensures
            r == self.completed(url@),
    {
        match self.get_status(url) {
            Some(ItemStatus::Completed { .. }) => true,
            _ => false,
        }
    }

    /// The recorded URLs with their statuses, each URL once.
    pub fn entries(&self) -> (r: &Vec<CheckpointEntry>)
        requires
            self.wf(),
        ensures
            urls_unique(r@),
            r@.len() == self.size(),
            forall|u: Seq<char>| #[trigger] status_in(r@, u) == self.status_of(u),
    {
        &self.items
    }

    /// The checkpoint that records the given entries; of entries for the same URL the
    /// last one counts.
    pub fn from_entries(entries: Vec<CheckpointEntry>) -> (c: Self)
        ensures
            c.wf(),
            forall|u: Seq<char>| #[trigger] c.status_of(u) == status_in(entries@, u),
    {
        let mut c = Self::new();
        let mut i: usize = 0;
        while i < entries.len()
            invariant
                i <= entries@.len(),
                c.wf(),
                forall|u: Seq<char>| #[trigger] c.status_of(u) == status_in(entries@.take(i as int), u),
            decreases entries.len() - i,
        {
            let e = &entries[i];
            c.set_status(e.url.as_str(), e.status.copy());
            proof {
                let t = entries@.take(i + 1);
                assert(t.drop_last() =~= entries@.take(i as int));
                assert(t.last() == entries@[i as int]);
            }
            i = i + 1;
        }
        assert(entries@.take(entries@.len() as int) =~= entries@);
        c
    }
}

/// Reading back a URL just marked completed gives what was written, and every other URL
/// keeps its status.
pub proof fn completed_mark_is_read_back(
    before: BatchCheckpoint,
    after: BatchCheckpoint,
    url: Seq<char>,
    title: Seq<char>,
    timestamp: Seq<char>,
)
    requires
        after.status_of(url) == Some(StatusView::Completed(title, timestamp)),
        forall|u: Seq<char>| u != url ==> after.status_of(u) == before.status_of(u),
    ensures
        after.completed(url),
        forall|u: Seq<char>| u != url ==> (after.completed(u) <==> before.completed(u)),
{
}

/// A URL marked failed is not completed (so a resumed batch retries it), and every other
/// URL keeps its status.
pub proof fn failed_mark_is_retried(
    before: BatchCheckpoint,
    after: BatchCheckpoint,
    url: Seq<char>,
    error: Seq<char>,
    timestamp: Seq<char>,
)
    requires
        after.status_of(url) == Some(StatusView::Failed(error, timestamp)),
        forall|u: Seq<char>| u != url ==> after.status_of(u) == before.status_of(u),
    ensures
        !after.completed(url),
        forall|u: Seq<char>| u != url ==> (after.completed(u) <==> before.completed(u)),
{
}

/// A checkpoint handed out as its entries and rebuilt from them records the same status
/// for every URL.
pub proof fn checkpoint_round_trip(c: BatchCheckpoint, es: Seq<CheckpointEntry>, back: BatchCheckpoint)
    requires
        c.wf(),
        forall|u: Seq<char>| #[trigger] status_in(es, u) == c.status_of(u),
        forall|u: Seq<char>| #[trigger] back.status_of(u) == status_in(es, u),
    ensures
        forall|u: Seq<char>| #[trigger] back.status_of(u) == c.status_of(u),
        forall|u: Seq<char>| #[trigger] back.completed(u) <==> c.completed(u),
{
    assert forall|u: Seq<char>| #[trigger] back.status_of(u) == c.status_of(u) by {
        assert(status_in(es, u) == c.status_of(u));
    }
}

/// A batch resumed from the checkpoint of an earlier run skips the URLs that run
/// downloaded and tries again those that failed.
pub proof fn resumed_batch_skips_downloaded(earlier: BatchRun, resumed: BatchRun, url: Seq<char>)
    requires
        resumed.resume,
        forall|u: Seq<char>| #[trigger] resumed.checkpoint.status_of(u) == earlier.checkpoint.status_of(u),
    ensures
        (earlier.checkpoint.status_of(url) matches Some(StatusView::Completed(_, _))) ==> (resumed.resume
            && resumed.checkpoint.completed(url)),
        (earlier.checkpoint.status_of(url) matches Some(StatusView::Failed(_, _))) ==> !(resumed.resume
            && resumed.checkpoint.completed(url)),
{
    assert(resumed.checkpoint.status_of(url) == earlier.checkpoint.status_of(url));
}

proof fn lemma_counts_up_to(runs: Seq<BatchRun>, k: int)
    requires
        0 <= k < runs.len(),
        runs[0].report.accounted() == 0,
        forall|i: int|
            0 <= i < runs.len() - 1 ==> #[trigger] runs[i + 1].report.accounted() == runs[i].report.accounted() + 1
                && runs[i + 1].report.total == runs[i].report.total,
    ensures
        runs[k].report.accounted() == k,
        runs[k].report.total == runs[0].report.total,
    decreases k,
{
    if k > 0 {
        lemma_counts_up_to(runs, k - 1);
        assert(runs[(k - 1) + 1].report.accounted() == runs[k - 1].report.accounted() + 1);
    }
}

/// Every URL of a batch is counted exactly once: a run that starts with nothing counted and
/// takes one step per URL (a skip, a success or a failure, each counting one) ends with
/// succeeded + skipped + failed equal to the number of URLs.
pub proof fn batch_counts_every_url(runs: Seq<BatchRun>)
    requires
        runs.len() >= 1,
        runs[0].report.accounted() == 0,
        runs.len() - 1 == runs[0].report.total,
        forall|i: int|
            0 <= i < runs.len() - 1 ==> #[trigger] runs[i + 1].report.accounted() == runs[i].report.accounted() + 1
                && runs[i + 1].report.total == runs[i].report.total,
    ensures
        runs.last().report.accounted() == runs.last().report.total,
        runs.last().report.succeeded + runs.last().report.skipped + runs.last().report.failed@.len()
            == runs[0].report.total,
{
    lemma_counts_up_to(runs, runs.len() - 1);
}

/// A line of a URL list that names a URL: not empty and not a `#` or `//` comment.
pub open spec fn keeps_url(l: Seq<char>) -> bool {
    l.len() > 0 && !starts_with_seq(l, "#"@) && !starts_with_seq(l, "//"@)
}

/// The URLs listed in the lines `ls`: each line trimmed, blank lines and comments left out.
pub open spec fn url_lines(ls: Seq<Seq<char>>) -> Seq<Seq<char>>
    decreases ls.len(),
{
    if ls.len() == 0 {
        seq![]
    } else {
        let t = trim_ws(ls.last());
        url_lines(ls.drop_last()) + if keeps_url(t) {
            seq![t]
        } else {
            seq![]
        }
    }
}

/// The URLs listed in the text of a batch file, one per line.
pub fn parse_url_lines(content: &str) -> (r: Vec<String>)
    ensures
        string_views(r@) == url_lines(lines_of(content@)),
{
    let ls = lines(&chars_of(content));
    let mut out: Vec<String> = Vec::new();
    let mut i: usize = 0;
    while i < ls.len()
        invariant
            i <= ls@.len(),
            string_views(out@) == url_lines(views(ls@).take(i as int)),
        decreases ls.len() - i,
    {
        let t = trim(&ls[i]);
        let keep = t.len() > 0 && !starts_with(&t, "#") && !starts_with(&t, "//");
        let ts = string_of(&t);
        push_text_if(&mut out, keep, ts.as_str());
        proof {
            let pre = views(ls@).take(i + 1);
            assert(pre.drop_last() =~= views(ls@).take(i as int));
            assert(pre.last() == ls@[i as int]@);
        }
        i = i + 1;
    }
    assert(views(ls@).take(ls@.len() as int) =~= views(ls@));
    out
}

/// The URLs an input stands for: none when blank; the URLs listed in the file it names,
/// when it names one (`content` is that file's text); else the trimmed input itself.
pub open spec fn input_urls(input: Seq<char>, content: Option<Seq<char>>) -> Seq<Seq<char>> {
    let t = trim_ws(input);
    if t.len() == 0 {
        seq![]
    } else {
        match content {
            Some(c) => url_lines(lines_of(c)),
            None => seq![t],
        }
    }
}

/// The URLs of all inputs, in order.
pub open spec fn resolved_urls(inputs: Seq<(String, Option<String>)>) -> Seq<Seq<char>>
    decreases inputs.len(),
{
    if inputs.len() == 0 {
        seq![]
    } else {
        resolved_urls(inputs.drop_last()) + input_urls(inputs.last().0@, opt_view(inputs.last().1))
    }
}

/// Expands batch inputs into URLs. Each input comes with the text of the file that its
/// trimmed form names, when it names a file; such an input stands for the URLs listed in
/// the file, any other non-blank input for itself.
pub fn resolve_inputs_to_urls(inputs: &[(String, Option<String>)]) -> (r: Vec<String>)
    ensures
        string_views(r@) == resolved_urls(inputs@),
{
    let mut out: Vec<String> = Vec::new();
    let mut i: usize = 0;
    while i < inputs.len()
        invariant
            i <= inputs@.len(),
            string_views(out@) == resolved_urls(inputs@.take(i as int)),
        decreases inputs.len() - i,
    {
        let t = trim(&chars_of(inputs[i].0.as_str()));
        let ghost before = string_views(out@);
        if t.len() > 0 {
            match &inputs[i].1 {
                Some(content) => {
                    let urls = parse_url_lines(content.as_str());
                    let mut j: usize = 0;
                    while j < urls.len()
                        invariant
                            j <= urls@.len(),
                            string_views(out@) == before + string_views(urls@).take(j as int),
                        decreases urls.len() - j,
                    {
                        push_text_if(&mut out, true, urls[j].as_str());
                        assert(string_views(urls@).take(j + 1) =~= string_views(urls@).take(j as int).push(urls@[j as int]@));
                        j = j + 1;
                    }
                    assert(string_views(urls@).take(urls@.len() as int) =~= string_views(urls@));
                },
                None => {
                    let ts = string_of(&t);
                    push_text_if(&mut out, true, ts.as_str());
                },
            }
        }
        proof {
            let pre = inputs@.take(i + 1);
            assert(pre.drop_last() =~= inputs@.take(i as int));
            assert(pre.last() == inputs@[i as int]);
            assert(string_views(out@) =~= before + input_urls(inputs@[i as int].0@, opt_view(inputs@[i as int].1)));
        }
        i = i + 1;
    }
    assert(inputs@.take(inputs@.len() as int) =~= inputs@);
    out
}

/// The first input that names an existing file, if any.
pub open spec fn first_file(inputs: Seq<(String, bool)>) -> Option<Seq<char>>
    decreases inputs.len(),
{
    if inputs.len() == 0 {
        None
    } else if inputs[0].1 {
        Some(inputs[0].0@)
    } else {
        first_file(inputs.skip(1))
    }
}

/// Where the checkpoint of a batch lives: beside the first input file, else in the output
/// directory, else in the working directory.
pub open spec fn checkpoint_path_for(inputs: Seq<(String, bool)>, output_dir: Option<Seq<char>>) -> Seq<char> {
    match first_file(inputs) {
        Some(f) => f + ".dlp_checkpoint.json"@,
        None => match output_dir {
            Some(d) => path_join(d, ".dlp_checkpoint.json"@),
            None => ".dlp_checkpoint.json"@,
        },
    }
}

/// The checkpoint path of a batch. Each input comes with whether it names an existing file.
pub fn determine_checkpoint_path(inputs: &[(String, bool)], output_dir: Option<&str>) -> (r: String)
    ensures
        r@ == checkpoint_path_for(
            inputs@,
            match output_dir {
                Some(d) => Some(d@),
                None => None,
            },
        ),
{
    let mut i: usize = 0;
    assert(inputs@.skip(0) =~= inputs@);
    while i < inputs.len()
        invariant
            i <= inputs@.len(),
            first_file(inputs@.skip(i as int)) == first_file(inputs@),
        decreases inputs.len() - i,
    {
        assert(inputs@.skip(i as int)[0] == inputs@[i as int]);
        if inputs[i].1 {
            let mut v = chars_of(inputs[i].0.as_str());
            append_str(&mut v, ".dlp_checkpoint.json");
            return string_of(&v);
        }
        assert(inputs@.skip(i as int).skip(1) =~= inputs@.skip(i + 1));
        i = i + 1;
    }
    assert(inputs@.skip(i as int).len() == 0);
    match output_dir {
        Some(d) => join_path(d, ".dlp_checkpoint.json"),
        None => ".dlp_checkpoint.json".to_owned(),
    }
}

/// The checkpoint path given on the command line, or the default one.
pub fn resolved_checkpoint_path(path: Option<&str>) -> (r: String)
    ensures
        r@ == match path {
            Some(p) => p@,
            None => ".dlp_checkpoint.json"@,
        },
{
    match path {
        Some(p) => p.to_owned(),
        None => ".dlp_checkpoint.json".to_owned(),
    }
}

/// The counts of a finished (or running) batch.
#[derive(Debug, Clone)]
pub struct BatchReport {
    pub total: usize,
    pub succeeded: usize,
    pub skipped: usize,
    pub failed: Vec<(String, String)>,
}

impl Default for BatchReport {
    fn default() -> (r: Self)
        ensures
            r.total == 0 && r.succeeded == 0 && r.skipped == 0 && r.failed@.len() == 0,
    {
        BatchReport { total: 0, succeeded: 0, skipped: 0, failed: Vec::new() }
    }
}

/// A counted row of the report box.
pub open spec fn count_row(label: Seq<char>, n: nat) -> Seq<char> {
    label + pad_right(decimal(n), 24) + " ║"@
}

/// The lines that list the failed URLs with their reasons, numbered from `first`.
pub open spec fn failure_lines(failed: Seq<(String, String)>, first: nat) -> Seq<Seq<char>>
    decreases failed.len(),
{
    if failed.len() == 0 {
        seq![]
    } else {
        seq![decimal(first) + ". URL: "@ + failed[0].0@, "   Reason: "@ + failed[0].1@ + "\n"@]
            + failure_lines(failed.skip(1), first + 1)
    }
}

impl BatchReport {
    /// The URLs counted so far.
    pub open spec fn accounted(self) -> nat {
        (self.succeeded + self.skipped + self.failed@.len()) as nat
    }

    /// The lines of the summary shown to the user, in order.
    pub open spec fn summary_text(self) -> Seq<Seq<char>> {
        seq![
            "\n╔══════════════════════════════════════════════════╗"@,
            "║               📊 BATCH DOWNLOAD REPORT           ║"@,
            "╠══════════════════════════════════════════════════╣"@,
            count_row("║  Total URLs Processed : "@, self.total as nat),
            count_row("║  ✅ Succeeded         : "@, self.succeeded as nat)
        ] + (if self.skipped > 0 {
            seq![count_row("║  ⏭️  Skipped (Resumed)  : "@, self.skipped as nat)]
        } else {
            seq![]
        }) + seq![count_row("║  ❌ Failed            : "@, self.failed@.len()), "╚══════════════════════════════════════════════════╝"@] + if self.failed@.len() > 0 {
            seq!["\n⚠️  Failed URLs:"@] + failure_lines(self.failed@, 1)
        } else {
            seq!["🎉 All items in the batch processed successfully!\n"@]
        }
    }

    /// The lines of the summary, to be printed one per line.
    pub fn summary_lines(&self) -> (r: Vec<String>)
        ensures
            string_views(r@) == self.summary_text(),
    {
        let mut out: Vec<String> = Vec::new();
        push_text_if(&mut out, true, "\n╔══════════════════════════════════════════════════╗");
        push_text_if(&mut out, true, "║               📊 BATCH DOWNLOAD REPORT           ║");
        push_text_if(&mut out, true, "╠══════════════════════════════════════════════════╣");
        push_count_row(&mut out, true, "║  Total URLs Processed : ", self.total);
        push_count_row(&mut out, true, "║  ✅ Succeeded         : ", self.succeeded);
        push_count_row(&mut out, self.skipped > 0, "║  ⏭️  Skipped (Resumed)  : ", self.skipped);
        push_count_row(&mut out, true, "║  ❌ Failed            : ", self.failed.len());
        push_text_if(&mut out, true, "╚══════════════════════════════════════════════════╝");
        let ghost head = string_views(out@);
        if self.failed.len() > 0 {
            push_text_if(&mut out, true, "\n⚠️  Failed URLs:");
            let ghost mid = string_views(out@);
            let mut i: usize = 0;
            assert(failure_lines(self.failed@.take(0), 1) =~= Seq::<Seq<char>>::empty());
            while i < self.failed.len()
                invariant
                    i <= self.failed@.len(),
                    string_views(out@) == mid + failure_lines(self.failed@.take(i as int), 1),
                decreases self.failed.len() - i,
            {
                let mut l1 = decimal_chars((i + 1) as u64);
                append_str(&mut l1, ". URL: ");
                append_str(&mut l1, self.failed[i].0.as_str());
                let s1 = string_of(&l1);
                push_text_if(&mut out, true, s1.as_str());
                let mut l2 = chars_of("   Reason: ");
                append_str(&mut l2, self.failed[i].1.as_str());
                append_str(&mut l2, "\n");
                let s2 = string_of(&l2);
                push_text_if(&mut out, true, s2.as_str());
                proof {
                    lemma_failure_lines_push(self.failed@.take(i as int), self.failed@[i as int], 1);
                    assert(self.failed@.take(i as int).push(self.failed@[i as int]) =~= self.failed@.take(i + 1));
                }
                i = i + 1;
            }
            assert(self.failed@.take(self.failed@.len() as int) =~= self.failed@);
        } else {
            push_text_if(&mut out, true, "🎉 All items in the batch processed successfully!\n");
        }
        assert(string_views(out@) =~= self.summary_text());
        out
    }
}

proof fn lemma_failure_lines_push(f: Seq<(String, String)>, x: (String, String), first: nat)
    ensures
        failure_lines(f.push(x), first) == failure_lines(f, first) + seq![
            decimal(first + f.len()) + ". URL: "@ + x.0@,
            "   Reason: "@ + x.1@ + "\n"@
        ],
    decreases f.len(),
{
    if f.len() == 0 {
        assert(f.push(x).skip(1) =~= Seq::<(String, String)>::empty());
        assert(failure_lines(f.push(x).skip(1), first + 1) =~= Seq::<Seq<char>>::empty());
        assert(f.push(x)[0] == x);
        assert(failure_lines(f.push(x), first) =~= seq![
            decimal(first) + ". URL: "@ + x.0@,
            "   Reason: "@ + x.1@ + "\n"@
        ]);
    } else {
        assert(f.push(x).skip(1) =~= f.skip(1).push(x));
        lemma_failure_lines_push(f.skip(1), x, first + 1);
        assert(f.push(x)[0] == f[0]);
        assert((first + 1 + f.skip(1).len()) == first + f.len());
    }
}

fn push_count_row(v: &mut Vec<String>, cond: bool, label: &str, n: usize)
    ensures
        string_views(final(v)@) == string_views(old(v)@) + if cond {
            seq![count_row(label@, n as nat)]
        } else {
            seq![]
        },
{
    let mut row = chars_of(label);
    append_chars(&mut row, &pad_right_chars(&decimal_chars(n as u64), 24));
    append_str(&mut row, " ║");
    let r = string_of(&row);
    push_text_if(v, cond, r.as_str());
}

/// How a batch runs.
#[derive(Debug, Clone, Copy, PartialEq, Eq, Structural)]
pub enum BatchMode {
    /// Nothing to download.
    Empty,
    /// One item after the other.
    Sequential,
    /// A pool of worker threads.
    Parallel { workers: usize },
}

/// The mode of a batch of `total` URLs with the requested concurrency (at least one).
pub open spec fn batch_mode_for(total: usize, concurrency: usize) -> BatchMode {
    let eff = if concurrency < 1 { 1 } else { concurrency };
    if total == 0 {
        BatchMode::Empty
    } else if eff > 1 {
        BatchMode::Parallel { workers: if eff < total { eff } else { total } }
    } else {
        BatchMode::Sequential
    }
}

/// Decides how a batch of `total` URLs runs with the requested concurrency: nothing when
/// empty, a pool of `min(concurrency, total)` workers when more than one is asked for,
/// else one item after the other.
pub fn batch_mode(total: usize, concurrency: usize) -> (m: BatchMode)
    ensures
        m == batch_mode_for(total, concurrency),
{
    let eff = if concurrency < 1 { 1 } else { concurrency };
    if total == 0 {
        BatchMode::Empty
    } else if eff > 1 {
        BatchMode::Parallel { workers: if eff < total { eff } else { total } }
    } else {
        BatchMode::Sequential
    }
}

/// The state of a running batch: its report and its checkpoint.
#[derive(Debug, Clone)]
pub struct BatchRun {
    pub report: BatchReport,
    pub checkpoint: BatchCheckpoint,
    pub resume: bool,
}

impl BatchRun {
    /// The checkpoint is well formed and no more URLs are counted than the batch has.
    pub open spec fn wf(self) -> bool {
        self.checkpoint.wf() && self.report.accounted() <= self.report.total
    }

    /// Starts a batch of `total` URLs; a resumed batch continues from `loaded`, any other
    /// starts from an empty checkpoint.
    pub fn start(total: usize, resume: bool, loaded: BatchCheckpoint) -> (r: Self)
        requires
            loaded.wf(),
        ensures
            r.wf(),
            r.resume == resume,
            r.report.total == total,
            r.report.succeeded == 0,
            r.report.skipped == 0,
            r.report.failed@.len() == 0,
            forall|u: Seq<char>| #[trigger] r.checkpoint.status_of(u) == if resume {
                loaded.status_of(u)
            } else {
                None
            },
    {
        let checkpoint = if resume { loaded } else { BatchCheckpoint::new() };
        BatchRun { report: BatchReport { total, succeeded: 0, skipped: 0, failed: Vec::new() }, checkpoint, resume }
    }

    /// Whether `url` is skipped: the batch resumes and the checkpoint has it completed.
    pub fn should_skip(&self, url: &str) -> (r: bool)
        requires
            self.wf(),
        ensures
            r == (self.resume && self.checkpoint.completed(url@)),
    {
        self.resume && self.checkpoint.is_completed(url)
    }

    /// Counts a skipped URL.
    pub fn record_skip(&mut self)
        requires
            old(self).wf(),
            old(self).report.accounted() < old(self).report.total,
        ensures
            final(self).wf(),
            final(self).report.skipped == old(self).report.skipped + 1,
            final(self).report.succeeded == old(self).report.succeeded,
            final(self).report.failed@ == old(self).report.failed@,
            final(self).report.total == old(self).report.total,
            final(self).report.accounted() == old(self).report.accounted() + 1,
            final(self).resume == old(self).resume,
            final(self).checkpoint == old(self).checkpoint,
    {
        self.report.skipped = self.report.skipped + 1;
    }

    /// Counts a downloaded URL and records it completed under `title`, stamped with the
    /// current time.
    pub fn record_success(&mut self, url: &str, title: &str)
        requires
            old(self).wf(),
            old(self).report.accounted() < old(self).report.total,
        ensures
            final(self).wf(),
            final(self).report.succeeded == old(self).report.succeeded + 1,
            final(self).report.skipped == old(self).report.skipped,
            final(self).report.failed@ == old(self).report.failed@,
            final(self).report.total == old(self).report.total,
            final(self).report.accounted() == old(self).report.accounted() + 1,
            final(self).resume == old(self).resume,
            exists|ts: Option<u64>| final(self).checkpoint.status_of(url@) == Some(
                StatusView::Completed(title@, timestamp_text(ts)),
            ),
            forall|u: Seq<char>| u != url@ ==> final(self).checkpoint.status_of(u) == old(self).checkpoint.status_of(u),
    {
        self.checkpoint.mark_completed(url, title);
        self.report.succeeded = self.report.succeeded + 1;
    }

    /// Counts a failed URL with its error and records it failed, stamped with the current
    /// time.
    pub fn record_failure(&mut self, url: &str, error: &str)
        requires
            old(self).wf(),
            old(self).report.accounted() < old(self).report.total,
        ensures
            final(self).wf(),
            final(self).report.failed@.len() == old(self).report.failed@.len() + 1,
            final(self).report.failed@.last().0@ == url@,
            final(self).report.failed@.last().1@ == error@,
            final(self).report.failed@.drop_last() == old(self).report.failed@,
            final(self).report.succeeded == old(self).report.succeeded,
            final(self).report.skipped == old(self).report.skipped,
            final(self).report.total == old(self).report.total,
            final(self).report.accounted() == old(self).report.accounted() + 1,
            final(self).resume == old(self).resume,
            exists|ts: Option<u64>| final(self).checkpoint.status_of(url@) == Some(
                StatusView::Failed(error@, timestamp_text(ts)),
            ),
            forall|u: Seq<char>| u != url@ ==> final(self).checkpoint.status_of(u) == old(self).checkpoint.status_of(u),
    {
        self.checkpoint.mark_failed(url, error);
        self.report.failed.push((url.to_owned(), error.to_owned()));
        assert(self.report.failed@.drop_last() =~= old(self).report.failed@);
    }
}

} // verus!
