//! Platform detection and the grouping of batch URLs into a schedule.

use vstd::prelude::*;
use crate::text::{
    append_chars, append_str, chars_of, contains_seq, contains_str, decimal, decimal_chars, lowercase,
    pad_right, pad_right_chars, push_text_if, string_of, string_views, to_lowercase, truncated,
    truncate_chars,
};

verus! {

/// The media platforms that scheduling distinguishes.
#[derive(Debug, Clone, Copy, PartialEq, Eq, Hash, Structural)]
pub enum PlatformCategory {
    YouTube,
    YouTubeMusic,
    TikTok,
    Generic,
}

/// The platform of a URL whose lowercase mapping is `lower`.
pub open spec fn platform_of(lower: Seq<char>) -> PlatformCategory {
    if contains_seq(lower, "tiktok.com"@) || contains_seq(lower, "douyin.com"@) {
        PlatformCategory::TikTok
    } else if contains_seq(lower, "music.youtube.com"@) {
        PlatformCategory::YouTubeMusic
    } else if contains_seq(lower, "youtube.com"@) || contains_seq(lower, "youtu.be"@) {
        PlatformCategory::YouTube
    } else {
        PlatformCategory::Generic
    }
}

/// The number of parallel workers allowed on a platform when `desired` are asked for.
pub open spec fn safe_concurrency(p: PlatformCategory, desired: usize) -> usize {
    match p {
        PlatformCategory::TikTok => if desired < 1 { 1 } else if desired > 2 { 2 } else { desired },
        _ => if desired < 1 { 1 } else { desired },
    }
}

impl PlatformCategory {
    /// The user-facing name of the platform.
    pub fn display_name(&self) -> (s: &'static str)
        ensures
            s@ == match *self {
                PlatformCategory::YouTube => "YouTube Video"@,
                PlatformCategory::YouTubeMusic => "YouTube Music"@,
                PlatformCategory::TikTok => "TikTok / Shorts"@,
                PlatformCategory::Generic => "Generic / Direct Media"@,
            },
    {
        match self {
            PlatformCategory::YouTube => "YouTube Video",
            PlatformCategory::YouTubeMusic => "YouTube Music",
            PlatformCategory::TikTok => "TikTok / Shorts",
            PlatformCategory::Generic => "Generic / Direct Media",
        }
    }

    /// Platform-aware concurrency cap: TikTok is limited to 1..=2 workers, every other
    /// platform to at least one.
    pub fn max_safe_concurrency(&self, desired_concurrency: usize) -> (r: usize)
        ensures
            r == safe_concurrency(*self, desired_concurrency),
    {
        match self {
            PlatformCategory::TikTok => {
                if desired_concurrency < 1 {
                    1
                } else if desired_concurrency > 2 {
                    2
                } else {
                    desired_concurrency
                }
            },
            _ => if desired_concurrency < 1 { 1 } else { desired_concurrency },
        }
    }
}

/// A scheduled task unit for batch execution.
#[derive(Debug, Clone, PartialEq, Eq)]
pub struct ScheduledTask {
    pub id: usize,
    pub url: String,
    pub platform: PlatformCategory,
}

impl ScheduledTask {
    /// A copy of the task.
    pub fn copy(&self) -> (r: Self)
        ensures
            r == *self,
    {
        ScheduledTask { id: self.id, url: self.url.clone(), platform: self.platform }
    }
}

/// The value of a task: its number, its URL and its platform.
pub open spec fn task_view(t: ScheduledTask) -> (nat, Seq<char>, PlatformCategory) {
    (t.id as nat, t.url@, t.platform)
}

/// The values of a sequence of tasks.
pub open spec fn task_views(s: Seq<ScheduledTask>) -> Seq<(nat, Seq<char>, PlatformCategory)> {
    s.map_values(|t: ScheduledTask| task_view(t))
}

/// The tasks of `s` that belong to platform `p`, in order.
pub open spec fn tasks_with(s: Seq<(nat, Seq<char>, PlatformCategory)>, p: PlatformCategory) -> Seq<
    (nat, Seq<char>, PlatformCategory),
>
    decreases s.len(),
{
    if s.len() == 0 {
        seq![]
    } else if s.last().2 == p {
        tasks_with(s.drop_last(), p).push(s.last())
    } else {
        tasks_with(s.drop_last(), p)
    }
}

/// The tasks of one platform.
#[derive(Debug, Clone, PartialEq, Eq)]
pub struct PlatformGroup {
    pub platform: PlatformCategory,
    pub tasks: Vec<ScheduledTask>,
}

/// A scheduling plan: every task in input order, and the tasks grouped by platform,
/// groups in order of first appearance.
#[derive(Debug, Clone, Default)]
pub struct ScheduledPlan {
    pub tasks: Vec<ScheduledTask>,
    pub grouped: Vec<PlatformGroup>,
}

/// The grouping of `tasks` into `grouped` is exact: one group per platform that occurs,
/// each holding exactly that platform's tasks in input order.
pub open spec fn grouping_exact_for(tasks: Seq<ScheduledTask>, grouped: Seq<PlatformGroup>) -> bool {
    &&& forall|j: int, k: int| 0 <= j < k < grouped.len() ==> grouped[j].platform != grouped[k].platform
    &&& forall|j: int| 0 <= j < grouped.len() ==> task_views(#[trigger] grouped[j].tasks@)
        == tasks_with(task_views(tasks), grouped[j].platform) && grouped[j].tasks@.len() > 0
    &&& forall|p: PlatformCategory| (forall|j: int| 0 <= j < grouped.len()
        ==> #[trigger] grouped[j].platform != p) ==> tasks_with(task_views(tasks), p)
        =~= Seq::<(nat, Seq<char>, PlatformCategory)>::empty()
}

proof fn lemma_absent(tasks: Seq<ScheduledTask>, grouped: Seq<PlatformGroup>, p: PlatformCategory)
    requires
        grouping_exact_for(tasks, grouped),
        forall|j: int| 0 <= j < grouped.len() ==> grouped[j].platform != p,
    ensures
        tasks_with(task_views(tasks), p) == Seq::<(nat, Seq<char>, PlatformCategory)>::empty(),
{
    assert(forall|j: int| 0 <= j < grouped.len() ==> #[trigger] grouped[j].platform != p);
}

impl ScheduledPlan {
    /// The grouping is exact: one group per platform that occurs, each holding exactly
    /// that platform's tasks in input order.
    pub open spec fn grouping_exact(self) -> bool {
        grouping_exact_for(self.tasks@, self.grouped@)
    }

    /// The platform of a URL, given its lowercase mapping.
    pub fn detect_platform_lowered(lower: &str) -> (p: PlatformCategory)
        ensures
            p == platform_of(lower@),
    {
        let l = chars_of(lower);
        if contains_str(&l, "tiktok.com") || contains_str(&l, "douyin.com") {
            PlatformCategory::TikTok
        } else if contains_str(&l, "music.youtube.com") {
            PlatformCategory::YouTubeMusic
        } else if contains_str(&l, "youtube.com") || contains_str(&l, "youtu.be") {
            PlatformCategory::YouTube
        } else {
            PlatformCategory::Generic
        }
    }

    /// The platform of a URL (matched case-insensitively).
    pub fn detect_platform(url: &str) -> (p: PlatformCategory)
        ensures
            p == platform_of(lowercase(url@)),
    {
        let lower = to_lowercase(url);
        Self::detect_platform_lowered(lower.as_str())
    }

    /// The tasks of platform `p`, if any.
    pub fn group(&self, p: PlatformCategory) -> (r: Option<&Vec<ScheduledTask>>)
        ensures
            match r {
                Some(g) => exists|j: int| 0 <= j < self.grouped@.len() && self.grouped@[j].platform == p
                    && self.grouped@[j].tasks == *g,
                None => forall|j: int| 0 <= j < self.grouped@.len() ==> self.grouped@[j].platform != p,
            },
    {
        let mut j: usize = 0;
        while j < self.grouped.len()
            invariant
                j <= self.grouped@.len(),
                forall|k: int| 0 <= k < j ==> self.grouped@[k].platform != p,
            decreases self.grouped.len() - j,
        {
            if self.grouped[j].platform == p {
                return Some(&self.grouped[j].tasks);
            }
            j = j + 1;
        }
        None
    }

    /// Builds the plan for `urls`: task `i` has number `i + 1`, the URL and its platform.
    pub fn from_urls(urls: &[String]) -> (plan: Self)
        requires
            urls@.len() < usize::MAX,
        ensures
            plan.tasks@.len() == urls@.len(),
            forall|i: int| 0 <= i < urls@.len() ==> task_view(#[trigger] plan.tasks@[i]) == (
                (i + 1) as nat,
                urls@[i]@,
                platform_of(lowercase(urls@[i]@)),
            ),
            plan.grouping_exact(),
    {
        let mut tasks: Vec<ScheduledTask> = Vec::new();
        let mut grouped: Vec<PlatformGroup> = Vec::new();
        let mut idx: usize = 0;
        while idx < urls.len()
            invariant
                idx <= urls@.len() < usize::MAX,
                tasks@.len() == idx,
                forall|i: int| 0 <= i < idx ==> task_view(#[trigger] tasks@[i]) == (
                    (i + 1) as nat,
                    urls@[i]@,
                    platform_of(lowercase(urls@[i]@)),
                ),
                grouping_exact_for(tasks@, grouped@),
            decreases urls.len() - idx,
        {
            let url = &urls[idx];
            let platform = Self::detect_platform(url.as_str());
            let task = ScheduledTask { id: idx + 1, url: url.clone(), platform };
            let ghost old_views = task_views(tasks@);
            let ghost tv = task_view(task);
            let ghost old_grouped = grouped@;
            let ghost old_tasks = tasks@;
            let mut j: usize = 0;
            while j < grouped.len() && grouped[j].platform != platform
                invariant
                    j <= grouped@.len(),
                    grouped@ == old_grouped,
                    forall|k: int| 0 <= k < j ==> grouped@[k].platform != platform,
                decreases grouped.len() - j,
            {
                j = j + 1;
            }
            proof {
                assert(task_views(tasks@.push(task)) =~= old_views.push(tv));
                assert forall|p: PlatformCategory| p != platform implies tasks_with(
                    old_views.push(tv),
                    p,
                ) == tasks_with(old_views, p) by {
                    assert(old_views.push(tv).drop_last() =~= old_views);
                }
                assert(tasks_with(old_views.push(tv), platform) == tasks_with(old_views, platform).push(tv))
                    by {
                    assert(old_views.push(tv).drop_last() =~= old_views);
                }
            }
            if j < grouped.len() {
                let mut g = grouped.remove(j);
                let ghost gv = task_views(g.tasks@);
                g.tasks.push(task.copy());
                proof {
                    assert(task_views(g.tasks@) =~= gv.push(task_view(task)));
                }
                let ghost gnew = g;
                grouped.insert(j, g);
                assert(grouped@ =~= old_grouped.update(j as int, gnew));
            } else {
                let mut v: Vec<ScheduledTask> = Vec::new();
                v.push(task.copy());
                proof {
                    assert(task_views(v@) =~= seq![tv]);
                    lemma_absent(old_tasks, old_grouped, platform);
                    assert(seq![tv] =~= Seq::<(nat, Seq<char>, PlatformCategory)>::empty().push(tv));
                }
                let ghost vv = v;
                grouped.push(PlatformGroup { platform, tasks: v });
                assert(grouped@ =~= old_grouped.push(PlatformGroup { platform, tasks: vv }));
            }
            tasks.push(task);
            idx = idx + 1;
            proof {
                assert(task_views(tasks@) == old_views.push(tv));
                assert forall|a: int, b: int| 0 <= a < b < grouped@.len()
                    implies grouped@[a].platform != grouped@[b].platform by {
                    if b < old_grouped.len() {
                        assert(grouped@[a].platform == old_grouped[a].platform);
                        assert(grouped@[b].platform == old_grouped[b].platform);
                    }
                }
                assert forall|k: int| 0 <= k < grouped@.len() implies task_views(
                    #[trigger] grouped@[k].tasks@,
                ) == tasks_with(task_views(tasks@), grouped@[k].platform) && grouped@[k].tasks@.len()
                    > 0 by {
                    if k < old_grouped.len() && grouped@[k].platform != platform {
                        assert(grouped@[k] == old_grouped[k]);
                    }
                }
                assert forall|p: PlatformCategory| (forall|k: int| 0 <= k < grouped@.len()
                    ==> #[trigger] grouped@[k].platform != p) implies tasks_with(
                    task_views(tasks@),
                    p,
                ) =~= Seq::<(nat, Seq<char>, PlatformCategory)>::empty() by {
                    assert(p != platform) by {
                        if p == platform {
                            let k = if j < old_grouped.len() { j as int } else { old_grouped.len() as int };
                            assert(grouped@[k].platform == platform);
                        }
                    }
                    assert forall|k: int| 0 <= k < old_grouped.len() implies #[trigger] old_grouped[k].platform != p by {
                        assert(grouped@[k].platform == old_grouped[k].platform);
                    }
                    lemma_absent(old_tasks, old_grouped, p);
                }
            }
        }
        ScheduledPlan { tasks, grouped }
    }
}

/// The user-facing name of a platform.
pub open spec fn platform_display(p: PlatformCategory) -> Seq<char> {
    match p {
        PlatformCategory::YouTube => "YouTube Video"@,
        PlatformCategory::YouTubeMusic => "YouTube Music"@,
        PlatformCategory::TikTok => "TikTok / Shorts"@,
        PlatformCategory::Generic => "Generic / Direct Media"@,
    }
}

/// The row of the schedule box that counts the items of a platform.
pub open spec fn group_row(g: PlatformGroup) -> Seq<char> {
    "║  "@ + pad_right(
        truncated("• "@ + platform_display(g.platform) + ": "@ + decimal(g.tasks@.len()) + " item(s)"@, 48),
        48,
    ) + "║"@
}

impl ScheduledPlan {
    /// The lines of the schedule summary shown before a batch runs.
    pub open spec fn summary_text(self, concurrency: usize) -> Seq<Seq<char>> {
        seq![
            "\n╔══════════════════════════════════════════════════╗"@,
            "║             📋 SMART QUEUE SCHEDULER             ║"@,
            "╠══════════════════════════════════════════════════╣"@,
            "║  Total Scheduled Items : "@ + pad_right(decimal(self.tasks@.len()), 24) + "║"@,
            "║  Target Concurrency    : "@ + pad_right(decimal(concurrency as nat), 24) + "║"@,
            "╠══════════════════════════════════════════════════╣"@
        ] + self.grouped@.map_values(|g: PlatformGroup| group_row(g)) + seq!["╚══════════════════════════════════════════════════╝\n"@]
    }

    /// The lines of the schedule summary, to be printed one per line.
    pub fn summary_lines(&self, effective_concurrency: usize) -> (r: Vec<String>)
        ensures
            string_views(r@) == self.summary_text(effective_concurrency),
    {
        let mut v: Vec<String> = Vec::new();
        push_text_if(&mut v, true, "\n╔══════════════════════════════════════════════════╗");
        push_text_if(&mut v, true, "║             📋 SMART QUEUE SCHEDULER             ║");
        push_text_if(&mut v, true, "╠══════════════════════════════════════════════════╣");
        let mut row = chars_of("║  Total Scheduled Items : ");
        append_chars(&mut row, &pad_right_chars(&decimal_chars(self.tasks.len() as u64), 24));
        append_str(&mut row, "║");
        let r1 = string_of(&row);
        push_text_if(&mut v, true, r1.as_str());
        let mut row2 = chars_of("║  Target Concurrency    : ");
        append_chars(&mut row2, &pad_right_chars(&decimal_chars(effective_concurrency as u64), 24));
        append_str(&mut row2, "║");
        let r2 = string_of(&row2);
        push_text_if(&mut v, true, r2.as_str());
        push_text_if(&mut v, true, "╠══════════════════════════════════════════════════╣");
        let ghost head = string_views(v@);
        let mut i: usize = 0;
        while i < self.grouped.len()
            invariant
                i <= self.grouped@.len(),
                string_views(v@) == head + self.grouped@.take(i as int).map_values(|g: PlatformGroup| group_row(g)),
            decreases self.grouped.len() - i,
        {
            let g = &self.grouped[i];
            let mut line = chars_of("• ");
            append_str(&mut line, g.platform.display_name());
            append_str(&mut line, ": ");
            append_chars(&mut line, &decimal_chars(g.tasks.len() as u64));
            append_str(&mut line, " item(s)");
            let mut row = chars_of("║  ");
            append_chars(&mut row, &pad_right_chars(&truncate_chars(&line, 48), 48));
            append_str(&mut row, "║");
            let rs = string_of(&row);
            push_text_if(&mut v, true, rs.as_str());
            assert(self.grouped@.take(i + 1).map_values(|g: PlatformGroup| group_row(g)) =~= self.grouped@.take(
                i as int,
            ).map_values(|g: PlatformGroup| group_row(g)).push(group_row(self.grouped@[i as int])));
            i = i + 1;
        }
        assert(self.grouped@.take(self.grouped@.len() as int) =~= self.grouped@);
        push_text_if(&mut v, true, "╚══════════════════════════════════════════════════╝\n");
        assert(string_views(v@) =~= self.summary_text(effective_concurrency));
        v
    }
}

/// How many downloads of each platform are running in a parallel batch.
#[derive(Debug, Clone, Copy, PartialEq, Eq, Structural)]
pub struct PlatformSlots {
    pub youtube: usize,
    pub youtube_music: usize,
    pub tiktok: usize,
    pub generic: usize,
}

/// A task of a platform with a free slot among `workers` workers.
pub open spec fn runnable(slots: PlatformSlots, t: ScheduledTask, workers: usize) -> bool {
    slots.count(t.platform) < safe_concurrency(t.platform, workers)
}

impl PlatformSlots {
    /// The running downloads of platform `p`.
    pub open spec fn count(self, p: PlatformCategory) -> usize {
        match p {
            PlatformCategory::YouTube => self.youtube,
            PlatformCategory::YouTubeMusic => self.youtube_music,
            PlatformCategory::TikTok => self.tiktok,
            PlatformCategory::Generic => self.generic,
        }
    }

    /// No download running.
    pub fn new() -> (s: Self)
        ensures
            forall|p: PlatformCategory| #[trigger] s.count(p) == 0,
    {
        PlatformSlots { youtube: 0, youtube_music: 0, tiktok: 0, generic: 0 }
    }

    /// The running downloads of platform `p`.
    pub fn running(&self, p: PlatformCategory) -> (r: usize)
        ensures
            r == self.count(p),
    {
        match p {
            PlatformCategory::YouTube => self.youtube,
            PlatformCategory::YouTubeMusic => self.youtube_music,
            PlatformCategory::TikTok => self.tiktok,
            PlatformCategory::Generic => self.generic,
        }
    }

    /// Whether a download of platform `p` may start among `workers` workers: fewer than
    /// the platform's cap are running.
    pub fn has_room(&self, p: PlatformCategory, workers: usize) -> (r: bool)
        ensures
            r == (self.count(p) < safe_concurrency(p, workers)),
    {
        self.running(p) < p.max_safe_concurrency(workers)
    }

    /// Counts a started download of platform `p`.
    pub fn take(&mut self, p: PlatformCategory)
        requires
            old(self).count(p) < usize::MAX,
        ensures
            final(self).count(p) == old(self).count(p) + 1,
            forall|q: PlatformCategory| q != p ==> #[trigger] final(self).count(q) == old(self).count(q),
    {
        match p {
            PlatformCategory::YouTube => self.youtube = self.youtube + 1,
            PlatformCategory::YouTubeMusic => self.youtube_music = self.youtube_music + 1,
            PlatformCategory::TikTok => self.tiktok = self.tiktok + 1,
            PlatformCategory::Generic => self.generic = self.generic + 1,
        }
    }

    /// Counts a finished download of platform `p` (none below zero).
    pub fn release(&mut self, p: PlatformCategory)
        ensures
            final(self).count(p) == if old(self).count(p) > 0 {
                (old(self).count(p) - 1) as usize
            } else {
                0
            },
            forall|q: PlatformCategory| q != p ==> #[trigger] final(self).count(q) == old(self).count(q),
    {
        match p {
            PlatformCategory::YouTube => if self.youtube > 0 {
                self.youtube = self.youtube - 1
            },
            PlatformCategory::YouTubeMusic => if self.youtube_music > 0 {
                self.youtube_music = self.youtube_music - 1
            },
            PlatformCategory::TikTok => if self.tiktok > 0 {
                self.tiktok = self.tiktok - 1
            },
            PlatformCategory::Generic => if self.generic > 0 {
                self.generic = self.generic - 1
            },
        }
    }

    /// The position of the first waiting task whose platform has a free slot among
    /// `workers` workers, if any.
    pub fn first_runnable(&self, waiting: &[ScheduledTask], workers: usize) -> (r: Option<usize>)
        ensures
            match r {
                Some(i) => i < waiting@.len() && runnable(*self, waiting@[i as int], workers) && forall|j: int|
                    0 <= j < i ==> !runnable(*self, #[trigger] waiting@[j], workers),
                None => forall|j: int| 0 <= j < waiting@.len() ==> !runnable(*self, #[trigger] waiting@[j], workers),
            },
    {
        let mut i: usize = 0;
        while i < waiting.len()
            invariant
                i <= waiting@.len(),
                forall|j: int| 0 <= j < i ==> !runnable(*self, #[trigger] waiting@[j], workers),
            decreases waiting.len() - i,
        {
            if self.has_room(waiting[i].platform, workers) {
                return Some(i);
            }
            i = i + 1;
        }
        None
    }
}

/// A parallel batch never runs more downloads of a platform than its cap: starting only
/// runnable tasks keeps every platform at or under it.
pub proof fn slots_stay_within_caps(before: PlatformSlots, after: PlatformSlots, t: ScheduledTask, workers: usize)
    requires
        forall|p: PlatformCategory| #[trigger] before.count(p) <= safe_concurrency(p, workers),
        runnable(before, t, workers),
        after.count(t.platform) == before.count(t.platform) + 1,
        forall|q: PlatformCategory| q != t.platform ==> #[trigger] after.count(q) == before.count(q),
    ensures
        forall|p: PlatformCategory| #[trigger] after.count(p) <= safe_concurrency(p, workers),
{
    assert forall|p: PlatformCategory| #[trigger] after.count(p) <= safe_concurrency(p, workers) by {
        if p != t.platform {
            assert(after.count(p) == before.count(p));
        }
    }
}

/// TikTok never gets more than two workers, and no platform gets fewer than one.
pub proof fn concurrency_caps(p: PlatformCategory, desired: usize)
    ensures
        1 <= safe_concurrency(p, desired),
        p == PlatformCategory::TikTok ==> safe_concurrency(p, desired) <= 2,
        p != PlatformCategory::TikTok && desired >= 1 ==> safe_concurrency(p, desired) == desired,
{
}

} // verus!
