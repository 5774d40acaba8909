//! The on-disk metadata cache: where an entry lives, how URLs are keyed, and when an
//! entry is fresh.
//!
//! URLs that differ only by tracking parameters (`si`, `feature`, `fbclid`, `gclid`,
//! `utm_*`), by their fragment or by the order of their query parameters share one key.

use vstd::prelude::*;
use vstd::std_specs::hash::DefaultHasherAdditionalSpecFns;
use std::collections::hash_map::DefaultHasher;
use std::hash::Hasher;
use std::time::{Duration, SystemTime};
use crate::metadata::VideoMetadata;
use crate::text::{
    append_chars, append_str, chars_eq_str, chars_of, digit_char, hex16_chars, hexadecimal, join_path, less_than,
    lemma_lt_asymmetric, lemma_lt_irreflexive, lemma_lt_total, lemma_lt_transitive,
    pad_left, path_join, seq_lt, split, split_once, split_once_seq, split_seq, starts_with,
    starts_with_seq, string_of, trim, trim_ws, views, find_seq, is_ws, lemma_find_unique, match_at, trim_end_ws,
    trim_start_ws,
};

verus! {

/// A query parameter key that only tracks where a link was shared.
pub open spec fn tracking_key(k: Seq<char>) -> bool {
    k == "si"@ || k == "feature"@ || k == "fbclid"@ || k == "gclid"@ || k == "utm_source"@ || k
        == "utm_medium"@ || k == "utm_campaign"@ || k == "utm_term"@ || k == "utm_content"@
        || starts_with_seq(k, "utm_"@)
}

/// The key of a query parameter: the text before its first `=`, or all of it.
pub open spec fn param_key(p: Seq<char>) -> Seq<char> {
    match split_once_seq(p, '=') {
        Some((k, _)) => k,
        None => p,
    }
}

/// A query parameter that is kept: not empty and not a tracking parameter.
pub open spec fn kept_param(p: Seq<char>) -> bool {
    p.len() > 0 && !tracking_key(param_key(p))
}

/// The kept parameters of `ps`, in order.
pub open spec fn kept_params(ps: Seq<Seq<char>>) -> Seq<Seq<char>>
    decreases ps.len(),
{
    if ps.len() == 0 {
        seq![]
    } else {
        kept_params(ps.drop_last()) + if kept_param(ps.last()) {
            seq![ps.last()]
        } else {
            seq![]
        }
    }
}

/// `x` inserted into `s` before the first element that does not sort before it.
pub open spec fn insert_ordered(s: Seq<Seq<char>>, x: Seq<char>) -> Seq<Seq<char>>
    decreases s.len(),
{
    if s.len() == 0 {
        seq![x]
    } else if seq_lt(s[0], x) {
        seq![s[0]] + insert_ordered(s.drop_first(), x)
    } else {
        seq![x] + s
    }
}

/// `s` in ascending order (the order of `str`).
pub open spec fn sort_params(s: Seq<Seq<char>>) -> Seq<Seq<char>>
    decreases s.len(),
{
    if s.len() == 0 {
        seq![]
    } else {
        insert_ordered(sort_params(s.drop_last()), s.last())
    }
}

/// The parameters joined with `&`.
pub open spec fn join_params(s: Seq<Seq<char>>) -> Seq<char>
    decreases s.len(),
{
    if s.len() == 0 {
        seq![]
    } else if s.len() == 1 {
        s[0]
    } else {
        join_params(s.drop_last()) + "&"@ + s.last()
    }
}

/// The URL without surrounding whitespace and without its fragment.
pub open spec fn without_fragment(url: Seq<char>) -> Seq<char> {
    let t = trim_ws(url);
    match split_once_seq(t, '#') {
        Some((u, _)) => u,
        None => t,
    }
}

/// The canonical form of a URL that the cache is keyed by: trimmed, without fragment,
/// without tracking parameters, and with the remaining parameters sorted.
pub open spec fn canonical_text(url: Seq<char>) -> Seq<char> {
    let w = without_fragment(url);
    match split_once_seq(w, '?') {
        Some((base, q)) => {
            let kept = kept_params(split_seq(q, '&'));
            if kept.len() == 0 {
                base
            } else {
                base + "?"@ + join_params(sort_params(kept))
            }
        },
        None => w,
    }
}

/// What hashing a string (`Hash::hash` for `str`) writes into a hasher: a sequence of
/// byte writes determined by the string.
pub uninterp spec fn str_hash_writes(s: Seq<char>) -> Seq<Seq<u8>>;

/// std `Hash::hash` for `str`, feeding a string to a `DefaultHasher`. The contract says
/// that the writes it adds depend on the string alone; what they are is only named.
#[verifier::external_body]
fn hash_str_into(s: &str, hasher: &mut DefaultHasher)
    ensures
        final(hasher)@ == old(hasher)@ + str_hash_writes(s@),
{
    std::hash::Hash::hash(s, hasher);
}

/// The hash of a string under a fresh `DefaultHasher`, whose keys are the same in every
/// process.
pub open spec fn std_hash(s: Seq<char>) -> u64 {
    DefaultHasher::spec_finish(Seq::<Seq<u8>>::empty() + str_hash_writes(s))
}

/// Hashes a string with a fresh `DefaultHasher`.
fn hash_text(s: &str) -> (r: u64)
    ensures
        r == std_hash(s@),
{
    let mut hasher = DefaultHasher::new();
    hash_str_into(s, &mut hasher);
    hasher.finish()
}

/// The user's cache directory (`dirs::cache_dir`), as text. Nothing is promised of it:
/// it depends on the platform and the environment.
#[verifier::external_body]
fn user_cache_dir() -> (r: Option<String>) {
    dirs::cache_dir().map(|p| p.to_string_lossy().into_owned())
}

/// std's `SystemTime`, a reading of the system clock, opaque to proofs.
#[verifier::external_type_specification]
#[verifier::external_body]
pub struct ExSystemTime(std::time::SystemTime);

/// std `SystemTime::now`: the time of the system clock at the call. Nothing is promised
/// of it.
#[verifier::external_body]
fn system_now() -> (r: SystemTime) {
    SystemTime::now()
}

/// std `SystemTime::duration_since` from `UNIX_EPOCH`, or `None` when `t` lies before the
/// epoch. Nothing is promised of the value.
#[verifier::external_body]
fn duration_since_epoch(t: SystemTime) -> (r: Option<Duration>) {
    t.duration_since(std::time::UNIX_EPOCH).ok()
}

/// std `Duration::as_secs`: the whole seconds of a duration. Nothing is promised of the
/// value, since the duration itself is opaque here.
#[verifier::external_body]
fn whole_seconds(d: Duration) -> (r: u64) {
    d.as_secs()
}

/// The seconds since the Unix epoch on the system clock, if it is set after the epoch.
pub(crate) fn clock_seconds() -> Option<u64> {
    match duration_since_epoch(system_now()) {
        Some(d) => Some(whole_seconds(d)),
        None => None,
    }
}

/// The current time in seconds since the Unix epoch, zero when the clock is before it.
pub fn now_secs() -> (r: u64) {
    match clock_seconds() {
        Some(s) => s,
        None => 0,
    }
}

/// `x` inserted into the ascending `s` before the first element not sorting before it.
fn insert_in_order(s: &mut Vec<Vec<char>>, x: Vec<char>)
    ensures
        views(final(s)@) == insert_ordered(views(old(s)@), x@),
{
    let ghost old_v = views(s@);
    let mut pos: usize = 0;
    while pos < s.len() && less_than(&s[pos], &x)
        invariant
            pos <= s@.len(),
            views(s@) == old_v,
            forall|k: int| 0 <= k < pos ==> seq_lt(old_v[k], x@),
        decreases s.len() - pos,
    {
        pos = pos + 1;
    }
    proof {
        lemma_insert_ordered_at(old_v, x@, pos as int);
    }
    let ghost xv = x@;
    s.insert(pos, x);
    assert(views(s@) =~= old_v.take(pos as int) + seq![xv] + old_v.skip(pos as int));
}

proof fn lemma_insert_ordered_at(s: Seq<Seq<char>>, x: Seq<char>, pos: int)
    requires
        0 <= pos <= s.len(),
        forall|k: int| 0 <= k < pos ==> seq_lt(s[k], x),
        pos < s.len() ==> !seq_lt(s[pos], x),
    ensures
        insert_ordered(s, x) == s.take(pos) + seq![x] + s.skip(pos),
    decreases s.len(),
{
    if s.len() == 0 {
        assert(s.take(pos) + seq![x] + s.skip(pos) =~= seq![x]);
    } else if pos == 0 {
        assert(s.take(0) + seq![x] + s.skip(0) =~= seq![x] + s);
    } else {
        assert forall|k: int| 0 <= k < pos - 1 implies seq_lt(s.drop_first()[k], x) by {
            assert(s.drop_first()[k] == s[k + 1]);
        }
        lemma_insert_ordered_at(s.drop_first(), x, pos - 1);
        assert(seq![s[0]] + (s.drop_first().take(pos - 1) + seq![x] + s.drop_first().skip(pos - 1))
            =~= s.take(pos) + seq![x] + s.skip(pos));
    }
}

/// Whether `k` is a tracking key.
fn is_tracking_key(k: &[char]) -> (r: bool)
    ensures
        r == tracking_key(k@),
{
    chars_eq_str(k, "si") || chars_eq_str(k, "feature") || chars_eq_str(k, "fbclid") || chars_eq_str(
        k,
        "gclid",
    ) || chars_eq_str(k, "utm_source") || chars_eq_str(k, "utm_medium") || chars_eq_str(
        k,
        "utm_campaign",
    ) || chars_eq_str(k, "utm_term") || chars_eq_str(k, "utm_content") || starts_with(k, "utm_")
}

/// Whether a query parameter is kept.
fn keeps_param(p: &[char]) -> (r: bool)
    ensures
        r == kept_param(p@),
{
    if p.len() == 0 {
        return false;
    }
    let key_tracked = match split_once(p, '=') {
        Some((k, _)) => is_tracking_key(&k),
        None => is_tracking_key(p),
    };
    !key_tracked
}

/// The parameters joined with `&`.
fn join_with_amp(ps: &Vec<Vec<char>>) -> (r: Vec<char>)
    ensures
        r@ == join_params(views(ps@)),
{
    let mut out: Vec<char> = Vec::new();
    let mut i: usize = 0;
    while i < ps.len()
        invariant
            i <= ps@.len(),
            out@ == join_params(views(ps@).take(i as int)),
        decreases ps.len() - i,
    {
        let ghost pre = views(ps@).take(i + 1);
        assert(pre.drop_last() =~= views(ps@).take(i as int));
        if i > 0 {
            append_str(&mut out, "&");
        }
        append_chars(&mut out, &ps[i]);
        proof {
            if i == 0 {
                assert(out@ =~= pre[0]);
            }
        }
        i = i + 1;
    }
    assert(views(ps@).take(ps@.len() as int) =~= views(ps@));
    out
}

/// The cached metadata of one URL, with the times it was stored and expires.
#[derive(Debug, Clone)]
pub struct CachedMetadata {
    pub url: String,
    pub cached_at: u64,
    pub expires_at: u64,
    pub metadata: VideoMetadata,
}

impl CachedMetadata {
    /// Whether the entry is still valid at `now`.
    pub fn is_fresh_at(&self, now: u64) -> (r: bool)
        ensures
            r == (now < self.expires_at),
    {
        now < self.expires_at
    }
}

/// A cache of extractor metadata in a directory, one JSON file per URL.
#[derive(Debug, Clone)]
pub struct MetadataCache {
    cache_dir: String,
    default_ttl_secs: u64,
}

/// The time an entry stored at `now` for `ttl` seconds expires (saturating).
pub open spec fn expiry(now: u64, ttl: u64) -> u64 {
    if now + ttl > u64::MAX { u64::MAX } else { (now + ttl) as u64 }
}

impl MetadataCache {
    /// The directory of the cache files.
    pub closed spec fn dir(self) -> Seq<char> {
        self.cache_dir@
    }

    /// The lifetime of an entry when none is given, in seconds.
    pub closed spec fn ttl(self) -> u64 {
        self.default_ttl_secs
    }

    /// A cache in the user's cache directory (`.cache` when there is none), under
    /// `dlp/metadata`, whose entries live two hours.
    pub fn new() -> (c: Self)
        ensures
            exists|base: Seq<char>| c.dir() == path_join(path_join(base, "dlp"@), "metadata"@),
            c.ttl() == 7200,
    {
        let base = match user_cache_dir() {
            Some(d) => d,
            None => ".cache".to_owned(),
        };
        let dlp = join_path(base.as_str(), "dlp");
        let dir = join_path(dlp.as_str(), "metadata");
        Self::with_dir(dir, 7200)
    }

    /// A cache in `dir` whose entries live `default_ttl_secs` seconds unless told otherwise.
    pub fn with_dir(dir: String, default_ttl_secs: u64) -> (c: Self)
        ensures
            c.dir() == dir@,
            c.ttl() == default_ttl_secs,
    {
        MetadataCache { cache_dir: dir, default_ttl_secs }
    }

    /// The canonical form of a URL: trimmed, without fragment and tracking parameters, the
    /// remaining parameters sorted.
    pub fn canonical_url(url: &str) -> (r: String)
        ensures
            r@ == canonical_text(url@),
    {
        let t = trim(&chars_of(url));
        let w = match split_once(&t, '#') {
            Some((u, _)) => u,
            None => t,
        };
        match split_once(&w, '?') {
            Some((base, q)) => {
                let params = split(&q, '&');
                let mut sorted: Vec<Vec<char>> = Vec::new();
                let ghost all = views(params@);
                let mut i: usize = 0;
                while i < params.len()
                    invariant
                        i <= params@.len(),
                        all == views(params@),
                        views(sorted@) == sort_params(kept_params(all.take(i as int))),
                    decreases params.len() - i,
                {
                    let ghost pre = all.take(i + 1);
                    assert(pre.drop_last() =~= all.take(i as int));
                    assert(pre.last() == params@[i as int]@);
                    if keeps_param(&params[i]) {
                        let p = crate::text::sub_chars(&params[i], 0, params[i].len());
                        assert(p@ =~= params@[i as int]@);
                        proof {
                            let k = kept_params(all.take(i as int));
                            assert(kept_params(pre) == k.push(p@));
                            assert(k.push(p@).drop_last() =~= k);
                        }
                        insert_in_order(&mut sorted, p);
                    }
                    i = i + 1;
                }
                assert(all.take(params@.len() as int) =~= all);
                proof {
                    lemma_sort_len(kept_params(all));
                }
                if sorted.len() == 0 {
                    string_of(&base)
                } else {
                    let mut out = base;
                    append_str(&mut out, "?");
                    append_chars(&mut out, &join_with_amp(&sorted));
                    string_of(&out)
                }
            },
            None => string_of(&w),
        }
    }

    /// The file name stem of the cache entry of a URL whose canonical form hashes to `hash`:
    /// the hash as 16 lowercase hexadecimal digits.
    pub fn key_from_hash(hash: u64) -> (r: String)
        ensures
            r@ == pad_left(hexadecimal(hash as nat), 16, '0'),
    {
        string_of(&hex16_chars(hash))
    }

    /// The cache key of a URL: the hash of its canonical form as 16 hexadecimal digits.
    pub fn normalize_key(url: &str) -> (r: String)
        ensures
            r@ == pad_left(hexadecimal(std_hash(canonical_text(url@)) as nat), 16, '0'),
    {
        let canonical = Self::canonical_url(url);
        Self::key_from_hash(hash_text(canonical.as_str()))
    }

    /// The path of the cache file of a URL.
    pub fn cache_file_path(&self, url: &str) -> (r: String)
        ensures
            r@ == path_join(
                self.dir(),
                pad_left(hexadecimal(std_hash(canonical_text(url@)) as nat), 16, '0') + ".json"@,
            ),
    {
        let key = Self::normalize_key(url);
        let mut name = chars_of(key.as_str());
        append_str(&mut name, ".json");
        let n = string_of(&name);
        join_path(self.cache_dir.as_str(), n.as_str())
    }

    /// The directory of the cache files.
    pub fn cache_dir(&self) -> (r: &str)
        ensures
            r@ == self.dir(),
    {
        self.cache_dir.as_str()
    }

    /// The entry to store for `url` at time `now`, living `custom_ttl` seconds or the
    /// default; live streams are never stored.
    pub fn entry_for(&self, url: &str, meta: VideoMetadata, now: u64, custom_ttl: Option<u64>) -> (r:
        Option<CachedMetadata>)
        ensures
            match r {
                Some(e) => meta.is_live != Some(true) && e.url@ == url@ && e.cached_at == now
                    && e.expires_at == expiry(
                    now,
                    match custom_ttl {
                        Some(t) => t,
                        None => self.ttl(),
                    },
                ) && e.metadata == meta,
                None => meta.is_live == Some(true),
            },
    {
        if let Some(true) = meta.is_live {
            return None;
        }
        let ttl = match custom_ttl {
            Some(t) => t,
            None => self.default_ttl_secs,
        };
        let expires_at = now.saturating_add(ttl);
        Some(CachedMetadata { url: url.to_owned(), cached_at: now, expires_at, metadata: meta })
    }
}

impl Default for MetadataCache {
    fn default() -> (c: Self)
        ensures
            exists|base: Seq<char>| c.dir() == path_join(path_join(base, "dlp"@), "metadata"@),
            c.ttl() == 7200,
    {
        Self::new()
    }
}

proof fn lemma_insert_len(s: Seq<Seq<char>>, x: Seq<char>)
    ensures
        insert_ordered(s, x).len() == s.len() + 1,
    decreases s.len(),
{
    if s.len() > 0 && seq_lt(s[0], x) {
        lemma_insert_len(s.drop_first(), x);
    }
}

proof fn lemma_sort_len(s: Seq<Seq<char>>)
    ensures
        sort_params(s).len() == s.len(),
    decreases s.len(),
{
    if s.len() > 0 {
        lemma_sort_len(s.drop_last());
        lemma_insert_len(sort_params(s.drop_last()), s.last());
    }
}

/// No element of `s` sorts before an earlier one.
pub open spec fn ascending(s: Seq<Seq<char>>) -> bool {
    forall|i: int, j: int| 0 <= i < j < s.len() ==> !seq_lt(#[trigger] s[j], #[trigger] s[i])
}

proof fn lemma_not_lt_transitive(a: Seq<char>, b: Seq<char>, c: Seq<char>)
    requires
        !seq_lt(b, a),
        !seq_lt(c, b),
    ensures
        !seq_lt(c, a),
{
    if seq_lt(c, a) {
        if a != b {
            lemma_lt_total(a, b);
            lemma_lt_transitive(c, a, b);
        }
    }
}

proof fn lemma_not_lt_both(a: Seq<char>, b: Seq<char>)
    requires
        !seq_lt(a, b),
        !seq_lt(b, a),
    ensures
        a == b,
{
    if a != b {
        lemma_lt_total(a, b);
    }
}

proof fn lemma_insert_ordered(s: Seq<Seq<char>>, x: Seq<char>)
    requires
        ascending(s),
    ensures
        ascending(insert_ordered(s, x)),
        insert_ordered(s, x).to_multiset() == s.to_multiset().insert(x),
        forall|i: int| 0 <= i < insert_ordered(s, x).len() ==> #[trigger] insert_ordered(s, x)[i] == x
            || s.contains(insert_ordered(s, x)[i]),
    decreases s.len(),
{
    broadcast use vstd::seq_lib::group_to_multiset_ensures;
    broadcast use vstd::multiset::group_multiset_axioms;

    let r = insert_ordered(s, x);
    if s.len() == 0 {
        assert(r =~= seq![x]);
        assert(s.push(x) =~= seq![x]);
    } else if seq_lt(s[0], x) {
        let rest = s.drop_first();
        assert(ascending(rest)) by {
            assert forall|i: int, j: int| 0 <= i < j < rest.len() implies !seq_lt(#[trigger] rest[j], #[trigger] rest[i]) by {
                assert(rest[j] == s[j + 1] && rest[i] == s[i + 1]);
            }
        }
        lemma_insert_ordered(rest, x);
        let ir = insert_ordered(rest, x);
        assert(r == seq![s[0]] + ir);
        assert(r.drop_first() =~= ir);
        assert(s =~= seq![s[0]] + rest);
        assert(r.to_multiset() =~= s.to_multiset().insert(x)) by {
            assert(r[0] == s[0]);
            assert(r.remove(0) =~= ir);
            assert(s.remove(0) =~= rest);
            assert(r.contains(s[0]));
            assert(s.contains(s[0]));
            let rm = r.to_multiset();
            let sm = s.to_multiset();
            assert(rm.count(s[0]) > 0);
            assert(sm.count(s[0]) > 0);
            assert(rm.remove(s[0]) == rest.to_multiset().insert(x));
            assert(sm.remove(s[0]) == rest.to_multiset());
            assert forall|a: Seq<char>| rm.count(a) == sm.insert(x).count(a) by {
                assert(rm.remove(s[0]).count(a) == rest.to_multiset().insert(x).count(a));
                assert(sm.remove(s[0]).count(a) == rest.to_multiset().count(a));
            }
        }
        assert forall|i: int, j: int| 0 <= i < j < r.len() implies !seq_lt(#[trigger] r[j], #[trigger] r[i]) by {
            if i == 0 {
                assert(r[j] == ir[j - 1]);
                if ir[j - 1] == x {
                    lemma_lt_asymmetric(s[0], x);
                } else {
                    let k = choose|k: int| 0 <= k < rest.len() && rest[k] == ir[j - 1];
                    assert(rest[k] == s[k + 1]);
                    assert(!seq_lt(s[k + 1], s[0]));
                }
            } else {
                assert(r[i] == ir[i - 1] && r[j] == ir[j - 1]);
            }
        }
        assert forall|i: int| 0 <= i < r.len() implies #[trigger] r[i] == x || s.contains(r[i]) by {
            if i == 0 {
                assert(s[0] == r[0]);
            } else {
                assert(r[i] == ir[i - 1]);
                if ir[i - 1] != x {
                    let k = choose|k: int| 0 <= k < rest.len() && rest[k] == ir[i - 1];
                    assert(s[k + 1] == rest[k]);
                }
            }
        }
    } else {
        assert(r == seq![x] + s);
        assert(r.remove(0) =~= s);
        assert forall|i: int, j: int| 0 <= i < j < r.len() implies !seq_lt(#[trigger] r[j], #[trigger] r[i]) by {
            if i == 0 {
                assert(r[j] == s[j - 1]);
                if j - 1 > 0 {
                    assert(!seq_lt(s[j - 1], s[0]));
                    lemma_not_lt_transitive(x, s[0], s[j - 1]);
                }
            } else {
                assert(r[i] == s[i - 1] && r[j] == s[j - 1]);
            }
        }
        assert forall|i: int| 0 <= i < r.len() implies #[trigger] r[i] == x || s.contains(r[i]) by {
            if i > 0 {
                assert(r[i] == s[i - 1]);
            }
        }
    }
}

proof fn lemma_sort_params(s: Seq<Seq<char>>)
    ensures
        ascending(sort_params(s)),
        sort_params(s).to_multiset() == s.to_multiset(),
    decreases s.len(),
{
    broadcast use vstd::seq_lib::group_to_multiset_ensures;

    if s.len() == 0 {
        assert(sort_params(s) =~= Seq::<Seq<char>>::empty());
    } else {
        lemma_sort_params(s.drop_last());
        lemma_insert_ordered(sort_params(s.drop_last()), s.last());
        assert(s.drop_last().push(s.last()) =~= s);
    }
}

proof fn lemma_ascending_unique(a: Seq<Seq<char>>, b: Seq<Seq<char>>)
    requires
        ascending(a),
        ascending(b),
        a.to_multiset() == b.to_multiset(),
    ensures
        a == b,
    decreases a.len(),
{
    broadcast use vstd::seq_lib::group_to_multiset_ensures;
    broadcast use vstd::multiset::group_multiset_axioms;

    assert(a.len() == a.to_multiset().len());
    assert(b.len() == b.to_multiset().len());
    if a.len() == 0 {
        assert(a =~= b);
    } else {
        assert(a.to_multiset().count(a[0]) > 0);
        assert(b.contains(a[0]));
        let j = choose|j: int| 0 <= j < b.len() && b[j] == a[0];
        if j > 0 {
            assert(!seq_lt(b[j], b[0]));
        }
        assert(a.to_multiset().count(b[0]) > 0) by {
            assert(b.to_multiset().count(b[0]) > 0);
        }
        assert(a.contains(b[0]));
        let k = choose|k: int| 0 <= k < a.len() && a[k] == b[0];
        if k > 0 {
            assert(!seq_lt(a[k], a[0]));
        }
        lemma_lt_irreflexive(a[0]);
        lemma_lt_irreflexive(b[0]);
        lemma_not_lt_both(a[0], b[0]);
        let ra = a.drop_first();
        let rb = b.drop_first();
        assert(a.remove(0) =~= ra);
        assert(b.remove(0) =~= rb);
        assert(ra.to_multiset() == rb.to_multiset());
        assert(ascending(ra)) by {
            assert forall|i: int, j: int| 0 <= i < j < ra.len() implies !seq_lt(#[trigger] ra[j], #[trigger] ra[i]) by {
                assert(ra[j] == a[j + 1] && ra[i] == a[i + 1]);
            }
        }
        assert(ascending(rb)) by {
            assert forall|i: int, j: int| 0 <= i < j < rb.len() implies !seq_lt(#[trigger] rb[j], #[trigger] rb[i]) by {
                assert(rb[j] == b[j + 1] && rb[i] == b[i + 1]);
            }
        }
        lemma_ascending_unique(ra, rb);
        assert(a =~= seq![a[0]] + ra);
        assert(b =~= seq![b[0]] + rb);
    }
}

/// Sorting the query parameters gives one order whatever order they came in: parameter
/// lists that are permutations of each other sort to the same list.
pub proof fn sorted_params_ignore_order(a: Seq<Seq<char>>, b: Seq<Seq<char>>)
    requires
        a.to_multiset() == b.to_multiset(),
    ensures
        sort_params(a) == sort_params(b),
{
    lemma_sort_params(a);
    lemma_sort_params(b);
    lemma_ascending_unique(sort_params(a), sort_params(b));
}

/// A tracking parameter never reaches the canonical query: appending one changes nothing.
pub proof fn tracking_param_is_dropped(ps: Seq<Seq<char>>, t: Seq<char>)
    requires
        tracking_key(param_key(t)),
    ensures
        kept_params(ps.push(t)) == kept_params(ps),
{
    assert(ps.push(t).drop_last() =~= ps);
    assert(kept_params(ps.push(t)) =~= kept_params(ps));
}

/// Two URLs with the same address and the same kept query parameters, in whatever order
/// and among whatever tracking parameters and fragments, have the same canonical form, and
/// so share one cache entry.
pub proof fn canonical_ignores_order_and_tracking(u: Seq<char>, v: Seq<char>)
    requires
        split_once_seq(without_fragment(u), '?') is Some,
        split_once_seq(without_fragment(v), '?') is Some,
        split_once_seq(without_fragment(u), '?').unwrap().0 == split_once_seq(without_fragment(v), '?').unwrap().0,
        kept_params(split_seq(split_once_seq(without_fragment(u), '?').unwrap().1, '&')).to_multiset()
            == kept_params(split_seq(split_once_seq(without_fragment(v), '?').unwrap().1, '&')).to_multiset(),
    ensures
        canonical_text(u) == canonical_text(v),
{
    broadcast use vstd::seq_lib::group_to_multiset_ensures;

    let ku = kept_params(split_seq(split_once_seq(without_fragment(u), '?').unwrap().1, '&'));
    let kv = kept_params(split_seq(split_once_seq(without_fragment(v), '?').unwrap().1, '&'));
    sorted_params_ignore_order(ku, kv);
    assert(ku.len() == ku.to_multiset().len());
    assert(kv.len() == kv.to_multiset().len());
}

/// `c` does not occur in `s`.
pub open spec fn free_of(s: Seq<char>, c: char) -> bool {
    forall|i: int| 0 <= i < s.len() ==> s[i] != c
}

proof fn lemma_find_first(x: Seq<char>, c: char, y: Seq<char>)
    requires
        free_of(x, c),
    ensures
        find_seq(x + seq![c] + y, seq![c]) == Some(x.len() as int),
{
    let s = x + seq![c] + y;
    assert(s.subrange(x.len() as int, x.len() + 1int) =~= seq![c]);
    assert forall|j: int| 0 <= j < x.len() implies !match_at(s, seq![c], j) by {
        assert(s.subrange(j, j + 1)[0] == x[j]);
    }
    lemma_find_unique(s, seq![c], x.len() as int);
}

proof fn lemma_find_none(s: Seq<char>, c: char)
    requires
        free_of(s, c),
    ensures
        find_seq(s, seq![c]) is None,
{
    reveal(find_seq);
    assert forall|i: int| !match_at(s, seq![c], i) by {
        if match_at(s, seq![c], i) {
            assert(s.subrange(i, i + 1)[0] == s[i]);
        }
    }
}

proof fn lemma_split_once_at(x: Seq<char>, c: char, y: Seq<char>)
    requires
        free_of(x, c),
    ensures
        split_once_seq(x + seq![c] + y, c) == Some((x, y)),
{
    lemma_find_first(x, c, y);
    let s = x + seq![c] + y;
    assert(s.take(x.len() as int) =~= x);
    assert(s.skip(x.len() + 1int) =~= y);
}

proof fn lemma_join_front(ps: Seq<Seq<char>>)
    requires
        ps.len() >= 2,
    ensures
        join_params(ps) == ps[0] + "&"@ + join_params(ps.drop_first()),
    decreases ps.len(),
{
    let dl = ps.drop_last();
    if ps.len() == 2 {
        assert(dl.len() == 1);
        assert(join_params(dl) == ps[0]);
        assert(ps.drop_first().len() == 1);
        assert(join_params(ps.drop_first()) == ps[1]);
    } else {
        lemma_join_front(dl);
        assert(dl.drop_first() =~= ps.drop_first().drop_last());
        assert(ps.drop_first().last() == ps.last());
        assert(join_params(ps.drop_first()) == join_params(dl.drop_first()) + "&"@ + ps.last());
        assert(join_params(ps) =~= ps[0] + "&"@ + join_params(ps.drop_first()));
    }
}

proof fn lemma_join_last(ps: Seq<Seq<char>>)
    requires
        ps.len() >= 1,
        ps.last().len() > 0,
    ensures
        join_params(ps).len() > 0,
        join_params(ps).last() == ps.last().last(),
{
    if ps.len() >= 2 {
        assert(join_params(ps) == join_params(ps.drop_last()) + "&"@ + ps.last());
    }
}

proof fn lemma_join_free(ps: Seq<Seq<char>>, c: char)
    requires
        c != '&',
        forall|k: int| 0 <= k < ps.len() ==> free_of(#[trigger] ps[k], c),
    ensures
        free_of(join_params(ps), c),
    decreases ps.len(),
{
    reveal_strlit("&");
    if ps.len() >= 2 {
        lemma_join_free(ps.drop_last(), c);
        let j = join_params(ps);
        let a = join_params(ps.drop_last());
        let l = ps.last();
        assert(free_of(l, c));
        assert(j == a + "&"@ + l);
        assert forall|i: int| 0 <= i < j.len() implies j[i] != c by {
            if i < a.len() {
                assert(j[i] == a[i]);
            } else if i == a.len() {
                assert(j[i] == '&');
            } else {
                assert(j[i] == l[i - a.len() - 1]);
            }
        }
    } else if ps.len() == 1 {
        assert(free_of(ps[0], c));
    }
}

/// Splitting parameters joined with `&` at `&` gives them back.
proof fn lemma_split_join(ps: Seq<Seq<char>>)
    requires
        ps.len() >= 1,
        forall|k: int| 0 <= k < ps.len() ==> free_of(#[trigger] ps[k], '&'),
    ensures
        split_seq(join_params(ps), '&') == ps,
    decreases ps.len(),
{
    reveal_strlit("&");
    assert("&"@ =~= seq!['&']);
    if ps.len() == 1 {
        assert(free_of(ps[0], '&'));
        lemma_find_none(ps[0], '&');
        assert(split_seq(ps[0], '&') == seq![ps[0]]);
        assert(seq![ps[0]] =~= ps);
    } else {
        lemma_join_front(ps);
        let rest = join_params(ps.drop_first());
        let x = ps[0];
        assert(free_of(x, '&'));
        let s = x + seq!['&'] + rest;
        assert(join_params(ps) == s);
        lemma_find_first(x, '&', rest);
        assert(s.take(x.len() as int) =~= x);
        assert(s.skip(x.len() + 1int) =~= rest);
        assert forall|k: int| 0 <= k < ps.drop_first().len() implies free_of(#[trigger] ps.drop_first()[k], '&') by {
            assert(ps.drop_first()[k] == ps[k + 1]);
        }
        lemma_split_join(ps.drop_first());
        assert(split_seq(s, '&') == seq![x] + split_seq(rest, '&'));
        assert(seq![x] + ps.drop_first() =~= ps);
    }
}

proof fn lemma_trim_end_keeps(s: Seq<char>, p: int)
    requires
        0 <= p < s.len(),
        !is_ws(s[p]),
    ensures
        exists|m: int| p < m <= s.len() && trim_end_ws(s) == s.take(m),
    decreases s.len(),
{
    if is_ws(s.last()) {
        lemma_trim_end_keeps(s.drop_last(), p);
        let m = choose|m: int| p < m <= s.drop_last().len() && trim_end_ws(s.drop_last()) == s.drop_last().take(m);
        assert(s.drop_last().take(m) =~= s.take(m));
    } else {
        assert(s.take(s.len() as int) =~= s);
    }
}

proof fn lemma_kept_of_kept(ps: Seq<Seq<char>>)
    requires
        forall|k: int| 0 <= k < ps.len() ==> kept_param(#[trigger] ps[k]),
    ensures
        kept_params(ps) == ps,
    decreases ps.len(),
{
    if ps.len() > 0 {
        lemma_kept_of_kept(ps.drop_last());
        assert(kept_params(ps) =~= ps);
    }
}

proof fn lemma_kept_drops_tracking(ps: Seq<Seq<char>>, ts: Seq<Seq<char>>)
    requires
        forall|k: int| 0 <= k < ts.len() ==> !kept_param(#[trigger] ts[k]),
    ensures
        kept_params(ps + ts) == kept_params(ps),
    decreases ts.len(),
{
    if ts.len() > 0 {
        assert((ps + ts).drop_last() =~= ps + ts.drop_last());
        assert((ps + ts).last() == ts.last());
        lemma_kept_drops_tracking(ps, ts.drop_last());
        assert(kept_params(ps + ts) =~= kept_params(ps + ts.drop_last()));
    } else {
        assert(ps + ts =~= ps);
    }
}

proof fn lemma_kept_count(s: Seq<Seq<char>>, x: Seq<char>)
    ensures
        kept_params(s).to_multiset().count(x) == if kept_param(x) {
            s.to_multiset().count(x)
        } else {
            0
        },
    decreases s.len(),
{
    broadcast use vstd::seq_lib::group_to_multiset_ensures;
    broadcast use vstd::multiset::group_multiset_axioms;

    if s.len() == 0 {
        assert(kept_params(s) =~= Seq::<Seq<char>>::empty());
    } else {
        let dl = s.drop_last();
        lemma_kept_count(dl, x);
        assert(dl.push(s.last()) =~= s);
        if kept_param(s.last()) {
            assert(kept_params(s) =~= kept_params(dl).push(s.last()));
        } else {
            assert(kept_params(s) =~= kept_params(dl));
        }
    }
}

/// The text `b?q#f` without surrounding whitespace and fragment is `b?q`.
proof fn lemma_fragment_dropped(b: Seq<char>, q: Seq<char>, f: Seq<char>)
    requires
        b.len() > 0,
        !is_ws(b[0]),
        free_of(b, '#'),
        free_of(q, '#'),
    ensures
        without_fragment(b + "?"@ + q + "#"@ + f) == b + "?"@ + q,
{
    reveal_strlit("?");
    reveal_strlit("#");
    let head = b + "?"@ + q;
    let u = head + "#"@ + f;
    assert(u[0] == b[0]);
    assert(trim_start_ws(u) == u);
    assert(u[head.len() as int] == '#');
    lemma_trim_end_keeps(u, head.len() as int);
    let m = choose|m: int| head.len() < m <= u.len() && trim_end_ws(u) == u.take(m);
    let t = u.take(m);
    assert(free_of(head, '#')) by {
        assert forall|i: int| 0 <= i < head.len() implies head[i] != '#' by {
            if i < b.len() {
                assert(head[i] == b[i]);
            } else if i > b.len() {
                assert(head[i] == q[i - b.len() - 1]);
            }
        }
    }
    assert(t =~= head + seq!['#'] + u.take(m).skip(head.len() + 1int));
    lemma_split_once_at(head, '#', u.take(m).skip(head.len() + 1int));
}

/// A text without whitespace at either end and without `#` is its own address part.
proof fn lemma_plain_kept(w: Seq<char>)
    requires
        w.len() > 0,
        !is_ws(w[0]),
        !is_ws(w.last()),
        free_of(w, '#'),
    ensures
        without_fragment(w) == w,
{
    assert(trim_start_ws(w) == w);
    assert(trim_end_ws(w) == w);
    lemma_find_none(w, '#');
}

/// `b?q` splits at its `?` into `b` and `q`.
proof fn lemma_query_split(b: Seq<char>, q: Seq<char>)
    requires
        free_of(b, '?'),
    ensures
        split_once_seq(b + "?"@ + q, '?') == Some((b, q)),
{
    reveal_strlit("?");
    assert(b + "?"@ + q =~= b + seq!['?'] + q);
    lemma_split_once_at(b, '?', q);
}

/// A query parameter as it can be written between `&`s: not empty, without `&` or `#`,
/// and not ending in whitespace (which trimming a URL would take off).
pub open spec fn param_part(s: Seq<char>) -> bool {
    s.len() > 0 && free_of(s, '&') && free_of(s, '#') && !is_ws(s.last())
}

/// Written out as URLs: an address `b` (without `?`, `#` or surrounding whitespace)
/// followed by kept parameters `ps` and tracking parameters `ts` in any order `q` and any
/// fragment `f` has the canonical form (and so the cache key) of `b` followed by `ps`
/// alone; and `b` followed by tracking parameters only has that of `b`. Parameters may hold
/// `?` and spaces; one that ends in whitespace is left out, since trimming the URL would
/// change it.
pub proof fn joined_urls_share_a_key(
    b: Seq<char>,
    ps: Seq<Seq<char>>,
    ts: Seq<Seq<char>>,
    q: Seq<Seq<char>>,
    f: Seq<char>,
)
    requires
        b.len() > 0,
        !is_ws(b[0]),
        !is_ws(b.last()),
        free_of(b, '?'),
        free_of(b, '#'),
        ps.len() > 0,
        forall|k: int| 0 <= k < ps.len() ==> param_part(#[trigger] ps[k]) && kept_param(ps[k]),
        forall|k: int| 0 <= k < ts.len() ==> param_part(#[trigger] ts[k]) && tracking_key(param_key(ts[k])),
        q.to_multiset() == (ps + ts).to_multiset(),
    ensures
        canonical_text(b + "?"@ + join_params(q) + "#"@ + f) == canonical_text(b + "?"@ + join_params(ps)),
        canonical_text(b + "?"@ + join_params(ts)) == canonical_text(b),
{
    broadcast use vstd::seq_lib::group_to_multiset_ensures;

    reveal_strlit("?");
    // Every parameter of q is one of ps or ts.
    assert forall|k: int| 0 <= k < q.len() implies param_part(#[trigger] q[k]) by {
        assert(q.to_multiset().count(q[k]) > 0);
        assert((ps + ts).contains(q[k]));
        let j = choose|j: int| 0 <= j < (ps + ts).len() && (ps + ts)[j] == q[k];
        if j < ps.len() {
            assert((ps + ts)[j] == ps[j]);
        } else {
            assert((ps + ts)[j] == ts[j - ps.len()]);
        }
    }
    assert forall|k: int| 0 <= k < q.len() implies free_of(#[trigger] q[k], '&') && free_of(q[k], '#') by {
        assert(param_part(q[k]));
    }
    assert forall|k: int| 0 <= k < ps.len() implies free_of(#[trigger] ps[k], '&') && free_of(ps[k], '#') by {
        assert(param_part(ps[k]));
    }
    assert forall|k: int| 0 <= k < ts.len() implies free_of(#[trigger] ts[k], '&') && free_of(ts[k], '#') && !kept_param(
        ts[k],
    ) by {
        assert(param_part(ts[k]));
    }
    // The URL with a fragment.
    let jq = join_params(q);
    lemma_join_free(q, '#');
    lemma_fragment_dropped(b, jq, f);
    let u = b + "?"@ + jq + "#"@ + f;
    lemma_query_split(b, jq);
    // The URL with the kept parameters only.
    let jp = join_params(ps);
    let v = b + "?"@ + jp;
    lemma_join_free(ps, '#');
    lemma_join_last(ps);
    assert(param_part(ps.last()));
    assert(v.last() == jp.last());
    assert(free_of(v, '#')) by {
        assert forall|i: int| 0 <= i < v.len() implies v[i] != '#' by {
            if i < b.len() {
                assert(v[i] == b[i]);
            } else if i > b.len() {
                assert(v[i] == jp[i - b.len() - 1]);
            }
        }
    }
    assert(v[0] == b[0]);
    lemma_plain_kept(v);
    lemma_query_split(b, jp);
    lemma_split_join(ps);
    // The kept parameters agree as multisets.
    let kq = kept_params(split_seq(jq, '&'));
    if q.len() > 0 {
        lemma_split_join(q);
    } else {
        assert(jq == Seq::<char>::empty());
        lemma_find_none(jq, '&');
        assert(split_seq(jq, '&') == seq![jq]);
        assert(seq![jq].drop_last() =~= Seq::<Seq<char>>::empty());
        assert(!kept_param(seq![jq].last()));
        assert(kept_params(seq![jq].drop_last()) =~= Seq::<Seq<char>>::empty());
        assert(kept_params(seq![jq]) == kept_params(seq![jq].drop_last()) + Seq::<Seq<char>>::empty());
        assert(kept_params(seq![jq]) =~= Seq::<Seq<char>>::empty());
        assert(q =~= Seq::<Seq<char>>::empty());
    }
    lemma_kept_of_kept(ps);
    lemma_kept_drops_tracking(ps, ts);
    assert forall|x: Seq<char>| #[trigger] kq.to_multiset().count(x) == kept_params(ps).to_multiset().count(x) by {
        lemma_kept_count(q, x);
        lemma_kept_count(ps + ts, x);
        if q.len() == 0 {
            assert(kq =~= kept_params(q));
        }
    }
    assert(kq.to_multiset() =~= kept_params(ps).to_multiset());
    canonical_ignores_order_and_tracking(u, v);
    // Tracking parameters only.
    let jt = join_params(ts);
    let w = b + "?"@ + jt;
    lemma_join_free(ts, '#');
    assert(free_of(w, '#')) by {
        assert forall|i: int| 0 <= i < w.len() implies w[i] != '#' by {
            if i < b.len() {
                assert(w[i] == b[i]);
            } else if i > b.len() {
                assert(w[i] == jt[i - b.len() - 1]);
            }
        }
    }
    if ts.len() > 0 {
        assert(param_part(ts.last()));
        assert(ts.last().len() > 0);
        lemma_join_last(ts);
        assert(w.last() == jt.last());
        lemma_split_join(ts);
    } else {
        assert(jt == Seq::<char>::empty());
        assert(w.last() == '?');
        lemma_find_none(jt, '&');
        assert(split_seq(jt, '&') == seq![jt]);
        assert(seq![jt].drop_last() =~= Seq::<Seq<char>>::empty());
        assert(!kept_param(seq![jt].last()));
        assert(kept_params(seq![jt].drop_last()) =~= Seq::<Seq<char>>::empty());
        assert(kept_params(seq![jt]) == kept_params(seq![jt].drop_last()) + Seq::<Seq<char>>::empty());
        assert(kept_params(seq![jt]) =~= Seq::<Seq<char>>::empty());
    }
    assert(w[0] == b[0]);
    lemma_plain_kept(w);
    lemma_query_split(b, jt);
    lemma_kept_drops_tracking(Seq::<Seq<char>>::empty(), ts);
    assert(Seq::<Seq<char>>::empty() + ts =~= ts);
    assert(kept_params(Seq::<Seq<char>>::empty()) =~= Seq::<Seq<char>>::empty());
    // The bare address.
    assert(free_of(b, '#'));
    assert(b.last() == b[b.len() - 1]);
    lemma_plain_kept(b);
    lemma_find_none(b, '?');
}

/// `16^k`.
pub open spec fn pow16(k: nat) -> nat
    decreases k,
{
    if k == 0 {
        1
    } else {
        16 * pow16((k - 1) as nat)
    }
}

proof fn lemma_hexadecimal_len(n: nat, k: nat)
    requires
        n < pow16(k),
        k >= 1,
    ensures
        hexadecimal(n).len() <= k,
    decreases k,
{
    if n >= 16 {
        assert(k > 1) by {
            if k == 1 {
                assert(pow16(1) == 16 * pow16(0));
            }
        }
        let p = pow16((k - 1) as nat);
        assert(n / 16 < p) by (nonlinear_arith)
            requires
                n < 16 * p,
        ;
        lemma_hexadecimal_len(n / 16, (k - 1) as nat);
    }
}

/// A cache entry stored at `now` with lifetime `ttl` is fresh for exactly `ttl` seconds
/// when its expiry fits in 64 bits; an entry with no lifetime is stale at once.
pub proof fn entry_lives_for_its_ttl(now: u64, ttl: u64, later: u64)
    requires
        now <= later,
    ensures
        now + ttl <= u64::MAX ==> ((later < expiry(now, ttl)) <==> (later - now < ttl)),
        ttl == 0 ==> !(later < expiry(now, ttl)),
{
}

/// A lowercase hexadecimal digit.
pub open spec fn lower_hex_digit(c: char) -> bool {
    ('0' <= c <= '9') || ('a' <= c <= 'f')
}

proof fn lemma_hexadecimal_digits(n: nat)
    ensures
        forall|i: int| 0 <= i < hexadecimal(n).len() ==> lower_hex_digit(#[trigger] hexadecimal(n)[i]),
    decreases n,
{
    let d = (n % 16) as int;
    assert(digit_char(d) as int == if d < 10 { 48 + d } else { 87 + d });
    if n >= 16 {
        lemma_hexadecimal_digits(n / 16);
        let h = hexadecimal(n);
        assert forall|i: int| 0 <= i < h.len() implies lower_hex_digit(#[trigger] h[i]) by {
            if i < h.len() - 1 {
                assert(h[i] == hexadecimal(n / 16)[i]);
            }
        }
    }
}

/// Every cache key is exactly 16 lowercase hexadecimal digits.
pub proof fn cache_key_is_sixteen_digits(hash: u64)
    ensures
        pad_left(hexadecimal(hash as nat), 16, '0').len() == 16,
        forall|i: int|
            0 <= i < 16 ==> lower_hex_digit(#[trigger] pad_left(hexadecimal(hash as nat), 16, '0')[i]),
{
    lemma_hexadecimal_digits(hash as nat);
    assert(pow16(0) == 1);
    assert(pow16(1) == 16);
    assert(pow16(2) == 0x100);
    assert(pow16(3) == 0x1000);
    assert(pow16(4) == 0x1_0000);
    assert(pow16(5) == 0x10_0000);
    assert(pow16(6) == 0x100_0000);
    assert(pow16(7) == 0x1000_0000);
    assert(pow16(8) == 0x1_0000_0000);
    assert(pow16(9) == 0x10_0000_0000);
    assert(pow16(10) == 0x100_0000_0000);
    assert(pow16(11) == 0x1000_0000_0000);
    assert(pow16(12) == 0x1_0000_0000_0000);
    assert(pow16(13) == 0x10_0000_0000_0000);
    assert(pow16(14) == 0x100_0000_0000_0000);
    assert(pow16(15) == 0x1000_0000_0000_0000);
    assert(pow16(16) == 0x1_0000_0000_0000_0000);
    lemma_hexadecimal_len(hash as nat, 16);
    let h = hexadecimal(hash as nat);
    let k = pad_left(h, 16, '0');
    assert forall|i: int| 0 <= i < 16 implies lower_hex_digit(#[trigger] k[i]) by {
        if h.len() < 16 {
            let fill = Seq::new((16 - h.len()) as nat, |j: int| '0');
            assert(k == fill + h);
            if i >= fill.len() {
                assert(k[i] == h[i - fill.len()]);
            }
        }
    }
}

} // verus!
