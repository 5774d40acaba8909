//! The media providers and the registry that routes a URL to the first provider that
//! claims it.

use vstd::prelude::*;
use crate::text::{chars_of, contains_seq, contains_str, lowercase, to_lowercase};
use crate::tiktok::{tiktok_lowered, TikTokFallback};

verus! {

/// The TikTok provider: the TikWM engine, with yt-dlp impersonation as fallback.
#[derive(Debug, Clone, Copy)]
pub struct TikTokProvider;

/// The YouTube and YouTube Music provider.
#[derive(Debug, Clone, Copy)]
pub struct YouTubeProvider;

/// The provider of every other site, through yt-dlp.
#[derive(Debug, Clone, Copy)]
pub struct GenericProvider;

/// A URL that YouTube serves.
pub open spec fn youtube_lowered(lower: Seq<char>) -> bool {
    contains_seq(lower, "youtube.com"@) || contains_seq(lower, "youtu.be"@)
}

/// `desired`, at least one.
pub open spec fn at_least_one(desired: usize) -> usize {
    if desired < 1 { 1 } else { desired }
}

impl TikTokProvider {
    /// The provider's name.
    pub fn name(&self) -> (s: &'static str)
        ensures
            s@ == "TikTok"@,
    {
        "TikTok"
    }

    /// Whether the provider handles `url`: TikTok URLs.
    pub fn detect(&self, url: &str) -> (r: bool)
        ensures
            r == tiktok_lowered(lowercase(url@)),
    {
        TikTokFallback::is_tiktok_url(url)
    }

    /// The workers allowed when `desired` are asked for: between one and two.
    pub fn max_safe_concurrency(&self, desired: usize) -> (r: usize)
        ensures
            r == if desired < 1 { 1 } else if desired > 2 { 2 } else { desired },
    {
        if desired < 1 {
            1
        } else if desired > 2 {
            2
        } else {
            desired
        }
    }
}

impl YouTubeProvider {
    /// The provider's name.
    pub fn name(&self) -> (s: &'static str)
        ensures
            s@ == "YouTube"@,
    {
        "YouTube"
    }

    /// Whether the provider handles `url`: `youtube.com` and `youtu.be` URLs, in any case.
    pub fn detect(&self, url: &str) -> (r: bool)
        ensures
            r == youtube_lowered(lowercase(url@)),
    {
        let lower = to_lowercase(url);
        let l = chars_of(lower.as_str());
        contains_str(&l, "youtube.com") || contains_str(&l, "youtu.be")
    }

    /// The workers allowed when `desired` are asked for: at least one.
    pub fn max_safe_concurrency(&self, desired: usize) -> (r: usize)
        ensures
            r == at_least_one(desired),
    {
        if desired < 1 { 1 } else { desired }
    }
}

impl GenericProvider {
    /// The provider's name.
    pub fn name(&self) -> (s: &'static str)
        ensures
            s@ == "Generic"@,
    {
        "Generic"
    }

    /// Whether the provider handles `url`: it handles every URL.
    pub fn detect(&self, url: &str) -> (r: bool)
        ensures
            r,
    {
        true
    }

    /// The workers allowed when `desired` are asked for: at least one.
    pub fn max_safe_concurrency(&self, desired: usize) -> (r: usize)
        ensures
            r == at_least_one(desired),
    {
        if desired < 1 { 1 } else { desired }
    }
}

/// One of the registered providers.
#[derive(Debug, Clone, Copy, PartialEq, Eq, Structural)]
pub enum ProviderKind {
    TikTok,
    YouTube,
    Generic,
}

/// The name of a provider.
pub open spec fn provider_name(p: ProviderKind) -> Seq<char> {
    match p {
        ProviderKind::TikTok => "TikTok"@,
        ProviderKind::YouTube => "YouTube"@,
        ProviderKind::Generic => "Generic"@,
    }
}

/// Whether provider `p` handles a URL whose lowercase mapping is `lower`.
pub open spec fn provider_detects(p: ProviderKind, lower: Seq<char>) -> bool {
    match p {
        ProviderKind::TikTok => tiktok_lowered(lower),
        ProviderKind::YouTube => youtube_lowered(lower),
        ProviderKind::Generic => true,
    }
}

/// The workers provider `p` allows when `desired` are asked for.
pub open spec fn provider_concurrency(p: ProviderKind, desired: usize) -> usize {
    match p {
        ProviderKind::TikTok => if desired < 1 { 1 } else if desired > 2 { 2 } else { desired },
        _ => at_least_one(desired),
    }
}

/// The first provider of `ps` that handles the URL, else the last one.
pub open spec fn first_detecting(ps: Seq<ProviderKind>, lower: Seq<char>) -> ProviderKind
    recommends
        ps.len() > 0,
    decreases ps.len(),
{
    if ps.len() <= 1 {
        ps[0]
    } else if provider_detects(ps[0], lower) {
        ps[0]
    } else {
        first_detecting(ps.drop_first(), lower)
    }
}

impl ProviderKind {
    /// The provider's name.
    pub fn name(&self) -> (s: &'static str)
        ensures
            s@ == provider_name(*self),
    {
        match self {
            ProviderKind::TikTok => TikTokProvider.name(),
            ProviderKind::YouTube => YouTubeProvider.name(),
            ProviderKind::Generic => GenericProvider.name(),
        }
    }

    /// Whether the provider handles `url`.
    pub fn detect(&self, url: &str) -> (r: bool)
        ensures
            r == provider_detects(*self, lowercase(url@)),
    {
        match self {
            ProviderKind::TikTok => TikTokProvider.detect(url),
            ProviderKind::YouTube => YouTubeProvider.detect(url),
            ProviderKind::Generic => GenericProvider.detect(url),
        }
    }

    /// The workers the provider allows when `desired` are asked for.
    pub fn max_safe_concurrency(&self, desired: usize) -> (r: usize)
        ensures
            r == provider_concurrency(*self, desired),
    {
        match self {
            ProviderKind::TikTok => TikTokProvider.max_safe_concurrency(desired),
            ProviderKind::YouTube => YouTubeProvider.max_safe_concurrency(desired),
            ProviderKind::Generic => GenericProvider.max_safe_concurrency(desired),
        }
    }
}

/// The providers, in the order they are asked: TikTok, YouTube, then the generic one.
#[derive(Debug, Clone)]
pub struct ProviderRegistry {
    providers: Vec<ProviderKind>,
}

/// The registered providers, in order.
pub open spec fn registered() -> Seq<ProviderKind> {
    seq![ProviderKind::TikTok, ProviderKind::YouTube, ProviderKind::Generic]
}

impl ProviderRegistry {
    /// The providers of the registry, in order.
    pub closed spec fn kinds(self) -> Seq<ProviderKind> {
        self.providers@
    }

    /// The registry of the built-in providers.
    pub fn new() -> (r: Self)
        ensures
            r.kinds() == registered(),
    {
        let mut providers: Vec<ProviderKind> = Vec::new();
        providers.push(ProviderKind::TikTok);
        providers.push(ProviderKind::YouTube);
        providers.push(ProviderKind::Generic);
        assert(providers@ =~= registered());
        ProviderRegistry { providers }
    }

    /// The first provider that handles `url`, else the last registered one.
    pub fn find_provider(&self, url: &str) -> (p: ProviderKind)
        requires
            self.kinds().len() > 0,
        ensures
            p == first_detecting(self.kinds(), lowercase(url@)),
    {
        let mut i: usize = 0;
        assert(self.providers@.skip(0) =~= self.providers@);
        while i < self.providers.len() - 1
            invariant
                self.providers@.len() > 0,
                i < self.providers@.len(),
                first_detecting(self.providers@.skip(i as int), lowercase(url@)) == first_detecting(
                    self.providers@,
                    lowercase(url@),
                ),
            decreases self.providers.len() - i,
        {
            assert(self.providers@.skip(i as int)[0] == self.providers@[i as int]);
            if self.providers[i].detect(url) {
                return self.providers[i];
            }
            assert(self.providers@.skip(i as int).drop_first() =~= self.providers@.skip(i + 1));
            i = i + 1;
        }
        assert(self.providers@.skip(i as int).len() == 1);
        assert(self.providers@.skip(i as int)[0] == self.providers@[i as int]);
        self.providers[i]
    }

    /// The names of the providers, in order.
    pub fn list_providers(&self) -> (r: Vec<&'static str>)
        ensures
            r@.len() == self.kinds().len(),
            forall|i: int| 0 <= i < r@.len() ==> r@[i]@ == provider_name(#[trigger] self.kinds()[i]),
    {
        let mut out: Vec<&'static str> = Vec::new();
        let mut i: usize = 0;
        while i < self.providers.len()
            invariant
                i <= self.providers@.len(),
                out@.len() == i,
                forall|k: int| 0 <= k < i ==> out@[k]@ == provider_name(#[trigger] self.providers@[k]),
            decreases self.providers.len() - i,
        {
            out.push(self.providers[i].name());
            i = i + 1;
        }
        out
    }
}

impl Default for ProviderRegistry {
    fn default() -> (r: Self)
        ensures
            r.kinds() == registered(),
    {
        Self::new()
    }
}

} // verus!
