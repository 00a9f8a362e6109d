//! Web research: which URLs may be fetched, how a failed fetch is reported,
//! and the cache of extracted pages, each kept for five minutes. Fetching
//! and turning HTML into Markdown are the caller's part.
use vstd::prelude::*;
use crate::net::{parse_url, url_parse};
use crate::text::{concat2, concat3, decimal, decimal_string, owned, str_eq};

verus! {

/// Why a research fetch failed.
#[derive(Debug)]
pub enum WebResearchError {
    FetchError(String),
    InvalidUrl(String),
    ExtractionError(String),
    RateLimited(u64),
}

impl WebResearchError {
    pub open spec fn message_spec(&self) -> Seq<char> {
        match self {
            WebResearchError::FetchError(m) => "Failed to fetch URL: "@ + m@,
            WebResearchError::InvalidUrl(m) => "Invalid URL: "@ + m@,
            WebResearchError::ExtractionError(m) => "Content extraction failed: "@ + m@,
            WebResearchError::RateLimited(s) => "Rate limited: try again in "@ + decimal(*s as nat) + " seconds"@,
        }
    }

    /// The error as text.
    pub fn message(&self) -> (r: String)
        ensures
            r@ == self.message_spec(),
    {
        match self {
            WebResearchError::FetchError(m) => concat2("Failed to fetch URL: ", m.as_str()),
            WebResearchError::InvalidUrl(m) => concat2("Invalid URL: ", m.as_str()),
            WebResearchError::ExtractionError(m) => concat2("Content extraction failed: ", m.as_str()),
            WebResearchError::RateLimited(s) => concat3("Rate limited: try again in ", decimal_string(*s).as_str(), " seconds"),
        }
    }
}

/// Whether a URL may be researched: it must parse, with the scheme `http`
/// or `https`. The error holds the parser's message, or says which schemes
/// are supported.
pub open spec fn research_url_refusal(url: Seq<char>) -> Option<Seq<char>> {
    match url_parse(url) {
        Err(e) => Some(e),
        Ok((scheme, _)) => if scheme != "http"@ && scheme != "https"@ {
            Some("Only HTTP/HTTPS URLs are supported"@)
        } else {
            None
        },
    }
}

pub fn check_research_url(url: &str) -> (r: Result<(), WebResearchError>)
    ensures
        match research_url_refusal(url@) {
            None => r is Ok,
            Some(m) => r matches Err(WebResearchError::InvalidUrl(e)) && e@ == m,
        },
{
    match parse_url(url) {
        Err(e) => Err(WebResearchError::InvalidUrl(e)),
        Ok((scheme, _)) => {
            if !str_eq(scheme.as_str(), "http") && !str_eq(scheme.as_str(), "https") {
                Err(WebResearchError::InvalidUrl(owned("Only HTTP/HTTPS URLs are supported")))
            } else {
                Ok(())
            }
        },
    }
}

/// The error of a response whose status is not a success: its code and
/// reason phrase (`Unknown` where the code has none).
pub fn http_status_error(code: u16, reason: Option<&str>) -> (r: WebResearchError)
    ensures
        r matches WebResearchError::FetchError(m) && m@ == "HTTP "@ + decimal(code as nat) + " - "@ + match reason {
            Some(t) => t@,
            None => "Unknown"@,
        },
{
    let why = match reason {
        Some(t) => owned(t),
        None => owned("Unknown"),
    };
    let a = concat3("HTTP ", decimal_string(code as u64).as_str(), " - ");
    WebResearchError::FetchError(concat2(a.as_str(), why.as_str()))
}

// ───────────────────────────── extracted pages and the cache ─────────────────────────────

/// A page as research extracts it: its Markdown, and when it was extracted
/// (seconds since the Unix epoch).
#[derive(Debug)]
pub struct WebContent {
    pub url: String,
    pub title: String,
    pub content_markdown: String,
    pub description: Option<String>,
    pub extracted_at: i64,
    pub size_bytes: usize,
}

pub struct ContentView {
    pub url: Seq<char>,
    pub title: Seq<char>,
    pub content_markdown: Seq<char>,
    pub description: Option<Seq<char>>,
    pub extracted_at: i64,
    pub size_bytes: usize,
}

impl View for WebContent {
    type V = ContentView;

    open spec fn view(&self) -> ContentView {
        ContentView {
            url: self.url@,
            title: self.title@,
            content_markdown: self.content_markdown@,
            description: match self.description {
                Some(d) => Some(d@),
                None => None,
            },
            extracted_at: self.extracted_at,
            size_bytes: self.size_bytes,
        }
    }
}

impl WebContent {
    pub fn copy(&self) -> (r: Self)
        ensures
            r@ == self@,
    {
        WebContent {
            url: self.url.clone(),
            title: self.title.clone(),
            content_markdown: self.content_markdown.clone(),
            description: match &self.description {
                Some(d) => Some(d.clone()),
                None => None,
            },
            extracted_at: self.extracted_at,
            size_bytes: self.size_bytes,
        }
    }
}

/// How long an extracted page stays in the cache: five minutes.
pub const CACHE_TTL_SECONDS: i64 = 300;

/// A cached page and the time it expires.
#[derive(Debug)]
pub struct CachedContent {
    pub url: String,
    pub content: WebContent,
    pub expires_at: i64,
}

pub open spec fn cache_view(s: Seq<CachedContent>) -> Seq<(Seq<char>, ContentView, i64)> {
    s.map_values(|c: CachedContent| (c.url@, c.content@, c.expires_at))
}

/// Where the entry of `url` stands in the cache.
pub open spec fn entry_pos(s: Seq<(Seq<char>, ContentView, i64)>, url: Seq<char>) -> Option<int>
    decreases s.len(),
{
    if s.len() == 0 {
        None
    } else if s[0].0 == url {
        Some(0)
    } else {
        match entry_pos(s.drop_first(), url) {
            Some(k) => Some(k + 1),
            None => None,
        }
    }
}

/// The cache with `url` bound to `content`, expiring at `expires_at`.
pub open spec fn cache_put(s: Seq<(Seq<char>, ContentView, i64)>, url: Seq<char>, content: ContentView, expires_at: i64) -> Seq<(Seq<char>, ContentView, i64)> {
    match entry_pos(s, url) {
        Some(k) => s.update(k, (url, content, expires_at)),
        None => s.push((url, content, expires_at)),
    }
}

/// The number of entries still fresh at `now`.
pub open spec fn fresh_count(s: Seq<(Seq<char>, ContentView, i64)>, now: i64) -> nat
    decreases s.len(),
{
    if s.len() == 0 {
        0
    } else {
        fresh_count(s.drop_last(), now) + if s.last().2 > now { 1nat } else { 0nat }
    }
}

proof fn lemma_entry_pos_skip(s: Seq<(Seq<char>, ContentView, i64)>, url: Seq<char>, i: int)
    requires
        0 <= i <= s.len(),
        forall|j: int| 0 <= j < i ==> (#[trigger] s[j]).0 != url,
    ensures
        entry_pos(s, url) == match entry_pos(s.skip(i), url) {
            Some(k) => Some(k + i),
            None => None::<int>,
        },
    decreases i,
{
    if i == 0 {
        assert(s.skip(0) =~= s);
    } else {
        lemma_entry_pos_skip(s.drop_first(), url, i - 1);
        assert(s.drop_first().skip(i - 1) =~= s.skip(i));
    }
}

proof fn lemma_entry_pos_bound(s: Seq<(Seq<char>, ContentView, i64)>, url: Seq<char>)
    ensures
        match entry_pos(s, url) {
            Some(k) => 0 <= k < s.len() && s[k].0 == url,
            None => true,
        },
    decreases s.len(),
{
    if s.len() > 0 && s[0].0 != url {
        lemma_entry_pos_bound(s.drop_first(), url);
    }
}

/// What research does with a URL before fetching it.
#[derive(Debug)]
pub enum FetchStep {
    /// The cache holds a fresh copy: that is the answer.
    Cached(WebContent),
    /// The URL must be fetched.
    Fetch,
    /// The URL may not be fetched.
    Refused(WebResearchError),
}

/// Extracted pages, cached by URL.
#[derive(Debug)]
pub struct WebResearchService {
    cache: Vec<CachedContent>,
    cache_ttl_seconds: i64,
}

impl WebResearchService {
    pub closed spec fn cache_spec(&self) -> Seq<(Seq<char>, ContentView, i64)> {
        cache_view(self.cache@)
    }

    pub closed spec fn ttl_spec(&self) -> i64 {
        self.cache_ttl_seconds
    }

    pub fn new() -> (r: Self)
        ensures
            r.cache_spec().len() == 0,
            r.ttl_spec() == CACHE_TTL_SECONDS,
    {
        let r = WebResearchService { cache: Vec::new(), cache_ttl_seconds: CACHE_TTL_SECONDS };
        assert(r.cache_spec() =~= Seq::<(Seq<char>, ContentView, i64)>::empty());
        r
    }

    fn position(&self, url: &str) -> (r: Option<usize>)
        ensures
            match r {
                Some(x) => entry_pos(self.cache_spec(), url@) == Some(x as int) && x < self.cache@.len(),
                None => entry_pos(self.cache_spec(), url@) is None,
            },
    {
        let ghost cv = self.cache_spec();
        let mut i: usize = 0;
        while i < self.cache.len()
            invariant
                i <= self.cache@.len(),
                cv == self.cache_spec(),
                forall|j: int| 0 <= j < i ==> (#[trigger] cv[j]).0 != url@,
            decreases self.cache@.len() - i,
        {
            assert(cv[i as int].0 == self.cache@[i as int].url@);
            if str_eq(self.cache[i].url.as_str(), url) {
                proof {
                    lemma_entry_pos_skip(cv, url@, i as int);
                    assert(cv.skip(i as int)[0] == cv[i as int]);
                }
                return Some(i);
            }
            i = i + 1;
        }
        proof {
            lemma_entry_pos_skip(cv, url@, i as int);
            assert(cv.skip(i as int).len() == 0);
        }
        None
    }

    /// The cached page of `url` where it is still fresh at `now`; an expired
    /// entry is dropped.
    pub fn get_cached(&mut self, url: &str, now: i64) -> (r: Option<WebContent>)
        ensures
            final(self).ttl_spec() == old(self).ttl_spec(),
            match entry_pos(old(self).cache_spec(), url@) {
                None => r is None && final(self).cache_spec() == old(self).cache_spec(),
                Some(k) => if old(self).cache_spec()[k].2 > now {
                    r matches Some(c) && c@ == old(self).cache_spec()[k].1 && final(self).cache_spec() == old(self).cache_spec()
                } else {
                    r is None && final(self).cache_spec() == old(self).cache_spec().remove(k)
                },
            },
    {
        match self.position(url) {
            None => None,
            Some(k) => {
                proof {
                    lemma_entry_pos_bound(self.cache_spec(), url@);
                }
                assert(self.cache_spec()[k as int] == (self.cache@[k as int].url@, self.cache@[k as int].content@, self.cache@[k as int].expires_at));
                if self.cache[k].expires_at > now {
                    Some(self.cache[k].content.copy())
                } else {
                    let ghost before = self.cache_spec();
                    self.cache.remove(k);
                    assert(self.cache_spec() =~= before.remove(k as int));
                    None
                }
            },
        }
    }

    /// Caches `content` as the page of `url`, fresh for the cache's time to
    /// live from `now`.
    pub fn cache_content(&mut self, url: &str, content: &WebContent, now: i64)
        requires
            now <= i64::MAX - old(self).ttl_spec(),
            old(self).ttl_spec() >= 0,
        ensures
            final(self).ttl_spec() == old(self).ttl_spec(),
            final(self).cache_spec() == cache_put(old(self).cache_spec(), url@, content@, (now + old(self).ttl_spec()) as i64),
    {
        let entry = CachedContent { url: owned(url), content: content.copy(), expires_at: now + self.cache_ttl_seconds };
        let ghost ev = (url@, content@, (now + self.ttl_spec()) as i64);
        let ghost before = self.cache_spec();
        match self.position(url) {
            Some(k) => {
                self.cache.set(k, entry);
                assert(self.cache_spec() =~= before.update(k as int, ev));
            },
            None => {
                self.cache.push(entry);
                assert(self.cache_spec() =~= before.push(ev));
            },
        }
    }

    /// Empties the cache.
    pub fn clear_cache(&mut self)
        ensures
            final(self).cache_spec().len() == 0,
            final(self).ttl_spec() == old(self).ttl_spec(),
    {
        self.cache = Vec::new();
        assert(self.cache_spec() =~= Seq::<(Seq<char>, ContentView, i64)>::empty());
    }

    /// How many pages are cached, and how many of them are fresh at `now`.
    pub fn cache_stats(&self, now: i64) -> (r: (usize, usize))
        ensures
            r.0 == self.cache_spec().len(),
            r.1 == fresh_count(self.cache_spec(), now),
    {
        let ghost cv = self.cache_spec();
        let mut valid: usize = 0;
        let mut i: usize = 0;
        while i < self.cache.len()
            invariant
                i <= self.cache@.len(),
                cv == self.cache_spec(),
                valid == fresh_count(cv.take(i as int), now),
                valid <= i,
            decreases self.cache@.len() - i,
        {
            assert(cv.take(i + 1).drop_last() =~= cv.take(i as int));
            assert(cv[i as int].2 == self.cache@[i as int].expires_at);
            if self.cache[i].expires_at > now {
                valid = valid + 1;
            }
            i = i + 1;
        }
        assert(cv.take(i as int) =~= cv);
        (self.cache.len(), valid)
    }

    /// What research does first with `url` at `now`: answer from the cache,
    /// refuse the URL, or fetch it.
    pub fn begin_fetch(&mut self, url: &str, now: i64) -> (r: FetchStep)
        ensures
            final(self).ttl_spec() == old(self).ttl_spec(),
            match entry_pos(old(self).cache_spec(), url@) {
                Some(k) if old(self).cache_spec()[k].2 > now => r matches FetchStep::Cached(c) && c@ == old(self).cache_spec()[k].1,
                _ => match research_url_refusal(url@) {
                    Some(m) => r matches FetchStep::Refused(WebResearchError::InvalidUrl(e)) && e@ == m,
                    None => r is Fetch,
                },
            },
    {
        match self.get_cached(url, now) {
            Some(c) => return FetchStep::Cached(c),
            None => {},
        }
        match check_research_url(url) {
            Err(e) => FetchStep::Refused(e),
            Ok(()) => FetchStep::Fetch,
        }
    }
}

/// A page cached at `now` is answered from the cache until its time to live
/// has passed, and not after.
pub proof fn law_cached_page_is_fresh_until_expiry(
    s: Seq<(Seq<char>, ContentView, i64)>,
    url: Seq<char>,
    content: ContentView,
    now: i64,
    later: i64,
    ttl: i64,
)
    requires
        ttl >= 0,
        now <= i64::MAX - ttl,
    ensures
        match entry_pos(cache_put(s, url, content, (now + ttl) as i64), url) {
            Some(k) => {
                &&& cache_put(s, url, content, (now + ttl) as i64)[k].1 == content
                &&& (cache_put(s, url, content, (now + ttl) as i64)[k].2 > later <==> later < now + ttl)
            },
            None => false,
        },
{
    let r = cache_put(s, url, content, (now + ttl) as i64);
    lemma_entry_pos_bound(s, url);
    match entry_pos(s, url) {
        Some(k) => {
            assert forall|j: int| 0 <= j < k implies (#[trigger] r[j]).0 != url by {
                lemma_entry_pos_first(s, url, j);
            }
            lemma_entry_pos_skip(r, url, k);
            assert(r.skip(k)[0] == r[k]);
        },
        None => {
            let n = s.len() as int;
            assert forall|j: int| 0 <= j < n implies (#[trigger] r[j]).0 != url by {
                lemma_entry_pos_none(s, url, j);
            }
            lemma_entry_pos_skip(r, url, n);
            assert(r.skip(n)[0] == r[n]);
        },
    }
}

proof fn lemma_entry_pos_first(s: Seq<(Seq<char>, ContentView, i64)>, url: Seq<char>, j: int)
    requires
        entry_pos(s, url) matches Some(k) && 0 <= j < k,
    ensures
        s[j].0 != url,
    decreases s.len(),
{
    let k = entry_pos(s, url)->0;
    lemma_entry_pos_bound(s, url);
    assert(s.len() > 0);
    assert(s[0].0 != url);
    if j > 0 {
        assert(entry_pos(s.drop_first(), url) == Some(k - 1));
        lemma_entry_pos_first(s.drop_first(), url, j - 1);
        assert(s.drop_first()[j - 1] == s[j]);
    }
}

proof fn lemma_entry_pos_none(s: Seq<(Seq<char>, ContentView, i64)>, url: Seq<char>, j: int)
    requires
        entry_pos(s, url) is None,
        0 <= j < s.len(),
    ensures
        s[j].0 != url,
    decreases s.len(),
{
    assert(s[0].0 != url);
    if j > 0 {
        assert(entry_pos(s.drop_first(), url) is None);
        lemma_entry_pos_none(s.drop_first(), url, j - 1);
        assert(s.drop_first()[j - 1] == s[j]);
    }
}

} // verus!
