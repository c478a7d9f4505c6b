//! The article store with its paginated read, the decoding of stored
//! documents, and the per-source freshness cache.

use vstd::prelude::*;
use crate::article::{opt_view, text_or_empty, Article};
use crate::feed::{newest_first, sort_newest_first, sorted_newest_first};

verus! {

/// The articles of one sync generation, always newest first.
pub struct ArticleStore {
    articles: Vec<Article>,
}

/// Number of articles skipped before page `page` of size `limit`.
pub open spec fn page_offset(page: int, limit: int) -> int {
    (page - 1) * limit
}

/// The articles of page `page` (from 1) of size `limit` over `s`.
pub open spec fn page_of(s: Seq<Article>, page: int, limit: int) -> Seq<Article> {
    let skip = page_offset(page, limit);
    if skip >= s.len() {
        Seq::empty()
    } else if skip + limit >= s.len() {
        s.subrange(skip, s.len() as int)
    } else {
        s.subrange(skip, skip + limit)
    }
}

/// Number of articles skipped before page `page` (from 1) of size `limit`.
pub fn page_skip(page: u32, limit: u32) -> (r: u64)
    requires
        page >= 1,
    ensures
        r as int == page_offset(page as int, limit as int),
{
    proof {
        assert((page as u64 - 1) * (limit as u64) <= 0xffff_ffff * 0xffff_ffff) by (nonlinear_arith)
            requires
                1 <= page <= 0xffff_ffff,
                limit <= 0xffff_ffff,
        ;
    }
    (page as u64 - 1) * (limit as u64)
}

impl ArticleStore {
    pub closed spec fn view(&self) -> Seq<Article> {
        self.articles@
    }

    /// The stored articles are newest first.
    pub closed spec fn wf(&self) -> bool {
        newest_first(self.articles@)
    }

    /// An empty store.
    pub fn new() -> (r: ArticleStore)
        ensures
            r.wf(),
            r.view() == Seq::<Article>::empty(),
    {
        ArticleStore { articles: Vec::new() }
    }

    /// Number of stored articles.
    pub fn len(&self) -> (r: usize)
        ensures
            r == self.view().len(),
    {
        self.articles.len()
    }

    /// Replaces the whole content with `articles`, ordered newest first;
    /// articles with equal dates keep the order in which they were given.
    pub fn replace_all(&mut self, articles: &Vec<Article>)
        ensures
            final(self).wf(),
            sorted_newest_first(articles@, final(self).view()),
    {
        self.articles = sort_newest_first(articles);
    }

    /// Page `page` (from 1) of at most `limit` articles, newest first; empty
    /// once the offset passes the stored count.
    pub fn get(&self, page: u32, limit: u32) -> (r: Vec<Article>)
        requires
            page >= 1,
            limit >= 1,
        ensures
            r@ == page_of(self.view(), page as int, limit as int),
    {
        let skip: u64 = page_skip(page, limit);
        let n = self.articles.len();
        let mut out: Vec<Article> = Vec::new();
        if skip >= n as u64 {
            return out;
        }
        let start = skip as usize;
        let end: usize = if limit as u64 >= n as u64 - skip {
            n
        } else {
            (skip + limit as u64) as usize
        };
        let mut i: usize = start;
        while i < end
            invariant
                start <= i <= end <= n,
                n == self.articles@.len(),
                out@ == self.articles@.subrange(start as int, i as int),
            decreases end - i,
        {
            out.push(self.articles[i].duplicate());
            i = i + 1;
            assert(out@ =~= self.articles@.subrange(start as int, i as int));
        }
        out
    }
}

/// Pages hold `min(L, max(0, M - (k-1)L))` articles, none past the last page.
pub proof fn lemma_page_size(s: Seq<Article>, page: int, limit: int)
    requires
        page >= 1,
        limit >= 1,
    ensures
        page_of(s, page, limit).len() == if s.len() - page_offset(page, limit) <= 0 {
            0
        } else if s.len() - page_offset(page, limit) < limit {
            s.len() - page_offset(page, limit)
        } else {
            limit
        },
        page_offset(page, limit) >= s.len() ==> page_of(s, page, limit) == Seq::<Article>::empty(),
{
    assert(page_offset(page, limit) >= 0) by (nonlinear_arith)
        requires
            page >= 1,
            limit >= 1,
    ;
}

/// Within every page of a well-formed store, no article precedes a newer one.
pub proof fn lemma_page_order(store: &ArticleStore, page: int, limit: int)
    requires
        store.wf(),
        page >= 1,
        limit >= 1,
    ensures
        newest_first(page_of(store.view(), page, limit)),
        forall|i: int|
            0 <= i < page_of(store.view(), page, limit).len() - 1 ==> page_of(store.view(), page, limit)[i].pub_date
                >= #[trigger] page_of(store.view(), page, limit)[i + 1].pub_date,
{
    assert(page_offset(page, limit) >= 0) by (nonlinear_arith)
        requires
            page >= 1,
            limit >= 1,
    ;
}

/// How a stored document gives its publication date.
pub enum StoredDate {
    /// A native date, in milliseconds since the Unix epoch.
    Millis(i64),
    /// A legacy RFC 3339 text.
    Text(String),
    /// No date, or one of another type.
    Missing,
}

/// A stored article document as read back; any field may be absent.
pub struct StoredDocument {
    pub title: Option<String>,
    pub url: Option<String>,
    pub pub_date: StoredDate,
    pub description: Option<String>,
    pub image_url: Option<String>,
}

/// First millisecond chrono represents: -262143-01-01T00:00:00Z.
pub const MIN_CHRONO_MILLIS: i64 = -8334601228800000;

/// Last millisecond chrono represents: +262142-12-31T23:59:59.999Z.
pub const MAX_CHRONO_MILLIS: i64 = 8210266876799999;

/// chrono's `DateTime::from_timestamp_millis` gives a date for `millis`.
pub open spec fn chrono_accepts_millis(millis: i64) -> bool {
    MIN_CHRONO_MILLIS <= millis <= MAX_CHRONO_MILLIS
}

/// What chrono's `DateTime::parse_from_rfc3339` gives for `text`, as milliseconds
/// since the Unix epoch (none where the text is not an RFC 3339 date).
pub uninterp spec fn rfc3339_millis(text: Seq<char>) -> Option<i64>;

/// Relies on chrono's `DateTime::from_timestamp_millis`: it gives a date exactly
/// for the instants between `NaiveDate::MIN` (year -262143) and the end of
/// `NaiveDate::MAX` (year 262142).
#[verifier::external_body]
fn millis_in_range(millis: i64) -> (r: bool)
    ensures
        r == chrono_accepts_millis(millis),
{
    chrono::DateTime::from_timestamp_millis(millis).is_some()
}

/// Relies on chrono's `DateTime::parse_from_rfc3339` and `timestamp_millis`.
#[verifier::external_body]
fn parse_rfc3339_millis(text: &str) -> (r: Option<i64>)
    ensures
        r == rfc3339_millis(text@),
{
    chrono::DateTime::parse_from_rfc3339(text).ok().map(|d| d.timestamp_millis())
}

/// The date a stored document is read with when the clock reads `now`.
pub open spec fn stored_date(d: StoredDate, now: i64) -> i64 {
    match d {
        StoredDate::Millis(m) => if chrono_accepts_millis(m) {
            m
        } else {
            now
        },
        StoredDate::Text(s) => match rfc3339_millis(s@) {
            Some(m) => m,
            None => now,
        },
        StoredDate::Missing => now,
    }
}

fn text_of(o: &Option<String>) -> (r: String)
    ensures
        r@ == text_or_empty(*o),
{
    match o {
        Some(s) => s.clone(),
        None => String::new(),
    }
}

/// Reads a stored document as an article: absent text fields become empty,
/// an absent or invalid date becomes `now`.
pub fn decode_document(doc: &StoredDocument, now: i64) -> (a: Article)
    ensures
        a.title@ == text_or_empty(doc.title),
        a.url@ == text_or_empty(doc.url),
        a.description@ == text_or_empty(doc.description),
        a.image_url@ == text_or_empty(doc.image_url),
        a.pub_date == stored_date(doc.pub_date, now),
{
    let pub_date = match &doc.pub_date {
        StoredDate::Millis(m) => if millis_in_range(*m) {
            *m
        } else {
            now
        },
        StoredDate::Text(s) => match parse_rfc3339_millis(s.as_str()) {
            Some(m) => m,
            None => now,
        },
        StoredDate::Missing => now,
    };
    Article {
        title: text_of(&doc.title),
        url: text_of(&doc.url),
        pub_date,
        description: text_of(&doc.description),
        image_url: text_of(&doc.image_url),
    }
}

/// A cached copy of one source's articles, written at `timestamp` (seconds).
pub struct CacheEntry {
    pub source_url: String,
    pub items: Vec<Article>,
    pub timestamp: u64,
}

/// An entry written at `timestamp` is fresh at `now` within `window` seconds.
pub open spec fn fresh_at(timestamp: int, window: int, now: int) -> bool {
    now - timestamp < window
}

/// Whether `entry` is still fresh at `now` for a freshness window of `window` seconds.
pub fn is_fresh(entry: &CacheEntry, now: u64, window: u64) -> (r: bool)
    ensures
        r == fresh_at(entry.timestamp as int, window as int, now as int),
{
    if now < entry.timestamp {
        true
    } else {
        now - entry.timestamp < window
    }
}

/// An entry written at `T` with window `D` is fresh at every `T' < T + D` and
/// stale at every `T' >= T + D`.
pub proof fn lemma_freshness(t: int, d: int, t2: int)
    ensures
        t2 < t + d ==> fresh_at(t, d, t2),
        t2 >= t + d ==> !fresh_at(t, d, t2),
{
}

/// Per-source cache of articles, at most one entry per source URL.
pub struct FeedCache {
    entries: Vec<CacheEntry>,
}

impl FeedCache {
    pub closed spec fn view(&self) -> Seq<CacheEntry> {
        self.entries@
    }

    /// No two entries share a source URL.
    pub open spec fn wf(&self) -> bool {
        forall|i: int, j: int|
            0 <= i < j < self.view().len() ==> self.view()[i].source_url@
                != self.view()[j].source_url@
    }

    /// The entry for `url`, if one is cached.
    pub open spec fn entry_for(&self, url: Seq<char>) -> Option<CacheEntry> {
        if exists|i: int| 0 <= i < self.view().len() && self.view()[i].source_url@ == url {
            let i = choose|i: int| 0 <= i < self.view().len() && self.view()[i].source_url@ == url;
            Some(self.view()[i])
        } else {
            None
        }
    }

    /// An empty cache.
    pub fn new() -> (r: FeedCache)
        ensures
            r.wf(),
            r.view() == Seq::<CacheEntry>::empty(),
    {
        FeedCache { entries: Vec::new() }
    }

    proof fn lemma_entry_at(&self, i: int)
        requires
            self.wf(),
            0 <= i < self.view().len(),
        ensures
            self.entry_for(self.view()[i].source_url@) == Some(self.view()[i]),
    {
        let u = self.view()[i].source_url@;
        assert(exists|k: int| 0 <= k < self.view().len() && self.view()[k].source_url@ == u);
        let j = choose|j: int| 0 <= j < self.view().len() && self.view()[j].source_url@ == u;
        if j < i {
        } else if i < j {
        }
        assert(j == i);
    }

    fn find(&self, url: &String) -> (r: Option<usize>)
        requires
            self.wf(),
        ensures
            r.is_some() ==> r.unwrap() < self.view().len() && self.view()[r.unwrap() as int].source_url@ == url@,
            r.is_none() ==> forall|i: int| 0 <= i < self.view().len() ==> self.view()[i].source_url@ != url@,
    {
        let mut i: usize = 0;
        while i < self.entries.len()
            invariant
                i <= self.entries@.len(),
                forall|k: int| 0 <= k < i ==> self.entries@[k].source_url@ != url@,
            decreases self.entries@.len() - i,
        {
            if self.entries[i].source_url == *url {
                return Some(i);
            }
            i = i + 1;
        }
        None
    }

    /// The cached articles of `url` when its entry is fresh at `now`; none when
    /// there is no entry or it is stale.
    pub fn get_if_fresh(&self, url: &String, now: u64, window: u64) -> (r: Option<Vec<Article>>)
        requires
            self.wf(),
        ensures
            match self.entry_for(url@) {
                Some(e) => if fresh_at(e.timestamp as int, window as int, now as int) {
                    r.is_some() && r.unwrap()@ == e.items@
                } else {
                    r.is_none()
                },
                None => r.is_none(),
            },
    {
        match self.find(url) {
            Some(i) => {
                proof {
                    let j = choose|j: int| 0 <= j < self.view().len() && self.view()[j].source_url@ == url@;
                    assert(j == i as int);
                }
                let e = &self.entries[i];
                if is_fresh(e, now, window) {
                    let mut out: Vec<Article> = Vec::new();
                    let mut k: usize = 0;
                    while k < e.items.len()
                        invariant
                            k <= e.items@.len(),
                            out@ == e.items@.subrange(0, k as int),
                        decreases e.items@.len() - k,
                    {
                        out.push(e.items[k].duplicate());
                        k = k + 1;
                        assert(out@ =~= e.items@.subrange(0, k as int));
                    }
                    assert(out@ =~= e.items@);
                    Some(out)
                } else {
                    None
                }
            },
            None => None,
        }
    }

    /// Stores `entry`, superseding the entry of the same source if any.
    pub fn put(&mut self, entry: CacheEntry)
        requires
            old(self).wf(),
        ensures
            final(self).wf(),
            final(self).entry_for(entry.source_url@) == Some(entry),
            forall|u: Seq<char>| u != entry.source_url@ ==> final(self).entry_for(u) == old(self).entry_for(u),
    {
        let ghost url = entry.source_url@;
        let ghost e = entry;
        let ghost before = *self;
        let pos: usize;
        match self.find(&entry.source_url) {
            Some(i) => {
                self.entries.set(i, entry);
                pos = i;
            },
            None => {
                pos = self.entries.len();
                self.entries.push(entry);
            },
        }
        proof {
            assert(self.view()[pos as int] == e);
            assert forall|k: int| 0 <= k < self.view().len() && k != pos implies self.view()[k]
                == before.view()[k] && #[trigger] self.view()[k].source_url@ != url by {}
            assert(self.wf());
            self.lemma_entry_at(pos as int);
            assert forall|u: Seq<char>| u != url implies self.entry_for(u) == before.entry_for(u) by {
                if exists|k: int| 0 <= k < before.view().len() && before.view()[k].source_url@ == u {
                    let k = choose|k: int| 0 <= k < before.view().len() && before.view()[k].source_url@ == u;
                    before.lemma_entry_at(k);
                    assert(self.view()[k] == before.view()[k]);
                    self.lemma_entry_at(k);
                } else {
                    assert forall|k: int| 0 <= k < self.view().len() implies self.view()[k].source_url@ != u by {
                        if k != pos {
                            assert(self.view()[k] == before.view()[k]);
                        }
                    }
                }
            }
        }
    }
}

} // verus!
