//! Decoding RSS documents, merging the articles of all sources, and ordering
//! them newest first.

use vstd::prelude::*;
use crate::article::{build_article, is_article_of, opt_view, Article, MediaEnclosure, ParsedItem};

verus! {

#[verifier::external_type_specification]
#[verifier::external_body]
pub struct ExRssItem(::rss::Item);

/// Whether rss's `Channel::read_from` accepts `bytes` as an RSS document.
pub uninterp spec fn rss_accepts(bytes: Seq<u8>) -> bool;

/// How many items rss's `Channel::items` holds for the document `bytes`.
pub uninterp spec fn rss_item_count(bytes: Seq<u8>) -> nat;

/// What rss's `Item::title` gives for item `i` of the document `bytes`.
pub uninterp spec fn rss_item_title(bytes: Seq<u8>, i: int) -> Option<Seq<char>>;

/// What rss's `Item::link` gives for item `i` of the document `bytes`.
pub uninterp spec fn rss_item_link(bytes: Seq<u8>, i: int) -> Option<Seq<char>>;

/// What rss's `Item::description` gives for item `i` of the document `bytes`.
pub uninterp spec fn rss_item_description(bytes: Seq<u8>, i: int) -> Option<Seq<char>>;

/// What rss's `Item::pub_date` gives for item `i` of the document `bytes`.
pub uninterp spec fn rss_item_pub_date(bytes: Seq<u8>, i: int) -> Option<Seq<char>>;

/// URL and mime type of the enclosure that rss's `Item::enclosure` gives for
/// item `i` of the document `bytes`.
pub uninterp spec fn rss_item_enclosure(bytes: Seq<u8>, i: int) -> Option<(Seq<char>, Seq<char>)>;

/// The `url` attribute of each `media:<kind>` extension entry of item `i` of
/// the document `bytes`, as rss's `Item::extensions` and `Extension::attrs` give them.
pub uninterp spec fn rss_item_media(bytes: Seq<u8>, i: int, kind: Seq<char>) -> Seq<Option<Seq<char>>>;

/// URL and mime type of an optional enclosure.
pub open spec fn enclosure_view(o: Option<MediaEnclosure>) -> Option<(Seq<char>, Seq<char>)> {
    match o {
        Some(e) => Some((e.url@, e.mime_type@)),
        None => None,
    }
}

/// The texts of a list of optional strings.
pub open spec fn media_view(s: Seq<Option<String>>) -> Seq<Option<Seq<char>>> {
    s.map_values(|o: Option<String>| opt_view(o))
}

/// Relies on rss's `Item` accessors (`title`, `link`, `description`, `pub_date`,
/// `enclosure`) and `Item::extensions`: converts one item, field by field.
#[verifier::external_body]
fn item_from_rss(item: &::rss::Item) -> ParsedItem {
    ParsedItem {
        title: item.title().map(String::from),
        link: item.link().map(String::from),
        description: item.description().map(String::from),
        pub_date: item.pub_date().map(String::from),
        enclosure: item.enclosure().map(|e| MediaEnclosure { url: e.url().to_string(), mime_type: e.mime_type().to_string() }),
        media_content: media_urls(item, "content"),
        media_thumbnail: media_urls(item, "thumbnail"),
    }
}

/// Relies on rss's `Item::extensions` and `Extension::attrs`: the `url` attribute
/// of each `media:<kind>` extension entry, in document order.
#[verifier::external_body]
fn media_urls(item: &::rss::Item, kind: &str) -> Vec<Option<String>> {
    match item.extensions().get("media").and_then(|m| m.get(kind)) {
        Some(entries) => entries.iter().map(|e| e.attrs().get("url").cloned()).collect(),
        None => Vec::new(),
    }
}

/// Relies on rss's `Channel::read_from` and `Channel::items`: the decode of a
/// document depends on its bytes alone; its items come in document order.
#[verifier::external_body]
fn read_items(bytes: &[u8]) -> (r: Option<Vec<ParsedItem>>)
    ensures
        r is Some == rss_accepts(bytes@),
        r matches Some(v) ==> v@.len() == rss_item_count(bytes@),
        r matches Some(v) ==> forall|i: int|
            0 <= i < v@.len() ==> {
                &&& opt_view(#[trigger] v@[i].title) == rss_item_title(bytes@, i)
                &&& opt_view(v@[i].link) == rss_item_link(bytes@, i)
                &&& opt_view(v@[i].description) == rss_item_description(bytes@, i)
                &&& opt_view(v@[i].pub_date) == rss_item_pub_date(bytes@, i)
                &&& enclosure_view(v@[i].enclosure) == rss_item_enclosure(bytes@, i)
                &&& media_view(v@[i].media_content@) == rss_item_media(bytes@, i, "content"@)
                &&& media_view(v@[i].media_thumbnail@) == rss_item_media(bytes@, i, "thumbnail"@)
            },
{
    let channel = ::rss::Channel::read_from(bytes).ok()?;
    Some(channel.items().iter().map(item_from_rss).collect())
}

/// `item` is item `i` of the document `bytes`, as rss decodes it.
pub open spec fn decoded_item(item: ParsedItem, bytes: Seq<u8>, i: int) -> bool {
    &&& opt_view(item.title) == rss_item_title(bytes, i)
    &&& opt_view(item.link) == rss_item_link(bytes, i)
    &&& opt_view(item.description) == rss_item_description(bytes, i)
    &&& opt_view(item.pub_date) == rss_item_pub_date(bytes, i)
    &&& enclosure_view(item.enclosure) == rss_item_enclosure(bytes, i)
    &&& media_view(item.media_content@) == rss_item_media(bytes, i, "content"@)
    &&& media_view(item.media_thumbnail@) == rss_item_media(bytes, i, "thumbnail"@)
}

/// `items` are all the items of the document `bytes`, in document order.
pub open spec fn decoded_items(items: Seq<ParsedItem>, bytes: Seq<u8>) -> bool {
    &&& rss_accepts(bytes)
    &&& items.len() == rss_item_count(bytes)
    &&& forall|i: int| 0 <= i < items.len() ==> decoded_item(#[trigger] items[i], bytes, i)
}

/// Why a source contributed no articles to a sync.
#[derive(PartialEq, Eq, Structural, Clone, Copy, Debug)]
pub enum SourceError {
    /// Network error, non-success status or timeout.
    SourceUnavailable,
    /// The body is not a well-formed RSS document.
    ParseError,
}

/// What fetching one source gave: its body, or none where it was unavailable.
pub struct FetchedSource {
    pub url: String,
    pub body: Option<Vec<u8>>,
}

/// A source that was skipped, and why.
pub struct SkippedSource {
    pub url: String,
    pub error: SourceError,
}

/// Decodes an RSS document into all its items, in document order.
pub fn parse_feed(bytes: &[u8]) -> (r: Result<Vec<ParsedItem>, SourceError>)
    ensures
        r is Ok == rss_accepts(bytes@),
        r matches Ok(v) ==> decoded_items(v@, bytes@),
        r is Err ==> r == Err::<Vec<ParsedItem>, SourceError>(SourceError::ParseError),
{
    match read_items(bytes) {
        Some(items) => {
            assert forall|i: int| 0 <= i < items@.len() implies decoded_item(
                #[trigger] items@[i],
                bytes@,
                i,
            ) by {
                assert(opt_view(items@[i].title) == rss_item_title(bytes@, i));
            }
            Ok(items)
        },
        None => Err(SourceError::ParseError),
    }
}

/// Whether a fetched source is skipped by a sync.
pub open spec fn is_skipped(s: FetchedSource) -> bool {
    match s.body {
        Some(b) => !rss_accepts(b@),
        None => true,
    }
}

/// The reason a sync skips source `s`, if it does.
pub open spec fn skip_reason(s: FetchedSource) -> Option<SourceError> {
    match s.body {
        Some(b) => if rss_accepts(b@) {
            None
        } else {
            Some(SourceError::ParseError)
        },
        None => Some(SourceError::SourceUnavailable),
    }
}

/// URL and reason of each source that a sync skips, in source order.
pub open spec fn skipped_of(sources: Seq<FetchedSource>) -> Seq<(Seq<char>, SourceError)>
    decreases sources.len(),
{
    if sources.len() == 0 {
        Seq::empty()
    } else {
        let s = sources.last();
        match skip_reason(s) {
            Some(e) => skipped_of(sources.drop_last()).push((s.url@, e)),
            None => skipped_of(sources.drop_last()),
        }
    }
}

/// URL and reason of each entry of a skipped list.
pub open spec fn skipped_view(s: Seq<SkippedSource>) -> Seq<(Seq<char>, SourceError)> {
    s.map_values(|k: SkippedSource| (k.url@, k.error))
}

/// How many of `sources` a sync skips.
pub open spec fn skipped_count(sources: Seq<FetchedSource>) -> nat
    decreases sources.len(),
{
    if sources.len() == 0 {
        0
    } else {
        skipped_count(sources.drop_last()) + if is_skipped(sources.last()) {
            1nat
        } else {
            0nat
        }
    }
}

/// The items of all feeds, feed after feed.
pub open spec fn flatten_items(feeds: Seq<Vec<ParsedItem>>) -> Seq<ParsedItem>
    decreases feeds.len(),
{
    if feeds.len() == 0 {
        Seq::empty()
    } else {
        flatten_items(feeds.drop_last()) + feeds.last()@
    }
}

/// Sum of the feeds' item counts.
pub open spec fn total_items(feeds: Seq<Vec<ParsedItem>>) -> nat
    decreases feeds.len(),
{
    if feeds.len() == 0 {
        0
    } else {
        total_items(feeds.drop_last()) + feeds.last()@.len()
    }
}

/// Adjacent and distant pairs alike: no article precedes a newer one.
pub open spec fn newest_first(a: Seq<Article>) -> bool {
    forall|i: int, j: int| 0 <= i < j < a.len() ==> a[i].pub_date >= a[j].pub_date
}

/// `b` is `a` reordered through `p` (`b[k] == a[p[k]]`, no index taken twice),
/// keeping the relative order of articles with equal dates.
pub open spec fn stable_reordering(p: Seq<int>, a: Seq<Article>, b: Seq<Article>) -> bool {
    &&& p.len() == b.len() == a.len()
    &&& forall|k: int| 0 <= k < b.len() ==> 0 <= #[trigger] p[k] < a.len() && b[k] == a[p[k]]
    &&& forall|k: int, l: int| 0 <= k < l < b.len() ==> p[k] != p[l]
    &&& forall|k: int, l: int|
        0 <= k < l < b.len() && b[k].pub_date == b[l].pub_date ==> p[k] < p[l]
}

/// `b` holds the articles of `a`, newest first, equal dates in their order in `a`.
pub open spec fn sorted_newest_first(a: Seq<Article>, b: Seq<Article>) -> bool {
    &&& newest_first(b)
    &&& exists|p: Seq<int>| stable_reordering(p, a, b)
}

/// The articles of `items` when the clock reads `now`, one for one.
pub open spec fn articles_of(a: Seq<Article>, items: Seq<ParsedItem>, now: i64) -> bool {
    &&& a.len() == items.len()
    &&& forall|k: int| 0 <= k < a.len() ==> is_article_of(#[trigger] a[k], items[k], now)
}

proof fn lemma_flatten_len(feeds: Seq<Vec<ParsedItem>>)
    ensures
        flatten_items(feeds).len() == total_items(feeds),
    decreases feeds.len(),
{
    if feeds.len() > 0 {
        lemma_flatten_len(feeds.drop_last());
    }
}

impl Article {
    /// A copy of the article.
    pub fn duplicate(&self) -> (r: Article)
        ensures
            r == *self,
    {
        Article {
            title: self.title.clone(),
            url: self.url.clone(),
            pub_date: self.pub_date,
            description: self.description.clone(),
            image_url: self.image_url.clone(),
        }
    }
}

/// The articles of `v`, newest first; articles with equal dates keep their order.
pub fn sort_newest_first(v: &Vec<Article>) -> (r: Vec<Article>)
    ensures
        sorted_newest_first(v@, r@),
{
    let mut out: Vec<Article> = Vec::new();
    let ghost mut idx: Seq<int> = Seq::empty();
    let mut i: usize = 0;
    while i < v.len()
        invariant
            i <= v@.len(),
            out@.len() == i,
            idx.len() == i,
            forall|k: int| 0 <= k < i ==> 0 <= #[trigger] idx[k] < i && out@[k] == v@[idx[k]],
            forall|k: int, l: int| 0 <= k < l < i ==> idx[k] != idx[l],
            newest_first(out@),
            forall|k: int, l: int|
                0 <= k < l < i && out@[k].pub_date == out@[l].pub_date ==> idx[k] < idx[l],
        decreases v@.len() - i,
    {
        let x = v[i].duplicate();
        let mut pos: usize = 0;
        while pos < out.len() && out[pos].pub_date >= x.pub_date
            invariant
                pos <= out@.len(),
                forall|k: int| 0 <= k < pos ==> out@[k].pub_date >= x.pub_date,
            decreases out@.len() - pos,
        {
            pos = pos + 1;
        }
        assert(forall|k: int| pos <= k < out@.len() ==> out@[k].pub_date < x.pub_date) by {
            assert forall|k: int| pos <= k < out@.len() implies out@[k].pub_date < x.pub_date by {
                if pos < k {
                    assert(out@[pos as int].pub_date >= out@[k].pub_date);
                }
            }
        }
        let ghost old_out = out@;
        let ghost old_idx = idx;
        out.insert(pos, x);
        proof {
            idx = idx.insert(pos as int, i as int);
            assert forall|k: int| 0 <= k < i + 1 implies 0 <= #[trigger] idx[k] < i + 1
                && out@[k] == v@[idx[k]] by {
                if k < pos {
                    assert(idx[k] == old_idx[k]);
                } else if k > pos {
                    assert(idx[k] == old_idx[k - 1]);
                }
            }
            assert forall|k: int, l: int| 0 <= k < l < i + 1 implies idx[k] != idx[l] by {
                if k < pos && l > pos {
                    assert(idx[l] == old_idx[l - 1]);
                } else if k > pos {
                    assert(idx[k] == old_idx[k - 1]);
                    assert(idx[l] == old_idx[l - 1]);
                } else if l == pos {
                    assert(old_idx[k] < i);
                } else if k == pos {
                    assert(old_idx[l - 1] < i);
                }
            }
            assert forall|k: int, l: int| 0 <= k < l < out@.len() implies out@[k].pub_date
                >= out@[l].pub_date by {
                if l < pos {
                } else if l == pos {
                    assert(old_out[k].pub_date >= x.pub_date);
                } else if k < pos {
                    assert(old_out[k].pub_date >= old_out[l - 1].pub_date);
                } else if k == pos {
                    assert(old_out[l - 1].pub_date < x.pub_date);
                } else {
                    assert(old_out[k - 1].pub_date >= old_out[l - 1].pub_date);
                }
            }
            assert forall|k: int, l: int|
                0 <= k < l < i + 1 && out@[k].pub_date == out@[l].pub_date implies idx[k]
                < idx[l] by {
                if l < pos {
                } else if l == pos {
                    assert(old_idx[k] < i);
                } else if k < pos {
                    assert(old_out[k] == out@[k]);
                    assert(old_out[l - 1] == out@[l]);
                } else if k == pos {
                    assert(old_out[l - 1].pub_date < x.pub_date);
                } else {
                    assert(old_out[k - 1] == out@[k]);
                    assert(old_out[l - 1] == out@[l]);
                }
            }
        }
        i = i + 1;
    }
    assert(stable_reordering(idx, v@, out@));
    out
}

/// The result of a sync: the merged articles, newest first, and the sources
/// that contributed nothing.
pub struct SyncReport {
    pub articles: Vec<Article>,
    pub skipped: Vec<SkippedSource>,
}

proof fn lemma_flatten_step(feeds: Seq<Vec<ParsedItem>>, i: int)
    requires
        0 <= i < feeds.len(),
    ensures
        flatten_items(feeds.subrange(0, i + 1)) == flatten_items(feeds.subrange(0, i))
            + feeds[i]@,
{
    assert(feeds.subrange(0, i + 1).drop_last() =~= feeds.subrange(0, i));
}

/// Normalises the items of every feed, feed after feed, item after item.
pub fn collect_articles(feeds: &Vec<Vec<ParsedItem>>, now: i64) -> (r: Vec<Article>)
    ensures
        articles_of(r@, flatten_items(feeds@), now),
        r@.len() == total_items(feeds@),
{
    let mut out: Vec<Article> = Vec::new();
    let mut i: usize = 0;
    while i < feeds.len()
        invariant
            i <= feeds@.len(),
            articles_of(out@, flatten_items(feeds@.subrange(0, i as int)), now),
        decreases feeds@.len() - i,
    {
        let items = &feeds[i];
        let ghost before = flatten_items(feeds@.subrange(0, i as int));
        let mut j: usize = 0;
        while j < items.len()
            invariant
                j <= items@.len(),
                items == feeds@[i as int],
                articles_of(out@, before + items@.subrange(0, j as int), now),
            decreases items@.len() - j,
        {
            let a = build_article(&items[j], now);
            out.push(a);
            proof {
                assert(before + items@.subrange(0, j + 1) =~= (before + items@.subrange(
                    0,
                    j as int,
                )).push(items@[j as int]));
            }
            j = j + 1;
        }
        proof {
            lemma_flatten_step(feeds@, i as int);
            assert(items@.subrange(0, j as int) =~= items@);
        }
        i = i + 1;
    }
    proof {
        assert(feeds@.subrange(0, feeds@.len() as int) =~= feeds@);
        lemma_flatten_len(feeds@);
    }
    out
}

/// Merges the feeds into one list of articles, newest first.
pub fn merge_feeds(feeds: &Vec<Vec<ParsedItem>>, now: i64) -> (r: Vec<Article>)
    ensures
        exists|a: Seq<Article>|
            articles_of(a, flatten_items(feeds@), now) && sorted_newest_first(a, r@),
        r@.len() == total_items(feeds@),
{
    let all = collect_articles(feeds, now);
    sort_newest_first(&all)
}

/// The bodies of the sources whose documents rss accepts, in source order.
pub open spec fn accepted_bodies(sources: Seq<FetchedSource>) -> Seq<Seq<u8>>
    decreases sources.len(),
{
    if sources.len() == 0 {
        Seq::empty()
    } else {
        match sources.last().body {
            Some(b) => if rss_accepts(b@) {
                accepted_bodies(sources.drop_last()).push(b@)
            } else {
                accepted_bodies(sources.drop_last())
            },
            None => accepted_bodies(sources.drop_last()),
        }
    }
}

/// `feeds[k]` holds all the items of the `k`-th accepted body of `sources`.
pub open spec fn feeds_decoded(feeds: Seq<Vec<ParsedItem>>, sources: Seq<FetchedSource>) -> bool {
    &&& feeds.len() == accepted_bodies(sources).len()
    &&& forall|k: int|
        0 <= k < feeds.len() ==> decoded_items(#[trigger] feeds[k]@, accepted_bodies(sources)[k])
}

/// Sum of the item counts of the documents `bodies`.
pub open spec fn decoded_total(bodies: Seq<Seq<u8>>) -> nat
    decreases bodies.len(),
{
    if bodies.len() == 0 {
        0
    } else {
        decoded_total(bodies.drop_last()) + rss_item_count(bodies.last())
    }
}

proof fn lemma_decoded_total(feeds: Seq<Vec<ParsedItem>>, bodies: Seq<Seq<u8>>)
    requires
        feeds.len() == bodies.len(),
        forall|k: int| 0 <= k < feeds.len() ==> decoded_items(#[trigger] feeds[k]@, bodies[k]),
    ensures
        total_items(feeds) == decoded_total(bodies),
    decreases feeds.len(),
{
    if feeds.len() > 0 {
        let n = feeds.len() - 1;
        assert(decoded_items(feeds[n as int]@, bodies[n as int]));
        assert forall|k: int| 0 <= k < feeds.drop_last().len() implies decoded_items(
            #[trigger] feeds.drop_last()[k]@,
            bodies.drop_last()[k],
        ) by {
            assert(decoded_items(feeds[k]@, bodies[k]));
        }
        lemma_decoded_total(feeds.drop_last(), bodies.drop_last());
    }
}

/// Decodes every fetched source; those that were unavailable or do not parse
/// are listed as skipped, in order, and the others give their items.
pub fn split_sources(sources: &Vec<FetchedSource>) -> (r: (Vec<Vec<ParsedItem>>, Vec<SkippedSource>))
    ensures
        skipped_view(r.1@) == skipped_of(sources@),
        r.1@.len() == skipped_count(sources@),
        r.0@.len() + r.1@.len() == sources@.len(),
        feeds_decoded(r.0@, sources@),
{
    let mut feeds: Vec<Vec<ParsedItem>> = Vec::new();
    let mut skipped: Vec<SkippedSource> = Vec::new();
    let mut i: usize = 0;
    while i < sources.len()
        invariant
            i <= sources@.len(),
            skipped@.len() == skipped_count(sources@.subrange(0, i as int)),
            skipped_view(skipped@) == skipped_of(sources@.subrange(0, i as int)),
            feeds@.len() + skipped@.len() == i,
            feeds_decoded(feeds@, sources@.subrange(0, i as int)),
        decreases sources@.len() - i,
    {
        let s = &sources[i];
        proof {
            assert(sources@.subrange(0, i + 1).drop_last() =~= sources@.subrange(0, i as int));
        }
        let ghost before = skipped@;
        let ghost feeds_before = feeds@;
        let ghost prefix = sources@.subrange(0, i as int);
        let ghost next = sources@.subrange(0, i + 1);
        match &s.body {
            None => {
                skipped.push(SkippedSource { url: s.url.clone(), error: SourceError::SourceUnavailable });
                assert(skipped_view(skipped@) =~= skipped_view(before).push((s.url@, SourceError::SourceUnavailable)));
            },
            Some(body) => match parse_feed(body.as_slice()) {
                Ok(items) => {
                    feeds.push(items);
                    proof {
                        assert(accepted_bodies(next) == accepted_bodies(prefix).push(body@));
                        assert forall|k: int| 0 <= k < feeds@.len() implies decoded_items(
                            #[trigger] feeds@[k]@,
                            accepted_bodies(next)[k],
                        ) by {
                            if k < feeds_before.len() {
                                assert(feeds@[k] == feeds_before[k]);
                            }
                        }
                    }
                },
                Err(e) => {
                    skipped.push(SkippedSource { url: s.url.clone(), error: e });
                    assert(skipped_view(skipped@) =~= skipped_view(before).push((s.url@, SourceError::ParseError)));
                },
            },
        }
        i = i + 1;
    }
    proof {
        assert(sources@.subrange(0, sources@.len() as int) =~= sources@);
    }
    (feeds, skipped)
}

/// One sync over the fetched sources: skipped sources are reported and the
/// others' articles are merged, newest first.
pub fn sync_sources(sources: &Vec<FetchedSource>, now: i64) -> (r: SyncReport)
    ensures
        skipped_view(r.skipped@) == skipped_of(sources@),
        r.skipped@.len() == skipped_count(sources@),
        exists|feeds: Seq<Vec<ParsedItem>>, a: Seq<Article>|
            feeds_decoded(feeds, sources@) && articles_of(a, flatten_items(feeds), now)
                && sorted_newest_first(a, r.articles@),
        r.articles@.len() == decoded_total(accepted_bodies(sources@)),
        newest_first(r.articles@),
{
    let (feeds, skipped) = split_sources(sources);
    let articles = merge_feeds(&feeds, now);
    proof {
        lemma_decoded_total(feeds@, accepted_bodies(sources@));
    }
    SyncReport { articles, skipped }
}

/// A sync gives exactly one article per item of the feeds that parsed: a single
/// feed of `N` items gives `N` articles, each built from its item.
pub proof fn lemma_one_article_per_item(feeds: Seq<Vec<ParsedItem>>, a: Seq<Article>, now: i64)
    requires
        articles_of(a, flatten_items(feeds), now),
    ensures
        a.len() == total_items(feeds),
        feeds.len() == 1 ==> a.len() == feeds[0]@.len(),
{
    lemma_flatten_len(feeds);
    if feeds.len() == 1 {
        assert(feeds.drop_last() =~= Seq::<Vec<ParsedItem>>::empty());
        assert(total_items(feeds.drop_last()) == 0);
        assert(feeds.last() == feeds[0]);
    }
}

} // verus!
