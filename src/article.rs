//! Parsed feed items, canonical articles, and the image fallback chain.

use vstd::prelude::*;
use vstd::string::StringExecFns;
use vstd::utf8::encode_utf8;
use crate::text::{chars_of, has_prefix, starts_with_chars};

verus! {

/// Media attached to an item through an `<enclosure>` element.
pub struct MediaEnclosure {
    pub url: String,
    pub mime_type: String,
}

/// One item of a feed as decoded from the source, before normalisation.
///
/// `media_content` and `media_thumbnail` hold, in document order, the `url`
/// attribute of each `media:content` / `media:thumbnail` extension entry.
pub struct ParsedItem {
    pub title: Option<String>,
    pub link: Option<String>,
    pub description: Option<String>,
    pub pub_date: Option<String>,
    pub enclosure: Option<MediaEnclosure>,
    pub media_content: Vec<Option<String>>,
    pub media_thumbnail: Vec<Option<String>>,
}

/// The normalised, persisted form of one feed item.
/// `pub_date` is milliseconds since the Unix epoch.
pub struct Article {
    pub title: String,
    pub url: String,
    pub pub_date: i64,
    pub description: String,
    pub image_url: String,
}

/// Mime prefix that marks an enclosure as an image.
pub const IMAGE_MIME_PREFIX: &'static str = "image/";

/// First `<img ... src="http(s)://...">` in an HTML fragment; group 1 is the URL.
pub const IMG_SRC_PATTERN: &'static str = r#"(?i)<img[^>]+src=["'](https?://[^"']+)["']"#;

/// Start of the generated placeholder image URL; the encoded title follows.
pub const PLACEHOLDER_PREFIX: &'static str = "https://placehold.co/600x400/grey/white/png?text=";

/// What regex's `Regex::captures` gives as capture group 1 of the first match of
/// `pattern` in `text` (none where the pattern does not compile).
pub uninterp spec fn regex_first_group(pattern: Seq<char>, text: Seq<char>) -> Option<Seq<char>>;

/// Bytes that percent-encoding leaves as they are: ASCII letters, digits, `-._~`.
pub open spec fn is_unreserved(b: u8) -> bool {
    (48 <= b <= 57) || (65 <= b <= 90) || (97 <= b <= 122) || b == 45 || b == 46 || b == 95
        || b == 126
}

/// Upper-case hexadecimal digit of `d < 16`.
pub open spec fn hex_digit(d: u8) -> char {
    if d < 10 {
        ((d + 48) as u8) as char
    } else {
        ((d + 55) as u8) as char
    }
}

/// One byte, percent-encoded.
pub open spec fn encode_byte(b: u8) -> Seq<char> {
    if is_unreserved(b) {
        seq![b as char]
    } else {
        seq!['%', hex_digit(b / 16), hex_digit(b % 16)]
    }
}

/// Percent-encoding of a byte string, byte by byte.
pub open spec fn percent_encode_bytes(b: Seq<u8>) -> Seq<char>
    decreases b.len(),
{
    if b.len() == 0 {
        Seq::empty()
    } else {
        percent_encode_bytes(b.drop_last()) + encode_byte(b.last())
    }
}

/// Percent-encoding of the UTF-8 bytes of `text`.
pub open spec fn percent_encoded(text: Seq<char>) -> Seq<char> {
    percent_encode_bytes(encode_utf8(text))
}

/// What chrono's `DateTime::parse_from_rfc2822` gives for `text`, as milliseconds
/// since the Unix epoch (none where the text is not an RFC 2822 date).
pub uninterp spec fn rfc2822_millis(text: Seq<char>) -> Option<i64>;

/// The text of an optional string.
pub open spec fn opt_view(o: Option<String>) -> Option<Seq<char>> {
    match o {
        Some(s) => Some(s@),
        None => None,
    }
}

/// The text of an optional field, empty where it is absent.
pub open spec fn text_or_empty(o: Option<String>) -> Seq<char> {
    match o {
        Some(s) => s@,
        None => Seq::empty(),
    }
}

/// Step 1: the enclosure's URL when its mime type starts with `image/`.
pub open spec fn enclosure_image(item: ParsedItem) -> Option<Seq<char>> {
    match item.enclosure {
        Some(e) => if has_prefix(e.mime_type@, IMAGE_MIME_PREFIX@) {
            Some(e.url@)
        } else {
            None
        },
        None => None,
    }
}

/// Steps 2 and 3: the `url` attribute of the first extension entry, if any.
pub open spec fn first_entry_url(entries: Seq<Option<String>>) -> Option<Seq<char>> {
    if entries.len() > 0 {
        opt_view(entries[0])
    } else {
        None
    }
}

/// Step 4: the first image URL found in the description's HTML.
pub open spec fn description_image(item: ParsedItem) -> Option<Seq<char>> {
    match item.description {
        Some(d) => regex_first_group(IMG_SRC_PATTERN@, d@),
        None => None,
    }
}

/// The first of steps 1 to 4 that yields a URL.
pub open spec fn found_image(item: ParsedItem) -> Option<Seq<char>> {
    if enclosure_image(item).is_some() {
        enclosure_image(item)
    } else if first_entry_url(item.media_content@).is_some() {
        first_entry_url(item.media_content@)
    } else if first_entry_url(item.media_thumbnail@).is_some() {
        first_entry_url(item.media_thumbnail@)
    } else {
        description_image(item)
    }
}

/// Step 5: the placeholder image URL for a title.
pub open spec fn placeholder_for(title: Seq<char>) -> Seq<char> {
    PLACEHOLDER_PREFIX@ + percent_encoded(title)
}

/// The image URL that the fallback chain resolves for `item`.
pub open spec fn resolved_image(item: ParsedItem) -> Seq<char> {
    match found_image(item) {
        Some(u) => u,
        None => placeholder_for(text_or_empty(item.title)),
    }
}

/// Publication time of `item`: its RFC 2822 date when it parses, else `now`.
pub open spec fn article_date(item: ParsedItem, now: i64) -> i64 {
    match item.pub_date {
        Some(d) => match rfc2822_millis(d@) {
            Some(t) => t,
            None => now,
        },
        None => now,
    }
}

/// `a` is the canonical article of `item` when the clock reads `now`.
pub open spec fn is_article_of(a: Article, item: ParsedItem, now: i64) -> bool {
    &&& a.title@ == text_or_empty(item.title)
    &&& a.url@ == text_or_empty(item.link)
    &&& a.description@ == text_or_empty(item.description)
    &&& a.pub_date == article_date(item, now)
    &&& a.image_url@ == resolved_image(item)
}

/// Relies on regex's `Regex::new` and `Regex::captures`: capture group 1 of the
/// first match, a function of the pattern and the text.
#[verifier::external_body]
fn capture_first_group(pattern: &str, text: &str) -> (r: Option<String>)
    ensures
        opt_view(r) == regex_first_group(pattern@, text@),
{
    let re = regex::Regex::new(pattern).ok()?;
    let caps = re.captures(text)?;
    caps.get(1).map(|m| m.as_str().to_string())
}

/// Relies on urlencoding's `encode`: every UTF-8 byte but ASCII letters, digits
/// and `-._~` becomes `%` and two upper-case hex digits.
#[verifier::external_body]
fn url_encode(text: &str) -> (r: String)
    ensures
        r@ == percent_encoded(text@),
{
    urlencoding::encode(text).into_owned()
}

/// Relies on chrono's `DateTime::parse_from_rfc2822` and `timestamp_millis`.
#[verifier::external_body]
fn parse_rfc2822_millis(text: &str) -> (r: Option<i64>)
    ensures
        r == rfc2822_millis(text@),
{
    chrono::DateTime::parse_from_rfc2822(text).ok().map(|d| d.timestamp_millis())
}

fn copy_text(o: &Option<String>) -> (r: String)
    ensures
        r@ == text_or_empty(*o),
{
    match o {
        Some(s) => s.clone(),
        None => String::new(),
    }
}

fn first_entry(entries: &Vec<Option<String>>) -> (r: Option<String>)
    ensures
        opt_view(r) == first_entry_url(entries@),
{
    if entries.len() > 0 {
        match &entries[0] {
            Some(u) => Some(u.clone()),
            None => None,
        }
    } else {
        None
    }
}

/// The enclosure's URL when its mime type starts with `image/`.
pub fn extract_from_enclosure(item: &ParsedItem) -> (r: Option<String>)
    ensures
        opt_view(r) == enclosure_image(*item),
{
    match &item.enclosure {
        Some(e) => {
            let mime = chars_of(e.mime_type.as_str());
            let prefix = chars_of(IMAGE_MIME_PREFIX);
            if starts_with_chars(mime.as_slice(), prefix.as_slice()) {
                Some(e.url.clone())
            } else {
                None
            }
        },
        None => None,
    }
}

/// The `url` of the first `media:content` entry.
pub fn extract_from_media_content(item: &ParsedItem) -> (r: Option<String>)
    ensures
        opt_view(r) == first_entry_url(item.media_content@),
{
    first_entry(&item.media_content)
}

/// The `url` of the first `media:thumbnail` entry.
pub fn extract_from_media_thumbnail(item: &ParsedItem) -> (r: Option<String>)
    ensures
        opt_view(r) == first_entry_url(item.media_thumbnail@),
{
    first_entry(&item.media_thumbnail)
}

/// The first `<img>` source URL in the description's HTML.
pub fn extract_from_html_description(item: &ParsedItem) -> (r: Option<String>)
    ensures
        opt_view(r) == description_image(*item),
{
    match &item.description {
        Some(d) => capture_first_group(IMG_SRC_PATTERN, d.as_str()),
        None => None,
    }
}

/// The image URL from the first source that has one: enclosure, media content,
/// media thumbnail, then the description's HTML.
pub fn extract_image_url(item: &ParsedItem) -> (r: Option<String>)
    ensures
        opt_view(r) == found_image(*item),
{
    let e = extract_from_enclosure(item);
    if e.is_some() {
        return e;
    }
    let c = extract_from_media_content(item);
    if c.is_some() {
        return c;
    }
    let t = extract_from_media_thumbnail(item);
    if t.is_some() {
        return t;
    }
    extract_from_html_description(item)
}

/// The placeholder image URL that embeds the percent-encoded `title`.
pub fn placeholder_image(title: &str) -> (r: String)
    ensures
        r@ == placeholder_for(title@),
{
    let encoded = url_encode(title);
    String::from_str(PLACEHOLDER_PREFIX).concat(encoded.as_str())
}

/// Resolves the illustration of `item`; never fails.
pub fn resolve_image(item: &ParsedItem) -> (r: String)
    ensures
        r@ == resolved_image(*item),
{
    match extract_image_url(item) {
        Some(u) => u,
        None => {
            let title = copy_text(&item.title);
            placeholder_image(title.as_str())
        },
    }
}

/// Publication time of `item`: its RFC 2822 date when present and valid, else `now`.
pub fn item_date(item: &ParsedItem, now: i64) -> (r: i64)
    ensures
        r == article_date(*item, now),
{
    match &item.pub_date {
        Some(d) => match parse_rfc2822_millis(d.as_str()) {
            Some(t) => t,
            None => now,
        },
        None => now,
    }
}

/// Normalises one parsed item; absent text fields become empty strings.
pub fn build_article(item: &ParsedItem, now: i64) -> (a: Article)
    ensures
        is_article_of(a, *item, now),
{
    Article {
        title: copy_text(&item.title),
        url: copy_text(&item.link),
        pub_date: item_date(item, now),
        description: copy_text(&item.description),
        image_url: resolve_image(item),
    }
}

/// The fallback chain is ordered: an image enclosure wins over everything else,
/// in particular over an `<img>` in the description; with no enclosure image and
/// no media entries, the description's image is taken.
pub proof fn lemma_image_priority(item: ParsedItem)
    ensures
        enclosure_image(item) matches Some(y) ==> resolved_image(item) == y,
        enclosure_image(item) is None && item.media_content@.len() == 0
            && item.media_thumbnail@.len() == 0 ==> (description_image(item) matches Some(x)
            ==> resolved_image(item) == x),
        found_image(item) is None ==> resolved_image(item) == placeholder_for(text_or_empty(item.title)),
{
}

} // verus!
