use portfolio_feeds::article::resolve_image;
use portfolio_feeds::feed::{parse_feed, SourceError};
use portfolio_feeds::store::{decode_document, ArticleStore, StoredDate, StoredDocument};

const NOW: i64 = 1_800_000_000_000;

fn doc(title: Option<&str>, url: Option<&str>, date: &str, description: Option<&str>, image: Option<&str>) -> StoredDocument {
    StoredDocument {
        title: title.map(str::to_string),
        url: url.map(str::to_string),
        pub_date: StoredDate::Text(date.to_string()),
        description: description.map(str::to_string),
        image_url: image.map(str::to_string),
    }
}

fn numbered(n: usize, prefix: &str) -> Vec<StoredDocument> {
    (0..n)
        .map(|i| StoredDocument {
            title: Some(format!("{} {}", prefix, i)),
            url: Some(format!("https://example.com/article-{}", i)),
            pub_date: StoredDate::Text(format!("2024-10-{}T10:00:00Z", 24 - (i % 24))),
            description: Some(format!("Test article {}", i)),
            image_url: Some("https://example.com/image.jpg".to_string()),
        })
        .collect()
}

fn store(docs: &[StoredDocument]) -> ArticleStore {
    let articles = docs.iter().map(|d| decode_document(d, NOW)).collect();
    let mut s = ArticleStore::new();
    s.replace_all(&articles);
    s
}

fn rss(item: &str) -> Vec<u8> {
    format!(
        r#"<?xml version="1.0" encoding="UTF-8"?>
<rss version="2.0" xmlns:media="http://search.yahoo.com/mrss/">
  <channel>
    <title>Test Feed</title>
    <link>https://example.com</link>
    <description>Test RSS Feed</description>
    {}
  </channel>
</rss>"#,
        item
    )
    .into_bytes()
}

#[test]
fn test_fetch_rss_malformed_xml() {
    let body = b"<?xml version=\"1.0\"?><rss version=\"2.0\"><channel><title>Broken</title><item><title>Unclosed".to_vec();
    assert_eq!(parse_feed(&body).err(), Some(SourceError::ParseError));
}

#[test]
fn test_fetch_rss_empty_items() {
    let items = parse_feed(&rss("")).unwrap();
    assert!(items.is_empty());
    let feeds = store(&[]).get(1, 10);
    assert!(feeds.is_empty());
}

#[test]
fn test_extract_image_from_media_content() {
    let image_url = "https://example.com/media-image.jpg";
    let body = rss(&format!(
        r#"<item><title>Article with Media</title><link>https://example.com/article1</link><description>Article description</description><media:content url="{}" type="image/jpeg" /></item>"#,
        image_url
    ));
    let items = parse_feed(&body).unwrap();
    assert_eq!(resolve_image(&items[0]), image_url);
    assert!(image_url.contains("media-image"));
}

#[test]
fn test_extract_image_from_media_thumbnail() {
    let image_url = "https://example.com/thumbnail-image.jpg";
    let body = rss(&format!(
        r#"<item><title>Article with Media Thumbnail</title><link>https://example.com/article1</link><description>Article description</description><media:thumbnail url="{}" /></item>"#,
        image_url
    ));
    let items = parse_feed(&body).unwrap();
    assert_eq!(resolve_image(&items[0]), image_url);
    assert!(image_url.contains("thumbnail-image"));
}

#[test]
fn test_extract_image_from_html_description() {
    let image_url = "https://example.com/html-image.jpg";
    let body = rss(&format!(
        r#"<item><title>Article with HTML</title><link>https://example.com/article1</link><description><![CDATA[<p>Text</p><img src="{}" alt="x">]]></description></item>"#,
        image_url
    ));
    let items = parse_feed(&body).unwrap();
    assert_eq!(resolve_image(&items[0]), image_url);
    assert!(image_url.contains("html-image"));
}

#[test]
fn test_extract_image_fallback() {
    let body = rss("<item><title>No Image Article</title><link>https://example.com/a</link><description>Plain text only</description></item>");
    let items = parse_feed(&body).unwrap();
    assert_eq!(
        resolve_image(&items[0]),
        "https://placehold.co/600x400/grey/white/png?text=No%20Image%20Article"
    );
}

#[test]
fn test_store_items_success() {
    let feeds = store(&[
        doc(Some("Article 1"), Some("https://example.com/article1"), "2024-10-24T10:00:00Z", Some("Test article 1"), Some("https://example.com/image1.jpg")),
        doc(Some("Article 2"), Some("https://example.com/article2"), "2024-10-24T11:00:00Z", Some("Test article 2"), Some("https://example.com/image2.jpg")),
    ])
    .get(1, 10);
    assert_eq!(feeds.len(), 2);
    assert_eq!(feeds[0].title, "Article 2");
    assert_eq!(feeds[1].title, "Article 1");
}

#[test]
fn test_get_feeds_pagination() {
    let page1 = store(&numbered(20, "Article")).get(1, 9);
    assert_eq!(page1.len(), 9);
}

#[test]
fn test_get_feeds_last_page() {
    let page3 = store(&numbered(25, "Article")).get(3, 9);
    assert!(!page3.is_empty());
    assert!(page3.len() <= 9);
    assert_eq!(page3.len(), 7);
}

#[test]
fn test_get_feeds_empty() {
    assert!(store(&[]).get(1, 10).is_empty());
}

#[test]
fn test_full_rss_workflow() {
    let docs: Vec<StoredDocument> = (0..15)
        .map(|i| StoredDocument {
            title: Some(format!("Workflow Article {}", i)),
            url: Some(format!("https://example.com/workflow-{}", i)),
            pub_date: StoredDate::Text(format!("2024-10-{}T{}:00:00Z", 24 - (i % 24), 10 + (i % 10))),
            description: Some(format!("Workflow test article {}", i)),
            image_url: Some(format!("https://example.com/image-{}.jpg", i)),
        })
        .collect();
    let s = store(&docs);
    let page1 = s.get(1, 5);
    let page2 = s.get(2, 5);
    let page3 = s.get(3, 5);
    assert_eq!(page1.len(), 5);
    assert_eq!(page2.len(), 5);
    assert_eq!(page3.len(), 5);
    let all_dates: Vec<i64> = page1.iter().chain(&page2).chain(&page3).map(|a| a.pub_date).collect();
    for i in 0..all_dates.len() - 1 {
        assert!(all_dates[i] >= all_dates[i + 1], "Items should be sorted by date descending");
    }
}

#[test]
fn test_get_feeds_ordering_descending() {
    let feeds = store(&[
        doc(Some("Item 1"), Some("https://example.com/1"), "2024-10-22T10:00:00Z", Some("First item"), Some("https://example.com/img1.jpg")),
        doc(Some("Item 2"), Some("https://example.com/2"), "2024-10-24T10:00:00Z", Some("Second item"), Some("https://example.com/img2.jpg")),
        doc(Some("Item 3"), Some("https://example.com/3"), "2024-10-23T10:00:00Z", Some("Middle item"), Some("https://example.com/img3.jpg")),
    ])
    .get(1, 10);
    assert_eq!(feeds.len(), 3);
    assert_eq!(feeds[0].title, "Item 2");
    assert_eq!(feeds[1].title, "Item 3");
    assert_eq!(feeds[2].title, "Item 1");
}

#[test]
fn test_get_feeds_handles_invalid_dates() {
    let feeds = store(&[doc(
        Some("Invalid date article"),
        Some("https://example.com/article"),
        "invalid-date-format",
        Some("Article with bad date"),
        Some("https://example.com/image.jpg"),
    )])
    .get(1, 10);
    assert_eq!(feeds.len(), 1);
    assert_eq!(feeds[0].title, "Invalid date article");
    assert_eq!(feeds[0].pub_date, NOW);
}

#[test]
fn test_rss_item_contains_all_required_fields() {
    let feeds = store(&[doc(
        Some("Complete Article"),
        Some("https://example.com/article"),
        "2024-10-24T10:00:00Z",
        Some("Full article description"),
        Some("https://example.com/complete.jpg"),
    )])
    .get(1, 10);
    assert_eq!(feeds.len(), 1);
    let feed = &feeds[0];
    assert!(!feed.title.is_empty());
    assert!(!feed.url.is_empty());
    assert!(!feed.description.is_empty());
    assert!(!feed.image_url.is_empty());
}

#[test]
fn test_get_feeds_page_beyond_data() {
    let docs: Vec<StoredDocument> = (0..5)
        .map(|i| doc(Some(&format!("Article {}", i)), Some("https://example.com/a"), "2024-10-24T10:00:00Z", Some("Test"), Some("https://example.com/image.jpg")))
        .collect();
    assert!(store(&docs).get(10, 5).is_empty());
}

#[test]
fn test_get_feeds_single_item() {
    let feeds = store(&[doc(Some("Single Item"), Some("https://example.com/single"), "2024-10-24T10:00:00Z", Some("Only one item"), Some("https://example.com/single.jpg"))]).get(1, 10);
    assert_eq!(feeds.len(), 1);
    assert_eq!(feeds[0].title, "Single Item");
}

#[test]
fn test_rss_feed_parsing_with_special_characters() {
    let body = rss("<item><title>Article with &amp; special &lt;characters&gt;</title><link>https://example.com/article1</link><description>Description with &quot;quotes&quot; and &apos;apostrophes&apos;</description><pubDate>Thu, 24 Oct 2024 10:00:00 +0000</pubDate></item>");
    let items = parse_feed(&body).unwrap();
    assert_eq!(items[0].title.as_deref(), Some("Article with & special <characters>"));
    assert_eq!(items[0].description.as_deref(), Some("Description with \"quotes\" and 'apostrophes'"));
}

#[test]
fn test_get_feeds_with_urlencoded_placeholders() {
    let feeds = store(&[doc(Some("Article with special chars: & < > \""), Some("https://example.com/special"), "2024-10-24T10:00:00Z", Some("Test special"), Some("https://example.com/special.jpg"))]).get(1, 10);
    assert_eq!(feeds.len(), 1);
    assert!(feeds[0].title.contains("&"));
}

#[test]
fn test_get_feeds_empty_title_fallback() {
    let feeds = store(&[doc(None, Some("https://example.com/notitle"), "2024-10-24T10:00:00Z", Some("No title article"), Some("https://example.com/image.jpg"))]).get(1, 10);
    assert_eq!(feeds.len(), 1);
    assert!(feeds[0].title.is_empty());
}

#[test]
fn test_get_feeds_empty_description_fallback() {
    let feeds = store(&[doc(Some("No description item"), Some("https://example.com/nodesc"), "2024-10-24T10:00:00Z", None, Some("https://example.com/image.jpg"))]).get(1, 10);
    assert_eq!(feeds.len(), 1);
    assert!(feeds[0].description.is_empty());
}

#[test]
fn test_get_feeds_empty_url_fallback() {
    let feeds = store(&[doc(Some("No URL item"), None, "2024-10-24T10:00:00Z", Some("No url"), Some("https://example.com/image.jpg"))]).get(1, 10);
    assert_eq!(feeds.len(), 1);
    assert!(feeds[0].url.is_empty());
}

#[test]
fn test_get_feeds_high_page_numbers() {
    let s = store(&[
        doc(Some("Item 1"), Some("https://example.com/1"), "2024-10-24T10:00:00Z", Some("Test"), Some("https://example.com/1.jpg")),
        doc(Some("Item 2"), Some("https://example.com/2"), "2024-10-24T10:00:00Z", Some("Test"), Some("https://example.com/2.jpg")),
        doc(Some("Item 3"), Some("https://example.com/3"), "2024-10-24T10:00:00Z", Some("Test"), Some("https://example.com/3.jpg")),
    ]);
    assert!(s.get(100, 10).is_empty());
    assert!(s.get(1000, 10).is_empty());
}
