use portfolio_feeds::article::{
    build_article, extract_image_url, placeholder_image, resolve_image, Article, MediaEnclosure,
    ParsedItem,
};
use portfolio_feeds::feed::{
    merge_feeds, parse_feed, sort_newest_first, sync_sources, FetchedSource, SourceError,
};

const NOW: i64 = 1_800_000_000_000;

fn item(title: &str) -> ParsedItem {
    ParsedItem {
        title: Some(title.to_string()),
        link: Some(format!("https://example.com/{}", title)),
        description: None,
        pub_date: None,
        enclosure: None,
        media_content: Vec::new(),
        media_thumbnail: Vec::new(),
    }
}

fn rss(items: &str) -> Vec<u8> {
    format!(
        r#"<?xml version="1.0" encoding="UTF-8"?>
<rss version="2.0" xmlns:media="http://search.yahoo.com/mrss/">
  <channel>
    <title>Test Feed</title>
    <link>https://example.com</link>
    <description>Test RSS Feed</description>
    {}
  </channel>
</rss>"#,
        items
    )
    .into_bytes()
}

fn rss_item(title: &str, date: &str, extra: &str) -> String {
    format!(
        "<item><title>{}</title><link>https://example.com/{}</link><description>About {}</description><pubDate>{}</pubDate>{}</item>",
        title, title, title, date, extra
    )
}

fn article(title: &str, date: i64) -> Article {
    Article {
        title: title.to_string(),
        url: String::new(),
        pub_date: date,
        description: String::new(),
        image_url: String::new(),
    }
}

#[test]
fn parse_reads_all_fields() {
    let body = rss(&rss_item(
        "First",
        "Thu, 24 Oct 2024 10:00:00 +0000",
        r#"<enclosure url="https://img.example.com/a.jpg" type="image/jpeg" length="1234" />"#,
    ));
    let items = parse_feed(&body).unwrap();
    assert_eq!(items.len(), 1);
    let it = &items[0];
    assert_eq!(it.title.as_deref(), Some("First"));
    assert_eq!(it.link.as_deref(), Some("https://example.com/First"));
    assert_eq!(it.description.as_deref(), Some("About First"));
    let enc = it.enclosure.as_ref().unwrap();
    assert_eq!(enc.url, "https://img.example.com/a.jpg");
    assert_eq!(enc.mime_type, "image/jpeg");
    let a = build_article(it, NOW);
    assert_eq!(a.pub_date, 1729764000000);
    assert_eq!(a.image_url, "https://img.example.com/a.jpg");
}

#[test]
fn parse_reads_media_extensions() {
    let body = rss(&rss_item(
        "Media",
        "Thu, 24 Oct 2024 10:00:00 +0000",
        r#"<media:content url="https://img.example.com/c.jpg" type="image/jpeg" /><media:thumbnail url="https://img.example.com/t.jpg" />"#,
    ));
    let items = parse_feed(&body).unwrap();
    assert_eq!(items[0].media_content, vec![Some("https://img.example.com/c.jpg".to_string())]);
    assert_eq!(items[0].media_thumbnail, vec![Some("https://img.example.com/t.jpg".to_string())]);
    assert_eq!(resolve_image(&items[0]), "https://img.example.com/c.jpg");
}

#[test]
fn thumbnail_used_without_content() {
    let body = rss(&rss_item(
        "Thumb",
        "Thu, 24 Oct 2024 10:00:00 +0000",
        r#"<media:thumbnail url="https://img.example.com/t.jpg" />"#,
    ));
    let items = parse_feed(&body).unwrap();
    assert_eq!(resolve_image(&items[0]), "https://img.example.com/t.jpg");
}

#[test]
fn malformed_xml_is_a_parse_error() {
    let body = b"<rss><channel><item><title>Broken".to_vec();
    assert_eq!(parse_feed(&body).err(), Some(SourceError::ParseError));
}

#[test]
fn empty_channel_has_no_items() {
    let items = parse_feed(&rss("")).unwrap();
    assert!(items.is_empty());
}

#[test]
fn enclosure_beats_description_image() {
    let mut it = item("Both");
    it.enclosure = Some(MediaEnclosure {
        url: "https://y.example/y.png".to_string(),
        mime_type: "image/png".to_string(),
    });
    it.description = Some(r#"<img src="https://x.example/x.jpg">"#.to_string());
    assert_eq!(resolve_image(&it), "https://y.example/y.png");
    it.enclosure = None;
    assert_eq!(resolve_image(&it), "https://x.example/x.jpg");
}

#[test]
fn non_image_enclosure_is_skipped() {
    let mut it = item("Audio");
    it.enclosure = Some(MediaEnclosure {
        url: "https://a.example/a.mp3".to_string(),
        mime_type: "audio/mpeg".to_string(),
    });
    it.media_thumbnail = vec![Some("https://t.example/t.jpg".to_string())];
    assert_eq!(resolve_image(&it), "https://t.example/t.jpg");
}

#[test]
fn first_media_entry_without_url_falls_through() {
    let mut it = item("Gap");
    it.media_content = vec![None, Some("https://c.example/2.jpg".to_string())];
    it.media_thumbnail = vec![Some("https://t.example/t.jpg".to_string())];
    assert_eq!(resolve_image(&it), "https://t.example/t.jpg");
}

#[test]
fn description_image_single_quoted() {
    let mut it = item("Quoted");
    it.description = Some("<p>text <img src='http://x/y.jpg'></p>".to_string());
    assert_eq!(resolve_image(&it), "http://x/y.jpg");
}

#[test]
fn description_image_case_insensitive() {
    let mut it = item("Upper");
    it.description = Some(r#"<IMG alt="a" SRC="https://x/z.png">"#.to_string());
    assert_eq!(extract_image_url(&it), Some("https://x/z.png".to_string()));
}

#[test]
fn placeholder_embeds_encoded_title() {
    let it = item("Hello World & Co!");
    assert_eq!(
        resolve_image(&it),
        "https://placehold.co/600x400/grey/white/png?text=Hello%20World%20%26%20Co%21"
    );
    assert_eq!(placeholder_image("é"), "https://placehold.co/600x400/grey/white/png?text=%C3%A9");
}

#[test]
fn missing_fields_become_empty_and_now() {
    let it = ParsedItem {
        title: None,
        link: None,
        description: None,
        pub_date: Some("not a date".to_string()),
        enclosure: None,
        media_content: Vec::new(),
        media_thumbnail: Vec::new(),
    };
    let a = build_article(&it, NOW);
    assert_eq!(a.title, "");
    assert_eq!(a.url, "");
    assert_eq!(a.description, "");
    assert_eq!(a.pub_date, NOW);
    assert_eq!(a.image_url, "https://placehold.co/600x400/grey/white/png?text=");
}

#[test]
fn sort_is_newest_first_and_stable() {
    let v = vec![
        article("a", 10),
        article("b", 30),
        article("c", 10),
        article("d", 20),
        article("e", 30),
    ];
    let sorted = sort_newest_first(&v);
    let titles: Vec<&str> = sorted.iter().map(|a| a.title.as_str()).collect();
    assert_eq!(titles, vec!["b", "e", "d", "a", "c"]);
}

#[test]
fn merge_counts_every_item() {
    let feeds = vec![vec![item("a"), item("b"), item("c")], vec![], vec![item("d")]];
    let merged = merge_feeds(&feeds, NOW);
    assert_eq!(merged.len(), 4);
}

#[test]
fn sync_skips_bad_sources() {
    let good1 = rss(&rss_item("One", "Thu, 24 Oct 2024 10:00:00 +0000", ""));
    let good2 = rss(&rss_item("Two", "Fri, 25 Oct 2024 10:00:00 +0000", ""));
    let sources = vec![
        FetchedSource { url: "https://a.example/rss".to_string(), body: Some(good1) },
        FetchedSource {
            url: "https://b.example/rss".to_string(),
            body: Some(b"<rss><channel><item>".to_vec()),
        },
        FetchedSource { url: "https://c.example/rss".to_string(), body: Some(good2) },
    ];
    let report = sync_sources(&sources, NOW);
    assert_eq!(report.articles.len(), 2);
    assert_eq!(report.articles[0].title, "Two");
    assert_eq!(report.articles[1].title, "One");
    assert_eq!(report.skipped.len(), 1);
    assert_eq!(report.skipped[0].url, "https://b.example/rss");
    assert_eq!(report.skipped[0].error, SourceError::ParseError);
}

#[test]
fn sync_reports_unavailable_sources() {
    let sources = vec![FetchedSource { url: "https://down.example/rss".to_string(), body: None }];
    let report = sync_sources(&sources, NOW);
    assert!(report.articles.is_empty());
    assert_eq!(report.skipped[0].error, SourceError::SourceUnavailable);
}

#[test]
fn feed_of_n_items_gives_n_articles() {
    let items: String = (0..5)
        .map(|i| rss_item(&format!("T{}", i), "Thu, 24 Oct 2024 10:00:00 +0000", ""))
        .collect();
    let sources = vec![FetchedSource { url: "u".to_string(), body: Some(rss(&items)) }];
    let report = sync_sources(&sources, NOW);
    assert_eq!(report.articles.len(), 5);
    let titles: Vec<&str> = report.articles.iter().map(|a| a.title.as_str()).collect();
    assert_eq!(titles, vec!["T0", "T1", "T2", "T3", "T4"]);
}

#[test]
fn rss_item_can_be_created() {
    let now = std::time::SystemTime::now()
        .duration_since(std::time::UNIX_EPOCH)
        .unwrap()
        .as_millis() as i64;
    let item = Article {
        title: "Test Article".to_string(),
        url: "https://example.com/article".to_string(),
        pub_date: now,
        description: "Test description".to_string(),
        image_url: "https://example.com/image.jpg".to_string(),
    };

    assert!(!item.title.is_empty());
    assert!(!item.url.is_empty());
    assert!(!item.description.is_empty());
}

#[test]
fn parse_keeps_document_order_and_count() {
    let body = rss(&format!(
        "{}{}{}",
        rss_item("A", "Thu, 24 Oct 2024 10:00:00 +0000", ""),
        rss_item("B", "Fri, 25 Oct 2024 10:00:00 +0000", r#"<media:content url="https://m/1.jpg" /><media:content url="https://m/2.jpg" />"#),
        rss_item("C", "bad date", "")
    ));
    let items = parse_feed(&body).unwrap();
    let titles: Vec<Option<&str>> = items.iter().map(|i| i.title.as_deref()).collect();
    assert_eq!(titles, vec![Some("A"), Some("B"), Some("C")]);
    assert_eq!(
        items[1].media_content,
        vec![Some("https://m/1.jpg".to_string()), Some("https://m/2.jpg".to_string())]
    );
    assert_eq!(items[2].pub_date.as_deref(), Some("bad date"));
    assert!(items[0].enclosure.is_none());
}
