use chrono::{DateTime, Utc};
use feed_parrot::time::Instant;

/// An item as it was held with chrono dates, to compare debug text with.
#[derive(Debug)]
struct NewFeedItem {
    guid: String,
    url: Option<String>,
    title: Option<String>,
    author: Option<String>,
    summary: Option<String>,
    content: Option<String>,
    tags: Vec<String>,
    date_published: Option<DateTime<Utc>>,
    date_modified: Option<DateTime<Utc>>,
}

fn instant(d: DateTime<Utc>) -> Instant {
    Instant { secs: d.timestamp(), nanos: d.timestamp_subsec_nanos() }
}

#[test]
fn item_debug_text_matches_derived_debug() {
    let published = DateTime::parse_from_rfc3339("2015-02-18T23:16:09.25Z").unwrap().to_utc();
    let modified = DateTime::parse_from_rfc2822("Wed, 18 Feb 2015 23:16:09 GMT").unwrap().to_utc();
    let reference = NewFeedItem {
        guid: "a \"quoted\" guid\n".to_string(),
        url: Some("https://example.com/é".to_string()),
        title: None,
        author: Some("Raymond\\Holt".to_string()),
        summary: Some("tab\there".to_string()),
        content: None,
        tags: vec!["one".to_string(), "two words".to_string()],
        date_published: Some(published),
        date_modified: Some(modified),
    };
    let item = feed_parrot::feed::NewFeedItem {
        guid: reference.guid.clone(),
        url: reference.url.clone(),
        title: None,
        author: reference.author.clone(),
        summary: reference.summary.clone(),
        content: None,
        tags: reference.tags.clone(),
        date_published: Some(instant(published)),
        date_modified: Some(instant(modified)),
    };
    assert_eq!(item.debug_text(), format!("{:?}", reference));
}

#[test]
fn item_debug_text_of_an_empty_item() {
    let item = feed_parrot::feed::NewFeedItem {
        guid: String::new(),
        url: None,
        title: None,
        author: None,
        summary: None,
        content: None,
        tags: vec![],
        date_published: None,
        date_modified: None,
    };
    assert_eq!(
        item.debug_text(),
        "NewFeedItem { guid: \"\", url: None, title: None, author: None, summary: None, content: None, tags: [], \
         date_published: None, date_modified: None }"
    );
}
