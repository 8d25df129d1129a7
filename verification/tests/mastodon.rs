use feed_parrot::time::Instant;
use chrono::DateTime;
use feed_parrot::feed::NewFeedItem;
use feed_parrot::mastodon::extractor::detect_entities;
use feed_parrot::mastodon::{assemble_text, calculate_length, replace_entities, skip_overlapping, toot_text_from_post};

const MAX_LEN: usize = 100;

fn published() -> Option<Instant> {
    let d = DateTime::parse_from_rfc2822("Wed, 18 Feb 2015 23:16:09 GMT").unwrap().to_utc();
    Some(Instant { secs: d.timestamp(), nanos: d.timestamp_subsec_nanos() })
}

#[test]
fn test_toot_text_from_post() {
    let mut item = NewFeedItem {
        guid: "text".to_string(),
        url: Some("https://example.com".to_string()),
        title: Some("This is the title of the post".to_string()),
        author: Some("Raymond Holt".to_string()),
        summary: Some("This is the summary of the post".to_string()),
        content: Some("This is the content of the post".to_string()),
        tags: vec!["tag1".to_string(), "tag2".to_string()],
        date_published: published(),
        date_modified: None,
    };

    // All fields
    let text = toot_text_from_post(&item, MAX_LEN).unwrap();
    assert_eq!(text, "This is the title of the post\nhttps://example.com\n\n#Tag1 #Tag2");

    // No tags
    item.tags = vec![];
    let text = toot_text_from_post(&item, MAX_LEN).unwrap();
    assert_eq!(text, "This is the title of the post\nhttps://example.com");

    // No tags; no URL
    item.url = None;
    let text = toot_text_from_post(&item, MAX_LEN).unwrap();
    assert_eq!(text, "This is the title of the post");

    // No URL
    item.tags = vec!["hello-world".to_string(), "spaces what".to_string(), "cookie-pizza".to_string()];
    let text = toot_text_from_post(&item, MAX_LEN).unwrap();
    assert_eq!(text, "This is the title of the post\n\n#HelloWorld #SpacesWhat #CookiePizza");

    // No title; no URL
    item.title = None;
    let text = toot_text_from_post(&item, MAX_LEN).unwrap();
    assert_eq!(text, "This is the summary of the post\n\n#HelloWorld #SpacesWhat #CookiePizza");

    // Not summary; no URL
    item.summary = None;
    let text = toot_text_from_post(&item, MAX_LEN);
    assert_eq!(text, None);

    // URL only
    item.url = Some("https://example.com/".to_string());
    item.tags = vec![];
    let text = toot_text_from_post(&item, MAX_LEN).unwrap();
    assert_eq!(text, "https://example.com/");
}

#[test]
fn toot_text_from_long_post() {
    let item = NewFeedItem {
        guid: "text".to_string(),
        url: Some("https://example.com/this/is/a/very/long/url?but=it-only-counts-for-23-characters".to_string()),
        title: Some("This is the title of the post 👨‍👩‍👧‍👦. For some reason it's a really long title that is more than the limit allowed. It goes on and on. However URLs only count for 23 characters no matter how long they are.".to_string()),
        author: Some("Raymond Holt".to_string()),
        summary: Some("This is the summary of the post".to_string()),
        content: Some("This is the content of the post".to_string()),
        tags: vec!["tag1".to_string(), "tag2".to_string()],
        date_published: published(),
        date_modified: None,
    };

    let text = toot_text_from_post(&item, MAX_LEN).unwrap();
    assert_eq!(text, "This is the title of the post 👨\u{200d}👩\u{200d}👧\u{200d}👦. For some reason it's a really…\nhttps://example.com/this/is/a/very/long/url?but=it-only-counts-for-23-characters\n\n#Tag1 #Tag2");
}

#[test]
fn test_calculate_length() {
    assert_eq!(calculate_length("").unwrap(), 0);
    assert_eq!(calculate_length("Hello").unwrap(), 5);
    assert_eq!(calculate_length("👨‍👩‍👧‍👦").unwrap(), 1);
    assert_eq!(calculate_length("see https://www.example.com/a/very/long/path ok").unwrap(), 4 + 23 + 3);
    assert_eq!(calculate_length("hi @test@example.com").unwrap(), 3 + 5);
}

#[test]
fn test_replace_entities() {
    let input = "Hello @test@example.com here is a link https://www.example.com/ I found it on https://www.wezm.net/ and though you'd like it.";
    let entities = detect_entities(input).unwrap();
    let segments = replace_entities(input, &skip_overlapping(&entities));

    assert_eq!(
        segments,
        &[
            "Hello ",
            "@test",
            " here is a link ",
            "***********************",
            " I found it on ",
            "***********************",
            " and though you'd like it."
        ]
    );
}

#[test]
fn assemble_text_separators() {
    assert_eq!(assemble_text(Some("a"), Some("b"), Some("c")), "a\nb\n\nc");
    assert_eq!(assemble_text(None, Some("b"), Some("c")), "b\n\nc");
    assert_eq!(assemble_text(None, None, Some("c")), "c");
    assert_eq!(assemble_text(Some(""), Some("b"), None), "b");
    assert_eq!(assemble_text(None, None, None), "");
}

#[test]
fn too_long_without_content_is_none() {
    let item = NewFeedItem {
        guid: "g".to_string(),
        url: Some("https://example.com".to_string()),
        title: None,
        author: None,
        summary: None,
        content: None,
        tags: vec!["a".repeat(200)],
        date_published: None,
        date_modified: None,
    };
    assert_eq!(toot_text_from_post(&item, MAX_LEN), None);
}
