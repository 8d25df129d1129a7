use feed_parrot::time::Instant;
use feed_parrot::crawler::{
    conditional_headers, is_json, media_type_parts, parse_feed, status_decision, to_utf8, unchanged_by_hash, update_feed_cache_keys,
    BodyReader, ConditionalRequest, CrawlError, FeedParse, FetchError, HashedData, ProcessError, StatusDecision,
    MAX_RESPONSE_SIZE,
};
use feed_parrot::db::{hash_bytes, Feed};
use feed_parrot::feed::ParsedFeed;

#[test]
fn status_decisions() {
    assert_eq!(status_decision(304), StatusDecision::NotModified);
    assert_eq!(status_decision(200), StatusDecision::ReadBody);
    assert_eq!(status_decision(299), StatusDecision::ReadBody);
    assert_eq!(status_decision(301), StatusDecision::Unsuccessful);
    assert_eq!(status_decision(404), StatusDecision::Unsuccessful);
    assert_eq!(status_decision(199), StatusDecision::Unsuccessful);
}

#[test]
fn announced_body_too_big_is_refused() {
    assert!(matches!(BodyReader::start(Some(MAX_RESPONSE_SIZE + 1)), Err(FetchError::ResponseTooBig)));
    assert!(BodyReader::start(Some(MAX_RESPONSE_SIZE)).is_ok());
    assert!(BodyReader::start(None).is_ok());
}

#[test]
fn body_reader_keeps_the_limit() {
    let mut reader = BodyReader::start(None).ok().unwrap();
    assert!(reader.push_chunk(b"abc").is_ok());
    assert!(reader.push_chunk(b"de").is_ok());
    let big = vec![0u8; MAX_RESPONSE_SIZE as usize - 5];
    assert!(reader.push_chunk(&big).is_ok());
    assert!(matches!(reader.push_chunk(b"x"), Err(FetchError::ResponseTooBig)));
    let body = reader.into_body();
    assert_eq!(body.len() as u64, MAX_RESPONSE_SIZE);
    assert_eq!(&body[..5], b"abcde");
}

#[test]
fn hash_decides_unchanged() {
    let data = HashedData::new(b"feed body".to_vec());
    assert_eq!(data.data, b"feed body".to_vec());
    assert_eq!(data.hash, hash_bytes(b"feed body"));
    assert_ne!(data.hash, hash_bytes(b"feed body!"));
    assert!(unchanged_by_hash(ConditionalRequest::Enabled, Some(data.hash), &data.hash));
    assert!(!unchanged_by_hash(ConditionalRequest::Disabled, Some(data.hash), &data.hash));
    assert!(!unchanged_by_hash(ConditionalRequest::Enabled, None, &data.hash));
    assert!(!unchanged_by_hash(ConditionalRequest::Enabled, Some([0u8; 32]), &data.hash));
}

#[test]
fn conditional_headers_from_feed() {
    let mut feed = Feed::unseen("https://example.com/feed");
    let none = conditional_headers(ConditionalRequest::Enabled, &feed);
    assert_eq!(none.if_modified_since, None);
    assert_eq!(none.if_none_match, None);

    update_feed_cache_keys(&mut feed, Some("\"abc\""), Some("Wed, 18 Feb 2015 23:16:09 GMT"), Some([7u8; 32]));
    assert_eq!(feed.url, "https://example.com/feed");
    assert_eq!(feed.etag.as_deref(), Some("\"abc\""));
    assert_eq!(feed.last_modified, Some(Instant { secs: 1424301369, nanos: 0 }));
    assert_eq!(feed.last_refresh_hash, Some([7u8; 32]));

    let headers = conditional_headers(ConditionalRequest::Enabled, &feed);
    assert_eq!(headers.if_none_match.as_deref(), Some("\"abc\""));
    assert_eq!(headers.if_modified_since.as_deref(), Some("Wed, 18 Feb 2015 23:16:09 +0000"));

    let disabled = conditional_headers(ConditionalRequest::Disabled, &feed);
    assert_eq!(disabled.if_modified_since, None);
    assert_eq!(disabled.if_none_match, None);
}

#[test]
fn bad_last_modified_is_dropped() {
    let mut feed = Feed::unseen("u");
    update_feed_cache_keys(&mut feed, None, Some("not a date"), None);
    assert_eq!(feed.last_modified, None);
    assert_eq!(feed.etag, None);
}

#[test]
fn decodes_utf8() {
    let text = "<?xml version=\"1.0\" encoding=\"UTF-8\"?><rss>café</rss>".as_bytes().to_vec();
    assert_eq!(to_utf8(text, None).ok().unwrap(), "<?xml version=\"1.0\" encoding=\"UTF-8\"?><rss>café</rss>");
}

#[test]
fn decodes_windows_1252() {
    let mut text = b"<?xml version=\"1.0\" encoding=\"windows-1252\"?><rss>caf".to_vec();
    text.push(0xE9);
    text.extend_from_slice(b"</rss>");
    assert_eq!(
        to_utf8(text, None).ok().unwrap(),
        "<?xml version=\"1.0\" encoding=\"windows-1252\"?><rss>café</rss>"
    );
}

#[test]
fn invalid_utf8_is_read_lossily() {
    let mut text = b"<?xml version=\"1.0\" encoding=\"utf-8\"?><rss>".to_vec();
    text.push(0xFF);
    text.extend_from_slice(b"</rss>");
    assert_eq!(
        to_utf8(text, None).ok().unwrap(),
        "<?xml version=\"1.0\" encoding=\"utf-8\"?><rss>\u{FFFD}</rss>"
    );
}

#[test]
fn empty_body_has_unknown_encoding() {
    assert!(matches!(to_utf8(b"ab".to_vec(), None), Err(FetchError::UnknownEncoding)));
}

#[test]
fn json_detection() {
    assert!(is_json("  \n{\"version\": 1}"));
    assert!(!is_json("<rss/>"));
    assert!(!is_json("   "));
}

const RSS: &str = "<?xml version=\"1.0\"?><rss version=\"2.0\"><channel><title>R</title><link>https://example.com</link><description>D</description><item><guid>1</guid><title>One</title></item></channel></rss>";
const ATOM: &str = "<?xml version=\"1.0\"?><feed xmlns=\"http://www.w3.org/2005/Atom\"><title>A</title><id>urn:a</id><updated>2015-02-18T23:16:09Z</updated><entry><id>urn:e</id><title>E</title><updated>2015-02-18T23:16:09Z</updated><link href=\"https://example.com/e\"/></entry></feed>";

#[test]
fn parses_rss_and_atom_in_either_order() {
    for essence in [None, Some("application/atom+xml"), Some("application/rss+xml")] {
        match parse_feed(RSS, essence) {
            FeedParse::Xml(Ok(ParsedFeed::Rss(c))) => {
                assert_eq!(c.title, "R");
                assert_eq!(c.items.len(), 1);
            },
            other => panic!("not RSS: {:?}", other),
        }
        match parse_feed(ATOM, essence) {
            FeedParse::Xml(Ok(ParsedFeed::Atom(f))) => {
                assert_eq!(f.title, "A");
                assert_eq!(f.entries.len(), 1);
                assert_eq!(f.entries[0].links[0].rel, "alternate");
                assert_eq!(f.entries[0].updated, Instant { secs: 1424301369, nanos: 0 });
            },
            other => panic!("not Atom: {:?}", other),
        }
    }
}

#[test]
fn json_is_left_to_the_caller() {
    assert!(matches!(parse_feed(" {\"items\": []}", None), FeedParse::Json));
}

#[test]
fn unknown_format() {
    assert!(matches!(parse_feed("<html></html>", None), FeedParse::Xml(Err(ProcessError::UnknownFormat))));
}

#[test]
fn error_messages() {
    assert_eq!(FetchError::ResponseTooBig.to_display_string(), "fetch error: response too big");
    assert_eq!(FetchError::UnknownEncoding.to_display_string(), "fetch error: unknown encoding");
    assert_eq!(FetchError::Io("eof".to_string()).to_display_string(), "fetch error: i/o: eof");
    assert_eq!(FetchError::ResponseUnsuccessful(404).to_display_string(), "fetch error: 404 Not Found");
    assert_eq!(ProcessError::UnknownFormat.to_display_string(), "process error: unknown feed format");
    assert_eq!(ProcessError::Rss("bad".to_string()).to_display_string(), "process error: bad");
}

#[test]
fn media_type_of_response() {
    assert_eq!(
        media_type_parts(Some("Application/RSS+XML; charset=ISO-8859-1")),
        Some(("application/rss+xml".to_string(), Some("iso-8859-1".to_string())))
    );
    assert_eq!(media_type_parts(Some("text/xml")), Some(("text/xml".to_string(), None)));
    assert_eq!(media_type_parts(Some("not a media type")), None);
    assert_eq!(media_type_parts(None), None);
}

#[test]
fn crawl_error_messages() {
    assert_eq!(CrawlError::Database("locked".to_string()).to_display_string(), "locked");
    assert_eq!(
        CrawlError::Fetch(FetchError::Request("timed out".to_string())).to_display_string(),
        "fetch error: request: timed out"
    );
    assert_eq!(
        CrawlError::Process(ProcessError::UnknownFormat).to_display_string(),
        "process error: unknown feed format"
    );
}

#[test]
fn dates_rfc_2822_cannot_write_send_no_header() {
    let mut feed = Feed::unseen("u");
    feed.last_modified = Some(Instant { secs: 300000000000, nanos: 0 });
    let headers = conditional_headers(ConditionalRequest::Enabled, &feed);
    assert_eq!(headers.if_modified_since, None);
    feed.last_modified = Some(Instant { secs: -62167219201, nanos: 0 });
    assert_eq!(conditional_headers(ConditionalRequest::Enabled, &feed).if_modified_since, None);
    feed.last_modified = Some(Instant { secs: -62167219200, nanos: 0 });
    assert_eq!(
        conditional_headers(ConditionalRequest::Enabled, &feed).if_modified_since.as_deref(),
        Some("Sat, 1 Jan 0000 00:00:00 +0000")
    );
}
