use feed_parrot::time::Instant;
use feed_parrot::config::Config;
use feed_parrot::db::{content_hash, posted_items_key, posts_key, services_from_rows, specific_services, Feed};
use feed_parrot::mastodon::models::{parse_created_at, parse_status_id, Account, MediaAttachment, Reblog, Status, Visibility};
use feed_parrot::models::Service;

#[test]
fn service_numbers_round_trip() {
    for s in [Service::Mastodon, Service::Twitter] {
        assert_eq!(Service::try_from(s.number()).ok(), Some(s));
    }
    assert_eq!(Service::Mastodon.number(), 1);
    assert_eq!(Service::Twitter.number(), 2);
    assert_eq!(Service::try_from(0).err().map(|e| e.0), Some("invalid service number".to_string()));
    assert_eq!(Service::try_from(3).err().map(|e| e.0), Some("invalid service number".to_string()));
}

#[test]
fn service_names() {
    assert_eq!("mastodon".parse::<Service>().ok(), Some(Service::Mastodon));
    assert_eq!(Service::from_str("twitter").ok(), Some(Service::Twitter));
    assert_eq!(Service::from_str("Mastodon").err().map(|e| e.0), Some("'Mastodon' is not a known service".to_string()));
    assert_eq!(Service::Mastodon.to_display_string(), "Mastodon");
    assert_eq!(Service::Twitter.to_display_string(), "Twitter");
}

#[test]
fn visibility_names() {
    assert_eq!(Visibility::from_str("public").ok(), Some(Visibility::Public));
    assert_eq!("unlisted".parse::<Visibility>().ok(), Some(Visibility::Unlisted));
    assert_eq!(Visibility::from_str("private").ok(), Some(Visibility::Private));
    assert_eq!(Visibility::from_str("direct").ok(), Some(Visibility::Direct));
    assert_eq!(Visibility::from_str("all").err().map(|e| e.0), Some("'all' is not a known visibility".to_string()));
}

#[test]
fn keys() {
    assert_eq!(posts_key(Service::Mastodon, "hello"), (1, content_hash("hello")));
    assert_eq!(content_hash("hello"), *blake3::hash(b"hello").as_bytes());
    assert_eq!(posted_items_key(Service::Twitter, "guid"), (2, "guid".to_string()));
}

#[test]
fn unseen_feed() {
    let f = Feed::unseen("https://example.com/");
    assert_eq!(f.url, "https://example.com/");
    assert!(f.etag.is_none() && f.last_modified.is_none() && f.last_refresh_hash.is_none());
    assert!(!f.had_initial_sync);
}

#[test]
fn rows_to_services() {
    let rows = vec![(1u8, vec![1, 2]), (2u8, vec![3])];
    let services = services_from_rows(rows).ok().unwrap();
    assert_eq!(services.len(), 2);
    assert_eq!(services[0].service, Service::Mastodon);
    assert_eq!(services[0].data, vec![1, 2]);
    assert_eq!(services[1].service, Service::Twitter);
    let bad = vec![(1u8, vec![]), (9u8, vec![])];
    assert_eq!(services_from_rows(bad).err().map(|e| e.0), Some("invalid service number".to_string()));
}

#[test]
fn specific_services_report_the_missing_one() {
    let specified = vec![Service::Mastodon, Service::Twitter];
    let found = specific_services(&specified, vec![Some(vec![5]), Some(vec![6])]).ok().unwrap();
    assert_eq!(found[1].data, vec![6]);
    let missing = specific_services(&specified, vec![Some(vec![5]), None]);
    assert_eq!(missing.err().map(|e| e.0), Some("Twitter is not configured".to_string()));
}

#[test]
fn status_fields() {
    assert_eq!(parse_status_id("109876543210"), Some(109876543210));
    assert_eq!(parse_status_id("12a"), None);
    assert_eq!(parse_created_at("2015-02-18T23:16:09.000Z"), Some(Instant { secs: 1424301369, nanos: 0 }));
    assert_eq!(
        parse_created_at("2015-02-18T23:16:09.25+01:00"),
        Some(Instant { secs: 1424297769, nanos: 250000000 })
    );
    assert_eq!(parse_created_at("yesterday"), None);
}

#[test]
fn config_write_needs_a_path() {
    let config = Config::new(
        "id".to_string(),
        "secret".to_string(),
        "https://mastodon.example".to_string(),
        "token".to_string(),
        "archive".to_string(),
    );
    assert_eq!(config.write().err().map(|e| e.0), Some("unable to write config without a path".to_string()));
    assert_eq!(config.path(), None);
    let mut created = Config::create("/tmp/config.toml".to_string(), config);
    assert_eq!(created.write().ok(), Some("/tmp/config.toml"));
    assert_eq!(created.client_id(), "id");
    assert_eq!(created.instance(), "https://mastodon.example");
    assert_eq!(created.last_seen_id(), None);
    created.set_last_seen_id(Some("42".to_string()));
    assert_eq!(created.last_seen_id(), Some("42"));
    assert_eq!(created.archive_path(), "archive");
}

#[test]
fn status_content_and_media() {
    let mut status = Status {
        id: 1,
        content: "own".to_string(),
        account: Account { acct: "me".to_string() },
        media_attachments: vec![
            MediaAttachment { description: Some("a cat".to_string()) },
            MediaAttachment { description: None },
            MediaAttachment { description: Some("a dog".to_string()) },
        ],
        reblog: None,
        created_at: Instant { secs: 0, nanos: 0 },
    };
    assert_eq!(status.content(), "own");
    assert_eq!(status.media_descriptions(), vec!["a cat", "a dog"]);
    status.reblog = Some(Reblog { content: "boosted".to_string() });
    assert_eq!(status.content(), "boosted");
}
