use feed_parrot::time::Instant;
use feed_parrot::feed::{
    choose_atom_link, trim, AtomCategory, AtomEntry, AtomFeed, AtomLink, NewFeedItem, ParsedFeed, RssCategory,
    RssChannel, RssGuid, RssItem, TryFromRssItemError,
};
use feed_parrot::json_feed::{Author, Item, JsonFeed};

fn link(href: &str, rel: &str, mime_type: Option<&str>) -> AtomLink {
    AtomLink { href: href.to_string(), rel: rel.to_string(), mime_type: mime_type.map(|m| m.to_string()) }
}

#[test]
fn choose_atom_link_no_attrs() {
    let links = &[link("https://www.example.com", "alternate", None)];
    assert_eq!(choose_atom_link(links).unwrap(), "https://www.example.com");
}

#[test]
fn choose_atom_link_type() {
    let links = &[link("https://www.example.com", "alternate", Some("text/html; charset=utf-8"))];
    assert_eq!(choose_atom_link(links).unwrap(), "https://www.example.com");
}

#[test]
fn choose_atom_link_multiple() {
    let links = &[
        link("https://www.example.com/related", "related", None),
        link("https://www.example.com/feed", "alternate", Some("application/atom+xml")),
        link("https://www.example.com", "alternate", Some("text/html; charset=utf-8")),
    ];
    assert_eq!(choose_atom_link(links).unwrap(), "https://www.example.com");
}

#[test]
fn choose_atom_link_unviable() {
    let links = &[
        link("https://www.example.com/related", "related", None),
        link("https://www.example.com/feed", "alternate", Some("application/atom+xml")),
    ];
    assert_eq!(choose_atom_link(links), None);
}

#[test]
fn choose_atom_link_skips_unparsable_type() {
    let links = &[
        link("https://www.example.com/bad", "alternate", Some("not a media type")),
        link("https://www.example.com", "alternate", Some("TEXT/HTML")),
    ];
    assert_eq!(choose_atom_link(links).unwrap(), "https://www.example.com");
}

fn rss_item(guid: Option<&str>, categories: Vec<RssCategory>, pub_date: Option<&str>) -> RssItem {
    RssItem {
        guid: guid.map(|g| RssGuid { value: g.to_string(), permalink: true }),
        link: Some("https://example.com/post".to_string()),
        title: Some("Title".to_string()),
        author: None,
        description: Some("Summary".to_string()),
        content: None,
        categories,
        pub_date: pub_date.map(|d| d.to_string()),
    }
}

#[test]
fn rss_item_without_guid_is_refused() {
    let item = rss_item(None, vec![], None);
    assert!(matches!(NewFeedItem::try_from_rss_item(&item), Err(TryFromRssItemError::NoGuid)));
}

#[test]
fn rss_item_keeps_categories_without_domain() {
    let categories = vec![
        RssCategory { name: "rust".to_string(), domain: None },
        RssCategory { name: "hidden".to_string(), domain: Some("example.com".to_string()) },
        RssCategory { name: "verus".to_string(), domain: None },
    ];
    let item = rss_item(Some("id-1"), categories, Some("Wed, 18 Feb 2015 23:16:09 GMT"));
    let feed_item = NewFeedItem::try_from_rss_item(&item).ok().unwrap();
    assert_eq!(feed_item.guid, "id-1");
    assert_eq!(feed_item.tags, vec!["rust".to_string(), "verus".to_string()]);
    assert_eq!(feed_item.date_published, Some(Instant { secs: 1424301369, nanos: 0 }));
    assert_eq!(feed_item.date_modified, None);
    assert_eq!(feed_item.summary.as_deref(), Some("Summary"));
}

#[test]
fn rss_item_with_bad_date_has_none() {
    let item = rss_item(Some("id-2"), vec![], Some("yesterday"));
    let feed_item = NewFeedItem::try_from_rss_item(&item).ok().unwrap();
    assert_eq!(feed_item.date_published, None);
}

#[test]
fn rss_items_without_guid_are_skipped() {
    let channel = RssChannel {
        title: "  A channel \n".to_string(),
        description: "About".to_string(),
        items: vec![rss_item(Some("a"), vec![], None), rss_item(None, vec![], None), rss_item(Some("c"), vec![], None)],
    };
    let feed = ParsedFeed::Rss(channel);
    let guids: Vec<String> = feed.items().into_iter().map(|i| i.guid).collect();
    assert_eq!(guids, vec!["a".to_string(), "c".to_string()]);
    assert_eq!(feed.item_count(), 3);
    assert_eq!(feed.title(), "A channel");
    assert_eq!(feed.description(), Some("About"));
}

#[test]
fn atom_entry_to_item() {
    let entry = AtomEntry {
        id: "urn:1".to_string(),
        title: "Hello".to_string(),
        authors: vec!["Ann".to_string(), "Bob".to_string()],
        links: vec![link("https://example.com/1", "alternate", None)],
        summary: None,
        content: Some("<p>Body</p>".to_string()),
        categories: vec![
            AtomCategory { term: "one".to_string(), scheme: None },
            AtomCategory { term: "two".to_string(), scheme: Some("s".to_string()) },
        ],
        published: Some(Instant { secs: 100, nanos: 5 }),
        updated: Instant { secs: 200, nanos: 0 },
    };
    let item = NewFeedItem::from_atom_entry(&entry);
    assert_eq!(item.guid, "urn:1");
    assert_eq!(item.url.as_deref(), Some("https://example.com/1"));
    assert_eq!(item.title.as_deref(), Some("Hello"));
    assert_eq!(item.author.as_deref(), Some("Ann,Bob"));
    assert_eq!(item.content.as_deref(), Some("<p>Body</p>"));
    assert_eq!(item.tags, vec!["one".to_string()]);
    assert_eq!(item.date_published, Some(Instant { secs: 100, nanos: 5 }));
    assert_eq!(item.date_modified, Some(Instant { secs: 200, nanos: 0 }));

    let feed = ParsedFeed::Atom(AtomFeed { title: "T".to_string(), subtitle: None, entries: vec![entry] });
    assert_eq!(feed.items().len(), 1);
    assert_eq!(feed.description(), None);
}

#[test]
fn atom_entry_without_authors_has_no_author() {
    let entry = AtomEntry {
        id: "urn:2".to_string(),
        title: "Hello".to_string(),
        authors: vec![],
        links: vec![],
        summary: Some("S".to_string()),
        content: None,
        categories: vec![],
        published: None,
        updated: Instant { secs: 0, nanos: 0 },
    };
    let item = NewFeedItem::from_atom_entry(&entry);
    assert_eq!(item.author, None);
    assert_eq!(item.url, None);
}

fn json_item(id: &str) -> Item {
    Item {
        id: id.to_string(),
        url: Some("https://example.com/j".to_string()),
        title: None,
        content_html: Some("<b>x</b>".to_string()),
        content_text: Some("x".to_string()),
        summary: None,
        image: None,
        date_published: Some("Wed, 18 Feb 2015 23:16:09 GMT".to_string()),
        date_modified: None,
        author: Some(Author { name: Some("Jay".to_string()), url: None, avatar: None }),
        tags: vec!["t".to_string()],
        attachments: vec![],
    }
}

#[test]
fn json_item_to_item() {
    let item = NewFeedItem::from_json_item(&json_item("j1"));
    assert_eq!(item.guid, "j1");
    assert_eq!(item.author.as_deref(), Some("Jay"));
    assert_eq!(item.content.as_deref(), Some("<b>x</b>"));
    assert_eq!(item.tags, vec!["t".to_string()]);
    assert_eq!(item.date_published, Some(Instant { secs: 1424301369, nanos: 0 }));
    assert_eq!(item.date_modified, None);
}

#[test]
fn json_feed_items_in_order() {
    let feed = JsonFeed {
        version: "https://jsonfeed.org/version/1".to_string(),
        title: "J".to_string(),
        home_page_url: None,
        feed_url: None,
        description: Some("D".to_string()),
        user_comment: None,
        next_url: None,
        icon: None,
        favicon: None,
        author: None,
        expired: None,
        items: vec![json_item("x"), json_item("y")],
    };
    let feed = ParsedFeed::Json(feed);
    let guids: Vec<String> = feed.items().into_iter().map(|i| i.guid).collect();
    assert_eq!(guids, vec!["x".to_string(), "y".to_string()]);
    assert_eq!(feed.description(), Some("D"));
}

#[test]
fn trim_both_ends() {
    assert_eq!(trim("  a b \u{00A0}\n"), "a b");
    assert_eq!(trim(" \t "), "");
    assert_eq!(trim("x"), "x");
}

#[test]
fn guid_of_item() {
    let item = NewFeedItem::try_from_rss_item(&rss_item(Some("g"), vec![], None)).ok().unwrap();
    assert_eq!(item.guid().as_str(), "g");
}
