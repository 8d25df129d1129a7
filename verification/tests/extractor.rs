use feed_parrot::mastodon::extractor::{detect_entities, detect_mentions, domain_too_long, Mention, RegexError};

fn collect_mentions(found: Option<Vec<Result<Mention, RegexError>>>) -> Vec<String> {
    match found {
        None => Vec::new(),
        Some(list) => list.into_iter().map(|mention| mention.map(|m| m.as_str().to_string()).unwrap()).collect(),
    }
}

#[test]
fn test_detect_mentions() {
    assert_eq!(collect_mentions(detect_mentions("@wezm")), &["@wezm".to_string()]);
    assert_eq!(collect_mentions(detect_mentions("some @wezm")), &["@wezm".to_string()]);
    assert_eq!(collect_mentions(detect_mentions("some @wezm.")), &["@wezm".to_string()]);
    assert_eq!(
        collect_mentions(detect_mentions("some @wezm@mastodon.decentralied.social.")),
        &["@wezm@mastodon.decentralied.social".to_string()]
    );
    assert_eq!(
        collect_mentions(detect_mentions("@one @two @three ok")),
        &["@one".to_string(), "@two".to_string(), "@three".to_string()]
    );
    assert_eq!(collect_mentions(detect_mentions("test @test@wòw.com ok")), &["@test@wòw.com".to_string()]);
    assert_eq!(collect_mentions(detect_mentions("test @Test@Wòw.Com ok")), &["@Test@Wòw.Com".to_string()]);
    assert_eq!(collect_mentions(detect_mentions("An email: test@example.com")), Vec::<String>::new());
    assert_eq!(collect_mentions(detect_mentions("An email: @user@")), Vec::<String>::new());
    assert_eq!(collect_mentions(detect_mentions("")), Vec::<String>::new());
    assert_eq!(
        collect_mentions(detect_mentions("@test@example-domain.com.au")),
        &["@test@example-domain.com.au".to_string()]
    );
}

#[test]
fn test_detect_mentions_after() {
    assert_eq!(collect_mentions(detect_mentions("@user@")), Vec::<String>::new());
    assert_eq!(collect_mentions(detect_mentions("@café")), Vec::<String>::new());
}

#[test]
fn extract_username_and_domain() {
    let mentions = detect_mentions("some @one @two@example.com ").unwrap().into_iter().collect::<Result<Vec<_>, _>>().unwrap();
    assert_eq!(mentions[0].username(), "one");
    assert_eq!(mentions[0].domain(), None);

    assert_eq!(mentions[1].username(), "two");
    assert_eq!(mentions[1].domain(), Some("example.com"));
}

#[test]
fn mention_spans_are_byte_offsets() {
    let mentions = detect_mentions("é @one").unwrap().into_iter().collect::<Result<Vec<_>, _>>().unwrap();
    assert_eq!(mentions.len(), 1);
    assert_eq!(mentions[0].start(), 3);
    assert_eq!(mentions[0].end(), 7);
}

#[test]
fn no_at_sign_gives_none() {
    assert!(detect_mentions("no mentions here").is_none());
}

#[test]
fn long_domains_are_not_mentions() {
    let domain = "a".repeat(254);
    let text = format!("@user@{}", domain);
    assert_eq!(collect_mentions(detect_mentions(&text)), Vec::<String>::new());
    assert!(domain_too_long(Some(&domain)));
    assert!(!domain_too_long(Some(&"a".repeat(253))));
    assert!(!domain_too_long(None));
}

#[test]
fn entities_are_ordered_by_start() {
    let text = "@a https://x.org/ @b";
    let es = detect_entities(text).unwrap();
    let starts: Vec<usize> = es.iter().map(|e| e.start()).collect();
    assert_eq!(starts, vec![0, 3, 18]);
}
