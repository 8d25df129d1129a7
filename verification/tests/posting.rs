use feed_parrot::time::Instant;
use feed_parrot::db::{already_posted_from, content_hash};
use feed_parrot::delay::{env_var_error, EnvVarProblem};
use feed_parrot::feed::NewFeedItem;
use feed_parrot::mastodon::models::{MastodonState, Visibility};
use feed_parrot::mastodon::{app_credentials, auth_code, authorize_url, error_message, scopes, Mastodon, MAX_LEN};
use feed_parrot::models::Service;
use feed_parrot::social_network::{
    image_file_name, stem_and_extension, temp_file_name, AccessMode, AlreadyPosted, DatabaseError, FetchedImage, Posted, RmOnDrop,
    ValidationResult,
};

fn item(guid: &str, title: Option<&str>, url: Option<&str>) -> NewFeedItem {
    NewFeedItem {
        guid: guid.to_string(),
        url: url.map(|u| u.to_string()),
        title: title.map(|t| t.to_string()),
        author: None,
        summary: None,
        content: None,
        tags: vec![],
        date_published: None,
        date_modified: None,
    }
}

fn mastodon(access_mode: AccessMode) -> Mastodon {
    Mastodon {
        access_mode,
        post_visibility: Visibility::Unlisted,
        state: MastodonState {
            client_id: "id".to_string(),
            client_secret: "secret".to_string(),
            instance: "https://mastodon.example/".to_string(),
            access_token: "token".to_string(),
        },
    }
}

#[test]
fn prepare_and_validate_a_post() {
    let m = mastodon(AccessMode::ReadWrite);
    assert_eq!(m.service(), Service::Mastodon);
    assert!(m.is_writeable());
    let post = m.prepare_post(&item("g1", Some("Title"), Some("https://example.com"))).ok().unwrap();
    assert_eq!(post.text, "Title\nhttps://example.com");
    assert_eq!(post.guid.as_str(), "g1");

    let hash = content_hash(&post.text);
    let posted = already_posted_from(false, &post.text);
    let ready = match post.validate(Ok(posted)) {
        ValidationResult::Ready(r) => r,
        _ => panic!("not posted before"),
    };
    assert_eq!(ready.text(), "Title\nhttps://example.com");
    assert_eq!(ready.hash(), hash);

    let status = m.status_for(&ready).unwrap();
    assert_eq!(status.status, "Title\nhttps://example.com");
    assert_eq!(status.visibility, Visibility::Unlisted);
    assert!(status.media_ids.is_empty() && !status.sensitive);

    let done = Posted::from_ready(ready, Instant { secs: 1700000000, nanos: 7 });
    assert_eq!(done.at, Instant { secs: 1700000000, nanos: 7 });
    assert_eq!(done.guid.as_str(), "g1");
    assert_eq!(done.hash, hash);
}

#[test]
fn duplicate_and_failed_validation() {
    let m = mastodon(AccessMode::ReadOnly);
    let post = m.prepare_post(&item("g2", Some("T"), None)).ok().unwrap();
    assert!(matches!(already_posted_from(true, "T"), AlreadyPosted::Yes));
    match post.validate(Ok(AlreadyPosted::Yes)) {
        ValidationResult::Duplicate(p) => assert_eq!(p.text, "T"),
        _ => panic!("posted before"),
    }
    let post = m.prepare_post(&item("g3", Some("T"), None)).ok().unwrap();
    match post.validate(Err(DatabaseError("disk".to_string()))) {
        ValidationResult::Error(e) => assert_eq!(e.0, "disk"),
        _ => panic!("database failed"),
    }
}

#[test]
fn dry_run_sends_nothing() {
    let m = mastodon(AccessMode::ReadOnly);
    assert!(!m.is_writeable());
    let post = m.prepare_post(&item("g4", Some("T"), None)).ok().unwrap();
    let ready = match post.validate(Ok(AlreadyPosted::No([0u8; 32]))) {
        ValidationResult::Ready(r) => r,
        _ => panic!("ready"),
    };
    assert!(m.status_for(&ready).is_none());
}

#[test]
fn item_without_content_or_link_cannot_be_posted() {
    let m = mastodon(AccessMode::ReadWrite);
    match m.prepare_post(&item("nothing", None, None)) {
        Err(e) => assert_eq!(
            e.0,
            "Unable to compose toot for NewFeedItem { guid: \"nothing\", url: None, title: None, author: None, \
             summary: None, content: None, tags: [], date_published: None, date_modified: None }"
        ),
        Ok(_) => panic!("nothing to post"),
    }
    assert_eq!(MAX_LEN, 500);
}

#[test]
fn oauth_scopes() {
    assert_eq!(scopes(None), "write:statuses write:media read:accounts");
    let with_profile = vec!["read".to_string(), "profile".to_string()];
    assert_eq!(scopes(Some(&with_profile)), "write:statuses write:media profile");
    let without = vec!["read".to_string()];
    assert_eq!(scopes(Some(&without)), "write:statuses write:media read:accounts");
}

#[test]
fn oauth_answers() {
    assert_eq!(error_message("invalid_grant", Some("expired")), "invalid_grant: expired");
    assert_eq!(error_message("invalid_grant", None), "invalid_grant");
    assert_eq!(auth_code("  abc123 \n").ok(), Some("abc123".to_string()));
    assert_eq!(auth_code(" \n").err().map(|e| e.0), Some("code is required".to_string()));
    assert_eq!(
        app_credentials(None, Some("s".to_string())).err().map(|e| e.0),
        Some("app response is missing client id".to_string())
    );
    assert_eq!(
        app_credentials(Some("i".to_string()), None).err().map(|e| e.0),
        Some("app response is missing client secret".to_string())
    );
    assert_eq!(
        app_credentials(Some("i".to_string()), Some("s".to_string())).ok(),
        Some(("i".to_string(), "s".to_string()))
    );
}

#[test]
fn env_var_messages() {
    assert_eq!(env_var_error("HOME", EnvVarProblem::NotPresent).0, "environment variable 'HOME' is not set");
    assert_eq!(env_var_error("X", EnvVarProblem::NotUnicode).0, "environment variable 'X' is not valid UTF-8");
}

#[test]
fn temp_file_names() {
    assert_eq!(temp_file_name(Some("photo.jpg"), 255), "photo-ff.jpg");
    assert_eq!(temp_file_name(Some("archive.tar.gz"), 16), "archive.tar-10.gz");
    assert_eq!(temp_file_name(Some(".hidden"), 1), ".hidden-1");
    assert_eq!(temp_file_name(Some("README"), 0), "README-0");
    assert_eq!(temp_file_name(Some(""), 0xabc), "feed-parrot-temp-file-abc");
    assert_eq!(temp_file_name(None, 0xabc), "feed-parrot-temp-file-abc");
    assert_eq!(stem_and_extension(".."), None);
    assert_eq!(stem_and_extension("a."), Some(("a".to_string(), Some("".to_string()))));
}

#[test]
fn fetched_image_path() {
    let file = RmOnDrop::new("/tmp/photo-ff.jpg".to_string());
    assert_eq!(file.path(), "/tmp/photo-ff.jpg");
    let image = FetchedImage::new(file, Some("image/jpeg".to_string()));
    assert_eq!(image.path(), "/tmp/photo-ff.jpg");
    assert_eq!(image.content_type.as_deref(), Some("image/jpeg"));
}

#[test]
fn image_file_names_from_urls() {
    assert_eq!(image_file_name("https://example.com/images/photo.jpg", 255).ok(), Some("photo-ff.jpg".to_string()));
    assert_eq!(image_file_name("https://example.com/", 255).ok(), Some("feed-parrot-temp-file-ff".to_string()));
    assert_eq!(image_file_name("mailto:someone@example.com", 1).err().map(|e| e.0), Some("no path segments".to_string()));
    assert_eq!(
        image_file_name("not a url", 1).err().map(|e| e.0),
        Some("relative URL without a base".to_string())
    );
}

#[test]
fn authorisation_page_url() {
    assert_eq!(
        authorize_url("https://mastodon.example/", "abc", "write:statuses write:media profile").unwrap(),
        "https://mastodon.example/oauth/authorize?response_type=code&client_id=abc\
         &redirect_uri=urn%3Aietf%3Awg%3Aoauth%3A2.0%3Aoob&scope=write%3Astatuses+write%3Amedia+profile"
    );
    assert_eq!(authorize_url("nowhere", "abc", "read"), None);
}
