use feed_parrot::time::Instant;
use feed_parrot::feed::NewFeedItem;
use feed_parrot::models::{Service, Services};
use feed_parrot::plan::{
    check_run, feed_step, list_kind, registration_service, select_new_items, services_filter, sort_dedup_urls,
    str_lt, wait_before_next, FeedStep, ListKind,
};
use feed_parrot::social_network::AccessMode;
use feed_parrot::twitter::Twitter;

fn at(secs: i64) -> Instant {
    Instant { secs, nanos: 0 }
}

fn item(guid: &str, date: Option<Instant>) -> NewFeedItem {
    NewFeedItem {
        guid: guid.to_string(),
        url: None,
        title: None,
        author: None,
        summary: None,
        content: None,
        tags: vec![],
        date_published: date,
        date_modified: None,
    }
}

fn strings(list: &[&str]) -> Vec<String> {
    list.iter().map(|s| s.to_string()).collect()
}

#[test]
fn urls_sorted_and_deduplicated() {
    let urls = strings(&["https://b.example/", "https://a.example/feed", "https://b.example/", "https://a.example/"]);
    assert_eq!(
        sort_dedup_urls(urls),
        strings(&["https://a.example/", "https://a.example/feed", "https://b.example/"])
    );
    assert_eq!(sort_dedup_urls(vec![]), Vec::<String>::new());
}

#[test]
fn url_order_matches_std() {
    let mut urls = strings(&["https://é.example/", "https://z.example/", "https://Z.example/", "https://z.example"]);
    let ours = sort_dedup_urls(urls.clone());
    urls.sort();
    urls.dedup();
    assert_eq!(ours, urls);
    assert!(str_lt("ab", "abc"));
    assert!(!str_lt("abc", "abc"));
    assert!(str_lt("Z", "a"));
}

#[test]
fn new_items_oldest_first_skipping_posted_and_future() {
    let items = vec![
        item("c", Some(at(30))),
        item("posted", Some(at(5))),
        item("a", Some(at(10))),
        item("future", Some(at(1000))),
        item("undated", None),
        item("b", Some(at(10))),
    ];
    let posted = vec![false, true, false, false, false, false];
    let chosen: Vec<String> = select_new_items(items, &posted, at(100)).into_iter().map(|i| i.guid).collect();
    assert_eq!(chosen, strings(&["undated", "a", "b", "c"]));
}

#[test]
fn sort_by_date_is_stable() {
    let items = vec![item("x", Some(at(2))), item("y", Some(at(1))), item("z", Some(at(2))), item("w", Some(at(1)))];
    let posted = vec![false; 4];
    let chosen: Vec<String> = select_new_items(items, &posted, at(10)).into_iter().map(|i| i.guid).collect();
    assert_eq!(chosen, strings(&["y", "w", "x", "z"]));
}

#[test]
fn future_post_is_strictly_after_now() {
    assert!(!item("now", Some(at(50))).is_future_post(at(50)));
    assert!(item("later", Some(at(51))).is_future_post(at(50)));
    assert!(!item("undated", None).is_future_post(at(50)));
}

#[test]
fn list_kinds() {
    assert_eq!(list_kind("feeds").ok(), Some(ListKind::Feeds));
    assert_eq!(list_kind("services").ok(), Some(ListKind::Services));
    match list_kind("posts") {
        Err(e) => assert_eq!(e.0, "unknown item type: posts. Valid types: feeds, services"),
        Ok(_) => panic!("posts is not a kind"),
    }
}

#[test]
fn registration_checks() {
    match registration_service(AccessMode::ReadOnly, &vec![Service::Mastodon]) {
        Err(e) => assert_eq!(e.0, "registration cannot be run in dry-run mode"),
        Ok(_) => panic!("dry run"),
    }
    assert_eq!(registration_service(AccessMode::ReadWrite, &vec![Service::Mastodon]).ok(), Some(Service::Mastodon));
    for services in [vec![], vec![Service::Mastodon, Service::Twitter]] {
        match registration_service(AccessMode::ReadWrite, &services) {
            Err(e) => assert_eq!(e.0, "exactly one service must be supplied with -s to register"),
            Ok(_) => panic!("not exactly one"),
        }
    }
}

#[test]
fn services_filter_all_when_none_named() {
    assert!(matches!(services_filter(vec![]), Services::All));
    match services_filter(vec![Service::Twitter]) {
        Services::Specific(v) => assert_eq!(v, vec![Service::Twitter]),
        Services::All => panic!("one was named"),
    }
}

#[test]
fn run_checks() {
    assert_eq!(check_run(0, 0).err().map(|e| e.0), Some("no configured services to post to".to_string()));
    assert_eq!(check_run(1, 0).err().map(|e| e.0), Some("no feeds URLs supplied".to_string()));
    assert!(check_run(1, 2).is_ok());
}

#[test]
fn feed_steps() {
    assert_eq!(feed_step(false, false), FeedStep::NoNewPosts);
    assert_eq!(feed_step(false, true), FeedStep::NoNewPosts);
    assert_eq!(feed_step(true, false), FeedStep::InitialSync);
    assert_eq!(feed_step(true, true), FeedStep::Announce);
}

#[test]
fn waits_only_between_real_posts() {
    assert!(wait_before_next(true, true));
    assert!(!wait_before_next(true, false));
    assert!(!wait_before_next(false, true));
    assert!(AccessMode::ReadWrite.saves_state());
    assert!(!AccessMode::ReadOnly.saves_state());
}

#[test]
fn twitter_is_disabled() {
    let t = Twitter;
    assert_eq!(t.service(), Service::Twitter);
    assert!(!t.is_writeable());
    assert_eq!(Twitter::register().err().map(|e| e.0), Some("Twitter support is not enabled".to_string()));
    assert_eq!(
        t.prepare_post(&item("g", None)).err().map(|e| e.0),
        Some("Twitter support is not enabled".to_string())
    );
}

#[test]
fn recorded_items_are_not_posted() {
    let items = vec![item("a", Some(at(1))), item("b", None), item("c", Some(at(3)))];
    let posted = vec![true, true, true];
    assert!(select_new_items(items, &posted, at(10)).is_empty());
}

#[test]
fn dates_within_a_second_are_ordered() {
    let early = Instant { secs: 7, nanos: 100 };
    let late = Instant { secs: 7, nanos: 900 };
    let items = vec![item("late", Some(late)), item("early", Some(early))];
    let chosen: Vec<String> = select_new_items(items, &vec![false, false], at(8)).into_iter().map(|i| i.guid).collect();
    assert_eq!(chosen, strings(&["early", "late"]));
    assert!(item("late", Some(late)).is_future_post(Instant { secs: 7, nanos: 500 }));
    assert!(!item("early", Some(early)).is_future_post(Instant { secs: 7, nanos: 500 }));
}
