use jil_im::state::store::{LinkStore, RankKey};
use jil_im::state::{Link, State, Timestamp};

fn link(shortname: &str, longurl: &str, secs: i64, clicks: usize) -> Link {
    Link {
        shortname: shortname.to_string(),
        longurl: longurl.to_string(),
        created_at: Timestamp { secs, nanos: 0 },
        clicks,
    }
}

fn names(links: &[Link]) -> Vec<String> {
    links.iter().map(|l| l.shortname.clone()).collect()
}

#[test]
fn insert_then_get_reads_back_the_link() {
    let mut store = LinkStore::new();
    store.insert(link("foo", "https://example.com", 10, 3));
    store.insert(link("bar", "https://example.org", 20, 0));
    let got = store.get("foo").unwrap();
    assert_eq!(got.longurl, "https://example.com");
    assert_eq!(got.clicks, 3);
    assert_eq!(store.get("bar").unwrap().longurl, "https://example.org");
    assert!(store.get("baz").is_none());
}

#[test]
fn insert_replaces_the_link_with_the_same_shortname() {
    let mut store = LinkStore::new();
    store.insert(link("foo", "https://one.example", 10, 3));
    store.insert(link("foo", "https://two.example", 11, 0));
    assert_eq!(store.get("foo").unwrap().longurl, "https://two.example");
    assert_eq!(store.values().len(), 1);
}

#[test]
fn remove_drops_only_that_link() {
    let mut store = LinkStore::new();
    store.insert(link("foo", "https://example.com", 10, 0));
    store.insert(link("bar", "https://example.org", 20, 0));
    store.remove("foo");
    assert!(store.get("foo").is_none());
    assert!(store.get("bar").is_some());
    store.remove("missing");
    assert_eq!(store.values().len(), 1);
}

#[test]
fn record_click_counts_one_visit() {
    let mut store = LinkStore::new();
    store.insert(link("foo", "https://example.com", 10, 41));
    store.insert(link("bar", "https://example.org", 20, 7));
    store.record_click("foo");
    assert_eq!(store.get("foo").unwrap().clicks, 42);
    assert_eq!(store.get("bar").unwrap().clicks, 7);
    store.record_click("missing");
    assert!(store.get("missing").is_none());
}

#[test]
fn lookup_longurl_reads_the_url() {
    let mut store = LinkStore::new();
    store.insert(link("foo", "https://example.com", 10, 0));
    assert_eq!(store.lookup_longurl("foo"), Some("https://example.com".to_string()));
    assert_eq!(store.lookup_longurl("bar"), None);
}

#[test]
fn insert_all_keeps_the_last_of_a_shortname() {
    let mut store = LinkStore::new();
    store.insert(link("old", "https://old.example", 1, 0));
    let items = vec![
        link("a", "https://a1.example", 2, 0),
        link("b", "https://b.example", 3, 0),
        link("a", "https://a2.example", 4, 5),
    ];
    store.insert_all(&items);
    assert_eq!(store.get("a").unwrap().longurl, "https://a2.example");
    assert_eq!(store.get("a").unwrap().clicks, 5);
    assert_eq!(store.get("b").unwrap().longurl, "https://b.example");
    assert_eq!(store.get("old").unwrap().longurl, "https://old.example");
    assert_eq!(store.values().len(), 3);
}

#[test]
fn values_lists_every_link_once() {
    let mut store = LinkStore::new();
    for (i, n) in ["a", "b", "c", "b"].iter().enumerate() {
        store.insert(link(n, "https://example.com", i as i64, 0));
    }
    let mut got = names(&store.values());
    got.sort();
    assert_eq!(got, vec!["a", "b", "c"]);
}

#[test]
fn top_lists_the_newest_first() {
    let mut store = LinkStore::new();
    for (n, secs) in [("a", 5), ("b", 1), ("c", 7), ("d", 3), ("e", 9), ("f", 2), ("g", 8)] {
        store.insert(link(n, "https://example.com", secs, 0));
    }
    let top = store.top(RankKey::CreatedAt, 5);
    assert_eq!(names(&top), vec!["e", "g", "c", "a", "d"]);
}

#[test]
fn top_orders_by_nanoseconds_within_a_second() {
    let mut store = LinkStore::new();
    let mut a = link("a", "https://example.com", 5, 0);
    a.created_at.nanos = 10;
    let mut b = link("b", "https://example.com", 5, 0);
    b.created_at.nanos = 20;
    store.insert(a);
    store.insert(b);
    assert_eq!(names(&store.top(RankKey::CreatedAt, 5)), vec!["b", "a"]);
}

#[test]
fn top_lists_the_most_visited_first() {
    let mut store = LinkStore::new();
    for (n, clicks) in [("a", 5), ("b", 100), ("c", 0), ("d", 6), ("e", 99), ("f", 1)] {
        store.insert(link(n, "https://example.com", 0, clicks));
    }
    let top = store.top(RankKey::Clicks, 5);
    assert_eq!(names(&top), vec!["b", "e", "d", "a", "f"]);
}

#[test]
fn top_of_a_small_store_lists_everything() {
    let mut store = LinkStore::new();
    store.insert(link("a", "https://example.com", 1, 0));
    store.insert(link("b", "https://example.com", 2, 0));
    assert_eq!(names(&store.top(RankKey::CreatedAt, 5)), vec!["b", "a"]);
    assert!(store.top(RankKey::CreatedAt, 0).is_empty());
    assert!(LinkStore::new().top(RankKey::Clicks, 5).is_empty());
}

#[test]
fn ranked_lists_every_link_newest_first() {
    let mut state = State::new();
    let items: Vec<Link> = [("a", 5), ("b", 1), ("c", 7), ("d", 3), ("e", 9), ("f", 2), ("g", 8)]
        .iter()
        .map(|(n, secs)| link(n, "https://example.com", *secs, 0))
        .collect();
    state.load(&items, "pw").unwrap();
    assert_eq!(names(&state.links_newest_first()), vec!["e", "g", "c", "a", "d", "f", "b"]);
    assert_eq!(names(&state.recent_links()), vec!["e", "g", "c", "a", "d"]);
}

#[test]
fn popular_links_of_the_state() {
    let mut state = State::default();
    let items: Vec<Link> = [("a", 3), ("b", 9), ("c", 1)]
        .iter()
        .map(|(n, clicks)| link(n, "https://example.com", 0, *clicks))
        .collect();
    state.load(&items, "pw").unwrap();
    assert_eq!(names(&state.popular_links()), vec!["b", "a", "c"]);
}

#[test]
fn links_to_sync_lists_every_link() {
    let mut state = State::new();
    state.load(&vec![link("a", "https://example.com", 0, 1), link("b", "https://example.com", 0, 2)], "pw").unwrap();
    let mut got = names(&state.links_to_sync());
    got.sort();
    assert_eq!(got, vec!["a", "b"]);
}

#[test]
fn link_clone_keeps_every_field() {
    let l = link("a", "https://example.com", 12, 4);
    let c = l.clone();
    assert_eq!(c.shortname, "a");
    assert_eq!(c.longurl, "https://example.com");
    assert_eq!(c.created_at, Timestamp { secs: 12, nanos: 0 });
    assert_eq!(c.clicks, 4);
}

#[test]
fn timestamps_compare_by_seconds_then_nanoseconds() {
    let a = Timestamp { secs: 1, nanos: 5 };
    let b = Timestamp { secs: 1, nanos: 6 };
    let c = Timestamp { secs: 2, nanos: 0 };
    assert!(a.is_not_after(&b));
    assert!(!b.is_not_after(&a));
    assert!(b.is_not_after(&c));
    assert!(a.is_not_after(&a));
}

#[test]
fn top_has_min_of_n_and_the_store_size() {
    let mut store = LinkStore::new();
    assert_eq!(store.len(), 0);
    for (i, n) in ["a", "b", "c", "d", "e", "f", "g"].iter().enumerate() {
        store.insert(link(n, "https://example.com", i as i64, i));
        assert_eq!(store.len(), i + 1);
        assert_eq!(store.top(RankKey::Clicks, 5).len(), std::cmp::min(5, i + 1));
        assert_eq!(store.ranked(RankKey::CreatedAt).len(), i + 1);
    }
}
