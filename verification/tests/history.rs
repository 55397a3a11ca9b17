use surf::history::{HistoryEntry, RequestHistory};

fn entry(id: &str, method: &str, url: &str) -> HistoryEntry {
    HistoryEntry::with_identity(id.to_string(), 1_700_000_000, 5, method, url, vec![])
}

fn ids(entries: &[HistoryEntry]) -> Vec<String> {
    entries.iter().map(|e| e.id.clone()).collect()
}

#[test]
fn a_new_entry_is_unanswered() {
    let headers = vec![("A".to_string(), "b".to_string())];
    let e = HistoryEntry::new("GET", "http://x", headers.clone());
    assert_eq!(e.method, "GET");
    assert_eq!(e.url, "http://x");
    assert_eq!(e.headers, headers);
    assert_eq!(e.status_code, None);
    assert_eq!(e.response_time, None);
    assert_eq!(e.response_size, None);
    assert!(!e.success);
    assert_eq!(e.error_message, None);
    assert_eq!(e.id.chars().count(), 36);
    assert!(e.timestamp_secs > 1_600_000_000);
}

#[test]
fn new_entries_have_fresh_identifiers() {
    let a = HistoryEntry::new("GET", "http://x", vec![]);
    let b = HistoryEntry::new("GET", "http://x", vec![]);
    assert_ne!(a.id, b.id);
    assert_ne!(a.id, "GET");
    assert_eq!(a.short_id().chars().count(), 8);
    assert!(a.id.starts_with(&a.short_id()));
}

#[test]
fn short_id_of_a_short_identifier() {
    assert_eq!(entry("abc", "GET", "u").short_id(), "abc");
    assert_eq!(entry("12345678", "GET", "u").short_id(), "12345678");
    assert_eq!(entry("123456789", "GET", "u").short_id(), "12345678");
}

#[test]
fn a_response_is_a_success_from_200_up_to_399() {
    for (status, success) in [(199u16, false), (200, true), (302, true), (399, true), (400, false), (500, false)] {
        let e = entry("i", "GET", "u").with_response(status, 12, 345);
        assert_eq!(e.status_code, Some(status));
        assert_eq!(e.response_time, Some(12));
        assert_eq!(e.response_size, Some(345));
        assert_eq!(e.success, success);
        assert_eq!(e.id, "i");
    }
}

#[test]
fn an_error_is_no_success() {
    let e = entry("i", "GET", "u").with_response(200, 1, 1).with_error("boom".to_string());
    assert!(!e.success);
    assert_eq!(e.error_message, Some("boom".to_string()));
    assert_eq!(e.status_code, Some(200));
}

#[test]
fn the_default_history_holds_a_thousand() {
    let h = RequestHistory::default();
    assert!(h.entries.is_empty());
    assert_eq!(h.max_entries, 1000);
}

#[test]
fn the_oldest_entries_are_dropped() {
    let mut h = RequestHistory { entries: vec![], max_entries: 3 };
    for i in 0..5 {
        h.add_entry(entry(&i.to_string(), "GET", "u"));
        assert!(h.entries.len() <= 3);
    }
    assert_eq!(ids(&h.entries), vec!["2", "3", "4"]);
    let mut none = RequestHistory { entries: vec![], max_entries: 0 };
    none.add_entry(entry("a", "GET", "u"));
    assert!(none.entries.is_empty());
}

#[test]
fn recent_entries() {
    let mut h = RequestHistory::default();
    for i in 0..5 {
        h.add_entry(entry(&i.to_string(), "GET", "u"));
    }
    assert_eq!(ids(h.get_recent(2)), vec!["3", "4"]);
    assert_eq!(ids(h.get_recent(5)), vec!["0", "1", "2", "3", "4"]);
    assert_eq!(ids(h.get_recent(9)), vec!["0", "1", "2", "3", "4"]);
    assert!(h.get_recent(0).is_empty());
}

#[test]
fn search_looks_at_url_method_and_error() {
    let mut h = RequestHistory::default();
    h.add_entry(entry("a", "GET", "http://example.com/api"));
    h.add_entry(entry("b", "POST", "http://other.org"));
    h.add_entry(entry("c", "GET", "http://third.net").with_error("api is down".to_string()));
    let found: Vec<&str> = h.search("api").iter().map(|e| e.id.as_str()).collect();
    assert_eq!(found, vec!["a", "c"]);
    let posts: Vec<&str> = h.search("POST").iter().map(|e| e.id.as_str()).collect();
    assert_eq!(posts, vec!["b"]);
    assert_eq!(h.search("").len(), 3);
    assert!(h.search("nothing like it").is_empty());
    assert!(h.search("post").is_empty());
}

#[test]
fn search_matches_std() {
    let e = entry("a", "GET", "http://exämple.com/päth?q=ää");
    for query in ["ä", "ää", "äää", "mple", "http://", "?q=ä", "xyz", "GET", "ET", "GETT"] {
        let expected = e.url.contains(query) || e.method.contains(query);
        assert_eq!(e.matches_query(query), expected, "{query}");
    }
}

#[test]
fn entries_are_found_by_identifier() {
    let mut h = RequestHistory::default();
    h.add_entry(entry("a", "GET", "one"));
    h.add_entry(entry("b", "GET", "two"));
    h.add_entry(entry("a", "GET", "three"));
    assert_eq!(h.get_by_id("a").unwrap().url, "one");
    assert_eq!(h.get_by_id("b").unwrap().url, "two");
    assert!(h.get_by_id("c").is_none());
    h.clear();
    assert!(h.entries.is_empty());
    assert!(h.get_by_id("a").is_none());
    assert_eq!(h.max_entries, 1000);
}

#[test]
fn labels_of_an_entry() {
    let open = entry("i", "GET", "u");
    assert_eq!(open.status_label(), "Error");
    assert_eq!(open.time_label(), "N/A");
    let ok = entry("i", "GET", "u").with_response(200, 12, 3);
    assert_eq!(ok.status_label(), "200 ✓");
    assert_eq!(ok.time_label(), "12ms");
    let missing = entry("i", "GET", "u").with_response(404, 0, 3);
    assert_eq!(missing.status_label(), "404 ✗");
    assert_eq!(missing.time_label(), "0ms");
}
