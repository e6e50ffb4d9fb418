use crawler::Snippet;
use crawler::VisitedStore;

#[test]
fn claim_is_granted_exactly_once() {
    let mut store = VisitedStore::new();
    let url = "http://example.com/".to_string();
    assert!(store.try_claim(&url));
    assert!(!store.try_claim(&url));
    assert!(!store.try_claim(&url));
    assert_eq!(store.num_entries(), 1);
}

#[test]
fn distinct_urls_get_distinct_claims() {
    let mut store = VisitedStore::new();
    assert!(store.try_claim(&"http://example.com/a".to_string()));
    assert!(store.try_claim(&"http://example.com/b".to_string()));
    assert_eq!(store.num_entries(), 2);
}

#[test]
fn is_claimed_tracks_claims() {
    let mut store = VisitedStore::new();
    let url = "http://example.com/".to_string();
    assert!(!store.is_claimed(&url));
    assert!(store.try_claim(&url));
    assert!(store.is_claimed(&url));
}

#[test]
fn claimed_without_match_is_not_reported() {
    let mut store = VisitedStore::new();
    assert!(store.try_claim(&"http://example.com/".to_string()));
    assert!(store.collect_matches().is_empty());
}

#[test]
fn recorded_match_is_reported_in_claim_order() {
    let mut store = VisitedStore::new();
    let a = "http://example.com/a".to_string();
    let b = "http://example.com/b".to_string();
    let c = "http://example.com/c".to_string();
    assert!(store.try_claim(&a));
    assert!(store.try_claim(&b));
    assert!(store.try_claim(&c));
    store.record_match(&c, Snippet { text: "third".to_string(), start: 0, end: 5 });
    store.record_match(&a, Snippet { text: "first".to_string(), start: 2, end: 7 });
    let matches = store.collect_matches();
    assert_eq!(matches.len(), 2);
    assert_eq!(matches[0].url, a);
    assert_eq!(matches[0].snippet.text, "first");
    assert_eq!(matches[0].snippet.start, 2);
    assert_eq!(matches[1].url, c);
    assert_eq!(matches[1].snippet.text, "third");
}

#[test]
fn recording_again_keeps_one_entry() {
    let mut store = VisitedStore::new();
    let a = "http://example.com/a".to_string();
    assert!(store.try_claim(&a));
    store.record_match(&a, Snippet { text: "x".to_string(), start: 0, end: 1 });
    store.record_match(&a, Snippet { text: "y".to_string(), start: 1, end: 2 });
    let matches = store.collect_matches();
    assert_eq!(matches.len(), 1);
    assert_eq!(matches[0].snippet.text, "y");
}
