use crawler::find_match;

#[test]
fn multibyte_clip_at_start() {
    // Character offsets, not bytes: the match of "shop" in "café shop"
    // is at character 5, so with a radius of 2 the window is [3, 9).
    let sn = find_match("café shop", "shop", 2).expect("query occurs");
    assert_eq!(sn.text, "é shop");
    assert_eq!(sn.start, 3);
    assert_eq!(sn.end, 9);
}

#[test]
fn multibyte_inner_window() {
    let sn = find_match("αβγδε", "γ", 1).expect("query occurs");
    assert_eq!(sn.text, "βγδ");
    assert_eq!(sn.start, 1);
    assert_eq!(sn.end, 4);
}

#[test]
fn no_occurrence_is_none() {
    assert!(find_match("hello world", "mars", 3).is_none());
}

#[test]
fn first_occurrence_wins() {
    let sn = find_match("abcabc", "bc", 0).expect("query occurs");
    assert_eq!(sn.start, 1);
    assert_eq!(sn.end, 3);
    assert_eq!(sn.text, "bc");
}

#[test]
fn window_clipped_at_both_ends() {
    let sn = find_match("abc", "abc", 10).expect("query occurs");
    assert_eq!(sn.start, 0);
    assert_eq!(sn.end, 3);
    assert_eq!(sn.text, "abc");
}

#[test]
fn window_clipped_at_end_only() {
    let sn = find_match("say hi", "hi", 4).expect("query occurs");
    assert_eq!(sn.start, 0);
    assert_eq!(sn.end, 6);
    assert_eq!(sn.text, "say hi");
}

#[test]
fn empty_query_matches_at_start() {
    let sn = find_match("abcdef", "", 2).expect("empty query matches");
    assert_eq!(sn.start, 0);
    assert_eq!(sn.end, 2);
    assert_eq!(sn.text, "ab");
}

#[test]
fn query_longer_than_text_is_none() {
    assert!(find_match("hi", "high", 1).is_none());
}

#[test]
fn zero_range_returns_exactly_the_query() {
    let sn = find_match("one two three", "two", 0).expect("query occurs");
    assert_eq!(sn.text, "two");
    assert_eq!(sn.start, 4);
    assert_eq!(sn.end, 7);
}

#[test]
fn case_sensitive() {
    assert!(find_match("Hello", "hello", 1).is_none());
}
