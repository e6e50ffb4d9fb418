use crawler::PageUrl;
use crawler::resolve_link;

fn base() -> PageUrl {
    PageUrl { full: "http://example.com/".to_string(), host: "example.com".to_string() }
}

#[test]
fn absolute_same_host_is_kept() {
    let u = resolve_link(&base(), "http://example.com/about").expect("same host");
    assert_eq!(u.full, "http://example.com/about");
    assert_eq!(u.host, "example.com");
}

#[test]
fn absolute_other_host_is_dropped() {
    assert!(resolve_link(&base(), "http://other.com/about").is_none());
}

#[test]
fn path_absolute_reference_is_joined() {
    let u = resolve_link(&base(), "/docs/intro").expect("joined on same host");
    assert_eq!(u.full, "http://example.com/docs/intro");
    assert_eq!(u.host, "example.com");
}

#[test]
fn protocol_relative_reference_to_other_host_is_dropped() {
    // "//other.com/x" is not an absolute URL, starts with '/', and
    // resolves to a different host: it must not survive.
    assert!(resolve_link(&base(), "//other.com/x").is_none());
}

#[test]
fn plain_relative_reference_is_dropped() {
    assert!(resolve_link(&base(), "about.html").is_none());
}

#[test]
fn empty_reference_is_dropped() {
    assert!(resolve_link(&base(), "").is_none());
}

#[test]
fn malformed_absolute_url_is_dropped() {
    assert!(resolve_link(&base(), "http://").is_none());
}

#[test]
fn join_normalizes_against_base_path() {
    let deep = PageUrl {
        full: "http://example.com/a/b".to_string(),
        host: "example.com".to_string(),
    };
    let u = resolve_link(&deep, "/c").expect("joined on same host");
    assert_eq!(u.full, "http://example.com/c");
}

#[test]
fn host_comparison_uses_host_not_prefix() {
    assert!(resolve_link(&base(), "http://example.com.evil.net/").is_none());
}
