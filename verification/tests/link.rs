use clean_links::link::{
    check_url, clear_query, is_allowed, keep_only, retain_allowed, same_text,
};

fn pairs(list: &[(&str, &str)]) -> Vec<(String, String)> {
    list.iter().map(|(k, v)| (k.to_string(), v.to_string())).collect()
}

#[test]
fn keep_only_keeps_order_of_what_stays() {
    assert_eq!(
        Some("https://example.com/a?z=1&b=2&z=3".to_string()),
        keep_only("https://example.com/a?z=1&y=0&b=2&x=9&z=3", &["b", "z"])
    );
}

#[test]
fn keep_only_drops_the_query_when_nothing_stays() {
    assert_eq!(
        Some("https://example.com/a".to_string()),
        keep_only("https://example.com/a?x=1&y=2", &["b"])
    );
    assert_eq!(
        Some("https://example.com/a".to_string()),
        keep_only("https://example.com/a?", &["b"])
    );
    assert_eq!(
        Some("https://example.com/a#part".to_string()),
        keep_only("https://example.com/a?x=1#part", &[])
    );
}

#[test]
fn keep_only_writes_standard_percent_encoding() {
    assert_eq!(
        Some("https://example.com/?q=a+b%26c%3D%E4%BD%A0".to_string()),
        keep_only("https://example.com/?q=a%20b%26c=你&drop=1", &["q"])
    );
}

#[test]
fn keep_only_rejects_what_is_no_url() {
    assert_eq!(None, keep_only("example.com/a?x=1", &["x"]));
    assert_eq!(None, keep_only("", &["x"]));
}

#[test]
fn keep_only_writes_the_url_as_the_parser_does() {
    assert_eq!(
        Some("https://example.com/?x=1".to_string()),
        keep_only("HTTPS://EXAMPLE.com?x=1", &["x"])
    );
}

#[test]
fn clear_query_keeps_the_fragment() {
    assert_eq!(
        Some("https://example.com/a/b#frag".to_string()),
        clear_query("https://example.com/a/b?x=1&y=2#frag")
    );
    assert_eq!(None, clear_query("//nothing"));
}

#[test]
fn retain_allowed_is_a_stable_filter() {
    let all = pairs(&[("a", "1"), ("b", "2"), ("a", "3"), ("c", ""), ("", "4")]);
    assert_eq!(pairs(&[("a", "1"), ("a", "3")]), retain_allowed(&all, &["a"]));
    assert_eq!(pairs(&[("b", "2"), ("c", ""), ("", "4")]), retain_allowed(&all, &["c", "", "b"]));
    assert_eq!(pairs(&[]), retain_allowed(&all, &[]));
    let once = retain_allowed(&all, &["a", "c"]);
    assert_eq!(once, retain_allowed(&once, &["a", "c"]));
}

#[test]
fn keys_are_told_apart_exactly() {
    assert!(is_allowed("t", &["p", "t"]));
    assert!(!is_allowed("T", &["p", "t"]));
    assert!(!is_allowed("tt", &["p", "t"]));
    assert!(!is_allowed("t", &[]));
    assert!(same_text("你好", "你好"));
    assert!(!same_text("你好", "你"));
    assert!(same_text("", ""));
}

#[test]
fn a_url_brings_its_scheme() {
    assert!(check_url("https://b23.tv/abc"));
    assert!(check_url("http://t.co/abc?x=1"));
    assert!(!check_url("b23.tv/abc"));
    assert!(!check_url("//b23.tv/abc"));
    assert!(!check_url(""));
}
