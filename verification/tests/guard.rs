use clean_links::guard::{is_guarded, starts_with};
use clean_links::pipeline::{replace_all, Rewrite};
use clean_links::rules::find_links;
use clean_links::splice::Span;

#[test]
fn link_may_start_the_text_or_follow_what_is_no_letter() {
    assert!(is_guarded("b23.tv/x", 0));
    assert!(is_guarded("", 0));
    assert!(is_guarded(" b23.tv/x", 1));
    assert!(is_guarded("-b23.tv/x", 1));
    assert!(is_guarded("9b23.tv/x", 1));
    assert!(is_guarded("好b23.tv/x", 3));
    assert!(is_guarded("/b23.tv/x", 1));
    assert!(!is_guarded("xb23.tv/x", 1));
    assert!(!is_guarded("Zb23.tv/x", 1));
    assert!(!is_guarded("ab", 2));
    assert!(is_guarded("a@", 2));
}

#[test]
fn link_may_follow_a_letter_where_it_brings_its_scheme() {
    assert!(is_guarded("xhttps://b23.tv/x", 1));
    assert!(is_guarded("xhttp://b23.tv/x", 1));
    assert!(!is_guarded("xhttp:/b23.tv/x", 1));
    assert!(!is_guarded("xhttps:b23.tv/x", 1));
    assert!(!is_guarded("xHTTPS://b23.tv/x", 1));
    assert!(!is_guarded("xhttps:/", 1));
}

#[test]
fn starts_with_compares_bytes_in_place() {
    assert!(starts_with(b"abcdef", 2, b"cde"));
    assert!(starts_with(b"abcdef", 6, b""));
    assert!(starts_with(b"", 0, b""));
    assert!(!starts_with(b"abcdef", 2, b"cdf"));
    assert!(!starts_with(b"abcdef", 4, b"efg"));
    assert!(!starts_with(b"abcdef", 7, b""));
    assert!(!starts_with(b"ab", usize::MAX, b"b"));
}

#[test]
fn short_link_inside_a_word_is_left_alone() {
    let pattern = clean_links::pattern::BILI_SHORT;
    assert_eq!(Vec::<Span>::new(), find_links(pattern, "xb23.tv/abc"));
    assert_eq!(vec![Span { start: 2, end: 12 }], find_links(pattern, "x b23.tv/abc"));
    assert_eq!(vec![Span { start: 1, end: 19 }], find_links(pattern, "xhttps://b23.tv/abc"));
    assert_eq!(
        vec![Span { start: 14, end: 24 }],
        find_links(pattern, "xb23.tv/abc&& b23.tv/def")
    );
    match replace_all("mybili2233.cn/abc and notb23.tv/abc") {
        Rewrite::Done(text) => assert_eq!("mybili2233.cn/abc and notb23.tv/abc", text),
        _ => panic!("expected no lookup"),
    }
}

#[test]
fn links_of_the_other_rules_bring_their_guard() {
    assert_eq!(
        Vec::<Span>::new(),
        find_links(clean_links::pattern::TWITTER_SHORT, "at.co/abc")
    );
    assert_eq!(
        vec![Span { start: 1, end: 17 }],
        find_links(clean_links::pattern::TWITTER_SHORT, "ahttps://t.co/abc")
    );
    assert_eq!(
        vec![Span { start: 0, end: 32 }],
        find_links(clean_links::pattern::BILI_VIDEO, "bilibili.com/video/BV1?spm=1&p=2&and&")
    );
}

#[test]
fn guard_agrees_with_the_patterns_that_carry_it() {
    let texts = [
        "xhttps://www.bilibili.com/video/BV1?a=1",
        "fakebilibili.com/video/BV1 and fake-bilibili.com/video/BV2",
        "好bilibili.com/video/BV1/?p=1&&Zbilibili.com/video/BV3",
        "-t.co/abc Zt.co/abc 9t.co/abc ahttp://t.co/abc",
        "vm.tiktok.com/abc xvm.tiktok.com/abc https://vt.tiktok.com/abc/?x=1",
        "youtube.com/watch?v=1&&myyoutube.com/watch?v=2&&https://youtu.be/watch?v=3",
        "mp.weixin.qq.com/s?__biz=1&&amp.weixin.qq.com/s?__biz=2",
        "twitter.com/a/status/1 xtwitter.com/a/status/2 x.com/a/status/3 ax.com/a/status/4",
        "amazon.com/A-b/dp/B00 examazon.com/A-b/dp/B01 amazon.co.jp/s?k=a",
        "item.jd.com/product/1.html aitem.jd.com/product/2.html",
        "bilibili.com/read/mobile/1 abilibili.com/opus/2 m.bilibili.com/opus/3",
        "",
    ];
    for index in 1..clean_links::table::RULES {
        let pattern = clean_links::table::rule(index).pattern;
        let engine = fancy_regex::Regex::new(pattern).unwrap();
        for text in texts {
            let found: Vec<Span> = engine
                .find_iter(text)
                .map(|found| found.unwrap())
                .map(|found| Span { start: found.start(), end: found.end() })
                .collect();
            assert_eq!(found, find_links(pattern, text), "rule {index} on {text}");
        }
    }
}
