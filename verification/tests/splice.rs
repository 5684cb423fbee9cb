use clean_links::splice::{check_spans, slice, splice, Span};

fn span(start: usize, end: usize) -> Span {
    Span { start, end }
}

#[test]
fn splice_replaces_each_span_of_the_text() {
    let text = "aa BBB cc DD ee";
    let spans = vec![span(3, 6), span(10, 12)];
    let with = vec![Some("x".to_string()), Some("yyyy".to_string())];
    assert_eq!("aa x cc yyyy ee", splice(text, &spans, &with));
}

#[test]
fn splice_keeps_spans_without_replacement() {
    let text = "aa BBB cc DD ee";
    let spans = vec![span(3, 6), span(10, 12)];
    assert_eq!("aa BBB cc ! ee", splice(text, &spans, &vec![None, Some("!".to_string())]));
    assert_eq!(text, splice(text, &spans, &vec![None, None]));
    assert_eq!(text, splice(text, &vec![], &vec![]));
}

#[test]
fn splice_counts_bytes_not_characters() {
    let text = "你好 abc 世界";
    let spans = vec![span(0, 6), span(7, 10), span(11, 17)];
    assert!(check_spans(text, &spans));
    let with = vec![Some("hi".to_string()), None, Some("🌍".to_string())];
    assert_eq!("hi abc 🌍", splice(text, &spans, &with));
    assert_eq!("世界", slice(text, span(11, 17)));
    assert_eq!("", slice(text, span(6, 6)));
}

#[test]
fn splice_takes_empty_and_adjacent_spans() {
    let text = "abcd";
    let spans = vec![span(0, 0), span(0, 2), span(2, 2), span(2, 4), span(4, 4)];
    assert!(check_spans(text, &spans));
    let with = vec![
        Some("<".to_string()),
        Some("AB".to_string()),
        Some("|".to_string()),
        None,
        Some(">".to_string()),
    ];
    assert_eq!("<AB|cd>", splice(text, &spans, &with));
}

#[test]
fn check_spans_refuses_what_does_not_fit() {
    let text = "你好 abc";
    assert!(check_spans(text, &vec![]));
    assert!(check_spans(text, &vec![span(0, 3), span(3, 10)]));
    assert!(!check_spans(text, &vec![span(0, 1)]));
    assert!(!check_spans(text, &vec![span(2, 3)]));
    assert!(!check_spans(text, &vec![span(3, 0)]));
    assert!(!check_spans(text, &vec![span(0, 11)]));
    assert!(!check_spans(text, &vec![span(0, 6), span(3, 7)]));
    assert!(!check_spans(text, &vec![span(7, 8), span(0, 3)]));
}
