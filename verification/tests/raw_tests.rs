use tagger::raw::Element;
use tagger::sink::StringSink;

#[test]
fn raw_element_nests_and_ends() {
    let mut el = Element::new(StringSink::new(), "</html>");
    el.single("<html>").unwrap();
    el.elem("<body>", "</body>").unwrap();
    el.single("<p>hi</p>").unwrap();
    el.end().unwrap();
    el.end().unwrap();
    assert!(el.check_unwound());
    let sink = el.finish().unwrap();
    assert_eq!(sink.into_string(), "<html><body><p>hi</p></body></html>");
}

#[test]
fn raw_element_finish_drains_in_reverse() {
    let mut el = Element::new(StringSink::new(), "</a>");
    el.single("<a>").unwrap();
    el.elem("<b>", "</b>").unwrap();
    el.elem("<c>", "</c>").unwrap();
    let sink = el.finish().unwrap();
    assert_eq!(sink.into_string(), "<a><b><c></c></b></a>");
}

#[test]
fn raw_elem_tuple_takes_both_texts() {
    let mut el = Element::new(StringSink::new(), "</x>");
    el.single("<x>").unwrap();
    el.elem_tuple(("<y>", "</y>")).unwrap();
    let sink = el.finish().unwrap();
    assert_eq!(sink.into_string(), "<x><y></y></x>");
}

#[test]
fn raw_check_unwound_sees_open_elements() {
    let mut el = Element::new(StringSink::new(), "</a>");
    assert!(!el.check_unwound());
    el.end().unwrap();
    assert!(el.check_unwound());
}

#[test]
fn numbers_render_exactly() {
    assert_eq!(tagger::num::fmt_u64(0), "0");
    assert_eq!(tagger::num::fmt_u64(7), "7");
    assert_eq!(tagger::num::fmt_u64(10), "10");
    assert_eq!(tagger::num::fmt_u64(120406), "120406");
    assert_eq!(tagger::num::fmt_u64(u64::MAX), "18446744073709551615");
    assert_eq!(tagger::num::fmt_i64(0), "0");
    assert_eq!(tagger::num::fmt_i64(42), "42");
    assert_eq!(tagger::num::fmt_i64(-1), "-1");
    assert_eq!(tagger::num::fmt_i64(-120406), "-120406");
    assert_eq!(tagger::num::fmt_i64(i64::MAX), "9223372036854775807");
    assert_eq!(tagger::num::fmt_i64(i64::MIN), "-9223372036854775808");
}
