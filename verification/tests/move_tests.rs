use tagger::element_borrow::TagBuilder;
use tagger::element_move::write_end_tag;
use tagger::element_move::FlatElement;
use tagger::sink::StringSink;

#[test]
fn flat_element_builds_an_indented_tree() {
    let root = FlatElement::new(StringSink::new());
    let tb = root.tag_build_flat("svg").unwrap();
    let tb = tb.set("width", "100").unwrap();
    let el = tb.end().unwrap();
    let tb = el.tag_build_flat("rect").unwrap();
    let el = tb.empty().unwrap();
    let el = el.pop().unwrap();
    let sink = el.finish().unwrap();
    assert_eq!(
        sink.into_string(),
        "<svg width = \"100\">\n\t<rect/>\n</svg>\n"
    );
}

#[test]
fn flat_element_finish_unwinds_everything() {
    let root = FlatElement::new(StringSink::new());
    let el = root.tag_build_flat("a").unwrap().end().unwrap();
    let el = el.tag_build_flat("b").unwrap().end().unwrap();
    let sink = el.finish().unwrap();
    assert_eq!(sink.into_string(), "<a>\n\t<b>\n\t</b>\n</a>\n");
}

#[test]
fn flat_element_check_unwound() {
    let root = FlatElement::new(StringSink::new());
    assert!(root.check_unwound());
    let el = root.tag_build_flat("a").unwrap().end().unwrap();
    assert!(!el.check_unwound());
    let el = el.pop().unwrap();
    assert!(el.check_unwound());
}

#[test]
fn empty_no_slash_leaves_tag_open_without_obligation() {
    let root = FlatElement::new(StringSink::new());
    let el = root.tag_build_flat("meta").unwrap().empty_no_slash().unwrap();
    assert!(el.check_unwound());
    let sink = el.finish().unwrap();
    assert_eq!(sink.into_string(), "<meta>\n");
}

#[test]
fn set_writes_spaced_attribute_pairs() {
    let root = FlatElement::new(StringSink::new());
    let tb = root.tag_build_flat("img").unwrap();
    let tb = tb.set("src", "a.png").unwrap();
    let tb = tb.set("alt", "photo").unwrap();
    let el = tb.empty().unwrap();
    let sink = el.finish().unwrap();
    assert_eq!(
        sink.into_string(),
        "<img src = \"a.png\" alt = \"photo\"/>\n"
    );
}

#[test]
fn write_end_tag_indents_by_level() {
    let mut sink = StringSink::new();
    write_end_tag(&mut sink, "div", 2).unwrap();
    assert_eq!(sink.into_string(), "\t\t</div>\n");
}

#[test]
fn tag_builder_handles_one_element() {
    let tb = TagBuilder::new(StringSink::new(), "span", 1);
    let el = tb.end().unwrap();
    let sink = el.end().unwrap();
    assert_eq!(sink.into_string(), ">\n</span>\n");
}

#[test]
fn tag_builder_empty_variants() {
    let tb = TagBuilder::new(StringSink::new(), "br", 1);
    let sink = tb.empty().unwrap();
    assert_eq!(sink.into_string(), "/>\n");
    let tb = TagBuilder::new(StringSink::new(), "meta", 1);
    let sink = tb.empty_no_slash().unwrap();
    assert_eq!(sink.into_string(), ">\n");
}

#[test]
fn borrowed_element_writes_content_and_closes() {
    let tb = TagBuilder::new(StringSink::new(), "p", 2);
    let mut el = tb.end().unwrap();
    el.write_str("text").unwrap();
    let sink = el.end().unwrap();
    assert_eq!(sink.into_string(), ">\ntext\t</p>\n");
}

#[test]
fn root_is_the_starting_point() {
    let el = tagger::element_move::root(StringSink::new());
    let el = el.tag_build_flat("html").unwrap().end().unwrap();
    let sink = el.finish().unwrap();
    assert_eq!(sink.into_string(), "<html>\n</html>\n");
}

#[test]
fn set_escapes_the_value() {
    let root = FlatElement::new(StringSink::new());
    let tb = root.tag_build_flat("img").unwrap();
    let tb = tb.set("alt", "a\"b<c>&'d").unwrap();
    let el = tb.empty().unwrap();
    let sink = el.finish().unwrap();
    assert_eq!(
        sink.into_string(),
        "<img alt = \"a&quot;b&lt;c&gt;&amp;&apos;d\"/>\n"
    );
}
