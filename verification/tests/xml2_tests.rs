use tagger::sink::SinkWrite;
use tagger::sink::StringSink;
use tagger::xml2::AttrBuilder;
use tagger::xml2::AttrBuilder2;
use tagger::xml2::Element;

#[test]
fn compact_single_element() {
    let mut el = Element::new(StringSink::new());
    el.single("rect", &[("x", "1")]).unwrap();
    el.ok().unwrap();
    let sink = el.into_writer();
    assert_eq!(sink.into_string(), "<rect x=\"1\"/>");
}

#[test]
fn compact_elem2_wraps_inner_text() {
    let mut el = Element::new(StringSink::new());
    el.elem2("p", &[("class", "note")], "hello").unwrap();
    let sink = el.into_writer();
    assert_eq!(sink.into_string(), "<p class=\"note\">hello</p>");
}

#[test]
fn attr_builder2_phases() {
    let mut el = Element::new(StringSink::new());
    el.write_str("<svg").unwrap();
    let mut ab = AttrBuilder2::new(el);
    ab.attr("width", "10").unwrap();
    let mut el = ab.finish().unwrap();
    el.single("rect", &[]).unwrap();
    el.write_str("</svg>").unwrap();
    let sink = el.into_writer();
    assert_eq!(sink.into_string(), "<svg width=\"10\"><rect/></svg>");
}

#[test]
fn attr_builder2_polyline_data() {
    let mut el = Element::new(StringSink::new());
    el.write_str("<polyline").unwrap();
    let ab = AttrBuilder2::new(el);
    let mut pl = ab.polyline_data().unwrap();
    pl.add_point(0, 1).unwrap();
    let el = pl.finish().unwrap();
    let sink = el.into_writer();
    assert_eq!(sink.into_string(), "<polyline points=\"0,1 \"");
}

#[test]
fn compact_attr_builder_path_data() {
    let ab = AttrBuilder::new(StringSink::new());
    let mut pb = ab.path_data().unwrap();
    pb.move_to(2, 3).unwrap();
    pb.line_to(4, 5).unwrap();
    pb.close().unwrap();
    let sink = pb.finish().unwrap();
    assert_eq!(sink.into_string(), " d=\"M 2 3 L 4 5 z\"");
}

#[test]
fn compact_attr_builder_writes_pairs() {
    let mut ab = AttrBuilder::new(StringSink::new());
    ab.attr("a", "1").unwrap();
    ab.attr("b", "2").unwrap();
    let sink = ab.into_inner();
    assert_eq!(sink.into_string(), " a=\"1\" b=\"2\"");
}

#[test]
fn stack_get_writer_reaches_the_sink() {
    let mut st =
        tagger::elem::ElementStack::new(StringSink::new(), "<a>", "</a>").unwrap();
    st.get_writer().write_str("raw").unwrap();
    let sink = st.finish().unwrap();
    assert_eq!(sink.into_string(), "<a>raw</a>");
}

#[test]
fn elem_writer_escapable_bypasses_escaping() {
    let mut ew = tagger::new(StringSink::new());
    ew.writer_escapable().write_str("<raw/>").unwrap();
    assert_eq!(ew.into_writer().into_string(), "<raw/>");
}

#[test]
fn compact_attr_values_are_escaped() {
    let mut el = Element::new(StringSink::new());
    el.single("rect", &[("title", "1<2")]).unwrap();
    let sink = el.into_writer();
    assert_eq!(sink.into_string(), "<rect title=\"1&lt;2\"/>");
}
