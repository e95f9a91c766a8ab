use tagger::sink::StringSink;
use tagger::xml::svg::PathBuilder;
use tagger::xml::svg::PolyLineBuilder;
use tagger::xml::xml;
use tagger::xml::AttrBuilder;

#[test]
fn xml_single_element() {
    let mut doc = xml(StringSink::new());
    doc.single("rect", &[("x", "1"), ("y", "2")]).unwrap();
    let sink = doc.end_all().unwrap();
    assert_eq!(sink.into_string(), "<rect x=\"1\" y=\"2\"/>");
}

#[test]
fn xml_elem_and_end() {
    let mut doc = xml(StringSink::new());
    doc.elem("svg", &[("width", "100")]).unwrap();
    doc.single("circle", &[("r", "5")]).unwrap();
    doc.end().unwrap();
    assert!(doc.check_unwound());
    let sink = doc.end_all().unwrap();
    assert_eq!(
        sink.into_string(),
        "<svg width=\"100\"><circle r=\"5\"/></svg>"
    );
}

#[test]
fn xml_end_all_closes_everything_in_reverse() {
    let mut doc = xml(StringSink::new());
    doc.elem_no_attr("a").unwrap();
    doc.elem_no_attr("b").unwrap();
    doc.elem_no_attr("c").unwrap();
    let sink = doc.end_all().unwrap();
    assert_eq!(sink.into_string(), "<a><b><c></c></b></a>");
}

#[test]
fn xml_prolog_declaration_comment_inner() {
    let mut doc = xml(StringSink::new());
    doc.prolog("xml", &[("version", "1.0")]).unwrap();
    doc.declaration("DOCTYPE svg").unwrap();
    doc.comment("made by hand").unwrap();
    doc.elem_no_attr("p").unwrap();
    doc.inner_str("hi").unwrap();
    doc.end().unwrap();
    let sink = doc.end_all().unwrap();
    assert_eq!(
        sink.into_string(),
        "<?xml version=\"1.0\"?><!DOCTYPE svg><!--made by hand --><p>hi</p>"
    );
}

#[test]
fn attr_builder_writes_verbatim_pairs() {
    let mut ab = AttrBuilder::new(StringSink::new());
    ab.attr("width", "100").unwrap();
    ab.attr("height", "50").unwrap();
    let sink = ab.into_inner();
    assert_eq!(sink.into_string(), " width=\"100\" height=\"50\"");
}

#[test]
fn attr_builder_polyline_data() {
    let ab = AttrBuilder::new(StringSink::new());
    let mut pb = ab.polyline_data().unwrap();
    pb.add_point(1, 2).unwrap();
    pb.add_point(-3, 4).unwrap();
    let sink = pb.finish().unwrap();
    assert_eq!(sink.into_string(), " points=\"1,2 -3,4 \"");
}

#[test]
fn attr_builder_path_data() {
    let ab = AttrBuilder::new(StringSink::new());
    let mut pb = ab.path_data().unwrap();
    pb.move_to(0, 0).unwrap();
    pb.line_to(10, 10).unwrap();
    pb.close().unwrap();
    let sink = pb.finish().unwrap();
    assert_eq!(sink.into_string(), " d=\"M 0 0 L 10 10 z\"");
}

#[test]
fn xml_path_builders_standalone() {
    let mut pb = PathBuilder::new(StringSink::new()).unwrap();
    pb.move_to(1, -2).unwrap();
    pb.close().unwrap();
    let sink = pb.finish().unwrap();
    assert_eq!(sink.into_string(), " d=\"M 1 -2 z\"");

    let mut pl = PolyLineBuilder::new(StringSink::new()).unwrap();
    pl.add_point(7, 8).unwrap();
    let sink = pl.finish().unwrap();
    assert_eq!(sink.into_string(), " points=\"7,8 \"");
}

#[test]
fn xml_attr_values_are_escaped() {
    let mut doc = xml(StringSink::new());
    doc.single("a", &[("title", "x<y & \"z\"")]).unwrap();
    let sink = doc.end_all().unwrap();
    assert_eq!(
        sink.into_string(),
        "<a title=\"x&lt;y &amp; &quot;z&quot;\"/>"
    );
}

#[test]
fn attr_builder_escapes_the_value() {
    let mut ab = AttrBuilder::new(StringSink::new());
    ab.attr("style", "a<b").unwrap();
    let sink = ab.into_inner();
    assert_eq!(sink.into_string(), " style=\"a&lt;b\"");
}
