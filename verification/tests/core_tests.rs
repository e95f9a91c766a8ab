use tagger::new;
use tagger::sink::SinkWrite;
use tagger::sink::StringSink;
use tagger::PathCommand;

#[test]
fn end_to_end_svg_document() {
    let ew = new(StringSink::new());
    let mut svg = ew
        .elem("svg", &[("xmlns", "http://www.w3.org/2000/svg"), ("viewBox", "0 0 100 100")])
        .unwrap();
    let mut inner = new(svg);
    inner.single("rect", &[("style", "fill:blue")]).unwrap();
    svg = inner.into_writer();
    let done = svg.build().unwrap();
    assert_eq!(
        done.into_writer().into_string(),
        "<svg xmlns=\"http://www.w3.org/2000/svg\" viewBox=\"0 0 100 100\"><rect style=\"fill:blue\"/></svg>"
    );
}

#[test]
fn single_has_no_content_before_the_self_close() {
    let mut ew = new(StringSink::new());
    ew.single("rect", &[("style", "fill:blue")]).unwrap();
    assert_eq!(ew.into_writer().into_string(), "<rect style=\"fill:blue\"/>");
}

#[test]
fn single_without_attributes() {
    let mut ew = new(StringSink::new());
    ew.single("br", &[]).unwrap();
    assert_eq!(ew.into_writer().into_string(), "<br/>");
}

#[test]
fn attribute_values_are_escaped() {
    let mut ew = new(StringSink::new());
    ew.single("a", &[("title", "x<y & z")]).unwrap();
    assert_eq!(ew.into_writer().into_string(), "<a title=\"x&lt;y &amp; z\"/>");
}

#[test]
fn elem_open_attr_and_build() {
    let ew = new(StringSink::new());
    let mut aw = ew.elem_open("g").unwrap();
    aw.attr("id", "root").unwrap();
    aw.attr("class", "main").unwrap();
    let bridge = aw.build().unwrap();
    let ew = bridge.build().unwrap();
    assert_eq!(ew.into_writer().into_string(), "<g id=\"root\" class=\"main\"></g>");
}

#[test]
fn build_empty_self_closes() {
    let ew = new(StringSink::new());
    let mut aw = ew.elem_open("img").unwrap();
    aw.attr("src", "a.png").unwrap();
    let ew = aw.build_empty().unwrap();
    assert_eq!(ew.into_writer().into_string(), "<img src=\"a.png\"/>");
}

#[test]
fn text_content_through_bridge_is_escaped() {
    let ew = new(StringSink::new());
    let bridge = ew.elem("p", &[]).unwrap();
    let mut bridge = bridge;
    tagger::write_escaped(&mut bridge, "1 < 2 & 3 > 2").unwrap();
    let ew = bridge.build().unwrap();
    assert_eq!(
        ew.into_writer().into_string(),
        "<p>1 &lt; 2 &amp; 3 &gt; 2</p>"
    );
}

#[test]
fn put_raw_escapes_and_prefixes_a_space() {
    let mut ew = new(StringSink::new());
    ew.put_raw("a<b").unwrap();
    assert_eq!(ew.into_writer().into_string(), " a&lt;b");
}

#[test]
fn put_raw_escapable_passes_markup_through() {
    let mut ew = new(StringSink::new());
    ew.put_raw_escapable("<b>bold</b>").unwrap();
    assert_eq!(ew.into_writer().into_string(), " <b>bold</b>");
}

#[test]
fn points_attribute_round_trip_text() {
    let ew = new(StringSink::new());
    let aw = ew.elem_open("polyline").unwrap();
    let mut pb = aw.points().unwrap();
    pb.put(1, 2).unwrap();
    pb.put(3, 4).unwrap();
    let aw = pb.finish().unwrap();
    let ew = aw.build_empty().unwrap();
    let out = ew.into_writer().into_string();
    assert_eq!(out, "<polyline points=\"1,2 3,4 \"/>");
    let value = "1,2 3,4 ";
    let pairs: Vec<(i64, i64)> = value
        .split_whitespace()
        .map(|unit| {
            let mut halves = unit.split(',');
            (
                halves.next().unwrap().parse().unwrap(),
                halves.next().unwrap().parse().unwrap(),
            )
        })
        .collect();
    assert_eq!(pairs, vec![(1, 2), (3, 4)]);
}

#[test]
fn path_attribute_with_commands() {
    let ew = new(StringSink::new());
    let aw = ew.elem_open("path").unwrap();
    let mut pb = aw.path().unwrap();
    pb.put(&PathCommand::M(10, 20)).unwrap();
    pb.put(&PathCommand::L(30, 40)).unwrap();
    pb.put(&PathCommand::Z(0)).unwrap();
    let aw = pb.finish().unwrap();
    let ew = aw.build_empty().unwrap();
    assert_eq!(
        ew.into_writer().into_string(),
        "<path d=\" M 10 20 L 30 40 Z\"/>"
    );
}

#[test]
fn every_path_command_renders_exactly() {
    assert_eq!(PathCommand::M(1, 2).render(), " M 1 2");
    assert_eq!(PathCommand::M_(1, 2).render(), " m 1 2");
    assert_eq!(PathCommand::L(1, 2).render(), " L 1 2");
    assert_eq!(PathCommand::L_(1, 2).render(), " l 1 2");
    assert_eq!(PathCommand::H(5).render(), " H 5");
    assert_eq!(PathCommand::H_(5).render(), " h 5");
    assert_eq!(PathCommand::V(5).render(), " V 5");
    assert_eq!(PathCommand::V_(5).render(), " v 5");
    assert_eq!(PathCommand::C(1, 2, 3, 4, 5, 6).render(), " C 1 2, 3 4, 5 6");
    assert_eq!(PathCommand::C_(1, 2, 3, 4, 5, 6).render(), " c 1 2, 3 4, 5 6");
    assert_eq!(PathCommand::S(1, 2, 3, 4).render(), " S 1,2 3 4");
    assert_eq!(PathCommand::S_(1, 2, 3, 4).render(), " s 1,2 3 4");
    assert_eq!(PathCommand::Q(1, 2, 3, 4).render(), " Q 1 2, 3 4");
    assert_eq!(PathCommand::Q_(1, 2, 3, 4).render(), " q 1 2, 3 4");
    assert_eq!(PathCommand::T(1, 2).render(), " T 1 2");
    assert_eq!(PathCommand::T_(1, 2).render(), " t 1 2");
    assert_eq!(PathCommand::A(1, 2, 3, 0, 1, 4, 5).render(), " A 1 2 3 0 1 4 5");
    assert_eq!(PathCommand::A_(1, 2, 3, 0, 1, 4, 5).render(), " a 1 2 3 0 1 4 5");
    assert_eq!(PathCommand::Z(0).render(), " Z");
}

#[test]
fn map_changes_coordinates_and_keeps_shape() {
    let cmd = PathCommand::L(2, 3).map(|v: i64| v * 10);
    assert_eq!(cmd.render(), " L 20 30");
}

#[test]
fn negative_coordinates_render_with_sign() {
    assert_eq!(PathCommand::M(-7, -40).render(), " M -7 -40");
}

#[test]
fn deep_nesting_closes_in_order() {
    let ew = new(StringSink::new());
    let outer = ew.elem("a", &[]).unwrap();
    let mid = new(outer).elem("b", &[]).unwrap();
    let inner = new(mid).elem("c", &[]).unwrap();
    let mid = inner.build().unwrap().into_writer();
    let outer = mid.build().unwrap().into_writer();
    let done = outer.build().unwrap();
    assert_eq!(done.into_writer().into_string(), "<a><b><c></c></b></a>");
}

#[test]
fn no_attr_is_the_empty_attribute_list() {
    let mut ew = new(StringSink::new());
    ew.single("hr", tagger::no_attr()).unwrap();
    assert_eq!(ew.into_writer().into_string(), "<hr/>");
}

#[test]
fn bridge_write_text_and_write_raw() {
    let ew = new(StringSink::new());
    let mut b = ew.elem("div", &[]).unwrap();
    b.write_text("a < b").unwrap();
    b.write_raw("<em>!</em>").unwrap();
    let ew = b.build().unwrap();
    assert_eq!(
        ew.into_writer().into_string(),
        "<div>a &lt; b<em>!</em></div>"
    );
}

#[test]
fn bridge_single_keeps_the_parent_open() {
    let ew = new(StringSink::new());
    let mut svg = ew
        .elem("svg", &[("xmlns", "http://www.w3.org/2000/svg"), ("viewBox", "0 0 100 100")])
        .unwrap();
    svg.single("rect", &[("style", "fill:blue")]).unwrap();
    let done = svg.build().unwrap();
    assert_eq!(
        done.into_writer().into_string(),
        "<svg xmlns=\"http://www.w3.org/2000/svg\" viewBox=\"0 0 100 100\"><rect style=\"fill:blue\"/></svg>"
    );
}

#[test]
fn bridge_elem_open_nests_with_attributes() {
    let ew = new(StringSink::new());
    let outer = ew.elem("g", &[]).unwrap();
    let mut aw = outer.elem_open("rect").unwrap();
    aw.attr("x", "1").unwrap();
    let inner = aw.build().unwrap();
    let ew = inner.build().unwrap();
    let outer = ew.into_writer();
    let ew = outer.build().unwrap();
    assert_eq!(
        ew.into_writer().into_string(),
        "<g><rect x=\"1\"></rect></g>"
    );
}
