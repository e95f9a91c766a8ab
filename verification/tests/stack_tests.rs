use tagger::elem::ElementStack;
use tagger::elem::Element;
use tagger::elem::Single;
use tagger::sink::StringSink;

#[test]
fn stack_finish_closes_in_reverse_order() {
    let mut st = ElementStack::new(StringSink::new(), "<a>", "</a>").unwrap();
    st.borrow_move("<b>", "</b>").unwrap();
    st.borrow_move("<c>", "</c>").unwrap();
    let sink = st.finish().unwrap();
    assert_eq!(sink.into_string(), "<a><b><c></c></b></a>");
}

#[test]
fn stack_end_last_pops_one_level() {
    let mut st = ElementStack::new(StringSink::new(), "<a>", "</a>").unwrap();
    st.borrow_move("<b>", "</b>").unwrap();
    st.end_last().unwrap();
    st.borrow_move("<d>", "</d>").unwrap();
    let sink = st.finish().unwrap();
    assert_eq!(sink.into_string(), "<a><b></b><d></d></a>");
}

#[test]
fn stack_interleaving_matches_lexical_nesting() {
    // push a, push b, pop, push c, pop, pop: the balanced interleaving
    // gives the same text as writing the nesting lexically.
    let mut st = ElementStack::new(StringSink::new(), "<a>", "</a>").unwrap();
    st.borrow_move("<b>", "</b>").unwrap();
    st.end_last().unwrap();
    st.borrow_move("<c>", "</c>").unwrap();
    st.end_last().unwrap();
    st.end_last().unwrap();
    assert!(st.check_unwound());
    let sink = st.finish().unwrap();
    assert_eq!(sink.into_string(), "<a><b></b><c></c></a>");
}

#[test]
fn stack_write_str_between_elements() {
    let mut st = ElementStack::new(StringSink::new(), "<p>", "</p>").unwrap();
    st.write_str("hello").unwrap();
    let sink = st.finish().unwrap();
    assert_eq!(sink.into_string(), "<p>hello</p>");
}

#[test]
fn unwound_check_reports_open_elements() {
    let mut st = ElementStack::new(StringSink::new(), "<a>", "</a>").unwrap();
    assert!(!st.check_unwound());
    st.borrow_move("<b>", "</b>").unwrap();
    assert!(!st.check_unwound());
    st.end_last().unwrap();
    st.end_last().unwrap();
    assert!(st.check_unwound());
}

#[test]
fn element_must_be_ended_to_recover_the_sink() {
    let el = Element::new(StringSink::new(), "<div>").unwrap();
    let el = el.borrow("<span>").unwrap();
    let sink = el.end("</span></div>").unwrap();
    assert_eq!(sink.into_string(), "<div><span></span></div>");
}

#[test]
fn element_write_str_and_borrow_single() {
    let mut el = Element::new(StringSink::new(), "<ul>").unwrap();
    el.borrow_single("<li/>").unwrap();
    el.write_str("text").unwrap();
    let sink = el.end("</ul>").unwrap();
    assert_eq!(sink.into_string(), "<ul><li/>text</ul>");
}

#[test]
fn single_owes_nothing() {
    let mut s = Single::new(StringSink::new(), "<hr/>").unwrap();
    s.borrow_single("<br/>").unwrap();
    let sink = s.into_writer();
    assert_eq!(sink.into_string(), "<hr/><br/>");
}

#[test]
fn single_borrow_descends_into_an_element() {
    let s = Single::new(StringSink::new(), "<x/>").unwrap();
    let el = s.borrow("<y>").unwrap();
    let sink = el.end("</y>").unwrap();
    assert_eq!(sink.into_string(), "<x/><y></y>");
}
