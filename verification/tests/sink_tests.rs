use tagger::new;
use tagger::sink::BoundedSink;
use tagger::sink::SinkWrite;
use tagger::sink::StringSink;
use tagger::sink::WriteError;

#[test]
fn string_sink_accumulates() {
    let mut s = StringSink::new();
    s.write_str("ab").unwrap();
    s.write_str("cd").unwrap();
    assert_eq!(s.as_str(), "abcd");
    assert_eq!(s.into_string(), "abcd");
}

#[test]
fn bounded_sink_accepts_up_to_capacity() {
    let mut s = BoundedSink::new(4);
    assert_eq!(s.write_str("ab"), Ok(()));
    assert_eq!(s.write_str("cd"), Ok(()));
    assert_eq!(s.into_string(), "abcd");
}

#[test]
fn bounded_sink_rejects_overflow_and_keeps_content() {
    let mut s = BoundedSink::new(4);
    s.write_str("abc").unwrap();
    assert_eq!(s.write_str("de"), Err(WriteError));
    assert_eq!(s.write_str("d"), Ok(()));
    assert_eq!(s.into_string(), "abcd");
}

#[test]
fn bounded_sink_zero_capacity_rejects_everything_but_empty() {
    let mut s = BoundedSink::new(0);
    assert_eq!(s.write_str(""), Ok(()));
    assert_eq!(s.write_str("x"), Err(WriteError));
    assert_eq!(s.into_string(), "");
}

#[test]
fn write_failure_propagates_out_of_a_builder() {
    let mut ew = new(BoundedSink::new(3));
    assert!(ew.single("rect", &[]).is_err());
}

#[test]
fn truncated_document_stays_truncated_on_failure() {
    let ew = new(BoundedSink::new(8));
    // The opening tag fits; the closing tag does not.
    let bridge = ew.elem("svg", &[]).unwrap();
    assert!(bridge.build().is_err());
}
