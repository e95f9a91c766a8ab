use tagger::json::json;
use tagger::sink::StringSink;

#[test]
fn json_flat_object() {
    let mut j = json(StringSink::new()).unwrap();
    j.inner("name", "svg").unwrap();
    j.inner("kind", "vector").unwrap();
    j.end().unwrap();
    let sink = j.into_writer();
    assert_eq!(sink.into_string(), "{\"name\":\"svg\",\"kind\":\"vector\"}");
}

#[test]
fn json_nested_objects_get_commas_per_level() {
    let mut j = json(StringSink::new()).unwrap();
    j.inner("a", "1").unwrap();
    j.elem("child").unwrap();
    j.inner("b", "2").unwrap();
    j.end().unwrap();
    j.inner("c", "3").unwrap();
    j.end().unwrap();
    let sink = j.into_writer();
    assert_eq!(
        sink.into_string(),
        "{\"a\":\"1\",\"child\":{\"b\":\"2\"},\"c\":\"3\"}"
    );
}

#[test]
fn json_first_entry_has_no_comma() {
    let mut j = json(StringSink::new()).unwrap();
    j.elem("only").unwrap();
    j.end().unwrap();
    j.end().unwrap();
    let sink = j.into_writer();
    assert_eq!(sink.into_string(), "{\"only\":{}}");
}

#[test]
fn json_open_objects_counts_depth() {
    let mut j = json(StringSink::new()).unwrap();
    assert_eq!(j.open_objects(), 1);
    j.elem("x").unwrap();
    assert_eq!(j.open_objects(), 2);
    j.end().unwrap();
    j.end().unwrap();
    assert_eq!(j.open_objects(), 0);
}
