use tagger::escape_guard;
use tagger::escape_into;
use tagger::sink::SinkWrite;
use tagger::sink::StringSink;

#[test]
fn escapes_every_markup_char() {
    let mut g = escape_guard(StringSink::new());
    g.write_str("\"'<>&").unwrap();
    assert_eq!(g.into_inner().into_string(), "&quot;&apos;&lt;&gt;&amp;");
}

#[test]
fn escape_is_identity_off_markup_chars() {
    let mut g = escape_guard(StringSink::new());
    g.write_str("hello world 123 _-.:/").unwrap();
    assert_eq!(g.into_inner().into_string(), "hello world 123 _-.:/");
}

#[test]
fn escape_mixed_text() {
    let mut g = escape_guard(StringSink::new());
    g.write_str("a<b & c>d").unwrap();
    assert_eq!(g.into_inner().into_string(), "a&lt;b &amp; c&gt;d");
}

#[test]
fn escape_empty_string() {
    let mut g = escape_guard(StringSink::new());
    g.write_str("").unwrap();
    assert_eq!(g.into_inner().into_string(), "");
}

#[test]
fn escaped_output_has_no_raw_delimiters() {
    let mut g = escape_guard(StringSink::new());
    g.write_str("x=\"1\" <tag attr='v'> & done").unwrap();
    let out = g.into_inner().into_string();
    assert!(!out.contains('"'));
    assert!(!out.contains('\''));
    assert!(!out.contains('<'));
    assert!(!out.contains('>'));
}

#[test]
fn escape_into_appends() {
    let mut s = String::from("pre:");
    escape_into(&mut s, "<&>");
    assert_eq!(s, "pre:&lt;&amp;&gt;");
}

#[test]
fn escape_guard_new_matches_helper() {
    let mut g = tagger::EscapeGuard::new(StringSink::new());
    g.write_str("1<2").unwrap();
    assert_eq!(g.into_inner().into_string(), "1&lt;2");
}

#[test]
fn escape_guard_passes_sink_failure_through() {
    let mut g = escape_guard(tagger::sink::BoundedSink::new(3));
    assert!(g.write_str("ok!").is_ok());
    assert!(g.write_str("<").is_err());
}
