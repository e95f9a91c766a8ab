//! A streaming markup writer.
//!
//! The crate emits XML/HTML/SVG-shaped text directly to a sink, without
//! building an in-memory tree.  Every operation's effect on the sink is
//! stated exactly, as a sequence of characters appended to what was
//! already written.

pub mod elem;
pub mod element_borrow;
pub mod element_move;
pub mod json;
pub mod num;
pub mod raw;
pub mod sink;
pub mod svg;
pub mod xml;
pub mod xml2;

use vstd::prelude::*;
use vstd::string::StrSliceExecFns;
use vstd::string::StringExecFns;
use crate::sink::SinkWrite;
use crate::sink::WriteError;

verus! {

/// Whether `c` carries markup meaning and must be replaced by an entity.
pub open spec fn is_markup_char(c: char) -> bool {
    c == '"' || c == '\'' || c == '<' || c == '>' || c == '&'
}

/// The text written for one character: the entity for the five markup
/// characters, the character itself for every other one.
pub open spec fn escape_char(c: char) -> Seq<char> {
    if c == '"' {
        "&quot;"@
    } else if c == '\'' {
        "&apos;"@
    } else if c == '<' {
        "&lt;"@
    } else if c == '>' {
        "&gt;"@
    } else if c == '&' {
        "&amp;"@
    } else {
        seq![c]
    }
}

/// The escaped form of a whole string.
pub open spec fn escape_seq(s: Seq<char>) -> Seq<char>
    decreases s.len(),
{
    if s.len() == 0 {
        Seq::empty()
    } else {
        escape_char(s[0]) + escape_seq(s.drop_first())
    }
}

/// Escaping works character by character: extending the input by one
/// character extends the output by that character's escaped form.
pub proof fn lemma_escape_seq_push(s: Seq<char>, c: char)
    ensures
        escape_seq(s.push(c)) =~= escape_seq(s) + escape_char(c),
    decreases s.len(),
{
    if s.len() == 0 {
        assert(s.push(c).drop_first() =~= Seq::<char>::empty());
        assert(s.push(c)[0] == c);
        assert(escape_seq(s.push(c)) == escape_char(c) + escape_seq(s.push(c).drop_first()));
        assert(escape_seq(s.push(c).drop_first()) == Seq::<char>::empty());
        assert(escape_seq(s) == Seq::<char>::empty());
        assert(escape_seq(s.push(c)) =~= escape_seq(s) + escape_char(c));
    } else {
        assert(s.push(c).drop_first() =~= s.drop_first().push(c));
        assert(s.push(c)[0] == s[0]);
        lemma_escape_seq_push(s.drop_first(), c);
        assert(escape_seq(s.push(c)) == escape_char(s[0]) + escape_seq(s.drop_first().push(c)));
        assert(escape_char(s[0]) + (escape_seq(s.drop_first()) + escape_char(c)) =~= (escape_char(
            s[0],
        ) + escape_seq(s.drop_first())) + escape_char(c));
    }
}

/// Escaping distributes over concatenation.
pub proof fn lemma_escape_seq_app(a: Seq<char>, b: Seq<char>)
    ensures
        escape_seq(a + b) =~= escape_seq(a) + escape_seq(b),
    decreases b.len(),
{
    if b.len() == 0 {
        assert(a + b =~= a);
    } else {
        let b0 = b.drop_last();
        assert(b =~= b0.push(b.last()));
        lemma_escape_seq_app(a, b0);
        lemma_escape_seq_push(b0, b.last());
        lemma_escape_seq_push(a + b0, b.last());
        assert(a + b =~= (a + b0).push(b.last()));
    }
}

/// Escaped text never contains a quote character or an angle bracket:
/// the four characters that could terminate an attribute value or a tag
/// do not survive escaping.
pub proof fn lemma_escape_seq_no_delimiters(s: Seq<char>)
    ensures
        forall|i: int|
            0 <= i < escape_seq(s).len() ==> escape_seq(s)[i] != '"' && escape_seq(s)[i] != '\''
                && escape_seq(s)[i] != '<' && escape_seq(s)[i] != '>',
    decreases s.len(),
{
    reveal_strlit("&quot;");
    reveal_strlit("&apos;");
    reveal_strlit("&lt;");
    reveal_strlit("&gt;");
    reveal_strlit("&amp;");
    if s.len() != 0 {
        lemma_escape_seq_no_delimiters(s.drop_first());
        let e = escape_char(s[0]);
        assert forall|i: int| 0 <= i < e.len() implies e[i] != '"' && e[i] != '\'' && e[i] != '<'
            && e[i] != '>' by {
            if !is_markup_char(s[0]) {
                assert(e[i] == s[0]);
            }
        }
        assert(forall|i: int|
            0 <= i < escape_seq(s).len() ==> escape_seq(s)[i] == (e
                + escape_seq(s.drop_first()))[i]);
    }
}

/// Reading escaped text back: each entity becomes its character, and
/// every other character stands for itself.
pub open spec fn unescape_seq(s: Seq<char>) -> Seq<char>
    decreases s.len(),
{
    if s.len() == 0 {
        Seq::empty()
    } else if s.len() >= 6 && s.subrange(0, 6) == "&quot;"@ {
        seq!['"'] + unescape_seq(s.skip(6))
    } else if s.len() >= 6 && s.subrange(0, 6) == "&apos;"@ {
        seq!['\''] + unescape_seq(s.skip(6))
    } else if s.len() >= 4 && s.subrange(0, 4) == "&lt;"@ {
        seq!['<'] + unescape_seq(s.skip(4))
    } else if s.len() >= 4 && s.subrange(0, 4) == "&gt;"@ {
        seq!['>'] + unescape_seq(s.skip(4))
    } else if s.len() >= 5 && s.subrange(0, 5) == "&amp;"@ {
        seq!['&'] + unescape_seq(s.skip(5))
    } else {
        seq![s[0]] + unescape_seq(s.drop_first())
    }
}

/// Escaping loses nothing: reading the escaped text back gives the
/// original, so the entity substitutions are exactly the expected ones.
pub proof fn lemma_escape_round_trip(s: Seq<char>)
    ensures
        unescape_seq(escape_seq(s)) =~= s,
    decreases s.len(),
{
    reveal_strlit("&quot;");
    reveal_strlit("&apos;");
    reveal_strlit("&lt;");
    reveal_strlit("&gt;");
    reveal_strlit("&amp;");
    if s.len() == 0 {
    } else {
        let c = s[0];
        let e = escape_char(c);
        let rest = escape_seq(s.drop_first());
        let w = e + rest;
        lemma_escape_round_trip(s.drop_first());
        assert(escape_seq(s) == w);
        if c == '"' {
            assert(w.subrange(0, 6) =~= "&quot;"@);
            assert(w.skip(6) =~= rest);
            assert(unescape_seq(w) == seq!['"'] + unescape_seq(w.skip(6)));
            assert(seq!['"'] + s.drop_first() =~= s);
        } else if c == '\'' {
            assert(w.len() >= 6);
            assert(w.subrange(0, 6)[1] == 'a');
            assert(w.subrange(0, 6) != "&quot;"@);
            assert(w.subrange(0, 6) =~= "&apos;"@);
            assert(w.skip(6) =~= rest);
            assert(unescape_seq(w) == seq!['\''] + unescape_seq(w.skip(6)));
            assert(seq!['\''] + s.drop_first() =~= s);
        } else if c == '<' {
            if w.len() >= 6 {
                assert(w.subrange(0, 6)[1] == 'l');
                assert(w.subrange(0, 6) != "&quot;"@);
                assert(w.subrange(0, 6) != "&apos;"@);
            }
            assert(w.subrange(0, 4) =~= "&lt;"@);
            assert(w.skip(4) =~= rest);
            assert(unescape_seq(w) == seq!['<'] + unescape_seq(w.skip(4)));
            assert(seq!['<'] + s.drop_first() =~= s);
        } else if c == '>' {
            if w.len() >= 6 {
                assert(w.subrange(0, 6)[1] == 'g');
                assert(w.subrange(0, 6) != "&quot;"@);
                assert(w.subrange(0, 6) != "&apos;"@);
            }
            assert(w.subrange(0, 4)[1] == 'g');
            assert(w.subrange(0, 4) != "&lt;"@);
            assert(w.subrange(0, 4) =~= "&gt;"@);
            assert(w.skip(4) =~= rest);
            assert(unescape_seq(w) == seq!['>'] + unescape_seq(w.skip(4)));
            assert(seq!['>'] + s.drop_first() =~= s);
        } else if c == '&' {
            if w.len() >= 6 {
                assert(w.subrange(0, 6)[1] == 'a');
                assert(w.subrange(0, 6)[2] == 'm');
                assert(w.subrange(0, 6) != "&quot;"@);
                assert(w.subrange(0, 6) != "&apos;"@);
            }
            assert(w.subrange(0, 4)[1] == 'a');
            assert(w.subrange(0, 4) != "&lt;"@);
            assert(w.subrange(0, 4) != "&gt;"@);
            assert(w.subrange(0, 5) =~= "&amp;"@);
            assert(w.skip(5) =~= rest);
            assert(unescape_seq(w) == seq!['&'] + unescape_seq(w.skip(5)));
            assert(seq!['&'] + s.drop_first() =~= s);
        } else {
            assert(w[0] == c);
            if w.len() >= 6 {
                assert(w.subrange(0, 6)[0] == c);
                assert(w.subrange(0, 6) != "&quot;"@);
                assert(w.subrange(0, 6) != "&apos;"@);
            }
            if w.len() >= 4 {
                assert(w.subrange(0, 4)[0] == c);
                assert(w.subrange(0, 4) != "&lt;"@);
                assert(w.subrange(0, 4) != "&gt;"@);
            }
            if w.len() >= 5 {
                assert(w.subrange(0, 5)[0] == c);
                assert(w.subrange(0, 5) != "&amp;"@);
            }
            assert(w.drop_first() =~= rest);
            assert(unescape_seq(w) == seq![w[0]] + unescape_seq(w.drop_first()));
            assert(seq![c] + s.drop_first() =~= s);
        }
    }
}

/// On text free of markup characters, escaping is the identity.
pub proof fn lemma_escape_seq_identity(s: Seq<char>)
    requires
        forall|i: int| 0 <= i < s.len() ==> !is_markup_char(#[trigger] s[i]),
    ensures
        escape_seq(s) =~= s,
    decreases s.len(),
{
    if s.len() != 0 {
        assert(!is_markup_char(s[0]));
        lemma_escape_seq_identity(s.drop_first());
    }
}

/// Write `s` through the escaping transform: each markup character
/// leaves as its entity, everything else passes unchanged.
pub fn write_escaped<W: SinkWrite>(w: &mut W, s: &str) -> (r: Result<(), WriteError>)
    ensures
        r is Ok ==> final(w).sunk() == old(w).sunk() + escape_seq(s@),
        r is Err ==> !old(w).reliable(),
        final(w).reliable() == old(w).reliable(),
        final(w).owed() == old(w).owed(),
        old(w).sunk().is_prefix_of(final(w).sunk()),
{
    let n = s.unicode_len();
    let mut i: usize = 0;
    while i < n
        invariant
            n == s@.len(),
            0 <= i <= n,
            w.sunk() == old(w).sunk() + escape_seq(s@.subrange(0, i as int)),
            w.reliable() == old(w).reliable(),
            w.owed() == old(w).owed(),
        decreases n - i,
    {
        let c = s.get_char(i);
        let piece: &str = if c == '"' {
            "&quot;"
        } else if c == '\'' {
            "&apos;"
        } else if c == '<' {
            "&lt;"
        } else if c == '>' {
            "&gt;"
        } else if c == '&' {
            "&amp;"
        } else {
            s.substring_char(i, i + 1)
        };
        proof {
            assert(piece@ =~= escape_char(s@[i as int]));
            assert(s@.subrange(0, i + 1) =~= s@.subrange(0, i as int).push(s@[i as int]));
            lemma_escape_seq_push(s@.subrange(0, i as int), s@[i as int]);
        }
        match w.write_str(piece) {
            Ok(()) => {},
            Err(e) => {
                return Err(e);
            },
        }
        i = i + 1;
    }
    proof {
        assert(s@.subrange(0, n as int) =~= s@);
    }
    Ok(())
}

/// Append `s`, escaped, to a string.
pub fn escape_into(out: &mut String, s: &str)
    ensures
        final(out)@ == old(out)@ + escape_seq(s@),
{
    let n = s.unicode_len();
    let mut i: usize = 0;
    while i < n
        invariant
            n == s@.len(),
            0 <= i <= n,
            out@ == old(out)@ + escape_seq(s@.subrange(0, i as int)),
        decreases n - i,
    {
        let c = s.get_char(i);
        let piece: &str = if c == '"' {
            "&quot;"
        } else if c == '\'' {
            "&apos;"
        } else if c == '<' {
            "&lt;"
        } else if c == '>' {
            "&gt;"
        } else if c == '&' {
            "&amp;"
        } else {
            s.substring_char(i, i + 1)
        };
        proof {
            assert(piece@ =~= escape_char(s@[i as int]));
            assert(s@.subrange(0, i + 1) =~= s@.subrange(0, i as int).push(s@[i as int]));
            lemma_escape_seq_push(s@.subrange(0, i as int), s@[i as int]);
        }
        out.append(piece);
        i = i + 1;
    }
    proof {
        assert(s@.subrange(0, n as int) =~= s@);
    }
}

/// A sink adaptor that escapes everything written through it before
/// handing it to the wrapped sink.
pub struct EscapeGuard<W> {
    writer: W,
}

/// Wrap a sink so that nothing written through the wrapper can carry
/// markup meaning.
pub fn escape_guard<W: SinkWrite>(a: W) -> (r: EscapeGuard<W>)
    ensures
        r.sunk() == a.sunk(),
        r.reliable() == a.reliable(),
        r.owed() == a.owed(),
{
    EscapeGuard::new(a)
}

impl<W: SinkWrite> EscapeGuard<W> {
    /// The content of the wrapped sink.
    pub closed spec fn sunk(&self) -> Seq<char> {
        self.writer.sunk()
    }

    /// Whether the wrapped sink accepts every write.
    pub closed spec fn reliable(&self) -> bool {
        self.writer.reliable()
    }

    /// The closing texts the wrapped sink still owes.
    pub closed spec fn owed(&self) -> Seq<Seq<char>> {
        self.writer.owed()
    }

    /// Wrap a sink.
    pub fn new(writer: W) -> (r: EscapeGuard<W>)
        ensures
            r.sunk() == writer.sunk(),
            r.reliable() == writer.reliable(),
            r.owed() == writer.owed(),
    {
        EscapeGuard { writer }
    }

    /// Write `s`, escaped, to the wrapped sink.
    pub fn write_str(&mut self, s: &str) -> (r: Result<(), WriteError>)
        ensures
            r is Ok ==> final(self).sunk() == old(self).sunk() + escape_seq(s@),
            r is Err ==> !old(self).reliable(),
            final(self).reliable() == old(self).reliable(),
            final(self).owed() == old(self).owed(),
            old(self).sunk().is_prefix_of(final(self).sunk()),
    {
        write_escaped(&mut self.writer, s)
    }

    /// Unwrap, handing the sink back.
    pub fn into_inner(self) -> (r: W)
        ensures
            r.sunk() == self.sunk(),
            r.reliable() == self.reliable(),
            r.owed() == self.owed(),
    {
        self.writer
    }
}

/// One rendered attribute: a space, the escaped name, `="`, the escaped
/// value, and the closing quote.
pub open spec fn attr_seq(name: Seq<char>, value: Seq<char>) -> Seq<char> {
    seq![' '] + escape_seq(name) + seq!['=', '"'] + escape_seq(value) + seq!['"']
}

/// The rendered form of a whole attribute list, in order.
pub open spec fn attrs_seq(attrs: Seq<(Seq<char>, Seq<char>)>) -> Seq<char>
    decreases attrs.len(),
{
    if attrs.len() == 0 {
        Seq::empty()
    } else {
        attr_seq(attrs[0].0, attrs[0].1) + attrs_seq(attrs.drop_first())
    }
}

/// The views of a borrowed attribute list.
pub open spec fn attrs_view(attrs: Seq<(&str, &str)>) -> Seq<(Seq<char>, Seq<char>)> {
    attrs.map_values(|p: (&str, &str)| (p.0@, p.1@))
}

/// Rendering attributes one by one appends one rendered attribute at a
/// time.
pub proof fn lemma_attrs_seq_push(attrs: Seq<(Seq<char>, Seq<char>)>, p: (Seq<char>, Seq<char>))
    ensures
        attrs_seq(attrs.push(p)) =~= attrs_seq(attrs) + attr_seq(p.0, p.1),
    decreases attrs.len(),
{
    if attrs.len() == 0 {
        assert(attrs.push(p).drop_first() =~= Seq::<(Seq<char>, Seq<char>)>::empty());
        assert(attrs.push(p)[0] == p);
        assert(attrs_seq(attrs.push(p)) == attr_seq(p.0, p.1) + attrs_seq(
            attrs.push(p).drop_first(),
        ));
        assert(attrs_seq(attrs.push(p).drop_first()) == Seq::<char>::empty());
        assert(attrs_seq(attrs) == Seq::<char>::empty());
    } else {
        assert(attrs.push(p).drop_first() =~= attrs.drop_first().push(p));
        assert(attrs.push(p)[0] == attrs[0]);
        lemma_attrs_seq_push(attrs.drop_first(), p);
        assert(attrs_seq(attrs.push(p)) == attr_seq(attrs[0].0, attrs[0].1) + attrs_seq(
            attrs.drop_first().push(p),
        ));
    }
}

/// The opening of an element: `<`, the escaped tag, and the rendered
/// attributes, with the final `>` or `/>` still to come.
pub open spec fn open_start_seq(tag: Seq<char>, attrs: Seq<(Seq<char>, Seq<char>)>) -> Seq<char> {
    seq!['<'] + escape_seq(tag) + attrs_seq(attrs)
}

/// A complete opening tag.
pub open spec fn open_seq(tag: Seq<char>, attrs: Seq<(Seq<char>, Seq<char>)>) -> Seq<char> {
    open_start_seq(tag, attrs) + seq!['>']
}

/// A complete self-closing element: nothing stands between the
/// attribute list and the `/>` marker.
pub open spec fn single_seq(tag: Seq<char>, attrs: Seq<(Seq<char>, Seq<char>)>) -> Seq<char> {
    open_start_seq(tag, attrs) + seq!['/', '>']
}

/// A closing tag.
pub open spec fn close_seq(tag: Seq<char>) -> Seq<char> {
    seq!['<', '/'] + escape_seq(tag) + seq!['>']
}

/// A self-closing element never has content: whatever the tag and
/// attributes, its whole text is the opening marker, the rendered
/// attribute list, and then immediately the `/>` marker.
pub proof fn lemma_single_has_no_content(tag: Seq<char>, attrs: Seq<(Seq<char>, Seq<char>)>)
    ensures
        single_seq(tag, attrs) =~= seq!['<'] + escape_seq(tag) + attrs_seq(attrs) + seq!['/', '>'],
{
}

/// Render `<`, the escaped tag and the attribute list into a string.
fn render_open_start(tag: &str, attrs: &[(&str, &str)]) -> (r: String)
    ensures
        r@ == open_start_seq(tag@, attrs_view(attrs@)),
{
    let mut out = String::new();
    out.append("<");
    proof {
        reveal_strlit("<");
        assert("<"@ =~= seq!['<']);
    }
    escape_into(&mut out, tag);
    let n = attrs.len();
    let mut i: usize = 0;
    while i < n
        invariant
            n == attrs@.len(),
            0 <= i <= n,
            out@ == open_start_seq(tag@, attrs_view(attrs@.subrange(0, i as int))),
        decreases n - i,
    {
        let ghost pre = out@;
        let (name, value) = attrs[i];
        out.append(" ");
        escape_into(&mut out, name);
        out.append("=\"");
        escape_into(&mut out, value);
        out.append("\"");
        proof {
            reveal_strlit(" ");
            reveal_strlit("=\"");
            reveal_strlit("\"");
            assert(" "@ =~= seq![' ']);
            assert("=\""@ =~= seq!['=', '"']);
            assert("\""@ =~= seq!['"']);
            assert(out@ =~= pre + attr_seq(name@, value@));
            assert(attrs@.subrange(0, i + 1) =~= attrs@.subrange(0, i as int).push(
                attrs@[i as int],
            ));
            assert(attrs_view(attrs@.subrange(0, i + 1)) =~= attrs_view(
                attrs@.subrange(0, i as int),
            ).push((attrs@[i as int].0@, attrs@[i as int].1@)));
            lemma_attrs_seq_push(
                attrs_view(attrs@.subrange(0, i as int)),
                (attrs@[i as int].0@, attrs@[i as int].1@),
            );
            assert(out@ =~= open_start_seq(tag@, attrs_view(attrs@.subrange(0, i + 1))));
        }
        i = i + 1;
    }
    proof {
        assert(attrs@.subrange(0, n as int) =~= attrs@);
    }
    out
}

/// The empty attribute list: for elements that need no attributes.
pub fn no_attr() -> (r: &'static [(&'static str, &'static str)])
    ensures
        r@.len() == 0,
{
    &[]
}

/// Create the initial element writer over a sink.
pub fn new<W: SinkWrite>(a: W) -> (r: ElemWriter<W>)
    ensures
        r.sunk() == a.sunk(),
        r.reliable() == a.reliable(),
        r.owed() == a.owed(),
{
    ElemWriter { writer: a }
}

/// Writes elements: self-closing ones in one call, ones with content by
/// handing out an attribute writer for the opened child.
pub struct ElemWriter<W: SinkWrite> {
    writer: W,
}

impl<W: SinkWrite> ElemWriter<W> {
    /// The characters written to the underlying sink so far.
    pub closed spec fn sunk(&self) -> Seq<char> {
        self.writer.sunk()
    }

    /// Whether the underlying sink accepts every write.
    pub closed spec fn reliable(&self) -> bool {
        self.writer.reliable()
    }

    /// The closing texts the underlying sink still owes.
    pub closed spec fn owed(&self) -> Seq<Seq<char>> {
        self.writer.owed()
    }

    /// Hand the sink back.
    pub fn into_writer(self) -> (r: W)
        ensures
            r.sunk() == self.sunk(),
            r.reliable() == self.reliable(),
            r.owed() == self.owed(),
    {
        self.writer
    }

    /// Borrow the sink itself.  Text written through it bypasses all
    /// escaping, so it can carry markup meaning.
    pub fn writer_escapable(&mut self) -> (r: &mut W)
        ensures
            r.sunk() == old(self).sunk(),
            r.reliable() == old(self).reliable(),
            r.owed() == old(self).owed(),
            final(self).sunk() == final(r).sunk(),
            final(self).reliable() == final(r).reliable(),
            final(self).owed() == final(r).owed(),
    {
        &mut self.writer
    }

    /// Write a space and then `a`, escaped, as loose content.
    pub fn put_raw(&mut self, a: &str) -> (r: Result<(), WriteError>)
        ensures
            r is Ok ==> final(self).sunk() == old(self).sunk() + seq![' '] + escape_seq(a@),
            r is Err ==> !old(self).reliable(),
            final(self).reliable() == old(self).reliable(),
            final(self).owed() == old(self).owed(),
            old(self).sunk().is_prefix_of(final(self).sunk()),
    {
        let mut out = String::new();
        out.append(" ");
        escape_into(&mut out, a);
        proof {
            reveal_strlit(" ");
            assert(" "@ =~= seq![' ']);
            assert(out@ =~= seq![' '] + escape_seq(a@));
        }
        self.writer.write_str(out.as_str())
    }

    /// Write a space and then `a` exactly as given.  Text written this
    /// way can carry markup meaning.
    pub fn put_raw_escapable(&mut self, a: &str) -> (r: Result<(), WriteError>)
        ensures
            r is Ok ==> final(self).sunk() == old(self).sunk() + seq![' '] + a@,
            r is Err ==> !old(self).reliable(),
            final(self).reliable() == old(self).reliable(),
            final(self).owed() == old(self).owed(),
            old(self).sunk().is_prefix_of(final(self).sunk()),
    {
        let r = self.writer.write_str(" ");
        if let Err(e) = r {
            return Err(e);
        }
        proof {
            reveal_strlit(" ");
            assert(" "@ =~= seq![' ']);
        }
        self.writer.write_str(a)
    }

    /// Write a whole self-closing element: the tag, the attributes in
    /// order, and `/>`, with no content in between.
    pub fn single(&mut self, tag: &str, attrs: &[(&str, &str)]) -> (r: Result<(), WriteError>)
        ensures
            r is Ok ==> final(self).sunk() == old(self).sunk() + single_seq(
                tag@,
                attrs_view(attrs@),
            ),
            r is Err ==> !old(self).reliable(),
            final(self).reliable() == old(self).reliable(),
            final(self).owed() == old(self).owed(),
            old(self).sunk().is_prefix_of(final(self).sunk()),
    {
        let mut out = render_open_start(tag, attrs);
        out.append("/>");
        proof {
            reveal_strlit("/>");
            assert("/>"@ =~= seq!['/', '>']);
            assert(out@ =~= single_seq(tag@, attrs_view(attrs@)));
        }
        self.writer.write_str(out.as_str())
    }

    /// Open a child element with the given attributes, writing its
    /// complete opening tag.  The returned handle owes the sink exactly
    /// one closing tag, discharged by [`ElementBridge::build`].
    pub fn elem(self, tag: &str, attrs: &[(&str, &str)]) -> (r: Result<
        ElementBridge<W>,
        WriteError,
    >)
        ensures
            r matches Ok(b) ==> b.sunk() == self.sunk() + open_seq(tag@, attrs_view(attrs@))
                && b.tag() == tag@ && b.reliable() == self.reliable() && b.owed()
                == self.owed().push(close_seq(tag@)),
            r is Err ==> !self.reliable(),
    {
        let mut out = render_open_start(tag, attrs);
        out.append(">");
        proof {
            reveal_strlit(">");
            assert(">"@ =~= seq!['>']);
            assert(out@ =~= open_seq(tag@, attrs_view(attrs@)));
        }
        let mut writer = self.writer;
        if let Err(e) = writer.write_str(out.as_str()) {
            return Err(e);
        }
        Ok(ElementBridge { writer, tag: String::from_str(tag) })
    }

    /// Open a child element and hand out its attribute writer, for
    /// attributes that are built up piece by piece.
    pub fn elem_open(self, tag: &str) -> (r: Result<AttrWriter<W>, WriteError>)
        ensures
            r matches Ok(a) ==> a.sunk() == self.sunk() + seq!['<'] + escape_seq(tag@) && a.tag()
                == tag@ && a.reliable() == self.reliable() && a.owed() == self.owed(),
            r is Err ==> !self.reliable(),
    {
        let mut out = String::new();
        out.append("<");
        escape_into(&mut out, tag);
        proof {
            reveal_strlit("<");
            assert("<"@ =~= seq!['<']);
            assert(out@ =~= seq!['<'] + escape_seq(tag@));
        }
        let mut writer = self.writer;
        if let Err(e) = writer.write_str(out.as_str()) {
            return Err(e);
        }
        Ok(AttrWriter { writer, tag: String::from_str(tag) })
    }
}

/// The attribute phase of one opened element: appends `name="value"`
/// pairs until the opening tag is finished with `build` or
/// `build_empty`.
pub struct AttrWriter<W: SinkWrite> {
    writer: W,
    tag: String,
}

impl<W: SinkWrite> AttrWriter<W> {
    /// The characters written to the underlying sink so far.
    pub closed spec fn sunk(&self) -> Seq<char> {
        self.writer.sunk()
    }

    /// Whether the underlying sink accepts every write.
    pub closed spec fn reliable(&self) -> bool {
        self.writer.reliable()
    }

    /// The tag of the element being opened.
    pub closed spec fn tag(&self) -> Seq<char> {
        self.tag@
    }

    /// The closing texts the underlying sink still owes.
    pub closed spec fn owed(&self) -> Seq<Seq<char>> {
        self.writer.owed()
    }

    /// Write one attribute, escaping its name and value.
    pub fn attr(&mut self, a: &str, b: &str) -> (r: Result<(), WriteError>)
        ensures
            r is Ok ==> final(self).sunk() == old(self).sunk() + attr_seq(a@, b@),
            r is Err ==> !old(self).reliable(),
            final(self).reliable() == old(self).reliable(),
            final(self).tag() == old(self).tag(),
            final(self).owed() == old(self).owed(),
            old(self).sunk().is_prefix_of(final(self).sunk()),
    {
        let mut out = String::new();
        out.append(" ");
        escape_into(&mut out, a);
        out.append("=\"");
        escape_into(&mut out, b);
        out.append("\"");
        proof {
            reveal_strlit(" ");
            reveal_strlit("=\"");
            reveal_strlit("\"");
            assert(" "@ =~= seq![' ']);
            assert("=\""@ =~= seq!['=', '"']);
            assert("\""@ =~= seq!['"']);
            assert(out@ =~= attr_seq(a@, b@));
        }
        self.writer.write_str(out.as_str())
    }

    /// Borrow the sink itself.  Text written through it bypasses all
    /// escaping, so it can carry markup meaning.
    pub fn writer_escapable(&mut self) -> (r: &mut W)
        ensures
            r.sunk() == old(self).sunk(),
            r.reliable() == old(self).reliable(),
            r.owed() == old(self).owed(),
            final(self).sunk() == final(r).sunk(),
            final(self).reliable() == final(r).reliable(),
            final(self).owed() == final(r).owed(),
            final(self).tag() == old(self).tag(),
    {
        &mut self.writer
    }

    /// Write a space and then `a`, escaped, into the attribute list.
    pub fn put_raw(&mut self, a: &str) -> (r: Result<(), WriteError>)
        ensures
            r is Ok ==> final(self).sunk() == old(self).sunk() + seq![' '] + escape_seq(a@),
            r is Err ==> !old(self).reliable(),
            final(self).reliable() == old(self).reliable(),
            final(self).tag() == old(self).tag(),
            final(self).owed() == old(self).owed(),
            old(self).sunk().is_prefix_of(final(self).sunk()),
    {
        let mut out = String::new();
        out.append(" ");
        escape_into(&mut out, a);
        proof {
            reveal_strlit(" ");
            assert(" "@ =~= seq![' ']);
            assert(out@ =~= seq![' '] + escape_seq(a@));
        }
        self.writer.write_str(out.as_str())
    }

    /// Write a space and then `a` exactly as given.  Text written this
    /// way can carry markup meaning.
    pub fn put_raw_escapable(&mut self, a: &str) -> (r: Result<(), WriteError>)
        ensures
            r is Ok ==> final(self).sunk() == old(self).sunk() + seq![' '] + a@,
            r is Err ==> !old(self).reliable(),
            final(self).reliable() == old(self).reliable(),
            final(self).tag() == old(self).tag(),
            final(self).owed() == old(self).owed(),
            old(self).sunk().is_prefix_of(final(self).sunk()),
    {
        let r = self.writer.write_str(" ");
        if let Err(e) = r {
            return Err(e);
        }
        proof {
            reveal_strlit(" ");
            assert(" "@ =~= seq![' ']);
        }
        self.writer.write_str(a)
    }

    /// Finish the opening tag with `>`, entering the content phase.
    pub fn build(self) -> (r: Result<ElementBridge<W>, WriteError>)
        ensures
            r matches Ok(b) ==> b.sunk() == self.sunk() + seq!['>'] && b.tag() == self.tag()
                && b.reliable() == self.reliable() && b.owed() == self.owed().push(
                close_seq(self.tag()),
            ),
            r is Err ==> !self.reliable(),
    {
        let mut writer = self.writer;
        if let Err(e) = writer.write_str(">") {
            return Err(e);
        }
        proof {
            reveal_strlit(">");
            assert(">"@ =~= seq!['>']);
        }
        Ok(ElementBridge { writer, tag: self.tag })
    }

    /// Finish the element with `/>`: it never had content, and no
    /// closing tag is owed.
    pub fn build_empty(self) -> (r: Result<ElemWriter<W>, WriteError>)
        ensures
            r matches Ok(w) ==> w.sunk() == self.sunk() + seq!['/', '>'] && w.reliable()
                == self.reliable() && w.owed() == self.owed(),
            r is Err ==> !self.reliable(),
    {
        let mut writer = self.writer;
        if let Err(e) = writer.write_str("/>") {
            return Err(e);
        }
        proof {
            reveal_strlit("/>");
            assert("/>"@ =~= seq!['/', '>']);
        }
        Ok(ElemWriter { writer })
    }

    /// Begin a path-data attribute, writing ` d="`.
    pub fn path(self) -> (r: Result<PathBuilder<W>, WriteError>)
        ensures
            r matches Ok(p) ==> p.sunk() == self.sunk() + " d=\""@ && p.tag() == self.tag()
                && p.reliable() == self.reliable() && p.owed() == self.owed(),
            r is Err ==> !self.reliable(),
    {
        let mut writer = self.writer;
        if let Err(e) = writer.write_str(" d=\"") {
            return Err(e);
        }
        Ok(PathBuilder { writer, tag: self.tag })
    }

    /// Begin a coordinate-list attribute, writing ` points="`.
    pub fn points(self) -> (r: Result<PointsBuilder<W>, WriteError>)
        ensures
            r matches Ok(p) ==> p.sunk() == self.sunk() + " points=\""@ && p.tag() == self.tag()
                && p.reliable() == self.reliable() && p.owed() == self.owed(),
            r is Err ==> !self.reliable(),
    {
        let mut writer = self.writer;
        if let Err(e) = writer.write_str(" points=\"") {
            return Err(e);
        }
        Ok(PointsBuilder { writer, tag: self.tag })
    }
}

/// The content phase of one open element.  It owes the sink exactly one
/// closing tag — the last entry of its `owed()` record — which
/// [`ElementBridge::build`] writes.  It is itself a sink, so nested
/// children are written through it, and writing never disturbs what is
/// owed.
pub struct ElementBridge<W: SinkWrite> {
    writer: W,
    tag: String,
}

impl<W: SinkWrite> ElementBridge<W> {
    /// The tag whose closing tag this handle owes.
    pub closed spec fn tag(&self) -> Seq<char> {
        self.tag@
    }

    /// Write escaped text as the element's content.
    pub fn write_text(&mut self, s: &str) -> (r: Result<(), WriteError>)
        ensures
            r is Ok ==> final(self).sunk() == old(self).sunk() + escape_seq(s@),
            r is Err ==> !old(self).reliable(),
            final(self).reliable() == old(self).reliable(),
            final(self).tag() == old(self).tag(),
            final(self).owed() == old(self).owed(),
            old(self).sunk().is_prefix_of(final(self).sunk()),
    {
        write_escaped(&mut self.writer, s)
    }

    /// Write a whole self-closing child element: the tag, the
    /// attributes in order, and `/>`, with no content in between.
    pub fn single(&mut self, tag: &str, attrs: &[(&str, &str)]) -> (r: Result<(), WriteError>)
        ensures
            r is Ok ==> final(self).sunk() == old(self).sunk() + single_seq(
                tag@,
                attrs_view(attrs@),
            ),
            r is Err ==> !old(self).reliable(),
            final(self).reliable() == old(self).reliable(),
            final(self).tag() == old(self).tag(),
            final(self).owed() == old(self).owed(),
            old(self).sunk().is_prefix_of(final(self).sunk()),
    {
        let mut out = render_open_start(tag, attrs);
        out.append("/>");
        proof {
            reveal_strlit("/>");
            assert("/>"@ =~= seq!['/', '>']);
            assert(out@ =~= single_seq(tag@, attrs_view(attrs@)));
        }
        self.writer.write_str(out.as_str())
    }

    /// Open a child element and hand out its attribute writer; the
    /// child's closing tag is owed on top of this element's own.
    pub fn elem_open(self, tag: &str) -> (r: Result<AttrWriter<ElementBridge<W>>, WriteError>)
        ensures
            r matches Ok(a) ==> a.sunk() == self.sunk() + seq!['<'] + escape_seq(tag@) && a.tag()
                == tag@ && a.reliable() == self.reliable() && a.owed() == self.owed(),
            r is Err ==> !self.reliable(),
    {
        let mut out = String::new();
        out.append("<");
        escape_into(&mut out, tag);
        proof {
            reveal_strlit("<");
            assert("<"@ =~= seq!['<']);
            assert(out@ =~= seq!['<'] + escape_seq(tag@));
        }
        let mut writer = self;
        if let Err(e) = writer.write_str(out.as_str()) {
            return Err(e);
        }
        Ok(AttrWriter { writer, tag: String::from_str(tag) })
    }

    /// Write text exactly as given as the element's content, for
    /// embedding markup rendered elsewhere.
    pub fn write_raw(&mut self, s: &str) -> (r: Result<(), WriteError>)
        ensures
            r is Ok ==> final(self).sunk() == old(self).sunk() + s@,
            r is Err ==> !old(self).reliable(),
            final(self).reliable() == old(self).reliable(),
            final(self).tag() == old(self).tag(),
            final(self).owed() == old(self).owed(),
            old(self).sunk().is_prefix_of(final(self).sunk()),
    {
        self.writer.write_str(s)
    }

    /// Close the element, writing `</tag>`.
    pub fn build(self) -> (r: Result<ElemWriter<W>, WriteError>)
        ensures
            r matches Ok(w) ==> w.sunk() == self.sunk() + close_seq(self.tag()) && w.sunk()
                == self.sunk() + self.owed().last() && w.owed() == self.owed().drop_last()
                && w.reliable() == self.reliable(),
            r is Err ==> !self.reliable(),
    {
        proof {
            assert(self.owed().last() == close_seq(self.tag@));
            assert(self.owed().drop_last() =~= self.writer.owed());
        }
        let mut out = String::new();
        out.append("</");
        escape_into(&mut out, self.tag.as_str());
        out.append(">");
        proof {
            reveal_strlit("</");
            reveal_strlit(">");
            assert("</"@ =~= seq!['<', '/']);
            assert(">"@ =~= seq!['>']);
            assert(out@ =~= close_seq(self.tag@));
        }
        let mut writer = self.writer;
        if let Err(e) = writer.write_str(out.as_str()) {
            return Err(e);
        }
        Ok(ElemWriter { writer })
    }
}

impl<W: SinkWrite> SinkWrite for ElementBridge<W> {
    closed spec fn sunk(&self) -> Seq<char> {
        self.writer.sunk()
    }

    closed spec fn reliable(&self) -> bool {
        self.writer.reliable()
    }

    closed spec fn owed(&self) -> Seq<Seq<char>> {
        self.writer.owed().push(close_seq(self.tag@))
    }

    fn write_str(&mut self, s: &str) -> (r: Result<(), WriteError>)
        ensures
            final(self).tag() == old(self).tag(),
    {
        self.writer.write_str(s)
    }
}

/// Builds one path-data attribute value, command by command.
pub struct PathBuilder<W: SinkWrite> {
    writer: W,
    tag: String,
}

impl<W: SinkWrite> PathBuilder<W> {
    /// The characters written to the underlying sink so far.
    pub closed spec fn sunk(&self) -> Seq<char> {
        self.writer.sunk()
    }

    /// Whether the underlying sink accepts every write.
    pub closed spec fn reliable(&self) -> bool {
        self.writer.reliable()
    }

    /// The tag of the element being opened.
    pub closed spec fn tag(&self) -> Seq<char> {
        self.tag@
    }

    /// The closing texts the underlying sink still owes.
    pub closed spec fn owed(&self) -> Seq<Seq<char>> {
        self.writer.owed()
    }

    /// Append one path command in its textual form.
    pub fn put(&mut self, command: &PathCommand<i64>) -> (r: Result<(), WriteError>)
        ensures
            r is Ok ==> final(self).sunk() == old(self).sunk() + cmd_seq(*command),
            r is Err ==> !old(self).reliable(),
            final(self).reliable() == old(self).reliable(),
            final(self).tag() == old(self).tag(),
            final(self).owed() == old(self).owed(),
            old(self).sunk().is_prefix_of(final(self).sunk()),
    {
        let out = command.render();
        self.writer.write_str(out.as_str())
    }

    /// Close the attribute's quote and return to the attribute list.
    pub fn finish(self) -> (r: Result<AttrWriter<W>, WriteError>)
        ensures
            r matches Ok(a) ==> a.sunk() == self.sunk() + seq!['"'] && a.tag() == self.tag()
                && a.reliable() == self.reliable() && a.owed() == self.owed(),
            r is Err ==> !self.reliable(),
    {
        let mut writer = self.writer;
        if let Err(e) = writer.write_str("\"") {
            return Err(e);
        }
        proof {
            reveal_strlit("\"");
            assert("\""@ =~= seq!['"']);
        }
        Ok(AttrWriter { writer, tag: self.tag })
    }
}

/// Builds one coordinate-list attribute value, point by point.
pub struct PointsBuilder<W: SinkWrite> {
    writer: W,
    tag: String,
}

impl<W: SinkWrite> PointsBuilder<W> {
    /// The characters written to the underlying sink so far.
    pub closed spec fn sunk(&self) -> Seq<char> {
        self.writer.sunk()
    }

    /// Whether the underlying sink accepts every write.
    pub closed spec fn reliable(&self) -> bool {
        self.writer.reliable()
    }

    /// The tag of the element being opened.
    pub closed spec fn tag(&self) -> Seq<char> {
        self.tag@
    }

    /// The closing texts the underlying sink still owes.
    pub closed spec fn owed(&self) -> Seq<Seq<char>> {
        self.writer.owed()
    }

    /// Append one `x,y ` pair.
    pub fn put(&mut self, x: i64, y: i64) -> (r: Result<(), WriteError>)
        ensures
            r is Ok ==> final(self).sunk() == old(self).sunk() + point_seq(x, y),
            r is Err ==> !old(self).reliable(),
            final(self).reliable() == old(self).reliable(),
            final(self).tag() == old(self).tag(),
            final(self).owed() == old(self).owed(),
            old(self).sunk().is_prefix_of(final(self).sunk()),
    {
        let mut out = crate::num::fmt_i64(x);
        out.append(",");
        let ys = crate::num::fmt_i64(y);
        out.append(ys.as_str());
        out.append(" ");
        proof {
            reveal_strlit(",");
            reveal_strlit(" ");
            assert(","@ =~= seq![',']);
            assert(" "@ =~= seq![' ']);
            assert(out@ =~= point_seq(x, y));
        }
        self.writer.write_str(out.as_str())
    }

    /// Close the attribute's quote and return to the attribute list.
    pub fn finish(self) -> (r: Result<AttrWriter<W>, WriteError>)
        ensures
            r matches Ok(a) ==> a.sunk() == self.sunk() + seq!['"'] && a.tag() == self.tag()
                && a.reliable() == self.reliable() && a.owed() == self.owed(),
            r is Err ==> !self.reliable(),
    {
        let mut writer = self.writer;
        if let Err(e) = writer.write_str("\"") {
            return Err(e);
        }
        proof {
            reveal_strlit("\"");
            assert("\""@ =~= seq!['"']);
        }
        Ok(AttrWriter { writer, tag: self.tag })
    }
}

/// One `x,y ` unit of a coordinate list.
pub open spec fn point_seq(x: i64, y: i64) -> Seq<char> {
    crate::num::dec_i64(x) + seq![','] + crate::num::dec_i64(y) + seq![' ']
}

/// One SVG path command, with absolute and relative forms.
pub enum PathCommand<F> {
    /// move to
    M(F, F),
    /// relative move to
    M_(F, F),
    /// line to
    L(F, F),
    /// relative line to
    L_(F, F),
    /// horizontal to
    H(F),
    /// relative horizontal to
    H_(F),
    /// vertical to
    V(F),
    /// relative vertical to
    V_(F),
    /// curve to
    C(F, F, F, F, F, F),
    /// relative curve to
    C_(F, F, F, F, F, F),
    /// shorthand curve to
    S(F, F, F, F),
    /// relative shorthand curve to
    S_(F, F, F, F),
    /// quadratic bezier curve to
    Q(F, F, F, F),
    /// relative quadratic bezier curve to
    Q_(F, F, F, F),
    /// shorthand quadratic bezier curve to
    T(F, F),
    /// relative shorthand quadratic bezier curve to
    T_(F, F),
    /// elliptical arc
    A(F, F, F, F, F, F, F),
    /// relative elliptical arc
    A_(F, F, F, F, F, F, F),
    /// close path
    Z(F),
}

/// A command letter followed by two numbers: ` K x y`.
pub open spec fn cmd2_seq(letter: char, x: i64, y: i64) -> Seq<char> {
    seq![' ', letter, ' '] + crate::num::dec_i64(x) + seq![' '] + crate::num::dec_i64(y)
}

/// A command letter followed by one number: ` K a`.
pub open spec fn cmd1_seq(letter: char, a: i64) -> Seq<char> {
    seq![' ', letter, ' '] + crate::num::dec_i64(a)
}

/// A command letter followed by three comma-separated coordinate
/// pairs: ` K x1 y1, x2 y2, x y`.
pub open spec fn cmd6_seq(letter: char, x1: i64, y1: i64, x2: i64, y2: i64, x: i64, y: i64) -> Seq<
    char,
> {
    seq![' ', letter, ' '] + crate::num::dec_i64(x1) + seq![' '] + crate::num::dec_i64(y1) + seq![
        ',',
        ' ',
    ] + crate::num::dec_i64(x2) + seq![' '] + crate::num::dec_i64(y2) + seq![',', ' ']
        + crate::num::dec_i64(x) + seq![' '] + crate::num::dec_i64(y)
}

/// A command letter followed by a comma-joined pair and a plain pair:
/// ` K x2,y2 x y`.
pub open spec fn cmd4s_seq(letter: char, x2: i64, y2: i64, x: i64, y: i64) -> Seq<char> {
    seq![' ', letter, ' '] + crate::num::dec_i64(x2) + seq![','] + crate::num::dec_i64(y2) + seq![
        ' ',
    ] + crate::num::dec_i64(x) + seq![' '] + crate::num::dec_i64(y)
}

/// A command letter followed by two comma-separated coordinate pairs:
/// ` K x1 y1, x y`.
pub open spec fn cmd4q_seq(letter: char, x1: i64, y1: i64, x: i64, y: i64) -> Seq<char> {
    seq![' ', letter, ' '] + crate::num::dec_i64(x1) + seq![' '] + crate::num::dec_i64(y1) + seq![
        ',',
        ' ',
    ] + crate::num::dec_i64(x) + seq![' '] + crate::num::dec_i64(y)
}

/// A command letter followed by seven numbers: ` K a b c d e f g`.
pub open spec fn cmd7_seq(
    letter: char,
    rx: i64,
    ry: i64,
    rot: i64,
    large: i64,
    sweep: i64,
    x: i64,
    y: i64,
) -> Seq<char> {
    seq![' ', letter, ' '] + crate::num::dec_i64(rx) + seq![' '] + crate::num::dec_i64(ry) + seq![
        ' ',
    ] + crate::num::dec_i64(rot) + seq![' '] + crate::num::dec_i64(large) + seq![' ']
        + crate::num::dec_i64(sweep) + seq![' '] + crate::num::dec_i64(x) + seq![' ']
        + crate::num::dec_i64(y)
}

/// The textual form of one path command.
pub open spec fn cmd_seq(cmd: PathCommand<i64>) -> Seq<char> {
    match cmd {
        PathCommand::M(x, y) => cmd2_seq('M', x, y),
        PathCommand::M_(x, y) => cmd2_seq('m', x, y),
        PathCommand::L(x, y) => cmd2_seq('L', x, y),
        PathCommand::L_(x, y) => cmd2_seq('l', x, y),
        PathCommand::H(a) => cmd1_seq('H', a),
        PathCommand::H_(a) => cmd1_seq('h', a),
        PathCommand::V(a) => cmd1_seq('V', a),
        PathCommand::V_(a) => cmd1_seq('v', a),
        PathCommand::C(x1, y1, x2, y2, x, y) => cmd6_seq('C', x1, y1, x2, y2, x, y),
        PathCommand::C_(x1, y1, x2, y2, x, y) => cmd6_seq('c', x1, y1, x2, y2, x, y),
        PathCommand::S(x2, y2, x, y) => cmd4s_seq('S', x2, y2, x, y),
        PathCommand::S_(x2, y2, x, y) => cmd4s_seq('s', x2, y2, x, y),
        PathCommand::Q(x1, y1, x, y) => cmd4q_seq('Q', x1, y1, x, y),
        PathCommand::Q_(x1, y1, x, y) => cmd4q_seq('q', x1, y1, x, y),
        PathCommand::T(x, y) => cmd2_seq('T', x, y),
        PathCommand::T_(x, y) => cmd2_seq('t', x, y),
        PathCommand::A(rx, ry, rot, la, sw, x, y) => cmd7_seq('A', rx, ry, rot, la, sw, x, y),
        PathCommand::A_(rx, ry, rot, la, sw, x, y) => cmd7_seq('a', rx, ry, rot, la, sw, x, y),
        PathCommand::Z(_) => seq![' ', 'Z'],
    }
}

impl<F> PathCommand<F> {
    /// Apply `func` to every coordinate, keeping the command's shape.
    pub fn map<J, G: Fn(F) -> J>(self, func: G) -> (r: PathCommand<J>)
        requires
            forall|x: F| #[trigger] call_requires(func, (x,)),
        ensures
            (match (self, r) {
                (PathCommand::M(x, y), PathCommand::M(a, b)) => call_ensures(func, (x,), a)
                    && call_ensures(func, (y,), b),
                (PathCommand::M_(x, y), PathCommand::M_(a, b)) => call_ensures(func, (x,), a)
                    && call_ensures(func, (y,), b),
                (PathCommand::L(x, y), PathCommand::L(a, b)) => call_ensures(func, (x,), a)
                    && call_ensures(func, (y,), b),
                (PathCommand::L_(x, y), PathCommand::L_(a, b)) => call_ensures(func, (x,), a)
                    && call_ensures(func, (y,), b),
                (PathCommand::H(x), PathCommand::H(a)) => call_ensures(func, (x,), a),
                (PathCommand::H_(x), PathCommand::H_(a)) => call_ensures(func, (x,), a),
                (PathCommand::V(x), PathCommand::V(a)) => call_ensures(func, (x,), a),
                (PathCommand::V_(x), PathCommand::V_(a)) => call_ensures(func, (x,), a),
                (PathCommand::C(x1, y1, x2, y2, x, y), PathCommand::C(a1, b1, a2, b2, a, b)) =>
                    call_ensures(func, (x1,), a1) && call_ensures(func, (y1,), b1) && call_ensures(
                        func,
                        (x2,),
                        a2,
                    ) && call_ensures(func, (y2,), b2) && call_ensures(func, (x,), a)
                        && call_ensures(func, (y,), b),
                (PathCommand::C_(x1, y1, x2, y2, x, y), PathCommand::C_(a1, b1, a2, b2, a, b)) =>
                    call_ensures(func, (x1,), a1) && call_ensures(func, (y1,), b1) && call_ensures(
                        func,
                        (x2,),
                        a2,
                    ) && call_ensures(func, (y2,), b2) && call_ensures(func, (x,), a)
                        && call_ensures(func, (y,), b),
                (PathCommand::S(x2, y2, x, y), PathCommand::S(a2, b2, a, b)) => call_ensures(
                    func,
                    (x2,),
                    a2,
                ) && call_ensures(func, (y2,), b2) && call_ensures(func, (x,), a) && call_ensures(
                    func,
                    (y,),
                    b,
                ),
                (PathCommand::S_(x2, y2, x, y), PathCommand::S_(a2, b2, a, b)) => call_ensures(
                    func,
                    (x2,),
                    a2,
                ) && call_ensures(func, (y2,), b2) && call_ensures(func, (x,), a) && call_ensures(
                    func,
                    (y,),
                    b,
                ),
                (PathCommand::Q(x1, y1, x, y), PathCommand::Q(a1, b1, a, b)) => call_ensures(
                    func,
                    (x1,),
                    a1,
                ) && call_ensures(func, (y1,), b1) && call_ensures(func, (x,), a) && call_ensures(
                    func,
                    (y,),
                    b,
                ),
                (PathCommand::Q_(x1, y1, x, y), PathCommand::Q_(a1, b1, a, b)) => call_ensures(
                    func,
                    (x1,),
                    a1,
                ) && call_ensures(func, (y1,), b1) && call_ensures(func, (x,), a) && call_ensures(
                    func,
                    (y,),
                    b,
                ),
                (PathCommand::T(x, y), PathCommand::T(a, b)) => call_ensures(func, (x,), a)
                    && call_ensures(func, (y,), b),
                (PathCommand::T_(x, y), PathCommand::T_(a, b)) => call_ensures(func, (x,), a)
                    && call_ensures(func, (y,), b),
                (PathCommand::A(x1, y1, x2, y2, x3, x, y), PathCommand::A(a1, b1, a2, b2, a3, a, b))
                    => call_ensures(func, (x1,), a1) && call_ensures(func, (y1,), b1)
                    && call_ensures(func, (x2,), a2) && call_ensures(func, (y2,), b2)
                    && call_ensures(func, (x3,), a3) && call_ensures(func, (x,), a) && call_ensures(
                    func,
                    (y,),
                    b,
                ),
                (
                    PathCommand::A_(x1, y1, x2, y2, x3, x, y),
                    PathCommand::A_(a1, b1, a2, b2, a3, a, b),
                ) => call_ensures(func, (x1,), a1) && call_ensures(func, (y1,), b1) && call_ensures(
                    func,
                    (x2,),
                    a2,
                ) && call_ensures(func, (y2,), b2) && call_ensures(func, (x3,), a3) && call_ensures(
                    func,
                    (x,),
                    a,
                ) && call_ensures(func, (y,), b),
                (PathCommand::Z(x), PathCommand::Z(a)) => call_ensures(func, (x,), a),
                _ => false,
            }),
    {
        match self {
            PathCommand::M(x, y) => PathCommand::M(func(x), func(y)),
            PathCommand::M_(x, y) => PathCommand::M_(func(x), func(y)),
            PathCommand::L(x, y) => PathCommand::L(func(x), func(y)),
            PathCommand::L_(x, y) => PathCommand::L_(func(x), func(y)),
            PathCommand::H(a) => PathCommand::H(func(a)),
            PathCommand::H_(a) => PathCommand::H_(func(a)),
            PathCommand::V(a) => PathCommand::V(func(a)),
            PathCommand::V_(a) => PathCommand::V_(func(a)),
            PathCommand::C(x1, y1, x2, y2, x, y) => PathCommand::C(
                func(x1),
                func(y1),
                func(x2),
                func(y2),
                func(x),
                func(y),
            ),
            PathCommand::C_(x1, y1, x2, y2, x, y) => PathCommand::C_(
                func(x1),
                func(y1),
                func(x2),
                func(y2),
                func(x),
                func(y),
            ),
            PathCommand::S(x2, y2, x, y) => PathCommand::S(func(x2), func(y2), func(x), func(y)),
            PathCommand::S_(x2, y2, x, y) => PathCommand::S_(func(x2), func(y2), func(x), func(y)),
            PathCommand::Q(x1, y1, x, y) => PathCommand::Q(func(x1), func(y1), func(x), func(y)),
            PathCommand::Q_(x1, y1, x, y) => PathCommand::Q_(func(x1), func(y1), func(x), func(y)),
            PathCommand::T(x, y) => PathCommand::T(func(x), func(y)),
            PathCommand::T_(x, y) => PathCommand::T_(func(x), func(y)),
            PathCommand::A(rx, ry, rot, la, sw, x, y) => PathCommand::A(
                func(rx),
                func(ry),
                func(rot),
                func(la),
                func(sw),
                func(x),
                func(y),
            ),
            PathCommand::A_(rx, ry, rot, la, sw, x, y) => PathCommand::A_(
                func(rx),
                func(ry),
                func(rot),
                func(la),
                func(sw),
                func(x),
                func(y),
            ),
            PathCommand::Z(a) => PathCommand::Z(func(a)),
        }
    }
}

impl PathCommand<i64> {
    /// Write this command's textual form to a sink.
    pub fn write<W: SinkWrite>(&self, writer: &mut W) -> (r: Result<(), WriteError>)
        ensures
            r is Ok ==> final(writer).sunk() == old(writer).sunk() + cmd_seq(*self),
            r is Err ==> !old(writer).reliable(),
            final(writer).reliable() == old(writer).reliable(),
            old(writer).sunk().is_prefix_of(final(writer).sunk()),
    {
        let out = self.render();
        writer.write_str(out.as_str())
    }

    /// Render this command to its textual form.
    #[verifier::rlimit(60)]
    #[verifier::spinoff_prover]
    pub fn render(&self) -> (r: String)
        ensures
            r@ == cmd_seq(*self),
    {
        let mut out = String::new();
        proof {
            reveal_strlit(" M ");
            reveal_strlit(" m ");
            reveal_strlit(" L ");
            reveal_strlit(" l ");
            reveal_strlit(" H ");
            reveal_strlit(" h ");
            reveal_strlit(" V ");
            reveal_strlit(" v ");
            reveal_strlit(" C ");
            reveal_strlit(" c ");
            reveal_strlit(" S ");
            reveal_strlit(" s ");
            reveal_strlit(" Q ");
            reveal_strlit(" q ");
            reveal_strlit(" T ");
            reveal_strlit(" t ");
            reveal_strlit(" A ");
            reveal_strlit(" a ");
            reveal_strlit(" Z");
            reveal_strlit(" ");
            reveal_strlit(",");
            reveal_strlit(", ");
        }
        match self {
            PathCommand::M(x, y) => {
                render_cmd2(&mut out, " M ", *x, *y);
                proof {
                    assert(out@ =~= cmd_seq(*self));
                }
            },
            PathCommand::M_(x, y) => {
                render_cmd2(&mut out, " m ", *x, *y);
                proof {
                    assert(out@ =~= cmd_seq(*self));
                }
            },
            PathCommand::L(x, y) => {
                render_cmd2(&mut out, " L ", *x, *y);
                proof {
                    assert(out@ =~= cmd_seq(*self));
                }
            },
            PathCommand::L_(x, y) => {
                render_cmd2(&mut out, " l ", *x, *y);
                proof {
                    assert(out@ =~= cmd_seq(*self));
                }
            },
            PathCommand::H(a) => {
                out.append(" H ");
                crate::num::push_i64(&mut out, *a);
                proof {
                    assert(out@ =~= cmd_seq(*self));
                }
            },
            PathCommand::H_(a) => {
                out.append(" h ");
                crate::num::push_i64(&mut out, *a);
                proof {
                    assert(out@ =~= cmd_seq(*self));
                }
            },
            PathCommand::V(a) => {
                out.append(" V ");
                crate::num::push_i64(&mut out, *a);
                proof {
                    assert(out@ =~= cmd_seq(*self));
                }
            },
            PathCommand::V_(a) => {
                out.append(" v ");
                crate::num::push_i64(&mut out, *a);
                proof {
                    assert(out@ =~= cmd_seq(*self));
                }
            },
            PathCommand::C(x1, y1, x2, y2, x, y) => {
                render_cmd2(&mut out, " C ", *x1, *y1);
                out.append(", ");
                crate::num::push_i64(&mut out, *x2);
                out.append(" ");
                crate::num::push_i64(&mut out, *y2);
                out.append(", ");
                crate::num::push_i64(&mut out, *x);
                out.append(" ");
                crate::num::push_i64(&mut out, *y);
                proof {
                    assert(out@ =~= cmd_seq(*self));
                }
            },
            PathCommand::C_(x1, y1, x2, y2, x, y) => {
                render_cmd2(&mut out, " c ", *x1, *y1);
                out.append(", ");
                crate::num::push_i64(&mut out, *x2);
                out.append(" ");
                crate::num::push_i64(&mut out, *y2);
                out.append(", ");
                crate::num::push_i64(&mut out, *x);
                out.append(" ");
                crate::num::push_i64(&mut out, *y);
                proof {
                    assert(out@ =~= cmd_seq(*self));
                }
            },
            PathCommand::S(x2, y2, x, y) => {
                out.append(" S ");
                crate::num::push_i64(&mut out, *x2);
                out.append(",");
                crate::num::push_i64(&mut out, *y2);
                out.append(" ");
                crate::num::push_i64(&mut out, *x);
                out.append(" ");
                crate::num::push_i64(&mut out, *y);
                proof {
                    assert(out@ =~= cmd_seq(*self));
                }
            },
            PathCommand::S_(x2, y2, x, y) => {
                out.append(" s ");
                crate::num::push_i64(&mut out, *x2);
                out.append(",");
                crate::num::push_i64(&mut out, *y2);
                out.append(" ");
                crate::num::push_i64(&mut out, *x);
                out.append(" ");
                crate::num::push_i64(&mut out, *y);
                proof {
                    assert(out@ =~= cmd_seq(*self));
                }
            },
            PathCommand::Q(x1, y1, x, y) => {
                render_cmd2(&mut out, " Q ", *x1, *y1);
                out.append(", ");
                crate::num::push_i64(&mut out, *x);
                out.append(" ");
                crate::num::push_i64(&mut out, *y);
                proof {
                    assert(out@ =~= cmd_seq(*self));
                }
            },
            PathCommand::Q_(x1, y1, x, y) => {
                render_cmd2(&mut out, " q ", *x1, *y1);
                out.append(", ");
                crate::num::push_i64(&mut out, *x);
                out.append(" ");
                crate::num::push_i64(&mut out, *y);
                proof {
                    assert(out@ =~= cmd_seq(*self));
                }
            },
            PathCommand::T(x, y) => {
                render_cmd2(&mut out, " T ", *x, *y);
                proof {
                    assert(out@ =~= cmd_seq(*self));
                }
            },
            PathCommand::T_(x, y) => {
                render_cmd2(&mut out, " t ", *x, *y);
                proof {
                    assert(out@ =~= cmd_seq(*self));
                }
            },
            PathCommand::A(rx, ry, rot, la, sw, x, y) => {
                render_cmd7(&mut out, " A ", *rx, *ry, *rot, *la, *sw, *x, *y);
                proof {
                    assert(out@ =~= cmd_seq(*self));
                }
            },
            PathCommand::A_(rx, ry, rot, la, sw, x, y) => {
                render_cmd7(&mut out, " a ", *rx, *ry, *rot, *la, *sw, *x, *y);
                proof {
                    assert(out@ =~= cmd_seq(*self));
                }
            },
            PathCommand::Z(_) => {
                out.append(" Z");
                proof {
                    assert(out@ =~= cmd_seq(*self));
                }
            },
        }
        out
    }
}

/// Append a command head and two space-separated numbers.
fn render_cmd2(out: &mut String, head: &str, x: i64, y: i64)
    ensures
        final(out)@ == old(out)@ + head@ + crate::num::dec_i64(x) + seq![' ']
            + crate::num::dec_i64(y),
{
    out.append(head);
    crate::num::push_i64(out, x);
    out.append(" ");
    crate::num::push_i64(out, y);
    proof {
        reveal_strlit(" ");
        assert(" "@ =~= seq![' ']);
        assert(out@ =~= old(out)@ + head@ + crate::num::dec_i64(x) + seq![' ']
            + crate::num::dec_i64(y));
    }
}

/// Append a command head and seven space-separated numbers.
fn render_cmd7(
    out: &mut String,
    head: &str,
    rx: i64,
    ry: i64,
    rot: i64,
    la: i64,
    sw: i64,
    x: i64,
    y: i64,
)
    ensures
        final(out)@ == old(out)@ + head@ + crate::num::dec_i64(rx) + seq![' ']
            + crate::num::dec_i64(ry) + seq![' '] + crate::num::dec_i64(rot) + seq![' ']
            + crate::num::dec_i64(la) + seq![' '] + crate::num::dec_i64(sw) + seq![' ']
            + crate::num::dec_i64(x) + seq![' '] + crate::num::dec_i64(y),
{
    out.append(head);
    crate::num::push_i64(out, rx);
    out.append(" ");
    crate::num::push_i64(out, ry);
    out.append(" ");
    crate::num::push_i64(out, rot);
    out.append(" ");
    crate::num::push_i64(out, la);
    out.append(" ");
    crate::num::push_i64(out, sw);
    out.append(" ");
    crate::num::push_i64(out, x);
    out.append(" ");
    crate::num::push_i64(out, y);
    proof {
        reveal_strlit(" ");
        assert(" "@ =~= seq![' ']);
        assert(out@ =~= old(out)@ + head@ + crate::num::dec_i64(rx) + seq![' ']
            + crate::num::dec_i64(ry) + seq![' '] + crate::num::dec_i64(rot) + seq![' ']
            + crate::num::dec_i64(la) + seq![' '] + crate::num::dec_i64(sw) + seq![' ']
            + crate::num::dec_i64(x) + seq![' '] + crate::num::dec_i64(y));
    }
}

} // verus!
