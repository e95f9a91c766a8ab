//! An XML writer with a tag stack: elements are opened with their
//! attributes in one call, and every open tag is closed in reverse
//! order, either one by one or all at once.
//!
//! This writer escapes attribute values, so a value cannot end its
//! quotes early; tag names, attribute names and element content pass
//! through unchanged.

use vstd::prelude::*;
use vstd::string::StringExecFns;
use crate::sink::SinkWrite;
use crate::sink::WriteError;

pub mod svg;

verus! {

/// One attribute as this writer renders it: ` name="value"`, the name
/// verbatim and the value escaped.
pub open spec fn xml_attr_seq(name: Seq<char>, value: Seq<char>) -> Seq<char> {
    seq![' '] + name + seq!['=', '"'] + crate::escape_seq(value) + seq!['"']
}

/// A whole attribute list, in order.
pub open spec fn xml_attrs_seq(attrs: Seq<(Seq<char>, Seq<char>)>) -> Seq<char>
    decreases attrs.len(),
{
    if attrs.len() == 0 {
        Seq::empty()
    } else {
        xml_attr_seq(attrs[0].0, attrs[0].1) + xml_attrs_seq(attrs.drop_first())
    }
}

/// Rendering attributes one by one appends one rendered attribute at a
/// time.
pub proof fn lemma_xml_attrs_seq_push(attrs: Seq<(Seq<char>, Seq<char>)>, p: (Seq<char>, Seq<char>))
    ensures
        xml_attrs_seq(attrs.push(p)) =~= xml_attrs_seq(attrs) + xml_attr_seq(p.0, p.1),
    decreases attrs.len(),
{
    if attrs.len() == 0 {
        assert(attrs.push(p).drop_first() =~= Seq::<(Seq<char>, Seq<char>)>::empty());
        assert(attrs.push(p)[0] == p);
        assert(xml_attrs_seq(attrs.push(p)) == xml_attr_seq(p.0, p.1) + xml_attrs_seq(
            attrs.push(p).drop_first(),
        ));
        assert(xml_attrs_seq(attrs.push(p).drop_first()) == Seq::<char>::empty());
        assert(xml_attrs_seq(attrs) == Seq::<char>::empty());
    } else {
        assert(attrs.push(p).drop_first() =~= attrs.drop_first().push(p));
        assert(attrs.push(p)[0] == attrs[0]);
        lemma_xml_attrs_seq_push(attrs.drop_first(), p);
        assert(xml_attrs_seq(attrs.push(p)) == xml_attr_seq(attrs[0].0, attrs[0].1) + xml_attrs_seq(
            attrs.drop_first().push(p),
        ));
    }
}

/// The `<tag` and attribute part of an opening tag.
pub open spec fn xml_open_start_seq(tag: Seq<char>, attrs: Seq<(Seq<char>, Seq<char>)>) -> Seq<
    char,
> {
    seq!['<'] + tag + xml_attrs_seq(attrs)
}

/// A complete opening tag.
pub open spec fn xml_open_seq(tag: Seq<char>, attrs: Seq<(Seq<char>, Seq<char>)>) -> Seq<char> {
    xml_open_start_seq(tag, attrs) + seq!['>']
}

/// A complete self-closing element.
pub open spec fn xml_single_seq(tag: Seq<char>, attrs: Seq<(Seq<char>, Seq<char>)>) -> Seq<char> {
    xml_open_start_seq(tag, attrs) + seq!['/', '>']
}

/// A closing tag.
pub open spec fn xml_close_seq(tag: Seq<char>) -> Seq<char> {
    seq!['<', '/'] + tag + seq!['>']
}

/// The closing tags of every recorded tag, innermost first.
pub open spec fn xml_drain_seq(p: Seq<Seq<char>>) -> Seq<char>
    decreases p.len(),
{
    if p.len() == 0 {
        Seq::empty()
    } else {
        xml_close_seq(p.last()) + xml_drain_seq(p.drop_last())
    }
}

/// The one-shot drain closes exactly the recorded tags, in reverse
/// order of opening: it is the element stack's drain over this writer's
/// closing tags.
pub proof fn lemma_xml_drain_closes_in_reverse(p: Seq<Seq<char>>)
    ensures
        xml_drain_seq(p) =~= crate::elem::drain_seq(
            p.map_values(|t: Seq<char>| xml_close_seq(t)),
        ),
    decreases p.len(),
{
    let m = p.map_values(|t: Seq<char>| xml_close_seq(t));
    if p.len() == 0 {
        assert(m =~= Seq::<Seq<char>>::empty());
    } else {
        lemma_xml_drain_closes_in_reverse(p.drop_last());
        assert(m.last() == xml_close_seq(p.last()));
        assert(m.drop_last() =~= p.drop_last().map_values(|t: Seq<char>| xml_close_seq(t)));
        assert(crate::elem::drain_seq(m) == m.last() + crate::elem::drain_seq(m.drop_last()));
    }
}

/// Render an attribute list into a string.
pub(crate) fn xml_render_attrs(attrs: &[(&str, &str)]) -> (r: String)
    ensures
        r@ == xml_attrs_seq(crate::attrs_view(attrs@)),
{
    let mut out = String::new();
    proof {
        assert(crate::attrs_view(attrs@.subrange(0, 0)) =~= Seq::<(Seq<char>, Seq<char>)>::empty());
    }
    let n = attrs.len();
    let mut i: usize = 0;
    while i < n
        invariant
            n == attrs@.len(),
            0 <= i <= n,
            out@ == xml_attrs_seq(crate::attrs_view(attrs@.subrange(0, i as int))),
        decreases n - i,
    {
        let ghost pre = out@;
        let (name, value) = attrs[i];
        out.append(" ");
        out.append(name);
        out.append("=\"");
        crate::escape_into(&mut out, value);
        out.append("\"");
        proof {
            reveal_strlit(" ");
            reveal_strlit("=\"");
            reveal_strlit("\"");
            assert(" "@ =~= seq![' ']);
            assert("=\""@ =~= seq!['=', '"']);
            assert("\""@ =~= seq!['"']);
            assert(out@ =~= pre + xml_attr_seq(name@, value@));
            assert(attrs@.subrange(0, i + 1) =~= attrs@.subrange(0, i as int).push(
                attrs@[i as int],
            ));
            assert(crate::attrs_view(attrs@.subrange(0, i + 1)) =~= crate::attrs_view(
                attrs@.subrange(0, i as int),
            ).push((attrs@[i as int].0@, attrs@[i as int].1@)));
            lemma_xml_attrs_seq_push(
                crate::attrs_view(attrs@.subrange(0, i as int)),
                (attrs@[i as int].0@, attrs@[i as int].1@),
            );
            assert(out@ =~= xml_attrs_seq(crate::attrs_view(attrs@.subrange(0, i + 1))));
        }
        i = i + 1;
    }
    proof {
        assert(attrs@.subrange(0, n as int) =~= attrs@);
    }
    out
}

/// Render `<`, the tag and the attribute list into a string.
pub(crate) fn xml_render_open_start(tag: &str, attrs: &[(&str, &str)]) -> (r: String)
    ensures
        r@ == xml_open_start_seq(tag@, crate::attrs_view(attrs@)),
{
    let mut out = String::new();
    out.append("<");
    out.append(tag);
    let rest = xml_render_attrs(attrs);
    out.append(rest.as_str());
    proof {
        reveal_strlit("<");
        assert("<"@ =~= seq!['<']);
        assert(out@ =~= xml_open_start_seq(tag@, crate::attrs_view(attrs@)));
    }
    out
}

/// Start an XML document over a sink.  Nothing is written yet.
pub fn xml<W: SinkWrite>(writer: W) -> (r: XML<W>)
    ensures
        r.sunk() == writer.sunk(),
        r.reliable() == writer.reliable(),
        r.pending() == Seq::<Seq<char>>::empty(),
{
    let r = XML { writer, tags: Vec::new() };
    proof {
        assert(r.pending() =~= Seq::<Seq<char>>::empty());
    }
    r
}

/// An XML document under construction, with the tags still to be
/// closed, outermost first.
pub struct XML<W: SinkWrite> {
    writer: W,
    tags: Vec<String>,
}

impl<W: SinkWrite> XML<W> {
    /// The characters written to the underlying sink so far.
    pub closed spec fn sunk(&self) -> Seq<char> {
        self.writer.sunk()
    }

    /// Whether the underlying sink accepts every write.
    pub closed spec fn reliable(&self) -> bool {
        self.writer.reliable()
    }

    /// The tags whose closing tags are still owed, in opening order.
    pub closed spec fn pending(&self) -> Seq<Seq<char>> {
        self.tags@.map_values(|s: String| s@)
    }

    /// Write a whole self-closing element: tag, attributes, `/>`.
    pub fn single(&mut self, tag: &str, attrs: &[(&str, &str)]) -> (r: Result<(), WriteError>)
        ensures
            r is Ok ==> final(self).sunk() == old(self).sunk() + xml_single_seq(
                tag@,
                crate::attrs_view(attrs@),
            ),
            r is Err ==> !old(self).reliable(),
            final(self).pending() == old(self).pending(),
            final(self).reliable() == old(self).reliable(),
            old(self).sunk().is_prefix_of(final(self).sunk()),
    {
        let mut out = xml_render_open_start(tag, attrs);
        out.append("/>");
        proof {
            reveal_strlit("/>");
            assert("/>"@ =~= seq!['/', '>']);
            assert(out@ =~= xml_single_seq(tag@, crate::attrs_view(attrs@)));
        }
        self.writer.write_str(out.as_str())
    }

    /// Open an element with its attributes; its closing tag is owed
    /// until `end`.
    pub fn elem(&mut self, tag: &str, attrs: &[(&str, &str)]) -> (r: Result<(), WriteError>)
        ensures
            r is Ok ==> final(self).sunk() == old(self).sunk() + xml_open_seq(
                tag@,
                crate::attrs_view(attrs@),
            ) && final(self).pending() == old(self).pending().push(tag@),
            r is Err ==> !old(self).reliable() && final(self).pending() == old(self).pending(),
            final(self).reliable() == old(self).reliable(),
            old(self).sunk().is_prefix_of(final(self).sunk()),
    {
        let mut out = xml_render_open_start(tag, attrs);
        out.append(">");
        proof {
            reveal_strlit(">");
            assert(">"@ =~= seq!['>']);
            assert(out@ =~= xml_open_seq(tag@, crate::attrs_view(attrs@)));
        }
        if let Err(e) = self.writer.write_str(out.as_str()) {
            return Err(e);
        }
        self.tags.push(String::from_str(tag));
        proof {
            assert(self.pending() =~= old(self).pending().push(tag@));
        }
        Ok(())
    }

    /// Open an element with no attributes.
    pub fn elem_no_attr(&mut self, tag: &str) -> (r: Result<(), WriteError>)
        ensures
            r is Ok ==> final(self).sunk() == old(self).sunk() + xml_open_seq(
                tag@,
                Seq::empty(),
            ) && final(self).pending() == old(self).pending().push(tag@),
            r is Err ==> !old(self).reliable() && final(self).pending() == old(self).pending(),
            final(self).reliable() == old(self).reliable(),
            old(self).sunk().is_prefix_of(final(self).sunk()),
    {
        let empty_attrs: Vec<(&str, &str)> = Vec::new();
        let r = self.elem(tag, empty_attrs.as_slice());
        proof {
            assert(crate::attrs_view(empty_attrs@) =~= Seq::<(Seq<char>, Seq<char>)>::empty());
        }
        r
    }

    /// Close the innermost open element, writing its closing tag.
    pub fn end(&mut self) -> (r: Result<(), WriteError>)
        requires
            old(self).pending().len() > 0,
        ensures
            r is Ok ==> final(self).sunk() == old(self).sunk() + xml_close_seq(
                old(self).pending().last(),
            ),
            r is Err ==> !old(self).reliable(),
            final(self).pending() == old(self).pending().drop_last(),
            final(self).reliable() == old(self).reliable(),
            old(self).sunk().is_prefix_of(final(self).sunk()),
    {
        let tag = self.tags.pop().unwrap();
        let mut out = String::new();
        out.append("</");
        out.append(tag.as_str());
        out.append(">");
        proof {
            reveal_strlit("</");
            reveal_strlit(">");
            assert("</"@ =~= seq!['<', '/']);
            assert(">"@ =~= seq!['>']);
            assert(out@ =~= xml_close_seq(tag@));
            assert(self.pending() =~= old(self).pending().drop_last());
        }
        self.writer.write_str(out.as_str())
    }

    /// Write text as element content, verbatim.
    pub fn inner_str(&mut self, s: &str) -> (r: Result<(), WriteError>)
        ensures
            r is Ok ==> final(self).sunk() == old(self).sunk() + s@,
            r is Err ==> !old(self).reliable(),
            final(self).pending() == old(self).pending(),
            final(self).reliable() == old(self).reliable(),
            old(self).sunk().is_prefix_of(final(self).sunk()),
    {
        self.writer.write_str(s)
    }

    /// Write a `<!...>` declaration.
    pub fn declaration(&mut self, data: &str) -> (r: Result<(), WriteError>)
        ensures
            r is Ok ==> final(self).sunk() == old(self).sunk() + seq!['<', '!'] + data@ + seq!['>'],
            r is Err ==> !old(self).reliable(),
            final(self).pending() == old(self).pending(),
            final(self).reliable() == old(self).reliable(),
            old(self).sunk().is_prefix_of(final(self).sunk()),
    {
        let mut out = String::new();
        out.append("<!");
        out.append(data);
        out.append(">");
        proof {
            reveal_strlit("<!");
            reveal_strlit(">");
            assert("<!"@ =~= seq!['<', '!']);
            assert(">"@ =~= seq!['>']);
            assert(out@ =~= seq!['<', '!'] + data@ + seq!['>']);
        }
        self.writer.write_str(out.as_str())
    }

    /// Write a `<?tag ...?>` prolog with its attributes.
    pub fn prolog(&mut self, tag: &str, attrs: &[(&str, &str)]) -> (r: Result<(), WriteError>)
        ensures
            r is Ok ==> final(self).sunk() == old(self).sunk() + seq!['<', '?'] + tag@
                + xml_attrs_seq(crate::attrs_view(attrs@)) + seq!['?', '>'],
            r is Err ==> !old(self).reliable(),
            final(self).pending() == old(self).pending(),
            final(self).reliable() == old(self).reliable(),
            old(self).sunk().is_prefix_of(final(self).sunk()),
    {
        let mut out = String::new();
        out.append("<?");
        out.append(tag);
        let rest = xml_render_attrs(attrs);
        out.append(rest.as_str());
        out.append("?>");
        proof {
            reveal_strlit("<?");
            reveal_strlit("?>");
            assert("<?"@ =~= seq!['<', '?']);
            assert("?>"@ =~= seq!['?', '>']);
            assert(out@ =~= seq!['<', '?'] + tag@ + xml_attrs_seq(crate::attrs_view(attrs@))
                + seq!['?', '>']);
        }
        self.writer.write_str(out.as_str())
    }

    /// Write a `<!--...  -->` comment.
    pub fn comment(&mut self, data: &str) -> (r: Result<(), WriteError>)
        ensures
            r is Ok ==> final(self).sunk() == old(self).sunk() + "<!--"@ + data@ + " -->"@,
            r is Err ==> !old(self).reliable(),
            final(self).pending() == old(self).pending(),
            final(self).reliable() == old(self).reliable(),
            old(self).sunk().is_prefix_of(final(self).sunk()),
    {
        let mut out = String::new();
        out.append("<!--");
        out.append(data);
        out.append(" -->");
        proof {
            assert(out@ =~= "<!--"@ + data@ + " -->"@);
        }
        self.writer.write_str(out.as_str())
    }

    /// Whether every opened element has been closed: the check a caller
    /// runs before discarding the document.
    pub fn check_unwound(&self) -> (r: bool)
        ensures
            r == (self.pending().len() == 0),
    {
        self.tags.len() == 0
    }

    /// Close every element still open, innermost first, and hand the
    /// sink back.
    pub fn end_all(self) -> (r: Result<W, WriteError>)
        ensures
            r matches Ok(w) ==> w.sunk() == self.sunk() + xml_drain_seq(self.pending())
                && w.reliable() == self.reliable(),
            r is Err ==> !self.reliable(),
    {
        let XML { mut writer, mut tags } = self;
        let ghost orig = writer.sunk();
        let ghost all = tags@.map_values(|s: String| s@);
        while tags.len() > 0
            invariant
                writer.sunk() + xml_drain_seq(tags@.map_values(|s: String| s@)) =~= orig
                    + xml_drain_seq(all),
                writer.reliable() == self.reliable(),
                orig.is_prefix_of(writer.sunk()),
            decreases tags@.len(),
        {
            let ghost before = tags@.map_values(|s: String| s@);
            let tag = tags.pop().unwrap();
            let mut out = String::new();
            out.append("</");
            out.append(tag.as_str());
            out.append(">");
            proof {
                reveal_strlit("</");
                reveal_strlit(">");
                assert("</"@ =~= seq!['<', '/']);
                assert(">"@ =~= seq!['>']);
                assert(out@ =~= xml_close_seq(tag@));
                assert(tags@.map_values(|s: String| s@) =~= before.drop_last());
                assert(tag@ == before.last());
                assert(xml_drain_seq(before) == xml_close_seq(before.last()) + xml_drain_seq(
                    before.drop_last(),
                ));
            }
            if let Err(e) = writer.write_str(out.as_str()) {
                return Err(e);
            }
        }
        proof {
            assert(tags@.map_values(|s: String| s@) =~= Seq::<Seq<char>>::empty());
            assert(writer.sunk() =~= orig + xml_drain_seq(all));
        }
        Ok(writer)
    }
}

/// Writes loose attributes to a sink, and begins the structured
/// attribute values.
pub struct AttrBuilder<W: SinkWrite> {
    inner: W,
}

impl<W: SinkWrite> AttrBuilder<W> {
    /// The characters written to the underlying sink so far.
    pub closed spec fn sunk(&self) -> Seq<char> {
        self.inner.sunk()
    }

    /// Whether the underlying sink accepts every write.
    pub closed spec fn reliable(&self) -> bool {
        self.inner.reliable()
    }

    /// Wrap a sink.
    pub fn new(inner: W) -> (r: AttrBuilder<W>)
        ensures
            r.sunk() == inner.sunk(),
            r.reliable() == inner.reliable(),
    {
        AttrBuilder { inner }
    }

    /// Write one ` name="value"` pair, escaping the value.
    pub fn attr(&mut self, s: &str, val: &str) -> (r: Result<(), WriteError>)
        ensures
            r is Ok ==> final(self).sunk() == old(self).sunk() + xml_attr_seq(s@, val@),
            r is Err ==> !old(self).reliable(),
            final(self).reliable() == old(self).reliable(),
            old(self).sunk().is_prefix_of(final(self).sunk()),
    {
        let mut out = String::new();
        out.append(" ");
        out.append(s);
        out.append("=\"");
        crate::escape_into(&mut out, val);
        out.append("\"");
        proof {
            reveal_strlit(" ");
            reveal_strlit("=\"");
            reveal_strlit("\"");
            assert(" "@ =~= seq![' ']);
            assert("=\""@ =~= seq!['=', '"']);
            assert("\""@ =~= seq!['"']);
            assert(out@ =~= xml_attr_seq(s@, val@));
        }
        self.inner.write_str(out.as_str())
    }

    /// Begin a coordinate-list attribute value.
    pub fn polyline_data(self) -> (r: Result<svg::PolyLineBuilder<W>, WriteError>)
        ensures
            r matches Ok(p) ==> p.sunk() == self.sunk() + " points=\""@ && p.reliable()
                == self.reliable(),
            r is Err ==> !self.reliable(),
    {
        svg::PolyLineBuilder::new(self.inner)
    }

    /// Begin a path-data attribute value.
    pub fn path_data(self) -> (r: Result<svg::PathBuilder<W>, WriteError>)
        ensures
            r matches Ok(p) ==> p.sunk() == self.sunk() + " d=\""@ && p.reliable()
                == self.reliable(),
            r is Err ==> !self.reliable(),
    {
        svg::PathBuilder::new(self.inner)
    }

    /// Hand the sink back.
    pub fn into_inner(self) -> (r: W)
        ensures
            r.sunk() == self.sunk(),
            r.reliable() == self.reliable(),
    {
        self.inner
    }
}

} // verus!
