//! A compact element writer: a sink wrapper whose attribute phase is a
//! separate builder, finished explicitly before content is written.
//!
//! The structured attribute-value builders are shared with the XML
//! writer; they work over any sink, and this module's [`Element`] is
//! itself a sink.

use vstd::prelude::*;
use vstd::string::StringExecFns;
use crate::sink::SinkWrite;
use crate::sink::WriteError;
use crate::xml::xml_attr_seq;
use crate::xml::xml_close_seq;
use crate::xml::xml_open_seq;
use crate::xml::xml_single_seq;

pub use crate::xml::svg::PathBuilder;
pub use crate::xml::svg::PolyLineBuilder;

verus! {

/// A sink wrapper that writes whole elements.
pub struct Element<W: SinkWrite> {
    writer: W,
}

impl<W: SinkWrite> Element<W> {
    /// Wrap a sink.
    pub fn new(writer: W) -> (r: Element<W>)
        ensures
            r.sunk() == writer.sunk(),
            r.reliable() == writer.reliable(),
    {
        Element { writer }
    }

    /// Succeed without writing: the identity step of a builder chain.
    pub fn ok(&mut self) -> (r: Result<(), WriteError>)
        ensures
            r is Ok,
            final(self).sunk() == old(self).sunk(),
            final(self).reliable() == old(self).reliable(),
    {
        Ok(())
    }

    /// Write a whole self-closing element: tag, attributes, `/>`.
    pub fn single(&mut self, tag: &str, attrs: &[(&str, &str)]) -> (r: Result<(), WriteError>)
        ensures
            r is Ok ==> final(self).sunk() == old(self).sunk() + xml_single_seq(
                tag@,
                crate::attrs_view(attrs@),
            ),
            r is Err ==> !old(self).reliable(),
            final(self).reliable() == old(self).reliable(),
            old(self).sunk().is_prefix_of(final(self).sunk()),
    {
        let mut out = crate::xml::xml_render_open_start(tag, attrs);
        out.append("/>");
        proof {
            reveal_strlit("/>");
            assert("/>"@ =~= seq!['/', '>']);
            assert(out@ =~= xml_single_seq(tag@, crate::attrs_view(attrs@)));
        }
        self.writer.write_str(out.as_str())
    }

    /// Write a whole element with verbatim inner text: the opening tag
    /// with its attributes, the content, and the closing tag.
    pub fn elem2(&mut self, tag: &str, attrs: &[(&str, &str)], inner: &str) -> (r: Result<
        (),
        WriteError,
    >)
        ensures
            r is Ok ==> final(self).sunk() == old(self).sunk() + xml_open_seq(
                tag@,
                crate::attrs_view(attrs@),
            ) + inner@ + xml_close_seq(tag@),
            r is Err ==> !old(self).reliable(),
            final(self).reliable() == old(self).reliable(),
            old(self).sunk().is_prefix_of(final(self).sunk()),
    {
        let mut out = crate::xml::xml_render_open_start(tag, attrs);
        out.append(">");
        out.append(inner);
        out.append("</");
        out.append(tag);
        out.append(">");
        proof {
            reveal_strlit(">");
            reveal_strlit("</");
            assert(">"@ =~= seq!['>']);
            assert("</"@ =~= seq!['<', '/']);
            assert(out@ =~= xml_open_seq(tag@, crate::attrs_view(attrs@)) + inner@ + xml_close_seq(
                tag@,
            ));
        }
        self.writer.write_str(out.as_str())
    }

    /// Hand the sink back.
    pub fn into_writer(self) -> (r: W)
        ensures
            r.sunk() == self.sunk(),
            r.reliable() == self.reliable(),
    {
        self.writer
    }
}

impl<W: SinkWrite> SinkWrite for Element<W> {
    closed spec fn sunk(&self) -> Seq<char> {
        self.writer.sunk()
    }

    closed spec fn reliable(&self) -> bool {
        self.writer.reliable()
    }

    closed spec fn owed(&self) -> Seq<Seq<char>> {
        self.writer.owed()
    }

    fn write_str(&mut self, s: &str) -> (r: Result<(), WriteError>) {
        self.writer.write_str(s)
    }
}

/// The attribute phase of an element opened on an [`Element`] whose
/// `<tag` text stands in the sink already; `finish` writes the `>`.
pub struct AttrBuilder2<W: SinkWrite> {
    inner: Element<W>,
}

impl<W: SinkWrite> AttrBuilder2<W> {
    /// The characters written to the underlying sink so far.
    pub closed spec fn sunk(&self) -> Seq<char> {
        self.inner.sunk()
    }

    /// Whether the underlying sink accepts every write.
    pub closed spec fn reliable(&self) -> bool {
        self.inner.reliable()
    }

    /// Enter the attribute phase of an element whose `<tag` text the
    /// caller has already written.
    pub fn new(inner: Element<W>) -> (r: AttrBuilder2<W>)
        ensures
            r.sunk() == inner.sunk(),
            r.reliable() == inner.reliable(),
    {
        AttrBuilder2 { inner }
    }

    /// Write one ` name="value"` pair, escaping the value.
    pub fn attr(&mut self, s: &str, val: &str) -> (r: Result<(), WriteError>)
        ensures
            r is Ok ==> final(self).sunk() == old(self).sunk() + xml_attr_seq(s@, val@),
            r is Err ==> !old(self).reliable(),
            final(self).reliable() == old(self).reliable(),
            old(self).sunk().is_prefix_of(final(self).sunk()),
    {
        let mut out = String::new();
        out.append(" ");
        out.append(s);
        out.append("=\"");
        crate::escape_into(&mut out, val);
        out.append("\"");
        proof {
            reveal_strlit(" ");
            reveal_strlit("=\"");
            reveal_strlit("\"");
            assert(" "@ =~= seq![' ']);
            assert("=\""@ =~= seq!['=', '"']);
            assert("\""@ =~= seq!['"']);
            assert(out@ =~= xml_attr_seq(s@, val@));
        }
        self.inner.write_str(out.as_str())
    }

    /// Begin a coordinate-list attribute value.
    pub fn polyline_data(self) -> (r: Result<PolyLineBuilder<Element<W>>, WriteError>)
        ensures
            r matches Ok(p) ==> p.sunk() == self.sunk() + " points=\""@ && p.reliable()
                == self.reliable(),
            r is Err ==> !self.reliable(),
    {
        PolyLineBuilder::new(self.inner)
    }

    /// Finish the opening tag with `>`, entering the content phase.
    pub fn finish(self) -> (r: Result<Element<W>, WriteError>)
        ensures
            r matches Ok(el) ==> el.sunk() == self.sunk() + seq!['>'] && el.reliable()
                == self.reliable(),
            r is Err ==> !self.reliable(),
    {
        let mut inner = self.inner;
        if let Err(e) = inner.write_str(">") {
            return Err(e);
        }
        proof {
            reveal_strlit(">");
            assert(">"@ =~= seq!['>']);
        }
        Ok(inner)
    }
}

/// Writes loose attributes straight to a sink, and begins path-data
/// attribute values.
pub struct AttrBuilder<W: SinkWrite> {
    inner: W,
}

impl<W: SinkWrite> AttrBuilder<W> {
    /// The characters written to the underlying sink so far.
    pub closed spec fn sunk(&self) -> Seq<char> {
        self.inner.sunk()
    }

    /// Whether the underlying sink accepts every write.
    pub closed spec fn reliable(&self) -> bool {
        self.inner.reliable()
    }

    /// Wrap a sink.
    pub fn new(inner: W) -> (r: AttrBuilder<W>)
        ensures
            r.sunk() == inner.sunk(),
            r.reliable() == inner.reliable(),
    {
        AttrBuilder { inner }
    }

    /// Write one ` name="value"` pair, escaping the value.
    pub fn attr(&mut self, s: &str, val: &str) -> (r: Result<(), WriteError>)
        ensures
            r is Ok ==> final(self).sunk() == old(self).sunk() + xml_attr_seq(s@, val@),
            r is Err ==> !old(self).reliable(),
            final(self).reliable() == old(self).reliable(),
            old(self).sunk().is_prefix_of(final(self).sunk()),
    {
        let mut out = String::new();
        out.append(" ");
        out.append(s);
        out.append("=\"");
        crate::escape_into(&mut out, val);
        out.append("\"");
        proof {
            reveal_strlit(" ");
            reveal_strlit("=\"");
            reveal_strlit("\"");
            assert(" "@ =~= seq![' ']);
            assert("=\""@ =~= seq!['=', '"']);
            assert("\""@ =~= seq!['"']);
            assert(out@ =~= xml_attr_seq(s@, val@));
        }
        self.inner.write_str(out.as_str())
    }

    /// Begin a path-data attribute value.
    pub fn path_data(self) -> (r: Result<PathBuilder<W>, WriteError>)
        ensures
            r matches Ok(p) ==> p.sunk() == self.sunk() + " d=\""@ && p.reliable()
                == self.reliable(),
            r is Err ==> !self.reliable(),
    {
        PathBuilder::new(self.inner)
    }

    /// Hand the sink back.
    pub fn into_inner(self) -> (r: W)
        ensures
            r.sunk() == self.sunk(),
            r.reliable() == self.reliable(),
    {
        self.inner
    }
}

} // verus!
