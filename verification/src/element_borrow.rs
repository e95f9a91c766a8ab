//! Building elements as handles: a tag builder for the attribute phase
//! and an element handle that owes its indented closing line until it
//! is explicitly ended.

use vstd::prelude::*;
use vstd::string::StringExecFns;
use crate::sink::SinkWrite;
use crate::sink::WriteError;
use crate::element_move::end_tag_seq;

verus! {

/// The attribute phase of an element at the given nesting level, with
/// `<tag` already written.
pub struct TagBuilder<W: SinkWrite> {
    writer: W,
    tag: String,
    level: usize,
}

impl<W: SinkWrite> TagBuilder<W> {
    /// The characters written to the underlying sink so far.
    pub closed spec fn sunk(&self) -> Seq<char> {
        self.writer.sunk()
    }

    /// Whether the underlying sink accepts every write.
    pub closed spec fn reliable(&self) -> bool {
        self.writer.reliable()
    }

    /// The tag of the element being opened.
    pub closed spec fn tag(&self) -> Seq<char> {
        self.tag@
    }

    /// The nesting level of the element being opened, the outermost
    /// element having level one.
    pub closed spec fn level(&self) -> nat {
        self.level as nat
    }

    /// Take over an element whose `<tag` text the caller has already
    /// written.
    pub fn new(writer: W, tag: &str, level: usize) -> (r: TagBuilder<W>)
        requires
            level >= 1,
        ensures
            r.sunk() == writer.sunk(),
            r.reliable() == writer.reliable(),
            r.tag() == tag@,
            r.level() == level as nat,
    {
        TagBuilder { writer, tag: String::from_str(tag), level }
    }

    /// Finish as a self-closing element: write `/>` and a newline; no
    /// closing line is owed.
    pub fn empty(self) -> (r: Result<W, WriteError>)
        ensures
            r matches Ok(w) ==> w.sunk() == self.sunk() + "/>\n"@ && w.reliable()
                == self.reliable(),
            r is Err ==> !self.reliable(),
    {
        let mut writer = self.writer;
        if let Err(e) = writer.write_str("/>\n") {
            return Err(e);
        }
        Ok(writer)
    }

    /// Finish the opening tag with `>` and a newline without creating
    /// an element handle, for elements closed by hand.
    pub fn empty_no_slash(self) -> (r: Result<W, WriteError>)
        ensures
            r matches Ok(w) ==> w.sunk() == self.sunk() + ">\n"@ && w.reliable()
                == self.reliable(),
            r is Err ==> !self.reliable(),
    {
        let mut writer = self.writer;
        if let Err(e) = writer.write_str(">\n") {
            return Err(e);
        }
        Ok(writer)
    }

    /// Finish the opening tag with `>` and a newline; the returned
    /// handle owes the element's closing line.
    pub fn end(self) -> (r: Result<Element<W>, WriteError>)
        ensures
            r matches Ok(el) ==> el.sunk() == self.sunk() + ">\n"@ && el.tag() == self.tag()
                && el.level() == self.level() && el.reliable() == self.reliable(),
            r is Err ==> !self.reliable(),
    {
        let TagBuilder { mut writer, tag, level } = self;
        if let Err(e) = writer.write_str(">\n") {
            return Err(e);
        }
        Ok(Element { writer, tag, level })
    }
}

/// An open element that owes its indented closing line.
pub struct Element<W: SinkWrite> {
    writer: W,
    tag: String,
    level: usize,
}

impl<W: SinkWrite> Element<W> {
    /// The characters written to the underlying sink so far.
    pub closed spec fn sunk(&self) -> Seq<char> {
        self.writer.sunk()
    }

    /// Whether the underlying sink accepts every write.
    pub closed spec fn reliable(&self) -> bool {
        self.writer.reliable()
    }

    /// The element's tag, needed for its closing line.
    pub closed spec fn tag(&self) -> Seq<char> {
        self.tag@
    }

    /// The element's nesting level, the outermost element having level
    /// one.
    pub closed spec fn level(&self) -> nat {
        self.level as nat
    }

    /// Write text inside the element.
    pub fn write_str(&mut self, s: &str) -> (r: Result<(), WriteError>)
        ensures
            r is Ok ==> final(self).sunk() == old(self).sunk() + s@,
            r is Err ==> !old(self).reliable(),
            final(self).reliable() == old(self).reliable(),
            final(self).tag() == old(self).tag(),
            final(self).level() == old(self).level(),
            old(self).sunk().is_prefix_of(final(self).sunk()),
    {
        self.writer.write_str(s)
    }

    /// Write the element's indented closing line, the only way to
    /// finish it, and hand the sink back.
    pub fn end(self) -> (r: Result<W, WriteError>)
        requires
            self.level() >= 1,
        ensures
            r matches Ok(w) ==> w.sunk() == self.sunk() + end_tag_seq(
                self.tag(),
                (self.level() - 1) as nat,
            ) && w.reliable() == self.reliable(),
            r is Err ==> !self.reliable(),
    {
        let Element { mut writer, tag, level } = self;
        if let Err(e) = crate::element_move::write_end_tag(&mut writer, tag.as_str(), level - 1) {
            return Err(e);
        }
        Ok(writer)
    }
}

} // verus!
