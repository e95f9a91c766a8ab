//! Building elements by moving: every builder owns the sink and hands
//! it on, so a partly built document can travel between functions.
//!
//! This variant indents with one tab per nesting level and ends every
//! line it writes.

use vstd::prelude::*;
use vstd::string::StringExecFns;
use crate::sink::SinkWrite;
use crate::sink::WriteError;

verus! {

/// `n` tab characters.
pub open spec fn tabs(n: nat) -> Seq<char>
    decreases n,
{
    if n == 0 {
        Seq::empty()
    } else {
        tabs((n - 1) as nat).push('\t')
    }
}

/// The indented closing line of an element: tabs, `</tag>`, newline.
pub open spec fn end_tag_seq(tag: Seq<char>, level: nat) -> Seq<char> {
    tabs(level) + seq!['<', '/'] + tag + seq!['>', '\n']
}

/// The indented closing lines of every recorded tag, innermost first,
/// each one level further out.
pub open spec fn flat_drain_seq(p: Seq<Seq<char>>) -> Seq<char>
    decreases p.len(),
{
    if p.len() == 0 {
        Seq::empty()
    } else {
        end_tag_seq(p.last(), (p.len() - 1) as nat) + flat_drain_seq(p.drop_last())
    }
}

/// Append `n` tabs to a string.
pub fn write_tabs_into(out: &mut String, n: usize)
    ensures
        final(out)@ == old(out)@ + tabs(n as nat),
{
    let mut i: usize = 0;
    while i < n
        invariant
            0 <= i <= n,
            out@ == old(out)@ + tabs(i as nat),
        decreases n - i,
    {
        out.append("\t");
        proof {
            reveal_strlit("\t");
            assert("\t"@ =~= seq!['\t']);
            assert(out@ =~= old(out)@ + tabs((i + 1) as nat));
        }
        i = i + 1;
    }
}

/// Write the indented closing line of one element.
pub fn write_end_tag<W: SinkWrite>(writer: &mut W, tag: &str, num_level: usize) -> (r: Result<
    (),
    WriteError,
>)
    ensures
        r is Ok ==> final(writer).sunk() == old(writer).sunk() + end_tag_seq(
            tag@,
            num_level as nat,
        ),
        r is Err ==> !old(writer).reliable(),
        final(writer).reliable() == old(writer).reliable(),
        old(writer).sunk().is_prefix_of(final(writer).sunk()),
{
    let mut out = String::new();
    write_tabs_into(&mut out, num_level);
    out.append("</");
    out.append(tag);
    out.append(">\n");
    proof {
        reveal_strlit("</");
        reveal_strlit(">\n");
        assert("</"@ =~= seq!['<', '/']);
        assert(">\n"@ =~= seq!['>', '\n']);
        assert(out@ =~= end_tag_seq(tag@, num_level as nat));
    }
    writer.write_str(out.as_str())
}

/// An element tree under construction, holding the sink and the tags
/// whose closing lines are still owed, innermost last.
pub struct FlatElement<W: SinkWrite> {
    writer: W,
    tags: Vec<String>,
}

impl<W: SinkWrite> FlatElement<W> {
    /// The characters written to the underlying sink so far.
    pub closed spec fn sunk(&self) -> Seq<char> {
        self.writer.sunk()
    }

    /// Whether the underlying sink accepts every write.
    pub closed spec fn reliable(&self) -> bool {
        self.writer.reliable()
    }

    /// The tags whose closing lines are still owed, in opening order.
    pub closed spec fn pending(&self) -> Seq<Seq<char>> {
        self.tags@.map_values(|s: String| s@)
    }

    /// Start with nothing written and nothing owed.
    pub fn new(writer: W) -> (r: FlatElement<W>)
        ensures
            r.sunk() == writer.sunk(),
            r.reliable() == writer.reliable(),
            r.pending() == Seq::<Seq<char>>::empty(),
    {
        let r = FlatElement { writer, tags: Vec::new() };
        proof {
            assert(r.pending() =~= Seq::<Seq<char>>::empty());
        }
        r
    }

    /// Close the innermost open element, writing its indented closing
    /// line.
    pub fn pop(self) -> (r: Result<FlatElement<W>, WriteError>)
        requires
            self.pending().len() > 0,
        ensures
            r matches Ok(el) ==> el.sunk() == self.sunk() + end_tag_seq(
                self.pending().last(),
                (self.pending().len() - 1) as nat,
            ) && el.pending() == self.pending().drop_last() && el.reliable() == self.reliable(),
            r is Err ==> !self.reliable(),
    {
        let FlatElement { mut writer, mut tags } = self;
        let tag = tags.pop().unwrap();
        let i = tags.len();
        if let Err(e) = write_end_tag(&mut writer, tag.as_str(), i) {
            return Err(e);
        }
        let r = FlatElement { writer, tags };
        proof {
            assert(r.pending() =~= self.pending().drop_last());
        }
        Ok(r)
    }

    /// Open a child element: write its indentation and `<tag`, and hand
    /// out the tag builder for its attributes.
    pub fn tag_build_flat(self, tag: &str) -> (r: Result<TagBuilderFlat<W>, WriteError>)
        requires
            tag@.len() > 0,
        ensures
            r matches Ok(tb) ==> tb.sunk() == self.sunk() + tabs(self.pending().len()) + seq!['<']
                + tag@ && tb.tag() == tag@ && tb.pending() == self.pending() && tb.reliable()
                == self.reliable(),
            r is Err ==> !self.reliable(),
    {
        let FlatElement { mut writer, tags } = self;
        let mut out = String::new();
        write_tabs_into(&mut out, tags.len());
        out.append("<");
        out.append(tag);
        proof {
            reveal_strlit("<");
            assert("<"@ =~= seq!['<']);
            assert(out@ =~= tabs(tags@.len()) + seq!['<'] + tag@);
        }
        if let Err(e) = writer.write_str(out.as_str()) {
            return Err(e);
        }
        Ok(TagBuilderFlat { tag: String::from_str(tag), inner: FlatElement { writer, tags } })
    }

    /// Whether every owed closing line has been written: the check a
    /// caller runs before discarding the element.
    pub fn check_unwound(&self) -> (r: bool)
        ensures
            r == (self.pending().len() == 0),
    {
        self.tags.len() == 0
    }

    /// Close every element still open, innermost first, and hand the
    /// sink back.
    pub fn finish(self) -> (r: Result<W, WriteError>)
        ensures
            r matches Ok(w) ==> w.sunk() == self.sunk() + flat_drain_seq(self.pending())
                && w.reliable() == self.reliable(),
            r is Err ==> !self.reliable(),
    {
        let FlatElement { mut writer, mut tags } = self;
        let ghost orig = writer.sunk();
        let ghost all = tags@.map_values(|s: String| s@);
        while tags.len() > 0
            invariant
                writer.sunk() + flat_drain_seq(tags@.map_values(|s: String| s@)) =~= orig
                    + flat_drain_seq(all),
                writer.reliable() == self.reliable(),
                orig.is_prefix_of(writer.sunk()),
            decreases tags@.len(),
        {
            let ghost before = tags@.map_values(|s: String| s@);
            let tag = tags.pop().unwrap();
            let i = tags.len();
            proof {
                assert(tags@.map_values(|s: String| s@) =~= before.drop_last());
                assert(tag@ == before.last());
                assert(flat_drain_seq(before) == end_tag_seq(before.last(), (before.len() - 1) as nat)
                    + flat_drain_seq(before.drop_last()));
            }
            if let Err(e) = write_end_tag(&mut writer, tag.as_str(), i) {
                return Err(e);
            }
        }
        proof {
            assert(tags@.map_values(|s: String| s@) =~= Seq::<Seq<char>>::empty());
            assert(writer.sunk() =~= orig + flat_drain_seq(all));
        }
        Ok(writer)
    }
}

/// The attribute phase of one element opened by
/// [`FlatElement::tag_build_flat`].
pub struct TagBuilderFlat<W: SinkWrite> {
    tag: String,
    inner: FlatElement<W>,
}

impl<W: SinkWrite> TagBuilderFlat<W> {
    /// The characters written to the underlying sink so far.
    pub closed spec fn sunk(&self) -> Seq<char> {
        self.inner.sunk()
    }

    /// Whether the underlying sink accepts every write.
    pub closed spec fn reliable(&self) -> bool {
        self.inner.reliable()
    }

    /// The tag of the element being opened.
    pub closed spec fn tag(&self) -> Seq<char> {
        self.tag@
    }

    /// The tags whose closing lines are owed by enclosing elements.
    pub closed spec fn pending(&self) -> Seq<Seq<char>> {
        self.inner.pending()
    }

    /// Write one ` attr = "val"` pair, escaping the value.
    pub fn set(self, attr: &str, val: &str) -> (r: Result<TagBuilderFlat<W>, WriteError>)
        ensures
            r matches Ok(tb) ==> tb.sunk() == self.sunk() + set_seq(attr@, val@) && tb.tag()
                == self.tag() && tb.pending() == self.pending() && tb.reliable()
                == self.reliable(),
            r is Err ==> !self.reliable(),
    {
        let TagBuilderFlat { tag, inner } = self;
        let FlatElement { mut writer, tags } = inner;
        let mut out = String::new();
        out.append(" ");
        out.append(attr);
        out.append(" = \"");
        crate::escape_into(&mut out, val);
        out.append("\"");
        proof {
            reveal_strlit(" ");
            reveal_strlit(" = \"");
            reveal_strlit("\"");
            assert(" "@ =~= seq![' ']);
            assert(" = \""@ =~= seq![' ', '=', ' ', '"']);
            assert("\""@ =~= seq!['"']);
            assert(out@ =~= set_seq(attr@, val@));
        }
        if let Err(e) = writer.write_str(out.as_str()) {
            return Err(e);
        }
        Ok(TagBuilderFlat { tag, inner: FlatElement { writer, tags } })
    }

    /// Finish as a self-closing element: write `/>` and a newline; no
    /// closing line is owed.
    pub fn empty(self) -> (r: Result<FlatElement<W>, WriteError>)
        ensures
            r matches Ok(el) ==> el.sunk() == self.sunk() + "/>\n"@ && el.pending()
                == self.pending() && el.reliable() == self.reliable(),
            r is Err ==> !self.reliable(),
    {
        let TagBuilderFlat { tag: _, inner } = self;
        let FlatElement { mut writer, tags } = inner;
        if let Err(e) = writer.write_str("/>\n") {
            return Err(e);
        }
        Ok(FlatElement { writer, tags })
    }

    /// Finish the opening tag with `>` and a newline without recording
    /// a closing line, for elements closed by hand.
    pub fn empty_no_slash(self) -> (r: Result<FlatElement<W>, WriteError>)
        ensures
            r matches Ok(el) ==> el.sunk() == self.sunk() + ">\n"@ && el.pending()
                == self.pending() && el.reliable() == self.reliable(),
            r is Err ==> !self.reliable(),
    {
        let TagBuilderFlat { tag: _, inner } = self;
        let FlatElement { mut writer, tags } = inner;
        if let Err(e) = writer.write_str(">\n") {
            return Err(e);
        }
        Ok(FlatElement { writer, tags })
    }

    /// Finish the opening tag with `>` and a newline, recording that
    /// this element's closing line is now owed.
    pub fn end(self) -> (r: Result<FlatElement<W>, WriteError>)
        ensures
            r matches Ok(el) ==> el.sunk() == self.sunk() + ">\n"@ && el.pending()
                == self.pending().push(self.tag()) && el.reliable() == self.reliable(),
            r is Err ==> !self.reliable(),
    {
        let TagBuilderFlat { tag, inner } = self;
        let FlatElement { mut writer, mut tags } = inner;
        if let Err(e) = writer.write_str(">\n") {
            return Err(e);
        }
        tags.push(tag);
        let r = FlatElement { writer, tags };
        proof {
            assert(r.pending() =~= self.pending().push(self.tag()));
        }
        Ok(r)
    }
}

/// The starting point of this variant: an element tree over a sink,
/// with nothing written and nothing owed.
pub fn root<W: SinkWrite>(writer: W) -> (r: FlatElement<W>)
    ensures
        r.sunk() == writer.sunk(),
        r.reliable() == writer.reliable(),
        r.pending() == Seq::<Seq<char>>::empty(),
{
    FlatElement::new(writer)
}

/// One ` attr = "val"` pair as this variant writes it: the value is
/// escaped, so it cannot end the quoted attribute early.
pub open spec fn set_seq(attr: Seq<char>, val: Seq<char>) -> Seq<char> {
    seq![' '] + attr + seq![' ', '=', ' ', '"'] + crate::escape_seq(val) + seq!['"']
}

} // verus!
