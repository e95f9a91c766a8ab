//! The base element structure: opening and closing text are both
//! caller-supplied strings, the closing text given up front and owed
//! until `end` writes it.

use vstd::prelude::*;
use vstd::string::StringExecFns;
use crate::sink::SinkWrite;
use crate::sink::WriteError;
use crate::elem::drain_seq;

verus! {

/// An element whose closing text was recorded at creation; nested
/// children record theirs on top of it.
pub struct Element<W: SinkWrite> {
    writer: W,
    ends: Vec<String>,
}

impl<W: SinkWrite> Element<W> {
    /// The characters written to the underlying sink so far.
    pub closed spec fn sunk(&self) -> Seq<char> {
        self.writer.sunk()
    }

    /// Whether the underlying sink accepts every write.
    pub closed spec fn reliable(&self) -> bool {
        self.writer.reliable()
    }

    /// The closing texts still owed, in order of recording.
    pub closed spec fn pending(&self) -> Seq<Seq<char>> {
        self.ends@.map_values(|s: String| s@)
    }

    /// Record an element whose closing text is owed from the start;
    /// nothing is written yet.
    pub fn new(writer: W, end: &str) -> (r: Element<W>)
        ensures
            r.sunk() == writer.sunk(),
            r.reliable() == writer.reliable(),
            r.pending() == seq![end@],
    {
        let mut ends: Vec<String> = Vec::new();
        ends.push(String::from_str(end));
        let r = Element { writer, ends };
        proof {
            assert(r.pending() =~= seq![end@]);
        }
        r
    }

    /// Borrow the sink itself, for writes the element's own methods do
    /// not cover.  The recorded closing texts are untouched.
    pub fn get_writer(&mut self) -> (r: &mut W)
        ensures
            r.sunk() == old(self).sunk(),
            r.reliable() == old(self).reliable(),
            final(self).sunk() == final(r).sunk(),
            final(self).reliable() == final(r).reliable(),
            final(self).pending() == old(self).pending(),
    {
        &mut self.writer
    }

    /// Write an element that owes no closing text.
    pub fn single(&mut self, a: &str) -> (r: Result<(), WriteError>)
        ensures
            r is Ok ==> final(self).sunk() == old(self).sunk() + a@,
            r is Err ==> !old(self).reliable(),
            final(self).pending() == old(self).pending(),
            final(self).reliable() == old(self).reliable(),
            old(self).sunk().is_prefix_of(final(self).sunk()),
    {
        self.writer.write_str(a)
    }

    /// Start a child element: write its opening text and record its
    /// closing text on top of the ones already owed.
    pub fn elem(&mut self, a: &str, end: &str) -> (r: Result<(), WriteError>)
        ensures
            r is Ok ==> final(self).sunk() == old(self).sunk() + a@ && final(self).pending() == old(
                self,
            ).pending().push(end@),
            r is Err ==> !old(self).reliable() && final(self).pending() == old(self).pending(),
            final(self).reliable() == old(self).reliable(),
            old(self).sunk().is_prefix_of(final(self).sunk()),
    {
        if let Err(e) = self.writer.write_str(a) {
            return Err(e);
        }
        self.ends.push(String::from_str(end));
        proof {
            assert(self.pending() =~= old(self).pending().push(end@));
        }
        Ok(())
    }

    /// Start a child element from an `(opening, closing)` pair.
    pub fn elem_tuple(&mut self, a: (&str, &str)) -> (r: Result<(), WriteError>)
        ensures
            r is Ok ==> final(self).sunk() == old(self).sunk() + a.0@ && final(self).pending()
                == old(self).pending().push(a.1@),
            r is Err ==> !old(self).reliable() && final(self).pending() == old(self).pending(),
            final(self).reliable() == old(self).reliable(),
            old(self).sunk().is_prefix_of(final(self).sunk()),
    {
        let (open, close) = a;
        self.elem(open, close)
    }

    /// End the innermost element, writing its recorded closing text.
    pub fn end(&mut self) -> (r: Result<(), WriteError>)
        requires
            old(self).pending().len() > 0,
        ensures
            r is Ok ==> final(self).sunk() == old(self).sunk() + old(self).pending().last(),
            r is Err ==> !old(self).reliable(),
            final(self).pending() == old(self).pending().drop_last(),
            final(self).reliable() == old(self).reliable(),
            old(self).sunk().is_prefix_of(final(self).sunk()),
    {
        let s = self.ends.pop().unwrap();
        let r = self.writer.write_str(s.as_str());
        proof {
            assert(self.pending() =~= old(self).pending().drop_last());
        }
        r
    }

    /// Whether every owed closing text has been written: the check a
    /// caller runs before discarding the element.
    pub fn check_unwound(&self) -> (r: bool)
        ensures
            r == (self.pending().len() == 0),
    {
        self.ends.len() == 0
    }

    /// Write every owed closing text, most recently recorded first, and
    /// hand the sink back.
    pub fn finish(self) -> (r: Result<W, WriteError>)
        ensures
            r matches Ok(w) ==> w.sunk() == self.sunk() + drain_seq(self.pending()) && w.reliable()
                == self.reliable(),
            r is Err ==> !self.reliable(),
    {
        let Element { mut writer, mut ends } = self;
        let ghost orig = writer.sunk();
        let ghost all = ends@.map_values(|s: String| s@);
        while ends.len() > 0
            invariant
                writer.sunk() + drain_seq(ends@.map_values(|s: String| s@)) =~= orig + drain_seq(
                    all,
                ),
                writer.reliable() == self.reliable(),
                orig.is_prefix_of(writer.sunk()),
            decreases ends@.len(),
        {
            let ghost before = ends@.map_values(|s: String| s@);
            let s = ends.pop().unwrap();
            proof {
                assert(ends@.map_values(|s: String| s@) =~= before.drop_last());
                assert(s@ == before.last());
                assert(drain_seq(before) == before.last() + drain_seq(before.drop_last()));
            }
            if let Err(e) = writer.write_str(s.as_str()) {
                return Err(e);
            }
        }
        proof {
            assert(ends@.map_values(|s: String| s@) =~= Seq::<Seq<char>>::empty());
            assert(writer.sunk() =~= orig + drain_seq(all));
        }
        Ok(writer)
    }
}

} // verus!
