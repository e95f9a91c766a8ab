//! The element stack: a heap-backed record of the closing text still
//! owed to the sink, for documents whose nesting cannot be expressed
//! lexically.
//!
//! Each push writes opening text and records the matching closing text;
//! each pop writes the most recently recorded closing text.  Draining
//! the whole stack therefore closes every element in reverse order of
//! opening, which is what keeps the output properly nested.

use vstd::prelude::*;
use crate::sink::SinkWrite;
use crate::sink::WriteError;
use vstd::string::StringExecFns;

verus! {

/// The closing texts of `p`, written most recently recorded first.
pub open spec fn drain_seq(p: Seq<Seq<char>>) -> Seq<char>
    decreases p.len(),
{
    if p.len() == 0 {
        Seq::empty()
    } else {
        p.last() + drain_seq(p.drop_last())
    }
}

/// The concatenation of `p` in order.
pub open spec fn concat_all(p: Seq<Seq<char>>) -> Seq<char>
    decreases p.len(),
{
    if p.len() == 0 {
        Seq::empty()
    } else {
        p[0] + concat_all(p.drop_first())
    }
}

/// Pushing one more closing text makes it the first to be drained.
pub proof fn lemma_drain_seq_push(p: Seq<Seq<char>>, t: Seq<char>)
    ensures
        drain_seq(p.push(t)) =~= t + drain_seq(p),
{
    assert(p.push(t).last() == t);
    assert(p.push(t).drop_last() =~= p);
}

/// Draining is concatenation in reverse order of recording.
pub proof fn lemma_drain_seq_is_reverse(p: Seq<Seq<char>>)
    ensures
        drain_seq(p) =~= concat_all(p.reverse()),
    decreases p.len(),
{
    if p.len() == 0 {
        assert(p.reverse() =~= Seq::<Seq<char>>::empty());
    } else {
        lemma_drain_seq_is_reverse(p.drop_last());
        assert(p.reverse()[0] == p.last());
        assert(p.reverse().drop_first() =~= p.drop_last().reverse());
        assert(concat_all(p.reverse()) == p.last() + concat_all(p.reverse().drop_first()));
    }
}

/// Draining a non-empty record starts with its most recent entry.
pub proof fn lemma_drain_seq_cons(p: Seq<Seq<char>>)
    requires
        p.len() > 0,
    ensures
        drain_seq(p) =~= drain_seq(p.drop_first()) + p[0],
    decreases p.len(),
{
    if p.len() == 1 {
        assert(p.drop_first() =~= Seq::<Seq<char>>::empty());
        assert(p.drop_last() =~= Seq::<Seq<char>>::empty());
        assert(p.last() == p[0]);
    } else {
        lemma_drain_seq_cons(p.drop_last());
        assert(p.drop_last()[0] == p[0]);
        assert(p.drop_last().drop_first() =~= p.drop_first().drop_last());
        assert(p.drop_first().last() == p.last());
        assert(drain_seq(p.drop_first()) == p.last() + drain_seq(p.drop_first().drop_last()));
    }
}

/// A properly nested document over opening/closing pairs: each pair
/// wraps everything that follows it, and `inner` sits innermost.
pub open spec fn nested_seq(ps: Seq<(Seq<char>, Seq<char>)>, inner: Seq<char>) -> Seq<char>
    decreases ps.len(),
{
    if ps.len() == 0 {
        inner
    } else {
        ps[0].0 + nested_seq(ps.drop_first(), inner) + ps[0].1
    }
}

/// Well-formedness of the stack discipline: writing every opening text
/// in order, then any inner content, then draining the recorded closing
/// texts, yields exactly the properly nested document — every opening
/// is matched by its own closing, later openings close strictly inside
/// earlier ones, and no ranges cross.
pub proof fn lemma_stack_nesting(ps: Seq<(Seq<char>, Seq<char>)>, inner: Seq<char>)
    ensures
        concat_all(ps.map_values(|p: (Seq<char>, Seq<char>)| p.0)) + inner + drain_seq(
            ps.map_values(|p: (Seq<char>, Seq<char>)| p.1),
        ) =~= nested_seq(ps, inner),
    decreases ps.len(),
{
    let opens = ps.map_values(|p: (Seq<char>, Seq<char>)| p.0);
    let closes = ps.map_values(|p: (Seq<char>, Seq<char>)| p.1);
    if ps.len() == 0 {
        assert(opens =~= Seq::<Seq<char>>::empty());
        assert(closes =~= Seq::<Seq<char>>::empty());
    } else {
        let rest = ps.drop_first();
        lemma_stack_nesting(rest, inner);
        assert(opens[0] == ps[0].0);
        assert(opens.drop_first() =~= rest.map_values(|p: (Seq<char>, Seq<char>)| p.0));
        assert(closes.drop_first() =~= rest.map_values(|p: (Seq<char>, Seq<char>)| p.1));
        assert(closes[0] == ps[0].1);
        assert(closes.len() > 0);
        lemma_drain_seq_cons(closes);
        assert(concat_all(opens) == ps[0].0 + concat_all(opens.drop_first()));
    }
}

/// A stack of elements whose closing text is given up front, so that a
/// partly built document can be handed across function boundaries.
pub struct ElementStack<W: SinkWrite> {
    writer: W,
    ends: Vec<String>,
}

impl<W: SinkWrite> ElementStack<W> {
    /// The characters written to the underlying sink so far.
    pub closed spec fn sunk(&self) -> Seq<char> {
        self.writer.sunk()
    }

    /// Whether the underlying sink accepts every write.
    pub closed spec fn reliable(&self) -> bool {
        self.writer.reliable()
    }

    /// The closing texts still owed, in order of recording.
    pub closed spec fn pending(&self) -> Seq<Seq<char>> {
        self.ends@.map_values(|s: String| s@)
    }

    /// Open the outermost element: write `ar` and record `last` as the
    /// closing text owed for it.
    pub fn new(writer: W, ar: &str, last: &str) -> (r: Result<ElementStack<W>, WriteError>)
        ensures
            r matches Ok(s) ==> s.sunk() == writer.sunk() + ar@ && s.pending() == seq![last@]
                && s.reliable() == writer.reliable(),
            r is Err ==> !writer.reliable(),
    {
        let mut writer = writer;
        if let Err(e) = writer.write_str(ar) {
            return Err(e);
        }
        let mut ends: Vec<String> = Vec::new();
        ends.push(String::from_str(last));
        let r = ElementStack { writer, ends };
        proof {
            assert(r.pending() =~= seq![last@]);
        }
        Ok(r)
    }

    /// Open one more element: write `a` and record `last` as the
    /// closing text owed for it.
    pub fn borrow_move(&mut self, a: &str, last: &str) -> (r: Result<(), WriteError>)
        ensures
            r is Ok ==> final(self).sunk() == old(self).sunk() + a@ && final(self).pending() == old(
                self,
            ).pending().push(last@),
            r is Err ==> !old(self).reliable() && final(self).pending() == old(self).pending(),
            final(self).reliable() == old(self).reliable(),
            old(self).sunk().is_prefix_of(final(self).sunk()),
    {
        if let Err(e) = self.writer.write_str(a) {
            return Err(e);
        }
        self.ends.push(String::from_str(last));
        proof {
            assert(self.pending() =~= old(self).pending().push(last@));
        }
        Ok(())
    }

    /// Close the most recently opened element, writing its recorded
    /// closing text.
    pub fn end_last(&mut self) -> (r: Result<(), WriteError>)
        requires
            old(self).pending().len() > 0,
        ensures
            r is Ok ==> final(self).sunk() == old(self).sunk() + old(self).pending().last(),
            r is Err ==> !old(self).reliable(),
            final(self).pending() == old(self).pending().drop_last(),
            final(self).reliable() == old(self).reliable(),
            old(self).sunk().is_prefix_of(final(self).sunk()),
    {
        let s = self.ends.pop().unwrap();
        let r = self.writer.write_str(s.as_str());
        proof {
            assert(self.pending() =~= old(self).pending().drop_last());
        }
        r
    }

    /// Write loose text between elements.
    pub fn write_str(&mut self, s: &str) -> (r: Result<(), WriteError>)
        ensures
            r is Ok ==> final(self).sunk() == old(self).sunk() + s@,
            r is Err ==> !old(self).reliable(),
            final(self).pending() == old(self).pending(),
            final(self).reliable() == old(self).reliable(),
            old(self).sunk().is_prefix_of(final(self).sunk()),
    {
        self.writer.write_str(s)
    }

    /// Whether every recorded closing text has been written: the check
    /// a caller runs before discarding the stack.
    pub fn check_unwound(&self) -> (r: bool)
        ensures
            r == (self.pending().len() == 0),
    {
        self.ends.len() == 0
    }

    /// Borrow the sink itself, for writes the stack's own methods do
    /// not cover.  The recorded closing texts are untouched.
    pub fn get_writer(&mut self) -> (r: &mut W)
        ensures
            r.sunk() == old(self).sunk(),
            r.reliable() == old(self).reliable(),
            final(self).sunk() == final(r).sunk(),
            final(self).reliable() == final(r).reliable(),
            final(self).pending() == old(self).pending(),
    {
        &mut self.writer
    }

    /// Close every element still open, in reverse order of opening, and
    /// hand the sink back.
    pub fn finish(self) -> (r: Result<W, WriteError>)
        ensures
            r matches Ok(w) ==> w.sunk() == self.sunk() + drain_seq(self.pending()) && w.reliable()
                == self.reliable(),
            r is Err ==> !self.reliable(),
    {
        let ElementStack { mut writer, mut ends } = self;
        let ghost orig = writer.sunk();
        let ghost all = ends@.map_values(|s: String| s@);
        while ends.len() > 0
            invariant
                writer.sunk() + drain_seq(ends@.map_values(|s: String| s@)) =~= orig + drain_seq(
                    all,
                ),
                writer.reliable() == self.reliable(),
                orig.is_prefix_of(writer.sunk()),
            decreases ends@.len(),
        {
            let ghost before = ends@.map_values(|s: String| s@);
            let s = ends.pop().unwrap();
            proof {
                assert(ends@.map_values(|s: String| s@) =~= before.drop_last());
                assert(s@ == before.last());
                assert(drain_seq(before) == before.last() + drain_seq(before.drop_last()));
            }
            if let Err(e) = writer.write_str(s.as_str()) {
                return Err(e);
            }
        }
        proof {
            assert(ends@.map_values(|s: String| s@) =~= Seq::<Seq<char>>::empty());
            assert(writer.sunk() =~= orig + drain_seq(all));
        }
        Ok(writer)
    }
}

/// An element with no closing tag: once its text is written, nothing
/// further is owed for it.
pub struct Single<W: SinkWrite> {
    writer: W,
}

impl<W: SinkWrite> Single<W> {
    /// The characters written to the underlying sink so far.
    pub closed spec fn sunk(&self) -> Seq<char> {
        self.writer.sunk()
    }

    /// Whether the underlying sink accepts every write.
    pub closed spec fn reliable(&self) -> bool {
        self.writer.reliable()
    }

    /// Write the element's whole text.
    pub fn new(writer: W, ar: &str) -> (r: Result<Single<W>, WriteError>)
        ensures
            r matches Ok(s) ==> s.sunk() == writer.sunk() + ar@ && s.reliable()
                == writer.reliable(),
            r is Err ==> !writer.reliable(),
    {
        let mut writer = writer;
        if let Err(e) = writer.write_str(ar) {
            return Err(e);
        }
        Ok(Single { writer })
    }

    /// Descend into a child element that owes a closing text: write its
    /// opening text and hand the sink to the child handle.
    pub fn borrow(self, a: &str) -> (r: Result<Element<W>, WriteError>)
        ensures
            r matches Ok(el) ==> el.sunk() == self.sunk() + a@ && el.reliable() == self.reliable(),
            r is Err ==> !self.reliable(),
    {
        Element::new(self.writer, a)
    }

    /// Write a child element that has no closing text.
    pub fn borrow_single(&mut self, a: &str) -> (r: Result<(), WriteError>)
        ensures
            r is Ok ==> final(self).sunk() == old(self).sunk() + a@,
            r is Err ==> !old(self).reliable(),
            final(self).reliable() == old(self).reliable(),
            old(self).sunk().is_prefix_of(final(self).sunk()),
    {
        self.writer.write_str(a)
    }

    /// Hand the sink back.
    pub fn into_writer(self) -> (r: W)
        ensures
            r.sunk() == self.sunk(),
            r.reliable() == self.reliable(),
    {
        self.writer
    }
}

/// An element with a closing tag still owed: `end` must be called, with
/// the closing text, to discharge it and recover the sink.
pub struct Element<W: SinkWrite> {
    writer: W,
}

impl<W: SinkWrite> Element<W> {
    /// The characters written to the underlying sink so far.
    pub closed spec fn sunk(&self) -> Seq<char> {
        self.writer.sunk()
    }

    /// Whether the underlying sink accepts every write.
    pub closed spec fn reliable(&self) -> bool {
        self.writer.reliable()
    }

    /// Write the element's opening text.
    pub fn new(writer: W, ar: &str) -> (r: Result<Element<W>, WriteError>)
        ensures
            r matches Ok(el) ==> el.sunk() == writer.sunk() + ar@ && el.reliable()
                == writer.reliable(),
            r is Err ==> !writer.reliable(),
    {
        let mut writer = writer;
        if let Err(e) = writer.write_str(ar) {
            return Err(e);
        }
        Ok(Element { writer })
    }

    /// Write the element's closing text and hand the sink back: the
    /// only way to finish the element.
    pub fn end(self, a: &str) -> (r: Result<W, WriteError>)
        ensures
            r matches Ok(w) ==> w.sunk() == self.sunk() + a@ && w.reliable() == self.reliable(),
            r is Err ==> !self.reliable(),
    {
        let mut writer = self.writer;
        if let Err(e) = writer.write_str(a) {
            return Err(e);
        }
        Ok(writer)
    }

    /// Write text inside the element.
    pub fn write_str(&mut self, s: &str) -> (r: Result<(), WriteError>)
        ensures
            r is Ok ==> final(self).sunk() == old(self).sunk() + s@,
            r is Err ==> !old(self).reliable(),
            final(self).reliable() == old(self).reliable(),
            old(self).sunk().is_prefix_of(final(self).sunk()),
    {
        self.writer.write_str(s)
    }

    /// Borrow the sink itself, for writes the handle's own methods do
    /// not cover.
    pub fn get_writer(&mut self) -> (r: &mut W)
        ensures
            r.sunk() == old(self).sunk(),
            r.reliable() == old(self).reliable(),
            final(self).sunk() == final(r).sunk(),
            final(self).reliable() == final(r).reliable(),
    {
        &mut self.writer
    }

    /// Descend into a child element: write its opening text.  The child
    /// reuses this handle; its closing text must be written with `end`
    /// before the parent's.
    pub fn borrow(self, a: &str) -> (r: Result<Element<W>, WriteError>)
        ensures
            r matches Ok(el) ==> el.sunk() == self.sunk() + a@ && el.reliable() == self.reliable(),
            r is Err ==> !self.reliable(),
    {
        let mut writer = self.writer;
        if let Err(e) = writer.write_str(a) {
            return Err(e);
        }
        Ok(Element { writer })
    }

    /// Write a child element that has no closing text.
    pub fn borrow_single(&mut self, a: &str) -> (r: Result<(), WriteError>)
        ensures
            r is Ok ==> final(self).sunk() == old(self).sunk() + a@,
            r is Err ==> !old(self).reliable(),
            final(self).reliable() == old(self).reliable(),
            old(self).sunk().is_prefix_of(final(self).sunk()),
    {
        self.writer.write_str(a)
    }
}

} // verus!
