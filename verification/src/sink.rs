//! Text sinks: destinations that accept sequential text writes and may
//! report failure.
//!
//! The view of a sink is the sequence of characters written to it so
//! far.  A successful write appends exactly the given text; a failed
//! write leaves the old content plus at most a prefix of the argument,
//! and can only happen on a sink that is not reliable.  A sink may
//! also owe closing texts (`owed`), which writing never changes: they
//! are discharged only by the sink's own finishing operations.

use vstd::prelude::*;
use vstd::string::StrSliceExecFns;
use vstd::string::StringExecFns;

verus! {

/// The error a sink reports when it refuses or fails a write.
#[derive(Clone, Copy, Debug, PartialEq, Eq, Structural)]
pub struct WriteError;

/// A destination for sequential text writes.
///
/// `sunk()` is the text written so far; `reliable()` says whether this
/// sink is guaranteed to accept every write; `owed()` is the closing
/// texts this sink still owes its own underlying destination, owed
/// first last — a plain sink owes nothing, an open element handle owes
/// its closing tag on top of whatever its inner sink owes.
pub trait SinkWrite: Sized {
    /// The characters written to this sink so far.
    spec fn sunk(&self) -> Seq<char>;

    /// Whether this sink accepts every write.
    spec fn reliable(&self) -> bool;

    /// The closing texts this sink still owes, outermost first.
    spec fn owed(&self) -> Seq<Seq<char>>;

    /// Write `s` to the sink.  On success the content grows by exactly
    /// `s`; on failure the sink cannot have been reliable, and the
    /// content holds the old text plus at most a prefix of `s`.  The
    /// owed closing texts are untouched either way.
    fn write_str(&mut self, s: &str) -> (r: Result<(), WriteError>)
        ensures
            r is Ok ==> final(self).sunk() == old(self).sunk() + s@,
            r is Err ==> !old(self).reliable(),
            final(self).reliable() == old(self).reliable(),
            final(self).owed() == old(self).owed(),
            old(self).sunk().is_prefix_of(final(self).sunk()),
            final(self).sunk().is_prefix_of(old(self).sunk() + s@),
    ;
}

/// A sink backed by an in-memory string; it never fails and owes
/// nothing.
pub struct StringSink {
    out: String,
}

impl StringSink {
    /// Create an empty sink.
    pub fn new() -> (r: StringSink)
        ensures
            r.sunk() == Seq::<char>::empty(),
            r.reliable(),
            r.owed() == Seq::<Seq<char>>::empty(),
    {
        StringSink { out: String::new() }
    }

    /// Hand out the accumulated text.
    pub fn into_string(self) -> (r: String)
        ensures
            r@ == self.sunk(),
    {
        self.out
    }

    /// Borrow the accumulated text.
    pub fn as_str(&self) -> (r: &str)
        ensures
            r@ == self.sunk(),
    {
        self.out.as_str()
    }
}

impl SinkWrite for StringSink {
    closed spec fn sunk(&self) -> Seq<char> {
        self.out@
    }

    closed spec fn reliable(&self) -> bool {
        true
    }

    closed spec fn owed(&self) -> Seq<Seq<char>> {
        Seq::empty()
    }

    fn write_str(&mut self, s: &str) -> (r: Result<(), WriteError>)
        ensures
            r is Ok,
    {
        self.out.append(s);
        Ok(())
    }
}

/// A sink with a fixed capacity, counted in characters.  A write that
/// would push the content past the capacity fails and leaves the
/// content unchanged.  It owes nothing.
pub struct BoundedSink {
    out: String,
    cap: usize,
}

impl BoundedSink {
    /// Create an empty sink that accepts at most `cap` characters.
    pub fn new(cap: usize) -> (r: BoundedSink)
        ensures
            r.sunk() == Seq::<char>::empty(),
            r.capacity() == cap,
            r.owed() == Seq::<Seq<char>>::empty(),
    {
        BoundedSink { out: String::new(), cap }
    }

    /// The capacity this sink was created with.
    pub closed spec fn capacity(&self) -> nat {
        self.cap as nat
    }

    /// Hand out the accumulated text.
    pub fn into_string(self) -> (r: String)
        ensures
            r@ == self.sunk(),
    {
        self.out
    }
}

impl SinkWrite for BoundedSink {
    closed spec fn sunk(&self) -> Seq<char> {
        self.out@
    }

    closed spec fn reliable(&self) -> bool {
        false
    }

    closed spec fn owed(&self) -> Seq<Seq<char>> {
        Seq::empty()
    }

    fn write_str(&mut self, s: &str) -> (r: Result<(), WriteError>)
        ensures
            r is Ok <==> old(self).sunk().len() + s@.len() <= old(self).capacity(),
            r is Err ==> final(self).sunk() == old(self).sunk(),
            final(self).capacity() == old(self).capacity(),
    {
        let have = self.out.as_str().unicode_len();
        if have <= self.cap && s.unicode_len() <= self.cap - have {
            self.out.append(s);
            Ok(())
        } else {
            Err(WriteError)
        }
    }
}

} // verus!
