//! SVG attribute-value builders in the XML writer's own style: path
//! commands written as `M x y ` / `L x y ` words with the command
//! letter first.

use vstd::prelude::*;
use vstd::string::StringExecFns;
use crate::sink::SinkWrite;
use crate::sink::WriteError;
use crate::point_seq;

verus! {

/// A move-to or line-to word: the letter, the two coordinates, and a
/// trailing space.
pub open spec fn path_word_seq(letter: char, x: i64, y: i64) -> Seq<char> {
    seq![letter, ' '] + crate::num::dec_i64(x) + seq![' '] + crate::num::dec_i64(y) + seq![' ']
}

/// Builds the value of a `points` attribute, pair by pair.
pub struct PolyLineBuilder<W: SinkWrite> {
    inner: W,
}

impl<W: SinkWrite> PolyLineBuilder<W> {
    /// The characters written to the underlying sink so far.
    pub closed spec fn sunk(&self) -> Seq<char> {
        self.inner.sunk()
    }

    /// Whether the underlying sink accepts every write.
    pub closed spec fn reliable(&self) -> bool {
        self.inner.reliable()
    }

    /// Begin the attribute, writing ` points="`.
    pub fn new(inner: W) -> (r: Result<PolyLineBuilder<W>, WriteError>)
        ensures
            r matches Ok(p) ==> p.sunk() == inner.sunk() + " points=\""@ && p.reliable()
                == inner.reliable(),
            r is Err ==> !inner.reliable(),
    {
        let mut inner = inner;
        if let Err(e) = inner.write_str(" points=\"") {
            return Err(e);
        }
        Ok(PolyLineBuilder { inner })
    }

    /// Append one `x,y ` pair.
    pub fn add_point(&mut self, x: i64, y: i64) -> (r: Result<(), WriteError>)
        ensures
            r is Ok ==> final(self).sunk() == old(self).sunk() + point_seq(x, y),
            r is Err ==> !old(self).reliable(),
            final(self).reliable() == old(self).reliable(),
            old(self).sunk().is_prefix_of(final(self).sunk()),
    {
        let mut out = crate::num::fmt_i64(x);
        out.append(",");
        let ys = crate::num::fmt_i64(y);
        out.append(ys.as_str());
        out.append(" ");
        proof {
            reveal_strlit(",");
            reveal_strlit(" ");
            assert(","@ =~= seq![',']);
            assert(" "@ =~= seq![' ']);
            assert(out@ =~= point_seq(x, y));
        }
        self.inner.write_str(out.as_str())
    }

    /// Write the closing quote, exactly once, and hand the sink back.
    pub fn finish(self) -> (r: Result<W, WriteError>)
        ensures
            r matches Ok(w) ==> w.sunk() == self.sunk() + seq!['"'] && w.reliable()
                == self.reliable(),
            r is Err ==> !self.reliable(),
    {
        let mut inner = self.inner;
        if let Err(e) = inner.write_str("\"") {
            return Err(e);
        }
        proof {
            reveal_strlit("\"");
            assert("\""@ =~= seq!['"']);
        }
        Ok(inner)
    }
}

/// Builds the value of a `d` attribute, word by word.
pub struct PathBuilder<W: SinkWrite> {
    inner: W,
}

impl<W: SinkWrite> PathBuilder<W> {
    /// The characters written to the underlying sink so far.
    pub closed spec fn sunk(&self) -> Seq<char> {
        self.inner.sunk()
    }

    /// Whether the underlying sink accepts every write.
    pub closed spec fn reliable(&self) -> bool {
        self.inner.reliable()
    }

    /// Begin the attribute, writing ` d="`.
    pub fn new(inner: W) -> (r: Result<PathBuilder<W>, WriteError>)
        ensures
            r matches Ok(p) ==> p.sunk() == inner.sunk() + " d=\""@ && p.reliable()
                == inner.reliable(),
            r is Err ==> !inner.reliable(),
    {
        let mut inner = inner;
        if let Err(e) = inner.write_str(" d=\"") {
            return Err(e);
        }
        Ok(PathBuilder { inner })
    }

    /// Append a `M x y ` word.
    pub fn move_to(&mut self, x: i64, y: i64) -> (r: Result<(), WriteError>)
        ensures
            r is Ok ==> final(self).sunk() == old(self).sunk() + path_word_seq('M', x, y),
            r is Err ==> !old(self).reliable(),
            final(self).reliable() == old(self).reliable(),
            old(self).sunk().is_prefix_of(final(self).sunk()),
    {
        let r = self.word("M ", x, y);
        proof {
            reveal_strlit("M ");
            assert("M "@ =~= seq!['M', ' ']);
            assert(old(self).sunk() + "M "@ + crate::num::dec_i64(x) + seq![' ']
                + crate::num::dec_i64(y) + seq![' '] =~= old(self).sunk() + path_word_seq(
                'M',
                x,
                y,
            ));
        }
        r
    }

    /// Append a `L x y ` word.
    pub fn line_to(&mut self, x: i64, y: i64) -> (r: Result<(), WriteError>)
        ensures
            r is Ok ==> final(self).sunk() == old(self).sunk() + path_word_seq('L', x, y),
            r is Err ==> !old(self).reliable(),
            final(self).reliable() == old(self).reliable(),
            old(self).sunk().is_prefix_of(final(self).sunk()),
    {
        let r = self.word("L ", x, y);
        proof {
            reveal_strlit("L ");
            assert("L "@ =~= seq!['L', ' ']);
            assert(old(self).sunk() + "L "@ + crate::num::dec_i64(x) + seq![' ']
                + crate::num::dec_i64(y) + seq![' '] =~= old(self).sunk() + path_word_seq(
                'L',
                x,
                y,
            ));
        }
        r
    }

    /// Append one command word, given its head text.
    fn word(&mut self, head: &str, x: i64, y: i64) -> (r: Result<(), WriteError>)
        ensures
            r is Ok ==> final(self).sunk() == old(self).sunk() + head@ + crate::num::dec_i64(x)
                + seq![' '] + crate::num::dec_i64(y) + seq![' '],
            r is Err ==> !old(self).reliable(),
            final(self).reliable() == old(self).reliable(),
            old(self).sunk().is_prefix_of(final(self).sunk()),
    {
        let mut out = String::from_str(head);
        crate::num::push_i64(&mut out, x);
        out.append(" ");
        crate::num::push_i64(&mut out, y);
        out.append(" ");
        proof {
            reveal_strlit(" ");
            assert(" "@ =~= seq![' ']);
            assert(out@ =~= head@ + crate::num::dec_i64(x) + seq![' '] + crate::num::dec_i64(y)
                + seq![' ']);
        }
        self.inner.write_str(out.as_str())
    }

    /// Append a close-path marker.
    pub fn close(&mut self) -> (r: Result<(), WriteError>)
        ensures
            r is Ok ==> final(self).sunk() == old(self).sunk() + seq!['z'],
            r is Err ==> !old(self).reliable(),
            final(self).reliable() == old(self).reliable(),
            old(self).sunk().is_prefix_of(final(self).sunk()),
    {
        proof {
            reveal_strlit("z");
            assert("z"@ =~= seq!['z']);
        }
        self.inner.write_str("z")
    }

    /// Write the closing quote, exactly once, and hand the sink back.
    pub fn finish(self) -> (r: Result<W, WriteError>)
        ensures
            r matches Ok(w) ==> w.sunk() == self.sunk() + seq!['"'] && w.reliable()
                == self.reliable(),
            r is Err ==> !self.reliable(),
    {
        let mut inner = self.inner;
        if let Err(e) = inner.write_str("\"") {
            return Err(e);
        }
        proof {
            reveal_strlit("\"");
            assert("\""@ =~= seq!['"']);
        }
        Ok(inner)
    }
}

} // verus!
