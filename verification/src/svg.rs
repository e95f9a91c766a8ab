//! SVG building blocks: the coordinate-list and path-data attribute
//! builders.
//!
//! Both are created with the attribute's opening quote already written
//! and must be finished explicitly, which writes the closing quote
//! exactly once and hands the sink back.

use vstd::prelude::*;
use vstd::string::StringExecFns;
use crate::sink::SinkWrite;
use crate::sink::WriteError;
use crate::point_seq;
use crate::cmd_seq;

pub use crate::PathCommand;

verus! {

/// A whole coordinate list, one `x,y ` unit per point.
pub open spec fn points_seq(pts: Seq<(i64, i64)>) -> Seq<char>
    decreases pts.len(),
{
    if pts.len() == 0 {
        Seq::empty()
    } else {
        point_seq(pts[0].0, pts[0].1) + points_seq(pts.drop_first())
    }
}

/// Reading one `x,y` unit back: split on the comma, parse both halves.
pub open spec fn parse_point(u: Seq<char>) -> (int, int) {
    let k = crate::num::find_char(u, ',') as int;
    (crate::num::parse_int(u.subrange(0, k)), crate::num::parse_int(
        u.subrange(k + 1, u.len() as int),
    ))
}

/// Reading a coordinate list back: split on spaces, then split each
/// unit on its comma.
pub open spec fn parse_points(s: Seq<char>) -> Seq<(int, int)>
    decreases s.len(),
{
    if s.len() == 0 {
        Seq::empty()
    } else {
        let k = crate::num::find_char(s, ' ') as int;
        if k >= s.len() {
            seq![parse_point(s)]
        } else {
            seq![parse_point(s.subrange(0, k))] + parse_points(s.skip(k + 1))
        }
    }
}

/// Round trip for the coordinate list: splitting the rendered list on
/// whitespace and then on commas recovers exactly the points that were
/// added, in order.
pub proof fn lemma_points_round_trip(pts: Seq<(i64, i64)>)
    ensures
        parse_points(points_seq(pts)) =~= pts.map_values(
            |p: (i64, i64)| (p.0 as int, p.1 as int),
        ),
    decreases pts.len(),
{
    if pts.len() == 0 {
        assert(pts.map_values(|p: (i64, i64)| (p.0 as int, p.1 as int)) =~= Seq::<
            (int, int),
        >::empty());
    } else {
        let x = pts[0].0;
        let y = pts[0].1;
        let dx = crate::num::dec_i64(x);
        let dy = crate::num::dec_i64(y);
        let rest = points_seq(pts.drop_first());
        let s = points_seq(pts);
        lemma_points_round_trip(pts.drop_first());
        crate::num::lemma_dec_i64_chars(x);
        crate::num::lemma_dec_i64_chars(y);
        assert(s =~= (dx + seq![','] + dy) + (seq![' '] + rest));
        let head = dx + seq![','] + dy;
        assert(forall|i: int| 0 <= i < head.len() ==> #[trigger] head[i] != ' ');
        crate::num::lemma_find_char_after(head, seq![' '] + rest, ' ');
        let k = crate::num::find_char(s, ' ') as int;
        assert(k == head.len());
        assert(s.len() > k);
        assert(s.subrange(0, k) =~= head);
        assert(s.skip(k + 1) =~= rest);
        // The unit itself splits at its comma.
        assert(forall|i: int| 0 <= i < dx.len() ==> #[trigger] dx[i] != ',');
        crate::num::lemma_find_char_after(dx, seq![','] + dy, ',');
        assert(head =~= dx + (seq![','] + dy));
        let j = crate::num::find_char(head, ',') as int;
        assert(j == dx.len());
        assert(head.subrange(0, j) =~= dx);
        assert(head.subrange(j + 1, head.len() as int) =~= dy);
        crate::num::lemma_parse_dec_i64(x);
        crate::num::lemma_parse_dec_i64(y);
        assert(parse_point(head) == (x as int, y as int));
        assert(parse_points(s) == seq![parse_point(head)] + parse_points(rest));
        assert(pts.map_values(|p: (i64, i64)| (p.0 as int, p.1 as int)).drop_first() =~= pts
            .drop_first().map_values(|p: (i64, i64)| (p.0 as int, p.1 as int)));
    }
}

/// Builds the value of a `points` attribute, pair by pair.
pub struct PolyLineBuilder<W: SinkWrite> {
    inner: W,
}

impl<W: SinkWrite> PolyLineBuilder<W> {
    /// The characters written to the underlying sink so far.
    pub closed spec fn sunk(&self) -> Seq<char> {
        self.inner.sunk()
    }

    /// Whether the underlying sink accepts every write.
    pub closed spec fn reliable(&self) -> bool {
        self.inner.reliable()
    }

    /// Begin the attribute, writing ` points="`.
    pub fn new(inner: W) -> (r: Result<PolyLineBuilder<W>, WriteError>)
        ensures
            r matches Ok(p) ==> p.sunk() == inner.sunk() + " points=\""@ && p.reliable()
                == inner.reliable(),
            r is Err ==> !inner.reliable(),
    {
        let mut inner = inner;
        if let Err(e) = inner.write_str(" points=\"") {
            return Err(e);
        }
        Ok(PolyLineBuilder { inner })
    }

    /// Append one `x,y ` pair.
    pub fn add_point(&mut self, x: i64, y: i64) -> (r: Result<(), WriteError>)
        ensures
            r is Ok ==> final(self).sunk() == old(self).sunk() + point_seq(x, y),
            r is Err ==> !old(self).reliable(),
            final(self).reliable() == old(self).reliable(),
            old(self).sunk().is_prefix_of(final(self).sunk()),
    {
        let mut out = crate::num::fmt_i64(x);
        out.append(",");
        let ys = crate::num::fmt_i64(y);
        out.append(ys.as_str());
        out.append(" ");
        proof {
            reveal_strlit(",");
            reveal_strlit(" ");
            assert(","@ =~= seq![',']);
            assert(" "@ =~= seq![' ']);
            assert(out@ =~= point_seq(x, y));
        }
        self.inner.write_str(out.as_str())
    }

    /// Write the closing quote, exactly once, and hand the sink back.
    pub fn finish(self) -> (r: Result<W, WriteError>)
        ensures
            r matches Ok(w) ==> w.sunk() == self.sunk() + seq!['"'] && w.reliable()
                == self.reliable(),
            r is Err ==> !self.reliable(),
    {
        let mut inner = self.inner;
        if let Err(e) = inner.write_str("\"") {
            return Err(e);
        }
        proof {
            reveal_strlit("\"");
            assert("\""@ =~= seq!['"']);
        }
        Ok(inner)
    }
}

/// Builds the value of a `d` attribute, command by command.
pub struct PathBuilder<W: SinkWrite> {
    inner: W,
}

impl<W: SinkWrite> PathBuilder<W> {
    /// The characters written to the underlying sink so far.
    pub closed spec fn sunk(&self) -> Seq<char> {
        self.inner.sunk()
    }

    /// Whether the underlying sink accepts every write.
    pub closed spec fn reliable(&self) -> bool {
        self.inner.reliable()
    }

    /// Begin the attribute, writing ` d="`.
    pub fn new(inner: W) -> (r: Result<PathBuilder<W>, WriteError>)
        ensures
            r matches Ok(p) ==> p.sunk() == inner.sunk() + " d=\""@ && p.reliable()
                == inner.reliable(),
            r is Err ==> !inner.reliable(),
    {
        let mut inner = inner;
        if let Err(e) = inner.write_str(" d=\"") {
            return Err(e);
        }
        Ok(PathBuilder { inner })
    }

    /// Append one path command in its textual form.
    pub fn draw(&mut self, val: &PathCommand<i64>) -> (r: Result<(), WriteError>)
        ensures
            r is Ok ==> final(self).sunk() == old(self).sunk() + cmd_seq(*val),
            r is Err ==> !old(self).reliable(),
            final(self).reliable() == old(self).reliable(),
            old(self).sunk().is_prefix_of(final(self).sunk()),
    {
        val.write(&mut self.inner)
    }

    /// Append a close-path marker.
    pub fn draw_z(&mut self) -> (r: Result<(), WriteError>)
        ensures
            r is Ok ==> final(self).sunk() == old(self).sunk() + seq!['Z'],
            r is Err ==> !old(self).reliable(),
            final(self).reliable() == old(self).reliable(),
            old(self).sunk().is_prefix_of(final(self).sunk()),
    {
        proof {
            reveal_strlit("Z");
            assert("Z"@ =~= seq!['Z']);
        }
        self.inner.write_str("Z")
    }

    /// Write the closing quote, exactly once, and hand the sink back.
    pub fn finish(self) -> (r: Result<W, WriteError>)
        ensures
            r matches Ok(w) ==> w.sunk() == self.sunk() + seq!['"'] && w.reliable()
                == self.reliable(),
            r is Err ==> !self.reliable(),
    {
        let mut inner = self.inner;
        if let Err(e) = inner.write_str("\"") {
            return Err(e);
        }
        proof {
            reveal_strlit("\"");
            assert("\""@ =~= seq!['"']);
        }
        Ok(inner)
    }
}

} // verus!
