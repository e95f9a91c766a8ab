//! A JSON object writer in the same stack style: nested objects are
//! opened with a key and closed in reverse order, and a comma is
//! written before every entry but the first of each object.
//!
//! Keys and values are written verbatim between their quotes; quoting
//! inside them is the caller's step.

use vstd::prelude::*;
use vstd::string::StringExecFns;
use crate::sink::SinkWrite;
use crate::sink::WriteError;

verus! {

/// The opening of a keyed child object: an optional comma, the quoted
/// key, a colon, and the opening brace.
pub open spec fn json_elem_seq(tag: Seq<char>, comma: bool) -> Seq<char> {
    (if comma {
        seq![',']
    } else {
        Seq::empty()
    }) + seq!['"'] + tag + seq!['"', ':', '{']
}

/// One string entry: an optional comma, the quoted key, a colon, and
/// the quoted value.
pub open spec fn json_inner_seq(key: Seq<char>, value: Seq<char>, comma: bool) -> Seq<char> {
    (if comma {
        seq![',']
    } else {
        Seq::empty()
    }) + seq!['"'] + key + seq!['"', ':', '"'] + value + seq!['"']
}

/// Begin a JSON document: write the root object's opening brace.
pub fn json<W: SinkWrite>(writer: W) -> (r: Result<JSON<W>, WriteError>)
    ensures
        r matches Ok(j) ==> j.sunk() == writer.sunk() + seq!['{'] && j.flags() == seq![false]
            && j.depth() == 1 && !j.started() && j.reliable() == writer.reliable(),
        r is Err ==> !writer.reliable(),
{
    let mut writer = writer;
    if let Err(e) = writer.write_str("{") {
        return Err(e);
    }
    proof {
        reveal_strlit("{");
        assert("{"@ =~= seq!['{']);
    }
    let mut started: Vec<bool> = Vec::new();
    started.push(false);
    let r = JSON { writer, started };
    proof {
        assert(r.flags() =~= seq![false]);
    }
    Ok(r)
}

/// A JSON document under construction: one entry of `started` per open
/// object, true once the object has at least one entry.
pub struct JSON<W: SinkWrite> {
    writer: W,
    started: Vec<bool>,
}

impl<W: SinkWrite> JSON<W> {
    /// The characters written to the underlying sink so far.
    pub closed spec fn sunk(&self) -> Seq<char> {
        self.writer.sunk()
    }

    /// Whether the underlying sink accepts every write.
    pub closed spec fn reliable(&self) -> bool {
        self.writer.reliable()
    }

    /// One flag per open object, outermost first: whether that object
    /// already has an entry, and so owes a comma before its next one.
    pub closed spec fn flags(&self) -> Seq<bool> {
        self.started@
    }

    /// How many objects are open.
    pub open spec fn depth(&self) -> nat {
        self.flags().len()
    }

    /// Whether the innermost open object already has an entry.
    pub open spec fn started(&self) -> bool {
        self.flags().last()
    }

    /// Open a child object under the given key.
    pub fn elem(&mut self, tag: &str) -> (r: Result<(), WriteError>)
        requires
            old(self).depth() > 0,
        ensures
            r is Ok ==> final(self).sunk() == old(self).sunk() + json_elem_seq(
                tag@,
                old(self).started(),
            ) && final(self).flags() == old(self).flags().update(
                old(self).depth() - 1,
                true,
            ).push(false),
            r is Err ==> !old(self).reliable() && final(self).flags() == old(self).flags(),
            final(self).reliable() == old(self).reliable(),
            old(self).sunk().is_prefix_of(final(self).sunk()),
    {
        let comma = self.started[self.started.len() - 1];
        let mut out = String::new();
        if comma {
            out.append(",");
        }
        out.append("\"");
        out.append(tag);
        out.append("\":{");
        proof {
            reveal_strlit(",");
            reveal_strlit("\"");
            reveal_strlit("\":{");
            assert(","@ =~= seq![',']);
            assert("\""@ =~= seq!['"']);
            assert("\":{"@ =~= seq!['"', ':', '{']);
            assert(out@ =~= json_elem_seq(tag@, comma));
        }
        if let Err(e) = self.writer.write_str(out.as_str()) {
            return Err(e);
        }
        let d = self.started.len();
        self.started.set(d - 1, true);
        self.started.push(false);
        Ok(())
    }

    /// Write one string entry under the given key.
    pub fn inner(&mut self, s: &str, f: &str) -> (r: Result<(), WriteError>)
        requires
            old(self).depth() > 0,
        ensures
            r is Ok ==> final(self).sunk() == old(self).sunk() + json_inner_seq(
                s@,
                f@,
                old(self).started(),
            ) && final(self).flags() == old(self).flags().update(old(self).depth() - 1, true),
            r is Err ==> !old(self).reliable() && final(self).flags() == old(self).flags(),
            final(self).reliable() == old(self).reliable(),
            old(self).sunk().is_prefix_of(final(self).sunk()),
    {
        let comma = self.started[self.started.len() - 1];
        let mut out = String::new();
        if comma {
            out.append(",");
        }
        out.append("\"");
        out.append(s);
        out.append("\":\"");
        out.append(f);
        out.append("\"");
        proof {
            reveal_strlit(",");
            reveal_strlit("\"");
            reveal_strlit("\":\"");
            assert(","@ =~= seq![',']);
            assert("\""@ =~= seq!['"']);
            assert("\":\""@ =~= seq!['"', ':', '"']);
            assert(out@ =~= json_inner_seq(s@, f@, comma));
        }
        if let Err(e) = self.writer.write_str(out.as_str()) {
            return Err(e);
        }
        let d = self.started.len();
        self.started.set(d - 1, true);
        Ok(())
    }

    /// Close the innermost open object, writing its closing brace.
    pub fn end(&mut self) -> (r: Result<(), WriteError>)
        requires
            old(self).depth() > 0,
        ensures
            r is Ok ==> final(self).sunk() == old(self).sunk() + seq!['}'],
            r is Err ==> !old(self).reliable(),
            final(self).flags() == old(self).flags().drop_last(),
            final(self).reliable() == old(self).reliable(),
            old(self).sunk().is_prefix_of(final(self).sunk()),
    {
        self.started.pop().unwrap();
        proof {
            reveal_strlit("}");
            assert("}"@ =~= seq!['}']);
        }
        self.writer.write_str("}")
    }

    /// How many objects are still open.
    pub fn open_objects(&self) -> (r: usize)
        ensures
            r as nat == self.depth(),
    {
        self.started.len()
    }

    /// Hand the sink back once every object has been closed.
    pub fn into_writer(self) -> (r: W)
        requires
            self.depth() == 0,
        ensures
            r.sunk() == self.sunk(),
            r.reliable() == self.reliable(),
    {
        self.writer
    }
}

} // verus!
