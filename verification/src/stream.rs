//! Streaming collection: a lazy, finite, non-restartable sequence of lines
//! produced while the writing process is still running. The consumer blocks
//! only when it asks for the next line; a complete line that has already
//! arrived is yielded at once, with no further input needed — this is what
//! lets a caller observe the first line before the producer has written the
//! second.

use vstd::prelude::*;
use crate::lines::{
    NEWLINE,
    join_lines,
    lemma_join_push,
    lemma_split_join,
    lemma_split_nl_free,
    spec_split_lines,
};

verus! {

/// The incremental line reader over a pipe's arriving chunks.
pub struct LineStream {
    buf: Vec<u8>,
    eof: bool,
    fed: Ghost<Seq<u8>>,
    delivered: Ghost<Seq<Seq<u8>>>,
    tail: Ghost<Option<Seq<u8>>>,
}

impl LineStream {
    /// Every byte pushed into the stream so far.
    pub closed spec fn fed(self) -> Seq<u8> {
        self.fed@
    }

    /// The bytes that arrived but were not yet yielded as lines.
    pub closed spec fn pending(self) -> Seq<u8> {
        self.buf@
    }

    /// Whether the writer side reached end of stream.
    pub closed spec fn eof_marked(self) -> bool {
        self.eof
    }

    /// The lines yielded so far, in order.
    pub closed spec fn delivered_lines(self) -> Seq<Seq<u8>> {
        match self.tail@ {
            Some(l) => self.delivered@.push(l),
            None => self.delivered@,
        }
    }

    /// Internal invariant: the bytes fed are exactly the yielded lines, each
    /// closed by its newline, followed by the pending bytes; an unterminated
    /// final line can be yielded only once, after end of stream.
    pub closed spec fn wf(self) -> bool {
        &&& (forall|k: int|
            0 <= k < self.delivered@.len() ==> !(#[trigger] self.delivered@[k]).contains(NEWLINE))
        &&& match self.tail@ {
            None => self.fed@ == join_lines(self.delivered@) + self.buf@,
            Some(l) => {
                &&& self.eof
                &&& self.buf@.len() == 0
                &&& l.len() > 0
                &&& !l.contains(NEWLINE)
                &&& self.fed@ == join_lines(self.delivered@) + l
            },
        }
    }

    /// An empty stream, awaiting its first chunk.
    pub fn new() -> (r: LineStream)
        ensures
            r.wf(),
            r.fed().len() == 0,
            r.pending().len() == 0,
            r.delivered_lines().len() == 0,
            !r.eof_marked(),
    {
        let r = LineStream {
            buf: Vec::new(),
            eof: false,
            fed: Ghost(Seq::empty()),
            delivered: Ghost(Seq::empty()),
            tail: Ghost(None),
        };
        proof {
            assert(join_lines(r.delivered@) + r.buf@ =~= r.fed@);
        }
        r
    }

    /// A chunk arrived from the pipe; lines already yielded are unaffected.
    pub fn push_chunk(&mut self, chunk: Vec<u8>)
        requires
            old(self).wf(),
            !old(self).eof_marked(),
        ensures
            final(self).wf(),
            final(self).fed() == old(self).fed() + chunk@,
            final(self).pending() == old(self).pending() + chunk@,
            final(self).delivered_lines() == old(self).delivered_lines(),
            !final(self).eof_marked(),
    {
        proof {
            // an unterminated tail is only ever yielded after end of stream
            assert(self.tail@ is None);
        }
        let ghost old_fed = self.fed@;
        let ghost old_buf = self.buf@;
        let ghost cv = chunk@;
        append_chunk(&mut self.buf, chunk);
        proof {
            self.fed@ = old_fed + cv;
            assert(join_lines(self.delivered@) + self.buf@ =~= self.fed@);
        }
    }

    /// The writer closed the pipe: no more bytes will arrive.
    pub fn finish(&mut self)
        requires
            old(self).wf(),
            !old(self).eof_marked(),
        ensures
            final(self).wf(),
            final(self).eof_marked(),
            final(self).fed() == old(self).fed(),
            final(self).pending() == old(self).pending(),
            final(self).delivered_lines() == old(self).delivered_lines(),
    {
        self.eof = true;
    }

    /// Ask for the next line, blocking nobody. A complete line that already
    /// arrived is yielded immediately; without one the answer is `None`
    /// until more bytes arrive, except that after end of stream a last
    /// unterminated line is yielded once, and then the stream stays
    /// exhausted.
    pub fn next_line(&mut self) -> (r: Option<Vec<u8>>)
        requires
            old(self).wf(),
        ensures
            final(self).wf(),
            final(self).fed() == old(self).fed(),
            final(self).eof_marked() == old(self).eof_marked(),
            old(self).pending().contains(NEWLINE) ==> {
                &&& r matches Some(l)
                &&& !l@.contains(NEWLINE)
                &&& old(self).pending() == l@ + seq![NEWLINE] + final(self).pending()
                &&& final(self).delivered_lines() == old(self).delivered_lines().push(l@)
            },
            (!old(self).pending().contains(NEWLINE) && !old(self).eof_marked()) ==> {
                &&& r is None
                &&& final(self).pending() == old(self).pending()
                &&& final(self).delivered_lines() == old(self).delivered_lines()
            },
            (!old(self).pending().contains(NEWLINE) && old(self).eof_marked() && old(
                self,
            ).pending().len() > 0) ==> {
                &&& r matches Some(l)
                &&& l@ == old(self).pending()
                &&& final(self).pending().len() == 0
                &&& final(self).delivered_lines() == old(self).delivered_lines().push(l@)
            },
            (!old(self).pending().contains(NEWLINE) && old(self).eof_marked() && old(
                self,
            ).pending().len() == 0) ==> {
                &&& r is None
                &&& final(self).pending() == old(self).pending()
                &&& final(self).delivered_lines() == old(self).delivered_lines()
            },
    {
        match find_newline(&self.buf) {
            Some(i) => {
                proof {
                    // a pending newline means the unterminated tail was not
                    // yielded yet
                    assert(self.buf@.contains(self.buf@[i as int]));
                    assert(self.tail@ is None);
                }
                let n = self.buf.len();
                proof {
                    assert(i < n);
                }
                let line = copy_range(&self.buf, 0, i);
                let rest = copy_range(&self.buf, i + 1, n);
                let ghost old_buf = self.buf@;
                let ghost old_delivered = self.delivered@;
                self.buf = rest;
                proof {
                    self.delivered@ = old_delivered.push(line@);
                    assert(old_buf =~= line@ + seq![NEWLINE] + self.buf@);
                    lemma_join_push(old_delivered, line@);
                    assert(join_lines(old_delivered.push(line@)) + self.buf@ =~= join_lines(
                        old_delivered,
                    ) + old_buf);
                }
                Some(line)
            },
            None => {
                if self.eof && self.buf.len() > 0 {
                    proof {
                        assert(self.tail@ is None);
                    }
                    let ghost old_buf = self.buf@;
                    let line = copy_range(&self.buf, 0, self.buf.len());
                    self.buf = Vec::new();
                    proof {
                        assert(line@ =~= old_buf);
                        self.tail@ = Some(line@);
                    }
                    Some(line)
                } else {
                    None
                }
            },
        }
    }

    /// Exhaustion law: once the writer closed the stream and every pending
    /// byte was consumed, the yielded lines are exactly the line-split of
    /// all bytes the stream was fed.
    pub proof fn lemma_exhausted(self)
        requires
            self.wf(),
            self.eof_marked(),
            self.pending().len() == 0,
        ensures
            self.delivered_lines() == spec_split_lines(self.fed()),
    {
        match self.tail@ {
            None => {
                assert(self.fed@ =~= join_lines(self.delivered@));
                lemma_split_join(self.delivered@, Seq::<u8>::empty());
                assert(join_lines(self.delivered@) + Seq::<u8>::empty() =~= join_lines(
                    self.delivered@,
                ));
                assert(self.delivered@ + spec_split_lines(Seq::<u8>::empty())
                    =~= self.delivered@);
            },
            Some(l) => {
                lemma_split_join(self.delivered@, l);
                lemma_split_nl_free(l);
                assert(self.delivered@ + seq![l] =~= self.delivered@.push(l));
            },
        }
    }
}

/// Find the first newline in the pending buffer.
fn find_newline(buf: &Vec<u8>) -> (r: Option<usize>)
    ensures
        r matches Some(i) ==> {
            &&& i < buf@.len()
            &&& buf@[i as int] == NEWLINE
            &&& forall|j: int| 0 <= j < i ==> buf@[j] != NEWLINE
        },
        r is None ==> !buf@.contains(NEWLINE),
{
    let mut i: usize = 0;
    while i < buf.len()
        invariant
            0 <= i <= buf@.len(),
            forall|j: int| 0 <= j < i ==> buf@[j] != NEWLINE,
        decreases buf@.len() - i,
    {
        if buf[i] == NEWLINE {
            return Some(i);
        }
        i += 1;
    }
    proof {
        if buf@.contains(NEWLINE) {
            let k = choose|k: int| 0 <= k < buf@.len() && buf@[k] == NEWLINE;
            assert(buf@[k] != NEWLINE);
        }
    }
    None
}

/// Copy `v[from..to]` into a fresh buffer.
fn copy_range(v: &Vec<u8>, from: usize, to: usize) -> (r: Vec<u8>)
    requires
        from <= to <= v@.len(),
    ensures
        r@ == v@.subrange(from as int, to as int),
{
    let mut r: Vec<u8> = Vec::new();
    let mut i: usize = from;
    while i < to
        invariant
            from <= i <= to <= v@.len(),
            r@ == v@.subrange(from as int, i as int),
        decreases to - i,
    {
        r.push(v[i]);
        proof {
            assert(r@ =~= v@.subrange(from as int, i as int + 1));
        }
        i += 1;
    }
    proof {
        assert(r@ =~= v@.subrange(from as int, to as int));
    }
    r
}

/// Append a chunk to the pending buffer.
fn append_chunk(buf: &mut Vec<u8>, chunk: Vec<u8>)
    ensures
        final(buf)@ == old(buf)@ + chunk@,
{
    let chunk = chunk;
    let mut i: usize = 0;
    while i < chunk.len()
        invariant
            0 <= i <= chunk@.len(),
            buf@ == old(buf)@ + chunk@.take(i as int),
        decreases chunk@.len() - i,
    {
        buf.push(chunk[i]);
        proof {
            assert(old(buf)@ + chunk@.take(i as int + 1) =~= (old(buf)@ + chunk@.take(
                i as int,
            )).push(chunk@[i as int]));
        }
        i += 1;
    }
    proof {
        assert(chunk@.take(chunk@.len() as int) =~= chunk@);
    }
}

} // verus!
