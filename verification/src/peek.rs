use vstd::prelude::*;

use crate::error::DerError;
use crate::intermediate::{append_bytes, copy_range};

verus! {

/// A read adapter with two phases.  While peeking, every delivered byte is
/// also copied into an internal buffer.  After stop, reads replay the
/// buffered bytes in order first, then continue with the unread input.
pub struct Peek {
    inner: Vec<u8>,
    pos: usize,
    buffer: Vec<u8>,
    bpos: usize,
    peeking: bool,
}

impl Peek {
    /// The read positions lie within their buffers.
    pub closed spec fn wf(&self) -> bool {
        self.pos <= self.inner@.len() && self.bpos <= self.buffer@.len()
    }

    /// Whether the adapter is still in its peek phase.
    pub closed spec fn spec_peeking(&self) -> bool {
        self.peeking
    }

    /// The input bytes not yet read from the underlying source.
    pub closed spec fn spec_source(&self) -> Seq<u8> {
        self.inner@.skip(self.pos as int)
    }

    /// The bytes the replay phase has left to deliver: the buffered bytes not
    /// yet replayed, then the unread input.
    pub closed spec fn spec_pending(&self) -> Seq<u8> {
        self.buffer@.skip(self.bpos as int) + self.inner@.skip(self.pos as int)
    }

    /// Wrap an input, starting in the peek phase.
    pub fn new(data: Vec<u8>) -> (r: Peek)
        ensures
            r.wf(),
            r.spec_peeking(),
            r.spec_source() == data@,
            r.spec_pending() == data@,
    {
        let r = Peek { inner: data, pos: 0, buffer: Vec::new(), bpos: 0, peeking: true };
        proof {
            assert(r.spec_source() =~= r.inner@);
            assert(r.spec_pending() =~= r.inner@);
        }
        r
    }

    /// Leave the peek phase: later reads replay what was seen.
    pub fn stop(&mut self)
        requires
            old(self).wf(),
        ensures
            final(self).wf(),
            !final(self).spec_peeking(),
            final(self).spec_source() == old(self).spec_source(),
            final(self).spec_pending() == old(self).spec_pending(),
    {
        self.peeking = false;
    }

    /// Read up to n bytes.
    ///
    /// In the peek phase the bytes come from the input, fewer when it runs
    /// out, and a copy of each stays behind in the buffer, so what a later
    /// replay delivers does not change.  In the replay phase exactly n bytes
    /// come from the buffered bytes first and the input after them, or the
    /// read fails without delivering anything.
    pub fn read(&mut self, n: usize) -> (r: Result<Vec<u8>, DerError>)
        requires
            old(self).wf(),
        ensures
            final(self).wf(),
            final(self).spec_peeking() == old(self).spec_peeking(),
            old(self).spec_peeking() ==> ({
                let k = if n <= old(self).spec_source().len() {
                    n as int
                } else {
                    old(self).spec_source().len() as int
                };
                match r {
                    Ok(out) => out@ == old(self).spec_source().take(k) && final(self).spec_source()
                        == old(self).spec_source().skip(k) && final(self).spec_pending() == old(
                        self,
                    ).spec_pending(),
                    Err(e) => false,
                }
            }),
            !old(self).spec_peeking() ==> match r {
                Ok(out) => n <= old(self).spec_pending().len() && out@ == old(
                    self,
                ).spec_pending().take(n as int) && final(self).spec_pending() == old(
                    self,
                ).spec_pending().skip(n as int),
                Err(e) => e == DerError::UnexpectedEof && n > old(self).spec_pending().len()
                    && final(self).spec_pending() == old(self).spec_pending(),
            },
    {
        if self.peeking {
            let avail = self.inner.len() - self.pos;
            let k = if n <= avail {
                n
            } else {
                avail
            };
            let out = copy_range(&self.inner, self.pos, self.pos + k);
            proof {
                assert(out@ =~= old(self).spec_source().take(k as int));
            }
            append_bytes(&mut self.buffer, &out);
            self.pos = self.pos + k;
            proof {
                assert(self.spec_source() =~= old(self).spec_source().skip(k as int));
                assert(self.spec_pending() =~= old(self).spec_pending());
            }
            Ok(out)
        } else {
            let avail_buf = self.buffer.len() - self.bpos;
            let avail_in = self.inner.len() - self.pos;
            if n <= avail_buf {
                let out = copy_range(&self.buffer, self.bpos, self.bpos + n);
                self.bpos = self.bpos + n;
                proof {
                    assert(out@ =~= old(self).spec_pending().take(n as int));
                    assert(self.spec_pending() =~= old(self).spec_pending().skip(n as int));
                }
                Ok(out)
            } else if n - avail_buf <= avail_in {
                let from_in = n - avail_buf;
                let mut out = copy_range(&self.buffer, self.bpos, self.buffer.len());
                let more = copy_range(&self.inner, self.pos, self.pos + from_in);
                append_bytes(&mut out, &more);
                self.bpos = self.buffer.len();
                self.pos = self.pos + from_in;
                proof {
                    assert(out@ =~= old(self).spec_pending().take(n as int));
                    assert(self.spec_pending() =~= old(self).spec_pending().skip(n as int));
                }
                Ok(out)
            } else {
                Err(DerError::UnexpectedEof)
            }
        }
    }
}

} // verus!
