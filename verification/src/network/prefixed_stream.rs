//! A stream with bytes in front of it that were read ahead.
use vstd::prelude::*;

use crate::codec::slice_of;

verus! {

broadcast use vstd::seq::group_seq_axioms;

/// Bytes that come before those of `inner`.
pub struct PrefixedRead<R> {
    prefix: Option<Vec<u8>>,
    pos: usize,
    pub inner: R,
}

impl<R> PrefixedRead<R> {
    /// The bytes that have not been handed out.
    pub closed spec fn ahead(&self) -> Seq<u8> {
        match self.prefix {
            Some(p) => p@.skip(self.pos as int),
            None => Seq::empty(),
        }
    }

    pub closed spec fn stream(&self) -> R {
        self.inner
    }

    pub closed spec fn wf(&self) -> bool {
        self.prefix matches Some(p) ==> self.pos <= p@.len()
    }

    pub fn new(inner: R, prefix_bytes: Vec<u8>) -> (r: Self)
        ensures
            r.wf(),
            r.stream() == inner,
            r.ahead() == prefix_bytes@,
    {
        if prefix_bytes.len() == 0 {
            assert(prefix_bytes@ == Seq::<u8>::empty());
            PrefixedRead { prefix: None, pos: 0, inner }
        } else {
            assert(prefix_bytes@.skip(0) == prefix_bytes@);
            PrefixedRead { prefix: Some(prefix_bytes), pos: 0, inner }
        }
    }

    pub fn without_prefix(inner: R) -> (r: Self)
        ensures
            r.wf(),
            r.stream() == inner,
            r.ahead() == Seq::<u8>::empty(),
    {
        PrefixedRead { prefix: None, pos: 0, inner }
    }

    /// Hands out the next bytes that were read ahead, as many as there is room for. Where this
    /// gives none, it is `inner` that is read.
    pub fn read_ahead(&mut self, room: usize) -> (r: Vec<u8>)
        requires
            old(self).wf(),
        ensures
            final(self).wf(),
            final(self).stream() == old(self).stream(),
            r@ + final(self).ahead() == old(self).ahead(),
            r@.len() == (if room < old(self).ahead().len() {
                room as nat
            } else {
                old(self).ahead().len()
            }),
    {
        let ghost before = self.ahead();
        let (out, end): (Vec<u8>, bool) = match &self.prefix {
            None => (Vec::new(), false),
            Some(p) => {
                let left: usize = p.len() - self.pos;
                let n: usize = if room < left {
                    room
                } else {
                    left
                };
                let out = slice_of(p.as_slice(), self.pos, self.pos + n);
                assert(out@ == before.take(n as int));
                self.pos = self.pos + n;
                (out, self.pos >= p.len())
            },
        };
        assert(out@ + self.ahead() == before);
        if end {
            assert(self.ahead() == Seq::<u8>::empty());
            self.prefix = None;
            self.pos = 0;
        }
        out
    }
}

} // verus!
