//! A byte source that is read front to back, each read taking exactly the
//! number of bytes asked for or reporting that the source has run dry.

use vstd::prelude::*;

verus! {

/// Bytes held in memory with a cursor. Its view is what is still unread.
#[derive(Debug)]
pub struct ByteSource {
    bytes: Vec<u8>,
    pos: usize,
}

impl View for ByteSource {
    type V = Seq<u8>;

    closed spec fn view(&self) -> Seq<u8> {
        self.bytes@.skip(self.pos as int)
    }
}

impl ByteSource {
    /// The cursor stands inside the bytes.
    #[verifier::type_invariant]
    closed spec fn cursor_inside(&self) -> bool {
        self.pos <= self.bytes@.len()
    }

    /// A source that hands out `bytes` from the front.
    pub fn new(bytes: Vec<u8>) -> (r: ByteSource)
        ensures
            r@ == bytes@,
    {
        let r = ByteSource { bytes, pos: 0 };
        assert(r@ =~= bytes@);
        r
    }

    /// The number of bytes that are still unread.
    pub fn remaining(&self) -> (n: usize)
        ensures
            n == self@.len(),
    {
        proof {
            use_type_invariant(self);
        }
        self.bytes.len() - self.pos
    }

    /// Moves the next `n` bytes to the end of `buf`. Where fewer than `n`
    /// are left, nothing is appended, the source is read to its end, and
    /// the result is `false`.
    pub fn read_exact(&mut self, buf: &mut Vec<u8>, n: usize) -> (ok: bool)
        ensures
            ok == (n <= old(self)@.len()),
            ok ==> final(buf)@ == old(buf)@ + old(self)@.take(n as int) && final(self)@ == old(
                self,
            )@.skip(n as int),
            !ok ==> final(buf)@ == old(buf)@ && final(self)@ == Seq::<u8>::empty(),
    {
        proof {
            use_type_invariant(&*self);
        }
        let len = self.bytes.len();
        if len - self.pos < n {
            self.pos = len;
            assert(self@ =~= Seq::<u8>::empty());
            return false;
        }
        let start = self.pos;
        let mut i: usize = 0;
        while i < n
            invariant
                i <= n,
                start + n <= len,
                len == self.bytes@.len(),
                self.bytes@ == old(self).bytes@,
                self.pos == start,
                start == old(self).pos,
                buf@ == old(buf)@ + old(self)@.take(i as int),
            decreases n - i,
        {
            buf.push(self.bytes[start + i]);
            i = i + 1;
            assert(buf@ =~= old(buf)@ + old(self)@.take(i as int));
        }
        self.pos = start + n;
        assert(self@ =~= old(self)@.skip(n as int));
        true
    }

    /// Puts `more` behind the unread bytes, as a stream does that delivers
    /// its bytes in parts.
    pub fn extend(&mut self, more: &[u8])
        ensures
            final(self)@ == old(self)@ + more@,
    {
        proof {
            use_type_invariant(&*self);
        }
        let mut taken = ByteSource { bytes: Vec::new(), pos: 0 };
        core::mem::swap(self, &mut taken);
        let ByteSource { bytes, pos } = taken;
        let mut bytes = bytes;
        let ghost kept = bytes@;
        let mut i: usize = 0;
        while i < more.len()
            invariant
                i <= more@.len(),
                bytes@ == kept + more@.take(i as int),
            decreases more@.len() - i,
        {
            bytes.push(more[i]);
            i = i + 1;
            assert(bytes@ =~= kept + more@.take(i as int));
        }
        assert(more@.take(more@.len() as int) =~= more@);
        *self = ByteSource { bytes, pos };
        assert(self@ =~= old(self)@ + more@);
    }

    /// The first unread byte, where there is one. Nothing is read.
    pub fn peek(&self) -> (b: Option<u8>)
        ensures
            b == (if self@.len() > 0 {
                Some(self@[0])
            } else {
                None
            }),
    {
        proof {
            use_type_invariant(self);
        }
        if self.pos < self.bytes.len() {
            Some(self.bytes[self.pos])
        } else {
            None
        }
    }

    /// Hands the unread bytes over to a new source and leaves this one dry.
    pub fn take_rest(&mut self) -> (r: ByteSource)
        ensures
            r@ == old(self)@,
            final(self)@ == Seq::<u8>::empty(),
    {
        let mut fresh = ByteSource { bytes: Vec::new(), pos: 0 };
        core::mem::swap(self, &mut fresh);
        assert(self@ =~= Seq::<u8>::empty());
        fresh
    }
}

} // verus!
