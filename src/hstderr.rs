//! A fixed buffer that keeps the start of the last message written to it.

use vstd::prelude::*;
use vstd::string::StringSliceAdditionalSpecFns;

verus! {

/// Size of the message buffer.
pub const HSTDERR_LEN: usize = 1024;

/// A message buffer of `HSTDERR_LEN` bytes.
pub struct HStderr {
    buf: [u8; HSTDERR_LEN],
}

impl HStderr {
    pub closed spec fn contents(self) -> Seq<u8> {
        self.buf@
    }

    /// A buffer of zero bytes.
    pub fn new() -> (r: Self)
        ensures
            r.contents() == Seq::new(HSTDERR_LEN as nat, |i: int| 0u8),
    {
        let r = HStderr { buf: [0u8; HSTDERR_LEN] };
        assert(r.contents() =~= Seq::new(HSTDERR_LEN as nat, |i: int| 0u8));
        r
    }

    /// Copies the bytes of `err` to the start of the buffer, as many as fit;
    /// the bytes after them stay as they were.
    pub fn write_str(&mut self, err: &str)
        ensures
            ({
                let n = if err.spec_bytes().len() < HSTDERR_LEN {
                    err.spec_bytes().len() as int
                } else {
                    HSTDERR_LEN as int
                };
                final(self).contents() == err.spec_bytes().take(n) + old(self).contents().skip(n)
            }),
    {
        let bytes = err.as_bytes();
        let len = if bytes.len() < HSTDERR_LEN {
            bytes.len()
        } else {
            HSTDERR_LEN
        };
        let mut i: usize = 0;
        while i < len
            invariant
                0 <= i <= len <= HSTDERR_LEN,
                len <= bytes@.len(),
                bytes@ == err.spec_bytes(),
                self.buf@.len() == HSTDERR_LEN,
                forall|j: int| 0 <= j < i ==> self.buf@[j] == bytes@[j],
                forall|j: int| i <= j < HSTDERR_LEN ==> self.buf@[j] == old(self).buf@[j],
            decreases len - i,
        {
            self.buf[i] = bytes[i];
            i += 1;
        }
        assert(self.buf@ =~= bytes@.take(len as int) + old(self).buf@.skip(len as int));
    }

    /// The whole buffer.
    pub fn buffer(&self) -> (r: &[u8; HSTDERR_LEN])
        ensures
            r@ == self.contents(),
    {
        &self.buf
    }
}

} // verus!
