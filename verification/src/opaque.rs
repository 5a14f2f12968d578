//! Type-erased views over raw memory, re-architected as owned byte
//! buffers: a const view is the bytes of one finished value, read-only; an
//! uninit view is a buffer of possibly-garbage bytes being written, with
//! one terminal operation that asserts it is now fully initialized.
//! Neither view interprets its bytes; the shape used alongside a view
//! supplies the layout, and every operation must use exactly that shape's
//! layout.

use vstd::prelude::*;

verus! {

/// Splice of `src` into `dst` at `off`: the bytes of `dst` with the range
/// `[off, off + src.len())` replaced by `src`.
pub open spec fn spec_write(dst: Seq<u8>, off: int, src: Seq<u8>) -> Seq<u8> {
    Seq::new(dst.len(), |p: int| if off <= p < off + src.len() {
        src[p - off]
    } else {
        dst[p]
    })
}

/// A read-only type-erased view: the bytes of one live value.
#[derive(Debug)]
pub struct OpaqueConst {
    bytes: Vec<u8>,
}

impl View for OpaqueConst {
    type V = Seq<u8>;

    closed spec fn view(&self) -> Seq<u8> {
        self.bytes@
    }
}

impl OpaqueConst {
    /// Wraps the bytes of a finished value.
    pub fn new(bytes: Vec<u8>) -> (r: Self)
        ensures
            r@ == bytes@,
    {
        OpaqueConst { bytes }
    }

    /// How many bytes the value has.
    pub fn len(&self) -> (r: usize)
        ensures
            r == self@.len(),
    {
        self.bytes.len()
    }

    /// Read-only access to the value's bytes.
    pub fn as_slice(&self) -> (r: &[u8])
        ensures
            r@ == self@,
    {
        self.bytes.as_slice()
    }

    /// Hands the backing bytes to the caller.
    pub fn into_bytes(self) -> (r: Vec<u8>)
        ensures
            r@ == self@,
    {
        self.bytes
    }
}

/// A write-only type-erased view over possibly-uninitialized memory.  The
/// model owns the buffer, so bytes not yet written hold garbage but are
/// never read through this view; whoever drives the writes decides, per
/// byte range, when its contents have become meaningful.
#[derive(Debug)]
pub struct OpaqueUninit {
    bytes: Vec<u8>,
}

impl View for OpaqueUninit {
    type V = Seq<u8>;

    closed spec fn view(&self) -> Seq<u8> {
        self.bytes@
    }
}

impl OpaqueUninit {
    /// Fresh uninitialized memory of `size` bytes.  Nothing is promised
    /// of its contents.
    pub fn new(size: usize) -> (r: Self)
        ensures
            r@.len() == size,
    {
        let mut bytes: Vec<u8> = Vec::new();
        let mut i: usize = 0;
        while i < size
            invariant
                i <= size,
                bytes@.len() == i,
            decreases size - i,
        {
            bytes.push(0);
            i = i + 1;
        }
        OpaqueUninit { bytes }
    }

    /// Adopts caller-owned memory.
    pub fn from_bytes(bytes: Vec<u8>) -> (r: Self)
        ensures
            r@ == bytes@,
    {
        OpaqueUninit { bytes }
    }

    /// How many bytes the buffer has.
    pub fn len(&self) -> (r: usize)
        ensures
            r == self@.len(),
    {
        self.bytes.len()
    }

    /// Writes `src` at byte offset `offset`, leaving every other byte as
    /// it was.
    pub fn write_bytes(&mut self, offset: usize, src: &[u8])
        requires
            offset + src@.len() <= old(self)@.len(),
        ensures
            final(self)@ == spec_write(old(self)@, offset as int, src@),
    {
        let n = src.len();
        let total = self.bytes.len();
        let mut k: usize = 0;
        while k < n
            invariant
                k <= n,
                n == src@.len(),
                offset + n <= total,
                total == self@.len(),
                self@.len() == old(self)@.len(),
                forall|p: int|
                    0 <= p < self@.len() ==> self@[p] == (if offset <= p < offset + k {
                        src@[p - offset]
                    } else {
                        old(self)@[p]
                    }),
            decreases n - k,
        {
            self.bytes.set(offset + k, src[k]);
            k = k + 1;
        }
        proof {
            assert(final(self)@ =~= spec_write(old(self)@, offset as int, src@));
        }
    }

    /// Asserts that every byte is now meaningfully written, turning the
    /// buffer into a live value.
    pub fn assume_init(self) -> (r: OpaqueConst)
        ensures
            r@ == self@,
    {
        OpaqueConst::new(self.bytes)
    }
}

} // verus!
