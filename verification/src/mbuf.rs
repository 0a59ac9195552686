//! The engine's buffer chain, as the bytes it still holds.
use crate::error::OsError;
use vstd::prelude::*;

verus! {

/// A chain of engine buffers, seen as the bytes that have not been consumed.
pub struct OsMbuf {
    data: Vec<u8>,
}

/// `dst` with `src` laid over it from position `start` on.
pub open spec fn overlay(dst: Seq<u8>, start: int, src: Seq<u8>) -> Seq<u8>
    recommends
        0 <= start,
        start + src.len() <= dst.len(),
{
    Seq::new(
        dst.len(),
        |i: int|
            if start <= i < start + src.len() {
                src[i - start]
            } else {
                dst[i]
            },
    )
}

/// The first `len` bytes of `chain`, or all of it where it holds fewer.
pub open spec fn front(chain: Seq<u8>, len: int) -> Seq<u8> {
    if len <= chain.len() {
        chain.take(len)
    } else {
        chain
    }
}

impl View for OsMbuf {
    type V = Seq<u8>;

    closed spec fn view(&self) -> Seq<u8> {
        self.data@
    }
}

impl From<Vec<u8>> for OsMbuf {
    /// A chain that holds exactly `value`.
    fn from(value: Vec<u8>) -> (om: OsMbuf) {
        OsMbuf { data: value }
    }
}

impl vstd::std_specs::convert::FromSpecImpl<Vec<u8>> for OsMbuf {
    open spec fn obeys_from_spec() -> bool {
        true
    }

    closed spec fn from_spec(value: Vec<u8>) -> OsMbuf {
        OsMbuf { data: value }
    }
}

impl OsMbuf {
    /// The view of a chain made from `value` is the bytes of `value`.
    pub proof fn lemma_from_view(value: Vec<u8>)
        ensures
            <OsMbuf as vstd::std_specs::convert::FromSpec<Vec<u8>>>::from_spec(value)@ == value@,
    {
    }

    /// How many bytes the chain still holds.
    pub fn len(&self) -> (n: usize)
        ensures
            n == self@.len(),
    {
        self.data.len()
    }

    /// Records the engine's answer `ret` to appending `buf`: on zero the bytes
    /// are at the end of the chain and their count is returned, on any other
    /// code the chain is unchanged and the code comes back as an error.
    pub fn write(&mut self, buf: &[u8], ret: i32) -> (r: Result<usize, OsError>)
        ensures
            ret == 0 ==> r == Ok::<usize, OsError>(buf@.len() as usize) && final(self)@ == old(
                self,
            )@ + buf@,
            ret != 0 ==> r == Err::<usize, OsError>(OsError::spec_from(ret as u32)) && final(self)@
                == old(self)@,
    {
        if ret == 0 {
            let amt: usize = buf.len();
            let mut i: usize = 0;
            while i < amt
                invariant
                    i <= amt,
                    amt == buf@.len(),
                    self.data@ == old(self).data@ + buf@.subrange(0, i as int),
                decreases amt - i,
            {
                self.data.push(buf[i]);
                i = i + 1;
            }
            assert(buf@.subrange(0, amt as int) == buf@);
            Ok(amt)
        } else {
            Err(OsError::from(ret as u32))
        }
    }

    /// Nothing is buffered on this side, so there is nothing to flush.
    pub fn flush(&mut self) -> (r: Result<(), OsError>)
        ensures
            r.is_ok(),
            final(self)@ == old(self)@,
    {
        Ok(())
    }

    /// Copies the next `len` bytes of the chain to `buf[start..start + len]` and
    /// consumes them. Where the chain holds fewer, the bytes that it does hold
    /// are still copied, nothing is consumed, and the error is `NoMem`.
    pub fn read(&mut self, buf: &mut Vec<u8>, start: usize, len: usize) -> (r: Result<
        usize,
        OsError,
    >)
        requires
            start + len <= old(buf)@.len(),
        ensures
            final(buf)@ == overlay(old(buf)@, start as int, front(old(self)@, len as int)),
            old(self)@.len() >= len ==> r == Ok::<usize, OsError>(len) && final(self)@ == old(
                self,
            )@.skip(len as int),
            old(self)@.len() < len ==> r == Err::<usize, OsError>(OsError::NoMem) && final(self)@
                == old(self)@,
    {
        let avail: usize = self.data.len();
        let room: usize = buf.len();
        let count: usize = if avail < len {
            avail
        } else {
            len
        };
        let mut i: usize = 0;
        while i < count
            invariant
                i <= count,
                count <= len,
                count <= self.data@.len(),
                start + len <= buf@.len(),
                start + len <= room,
                buf@.len() == old(buf)@.len(),
                self.data@ == old(self).data@,
                buf@ == overlay(old(buf)@, start as int, self.data@.subrange(0, i as int)),
            decreases count - i,
        {
            buf.set(start + i, self.data[i]);
            i = i + 1;
        }
        assert(self.data@.subrange(0, count as int) == front(self.data@, len as int));
        if avail < len {
            Err(OsError::NoMem)
        } else {
            let rest: Vec<u8> = self.data.split_off(len);
            self.data = rest;
            Ok(len)
        }
    }

    /// Gives the whole chain back to the engine: no bytes are left.
    pub fn free_chain(&mut self)
        ensures
            final(self)@.len() == 0,
    {
        self.data.clear();
    }
}

} // verus!
