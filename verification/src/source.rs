//! Byte sources: where a stream's bytes come from.

use vstd::prelude::*;
use vstd::slice::{slice_subrange, slice_to_vec};
use crate::error::unexpected_eof;

verus! {

/// A forward-only source of bytes with blocking reads.
///
/// The source is modelled by the bytes it has yet to deliver,
/// [`remaining`](ByteSource::remaining). A read that asks for more than
/// that fails, and a source that has failed once delivers nothing more.
pub trait ByteSource {
    /// The bytes that the source will still deliver, in order.
    spec fn remaining(&self) -> Seq<u8>;

    /// Delivers exactly the next `n` bytes, or fails when fewer than `n`
    /// are left.
    fn read_exact(&mut self, n: usize) -> (r: Result<Vec<u8>, std::io::Error>)
        ensures
            r is Ok <==> n <= old(self).remaining().len(),
            r matches Ok(bytes) ==> bytes@ == old(self).remaining().take(n as int)
                && final(self).remaining() == old(self).remaining().skip(n as int),
            r is Err ==> final(self).remaining().len() == 0,
    ;

    /// Discards the next `n` bytes. Running into the end of the source is
    /// not by itself a failure: the call may return `Ok` with nothing left.
    fn skip(&mut self, n: u64) -> (r: Result<(), std::io::Error>)
        ensures
            n <= old(self).remaining().len() ==> r is Ok
                && final(self).remaining() == old(self).remaining().skip(n as int),
            n > old(self).remaining().len() ==> final(self).remaining().len() == 0,
    ;
}

/// A byte source over a buffer held in memory.
pub struct MemorySource {
    data: Vec<u8>,
    position: usize,
}

impl MemorySource {
    #[verifier::type_invariant]
    spec fn well_formed(&self) -> bool {
        self.position <= self.data@.len()
    }

    /// A source that delivers `data` from its first byte on.
    pub fn new(data: Vec<u8>) -> (source: Self)
        ensures
            source.remaining() == data@,
    {
        let source = MemorySource { data, position: 0 };
        assert(source.data@.skip(0) =~= source.data@);
        source
    }
}

impl ByteSource for MemorySource {
    closed spec fn remaining(&self) -> Seq<u8> {
        self.data@.skip(self.position as int)
    }

    fn read_exact(&mut self, n: usize) -> (r: Result<Vec<u8>, std::io::Error>) {
        proof {
            use_type_invariant(&*self);
        }
        let left = self.data.len() - self.position;
        if n <= left {
            let end = self.position + n;
            let bytes = slice_to_vec(slice_subrange(self.data.as_slice(), self.position, end));
            proof {
                let all = self.data@;
                let from = self.position as int;
                assert(bytes@ =~= all.skip(from).take(n as int));
                assert(all.skip(end as int) =~= all.skip(from).skip(n as int));
            }
            self.position = end;
            Ok(bytes)
        } else {
            self.position = self.data.len();
            Err(unexpected_eof())
        }
    }

    fn skip(&mut self, n: u64) -> (r: Result<(), std::io::Error>) {
        proof {
            use_type_invariant(&*self);
        }
        let left = self.data.len() - self.position;
        if n <= left as u64 {
            let ghost from = self.position as int;
            self.position = self.position + n as usize;
            proof {
                let all = self.data@;
                assert(all.skip(from + n) =~= all.skip(from).skip(n as int));
            }
        } else {
            self.position = self.data.len();
        }
        Ok(())
    }
}

} // verus!
