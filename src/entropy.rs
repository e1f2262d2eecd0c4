//! Entropy errors and the bounded byte cache that buffers collected entropy.
use std::collections::VecDeque;
use vstd::prelude::*;

verus! {

/// Why an entropy request could not be served.
#[derive(Debug, Clone, PartialEq, Eq)]
pub enum EntropyError {
    ConnectionError(String),
    ProcessingError(String),
    CacheError(String),
    NoSourceAvailable,
    InsufficientEntropy,
}

pub type EntropyResult<T> = Result<T, EntropyError>;

/// A first-in first-out byte buffer that never holds more than `capacity` bytes.
///
/// When new bytes do not fit, the oldest bytes are dropped to make room.
#[derive(Debug)]
pub struct EntropyCache {
    buffer: VecDeque<u8>,
    capacity: usize,
}

impl EntropyCache {
    /// The bytes held, oldest first.
    pub closed spec fn contents(&self) -> Seq<u8> {
        self.buffer@
    }

    pub closed spec fn cap(&self) -> nat {
        self.capacity as nat
    }

    pub closed spec fn wf(&self) -> bool {
        self.buffer@.len() <= self.capacity
    }

    /// The bytes kept after appending `bytes` to `held` within `capacity`: the
    /// oldest ones are dropped first.
    pub open spec fn appended(held: Seq<u8>, bytes: Seq<u8>, capacity: nat) -> Seq<u8> {
        let all = held + bytes;
        if all.len() <= capacity {
            all
        } else {
            all.subrange(all.len() - capacity, all.len() as int)
        }
    }

    pub fn new(capacity: usize) -> (r: Self)
        ensures
            r.wf(),
            r.contents() == Seq::<u8>::empty(),
            r.cap() == capacity,
    {
        EntropyCache { buffer: VecDeque::new(), capacity }
    }

    pub fn capacity(&self) -> (r: usize)
        ensures
            r == self.cap(),
    {
        self.capacity
    }

    pub fn available_bytes(&self) -> (r: usize)
        ensures
            r == self.contents().len(),
    {
        self.buffer.len()
    }

    /// Appends `bytes`, dropping the oldest bytes held where they do not fit.
    /// Fails, leaving the cache unchanged, when `bytes` alone exceed the capacity.
    pub fn add_bytes(&mut self, bytes: &[u8]) -> (r: EntropyResult<()>)
        requires
            old(self).wf(),
        ensures
            final(self).wf(),
            final(self).cap() == old(self).cap(),
            bytes@.len() > old(self).cap() <==> r is Err,
            r is Err ==> r->Err_0 is CacheError && final(self).contents() == old(self).contents(),
            r is Ok ==> final(self).contents() == Self::appended(
                old(self).contents(),
                bytes@,
                old(self).cap(),
            ),
    {
        if bytes.len() == 0 {
            proof {
                assert(self.buffer@ + bytes@ =~= self.buffer@);
            }
            return Ok(());
        }
        let required_space = bytes.len();
        let available_space = self.capacity - self.buffer.len();
        if required_space > self.capacity {
            return Err(EntropyError::CacheError("data exceeds the cache capacity".to_owned()));
        }
        let ghost held = self.buffer@;
        if required_space > available_space {
            let to_remove = required_space - available_space;
            let mut k: usize = 0;
            while k < to_remove
                invariant
                    k <= to_remove,
                    to_remove <= held.len(),
                    self.buffer@ == held.subrange(k as int, held.len() as int),
                    self.capacity == old(self).capacity,
                decreases to_remove - k,
            {
                self.buffer.pop_front();
                k += 1;
            }
        }
        let ghost kept = self.buffer@;
        let mut i: usize = 0;
        while i < bytes.len()
            invariant
                i <= bytes@.len(),
                self.buffer@ == kept + bytes@.subrange(0, i as int),
                self.capacity == old(self).capacity,
            decreases bytes@.len() - i,
        {
            self.buffer.push_back(bytes[i]);
            i += 1;
            proof {
                assert(bytes@.subrange(0, i as int) =~= bytes@.subrange(0, i - 1).push(bytes@[i - 1]));
            }
        }
        proof {
            assert(bytes@.subrange(0, bytes@.len() as int) =~= bytes@);
            let all = held + bytes@;
            if all.len() > self.capacity {
                assert(self.buffer@ =~= all.subrange(all.len() - self.capacity, all.len() as int));
            } else {
                assert(kept =~= held);
            }
        }
        Ok(())
    }

    /// Takes the `count` oldest bytes out of the cache, or fails, leaving it
    /// unchanged, when fewer are held.
    pub fn get_bytes(&mut self, count: usize) -> (r: EntropyResult<Vec<u8>>)
        requires
            old(self).wf(),
        ensures
            final(self).wf(),
            final(self).cap() == old(self).cap(),
            count > old(self).contents().len() <==> r is Err,
            r is Err ==> r == Err::<Vec<u8>, _>(EntropyError::InsufficientEntropy)
                && final(self).contents() == old(self).contents(),
            r is Ok ==> r->Ok_0@ == old(self).contents().subrange(0, count as int)
                && final(self).contents() == old(self).contents().subrange(
                count as int,
                old(self).contents().len() as int,
            ),
    {
        if count > self.buffer.len() {
            return Err(EntropyError::InsufficientEntropy);
        }
        let ghost held = self.buffer@;
        let mut result: Vec<u8> = Vec::new();
        let mut k: usize = 0;
        while k < count
            invariant
                k <= count,
                count <= held.len(),
                self.buffer@ == held.subrange(k as int, held.len() as int),
                result@ == held.subrange(0, k as int),
                self.capacity == old(self).capacity,
            decreases count - k,
        {
            match self.buffer.pop_front() {
                Some(byte) => result.push(byte),
                None => {},
            }
            k += 1;
            proof {
                assert(result@ =~= held.subrange(0, k as int));
                assert(self.buffer@ =~= held.subrange(k as int, held.len() as int));
            }
        }
        Ok(result)
    }

    pub fn clear(&mut self)
        requires
            old(self).wf(),
        ensures
            final(self).wf(),
            final(self).cap() == old(self).cap(),
            final(self).contents() == Seq::<u8>::empty(),
    {
        self.buffer.clear();
    }

    pub fn is_empty(&self) -> (r: bool)
        ensures
            r == (self.contents().len() == 0),
    {
        self.buffer.len() == 0
    }

    /// How many bytes a refill should ask for: none while at least half the
    /// capacity is held, else what fills the cache up.
    pub fn refill_need(&self) -> (r: Option<usize>)
        requires
            self.wf(),
        ensures
            self.contents().len() >= self.cap() / 2 <==> r is None,
            r is Some ==> r == Some((self.cap() - self.contents().len()) as usize),
    {
        let available = self.buffer.len();
        if available >= self.capacity / 2 {
            None
        } else {
            Some(self.capacity - available)
        }
    }

    pub fn is_full(&self) -> (r: bool)
        ensures
            r == (self.contents().len() >= self.cap()),
    {
        self.buffer.len() >= self.capacity
    }
}

} // verus!
