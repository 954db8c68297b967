//! An in-memory stand-in for a duplex stream, backed by two byte queues.
use std::collections::VecDeque;
use vstd::prelude::*;

verus! {

/// A duplex which pulls all read data from a queue and puts all written data
/// into a queue.
#[derive(Debug, Clone, PartialEq, Eq)]
pub struct MockDuplex {
    reads: VecDeque<u8>,
    writes: VecDeque<u8>,
}

impl MockDuplex {
    /// The bytes that `read` hands out next, in order.
    pub closed spec fn queued_reads(&self) -> Seq<u8> {
        self.reads@
    }

    /// The bytes that `write` has taken and `drain_write_data` not yet handed out, in order.
    pub closed spec fn queued_writes(&self) -> Seq<u8> {
        self.writes@
    }

    /// Create a new, empty `MockDuplex`.
    pub fn new() -> (m: MockDuplex)
        ensures
            m.queued_reads() == Seq::<u8>::empty(),
            m.queued_writes() == Seq::<u8>::empty(),
    {
        MockDuplex { reads: VecDeque::new(), writes: VecDeque::new() }
    }

    /// Add data to the fifo queue from which `read` takes data.
    pub fn add_read_data(&mut self, bytes: &[u8])
        ensures
            final(self).queued_reads() == old(self).queued_reads() + bytes@,
            final(self).queued_writes() == old(self).queued_writes(),
    {
        let mut i: usize = 0;
        while i < bytes.len()
            invariant
                i <= bytes@.len(),
                self.reads@ == old(self).reads@ + bytes@.subrange(0, i as int),
                self.writes@ == old(self).writes@,
            decreases bytes@.len() - i,
        {
            self.reads.push_back(bytes[i]);
            i += 1;
            proof {
                assert(bytes@.subrange(0, i as int) == bytes@.subrange(0, i - 1).push(bytes@[i - 1]));
            }
        }
        proof {
            assert(bytes@.subrange(0, bytes@.len() as int) == bytes@);
        }
    }

    /// Pulls as many bytes as possible from the fifo queue into which `write`
    /// places data, and puts them into the front of `buf`: the smaller of
    /// `buf.len()` and the queue's length. Returns how many bytes were drained.
    pub fn drain_write_data(&mut self, buf: &mut [u8]) -> (n: usize)
        ensures
            n == if old(buf)@.len() < old(self).queued_writes().len() {
                old(buf)@.len()
            } else {
                old(self).queued_writes().len()
            },
            final(buf)@ == old(self).queued_writes().take(n as int) + old(buf)@.skip(n as int),
            final(self).queued_writes() == old(self).queued_writes().skip(n as int),
            final(self).queued_reads() == old(self).queued_reads(),
    {
        let n = if buf.len() < self.writes.len() { buf.len() } else { self.writes.len() };
        let mut i: usize = 0;
        while i < n
            invariant
                buf@.len() == old(buf)@.len(),
                n <= old(self).writes@.len(),
                n <= buf@.len(),
                i <= n,
                self.writes@ == old(self).writes@.skip(i as int),
                buf@ == old(self).writes@.take(i as int) + old(buf)@.skip(i as int),
                self.reads@ == old(self).reads@,
            decreases n - i,
        {
            let byte = self.writes.pop_front().unwrap();
            buf[i] = byte;
            i += 1;
            proof {
                assert(buf@ =~= old(self).writes@.take(i as int) + old(buf)@.skip(i as int));
                assert(self.writes@ =~= old(self).writes@.skip(i as int));
            }
        }
        n
    }

    /// Consumes this `MockDuplex`, returning the remaining read data and write
    /// data.
    pub fn into_inner(self) -> (r: (VecDeque<u8>, VecDeque<u8>))
        ensures
            r.0@ == self.queued_reads(),
            r.1@ == self.queued_writes(),
    {
        (self.reads, self.writes)
    }

    /// Takes data which was previously added via `add_read_data` and fills
    /// the front of `buf` with as much of it as fits; returns how many bytes
    /// were read (0 once the queue is empty).
    pub fn read(&mut self, buf: &mut [u8]) -> (n: usize)
        ensures
            n == if old(buf)@.len() < old(self).queued_reads().len() {
                old(buf)@.len()
            } else {
                old(self).queued_reads().len()
            },
            final(buf)@ == old(self).queued_reads().take(n as int) + old(buf)@.skip(n as int),
            final(self).queued_reads() == old(self).queued_reads().skip(n as int),
            final(self).queued_writes() == old(self).queued_writes(),
    {
        let n = if buf.len() < self.reads.len() { buf.len() } else { self.reads.len() };
        let mut i: usize = 0;
        while i < n
            invariant
                buf@.len() == old(buf)@.len(),
                n <= old(self).reads@.len(),
                n <= buf@.len(),
                i <= n,
                self.reads@ == old(self).reads@.skip(i as int),
                buf@ == old(self).reads@.take(i as int) + old(buf)@.skip(i as int),
                self.writes@ == old(self).writes@,
            decreases n - i,
        {
            let byte = self.reads.pop_front().unwrap();
            buf[i] = byte;
            i += 1;
            proof {
                assert(buf@ =~= old(self).reads@.take(i as int) + old(buf)@.skip(i as int));
                assert(self.reads@ =~= old(self).reads@.skip(i as int));
            }
        }
        n
    }

    /// Puts data into a fifo queue which can be consumed via
    /// `drain_write_data`; returns how many bytes were taken: all of them.
    pub fn write(&mut self, buf: &[u8]) -> (n: usize)
        ensures
            n == buf@.len(),
            final(self).queued_writes() == old(self).queued_writes() + buf@,
            final(self).queued_reads() == old(self).queued_reads(),
    {
        let mut i: usize = 0;
        while i < buf.len()
            invariant
                i <= buf@.len(),
                self.writes@ == old(self).writes@ + buf@.subrange(0, i as int),
                self.reads@ == old(self).reads@,
            decreases buf@.len() - i,
        {
            self.writes.push_back(buf[i]);
            i += 1;
            proof {
                assert(buf@.subrange(0, i as int) == buf@.subrange(0, i - 1).push(buf@[i - 1]));
            }
        }
        proof {
            assert(buf@.subrange(0, buf@.len() as int) == buf@);
        }
        buf.len()
    }
}

} // verus!
