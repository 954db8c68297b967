//! A wrapper around a reader that limits how many bytes can be read from it.
use vstd::prelude::*;

verus! {

/// Wraps a reader and limits the number of bytes that can be read from it.
/// Once the limit has been reached, further reads get an empty window and so
/// report 0 bytes.
pub struct LimitedReader<R> {
    inner: R,
    remaining: usize,
}

impl<R> LimitedReader<R> {
    /// The wrapped reader.
    pub closed spec fn inner(&self) -> R {
        self.inner
    }

    /// How many bytes may still be read.
    pub closed spec fn remaining(&self) -> usize {
        self.remaining
    }

    /// Create a new `LimitedReader`, wrapping the given reader; at most
    /// `limit` bytes can be read through it in all.
    pub fn new(inner: R, limit: usize) -> (l: LimitedReader<R>)
        ensures
            l.inner() == inner,
            l.remaining() == limit,
    {
        LimitedReader { inner: inner, remaining: limit }
    }

    /// How many bytes at the front of a buffer of `len` bytes the next read
    /// hands to the wrapped reader: the smaller of `len` and what is left of
    /// the limit (0 once the limit is used up).
    pub fn read_window(&self, len: usize) -> (w: usize)
        ensures
            w == if self.remaining() < len { self.remaining() } else { len },
    {
        if self.remaining < len {
            self.remaining
        } else {
            len
        }
    }

    /// Records that the wrapped reader reported `n` bytes read, which uses up
    /// `n` bytes of the limit.
    pub fn record_read(&mut self, n: usize)
        requires
            n <= old(self).remaining(),
        ensures
            final(self).remaining() == old(self).remaining() - n,
            final(self).inner() == old(self).inner(),
    {
        self.remaining = self.remaining - n;
    }

    /// Gets a mutable reference to the wrapped reader.
    pub fn get_mut(&mut self) -> (r: &mut R)
        ensures
            *r == old(self).inner(),
            final(self).inner() == *final(r),
            final(self).remaining() == old(self).remaining(),
    {
        &mut self.inner
    }
}

/// The sum of the byte counts in `counts`.
pub open spec fn sum_of(counts: Seq<usize>) -> int
    decreases counts.len(),
{
    if counts.len() == 0 {
        0
    } else {
        sum_of(counts.drop_last()) + counts.last()
    }
}

/// The window that `read_window` gives a buffer of `len` bytes on a
/// `LimitedReader` made with `limit`, after reads that recorded `counts`.
pub open spec fn window_after(limit: usize, counts: Seq<usize>, len: usize) -> int {
    let left = limit - sum_of(counts);
    if left < len { left } else { len as int }
}

/// The limit is a budget for all reads together: when each read reports at
/// most the window it was given, the bytes read add up to at most the limit,
/// and once they reach it every later read gets a window of 0.
pub proof fn lemma_limit_is_a_total_budget(limit: usize, counts: Seq<usize>, lens: Seq<usize>)
    requires
        counts.len() == lens.len(),
        forall|i: int| 0 <= i < counts.len() ==>
            #[trigger] counts[i] <= window_after(limit, counts.take(i), lens[i]),
    ensures
        sum_of(counts) <= limit,
        forall|len: usize| sum_of(counts) == limit ==> #[trigger] window_after(limit, counts, len) == 0,
    decreases counts.len(),
{
    if counts.len() > 0 {
        let k = counts.len() - 1;
        let init = counts.drop_last();
        assert(counts.take(k as int) =~= init);
        assert forall|i: int| 0 <= i < init.len() implies
            #[trigger] init[i] <= window_after(limit, init.take(i), lens.drop_last()[i]) by {
            assert(init.take(i) =~= counts.take(i));
            assert(counts[i] <= window_after(limit, counts.take(i), lens[i]));
        }
        lemma_limit_is_a_total_budget(limit, init, lens.drop_last());
        assert(counts[k] <= window_after(limit, counts.take(k as int), lens[k]));
    }
}

} // verus!
