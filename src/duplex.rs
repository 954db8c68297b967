//! A pair of a reader and a writer that acts as one duplex stream.
use vstd::prelude::*;

verus! {

/// Owns a reader and a writer; reads go to the one, writes, flushes and closes
/// to the other.
#[derive(Debug, Copy, Clone, PartialEq, Eq)]
pub struct Duplex<R, W> {
    r: R,
    w: W,
}

impl<R, W> Duplex<R, W> {
    /// The owned reader.
    pub closed spec fn reader(&self) -> R {
        self.r
    }

    /// The owned writer.
    pub closed spec fn writer(&self) -> W {
        self.w
    }

    /// Takes ownership of a reader and a writer and creates a new `Duplex`.
    pub fn new(r: R, w: W) -> (d: Duplex<R, W>)
        ensures
            d.reader() == r,
            d.writer() == w,
    {
        Duplex { r, w }
    }

    /// Gets a reference to the underlying reader.
    pub fn get_reader_ref(&self) -> (r: &R)
        ensures
            *r == self.reader(),
    {
        &self.r
    }

    /// Gets a mutable reference to the underlying reader.
    pub fn get_reader_mut(&mut self) -> (r: &mut R)
        ensures
            *r == old(self).reader(),
            final(self).reader() == *final(r),
            final(self).writer() == old(self).writer(),
    {
        &mut self.r
    }

    /// Gets a reference to the underlying writer.
    pub fn get_writer_ref(&self) -> (w: &W)
        ensures
            *w == self.writer(),
    {
        &self.w
    }

    /// Gets a mutable reference to the underlying writer.
    pub fn get_writer_mut(&mut self) -> (w: &mut W)
        ensures
            *w == old(self).writer(),
            final(self).writer() == *final(w),
            final(self).reader() == old(self).reader(),
    {
        &mut self.w
    }

    /// Unwraps this `Duplex`, returning the underlying reader and writer.
    pub fn into_inner(self) -> (rw: (R, W))
        ensures
            rw == (self.reader(), self.writer()),
    {
        (self.r, self.w)
    }
}

} // verus!
