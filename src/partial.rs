//! Directives and the decorators that follow them on every operation.
use vstd::prelude::*;
use vstd::std_specs::iter::IteratorSpec;
use crate::mock_duplex::MockDuplex;

verus! {

/// What one operation on a partial wrapper does.
#[derive(Debug, Copy, Clone, PartialEq, Eq, Structural)]
pub enum PartialOp {
    /// Perform the operation as the wrapped stream would.
    Unlimited,
    /// Perform the operation, but on at most this many bytes.
    Limited(usize),
    /// Do not perform the operation: report "not ready" and ask to be polled again.
    Pending,
}

/// What a byte operation (read or write) of a buffer does under a directive.
#[derive(Debug, Copy, Clone, PartialEq, Eq, Structural)]
pub enum Step {
    /// Hand the wrapped stream the first `n` bytes of the buffer.
    Window(usize),
    /// Leave the wrapped stream alone, wake the task and report "not ready".
    Reschedule,
}

/// What a flush or a close does under a directive.
#[derive(Debug, Copy, Clone, PartialEq, Eq, Structural)]
pub enum Gate {
    /// Hand the operation to the wrapped stream.
    Proceed,
    /// Leave the wrapped stream alone, wake the task and report "not ready".
    Reschedule,
}

/// The directive that the next operation consumes, if the sequence has one left.
pub open spec fn next_op(ops: Seq<PartialOp>) -> Option<PartialOp> {
    if ops.len() > 0 {
        Some(ops[0])
    } else {
        None
    }
}

/// The directives left after one operation: the first is gone, an empty sequence stays empty.
pub open spec fn after_op(ops: Seq<PartialOp>) -> Seq<PartialOp> {
    if ops.len() > 0 {
        ops.drop_first()
    } else {
        ops
    }
}

/// The step of a read or write of a buffer of `len` bytes under `op`
/// (`None`: the sequence is exhausted and the stream behaves natively).
pub open spec fn byte_step(op: Option<PartialOp>, len: usize) -> Step {
    match op {
        Some(PartialOp::Pending) => Step::Reschedule,
        Some(PartialOp::Limited(n)) => Step::Window(if n < len { n } else { len }),
        _ => Step::Window(len),
    }
}

/// The bytes of `data` that a write under `op` offers the wrapped writer:
/// the window that the step gives, or none when the write is rescheduled.
pub open spec fn offered(op: Option<PartialOp>, data: Seq<u8>) -> Seq<u8> {
    match byte_step(op, data.len() as usize) {
        Step::Window(w) => data.take(w as int),
        Step::Reschedule => Seq::empty(),
    }
}

/// The step of a flush or a close under `op`: only `Pending` holds it back.
pub open spec fn control_step(op: Option<PartialOp>) -> Gate {
    match op {
        Some(PartialOp::Pending) => Gate::Reschedule,
        _ => Gate::Proceed,
    }
}

/// The step that a read or write of `len` bytes takes under `op`.
pub fn step_for(op: Option<PartialOp>, len: usize) -> (s: Step)
    ensures
        s == byte_step(op, len),
{
    match op {
        Some(PartialOp::Pending) => Step::Reschedule,
        Some(PartialOp::Limited(n)) => Step::Window(if n < len { n } else { len }),
        _ => Step::Window(len),
    }
}

/// The step that a flush or a close takes under `op`.
pub fn gate_for(op: Option<PartialOp>) -> (g: Gate)
    ensures
        g == control_step(op),
{
    match op {
        Some(PartialOp::Pending) => Gate::Reschedule,
        _ => Gate::Proceed,
    }
}

/// Wraps a reader and modifies its read operations according to the given
/// iterator of `PartialOp`s: each read consumes exactly one of them.
#[derive(Debug)]
pub struct PartialRead<R, Ops> {
    reader: R,
    ops: Ops,
}

impl<R, Ops> PartialRead<R, Ops> {
    /// The wrapped reader.
    pub closed spec fn inner(&self) -> R {
        self.reader
    }

    /// The directive sequence, as far as it has been consumed.
    pub closed spec fn ops(&self) -> Ops {
        self.ops
    }

    /// Create a new `PartialRead`, wrapping the given `R` and modifying its io
    /// operations via the given `Ops`.
    pub fn new(reader: R, ops: Ops) -> (p: PartialRead<R, Ops>)
        ensures
            p.inner() == reader,
            p.ops() == ops,
    {
        PartialRead { reader, ops }
    }

    /// Gets a reference to the underlying `R`.
    pub fn get_ref(&self) -> (r: &R)
        ensures
            *r == self.inner(),
    {
        &self.reader
    }

    /// Gets a mutable reference to the underlying `R`.
    pub fn get_mut(&mut self) -> (r: &mut R)
        ensures
            *r == old(self).inner(),
            final(self).inner() == *final(r),
            final(self).ops() == old(self).ops(),
    {
        &mut self.reader
    }

    /// Consumes this `PartialRead`, returning the underlying reader.
    pub fn into_inner(self) -> (r: R)
        ensures
            r == self.inner(),
    {
        self.reader
    }
}

impl<R, Ops: Iterator<Item = PartialOp>> PartialRead<R, Ops> {
    /// Decides a read into a buffer of `len` bytes: consumes the next
    /// directive and says which window of the buffer the wrapped reader gets,
    /// or that the read must be rescheduled. The reader itself is untouched.
    pub fn next_read(&mut self, len: usize) -> (s: Step)
        ensures
            final(self).inner() == old(self).inner(),
            old(self).ops().obeys_prophetic_iter_laws() ==> {
                &&& final(self).ops().remaining() == after_op(old(self).ops().remaining())
                &&& s == byte_step(next_op(old(self).ops().remaining()), len)
            },
            s matches Step::Window(w) ==> w <= len,
    {
        let op = self.ops.next();
        step_for(op, len)
    }
}

impl<Ops: Iterator<Item = PartialOp>> PartialRead<MockDuplex, Ops> {
    /// A read into `buf` from a wrapped `MockDuplex`: `None` when the read is
    /// rescheduled, else the number of bytes read: as many as the queue holds,
    /// up to the window of the consumed directive.
    pub fn read(&mut self, buf: &mut [u8]) -> (r: Option<usize>)
        ensures
            r matches Some(n) ==> n <= old(buf)@.len(),
            old(self).ops().obeys_prophetic_iter_laws() ==> {
                let queue = old(self).inner().queued_reads();
                &&& final(self).ops().remaining() == after_op(old(self).ops().remaining())
                &&& final(self).inner().queued_writes() == old(self).inner().queued_writes()
                &&& match byte_step(next_op(old(self).ops().remaining()), old(buf)@.len() as usize) {
                    Step::Window(w) => {
                        let c = if w < queue.len() { w as int } else { queue.len() as int };
                        &&& r == Some(c as usize)
                        &&& final(buf)@ == queue.take(c) + old(buf)@.skip(c)
                        &&& final(self).inner().queued_reads() == queue.skip(c)
                    },
                    Step::Reschedule => {
                        &&& r is None
                        &&& final(buf)@ == old(buf)@
                        &&& final(self).inner() == old(self).inner()
                    },
                }
            },
    {
        match self.next_read(buf.len()) {
            Step::Reschedule => None,
            Step::Window(w) => {
                let (head, _rest) = buf.split_at_mut(w);
                let n = self.reader.read(head);
                Some(n)
            },
        }
    }
}

/// Wraps a writer and modifies its write, flush and close operations according
/// to the given iterator of `PartialOp`s: each of them consumes exactly one.
#[derive(Debug)]
pub struct PartialWrite<W, Ops> {
    writer: W,
    ops: Ops,
}

impl<W, Ops> PartialWrite<W, Ops> {
    /// The wrapped writer.
    pub closed spec fn inner(&self) -> W {
        self.writer
    }

    /// The directive sequence, as far as it has been consumed.
    pub closed spec fn ops(&self) -> Ops {
        self.ops
    }

    /// Create a new `PartialWrite`, wrapping the given `W` and modifying its io
    /// operations via the given `Ops`.
    pub fn new(writer: W, ops: Ops) -> (p: PartialWrite<W, Ops>)
        ensures
            p.inner() == writer,
            p.ops() == ops,
    {
        PartialWrite { writer, ops }
    }

    /// Gets a reference to the underlying `W`.
    pub fn get_ref(&self) -> (r: &W)
        ensures
            *r == self.inner(),
    {
        &self.writer
    }

    /// Gets a mutable reference to the underlying `W`.
    pub fn get_mut(&mut self) -> (r: &mut W)
        ensures
            *r == old(self).inner(),
            final(self).inner() == *final(r),
            final(self).ops() == old(self).ops(),
    {
        &mut self.writer
    }

    /// Consumes this `PartialWrite`, returning the underlying writer.
    pub fn into_inner(self) -> (r: W)
        ensures
            r == self.inner(),
    {
        self.writer
    }
}

impl<W, Ops: Iterator<Item = PartialOp>> PartialWrite<W, Ops> {
    /// Decides a write from a buffer of `len` bytes: consumes the next
    /// directive and says which window of the buffer the wrapped writer gets,
    /// or that the write must be rescheduled. The writer itself is untouched.
    pub fn next_write(&mut self, len: usize) -> (s: Step)
        ensures
            final(self).inner() == old(self).inner(),
            old(self).ops().obeys_prophetic_iter_laws() ==> {
                &&& final(self).ops().remaining() == after_op(old(self).ops().remaining())
                &&& s == byte_step(next_op(old(self).ops().remaining()), len)
            },
            s matches Step::Window(w) ==> w <= len,
    {
        let op = self.ops.next();
        step_for(op, len)
    }

    /// Decides a flush: consumes the next directive and says whether the
    /// flush goes to the wrapped writer or must be rescheduled.
    pub fn next_flush(&mut self) -> (g: Gate)
        ensures
            final(self).inner() == old(self).inner(),
            old(self).ops().obeys_prophetic_iter_laws() ==> {
                &&& final(self).ops().remaining() == after_op(old(self).ops().remaining())
                &&& g == control_step(next_op(old(self).ops().remaining()))
            },
    {
        let op = self.ops.next();
        gate_for(op)
    }

    /// Decides a close: consumes the next directive and says whether the
    /// close goes to the wrapped writer or must be rescheduled.
    pub fn next_close(&mut self) -> (g: Gate)
        ensures
            final(self).inner() == old(self).inner(),
            old(self).ops().obeys_prophetic_iter_laws() ==> {
                &&& final(self).ops().remaining() == after_op(old(self).ops().remaining())
                &&& g == control_step(next_op(old(self).ops().remaining()))
            },
    {
        let op = self.ops.next();
        gate_for(op)
    }
}

impl<Ops: Iterator<Item = PartialOp>> PartialWrite<MockDuplex, Ops> {
    /// A write of `buf` to a wrapped `MockDuplex`: `None` when the write is
    /// rescheduled, else the number of bytes that the mock took, which the
    /// window of the consumed directive bounds.
    pub fn write(&mut self, buf: &[u8]) -> (r: Option<usize>)
        ensures
            r matches Some(n) ==> n <= buf@.len(),
            old(self).ops().obeys_prophetic_iter_laws() ==> {
                let op = next_op(old(self).ops().remaining());
                &&& final(self).ops().remaining() == after_op(old(self).ops().remaining())
                &&& final(self).inner().queued_writes() == old(self).inner().queued_writes() + offered(op, buf@)
                &&& final(self).inner().queued_reads() == old(self).inner().queued_reads()
                &&& match byte_step(op, buf@.len() as usize) {
                    Step::Window(w) => r == Some(w),
                    Step::Reschedule => r is None,
                }
            },
    {
        match self.next_write(buf.len()) {
            Step::Reschedule => None,
            Step::Window(w) => {
                let (head, _rest) = buf.split_at(w);
                let n = self.writer.write(head);
                Some(n)
            },
        }
    }
}

/// Whether every directive of `ops` is `Unlimited` (an empty sequence included).
pub open spec fn all_unlimited(ops: Seq<PartialOp>) -> bool {
    forall|i: int| 0 <= i < ops.len() ==> #[trigger] ops[i] == PartialOp::Unlimited
}

/// The directives left after `k` operations, each consuming one.
pub open spec fn after_ops(ops: Seq<PartialOp>, k: nat) -> Seq<PartialOp>
    decreases k,
{
    if k == 0 {
        ops
    } else {
        after_op(after_ops(ops, (k - 1) as nat))
    }
}

/// Under directives that are all `Unlimited`, or none at all, every operation
/// goes to the wrapped stream unchanged: a read or a write gets the whole
/// buffer, a flush or a close proceeds, and the directives left are again all
/// `Unlimited`.
pub proof fn lemma_unlimited_is_transparent(ops: Seq<PartialOp>, len: usize, data: Seq<u8>)
    requires
        all_unlimited(ops),
        data.len() <= usize::MAX,
    ensures
        byte_step(next_op(ops), len) == Step::Window(len),
        control_step(next_op(ops)) == Gate::Proceed,
        offered(next_op(ops), data) == data,
        all_unlimited(after_op(ops)),
{
    if ops.len() > 0 {
        assert(ops[0] == PartialOp::Unlimited);
        assert forall|i: int| 0 <= i < after_op(ops).len() implies #[trigger] after_op(ops)[i]
            == PartialOp::Unlimited by {
            assert(after_op(ops)[i] == ops[i + 1]);
        }
    }
    assert(data.take(data.len() as int) == data);
}

/// Under `Limited(n)`, a read or a write of `len` bytes hands the wrapped
/// stream exactly the first `min(n, len)` bytes, which bounds what it reports.
pub proof fn lemma_limited_window(n: usize, len: usize, data: Seq<u8>)
    requires
        data.len() <= usize::MAX,
    ensures
        byte_step(Some(PartialOp::Limited(n)), len) == Step::Window(if n < len { n } else { len }),
        offered(Some(PartialOp::Limited(n)), data) == data.take(if n < data.len() { n as int } else { data.len() as int }),
        control_step(Some(PartialOp::Limited(n))) == Gate::Proceed,
{
}

/// Under `Pending`, no operation reaches the wrapped stream: each is
/// rescheduled, with no byte offered and no count reported.
pub proof fn lemma_pending_reschedules(len: usize, data: Seq<u8>)
    requires
        data.len() <= usize::MAX,
    ensures
        byte_step(Some(PartialOp::Pending), len) == Step::Reschedule,
        control_step(Some(PartialOp::Pending)) == Gate::Reschedule,
        offered(Some(PartialOp::Pending), data) == Seq::<u8>::empty(),
{
}

/// After `k` operations exactly `k` directives are consumed, as long as there
/// are; once the sequence is exhausted it stays so, and operations are no
/// longer restricted.
pub proof fn lemma_one_directive_per_operation(ops: Seq<PartialOp>, k: nat, len: usize)
    ensures
        after_ops(ops, k) == ops.skip(if k < ops.len() { k as int } else { ops.len() as int }),
        k >= ops.len() ==> next_op(after_ops(ops, k)) is None,
        k >= ops.len() ==> byte_step(next_op(after_ops(ops, k)), len) == Step::Window(len),
        k >= ops.len() ==> control_step(next_op(after_ops(ops, k))) == Gate::Proceed,
    decreases k,
{
    if k == 0 {
        assert(ops.skip(0) == ops);
    } else {
        lemma_one_directive_per_operation(ops, (k - 1) as nat, len);
        let prev = after_ops(ops, (k - 1) as nat);
        if k - 1 < ops.len() {
            assert(prev.drop_first() == ops.skip(k as int));
        }
    }
}

/// The bytes that writes of `chunks`, in order, offer the wrapped writer
/// under the directives `ops`, each write consuming one.
pub open spec fn offered_all(ops: Seq<PartialOp>, chunks: Seq<Seq<u8>>) -> Seq<u8>
    decreases chunks.len(),
{
    if chunks.len() == 0 {
        Seq::empty()
    } else {
        offered(next_op(ops), chunks[0]) + offered_all(after_op(ops), chunks.drop_first())
    }
}

/// The bytes that reads into buffers of `lens` bytes, in order, take from a
/// `MockDuplex` whose read queue holds `queue`, under the directives `ops`,
/// each read consuming one: as much of the queue as each window holds.
pub open spec fn taken_all(ops: Seq<PartialOp>, queue: Seq<u8>, lens: Seq<usize>) -> Seq<u8>
    decreases lens.len(),
{
    if lens.len() == 0 {
        Seq::empty()
    } else {
        match byte_step(next_op(ops), lens[0]) {
            Step::Window(w) => {
                let c = if w < queue.len() { w as int } else { queue.len() as int };
                queue.take(c) + taken_all(after_op(ops), queue.skip(c), lens.drop_first())
            },
            Step::Reschedule => taken_all(after_op(ops), queue, lens.drop_first()),
        }
    }
}

/// The sum of the buffer lengths in `lens`.
pub open spec fn total_len(lens: Seq<usize>) -> int
    decreases lens.len(),
{
    if lens.len() == 0 {
        0
    } else {
        lens[0] + total_len(lens.drop_first())
    }
}

/// A sum of buffer lengths is never negative.
proof fn lemma_total_len_nonnegative(lens: Seq<usize>)
    ensures
        total_len(lens) >= 0,
    decreases lens.len(),
{
    if lens.len() > 0 {
        lemma_total_len_nonnegative(lens.drop_first());
    }
}

/// Under `Unlimited` directives, writes offer every byte of every chunk, in order.
pub proof fn lemma_unlimited_writes_offer_everything(ops: Seq<PartialOp>, chunks: Seq<Seq<u8>>)
    requires
        all_unlimited(ops),
        forall|i: int| 0 <= i < chunks.len() ==> #[trigger] chunks[i].len() <= usize::MAX,
    ensures
        offered_all(ops, chunks) == chunks.flatten(),
    decreases chunks.len(),
{
    if chunks.len() > 0 {
        lemma_unlimited_is_transparent(ops, 0, chunks[0]);
        assert forall|i: int| 0 <= i < chunks.drop_first().len() implies
            #[trigger] chunks.drop_first()[i].len() <= usize::MAX by {
            assert(chunks.drop_first()[i] == chunks[i + 1]);
        }
        lemma_unlimited_writes_offer_everything(after_op(ops), chunks.drop_first());
    }
}

/// Under `Unlimited` directives, reads take the queue from the front, in
/// order, as many bytes as the buffers hold in all (or all of it).
pub proof fn lemma_unlimited_reads_take_prefix(ops: Seq<PartialOp>, queue: Seq<u8>, lens: Seq<usize>)
    requires
        all_unlimited(ops),
    ensures
        taken_all(ops, queue, lens) == queue.take(
            if total_len(lens) < queue.len() { total_len(lens) } else { queue.len() as int },
        ),
    decreases lens.len(),
{
    if lens.len() == 0 {
        assert(queue.take(0) =~= Seq::<u8>::empty());
    } else {
        lemma_unlimited_is_transparent(ops, lens[0], Seq::empty());
        let c = if lens[0] < queue.len() { lens[0] as int } else { queue.len() as int };
        let rest = queue.skip(c);
        lemma_total_len_nonnegative(lens.drop_first());
        lemma_unlimited_reads_take_prefix(after_op(ops), rest, lens.drop_first());
        let m = if total_len(lens.drop_first()) < rest.len() {
            total_len(lens.drop_first())
        } else {
            rest.len() as int
        };
        assert(rest.len() == queue.len() - c);
        assert(0 <= m <= rest.len());
        assert forall|i: int| 0 <= i < c + m implies #[trigger] (queue.take(c) + rest.take(m))[i]
            == queue.take(c + m)[i] by {
            if i >= c {
                assert(rest[i - c] == queue[i]);
            }
        }
        assert(queue.take(c) + rest.take(m) =~= queue.take(c + m));
    }
}

/// With only `Unlimited` directives on both sides of a loop-back queue, the
/// bytes that any number of writes hand the queue come back out, in order,
/// from reads whose buffers hold at least as many bytes in all; and a read
/// that gets no byte comes only once all of them are back.
pub proof fn lemma_round_trip(
    chunks: Seq<Seq<u8>>,
    write_ops: Seq<PartialOp>,
    read_ops: Seq<PartialOp>,
    lens: Seq<usize>,
)
    requires
        all_unlimited(write_ops),
        all_unlimited(read_ops),
        forall|i: int| 0 <= i < chunks.len() ==> #[trigger] chunks[i].len() <= usize::MAX,
    ensures
        offered_all(write_ops, chunks) == chunks.flatten(),
        total_len(lens) >= chunks.flatten().len() ==>
            taken_all(read_ops, offered_all(write_ops, chunks), lens) == chunks.flatten(),
        total_len(lens) < chunks.flatten().len() ==>
            taken_all(read_ops, offered_all(write_ops, chunks), lens) == chunks.flatten().take(total_len(lens)),
{
    lemma_unlimited_writes_offer_everything(write_ops, chunks);
    lemma_unlimited_reads_take_prefix(read_ops, chunks.flatten(), lens);
    assert(chunks.flatten().take(chunks.flatten().len() as int) =~= chunks.flatten());
}

} // verus!
