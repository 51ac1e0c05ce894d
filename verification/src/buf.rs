use vstd::prelude::*;

use crate::error::ErrorKind;
use crate::handler::Reset;

verus! {

/// Relies on core's `<[T]>::copy_from_slice`: copies the whole source
/// slice into a destination slice of equal length.
pub assume_specification<El>[ <[El]>::copy_from_slice ](dst: &mut [El], src: &[El])
    where
        El: Copy,
    requires
        old(dst)@.len() == src@.len(),
    ensures
        final(dst)@ == src@,
;

/// A contiguous single-producer/single-consumer byte arena.
///
/// Two cursors delimit the readable region `[next_read, next_write)`;
/// the writable region is `[next_write, capacity)`.  The capacity may be
/// grown at run time with `reserve` and shrinks back to the initial
/// capacity when the buffer drains completely.
#[derive(Debug, Clone)]
pub struct ByteBuffer {
    pub init_capacity: usize,
    pub next_write: usize,
    pub next_read: usize,
    pub capacity: usize,
    pub buf: Vec<u8>,
}

/// A snapshot of the two cursors, taken with [`ByteBuffer::mark`] and
/// restored with [`ByteBuffer::reset_from`].
pub struct Mark {
    pub next_write: usize,
    pub next_read: usize,
}

impl ByteBuffer {
    /// The structural invariant: cursors are ordered and in bounds, the
    /// backing storage matches the capacity, and the capacity never falls
    /// below the initial capacity.
    pub open spec fn wf(self) -> bool {
        &&& self.next_read <= self.next_write
        &&& self.next_write <= self.capacity
        &&& self.buf@.len() == self.capacity
        &&& self.init_capacity <= self.capacity
    }

    /// The bytes written but not yet consumed, in writing order.
    pub open spec fn readable_seq(self) -> Seq<u8> {
        self.buf@.subrange(self.next_read as int, self.next_write as int)
    }

    /// How many bytes are readable.
    pub open spec fn spec_readable(self) -> int {
        self.next_write - self.next_read
    }

    /// How many bytes fit without moving or growing anything.
    pub open spec fn spec_writable(self) -> int {
        self.capacity - self.next_write
    }

    /// `write(b)` succeeds exactly when `b` fits after compaction.
    pub open spec fn write_fits(self, len: int) -> bool {
        len + self.spec_readable() <= self.capacity
    }

    pub fn with_capacity(capacity: usize) -> (r: ByteBuffer)
        ensures
            r.wf(),
            r.capacity == capacity,
            r.init_capacity == capacity,
            r.next_read == 0,
            r.next_write == 0,
            r.readable_seq() == Seq::<u8>::empty(),
    {
        let mut buf: Vec<u8> = Vec::new();
        while buf.len() < capacity
            invariant
                buf@.len() <= capacity,
            decreases capacity - buf@.len(),
        {
            buf.push(0u8);
        }
        let r = ByteBuffer { init_capacity: capacity, next_read: 0, next_write: 0, capacity, buf };
        assert(r.readable_seq() =~= Seq::<u8>::empty());
        r
    }

    pub fn mark(&self) -> (m: Mark)
        ensures
            m.next_write == self.next_write,
            m.next_read == self.next_read,
    {
        Mark { next_write: self.next_write, next_read: self.next_read }
    }

    pub fn reset_from(&mut self, mark: Mark)
        requires
            old(self).wf(),
            mark.next_read <= mark.next_write,
            mark.next_write <= old(self).capacity,
        ensures
            final(self).wf(),
            final(self).next_read == mark.next_read,
            final(self).next_write == mark.next_write,
            final(self).buf == old(self).buf,
            final(self).capacity == old(self).capacity,
            final(self).init_capacity == old(self).init_capacity,
    {
        self.next_write = mark.next_write;
        self.next_read = mark.next_read;
    }

    /// Appends `additional` zero bytes to the backing storage, raising the
    /// current capacity without touching the cursors.
    pub fn reserve(&mut self, additional: usize)
        requires
            old(self).wf(),
            old(self).capacity + additional <= usize::MAX,
        ensures
            final(self).wf(),
            final(self).capacity == old(self).capacity + additional,
            final(self).init_capacity == old(self).init_capacity,
            final(self).next_read == old(self).next_read,
            final(self).next_write == old(self).next_write,
            final(self).buf@ == old(self).buf@ + Seq::new(additional as nat, |i: int| 0u8),
            final(self).readable_seq() == old(self).readable_seq(),
    {
        let mut added: usize = 0;
        while added < additional
            invariant
                added <= additional,
                old(self).capacity + additional <= usize::MAX,
                self.buf@ == old(self).buf@ + Seq::new(added as nat, |i: int| 0u8),
                self.next_read == old(self).next_read,
                self.next_write == old(self).next_write,
                self.capacity == old(self).capacity,
                self.init_capacity == old(self).init_capacity,
                old(self).wf(),
            decreases additional - added,
        {
            self.buf.push(0u8);
            added = added + 1;
            assert(self.buf@ =~= old(self).buf@ + Seq::new(added as nat, |i: int| 0u8));
        }
        self.capacity = self.capacity + additional;
        assert(final(self).readable_seq() =~= old(self).readable_seq());
    }

    pub fn is_readable(&self) -> (r: bool)
        requires
            self.wf(),
        ensures
            r == (self.spec_readable() > 0),
    {
        self.readable() > 0
    }

    pub fn is_writable(&self) -> (r: bool)
        requires
            self.wf(),
        ensures
            r == (self.spec_writable() > 0),
    {
        self.writable() > 0
    }

    pub fn writable(&self) -> (r: usize)
        requires
            self.wf(),
        ensures
            r == self.spec_writable(),
    {
        self.capacity - self.next_write
    }

    pub fn readable(&self) -> (r: usize)
        requires
            self.wf(),
        ensures
            r == self.spec_readable(),
    {
        self.next_write - self.next_read
    }

    pub fn capacity(&self) -> (r: usize)
        ensures
            r == self.capacity,
    {
        self.capacity
    }

    /// Advances the write cursor over bytes that a caller has already
    /// placed in the writable region.
    pub fn extend(&mut self, cnt: usize)
        requires
            old(self).wf(),
            old(self).next_write + cnt <= old(self).capacity,
        ensures
            final(self).wf(),
            final(self).next_write == old(self).next_write + cnt,
            final(self).next_read == old(self).next_read,
            final(self).capacity == old(self).capacity,
            final(self).init_capacity == old(self).init_capacity,
            final(self).buf == old(self).buf,
            final(self).readable_seq() == old(self).readable_seq() + old(self).buf@.subrange(
                old(self).next_write as int,
                old(self).next_write + cnt,
            ),
    {
        self.next_write = self.next_write + cnt;
        assert(final(self).readable_seq() =~= old(self).readable_seq() + old(self).buf@.subrange(
            old(self).next_write as int,
            old(self).next_write + cnt,
        ));
    }

    /// Resets both cursors to zero without releasing grown capacity.
    pub fn clear(&mut self)
        requires
            old(self).wf(),
        ensures
            final(self).wf(),
            final(self).next_read == 0,
            final(self).next_write == 0,
            final(self).capacity == old(self).capacity,
            final(self).init_capacity == old(self).init_capacity,
            final(self).buf == old(self).buf,
    {
        self.next_read = 0;
        self.next_write = 0;
    }

    /// Resets both cursors to zero and releases any capacity gained with
    /// `reserve`, truncating the storage back to the initial capacity.
    pub fn reset(&mut self)
        requires
            old(self).wf(),
        ensures
            final(self).wf(),
            final(self).next_read == 0,
            final(self).next_write == 0,
            final(self).capacity == old(self).init_capacity,
            final(self).init_capacity == old(self).init_capacity,
            final(self).buf@ == old(self).buf@.subrange(0, old(self).init_capacity as int),
    {
        self.buf.truncate(self.init_capacity);
        self.capacity = self.init_capacity;
        self.next_read = 0;
        self.next_write = 0;
    }

    /// Copies `b` into the writable region and advances the write cursor.
    fn push_bytes(&mut self, b: &[u8])
        requires
            old(self).wf(),
            old(self).next_write + b@.len() <= old(self).capacity,
        ensures
            final(self).wf(),
            final(self).next_read == old(self).next_read,
            final(self).next_write == old(self).next_write + b@.len(),
            final(self).capacity == old(self).capacity,
            final(self).init_capacity == old(self).init_capacity,
            final(self).buf@ == old(self).buf@.subrange(0, old(self).next_write as int) + b@
                + old(self).buf@.subrange(
                old(self).next_write + b@.len(),
                old(self).capacity as int,
            ),
            final(self).readable_seq() == old(self).readable_seq() + b@,
    {
        let len = b.len();
        let mut i: usize = 0;
        while i < len
            invariant
                i <= len,
                len == b@.len(),
                old(self).wf(),
                old(self).next_write + len <= old(self).capacity,
                self.next_read == old(self).next_read,
                self.next_write == old(self).next_write,
                self.capacity == old(self).capacity,
                self.init_capacity == old(self).init_capacity,
                self.buf@.len() == old(self).buf@.len(),
                forall|u: int|
                    0 <= u < self.buf@.len() && !(old(self).next_write <= u < old(self).next_write
                        + i) ==> #[trigger] self.buf@[u] == old(self).buf@[u],
                forall|u: int|
                    old(self).next_write <= u < old(self).next_write + i ==> #[trigger] self.buf@[u]
                        == b@[u - old(self).next_write],
            decreases len - i,
        {
            let idx = self.next_write + i;
            self.buf[idx] = b[i];
            i = i + 1;
        }
        self.next_write = self.next_write + len;
        assert(final(self).buf@ =~= old(self).buf@.subrange(0, old(self).next_write as int) + b@
            + old(self).buf@.subrange(old(self).next_write + b@.len(), old(self).capacity as int));
        assert(final(self).readable_seq() =~= old(self).readable_seq() + b@);
    }

    /// Moves the readable region to the start of the storage, so that the
    /// whole remaining capacity becomes writable.  Returns whether any
    /// move happened, that is, whether the read cursor was past zero.
    pub fn compact(&mut self) -> (r: bool)
        requires
            old(self).wf(),
        ensures
            final(self).wf(),
            r == (old(self).next_read > 0),
            final(self).readable_seq() == old(self).readable_seq(),
            final(self).capacity == old(self).capacity,
            final(self).init_capacity == old(self).init_capacity,
            r ==> final(self).next_read == 0 && final(self).next_write == old(
                self,
            ).spec_readable(),
            !r ==> *final(self) == *old(self),
    {
        if self.next_read > 0 {
            let len = self.next_write - self.next_read;
            let mut i: usize = 0;
            while i < len
                invariant
                    i <= len,
                    len == old(self).next_write - old(self).next_read,
                    old(self).next_read > 0,
                    old(self).wf(),
                    self.next_read == old(self).next_read,
                    self.next_write == old(self).next_write,
                    self.capacity == old(self).capacity,
                    self.init_capacity == old(self).init_capacity,
                    self.buf@.len() == old(self).buf@.len(),
                    forall|j: int| 0 <= j < i ==> self.buf@[j] == old(self).buf@[old(self).next_read + j],
                    forall|j: int| i <= j < self.buf@.len() ==> self.buf@[j] == old(self).buf@[j],
                decreases len - i,
            {
                let src = self.buf[self.next_read + i];
                self.buf[i] = src;
                i = i + 1;
            }
            self.next_write = len;
            self.next_read = 0;
            assert(final(self).readable_seq() =~= old(self).readable_seq());
            true
        } else {
            false
        }
    }

    /// Appends the whole of `b` to the readable region, compacting first
    /// when the tail alone is too short.  Fails without changing anything
    /// when `b` does not fit even after compaction.
    pub fn write(&mut self, b: &[u8]) -> (r: Result<usize, ErrorKind>)
        requires
            old(self).wf(),
        ensures
            final(self).wf(),
            final(self).capacity == old(self).capacity,
            final(self).init_capacity == old(self).init_capacity,
            r is Ok <==> old(self).write_fits(b@.len() as int),
            r matches Ok(n) ==> n == b@.len() && final(self).readable_seq() == old(
                self,
            ).readable_seq() + b@,
            old(self).next_write + b@.len() <= old(self).capacity ==> {
                &&& final(self).next_read == old(self).next_read
                &&& final(self).next_write == old(self).next_write + b@.len()
                &&& final(self).buf@ == old(self).buf@.subrange(0, old(self).next_write as int)
                    + b@ + old(self).buf@.subrange(
                    old(self).next_write + b@.len(),
                    old(self).capacity as int,
                )
            },
            (r is Ok && old(self).next_write + b@.len() > old(self).capacity) ==> {
                &&& final(self).next_read == 0
                &&& final(self).next_write == old(self).spec_readable() + b@.len()
            },
            r is Err ==> *final(self) == *old(self) && r == Err::<usize, ErrorKind>(
                ErrorKind::OutOfCapacity(old(self).capacity),
            ),
    {
        let len = b.len();
        if len <= self.capacity - self.next_write {
            self.push_bytes(b);
            Ok(len)
        } else if len <= self.capacity - (self.next_write - self.next_read) {
            self.compact();
            self.push_bytes(b);
            Ok(len)
        } else {
            Err(ErrorKind::OutOfCapacity(self.capacity))
        }
    }

    /// Copies as much of the readable region as fits into `dst`, without
    /// consuming anything.  Returns how many bytes were copied; never
    /// fails.
    pub fn read(&mut self, dst: &mut [u8]) -> (r: Result<usize, ErrorKind>)
        requires
            old(self).wf(),
        ensures
            *final(self) == *old(self),
            r is Ok,
            r matches Ok(amt) ==> {
                &&& amt == if old(self).spec_readable() <= old(dst)@.len() {
                    old(self).spec_readable()
                } else {
                    old(dst)@.len() as int
                }
                &&& final(dst)@ == old(self).readable_seq().take(amt as int) + old(dst)@.skip(
                    amt as int,
                )
            },
    {
        let readable = self.next_write - self.next_read;
        let amt = if readable <= dst.len() {
            readable
        } else {
            dst.len()
        };
        let (head, _) = dst.split_at_mut(amt);
        let s = self.buf.as_slice();
        let src = &s[self.next_read..self.next_read + amt];
        head.copy_from_slice(src);
        assert(final(dst)@ =~= old(self).readable_seq().take(amt as int) + old(dst)@.skip(
            amt as int,
        ));
        Ok(amt)
    }

    /// Borrows the readable region from `offset` bytes past the read
    /// cursor to the write cursor.
    pub fn slice(&self, offset: usize) -> (r: &[u8])
        requires
            self.wf(),
            self.next_read + offset <= self.next_write,
        ensures
            r@ == self.readable_seq().skip(offset as int),
    {
        let s = self.buf.as_slice();
        let r = &s[self.next_read + offset..self.next_write];
        assert(r@ =~= self.readable_seq().skip(offset as int));
        r
    }

    /// Borrows the spare storage from `offset` bytes past the write
    /// cursor, for callers that fill the buffer directly and then account
    /// for the new bytes with [`ByteBuffer::extend`].
    pub fn mut_slice(&mut self, offset: usize) -> (r: &mut [u8])
        requires
            old(self).wf(),
            old(self).next_write + offset <= old(self).capacity,
        ensures
            r@ == old(self).buf@.skip(old(self).next_write + offset),
            final(self).buf@ == old(self).buf@.take(old(self).next_write + offset) + final(r)@,
            final(self).next_read == old(self).next_read,
            final(self).next_write == old(self).next_write,
            final(self).capacity == old(self).capacity,
            final(self).init_capacity == old(self).init_capacity,
    {
        let at = self.next_write + offset;
        let s = self.buf.as_mut_slice();
        let (_, tail) = s.split_at_mut(at);
        assert(tail@ =~= old(self).buf@.skip(old(self).next_write + offset));
        tail
    }

    /// Inserts `b` inside the readable region at absolute cursor position
    /// `index`, shifting the bytes from `index` on to the right.  Follows
    /// the same compact-then-fail rule as [`ByteBuffer::write`].
    pub fn write_at(&mut self, index: usize, b: &[u8]) -> (r: Result<usize, ErrorKind>)
        requires
            old(self).wf(),
            old(self).next_read <= index < old(self).next_write,
        ensures
            final(self).wf(),
            final(self).capacity == old(self).capacity,
            final(self).init_capacity == old(self).init_capacity,
            r is Ok <==> old(self).write_fits(b@.len() as int),
            r matches Ok(n) ==> n == b@.len() && final(self).readable_seq() == old(
                self,
            ).readable_seq().take(index - old(self).next_read) + b@ + old(
                self,
            ).readable_seq().skip(index - old(self).next_read),
            (r is Ok && old(self).next_write + b@.len() <= old(self).capacity) ==> {
                &&& final(self).next_read == old(self).next_read
                &&& final(self).next_write == old(self).next_write + b@.len()
            },
            (r is Ok && old(self).next_write + b@.len() > old(self).capacity) ==> {
                &&& final(self).next_read == 0
                &&& final(self).next_write == old(self).spec_readable() + b@.len()
            },
            r is Err ==> *final(self) == *old(self) && r == Err::<usize, ErrorKind>(
                ErrorKind::OutOfCapacity(old(self).capacity),
            ),
    {
        let len = b.len();
        if len == 0 {
            assert(final(self).readable_seq() =~= old(self).readable_seq().take(
                index - old(self).next_read,
            ) + b@ + old(self).readable_seq().skip(index - old(self).next_read));
            return Ok(0);
        }
        if len <= self.capacity - self.next_write {
            self.insert_bytes(index, b);
            assert(final(self).readable_seq() =~= old(self).readable_seq().take(
                index - old(self).next_read,
            ) + b@ + old(self).readable_seq().skip(index - old(self).next_read));
            Ok(len)
        } else if len <= self.capacity - (self.next_write - self.next_read) {
            let shift = self.next_read;
            self.compact();
            self.insert_bytes(index - shift, b);
            assert(final(self).readable_seq() =~= old(self).readable_seq().take(
                index - old(self).next_read,
            ) + b@ + old(self).readable_seq().skip(index - old(self).next_read));
            Ok(len)
        } else {
            Err(ErrorKind::OutOfCapacity(self.capacity))
        }
    }

    /// Shifts `[index, next_write)` right by the length of `b` and writes
    /// `b` into the gap.
    fn insert_bytes(&mut self, index: usize, b: &[u8])
        requires
            old(self).wf(),
            old(self).next_read <= index < old(self).next_write,
            b@.len() > 0,
            old(self).next_write + b@.len() <= old(self).capacity,
        ensures
            final(self).wf(),
            final(self).next_read == old(self).next_read,
            final(self).next_write == old(self).next_write + b@.len(),
            final(self).capacity == old(self).capacity,
            final(self).init_capacity == old(self).init_capacity,
            final(self).readable_seq() == old(self).readable_seq().take(
                index - old(self).next_read,
            ) + b@ + old(self).readable_seq().skip(index - old(self).next_read),
    {
        let len = b.len();
        let count = self.next_write - index;
        let mut j: usize = count;
        while j > 0
            invariant
                j <= count,
                count == old(self).next_write - index,
                len == b@.len(),
                len > 0,
                old(self).wf(),
                old(self).next_read <= index < old(self).next_write,
                old(self).next_write + len <= old(self).capacity,
                self.next_read == old(self).next_read,
                self.next_write == old(self).next_write,
                self.capacity == old(self).capacity,
                self.init_capacity == old(self).init_capacity,
                self.buf@.len() == old(self).buf@.len(),
                forall|u: int|
                    index + len + j <= u < index + len + count ==> #[trigger] self.buf@[u] == old(
                        self,
                    ).buf@[u - len],
                forall|u: int|
                    0 <= u < self.buf@.len() && !(index + len + j <= u < index + len + count)
                        ==> #[trigger] self.buf@[u] == old(self).buf@[u],
            decreases j,
        {
            j = j - 1;
            let src = self.buf[index + j];
            let at = index + len + j;
            self.buf[at] = src;
        }
        let mut i: usize = 0;
        while i < len
            invariant
                i <= len,
                count == old(self).next_write - index,
                len == b@.len(),
                old(self).wf(),
                old(self).next_read <= index < old(self).next_write,
                old(self).next_write + len <= old(self).capacity,
                self.next_read == old(self).next_read,
                self.next_write == old(self).next_write,
                self.capacity == old(self).capacity,
                self.init_capacity == old(self).init_capacity,
                self.buf@.len() == old(self).buf@.len(),
                forall|u: int|
                    index + len <= u < index + len + count ==> #[trigger] self.buf@[u] == old(
                        self,
                    ).buf@[u - len],
                forall|u: int|
                    index <= u < index + i ==> #[trigger] self.buf@[u] == b@[u - index],
                forall|u: int|
                    0 <= u < self.buf@.len() && !(index <= u < index + len + count)
                        ==> #[trigger] self.buf@[u] == old(self).buf@[u],
            decreases len - i,
        {
            let at = index + i;
            self.buf[at] = b[i];
            i = i + 1;
        }
        self.next_write = self.next_write + len;
        assert(final(self).readable_seq() =~= old(self).readable_seq().take(
            index - old(self).next_read,
        ) + b@ + old(self).readable_seq().skip(index - old(self).next_read));
    }

    /// Advances the read cursor; a drained buffer snaps back to its
    /// initial state, releasing any grown capacity.
    pub fn consume(&mut self, cnt: usize)
        requires
            old(self).wf(),
            cnt <= old(self).spec_readable(),
        ensures
            final(self).wf(),
            final(self).init_capacity == old(self).init_capacity,
            final(self).readable_seq() == old(self).readable_seq().skip(cnt as int),
            old(self).next_read + cnt < old(self).next_write ==> {
                &&& final(self).next_read == old(self).next_read + cnt
                &&& final(self).next_write == old(self).next_write
                &&& final(self).capacity == old(self).capacity
                &&& final(self).buf == old(self).buf
            },
            old(self).next_read + cnt == old(self).next_write ==> {
                &&& final(self).next_read == 0
                &&& final(self).next_write == 0
                &&& final(self).capacity == old(self).init_capacity
            },
    {
        self.next_read = self.next_read + cnt;
        if self.next_read == self.next_write {
            self.reset();
            assert(final(self).readable_seq() =~= old(self).readable_seq().skip(cnt as int));
        } else {
            assert(final(self).readable_seq() =~= old(self).readable_seq().skip(cnt as int));
        }
    }
}

/// Reclaiming a slot returns its buffer to the fresh state, as
/// [`ByteBuffer::reset`] does.
impl Reset for ByteBuffer {
    fn reset(&mut self) {
        self.buf.truncate(self.init_capacity);
        self.capacity = self.init_capacity;
        self.next_read = 0;
        self.next_write = 0;
    }
}

/// One buffer operation, seen on the readable content alone: a write
/// appends its bytes, as [`ByteBuffer::write`] ensures, and a consume
/// drops a prefix, as [`ByteBuffer::consume`] ensures.
pub enum BufOp {
    Write(Seq<u8>),
    Consume(int),
}

/// Whether one operation stays within a buffer of capacity `cap`: a
/// write fits after compaction, a consume takes no more than is
/// readable.
pub open spec fn buf_op_ok(s: Seq<u8>, op: BufOp, cap: int) -> bool {
    match op {
        BufOp::Write(b) => b.len() + s.len() <= cap,
        BufOp::Consume(n) => 0 <= n <= s.len(),
    }
}

pub open spec fn buf_op_apply(s: Seq<u8>, op: BufOp) -> Seq<u8> {
    match op {
        BufOp::Write(b) => s + b,
        BufOp::Consume(n) => s.skip(n),
    }
}

pub open spec fn buf_ops_ok(s: Seq<u8>, ops: Seq<BufOp>, cap: int) -> bool
    decreases ops.len(),
{
    ops.len() == 0 || (buf_op_ok(s, ops[0], cap) && buf_ops_ok(
        buf_op_apply(s, ops[0]),
        ops.skip(1),
        cap,
    ))
}

pub open spec fn buf_ops_apply(s: Seq<u8>, ops: Seq<BufOp>) -> Seq<u8>
    decreases ops.len(),
{
    if ops.len() == 0 {
        s
    } else {
        buf_ops_apply(buf_op_apply(s, ops[0]), ops.skip(1))
    }
}

/// All bytes written over a run of operations, concatenated in order.
pub open spec fn bytes_written(ops: Seq<BufOp>) -> Seq<u8>
    decreases ops.len(),
{
    if ops.len() == 0 {
        Seq::empty()
    } else {
        (match ops[0] {
            BufOp::Write(b) => b,
            BufOp::Consume(_) => Seq::empty(),
        }) + bytes_written(ops.skip(1))
    }
}

/// All bytes consumed over a run of operations starting from readable
/// content `s`, concatenated in order.
pub open spec fn bytes_consumed(s: Seq<u8>, ops: Seq<BufOp>) -> Seq<u8>
    decreases ops.len(),
{
    if ops.len() == 0 {
        Seq::empty()
    } else {
        (match ops[0] {
            BufOp::Write(_) => Seq::empty(),
            BufOp::Consume(n) => s.take(n),
        }) + bytes_consumed(buf_op_apply(s, ops[0]), ops.skip(1))
    }
}

/// Law (first in, first out): over any run of writes and consumes that
/// stays within capacity, what went in comes out unchanged and in
/// order — the initial content followed by all bytes written equals all
/// bytes consumed followed by what is still readable.  Starting from an
/// empty buffer, the concatenation of bytes written equals the
/// concatenation of bytes consumed followed by the remaining readable
/// region.
pub proof fn lemma_write_consume_fifo(s0: Seq<u8>, ops: Seq<BufOp>, cap: int)
    requires
        buf_ops_ok(s0, ops, cap),
    ensures
        s0 + bytes_written(ops) == bytes_consumed(s0, ops) + buf_ops_apply(s0, ops),
    decreases ops.len(),
{
    if ops.len() == 0 {
        assert(s0 + bytes_written(ops) =~= s0);
        assert(bytes_consumed(s0, ops) + buf_ops_apply(s0, ops) =~= s0);
    } else {
        let s1 = buf_op_apply(s0, ops[0]);
        lemma_write_consume_fifo(s1, ops.skip(1), cap);
        match ops[0] {
            BufOp::Write(b) => {
                assert(s0 + bytes_written(ops) =~= (s0 + b) + bytes_written(ops.skip(1)));
                assert(bytes_consumed(s0, ops) =~= bytes_consumed(s1, ops.skip(1)));
            },
            BufOp::Consume(n) => {
                assert(s0 =~= s0.take(n) + s0.skip(n));
                assert(s0 + bytes_written(ops) =~= s0.take(n) + (s1 + bytes_written(ops.skip(1))));
                assert(bytes_consumed(s0, ops) + buf_ops_apply(s0, ops) =~= s0.take(n) + (
                bytes_consumed(s1, ops.skip(1)) + buf_ops_apply(s1, ops.skip(1))));
            },
        }
    }
}

/// The cursor-level view of a buffer: its backing bytes and the two
/// cursors, as in [`ByteBuffer::wf`].
pub struct BufView {
    pub bytes: Seq<u8>,
    pub r: int,
    pub w: int,
}

/// One operation between a mark and its rewind, on the cursor-level
/// view: a write that fits in the tail without compaction, a consume
/// that leaves the buffer non-empty, or an extend over bytes already in
/// place.  A write that compacts would move the marked region, and a
/// consume that drains the buffer would snap the cursors back; after
/// either, rewinding to a mark no longer finds the marked bytes.
pub enum CursorOp {
    Write(Seq<u8>),
    Consume(int),
    Extend(int),
}

pub open spec fn cursor_op_ok(v: BufView, op: CursorOp) -> bool {
    match op {
        CursorOp::Write(b) => v.w + b.len() <= v.bytes.len(),
        CursorOp::Consume(n) => 0 <= n && v.r + n < v.w,
        CursorOp::Extend(n) => 0 <= n && v.w + n <= v.bytes.len(),
    }
}

pub open spec fn cursor_op_apply(v: BufView, op: CursorOp) -> BufView {
    match op {
        CursorOp::Write(b) => BufView {
            bytes: v.bytes.take(v.w) + b + v.bytes.skip(v.w + b.len()),
            r: v.r,
            w: v.w + b.len(),
        },
        CursorOp::Consume(n) => BufView { bytes: v.bytes, r: v.r + n, w: v.w },
        CursorOp::Extend(n) => BufView { bytes: v.bytes, r: v.r, w: v.w + n },
    }
}

pub open spec fn cursor_ops_ok(v: BufView, ops: Seq<CursorOp>) -> bool
    decreases ops.len(),
{
    ops.len() == 0 || (cursor_op_ok(v, ops[0]) && cursor_ops_ok(
        cursor_op_apply(v, ops[0]),
        ops.skip(1),
    ))
}

pub open spec fn cursor_ops_apply(v: BufView, ops: Seq<CursorOp>) -> BufView
    decreases ops.len(),
{
    if ops.len() == 0 {
        v
    } else {
        cursor_ops_apply(cursor_op_apply(v, ops[0]), ops.skip(1))
    }
}

/// Law (mark and rewind): over any run of writes, consumes and extends
/// in which no write overflows the tail and no consume drains the
/// buffer, every byte below the marked write cursor keeps its value,
/// the write cursor never moves back below the mark, and the storage
/// keeps its size.  Restoring the marked cursors with
/// [`ByteBuffer::reset_from`] therefore finds the marked readable
/// region `[r, w)` byte for byte as it was.
pub proof fn lemma_rewind_restores_readable(v0: BufView, ops: Seq<CursorOp>)
    requires
        0 <= v0.r <= v0.w <= v0.bytes.len(),
        cursor_ops_ok(v0, ops),
    ensures
        ({
            let vf = cursor_ops_apply(v0, ops);
            &&& vf.bytes.len() == v0.bytes.len()
            &&& vf.w >= v0.w
            &&& 0 <= vf.r <= vf.w <= vf.bytes.len()
            &&& forall|i: int| 0 <= i < v0.w ==> vf.bytes[i] == v0.bytes[i]
            &&& vf.bytes.subrange(v0.r, v0.w) == v0.bytes.subrange(v0.r, v0.w)
        }),
    decreases ops.len(),
{
    let vf = cursor_ops_apply(v0, ops);
    if ops.len() == 0 {
    } else {
        let v1 = cursor_op_apply(v0, ops[0]);
        match ops[0] {
            CursorOp::Write(b) => {
                assert(v1.bytes.len() == v0.bytes.len());
            },
            CursorOp::Consume(_) => {},
            CursorOp::Extend(_) => {},
        }
        lemma_rewind_restores_readable(v1, ops.skip(1));
    }
    assert(vf.bytes.subrange(v0.r, v0.w) =~= v0.bytes.subrange(v0.r, v0.w));
}

/// The content model's view of a buffer is its readable region; the
/// cursor model's view is the backing bytes with the two cursors.
pub open spec fn cursor_view(b: ByteBuffer) -> BufView {
    BufView { bytes: b.buf@, r: b.next_read as int, w: b.next_write as int }
}

/// One successful `write` is one `Write` step of the content model:
/// the success case of [`ByteBuffer::write`]'s contract — it fits after
/// compaction and appends its bytes — is exactly `buf_op_ok` and
/// `buf_op_apply` of `BufOp::Write` on the readable view.
pub proof fn lemma_write_is_fifo_step(pre: ByteBuffer, post: ByteBuffer, b: Seq<u8>)
    requires
        pre.wf(),
        pre.write_fits(b.len() as int),
        post.readable_seq() == pre.readable_seq() + b,
    ensures
        buf_op_ok(pre.readable_seq(), BufOp::Write(b), pre.capacity as int),
        post.readable_seq() == buf_op_apply(pre.readable_seq(), BufOp::Write(b)),
{
}

/// One `consume` is one `Consume` step of the content model: what
/// [`ByteBuffer::consume`]'s contract ensures — a prefix of the
/// readable region is dropped — is exactly `buf_op_ok` and
/// `buf_op_apply` of `BufOp::Consume`.
pub proof fn lemma_consume_is_fifo_step(pre: ByteBuffer, post: ByteBuffer, n: int)
    requires
        pre.wf(),
        0 <= n <= pre.spec_readable(),
        post.readable_seq() == pre.readable_seq().skip(n),
    ensures
        buf_op_ok(pre.readable_seq(), BufOp::Consume(n), pre.capacity as int),
        post.readable_seq() == buf_op_apply(pre.readable_seq(), BufOp::Consume(n)),
{
}

/// One tail-fitting `write` is one `Write` step of the cursor model:
/// what [`ByteBuffer::write`]'s contract ensures when no compaction is
/// needed is exactly `cursor_op_ok` and `cursor_op_apply` of
/// `CursorOp::Write`.
pub proof fn lemma_write_is_cursor_step(pre: ByteBuffer, post: ByteBuffer, b: Seq<u8>)
    requires
        pre.wf(),
        pre.next_write + b.len() <= pre.capacity,
        post.next_read == pre.next_read,
        post.next_write == pre.next_write + b.len(),
        post.buf@ == pre.buf@.subrange(0, pre.next_write as int) + b + pre.buf@.subrange(
            pre.next_write + b.len(),
            pre.capacity as int,
        ),
    ensures
        cursor_op_ok(cursor_view(pre), CursorOp::Write(b)),
        cursor_view(post) == cursor_op_apply(cursor_view(pre), CursorOp::Write(b)),
{
    let v = cursor_view(pre);
    assert(post.buf@ =~= v.bytes.take(v.w) + b + v.bytes.skip(v.w + b.len()));
}

/// One non-draining `consume` is one `Consume` step of the cursor
/// model.
pub proof fn lemma_consume_is_cursor_step(pre: ByteBuffer, post: ByteBuffer, n: int)
    requires
        pre.wf(),
        0 <= n,
        pre.next_read + n < pre.next_write,
        post.next_read == pre.next_read + n,
        post.next_write == pre.next_write,
        post.buf == pre.buf,
    ensures
        cursor_op_ok(cursor_view(pre), CursorOp::Consume(n)),
        cursor_view(post) == cursor_op_apply(cursor_view(pre), CursorOp::Consume(n)),
{
}

/// One `extend` is one `Extend` step of the cursor model.
pub proof fn lemma_extend_is_cursor_step(pre: ByteBuffer, post: ByteBuffer, n: int)
    requires
        pre.wf(),
        0 <= n,
        pre.next_write + n <= pre.capacity,
        post.next_read == pre.next_read,
        post.next_write == pre.next_write + n,
        post.buf == pre.buf,
    ensures
        cursor_op_ok(cursor_view(pre), CursorOp::Extend(n)),
        cursor_view(post) == cursor_op_apply(cursor_view(pre), CursorOp::Extend(n)),
{
}

/// Law (mark and rewind, at the buffer): a buffer reached from `pre` by
/// any chain of cursor-model steps still holds `pre`'s readable region
/// `[next_read, next_write)` byte for byte, so restoring `pre`'s
/// cursors — [`ByteBuffer::reset_from`] of [`ByteBuffer::mark`] — finds
/// it unchanged.
pub proof fn lemma_rewind_restores_buffer(pre: ByteBuffer, post: ByteBuffer, ops: Seq<CursorOp>)
    requires
        pre.wf(),
        cursor_ops_ok(cursor_view(pre), ops),
        cursor_view(post) == cursor_ops_apply(cursor_view(pre), ops),
    ensures
        post.buf@.subrange(pre.next_read as int, pre.next_write as int) == pre.readable_seq(),
{
    lemma_rewind_restores_readable(cursor_view(pre), ops);
}

} // verus!
