use vstd::prelude::*;

use crate::buf::ByteBuffer;
use crate::error::ErrorKind;

verus! {

/// A message that can be serialised into and parsed out of a
/// [`ByteBuffer`].
///
/// `to_buffer` either consumes the value, appending its serialised
/// bytes and returning `Ok(None)`, or hands the value back unchanged as
/// `Ok(Some(..))` — leaving the buffer as it was — when the writable
/// region is too small; [`buffer`] then grows the buffer and retries.
/// Implementations must not resize the buffer themselves.
pub trait Buffered where Self: Sized {
    /// The bytes this value serialises to.
    spec fn spec_repr(self) -> Seq<u8>;

    /// The hard cap up to which [`buffer`] may grow a buffer while
    /// writing a value of this type.
    spec fn spec_max_size() -> usize;

    fn max_size() -> (r: usize)
        ensures
            r == Self::spec_max_size(),
    ;

    fn from_buffer(buffer: &mut ByteBuffer) -> (r: Result<Option<Self>, ErrorKind>)
        requires
            old(buffer).wf(),
        ensures
            final(buffer).wf(),
            final(buffer).init_capacity == old(buffer).init_capacity,
    ;

    fn to_buffer(self, buffer: &mut ByteBuffer) -> (r: Result<Option<Self>, ErrorKind>)
        requires
            old(buffer).wf(),
        ensures
            final(buffer).wf(),
            final(buffer).capacity == old(buffer).capacity,
            final(buffer).init_capacity == old(buffer).init_capacity,
            r matches Ok(Some(m)) ==> m == self && *final(buffer) == *old(buffer),
            r matches Ok(None) ==> final(buffer).readable_seq() == old(buffer).readable_seq()
                + self.spec_repr(),
    ;
}

/// One growth step after a message did not fit: a buffer below `max`
/// doubles its capacity, capped at `max`, keeping its cursors and
/// readable bytes; a buffer at or past `max` is left untouched and the
/// step fails with `OutOfCapacity(max)`.
pub fn grow_step(buf: &mut ByteBuffer, max: usize) -> (r: Result<(), ErrorKind>)
    requires
        old(buf).wf(),
        1 <= old(buf).capacity,
    ensures
        final(buf).wf(),
        final(buf).init_capacity == old(buf).init_capacity,
        final(buf).next_read == old(buf).next_read,
        final(buf).next_write == old(buf).next_write,
        final(buf).readable_seq() == old(buf).readable_seq(),
        r is Ok <==> old(buf).capacity < max,
        r is Ok ==> final(buf).capacity == (if 2 * old(buf).capacity <= max {
            2 * old(buf).capacity
        } else {
            max as int
        }),
        r is Ok ==> old(buf).capacity < final(buf).capacity <= max,
        r is Err ==> *final(buf) == *old(buf) && r == Err::<(), ErrorKind>(
            ErrorKind::OutOfCapacity(max),
        ),
{
    let cap = buf.capacity();
    if cap >= max {
        return Err(ErrorKind::OutOfCapacity(max));
    }
    let target = if cap >= max - cap {
        max
    } else {
        cap + cap
    };
    buf.reserve(target - cap);
    Ok(())
}

/// Writes `msg` into `buf`, growing the buffer one [`grow_step`] at a
/// time — doubling, capped at `T::max_size()` — for as long as the
/// message does not fit.  On success the message's bytes have been
/// appended to the readable region.  Fails with the library's own
/// `OutOfCapacity(max_size)` exactly when the buffer has reached that
/// cap and the message still does not fit; any other failure comes from
/// `to_buffer` itself.
pub fn buffer<T: Buffered>(msg: T, buf: &mut ByteBuffer) -> (r: Result<(), ErrorKind>)
    requires
        old(buf).wf(),
        1 <= old(buf).capacity,
    ensures
        final(buf).wf(),
        final(buf).init_capacity == old(buf).init_capacity,
        final(buf).capacity >= old(buf).capacity,
        final(buf).capacity > old(buf).capacity ==> final(buf).capacity <= T::spec_max_size(),
        r is Ok ==> final(buf).readable_seq() == old(buf).readable_seq() + msg.spec_repr(),
{
    let max = T::max_size();
    let mut m = msg;
    loop
        invariant
            buf.wf(),
            1 <= buf.capacity,
            buf.init_capacity == old(buf).init_capacity,
            buf.capacity >= old(buf).capacity,
            buf.capacity > old(buf).capacity ==> buf.capacity <= T::spec_max_size(),
            buf.readable_seq() == old(buf).readable_seq(),
            max == T::spec_max_size(),
            m == msg,
        decreases (if buf.capacity < max {
            max - buf.capacity
        } else {
            0int
        }),
    {
        match m.to_buffer(buf) {
            Ok(None) => {
                return Ok(());
            },
            Err(e) => {
                return Err(e);
            },
            Ok(Some(m2)) => {
                match grow_step(buf, max) {
                    Ok(_) => {},
                    Err(e) => {
                        return Err(e);
                    },
                }
                m = m2;
            },
        }
    }
}

} // verus!
