use vstd::prelude::*;

verus! {

/// A routing token packed into the 64-bit user-data field of a readiness
/// event.
///
/// `Notify(slot, fd)` routes an event to the connection held at `slot`;
/// `New(data)` carries the raw user data of an event on the listening
/// socket.  The low fifteen bits of the packed word are the tag: all
/// zero for `Notify`, anything else for `New`.
pub enum Action {
    Notify(usize, i32),
    New(u64),
}

impl Action {
    /// A `Notify` token can only carry a slot of at most sixteen bits and
    /// a non-negative fd of at most thirty-one bits.
    pub open spec fn encodable(self) -> bool {
        match self {
            Action::Notify(i, fd) => i < 0x10000 && 0 <= fd < 0x8000_0000,
            Action::New(_) => true,
        }
    }

    pub open spec fn spec_encode(self) -> u64 {
        match self {
            Action::Notify(i, fd) => ((fd as u64) << 31) | ((i as u64) << 15),
            Action::New(data) => data,
        }
    }

    pub open spec fn spec_decode(data: u64) -> Action {
        if data & 0x7fff == 0 {
            Action::Notify(((data >> 15) & 0xffff) as usize, (data >> 31) as i32)
        } else {
            Action::New(data)
        }
    }

    pub fn encode(action: Action) -> (r: u64)
        requires
            action.encodable(),
        ensures
            r == action.spec_encode(),
    {
        match action {
            Action::Notify(data, fd) => ((fd as u64) << 31) | ((data as u64) << 15),
            Action::New(data) => data,
        }
    }

    pub fn decode(data: u64) -> (r: Action)
        ensures
            r == Action::spec_decode(data),
    {
        let arg1 = ((data >> 15) & 0xffff) as usize;
        let fd = (data >> 31) as i32;
        if data & 0x7fff == 0 {
            Action::Notify(arg1, fd)
        } else {
            Action::New(data)
        }
    }
}

/// Law: decoding an encoded `Notify` token recovers the same slot index
/// and fd, for every slot below two to the sixteenth and every fd in the
/// non-negative range of an `i32`.
pub proof fn lemma_decode_encode_notify(i: usize, fd: i32)
    requires
        i < 0x10000,
        0 <= fd < 0x8000_0000,
    ensures
        Action::spec_decode(Action::Notify(i, fd).spec_encode()) == Action::Notify(i, fd),
{
    let iu = i as u64;
    let fdu = fd as u64;
    let data = (fdu << 31) | (iu << 15);
    assert(data & 0x7fff == 0 && (data >> 15) & 0xffff == iu && data >> 31 == fdu)
        by (bit_vector)
        requires
            iu < 0x10000,
            fdu < 0x8000_0000,
            data == (fdu << 31) | (iu << 15),
    ;
    assert(((data >> 15) & 0xffff) as usize == i);
    assert((data >> 31) as i32 == fd);
}

/// Law: a raw token whose low fifteen bits are not all zero is carried
/// through encoding and decoding unchanged, as a `New` action.  A token
/// whose low fifteen bits are all zero would instead decode as `Notify`.
pub proof fn lemma_decode_encode_new(data: u64)
    requires
        data & 0x7fff != 0,
    ensures
        Action::spec_decode(Action::New(data).spec_encode()) == Action::New(data),
{
}

} // verus!
