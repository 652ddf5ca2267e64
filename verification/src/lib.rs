pub mod aggregate;
pub mod bytes;
pub mod collection;
pub mod error;
pub mod query;
pub mod session;

use vstd::prelude::*;

verus! {

/// Longest accepted byte length of a user or tty name on the wire.
pub const MAX_USER_TTY_LENGTH: usize = 32;

/// Longest accepted byte length of a remote origin host on the wire.
pub const MAX_REMOTE_LENGTH: usize = 64;

/// Ceiling on the encoded size of a single session record.
pub const MAX_ENTRY_LENGTH: usize = MAX_REMOTE_LENGTH + MAX_USER_TTY_LENGTH * 2 + 25;

/// Ceiling on the encoded size of one whole response payload, chosen to
/// fit one UDP datagram with margin for its headers.
pub const MAX_PAYLOAD_LENGTH: usize = 65501;

/// Hard ceiling on the number of records one payload can carry.
pub const MAX_PAYLOAD_ENTRIES: usize = MAX_PAYLOAD_LENGTH / MAX_ENTRY_LENGTH;

/// The four magic bytes that open every request and response datagram.
pub open spec fn spec_magic() -> Seq<u8> {
    seq![87u8, 72u8, 82u8, 68u8]
}

/// The magic token as a concrete buffer, for sending and comparing.
pub fn whered_magic() -> (r: Vec<u8>)
    ensures
        r@ == spec_magic(),
{
    let mut r: Vec<u8> = Vec::new();
    r.push(87u8);
    r.push(72u8);
    r.push(82u8);
    r.push(68u8);
    proof {
        assert(r@ =~= spec_magic());
    }
    r
}

} // verus!
