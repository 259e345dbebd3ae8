//! The client of the demonstration: what it sends to the context manager.

use crate::object::{ObjectRef, ObjectRefRemote};
use crate::packet::{Packet, PacketBuilder, PacketView};
use crate::transaction::TransactionFlags;
use vstd::prelude::*;

verus! {

/// The code of the transaction that the client sends.
pub const CLIENT_REQUEST_CODE: u32 = 8086;

/// Prepares what the client shares with other processes before they part:
/// nothing.
pub fn init() {
}

/// The transaction that the client sends: the request code, no flags and
/// no payload, for the context manager.
pub fn request() -> (packet: Packet)
    ensures
        packet.wf(),
        packet@ == (PacketView {
            code: CLIENT_REQUEST_CODE,
            flags: TransactionFlags::spec_empty(),
            target: ObjectRef::Remote(ObjectRefRemote { data_handle: 0 }),
            data: Seq::empty(),
            offsets: Seq::empty(),
        }),
{
    let mut builder = PacketBuilder::new();
    builder.set_code(CLIENT_REQUEST_CODE).set_target(
        ObjectRef::Remote(ObjectRefRemote::context_manager()),
    );
    builder.build()
}

} // verus!
