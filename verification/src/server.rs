//! The server of the demonstration: what it answers.

use crate::packet::{Packet, PacketView};
use vstd::prelude::*;

verus! {

/// The code of the reply that the server gives.
pub const SERVER_REPLY_CODE: u32 = 80386;

/// The reply to the transaction `packet`: the same packet with the reply
/// code.
pub fn respond(packet: &Packet) -> (reply: Packet)
    requires
        packet.wf(),
    ensures
        reply.wf(),
        reply@ == (PacketView { code: SERVER_REPLY_CODE, ..packet@ }),
{
    let mut reply = packet.clone();
    reply.set_code(SERVER_REPLY_CODE);
    reply
}

} // verus!
