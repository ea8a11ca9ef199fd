//! The packet abstraction that concrete packets implement.

use vstd::prelude::*;
use crate::protocol::ProtocolVersion;

verus! {

/// A packet of the protocol. Implementors say how a packet is read and
/// written; its id is looked up in the protocol version.
pub trait Packet {
    fn read() -> Self where Self: Sized;

    fn write(&self, buf: &mut [u8]) -> Option<usize>;

    fn get_id(pv: ProtocolVersion) -> (r: i32)
        default_ensures
            r == pv.packet_id(),
    {
        pv.get_id::<Self>()
    }
}

} // verus!
