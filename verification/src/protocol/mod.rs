//! Protocol versions known to the packet abstraction.

use vstd::prelude::*;

mod version_support;

verus! {

/// The 1.12 protocol family.
pub struct Mc1_12;

/// A protocol version, by family.
pub enum ProtocolVersion {
    Mc1_12(Mc1_12),
}

impl Mc1_12 {
    /// Id that this version gives to every packet.
    pub open spec fn packet_id(&self) -> i32 {
        0
    }
}

impl ProtocolVersion {
    /// Id that this version gives to every packet.
    pub open spec fn packet_id(&self) -> i32 {
        match self {
            ProtocolVersion::Mc1_12(mc) => mc.packet_id(),
        }
    }
}

} // verus!
