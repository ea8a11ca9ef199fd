use vstd::prelude::*;
use super::{Mc1_12, ProtocolVersion};

verus! {

impl Mc1_12 {
    pub fn get_id<P: ?Sized>(&self) -> (r: i32)
        ensures
            r == self.packet_id(),
    {
        match self {
            _ => 0,
        }
    }
}

impl ProtocolVersion {
    pub fn get_id<P: ?Sized>(&self) -> (r: i32)
        ensures
            r == self.packet_id(),
    {
        match self {
            ProtocolVersion::Mc1_12(mc) => mc.get_id::<P>(),
        }
    }
}

} // verus!
