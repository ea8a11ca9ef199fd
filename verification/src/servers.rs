//! The backends the proxy knows, by name.

use vstd::prelude::*;
use crate::names::{lobby, lobby_bytes, survival, survival_bytes};

verus! {

/// Address of the backend called `name`, if there is one.
pub open spec fn server_address_of(name: Seq<u8>) -> Option<&'static str> {
    if name == lobby() {
        Some("127.0.0.1:25565")
    } else if name == survival() {
        Some("127.0.0.1:25566")
    } else {
        None
    }
}

/// Name of the backend that new players are sent to.
pub open spec fn default_server_name() -> Seq<u8> {
    lobby()
}

/// Whether two byte strings are equal.
pub fn bytes_eq(a: &[u8], b: &[u8]) -> (r: bool)
    ensures
        r == (a@ == b@),
{
    if a.len() != b.len() {
        return false;
    }
    let mut i: usize = 0;
    while i < a.len()
        invariant
            a@.len() == b@.len(),
            i <= a@.len(),
            a@.take(i as int) == b@.take(i as int),
        decreases a@.len() - i,
    {
        if a[i] != b[i] {
            assert(a@[i as int] != b@[i as int]);
            return false;
        }
        assert(a@.take(i + 1) =~= a@.take(i as int).push(a@[i as int]));
        assert(b@.take(i + 1) =~= b@.take(i as int).push(b@[i as int]));
        i = i + 1;
    }
    assert(a@ =~= a@.take(a@.len() as int));
    assert(b@ =~= b@.take(b@.len() as int));
    true
}

/// Looks up the address of the backend called `name`.
pub fn server_address(name: &[u8]) -> (r: Option<&'static str>)
    ensures
        r == server_address_of(name@),
{
    let lobby_name = lobby_bytes();
    let survival_name = survival_bytes();
    if bytes_eq(name, lobby_name.as_slice()) {
        Some("127.0.0.1:25565")
    } else if bytes_eq(name, survival_name.as_slice()) {
        Some("127.0.0.1:25566")
    } else {
        None
    }
}

/// The name of the backend that new players are sent to.
pub fn default_server_name_bytes() -> (r: Vec<u8>)
    ensures
        r@ == default_server_name(),
        server_address_of(r@) is Some,
{
    lobby_bytes()
}

} // verus!
