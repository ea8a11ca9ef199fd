//! Byte strings of the protocol and of the proxy's configuration.

use vstd::prelude::*;

verus! {

/// The plugin channel that announces the channels a side listens on. ("minecraft:register")
pub open spec fn minecraft_register() -> Seq<u8> {
    seq!['m' as u8, 'i' as u8, 'n' as u8, 'e' as u8, 'c' as u8, 'r' as u8, 'a' as u8, 'f' as u8, 't' as u8, ':' as u8, 'r' as u8, 'e' as u8, 'g' as u8, 'i' as u8, 's' as u8, 't' as u8, 'e' as u8, 'r' as u8]
}

/// The bytes of [`minecraft_register`].
pub fn minecraft_register_bytes() -> (r: Vec<u8>)
    ensures
        r@ == minecraft_register(),
{
    vec!['m' as u8, 'i' as u8, 'n' as u8, 'e' as u8, 'c' as u8, 'r' as u8, 'a' as u8, 'f' as u8, 't' as u8, ':' as u8, 'r' as u8, 'e' as u8, 'g' as u8, 'i' as u8, 's' as u8, 't' as u8, 'e' as u8, 'r' as u8]
}

/// The plugin channel the proxy registers towards a backend. ("mycelium:data")
pub open spec fn mycelium_data() -> Seq<u8> {
    seq!['m' as u8, 'y' as u8, 'c' as u8, 'e' as u8, 'l' as u8, 'i' as u8, 'u' as u8, 'm' as u8, ':' as u8, 'd' as u8, 'a' as u8, 't' as u8, 'a' as u8]
}

/// The bytes of [`mycelium_data`].
pub fn mycelium_data_bytes() -> (r: Vec<u8>)
    ensures
        r@ == mycelium_data(),
{
    vec!['m' as u8, 'y' as u8, 'c' as u8, 'e' as u8, 'l' as u8, 'i' as u8, 'u' as u8, 'm' as u8, ':' as u8, 'd' as u8, 'a' as u8, 't' as u8, 'a' as u8]
}

/// The plugin channel of BungeeCord messages. ("bungeecord:main")
pub open spec fn bungeecord_main() -> Seq<u8> {
    seq!['b' as u8, 'u' as u8, 'n' as u8, 'g' as u8, 'e' as u8, 'e' as u8, 'c' as u8, 'o' as u8, 'r' as u8, 'd' as u8, ':' as u8, 'm' as u8, 'a' as u8, 'i' as u8, 'n' as u8]
}

/// The bytes of [`bungeecord_main`].
pub fn bungeecord_main_bytes() -> (r: Vec<u8>)
    ensures
        r@ == bungeecord_main(),
{
    vec!['b' as u8, 'u' as u8, 'n' as u8, 'g' as u8, 'e' as u8, 'e' as u8, 'c' as u8, 'o' as u8, 'r' as u8, 'd' as u8, ':' as u8, 'm' as u8, 'a' as u8, 'i' as u8, 'n' as u8]
}

/// The world name sent in the respawn that follows a transfer. ("mycelium:transfer")
pub open spec fn mycelium_transfer() -> Seq<u8> {
    seq!['m' as u8, 'y' as u8, 'c' as u8, 'e' as u8, 'l' as u8, 'i' as u8, 'u' as u8, 'm' as u8, ':' as u8, 't' as u8, 'r' as u8, 'a' as u8, 'n' as u8, 's' as u8, 'f' as u8, 'e' as u8, 'r' as u8]
}

/// The bytes of [`mycelium_transfer`].
pub fn mycelium_transfer_bytes() -> (r: Vec<u8>)
    ensures
        r@ == mycelium_transfer(),
{
    vec!['m' as u8, 'y' as u8, 'c' as u8, 'e' as u8, 'l' as u8, 'i' as u8, 'u' as u8, 'm' as u8, ':' as u8, 't' as u8, 'r' as u8, 'a' as u8, 'n' as u8, 's' as u8, 'f' as u8, 'e' as u8, 'r' as u8]
}

/// The user name the proxy logs in with on a new backend. ("F8H")
pub open spec fn login_name() -> Seq<u8> {
    seq!['F' as u8, '8' as u8, 'H' as u8]
}

/// The bytes of [`login_name`].
pub fn login_name_bytes() -> (r: Vec<u8>)
    ensures
        r@ == login_name(),
{
    vec!['F' as u8, '8' as u8, 'H' as u8]
}

/// The host name written into handshakes towards a backend. ("localhost")
pub open spec fn localhost() -> Seq<u8> {
    seq!['l' as u8, 'o' as u8, 'c' as u8, 'a' as u8, 'l' as u8, 'h' as u8, 'o' as u8, 's' as u8, 't' as u8]
}

/// The bytes of [`localhost`].
pub fn localhost_bytes() -> (r: Vec<u8>)
    ensures
        r@ == localhost(),
{
    vec!['l' as u8, 'o' as u8, 'c' as u8, 'a' as u8, 'l' as u8, 'h' as u8, 'o' as u8, 's' as u8, 't' as u8]
}

/// The prefix of the chat command that switches backends. ("/server ")
pub open spec fn server_command() -> Seq<u8> {
    seq!['/' as u8, 's' as u8, 'e' as u8, 'r' as u8, 'v' as u8, 'e' as u8, 'r' as u8, ' ' as u8]
}

/// The bytes of [`server_command`].
pub fn server_command_bytes() -> (r: Vec<u8>)
    ensures
        r@ == server_command(),
{
    vec!['/' as u8, 's' as u8, 'e' as u8, 'r' as u8, 'v' as u8, 'e' as u8, 'r' as u8, ' ' as u8]
}

/// Name of the default backend. ("lobby")
pub open spec fn lobby() -> Seq<u8> {
    seq!['l' as u8, 'o' as u8, 'b' as u8, 'b' as u8, 'y' as u8]
}

/// The bytes of [`lobby`].
pub fn lobby_bytes() -> (r: Vec<u8>)
    ensures
        r@ == lobby(),
{
    vec!['l' as u8, 'o' as u8, 'b' as u8, 'b' as u8, 'y' as u8]
}

/// Name of the second backend. ("survival")
pub open spec fn survival() -> Seq<u8> {
    seq!['s' as u8, 'u' as u8, 'r' as u8, 'v' as u8, 'i' as u8, 'v' as u8, 'a' as u8, 'l' as u8]
}

/// The bytes of [`survival`].
pub fn survival_bytes() -> (r: Vec<u8>)
    ensures
        r@ == survival(),
{
    vec!['s' as u8, 'u' as u8, 'r' as u8, 'v' as u8, 'i' as u8, 'v' as u8, 'a' as u8, 'l' as u8]
}

} // verus!
