//! Decisions of the relay that reads a player's frames and passes them to
//! the player's current backend.

use vstd::prelude::*;
use vstd::slice::slice_to_vec;
use crate::codec::{
    append_bytes, be_at, frame, frame_bytes, try_read_string, read_u16_be, read_var_u32, string_at,
    var_at,
};
use crate::command::{ascii_words, is_server_command, is_server_command_message, split_ascii_whitespace};
use crate::error::FrameError;
use crate::messages::{client_register_body, client_register_packet};
use crate::names::lobby_bytes;
use crate::packets::{chat_c2s_id, get_chat_c2s, has_ids, has_packet_ids};
use crate::servers::{bytes_eq, default_server_name, server_address, server_address_of};

verus! {

/// Where a player's relay stands: the connection state announced by the
/// handshake, the protocol version, and the backend the player is on.
/// The backend the player is on is always one the proxy knows.
pub struct ClientSession {
    state: u32,
    pv: u32,
    current_server: Vec<u8>,
}

/// A relay's state as a value.
pub struct ClientView {
    pub state: u32,
    pub pv: u32,
    pub current_server: Seq<u8>,
}

impl View for ClientSession {
    type V = ClientView;

    closed spec fn view(&self) -> ClientView {
        ClientView { state: self.state, pv: self.pv, current_server: self.current_server@ }
    }
}

impl ClientSession {
    #[verifier::type_invariant]
    spec fn on_known_server(self) -> bool {
        server_address_of(self.current_server@) is Some
    }
}

/// What the relay does with one frame from the player.
pub enum ClientAction {
    /// Connect the player to the backend `name` at `address`; the frame is
    /// not passed on.
    SwitchServer { name: Vec<u8>, address: &'static str },
    /// The player asked for the backend it is already on; the frame is not
    /// passed on.
    AlreadyConnected { name: Vec<u8> },
    /// Write `to_server` to the current backend; when the frame was a
    /// handshake, tell the server relay the protocol version.
    Forward { handshook: Option<u32>, to_server: Vec<u8> },
}

/// The fields of a handshake read at `p` (just after its packet id):
/// protocol version, server address, port, next state.
pub open spec fn handshake_at(s: Seq<u8>, p: int) -> Option<(u32, Seq<u8>, u16, u32)> {
    match var_at(s, p) {
        None => None,
        Some((pv, p1)) => match string_at(s, p1) {
            None => None,
            Some((address, p2)) => match be_at(s, p2, 2) {
                None => None,
                Some(port) => match var_at(s, p2 + 2) {
                    None => None,
                    Some((next_state, _)) => Some((pv, address, port as u16, next_state)),
                },
            },
        },
    }
}

/// The outcome of one frame, as a value.
pub enum ClientVerdict {
    Fail(FrameError),
    Switch { name: Seq<u8>, address: &'static str },
    Already { name: Seq<u8> },
    Forward { state: u32, pv: u32, handshook: Option<u32>, to_server: Seq<u8> },
}

/// A frame that is passed on: a handshake in state 0 sets the state and the
/// version; in state 2, packet 0x26 is preceded by the registration of the
/// proxy's channel; the frame follows unchanged.
pub open spec fn forward_verdict(state: u32, pv: u32, body: Seq<u8>, id: u32, p: int) -> ClientVerdict {
    if state == 0 && id == 0 {
        match handshake_at(body, p) {
            None => ClientVerdict::Fail(FrameError::Malformed),
            Some((npv, _, _, next_state)) => passed_on(next_state, npv, Some(npv), body, id),
        }
    } else {
        passed_on(state, pv, None, body, id)
    }
}

pub open spec fn passed_on(state: u32, pv: u32, handshook: Option<u32>, body: Seq<u8>, id: u32) -> ClientVerdict {
    ClientVerdict::Forward {
        state,
        pv,
        handshook,
        to_server: if state == 2 && id == 0x26 {
            frame_bytes(client_register_body()) + frame_bytes(body)
        } else {
            frame_bytes(body)
        },
    }
}

/// The outcome of the frame `body` for a relay in the given state. A chat
/// message `/server <name>` naming a known backend switches to it (or
/// reports that the player is there already); every other frame is passed
/// on.
pub open spec fn client_verdict(state: u32, pv: u32, current: Seq<u8>, body: Seq<u8>) -> ClientVerdict {
    if !has_ids(pv) {
        ClientVerdict::Fail(FrameError::UnknownVersion(pv))
    } else {
        match var_at(body, 0) {
            None => ClientVerdict::Fail(FrameError::Malformed),
            Some((id, p)) => if id == chat_c2s_id(pv) {
                match string_at(body, p) {
                    None => ClientVerdict::Fail(FrameError::Malformed),
                    Some((msg, _)) => if is_server_command(msg) {
                        let words = ascii_words(msg);
                        if words.len() < 2 {
                            ClientVerdict::Fail(FrameError::MissingCommandArgument)
                        } else {
                            match server_address_of(words[1]) {
                                Some(address) => if words[1] == current {
                                    ClientVerdict::Already { name: words[1] }
                                } else {
                                    ClientVerdict::Switch { name: words[1], address }
                                },
                                None => forward_verdict(state, pv, body, id, p),
                            }
                        }
                    } else {
                        forward_verdict(state, pv, body, id, p)
                    },
                }
            } else {
                forward_verdict(state, pv, body, id, p)
            },
        }
    }
}

/// Reads the fields of a handshake at `pos`.
pub fn parse_handshake(body: &[u8], pos: usize) -> (r: Option<(u32, Vec<u8>, u16, u32)>)
    requires
        pos <= body@.len(),
    ensures
        match handshake_at(body@, pos as int) {
            Some((pv, address, port, next_state)) => r matches Some((a, b, c, d))
                && a == pv && b@ == address && c == port && d == next_state,
            None => r is None,
        },
{
    let (pv, p1) = match read_var_u32(body, pos) {
        Some(x) => x,
        None => return None,
    };
    let (address, p2) = match try_read_string(body, p1) {
        Some(x) => x,
        None => return None,
    };
    let (port, p3) = match read_u16_be(body, p2) {
        Some(x) => x,
        None => return None,
    };
    let (next_state, _) = match read_var_u32(body, p3) {
        Some(x) => x,
        None => return None,
    };
    Some((pv, address, port, next_state))
}

impl ClientSession {
    /// A relay for a newly connected player, on the default backend.
    pub fn new() -> (r: ClientSession)
        ensures
            r@.state == 0,
            r@.pv == 0,
            r@.current_server == default_server_name(),
    {
        ClientSession { state: 0, pv: 0, current_server: lobby_bytes() }
    }

    /// The connection state.
    pub fn state(&self) -> (r: u32)
        ensures
            r == self@.state,
    {
        self.state
    }

    /// The protocol version (0 until the handshake).
    pub fn pv(&self) -> (r: u32)
        ensures
            r == self@.pv,
    {
        self.pv
    }

    /// The name of the backend the player is on.
    pub fn current_server(&self) -> (r: &[u8])
        ensures
            r@ == self@.current_server,
            server_address_of(r@) is Some,
    {
        proof {
            use_type_invariant(self);
        }
        self.current_server.as_slice()
    }

    /// Records that the player is now on the backend `name`, which the proxy
    /// knows.
    pub fn set_current_server(&mut self, name: Vec<u8>)
        requires
            server_address_of(name@) is Some,
        ensures
            final(self)@.current_server == name@,
            final(self)@.state == old(self)@.state,
            final(self)@.pv == old(self)@.pv,
    {
        self.current_server = name;
    }

    /// Decides what to do with one frame body from the player.
    pub fn on_frame(&mut self, body: &[u8]) -> (r: Result<ClientAction, FrameError>)
        ensures
            match client_verdict(old(self)@.state, old(self)@.pv, old(self)@.current_server, body@) {
                ClientVerdict::Fail(e) => r == Err::<ClientAction, FrameError>(e)
                    && final(self)@.state == old(self)@.state && final(self)@.pv == old(self)@.pv,
                ClientVerdict::Switch { name, address } => (r matches Ok(ClientAction::SwitchServer { name: n, address: a })
                    && n@ == name && a == address)
                    && final(self)@.state == old(self)@.state && final(self)@.pv == old(self)@.pv,
                ClientVerdict::Already { name } => (r matches Ok(ClientAction::AlreadyConnected { name: n }) && n@ == name)
                    && final(self)@.state == old(self)@.state && final(self)@.pv == old(self)@.pv,
                ClientVerdict::Forward { state, pv, handshook, to_server } => (r matches Ok(ClientAction::Forward { handshook: h, to_server: t })
                    && h == handshook && t@ == to_server)
                    && final(self)@.state == state && final(self)@.pv == pv,
            },
            final(self)@.current_server == old(self)@.current_server,
            server_address_of(old(self)@.current_server) is Some,
    {
        proof {
            use_type_invariant(&*self);
        }
        if !has_packet_ids(self.pv) {
            return Err(FrameError::UnknownVersion(self.pv));
        }
        let (id, p) = match read_var_u32(body, 0) {
            Some(x) => x,
            None => return Err(FrameError::Malformed),
        };
        if id == get_chat_c2s(self.pv) {
            let (msg, _) = match try_read_string(body, p) {
                Some(x) => x,
                None => return Err(FrameError::Malformed),
            };
            if is_server_command_message(msg.as_slice()) {
                let args = split_ascii_whitespace(msg.as_slice());
                if args.len() < 2 {
                    return Err(FrameError::MissingCommandArgument);
                }
                let target = slice_to_vec(args[1].as_slice());
                assert(target@ == args.deep_view()[1]);
                match server_address(target.as_slice()) {
                    Some(address) => {
                        if bytes_eq(target.as_slice(), self.current_server.as_slice()) {
                            return Ok(ClientAction::AlreadyConnected { name: target });
                        } else {
                            return Ok(ClientAction::SwitchServer { name: target, address });
                        }
                    },
                    None => {},
                }
            }
        }
        self.pass_on(body, id, p)
    }

    fn pass_on(&mut self, body: &[u8], id: u32, p: usize) -> (r: Result<ClientAction, FrameError>)
        requires
            p <= body@.len(),
        ensures
            match forward_verdict(old(self)@.state, old(self)@.pv, body@, id, p as int) {
                ClientVerdict::Forward { state, pv, handshook, to_server } => (r matches Ok(ClientAction::Forward { handshook: h, to_server: t })
                    && h == handshook && t@ == to_server)
                    && final(self)@.state == state && final(self)@.pv == pv,
                ClientVerdict::Fail(e) => r == Err::<ClientAction, FrameError>(e)
                    && final(self)@.state == old(self)@.state && final(self)@.pv == old(self)@.pv,
                _ => false,
            },
            final(self)@.current_server == old(self)@.current_server,
    {
        proof {
            use_type_invariant(&*self);
        }
        let mut handshook: Option<u32> = None;
        if self.state == 0 && id == 0 {
            match parse_handshake(body, p) {
                Some((pv, _, _, next_state)) => {
                    self.pv = pv;
                    self.state = next_state;
                    handshook = Some(pv);
                },
                None => return Err(FrameError::Malformed),
            }
        }
        let mut to_server: Vec<u8> = Vec::new();
        if self.state == 2 && id == 0x26 {
            let register = client_register_packet();
            to_server = frame(register.as_slice());
        }
        let framed = frame(body);
        append_bytes(&mut to_server, framed.as_slice());
        Ok(ClientAction::Forward { handshook, to_server })
    }
}

} // verus!
