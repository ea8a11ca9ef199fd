//! Decisions of the relay that reads a backend's frames and passes them to
//! the player.

use vstd::prelude::*;
use crate::blob::nbt_writable;
use crate::codec::{append_bytes, frame, frame_bytes, try_read_string, read_var_u32, string_at, var_at};
use crate::error::FrameError;
use crate::join::{legacy_join_at, modern_join_at, parse_legacy_join, parse_modern_join};
use crate::messages::{
    is_modern_respawn,
    fake_dimension, fake_dimension_of, legacy_respawn_body, legacy_respawn_packet,
    modern_respawn_packet, server_register_body, server_register_packet,
};
use crate::names::{bungeecord_main, bungeecord_main_bytes};
use crate::packets::{
    get_join_game, get_respawn_id, has_ids, has_packet_ids, join_game_id, respawn_id, MC1_14_4,
    MC1_15_2, MC1_16_5, MC1_17_1, MC1_18_1,
};
use crate::plugin::{parse_plugin_texts, plugin_texts};
use crate::servers::bytes_eq;

verus! {

/// Where a backend's relay stands: the player's protocol version (0 until
/// the handshake), whether the player was just moved to this backend, and
/// whether the BungeeCord channel was registered on it.
pub struct ServerSession {
    pub pv: u32,
    pub recently_transferred: bool,
    pub has_sent_plugins: bool,
}

/// What the relay writes after one frame from the backend (first
/// `to_server`, then `to_client`), the texts of the BungeeCord message it
/// carried, and, when the relay stops after writing, why.
pub struct ServerOutput {
    pub to_server: Vec<u8>,
    pub to_client: Vec<u8>,
    pub plugin_texts: Vec<Vec<u8>>,
    pub stop: Option<FrameError>,
}

/// The payload of a plugin message whose channel name of `channel_len`
/// bytes ends at `q`: the rest of the body, then as many zero bytes as the
/// packet id and the channel's length prefix took.
pub open spec fn plugin_payload(body: Seq<u8>, q: int, channel_len: nat) -> Seq<u8> {
    body.skip(q) + Seq::new((q - channel_len) as nat, |_i: int| 0u8)
}

/// The texts carried by a frame: those of a BungeeCord plugin message
/// (packet 0x18), none for any other frame; `None` when the message cannot
/// be read.
pub open spec fn frame_texts(body: Seq<u8>, id: u32, p: int) -> Option<Seq<Seq<u8>>> {
    if id != 0x18 {
        Some(seq![])
    } else {
        match string_at(body, p) {
            None => None,
            Some((channel, q)) => if channel == bungeecord_main() {
                plugin_texts(plugin_payload(body, q, channel.len()))
            } else {
                Some(seq![])
            },
        }
    }
}

/// Bytes for the player.
pub enum ToClient {
    Exact(Seq<u8>),
    /// `forwarded`, then the frame of a respawn built from these fields and
    /// a writing of the dimension compound read from `dimension`.
    WithModernRespawn {
        forwarded: Seq<u8>,
        rid: u32,
        dimension: Seq<u8>,
        hashed_seed: i64,
        gamemode: u8,
        previous_gamemode: u8,
    },
}

/// After a transfer, the join game frame is passed on and followed by
/// respawns: in 1.16 to 1.18 one into the new dimension; in 1.14 and 1.15
/// one into another dimension, then one into the new one. An error means
/// that the frame is passed on and the relay stops.
pub open spec fn respawn_verdict(body: Seq<u8>, p: int, pv: u32) -> Result<ToClient, FrameError> {
    let rid = respawn_id(pv);
    if pv == MC1_18_1 || pv == MC1_17_1 || pv == MC1_16_5 {
        match modern_join_at(body, p) {
            None => Err(FrameError::Malformed),
            Some((gamemode, previous, dimension, seed)) => if nbt_writable(dimension) {
                Ok(ToClient::WithModernRespawn {
                    forwarded: frame_bytes(body),
                    rid,
                    dimension,
                    hashed_seed: seed,
                    gamemode,
                    previous_gamemode: previous,
                })
            } else {
                Err(FrameError::Unencodable)
            },
        }
    } else if pv == MC1_15_2 || pv == MC1_14_4 {
        match legacy_join_at(body, p, pv) {
            None => Err(FrameError::Malformed),
            Some((gamemode, dimension, seed, level_type)) => if -1 <= dimension <= 1 {
                Ok(ToClient::Exact(
                    frame_bytes(body)
                        + frame_bytes(legacy_respawn_body(rid, fake_dimension_of(dimension), seed, gamemode, level_type))
                        + frame_bytes(legacy_respawn_body(rid, dimension, seed, gamemode, level_type)),
                ))
            } else {
                Err(FrameError::UnknownDimension(dimension))
            },
        }
    } else {
        Err(FrameError::UnsupportedVersion(pv))
    }
}

/// Whether `bytes` are `forwarded` followed by the frame of a 1.16 to 1.18
/// respawn with these fields.
pub open spec fn forwarded_then_respawn(
    bytes: Seq<u8>,
    forwarded: Seq<u8>,
    rid: u32,
    dimension: Seq<u8>,
    hashed_seed: i64,
    gamemode: u8,
    previous_gamemode: u8,
) -> bool {
    exists|packet: Seq<u8>| is_modern_respawn(packet, rid, dimension, hashed_seed, gamemode, previous_gamemode)
        && bytes == forwarded + frame_bytes(packet)
}

/// The outcome of one frame, as a value.
pub enum ServerVerdict {
    /// The packet id cannot be read: nothing is written and the relay stops.
    Fail(FrameError),
    /// `to_server` is written to the backend and `to_client` to the player;
    /// when `stop` holds an error, the relay stops after that.
    Done {
        to_server: Seq<u8>,
        texts: Seq<Seq<u8>>,
        to_client: ToClient,
        still_transferred: bool,
        stop: Option<FrameError>,
    },
}

/// The outcome of the frame `body` for a relay in the given state. Once the
/// version is known, the first frame from a backend is preceded by the
/// registration of the BungeeCord channel towards it; the join game frame
/// that follows a transfer brings respawns with it; every frame is passed
/// on to the player. A BungeeCord message that cannot be read, or a version
/// without packet ids, stops the relay after the registration; a join game
/// after a transfer for which no respawn can be built stops it after the
/// join game is passed on.
pub open spec fn server_verdict(pv: u32, recently: bool, has_sent: bool, body: Seq<u8>) -> ServerVerdict {
    match var_at(body, 0) {
        None => ServerVerdict::Fail(FrameError::Malformed),
        Some((id, p)) => {
            let to_server = if pv != 0 && !has_sent {
                frame_bytes(server_register_body())
            } else {
                Seq::<u8>::empty()
            };
            match frame_texts(body, id, p) {
                None => ServerVerdict::Done {
                    to_server,
                    texts: seq![],
                    to_client: ToClient::Exact(Seq::<u8>::empty()),
                    still_transferred: recently,
                    stop: Some(FrameError::Malformed),
                },
                Some(texts) => if !has_ids(pv) {
                    ServerVerdict::Done {
                        to_server,
                        texts,
                        to_client: ToClient::Exact(Seq::<u8>::empty()),
                        still_transferred: recently,
                        stop: Some(FrameError::UnknownVersion(pv)),
                    }
                } else {
                    let joining = pv != 0 && id == join_game_id(pv);
                    if joining && recently {
                        match respawn_verdict(body, p, pv) {
                            Err(e) => ServerVerdict::Done {
                                to_server,
                                texts,
                                to_client: ToClient::Exact(frame_bytes(body)),
                                still_transferred: recently,
                                stop: Some(e),
                            },
                            Ok(to_client) => ServerVerdict::Done {
                                to_server,
                                texts,
                                to_client,
                                still_transferred: false,
                                stop: None,
                            },
                        }
                    } else {
                        ServerVerdict::Done {
                            to_server,
                            texts,
                            to_client: ToClient::Exact(frame_bytes(body)),
                            still_transferred: recently && !joining,
                            stop: None,
                        }
                    }
                },
            }
        },
    }
}

/// Builds the payload of a plugin message.
fn plugin_payload_bytes(body: &[u8], q: usize, channel_len: usize) -> (r: Vec<u8>)
    requires
        channel_len <= q <= body@.len(),
    ensures
        r@ == plugin_payload(body@, q as int, channel_len as nat),
{
    let mut v: Vec<u8> = Vec::new();
    append_bytes(&mut v, vstd::slice::slice_subrange(body, q, body.len()));
    let ghost start = v@;
    let mut k: usize = 0;
    while k < q - channel_len
        invariant
            k <= q - channel_len,
            v@ == start + Seq::new(k as nat, |_i: int| 0u8),
        decreases q - channel_len - k,
    {
        v.push(0);
        k = k + 1;
        assert(v@ =~= start + Seq::new(k as nat, |_i: int| 0u8));
    }
    assert(start =~= body@.skip(q as int));
    v
}

/// The texts carried by a frame.
fn frame_plugin_texts(body: &[u8], id: u32, p: usize) -> (r: Option<Vec<Vec<u8>>>)
    requires
        p <= body@.len(),
    ensures
        match frame_texts(body@, id, p as int) {
            Some(texts) => r matches Some(v) && v.deep_view() == texts,
            None => r is None,
        },
{
    if id != 0x18 {
        let v: Vec<Vec<u8>> = Vec::new();
        assert(v.deep_view() =~= Seq::<Seq<u8>>::empty());
        return Some(v);
    }
    let (channel, q) = match try_read_string(body, p) {
        Some(x) => x,
        None => return None,
    };
    let bungee = bungeecord_main_bytes();
    if bytes_eq(channel.as_slice(), bungee.as_slice()) {
        proof {
            assert(string_at(body@, p as int) == Some((channel@, q as int)));
        }
        let payload = plugin_payload_bytes(body, q, channel.len());
        parse_plugin_texts(payload.as_slice())
    } else {
        let v: Vec<Vec<u8>> = Vec::new();
        assert(v.deep_view() =~= Seq::<Seq<u8>>::empty());
        Some(v)
    }
}

/// The bytes for the player after the join game that follows a transfer.
fn respawn_frames(body: &[u8], p: usize, pv: u32) -> (r: Result<Vec<u8>, FrameError>)
    requires
        p <= body@.len(),
        has_ids(pv),
    ensures
        match respawn_verdict(body@, p as int, pv) {
            Err(e) => r == Err::<Vec<u8>, FrameError>(e),
            Ok(ToClient::Exact(c)) => r matches Ok(v) && v@ == c,
            Ok(ToClient::WithModernRespawn { forwarded, rid, dimension, hashed_seed, gamemode, previous_gamemode }) =>
                r matches Ok(v) && forwarded_then_respawn(v@, forwarded, rid, dimension, hashed_seed, gamemode, previous_gamemode),
        },
{
    let rid = get_respawn_id(pv);
    let mut to_client = frame(body);
    if pv == MC1_18_1 || pv == MC1_17_1 || pv == MC1_16_5 {
        let (gamemode, previous, dimension, seed) = match parse_modern_join(body, p) {
            Some(x) => x,
            None => return Err(FrameError::Malformed),
        };
        let packet = match modern_respawn_packet(rid, &dimension, seed, gamemode, previous) {
            Some(v) => v,
            None => return Err(FrameError::Unencodable),
        };
        let ghost forwarded = to_client@;
        let framed = frame(packet.as_slice());
        append_bytes(&mut to_client, framed.as_slice());
        proof {
            assert(to_client@ == forwarded + frame_bytes(packet@));
        }
        Ok(to_client)
    } else if pv == MC1_15_2 || pv == MC1_14_4 {
        let (gamemode, dimension, seed, level_type) = match parse_legacy_join(body, p, pv) {
            Some(x) => x,
            None => return Err(FrameError::Malformed),
        };
        if dimension < -1 || dimension > 1 {
            return Err(FrameError::UnknownDimension(dimension));
        }
        let fake = fake_dimension(dimension);
        let first = legacy_respawn_packet(rid, fake, seed, gamemode, level_type.as_slice());
        let second = legacy_respawn_packet(rid, dimension, seed, gamemode, level_type.as_slice());
        let first_framed = frame(first.as_slice());
        let second_framed = frame(second.as_slice());
        append_bytes(&mut to_client, first_framed.as_slice());
        append_bytes(&mut to_client, second_framed.as_slice());
        assert(to_client@ =~= frame_bytes(body@)
            + frame_bytes(legacy_respawn_body(rid, fake_dimension_of(dimension), seed, gamemode, level_type@))
            + frame_bytes(legacy_respawn_body(rid, dimension, seed, gamemode, level_type@)));
        Ok(to_client)
    } else {
        Err(FrameError::UnsupportedVersion(pv))
    }
}

impl ServerSession {
    /// A relay for a backend the player has just connected to through the
    /// proxy.
    pub fn new() -> (r: ServerSession)
        ensures
            r.pv == 0,
            !r.recently_transferred,
            !r.has_sent_plugins,
    {
        ServerSession { pv: 0, recently_transferred: false, has_sent_plugins: false }
    }

    /// The player was moved to a new backend: its join game will be
    /// followed by respawns, and the BungeeCord channel is registered on it
    /// again.
    pub fn on_new_server(&mut self)
        ensures
            final(self).pv == old(self).pv,
            final(self).recently_transferred,
            !final(self).has_sent_plugins,
    {
        self.recently_transferred = true;
        self.has_sent_plugins = false;
    }

    /// The player's handshake announced protocol version `pv`.
    pub fn on_handshook(&mut self, pv: u32)
        ensures
            final(self).pv == pv,
            final(self).recently_transferred == old(self).recently_transferred,
            final(self).has_sent_plugins == old(self).has_sent_plugins,
    {
        self.pv = pv;
    }

    /// Decides what to do with one frame body from the backend.
    pub fn on_frame(&mut self, body: &[u8]) -> (r: Result<ServerOutput, FrameError>)
        ensures
            final(self).pv == old(self).pv,
            match server_verdict(old(self).pv, old(self).recently_transferred, old(self).has_sent_plugins, body@) {
                ServerVerdict::Fail(e) => r == Err::<ServerOutput, FrameError>(e)
                    && final(self).recently_transferred == old(self).recently_transferred
                    && final(self).has_sent_plugins == old(self).has_sent_plugins,
                ServerVerdict::Done { to_server, texts, to_client, still_transferred, stop } => (r matches Ok(out)
                    && out.to_server@ == to_server && out.plugin_texts.deep_view() == texts && out.stop == stop
                    && match to_client {
                        ToClient::Exact(c) => out.to_client@ == c,
                        ToClient::WithModernRespawn { forwarded, rid, dimension, hashed_seed, gamemode, previous_gamemode } =>
                            forwarded_then_respawn(out.to_client@, forwarded, rid, dimension, hashed_seed, gamemode, previous_gamemode),
                    })
                    && final(self).recently_transferred == still_transferred
                    && final(self).has_sent_plugins == (old(self).has_sent_plugins || old(self).pv != 0),
            },
    {
        let (id, p) = match read_var_u32(body, 0) {
            Some(x) => x,
            None => return Err(FrameError::Malformed),
        };
        let send_plugins = self.pv != 0 && !self.has_sent_plugins;
        let mut to_server: Vec<u8> = Vec::new();
        if send_plugins {
            let register = server_register_packet();
            to_server = frame(register.as_slice());
            self.has_sent_plugins = true;
        }
        let plugin_texts = match frame_plugin_texts(body, id, p) {
            Some(t) => t,
            None => {
                let none: Vec<Vec<u8>> = Vec::new();
                assert(none.deep_view() =~= Seq::<Seq<u8>>::empty());
                return Ok(ServerOutput {
                    to_server,
                    to_client: Vec::new(),
                    plugin_texts: none,
                    stop: Some(FrameError::Malformed),
                });
            },
        };
        if !has_packet_ids(self.pv) {
            return Ok(ServerOutput {
                to_server,
                to_client: Vec::new(),
                plugin_texts,
                stop: Some(FrameError::UnknownVersion(self.pv)),
            });
        }
        let joining = self.pv != 0 && id == get_join_game(self.pv);
        if joining && self.recently_transferred {
            match respawn_frames(body, p, self.pv) {
                Ok(to_client) => {
                    self.recently_transferred = false;
                    Ok(ServerOutput { to_server, to_client, plugin_texts, stop: None })
                },
                Err(e) => Ok(ServerOutput { to_server, to_client: frame(body), plugin_texts, stop: Some(e) }),
            }
        } else {
            if joining {
                self.recently_transferred = false;
            }
            Ok(ServerOutput { to_server, to_client: frame(body), plugin_texts, stop: None })
        }
    }
}

} // verus!
