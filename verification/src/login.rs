//! Logging in on a new backend: the packets the proxy sends, and reading
//! the backend's reply.

use vstd::prelude::*;
use crate::codec::{be_at, read_i128_be, try_read_string, read_var_u32, string_at, var_at};
use crate::error::FrameError;
use crate::packets::MC1_15_2;
use crate::wire::signed_of;

verus! {

/// The player's id in a login success: 1.16 and later send it as a 128-bit
/// integer, older versions as text.
pub enum LoginUuid {
    Binary(i128),
    Text(Vec<u8>),
}

/// A backend's reply to a login start.
pub enum LoginReply {
    /// The backend refused the player, with a reason.
    Disconnect { reason: Vec<u8> },
    /// The player is logged in.
    Success { uuid: LoginUuid, username: Vec<u8> },
}

/// The reply, as a value.
pub enum LoginVerdict {
    Fail(FrameError),
    Disconnect(Seq<u8>),
    SuccessBinary(int, Seq<u8>),
    SuccessText(Seq<u8>, Seq<u8>),
}

/// Reading a login reply body of a backend spoken to with version `pv`:
/// packet 0 carries a reason, packet 2 a player id and name.
pub open spec fn login_verdict(body: Seq<u8>, pv: u32) -> LoginVerdict {
    match var_at(body, 0) {
        None => LoginVerdict::Fail(FrameError::Malformed),
        Some((id, p)) => if id == 0 {
            match string_at(body, p) {
                Some((reason, _)) => LoginVerdict::Disconnect(reason),
                None => LoginVerdict::Fail(FrameError::Malformed),
            }
        } else if id == 2 {
            if pv > MC1_15_2 {
                match be_at(body, p, 16) {
                    None => LoginVerdict::Fail(FrameError::Malformed),
                    Some(v) => match string_at(body, p + 16) {
                        Some((name, _)) => LoginVerdict::SuccessBinary(
                            signed_of(v, 0x1_0000_0000_0000_0000_0000_0000_0000_0000int),
                            name,
                        ),
                        None => LoginVerdict::Fail(FrameError::Malformed),
                    },
                }
            } else {
                match string_at(body, p) {
                    None => LoginVerdict::Fail(FrameError::Malformed),
                    Some((uuid, q)) => match string_at(body, q) {
                        Some((name, _)) => LoginVerdict::SuccessText(uuid, name),
                        None => LoginVerdict::Fail(FrameError::Malformed),
                    },
                }
            }
        } else {
            LoginVerdict::Fail(FrameError::UnexpectedReply(id))
        },
    }
}

/// Reads a backend's reply to a login start.
pub fn parse_login_reply(body: &[u8], pv: u32) -> (r: Result<LoginReply, FrameError>)
    ensures
        match login_verdict(body@, pv) {
            LoginVerdict::Fail(e) => r == Err::<LoginReply, FrameError>(e),
            LoginVerdict::Disconnect(reason) => r matches Ok(LoginReply::Disconnect { reason: x })
                && x@ == reason,
            LoginVerdict::SuccessBinary(uuid, name) => r matches Ok(LoginReply::Success { uuid: LoginUuid::Binary(u), username: n })
                && u as int == uuid && n@ == name,
            LoginVerdict::SuccessText(uuid, name) => r matches Ok(LoginReply::Success { uuid: LoginUuid::Text(u), username: n })
                && u@ == uuid && n@ == name,
        },
{
    let (id, p) = match read_var_u32(body, 0) {
        Some(x) => x,
        None => return Err(FrameError::Malformed),
    };
    if id == 0 {
        match try_read_string(body, p) {
            Some((reason, _)) => Ok(LoginReply::Disconnect { reason }),
            None => Err(FrameError::Malformed),
        }
    } else if id == 2 {
        if pv > MC1_15_2 {
            let (uuid, q) = match read_i128_be(body, p) {
                Some(x) => x,
                None => return Err(FrameError::Malformed),
            };
            match try_read_string(body, q) {
                Some((username, _)) => Ok(LoginReply::Success { uuid: LoginUuid::Binary(uuid), username }),
                None => Err(FrameError::Malformed),
            }
        } else {
            let (uuid, q) = match try_read_string(body, p) {
                Some(x) => x,
                None => return Err(FrameError::Malformed),
            };
            match try_read_string(body, q) {
                Some((username, _)) => Ok(LoginReply::Success { uuid: LoginUuid::Text(uuid), username }),
                None => Err(FrameError::Malformed),
            }
        }
    } else {
        Err(FrameError::UnexpectedReply(id))
    }
}

} // verus!
