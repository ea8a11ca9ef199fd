//! Packet ids that differ between the supported protocol versions.

use vstd::prelude::*;

verus! {

pub const MC1_18_1: u32 = 757;
pub const MC1_17_1: u32 = 756;
pub const MC1_16_5: u32 = 754;
pub const MC1_15_2: u32 = 578;
pub const MC1_14_4: u32 = 498;
pub const MC1_13_2: u32 = 404;
pub const MC1_12_2: u32 = 340;

/// The protocol versions for which packet ids are known.
pub open spec fn is_known_version(pv: u32) -> bool {
    pv == MC1_18_1 || pv == MC1_17_1 || pv == MC1_16_5 || pv == MC1_15_2
        || pv == MC1_14_4 || pv == MC1_13_2 || pv == MC1_12_2
}

/// A version for which the id lookups answer: a known version, or 0 (no
/// handshake seen yet).
pub open spec fn has_ids(pv: u32) -> bool {
    pv == 0 || is_known_version(pv)
}

pub open spec fn respawn_id(pv: u32) -> u32 {
    if pv == MC1_18_1 || pv == MC1_17_1 { 0x3d }
    else if pv == MC1_16_5 { 0x39 }
    else if pv == MC1_15_2 { 0x3b }
    else if pv == MC1_14_4 { 0x3a }
    else if pv == MC1_13_2 { 0x38 }
    else if pv == MC1_12_2 { 0x35 }
    else { u32::MAX }
}

pub open spec fn chat_c2s_id(pv: u32) -> u32 {
    if pv == MC1_18_1 || pv == MC1_17_1 || pv == MC1_16_5 || pv == MC1_15_2 || pv == MC1_14_4 { 0x03 }
    else if pv == MC1_13_2 || pv == MC1_12_2 { 0x02 }
    else { u32::MAX }
}

pub open spec fn join_game_id(pv: u32) -> u32 {
    if pv == MC1_18_1 || pv == MC1_17_1 { 0x26 }
    else if pv == MC1_16_5 { 0x24 }
    else if pv == MC1_15_2 { 0x26 }
    else if pv == MC1_14_4 || pv == MC1_13_2 { 0x25 }
    else if pv == MC1_12_2 { 0x23 }
    else { u32::MAX }
}

/// Id of the clientbound respawn packet; `u32::MAX` for version 0.
pub fn get_respawn_id(pv: u32) -> (r: u32)
    requires
        has_ids(pv),
    ensures
        r == respawn_id(pv),
{
    if pv == MC1_18_1 || pv == MC1_17_1 {
        0x3d
    } else if pv == MC1_16_5 {
        0x39
    } else if pv == MC1_15_2 {
        0x3b
    } else if pv == MC1_14_4 {
        0x3a
    } else if pv == MC1_13_2 {
        0x38
    } else if pv == MC1_12_2 {
        0x35
    } else {
        u32::MAX
    }
}

/// Id of the serverbound chat message packet; `u32::MAX` for version 0.
pub fn get_chat_c2s(pv: u32) -> (r: u32)
    requires
        has_ids(pv),
    ensures
        r == chat_c2s_id(pv),
{
    if pv == MC1_18_1 || pv == MC1_17_1 {
        0x3
    } else if pv == MC1_16_5 || pv == MC1_15_2 || pv == MC1_14_4 {
        0x03
    } else if pv == MC1_13_2 || pv == MC1_12_2 {
        0x02
    } else {
        u32::MAX
    }
}

/// Id of the clientbound join game packet; `u32::MAX` for version 0.
pub fn get_join_game(pv: u32) -> (r: u32)
    requires
        has_ids(pv),
    ensures
        r == join_game_id(pv),
{
    if pv == MC1_18_1 || pv == MC1_17_1 {
        0x26
    } else if pv == MC1_16_5 {
        0x24
    } else if pv == MC1_15_2 {
        0x26
    } else if pv == MC1_14_4 {
        0x25
    } else if pv == MC1_13_2 {
        0x25
    } else if pv == MC1_12_2 {
        0x23
    } else {
        u32::MAX
    }
}

/// Tells whether the id lookups answer for `pv`.
pub fn has_packet_ids(pv: u32) -> (r: bool)
    ensures
        r == has_ids(pv),
{
    pv == 0 || pv == MC1_18_1 || pv == MC1_17_1 || pv == MC1_16_5 || pv == MC1_15_2
        || pv == MC1_14_4 || pv == MC1_13_2 || pv == MC1_12_2
}

} // verus!
