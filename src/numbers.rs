//! SSH message numbers and reason codes.
use vstd::prelude::*;

verus! {

pub const SSH_MSG_DISCONNECT: u8 = 1;
pub const SSH_MSG_IGNORE: u8 = 2;
pub const SSH_MSG_UNIMPLEMENTED: u8 = 3;
pub const SSH_MSG_DEBUG: u8 = 4;
pub const SSH_MSG_SERVICE_REQUEST: u8 = 5;
pub const SSH_MSG_SERVICE_ACCEPT: u8 = 6;
pub const SSH_MSG_EXT_INFO: u8 = 7;
pub const SSH_MSG_KEXINIT: u8 = 20;
pub const SSH_MSG_NEWKEYS: u8 = 21;
pub const SSH_MSG_KEXDH_INIT: u8 = 30;
pub const SSH_MSG_KEXDH_REPLY: u8 = 31;
pub const SSH_MSG_KEX_ECDH_INIT: u8 = 30;
pub const SSH_MSG_KEX_ECDH_REPLY: u8 = 31;
pub const SSH_MSG_USERAUTH_REQUEST: u8 = 50;
pub const SSH_MSG_USERAUTH_FAILURE: u8 = 51;
pub const SSH_MSG_USERAUTH_SUCCESS: u8 = 52;
pub const SSH_MSG_USERAUTH_BANNER: u8 = 53;
pub const SSH_MSG_USERAUTH_PK_OK: u8 = 60;
pub const SSH_MSG_GLOBAL_REQUEST: u8 = 80;
pub const SSH_MSG_REQUEST_SUCCESS: u8 = 81;
pub const SSH_MSG_REQUEST_FAILURE: u8 = 82;
pub const SSH_MSG_CHANNEL_OPEN: u8 = 90;
pub const SSH_MSG_CHANNEL_OPEN_CONFIRMATION: u8 = 91;
pub const SSH_MSG_CHANNEL_OPEN_FAILURE: u8 = 92;
pub const SSH_MSG_CHANNEL_WINDOW_ADJUST: u8 = 93;
pub const SSH_MSG_CHANNEL_DATA: u8 = 94;
pub const SSH_MSG_CHANNEL_EXTENDED_DATA: u8 = 95;
pub const SSH_MSG_CHANNEL_EOF: u8 = 96;
pub const SSH_MSG_CHANNEL_CLOSE: u8 = 97;
pub const SSH_MSG_CHANNEL_REQUEST: u8 = 98;
pub const SSH_MSG_CHANNEL_SUCCESS: u8 = 99;
pub const SSH_MSG_CHANNEL_FAILURE: u8 = 100;

pub const SSH_OPEN_ADMINISTRATIVELY_PROHIBITED: u32 = 1;
pub const SSH_OPEN_CONNECT_FAILED: u32 = 2;
pub const SSH_OPEN_UNKNOWN_CHANNEL_TYPE: u32 = 3;
pub const SSH_OPEN_RESOURCE_SHORTAGE: u32 = 4;

pub const SSH_EXTENDED_DATA_STDERR: u32 = 1;

/// The symbolic name of a message number, for diagnostics.
pub fn packet_type_to_string(packet_type: u8) -> &'static str {
    match packet_type {
        1 => "SSH_MSG_DISCONNECT",
        2 => "SSH_MSG_IGNORE",
        3 => "SSH_MSG_UNIMPLEMENTED",
        4 => "SSH_MSG_DEBUG",
        5 => "SSH_MSG_SERVICE_REQUEST",
        6 => "SSH_MSG_SERVICE_ACCEPT",
        7 => "SSH_MSG_EXT_INFO",
        20 => "SSH_MSG_KEXINIT",
        21 => "SSH_MSG_NEWKEYS",
        30 => "SSH_MSG_KEX_ECDH_INIT",
        31 => "SSH_MSG_KEX_ECDH_REPLY",
        50 => "SSH_MSG_USERAUTH_REQUEST",
        51 => "SSH_MSG_USERAUTH_FAILURE",
        52 => "SSH_MSG_USERAUTH_SUCCESS",
        53 => "SSH_MSG_USERAUTH_BANNER",
        60 => "SSH_MSG_USERAUTH_PK_OK",
        80 => "SSH_MSG_GLOBAL_REQUEST",
        81 => "SSH_MSG_REQUEST_SUCCESS",
        82 => "SSH_MSG_REQUEST_FAILURE",
        90 => "SSH_MSG_CHANNEL_OPEN",
        91 => "SSH_MSG_CHANNEL_OPEN_CONFIRMATION",
        92 => "SSH_MSG_CHANNEL_OPEN_FAILURE",
        93 => "SSH_MSG_CHANNEL_WINDOW_ADJUST",
        94 => "SSH_MSG_CHANNEL_DATA",
        95 => "SSH_MSG_CHANNEL_EXTENDED_DATA",
        96 => "SSH_MSG_CHANNEL_EOF",
        97 => "SSH_MSG_CHANNEL_CLOSE",
        98 => "SSH_MSG_CHANNEL_REQUEST",
        99 => "SSH_MSG_CHANNEL_SUCCESS",
        100 => "SSH_MSG_CHANNEL_FAILURE",
        _ => "unknown",
    }
}

} // verus!
