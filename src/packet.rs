//! Binary packet framing (`uint32 length || uint8 padding || payload || padding`)
//! and the builders for the connection-protocol messages.
use vstd::prelude::*;
use vstd::slice::slice_subrange;

use crate::numbers;
use crate::wire::{
    bool_bytes, read_u32, slice_to_vec, string_bytes, u32_at, u32_bytes, lemma_u32_round_trip,
    write_bool, write_bytes, write_string, write_u32,
};

verus! {

/// One SSH packet payload, starting with its message number.
#[derive(Debug, PartialEq, Eq)]
pub struct Packet {
    pub payload: Vec<u8>,
}

/// Why a framed packet was rejected.
#[derive(Debug, Clone, Copy, PartialEq, Eq, Structural)]
pub enum PacketError {
    /// The body holds not even the padding length byte.
    Empty,
    /// The padding is longer than the body after the padding length byte.
    BadPadding,
    /// The framed length is not a multiple of eight.
    Misaligned,
    /// The length field is zero or larger than the largest accepted packet.
    Truncated,
}

/// The largest packet length accepted from the peer.
pub const MAX_PACKET_LEN: u32 = 35000;

/// Padding for a payload of `n` bytes: the smallest amount that aligns the frame
/// to eight bytes, plus eight so that it is never shorter than four.
pub open spec fn padding_len(n: nat) -> nat {
    ((8 - (n + 5) % 8) % 8 + 8) as nat
}

/// The frame of a payload: `uint32 length || uint8 padding || payload || zeros`.
pub open spec fn frame(p: Seq<u8>) -> Seq<u8> {
    let pad = padding_len(p.len());
    u32_bytes((p.len() + pad + 1) as u32) + seq![pad as u8] + p + Seq::new(pad, |i: int| 0u8)
}

/// The payload of a frame body (the bytes after the length field), if it is well formed.
pub open spec fn unframe_body(b: Seq<u8>) -> Result<Seq<u8>, PacketError> {
    if b.len() == 0 {
        Err(PacketError::Empty)
    } else if b[0] > b.len() - 1 {
        Err(PacketError::BadPadding)
    } else if (b.len() + 4) % 8 != 0 {
        Err(PacketError::Misaligned)
    } else {
        Ok(b.subrange(1, b.len() - b[0]))
    }
}

/// Framing then unframing gives back the payload; the frame is aligned to eight
/// bytes, its length field counts the bytes after it, and its padding is 4 to 255 bytes.
pub proof fn lemma_frame_round_trip(p: Seq<u8>)
    requires
        p.len() <= 32768,
    ensures
        frame(p).len() % 8 == 0,
        4 <= padding_len(p.len()) <= 255,
        u32_at(frame(p), 0) == frame(p).len() - 4,
        frame(p)[4] == padding_len(p.len()),
        unframe_body(frame(p).subrange(4, frame(p).len() as int)) == Ok::<Seq<u8>, PacketError>(p),
{
    let pad = padding_len(p.len());
    let f = frame(p);
    lemma_u32_round_trip((p.len() + pad + 1) as u32);
    assert(f.subrange(0, 4) =~= u32_bytes((p.len() + pad + 1) as u32));
    assert(u32_at(f, 0) == u32_at(f.subrange(0, 4), 0));
    let body = f.subrange(4, f.len() as int);
    assert(body.subrange(1, body.len() - body[0]) =~= p);
}

impl Packet {
    /// The message number.
    pub fn packet_type(&self) -> (r: u8)
        requires
            self.payload@.len() > 0,
        ensures
            r == self.payload@[0],
    {
        self.payload[0]
    }

    /// Parses a frame body (everything after the length field).
    pub fn from_raw(bytes: &[u8]) -> (r: Result<Packet, PacketError>)
        ensures
            match unframe_body(bytes@) {
                Ok(p) => r matches Ok(packet) && packet.payload@ == p,
                Err(e) => r == Err::<Packet, PacketError>(e),
            },
    {
        if bytes.len() == 0 {
            return Err(PacketError::Empty);
        }
        let padding_length = bytes[0];
        if (padding_length as usize) > bytes.len() - 1 {
            return Err(PacketError::BadPadding);
        }
        let payload_len = bytes.len() - 1 - padding_length as usize;
        if (bytes.len() % 8 + 4) % 8 != 0 {
            return Err(PacketError::Misaligned);
        }
        Ok(Packet { payload: slice_to_vec(bytes, 1, 1 + payload_len) })
    }

    /// Frames the payload with zero padding.
    pub fn to_bytes(&self) -> (r: Vec<u8>)
        requires
            self.payload@.len() <= 32768,
        ensures
            r@ == frame(self.payload@),
    {
        let len = self.payload.len();
        let min_full_length = len + 4 + 1;
        let min_padding_len = ((8 - min_full_length % 8) % 8) as u8;
        let padding_len: u8 = min_padding_len + 8;
        let packet_len = len + (padding_len as usize) + 1;
        let mut new: Vec<u8> = Vec::new();
        write_u32(&mut new, packet_len as u32);
        new.push(padding_len);
        write_bytes(&mut new, self.payload.as_slice());
        let mut i: u8 = 0;
        let ghost prefix = new@;
        while i < padding_len
            invariant
                i <= padding_len,
                new@ == prefix + Seq::new(i as nat, |k: int| 0u8),
            decreases padding_len - i,
        {
            new.push(0);
            assert(prefix + Seq::new((i + 1) as nat, |k: int| 0u8) =~= (prefix + Seq::new(
                i as nat,
                |k: int| 0u8,
            )).push(0u8));
            i = i + 1;
        }
        assert(new@ =~= frame(self.payload@));
        new
    }
}

// ---- Message payloads --------------------------------------------------------
pub open spec fn msg_request_failure() -> Seq<u8> {
    seq![numbers::SSH_MSG_REQUEST_FAILURE]
}

pub open spec fn msg_channel_open(kind: Seq<u8>, sender: u32, window: u32, max_packet: u32) -> Seq<
    u8,
> {
    seq![numbers::SSH_MSG_CHANNEL_OPEN] + string_bytes(kind) + u32_bytes(sender) + u32_bytes(window)
        + u32_bytes(max_packet)
}

pub open spec fn msg_channel_open_confirmation(
    recipient: u32,
    sender: u32,
    window: u32,
    max_packet: u32,
) -> Seq<u8> {
    seq![numbers::SSH_MSG_CHANNEL_OPEN_CONFIRMATION] + u32_bytes(recipient) + u32_bytes(sender) + u32_bytes(
        window,
    ) + u32_bytes(max_packet)
}

pub open spec fn msg_channel_open_failure(
    recipient: u32,
    reason: u32,
    description: Seq<u8>,
    language: Seq<u8>,
) -> Seq<u8> {
    seq![numbers::SSH_MSG_CHANNEL_OPEN_FAILURE] + u32_bytes(recipient) + u32_bytes(reason) + string_bytes(
        description,
    ) + string_bytes(language)
}

pub open spec fn msg_channel_window_adjust(recipient: u32, bytes_to_add: u32) -> Seq<u8> {
    seq![numbers::SSH_MSG_CHANNEL_WINDOW_ADJUST] + u32_bytes(recipient) + u32_bytes(bytes_to_add)
}

pub open spec fn msg_channel_data(recipient: u32, data: Seq<u8>) -> Seq<u8> {
    seq![numbers::SSH_MSG_CHANNEL_DATA] + u32_bytes(recipient) + string_bytes(data)
}

pub open spec fn msg_channel_extended_data(recipient: u32, code: u32, data: Seq<u8>) -> Seq<u8> {
    seq![numbers::SSH_MSG_CHANNEL_EXTENDED_DATA] + u32_bytes(recipient) + u32_bytes(code) + string_bytes(
        data,
    )
}

/// A data message on the default stream (`None`) or on an extended one.
pub open spec fn msg_data_on(recipient: u32, code: Option<u32>, data: Seq<u8>) -> Seq<u8> {
    match code {
        Some(c) => msg_channel_extended_data(recipient, c, data),
        None => msg_channel_data(recipient, data),
    }
}

pub open spec fn msg_channel_eof(recipient: u32) -> Seq<u8> {
    seq![numbers::SSH_MSG_CHANNEL_EOF] + u32_bytes(recipient)
}

pub open spec fn msg_channel_close(recipient: u32) -> Seq<u8> {
    seq![numbers::SSH_MSG_CHANNEL_CLOSE] + u32_bytes(recipient)
}

pub open spec fn msg_channel_success(recipient: u32) -> Seq<u8> {
    seq![numbers::SSH_MSG_CHANNEL_SUCCESS] + u32_bytes(recipient)
}

pub open spec fn msg_channel_failure(recipient: u32) -> Seq<u8> {
    seq![numbers::SSH_MSG_CHANNEL_FAILURE] + u32_bytes(recipient)
}

/// The common head of a channel request.
pub open spec fn msg_channel_request(recipient: u32, name: Seq<u8>, want_reply: bool) -> Seq<u8> {
    seq![numbers::SSH_MSG_CHANNEL_REQUEST] + u32_bytes(recipient) + string_bytes(name) + bool_bytes(
        want_reply,
    )
}

pub open spec fn msg_channel_request_pty_req(
    recipient: u32,
    name: Seq<u8>,
    want_reply: bool,
    term: Seq<u8>,
    width_chars: u32,
    height_rows: u32,
    width_px: u32,
    height_px: u32,
    term_modes: Seq<u8>,
) -> Seq<u8> {
    msg_channel_request(recipient, name, want_reply) + string_bytes(term) + u32_bytes(width_chars)
        + u32_bytes(height_rows) + u32_bytes(width_px) + u32_bytes(height_px) + string_bytes(
        term_modes,
    )
}

pub open spec fn msg_channel_request_exit_status(
    recipient: u32,
    name: Seq<u8>,
    want_reply: bool,
    status: u32,
) -> Seq<u8> {
    msg_channel_request(recipient, name, want_reply) + u32_bytes(status)
}

/// Builds a payload of a message number followed by four integers.
fn u32_message(kind: u8, a: u32, b: u32, c: u32, d: u32, n: usize) -> (r: Vec<u8>)
    requires
        n <= 4,
    ensures
        r@ == seq![kind] + (if n >= 1 { u32_bytes(a) } else { Seq::empty() }) + (if n >= 2 {
            u32_bytes(b)
        } else {
            Seq::empty()
        }) + (if n >= 3 { u32_bytes(c) } else { Seq::empty() }) + (if n >= 4 {
            u32_bytes(d)
        } else {
            Seq::empty()
        }),
{
    let mut out: Vec<u8> = Vec::new();
    out.push(kind);
    if n >= 1 {
        write_u32(&mut out, a);
    }
    if n >= 2 {
        write_u32(&mut out, b);
    }
    if n >= 3 {
        write_u32(&mut out, c);
    }
    if n >= 4 {
        write_u32(&mut out, d);
    }
    assert(out@ =~= seq![kind] + (if n >= 1 { u32_bytes(a) } else { Seq::empty() }) + (if n
        >= 2 {
        u32_bytes(b)
    } else {
        Seq::empty()
    }) + (if n >= 3 { u32_bytes(c) } else { Seq::empty() }) + (if n >= 4 {
        u32_bytes(d)
    } else {
        Seq::empty()
    }));
    out
}

impl Packet {
    pub fn new_msg_request_failure() -> (r: Packet)
        ensures
            r.payload@ == msg_request_failure(),
    {
        let mut out: Vec<u8> = Vec::new();
        out.push(numbers::SSH_MSG_REQUEST_FAILURE);
        assert(out@ =~= msg_request_failure());
        Packet { payload: out }
    }

    pub fn new_msg_channel_open_session(
        kind: &[u8],
        sender_channel: u32,
        initial_window_size: u32,
        max_packet_size: u32,
    ) -> (r: Packet)
        requires
            kind@.len() <= u32::MAX,
        ensures
            r.payload@ == msg_channel_open(
                kind@,
                sender_channel,
                initial_window_size,
                max_packet_size,
            ),
    {
        let mut out: Vec<u8> = Vec::new();
        out.push(numbers::SSH_MSG_CHANNEL_OPEN);
        write_string(&mut out, kind);
        write_u32(&mut out, sender_channel);
        write_u32(&mut out, initial_window_size);
        write_u32(&mut out, max_packet_size);
        assert(out@ =~= msg_channel_open(
            kind@,
            sender_channel,
            initial_window_size,
            max_packet_size,
        ));
        Packet { payload: out }
    }

    pub fn new_msg_channel_open_confirmation(
        recipient_channel: u32,
        sender_channel: u32,
        initial_window_size: u32,
        max_packet_size: u32,
    ) -> (r: Packet)
        ensures
            r.payload@ == msg_channel_open_confirmation(
                recipient_channel,
                sender_channel,
                initial_window_size,
                max_packet_size,
            ),
    {
        let out = u32_message(
            numbers::SSH_MSG_CHANNEL_OPEN_CONFIRMATION,
            recipient_channel,
            sender_channel,
            initial_window_size,
            max_packet_size,
            4,
        );
        assert(out@ =~= msg_channel_open_confirmation(
            recipient_channel,
            sender_channel,
            initial_window_size,
            max_packet_size,
        ));
        Packet { payload: out }
    }

    pub fn new_msg_channel_open_failure(
        recipient_channel: u32,
        reason_code: u32,
        description: &[u8],
        language_tag: &[u8],
    ) -> (r: Packet)
        requires
            description@.len() <= u32::MAX,
            language_tag@.len() <= u32::MAX,
        ensures
            r.payload@ == msg_channel_open_failure(
                recipient_channel,
                reason_code,
                description@,
                language_tag@,
            ),
    {
        let mut out = u32_message(numbers::SSH_MSG_CHANNEL_OPEN_FAILURE, recipient_channel, reason_code, 0, 0, 2);
        write_string(&mut out, description);
        write_string(&mut out, language_tag);
        assert(out@ =~= msg_channel_open_failure(
            recipient_channel,
            reason_code,
            description@,
            language_tag@,
        ));
        Packet { payload: out }
    }

    pub fn new_msg_channel_window_adjust(recipient_channel: u32, bytes_to_add: u32) -> (r: Packet)
        ensures
            r.payload@ == msg_channel_window_adjust(recipient_channel, bytes_to_add),
    {
        let out = u32_message(numbers::SSH_MSG_CHANNEL_WINDOW_ADJUST, recipient_channel, bytes_to_add, 0, 0, 2);
        assert(out@ =~= msg_channel_window_adjust(recipient_channel, bytes_to_add));
        Packet { payload: out }
    }

    pub fn new_msg_channel_data(recipient_channel: u32, data: &[u8]) -> (r: Packet)
        requires
            data@.len() <= u32::MAX,
        ensures
            r.payload@ == msg_channel_data(recipient_channel, data@),
    {
        let mut out = u32_message(numbers::SSH_MSG_CHANNEL_DATA, recipient_channel, 0, 0, 0, 1);
        write_string(&mut out, data);
        assert(out@ =~= msg_channel_data(recipient_channel, data@));
        Packet { payload: out }
    }

    pub fn new_msg_channel_extended_data(recipient_channel: u32, code: u32, data: &[u8]) -> (r:
        Packet)
        requires
            data@.len() <= u32::MAX,
        ensures
            r.payload@ == msg_channel_extended_data(recipient_channel, code, data@),
    {
        let mut out = u32_message(numbers::SSH_MSG_CHANNEL_EXTENDED_DATA, recipient_channel, code, 0, 0, 2);
        write_string(&mut out, data);
        assert(out@ =~= msg_channel_extended_data(recipient_channel, code, data@));
        Packet { payload: out }
    }

    pub fn new_msg_channel_eof(recipient_channel: u32) -> (r: Packet)
        ensures
            r.payload@ == msg_channel_eof(recipient_channel),
    {
        let out = u32_message(numbers::SSH_MSG_CHANNEL_EOF, recipient_channel, 0, 0, 0, 1);
        assert(out@ =~= msg_channel_eof(recipient_channel));
        Packet { payload: out }
    }

    pub fn new_msg_channel_close(recipient_channel: u32) -> (r: Packet)
        ensures
            r.payload@ == msg_channel_close(recipient_channel),
    {
        let out = u32_message(numbers::SSH_MSG_CHANNEL_CLOSE, recipient_channel, 0, 0, 0, 1);
        assert(out@ =~= msg_channel_close(recipient_channel));
        Packet { payload: out }
    }

    pub fn new_msg_channel_success(recipient_channel: u32) -> (r: Packet)
        ensures
            r.payload@ == msg_channel_success(recipient_channel),
    {
        let out = u32_message(numbers::SSH_MSG_CHANNEL_SUCCESS, recipient_channel, 0, 0, 0, 1);
        assert(out@ =~= msg_channel_success(recipient_channel));
        Packet { payload: out }
    }

    pub fn new_msg_channel_failure(recipient_channel: u32) -> (r: Packet)
        ensures
            r.payload@ == msg_channel_failure(recipient_channel),
    {
        let out = u32_message(numbers::SSH_MSG_CHANNEL_FAILURE, recipient_channel, 0, 0, 0, 1);
        assert(out@ =~= msg_channel_failure(recipient_channel));
        Packet { payload: out }
    }

    fn channel_request_head(recipient_channel: u32, name: &[u8], want_reply: bool) -> (r: Vec<u8>)
        requires
            name@.len() <= u32::MAX,
        ensures
            r@ == msg_channel_request(recipient_channel, name@, want_reply),
    {
        let mut out = u32_message(numbers::SSH_MSG_CHANNEL_REQUEST, recipient_channel, 0, 0, 0, 1);
        write_string(&mut out, name);
        write_bool(&mut out, want_reply);
        assert(out@ =~= msg_channel_request(recipient_channel, name@, want_reply));
        out
    }

    pub fn new_msg_channel_request_pty_req(
        recipient_channel: u32,
        name: &[u8],
        want_reply: bool,
        term: &[u8],
        width_chars: u32,
        height_rows: u32,
        width_px: u32,
        height_px: u32,
        term_modes: &[u8],
    ) -> (r: Packet)
        requires
            name@.len() <= u32::MAX,
            term@.len() <= u32::MAX,
            term_modes@.len() <= u32::MAX,
        ensures
            r.payload@ == msg_channel_request_pty_req(
                recipient_channel,
                name@,
                want_reply,
                term@,
                width_chars,
                height_rows,
                width_px,
                height_px,
                term_modes@,
            ),
    {
        let mut out = Self::channel_request_head(recipient_channel, name, want_reply);
        write_string(&mut out, term);
        write_u32(&mut out, width_chars);
        write_u32(&mut out, height_rows);
        write_u32(&mut out, width_px);
        write_u32(&mut out, height_px);
        write_string(&mut out, term_modes);
        assert(out@ =~= msg_channel_request_pty_req(
            recipient_channel,
            name@,
            want_reply,
            term@,
            width_chars,
            height_rows,
            width_px,
            height_px,
            term_modes@,
        ));
        Packet { payload: out }
    }

    pub fn new_msg_channel_request_shell(recipient_channel: u32, name: &[u8], want_reply: bool) -> (r:
        Packet)
        requires
            name@.len() <= u32::MAX,
        ensures
            r.payload@ == msg_channel_request(recipient_channel, name@, want_reply),
    {
        Packet { payload: Self::channel_request_head(recipient_channel, name, want_reply) }
    }

    /// A request whose body is one string (`exec`, `subsystem`).
    pub fn new_msg_channel_request_with_string(
        recipient_channel: u32,
        name: &[u8],
        want_reply: bool,
        value: &[u8],
    ) -> (r: Packet)
        requires
            name@.len() <= u32::MAX,
            value@.len() <= u32::MAX,
        ensures
            r.payload@ == msg_channel_request(recipient_channel, name@, want_reply) + string_bytes(
                value@,
            ),
    {
        let mut out = Self::channel_request_head(recipient_channel, name, want_reply);
        write_string(&mut out, value);
        Packet { payload: out }
    }

    pub fn new_msg_channel_request_exit_status(
        recipient_channel: u32,
        name: &[u8],
        want_reply: bool,
        exit_status: u32,
    ) -> (r: Packet)
        requires
            name@.len() <= u32::MAX,
        ensures
            r.payload@ == msg_channel_request_exit_status(
                recipient_channel,
                name@,
                want_reply,
                exit_status,
            ),
    {
        let mut out = Self::channel_request_head(recipient_channel, name, want_reply);
        write_u32(&mut out, exit_status);
        Packet { payload: out }
    }
}

// ---- Reassembling packets from a byte stream ---------------------------------
/// The whole frame of a packet as received: the length field and the body.
pub struct RawPacket {
    len: usize,
    raw: Vec<u8>,
}

impl RawPacket {
    /// The bytes received, length field included.
    pub closed spec fn bytes(&self) -> Seq<u8> {
        self.raw@
    }

    pub closed spec fn wf(&self) -> bool {
        self.raw@.len() == self.len + 4
    }

    /// The body: everything after the length field.
    pub fn rest(&self) -> (r: &[u8])
        requires
            self.wf(),
        ensures
            r@ == self.bytes().subrange(4, self.bytes().len() as int),
    {
        slice_subrange(self.raw.as_slice(), 4, self.raw.len())
    }

    pub fn full_packet(&self) -> (r: &[u8])
        ensures
            r@ == self.bytes(),
    {
        self.raw.as_slice()
    }

    pub fn into_full_packet(self) -> (r: Vec<u8>)
        ensures
            r@ == self.bytes(),
    {
        self.raw
    }
}

/// The length of the frame announced by the first four bytes, length field included.
pub open spec fn announced_frame_len(s: Seq<u8>) -> int {
    4 + u32_at(s, 0)
}

pub open spec fn acceptable_len(len: u32) -> bool {
    1 <= len <= MAX_PACKET_LEN
}

/// Gathers the bytes of one packet: first the four length bytes, then the body.
pub struct PacketParser {
    packet_length: Option<usize>,
    raw_data: Vec<u8>,
}

impl PacketParser {
    /// The bytes gathered so far.
    pub closed spec fn gathered(&self) -> Seq<u8> {
        self.raw_data@
    }

    pub closed spec fn wf(&self) -> bool {
        match self.packet_length {
            None => self.raw_data@.len() < 4,
            Some(len) => {
                &&& self.raw_data@.len() >= 4
                &&& len == u32_at(self.raw_data@, 0)
                &&& acceptable_len(len as u32)
                &&& self.raw_data@.len() < 4 + len
            },
        }
    }

    pub fn new() -> (r: Self)
        ensures
            r.wf(),
            r.gathered() == Seq::<u8>::empty(),
    {
        Self { packet_length: None, raw_data: Vec::new() }
    }

    /// Takes bytes until one packet is complete. Returns how many bytes of
    /// `bytes` were taken and the packet, or `None` when more bytes are needed.
    pub fn recv_bytes(&mut self, bytes: &[u8]) -> (r: Result<Option<(usize, RawPacket)>, PacketError>)
        requires
            old(self).wf(),
        ensures
            final(self).wf(),
            ({
                let total = old(self).gathered() + bytes@;
                match r {
                    Err(e) => e == PacketError::Truncated && total.len() >= 4 && !acceptable_len(
                        u32_at(total, 0),
                    ) && final(self).gathered() == Seq::<u8>::empty(),
                    Ok(None) => {
                        &&& final(self).gathered() == total
                        &&& total.len() >= 4 ==> acceptable_len(u32_at(total, 0))
                            && total.len() < announced_frame_len(total)
                    },
                    Ok(Some((consumed, raw))) => {
                        &&& total.len() >= 4
                        &&& acceptable_len(u32_at(total, 0))
                        &&& total.len() >= announced_frame_len(total)
                        &&& consumed == announced_frame_len(total) - old(self).gathered().len()
                        &&& consumed > 0
                        &&& raw.wf()
                        &&& raw.bytes() == total.subrange(0, announced_frame_len(total))
                        &&& final(self).gathered() == Seq::<u8>::empty()
                    },
                }
            }),
    {
        let ghost total = self.raw_data@ + bytes@;
        let mut consumed: usize = 0;
        let packet_length = match self.packet_length {
            Some(packet_length) => packet_length,
            None => {
                let want = 4 - self.raw_data.len();
                let take = if bytes.len() < want {
                    bytes.len()
                } else {
                    want
                };
                write_bytes(&mut self.raw_data, slice_subrange(bytes, 0, take));
                if self.raw_data.len() < 4 {
                    assert(self.raw_data@ =~= total);
                    return Ok(None);
                }
                assert(self.raw_data@ =~= total.subrange(0, 4));
                let (len, _) = read_u32(self.raw_data.as_slice(), 0).unwrap();
                assert(len == u32_at(total, 0));
                if len < 1 || len > MAX_PACKET_LEN {
                    self.raw_data = Vec::new();
                    return Err(PacketError::Truncated);
                }
                self.packet_length = Some(len as usize);
                consumed = take;
                len as usize
            },
        };
        assert(self.raw_data@ =~= total.subrange(0, (old(self).raw_data@.len() + consumed) as int));
        let body_have = self.raw_data.len() - 4;
        let left = bytes.len() - consumed;
        let need = packet_length - body_have;
        let take = if left < need {
            left
        } else {
            need
        };
        write_bytes(&mut self.raw_data, slice_subrange(bytes, consumed, consumed + take));
        consumed = consumed + take;
        if self.raw_data.len() - 4 == packet_length {
            let mut raw: Vec<u8> = Vec::new();
            std::mem::swap(&mut raw, &mut self.raw_data);
            self.packet_length = None;
            assert(raw@ =~= total.subrange(0, announced_frame_len(total)));
            Ok(Some((consumed, RawPacket { len: packet_length, raw })))
        } else {
            assert(self.raw_data@ =~= total);
            Ok(None)
        }
    }

    /// Like `recv_bytes`, for a stream whose lengths are known to be acceptable.
    pub fn test_recv_bytes(&mut self, bytes: &[u8]) -> (r: Option<(usize, RawPacket)>)
        requires
            old(self).wf(),
            old(self).gathered().len() + bytes@.len() >= 4 ==> acceptable_len(
                u32_at(old(self).gathered() + bytes@, 0),
            ),
        ensures
            final(self).wf(),
            ({
                let total = old(self).gathered() + bytes@;
                match r {
                    None => {
                        &&& final(self).gathered() == total
                        &&& total.len() < 4 || total.len() < announced_frame_len(total)
                    },
                    Some((consumed, raw)) => {
                        &&& total.len() >= 4
                        &&& total.len() >= announced_frame_len(total)
                        &&& consumed == announced_frame_len(total) - old(self).gathered().len()
                        &&& raw.wf()
                        &&& raw.bytes() == total.subrange(0, announced_frame_len(total))
                        &&& final(self).gathered() == Seq::<u8>::empty()
                    },
                }
            }),
    {
        match self.recv_bytes(bytes) {
            Ok(r) => r,
            Err(_) => None,
        }
    }
}

} // verus!
