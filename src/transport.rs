//! The server side of the transport protocol: identification exchange,
//! algorithm negotiation, ECDH key exchange, NEWKEYS and the service request,
//! over a stream of framed packets.
use std::collections::VecDeque;
use vstd::prelude::*;
use vstd::string::{StringExecFns, StringSliceAdditionalSpecFns};
use vstd::utf8::{decode_utf8, encode_utf8, valid_utf8};

use crate::kex::{derived_key, exchange_hash_input, sha256_of, KexAlgorithm, KexError, KeyExchangeSecret};
use crate::kexinit::{
    kexinit_bytes, msg_kex_ecdh_reply, parse_ecdh_init, parse_kexinit, KexInitView,
    KeyExchangeEcDhInitPacket, KeyExchangeInitPacket,
};
use crate::negotiation::{first_common, split_commas, AlgorithmName, AlgorithmNegotiation};
use crate::numbers;
use crate::packet::{
    acceptable_len, announced_frame_len, frame, unframe_body, Packet, PacketError, PacketParser,
};
use crate::wire::{
    read_bool, read_string, read_u32, read_utf8, slice_to_vec, string_bytes, take_bool, take_string,
    take_u32, take_utf8, u32_at,
};

verus! {

/// Why the connection failed.
#[derive(Debug, Clone, Copy, PartialEq, Eq, Structural)]
pub enum TransportError {
    /// A packet could not be framed.
    Framing(PacketError),
    /// A packet does not parse as the message it must be.
    Malformed,
    /// The peer disconnected.
    Disconnect,
    /// No algorithm of some kind is supported by both sides.
    NoCommonAlgorithm,
    /// The client sent a guessed key exchange packet, which is not supported.
    GuessedKexPacket,
    /// A message that is not allowed in the current state.
    UnexpectedPacket,
    /// A service other than `ssh-userauth` was requested.
    UnsupportedService,
}

// ---- Identification ------------------------------------------------------------------
/// "SSH-"
pub open spec fn ident_prefix() -> Seq<u8> {
    seq![83u8, 83, 72, 45]
}

pub open spec fn ends_with_crlf(l: Seq<u8>) -> bool {
    l.len() >= 2 && l[l.len() - 2] == 13 && l[l.len() - 1] == 10
}

pub open spec fn is_ident_line(l: Seq<u8>) -> bool {
    l.len() >= 4 && l.subrange(0, 4) == ident_prefix()
}

/// Feeds bytes to the line reader that holds the partial line `line`. Lines
/// that do not start with `SSH-` are dropped. Returns the line held afterwards
/// and, when an identification line was completed, how many bytes that took.
pub open spec fn ident_feed(line: Seq<u8>, b: Seq<u8>) -> (Seq<u8>, Option<nat>)
    decreases b.len(),
{
    if b.len() == 0 {
        (line, None)
    } else {
        let l = line.push(b[0]);
        if ends_with_crlf(l) && is_ident_line(l) {
            (l, Some(1))
        } else {
            let next = if ends_with_crlf(l) {
                Seq::empty()
            } else {
                l
            };
            let (l2, c) = ident_feed(next, b.drop_first());
            (
                l2,
                match c {
                    Some(n) => Some(n + 1),
                    None => None,
                },
            )
        }
    }
}

pub proof fn lemma_ident_feed_count(line: Seq<u8>, b: Seq<u8>)
    ensures
        ident_feed(line, b).1 matches Some(n) ==> 1 <= n <= b.len(),
    decreases b.len(),
{
    if b.len() > 0 {
        let l = line.push(b[0]);
        let next = if ends_with_crlf(l) {
            Seq::empty()
        } else {
            l
        };
        lemma_ident_feed_count(next, b.drop_first());
    }
}

pub open spec fn shift_count(r: (Seq<u8>, Option<nat>), i: nat) -> (Seq<u8>, Option<nat>) {
    (
        r.0,
        match r.1 {
            Some(n) => Some(n + i),
            None => None,
        },
    )
}

/// Collects the peer's identification line.
pub struct ProtocolIdentParser {
    line: Vec<u8>,
}

impl ProtocolIdentParser {
    pub closed spec fn line_view(&self) -> Seq<u8> {
        self.line@
    }

    pub fn new() -> (r: Self)
        ensures
            r.line_view() == Seq::<u8>::empty(),
    {
        ProtocolIdentParser { line: Vec::new() }
    }

    /// Feeds bytes; returns how many were taken when the identification line is complete.
    pub fn recv_bytes(&mut self, bytes: &[u8]) -> (r: Option<usize>)
        ensures
            (final(self).line_view(), match r {
                Some(n) => Some(n as nat),
                None => None,
            }) == ident_feed(old(self).line_view(), bytes@),
    {
        let ghost target = ident_feed(self.line@, bytes@);
        let mut i: usize = 0;
        assert(bytes@.subrange(0, bytes@.len() as int) =~= bytes@);
        while i < bytes.len()
            invariant
                i <= bytes@.len(),
                target == ident_feed(old(self).line@, bytes@),
                target == shift_count(ident_feed(self.line@, bytes@.subrange(i as int, bytes@.len() as int)), i as nat),
            decreases bytes@.len() - i,
        {
            let ghost rest = bytes@.subrange(i as int, bytes@.len() as int);
            assert(rest.drop_first() =~= bytes@.subrange(i + 1, bytes@.len() as int));
            self.line.push(bytes[i]);
            let n = self.line.len();
            let crlf = n >= 2 && self.line[n - 2] == 13 && self.line[n - 1] == 10;
            if crlf && n >= 4 && self.line[0] == 83 && self.line[1] == 83 && self.line[2] == 72
                && self.line[3] == 45 {
                assert(self.line@.subrange(0, 4) =~= ident_prefix());
                assert(ends_with_crlf(self.line@));
                assert(is_ident_line(self.line@));
                return Some(i + 1);
            }
            proof {
                if n >= 4 && self.line@.subrange(0, 4) == ident_prefix() {
                    assert(self.line@[0] == self.line@.subrange(0, 4)[0]);
                    assert(self.line@[1] == self.line@.subrange(0, 4)[1]);
                    assert(self.line@[2] == self.line@.subrange(0, 4)[2]);
                    assert(self.line@[3] == self.line@.subrange(0, 4)[3]);
                }
            }
            assert(crlf == ends_with_crlf(self.line@));
            if crlf {
                self.line = Vec::new();
            }
            i = i + 1;
        }
        assert(bytes@.subrange(i as int, bytes@.len() as int) =~= Seq::<u8>::empty());
        None
    }

    /// Takes the identification line, CRLF included.
    pub fn take_line(self) -> (r: Vec<u8>)
        ensures
            r@ == self.line_view(),
    {
        self.line
    }
}

// ---- Packet stream -------------------------------------------------------------------------
/// Splits a byte stream into packet payloads, given the partial frame `gathered`
/// that came before; returns the payloads and the new partial frame.
pub open spec fn frame_stream(gathered: Seq<u8>, bytes: Seq<u8>) -> Result<(Seq<Seq<u8>>, Seq<u8>), PacketError>
    decreases gathered.len() + bytes.len(),
{
    let total = gathered + bytes;
    if total.len() < 4 {
        Ok((Seq::empty(), total))
    } else if !acceptable_len(u32_at(total, 0)) {
        Err(PacketError::Truncated)
    } else if total.len() < announced_frame_len(total) {
        Ok((Seq::empty(), total))
    } else {
        let end = announced_frame_len(total);
        match unframe_body(total.subrange(4, end)) {
            Err(e) => Err(e),
            Ok(p) => match frame_stream(Seq::empty(), total.subrange(end, total.len() as int)) {
                Err(e) => Err(e),
                Ok((ps, rest)) => Ok((seq![p] + ps, rest)),
            },
        }
    }
}

/// The payloads completed before the first framing error of `bytes`.
pub open spec fn frames_before_error(gathered: Seq<u8>, bytes: Seq<u8>) -> Seq<Seq<u8>>
    decreases gathered.len() + bytes.len(),
{
    let total = gathered + bytes;
    if total.len() < 4 || !acceptable_len(u32_at(total, 0)) || total.len() < announced_frame_len(
        total,
    ) {
        Seq::empty()
    } else {
        let end = announced_frame_len(total);
        match unframe_body(total.subrange(4, end)) {
            Err(_) => Seq::empty(),
            Ok(p) => seq![p] + frames_before_error(Seq::empty(), total.subrange(end, total.len() as int)),
        }
    }
}

/// A sequence number after `n` more packets, wrapping.
pub open spec fn seq_after(s: u64, n: nat) -> u64
    decreases n,
{
    if n == 0 {
        s
    } else {
        let p = seq_after(s, (n - 1) as nat);
        if p == u64::MAX {
            0
        } else {
            (p + 1) as u64
        }
    }
}

/// Sequence numbers count every packet, one by one.
pub proof fn lemma_seq_after_add(s: u64, a: nat, b: nat)
    ensures
        seq_after(seq_after(s, a), b) == seq_after(s, a + b),
    decreases b,
{
    if b > 0 {
        lemma_seq_after_add(s, a, (b - 1) as nat);
    }
}

/// Frames the incoming byte stream into packets and numbers them.
pub struct PacketTransport {
    next_packet: PacketParser,
    packets: VecDeque<Packet>,
    next_recv_seq_nr: u64,
}

impl PacketTransport {
    pub closed spec fn wf(&self) -> bool {
        self.next_packet.wf()
    }

    /// The bytes of the packet being received.
    pub closed spec fn gathered(&self) -> Seq<u8> {
        self.next_packet.gathered()
    }

    /// Payloads received and not yet taken, oldest first.
    pub closed spec fn pending(&self) -> Seq<Seq<u8>> {
        self.packets@.map_values(|p: Packet| p.payload@)
    }

    /// The sequence number of the next packet to arrive.
    pub closed spec fn recv_seq(&self) -> u64 {
        self.next_recv_seq_nr
    }

    pub fn new() -> (r: Self)
        ensures
            r.wf(),
            r.gathered() == Seq::<u8>::empty(),
            r.pending() == Seq::<Seq<u8>>::empty(),
            r.recv_seq() == 0,
    {
        let r = PacketTransport {
            next_packet: PacketParser::new(),
            packets: VecDeque::new(),
            next_recv_seq_nr: 0,
        };
        assert(r.pending() =~= Seq::<Seq<u8>>::empty());
        r
    }

    /// Takes in bytes of the stream; every packet completed by them is queued
    /// and counted.
    pub fn recv_bytes(&mut self, bytes: &[u8]) -> (r: Result<(), PacketError>)
        requires
            old(self).wf(),
        ensures
            final(self).wf(),
            match frame_stream(old(self).gathered(), bytes@) {
                Ok((ps, rest)) => r is Ok && final(self).pending() == old(self).pending() + ps
                    && final(self).gathered() == rest && final(self).recv_seq() == seq_after(
                    old(self).recv_seq(),
                    ps.len(),
                ),
                Err(e) => r == Err::<(), PacketError>(e) && final(self).gathered() == Seq::<u8>::empty()
                    && final(self).pending() == old(self).pending() + frames_before_error(
                    old(self).gathered(),
                    bytes@,
                ),
            },
    {
        let ghost target = frame_stream(self.gathered(), bytes@);
        let ghost partial = frames_before_error(self.gathered(), bytes@);
        let ghost mut done: Seq<Seq<u8>> = Seq::empty();
        let mut pos: usize = 0;
        assert(bytes@.subrange(0, bytes@.len() as int) =~= bytes@);
        loop
            invariant
                pos <= bytes@.len(),
                target == frame_stream(old(self).gathered(), bytes@),
                partial == frames_before_error(old(self).gathered(), bytes@),
                target is Err ==> partial == done + frames_before_error(
                    self.gathered(),
                    bytes@.subrange(pos as int, bytes@.len() as int),
                ),
                self.wf(),
                self.pending() == old(self).pending() + done,
                self.recv_seq() == seq_after(old(self).recv_seq(), done.len()),
                match frame_stream(self.gathered(), bytes@.subrange(pos as int, bytes@.len() as int)) {
                    Ok((ps, rest)) => target == Ok::<(Seq<Seq<u8>>, Seq<u8>), PacketError>((done + ps, rest)),
                    Err(e) => target == Err::<(Seq<Seq<u8>>, Seq<u8>), PacketError>(e),
                },
            decreases bytes@.len() - pos,
        {
            let rest = vstd::slice::slice_subrange(bytes, pos, bytes.len());
            let ghost g = self.gathered();
            let step = self.next_packet.recv_bytes(rest);
            match step {
                Err(e) => {
                    assert(frame_stream(g, rest@) == Err::<(Seq<Seq<u8>>, Seq<u8>), PacketError>(e));
                    assert(frames_before_error(g, rest@) == Seq::<Seq<u8>>::empty());
                    assert(done + Seq::<Seq<u8>>::empty() =~= done);
                    return Err(e);
                },
                Ok(None) => {
                    proof {
                        assert(frame_stream(g, rest@) == Ok::<(Seq<Seq<u8>>, Seq<u8>), PacketError>((Seq::empty(), g + rest@)));
                        assert(done + Seq::<Seq<u8>>::empty() =~= done);
                    }
                    return Ok(());
                },
                Ok(Some((consumed, raw))) => {
                    let ghost total = g + rest@;
                    let ghost end = announced_frame_len(total);
                    assert(total.subrange(4, end) =~= raw.bytes().subrange(4, raw.bytes().len() as int));
                    match Packet::from_raw(raw.rest()) {
                        Err(e) => {
                            assert(frame_stream(g, rest@) == Err::<(Seq<Seq<u8>>, Seq<u8>), PacketError>(e));
                            assert(frames_before_error(g, rest@) == Seq::<Seq<u8>>::empty());
                            assert(done + Seq::<Seq<u8>>::empty() =~= done);
                            return Err(e);
                        },
                        Ok(packet) => {
                            let ghost p = packet.payload@;
                            let ghost before = self.pending();
                            self.packets.push_back(packet);
                            assert(self.pending() =~= before.push(p));
                            self.next_recv_seq_nr = self.next_recv_seq_nr.wrapping_add(1);
                            proof {
                                assert(total.subrange(end, total.len() as int) =~= bytes@.subrange(pos + consumed, bytes@.len() as int));
                                assert(Seq::<u8>::empty() + bytes@.subrange(pos + consumed, bytes@.len() as int) =~= bytes@.subrange(pos + consumed, bytes@.len() as int));
                                match frame_stream(Seq::empty(), total.subrange(end, total.len() as int)) {
                                    Ok((ps, r2)) => {
                                        assert(done.push(p) + ps =~= done + (seq![p] + ps));
                                    },
                                    Err(e) => {
                                        let fb = frames_before_error(Seq::empty(), total.subrange(end, total.len() as int));
                                        assert(frames_before_error(g, rest@) == seq![p] + fb);
                                        assert(done.push(p) + fb =~= done + (seq![p] + fb));
                                    },
                                }
                                assert(self.pending() =~= old(self).pending() + done.push(p));
                                done = done.push(p);
                            }
                            pos = pos + consumed;
                            if pos == bytes.len() {
                                proof {
                                    assert(bytes@.subrange(pos as int, bytes@.len() as int) =~= Seq::<u8>::empty());
                                    assert(self.gathered() + Seq::<u8>::empty() =~= Seq::<u8>::empty());
                                    assert(done + Seq::<Seq<u8>>::empty() =~= done);
                                }
                                return Ok(());
                            }
                        },
                    }
                },
            }
        }
    }

    /// The sequence number of the next packet to arrive.
    pub fn next_recv_seq_nr(&self) -> (r: u64)
        ensures
            r == self.recv_seq(),
    {
        self.next_recv_seq_nr
    }

    /// Takes the oldest received packet.
    pub fn next_packet(&mut self) -> (r: Option<Packet>)
        ensures
            final(self).wf() == old(self).wf(),
            final(self).gathered() == old(self).gathered(),
            final(self).recv_seq() == old(self).recv_seq(),
            if old(self).pending().len() > 0 {
                r matches Some(p) && p.payload@ == old(self).pending()[0] && final(self).pending()
                    == old(self).pending().drop_first()
            } else {
                r is None && final(self).pending() == old(self).pending()
            },
    {
        let r = self.packets.pop_front();
        assert(self.pending() =~= if old(self).pending().len() > 0 {
            old(self).pending().drop_first()
        } else {
            old(self).pending()
        });
        r
    }
}

// ---- Algorithms and configuration ----------------------------------------------------------
/// An AEAD cipher offered for the encrypted transport.
#[derive(Debug, Clone, Copy, PartialEq, Eq)]
pub struct EncryptionAlgorithm {
    pub name: &'static str,
    pub iv_size: usize,
    pub key_size: usize,
}

impl AlgorithmName for EncryptionAlgorithm {
    open spec fn name_view(&self) -> Seq<char> {
        self.name@
    }

    fn name(&self) -> (r: &'static str) {
        self.name
    }
}

/// `chacha20-poly1305@openssh.com`: two 32-byte keys, no IV.
pub fn chacha20_poly1305() -> (r: EncryptionAlgorithm)
    ensures
        r.name@ == "chacha20-poly1305@openssh.com"@,
        r.key_size == 64,
        r.iv_size == 0,
{
    EncryptionAlgorithm { name: "chacha20-poly1305@openssh.com", iv_size: 0, key_size: 64 }
}

/// `aes256-gcm@openssh.com`: a 32-byte key and a 12-byte IV.
pub fn aes256_gcm() -> (r: EncryptionAlgorithm)
    ensures
        r.name@ == "aes256-gcm@openssh.com"@,
        r.key_size == 32,
        r.iv_size == 12,
{
    EncryptionAlgorithm { name: "aes256-gcm@openssh.com", iv_size: 12, key_size: 32 }
}

pub open spec fn kex_names() -> Seq<Seq<u8>> {
    seq![encode_utf8("curve25519-sha256"@), encode_utf8("ecdh-sha2-nistp256"@)]
}

pub open spec fn encryption_names() -> Seq<Seq<u8>> {
    seq![encode_utf8("chacha20-poly1305@openssh.com"@), encode_utf8("aes256-gcm@openssh.com"@)]
}

pub open spec fn mac_names() -> Seq<Seq<u8>> {
    seq![encode_utf8("hmac-sha2-256"@), encode_utf8("hmac-sha2-256-etm@openssh.com"@)]
}

pub open spec fn compression_names() -> Seq<Seq<u8>> {
    seq![encode_utf8("none"@)]
}

/// (key size, IV size) of a cipher by name.
pub open spec fn cipher_sizes(name: Seq<u8>) -> (nat, nat) {
    if name == encode_utf8("chacha20-poly1305@openssh.com"@) {
        (64, 0)
    } else {
        (32, 12)
    }
}

pub open spec fn enc_ok(e: EncryptionAlgorithm) -> bool {
    ||| (e.name@ == "chacha20-poly1305@openssh.com"@ && e.key_size == 64 && e.iv_size == 0)
    ||| (e.name@ == "aes256-gcm@openssh.com"@ && e.key_size == 32 && e.iv_size == 12)
}

/// A host key we can sign with: its algorithm name and public key blob.
pub struct HostKeySigningAlgorithm {
    pub algorithm: &'static str,
    pub public_key: Vec<u8>,
}

impl AlgorithmName for HostKeySigningAlgorithm {
    open spec fn name_view(&self) -> Seq<char> {
        self.algorithm@
    }

    fn name(&self) -> (r: &'static str) {
        self.algorithm
    }
}

impl HostKeySigningAlgorithm {
    pub fn new(algorithm: &'static str, public_key: Vec<u8>) -> (r: Self)
        ensures
            r.algorithm == algorithm,
            r.public_key == public_key,
    {
        HostKeySigningAlgorithm { algorithm, public_key }
    }

    pub fn public_key(&self) -> (r: Vec<u8>)
        ensures
            r@ == self.public_key@,
    {
        slice_to_vec(self.public_key.as_slice(), 0, self.public_key.len())
    }
}

pub struct ServerConfig {
    /// Our identification line, CRLF included.
    pub server_identification: Vec<u8>,
    pub host_keys: Vec<HostKeySigningAlgorithm>,
}

impl ServerConfig {
    /// Lengths fit the wire format, and the identification line has its CRLF.
    pub open spec fn wf(&self) -> bool {
        &&& 2 <= self.server_identification@.len() <= u32::MAX
        &&& forall|i: int|
            0 <= i < self.host_keys@.len() ==> encode_utf8((#[trigger] self.host_keys@[i]).algorithm@).len()
                <= u32::MAX && self.host_keys@[i].public_key@.len() <= u32::MAX
    }
}

// ---- The state machine -------------------------------------------------------------------------
pub enum StateView {
    ProtoExchange,
    KeyExchangeInit { client_ident: Seq<u8> },
    DhKeyInit {
        client_ident: Seq<u8>,
        client_kexinit: Seq<u8>,
        server_kexinit: Seq<u8>,
        kex: Seq<u8>,
        host_key: int,
        enc_c2s: Seq<u8>,
        enc_s2c: Seq<u8>,
    },
    WaitingForKeyExchange {
        client_ident: Seq<u8>,
        client_kexinit: Seq<u8>,
        server_kexinit: Seq<u8>,
        kex: Seq<u8>,
        host_key: int,
        enc_c2s: Seq<u8>,
        enc_s2c: Seq<u8>,
        client_eph: Seq<u8>,
    },
    NewKeys { hash: Seq<u8>, shared_secret: Seq<u8>, enc_c2s: Seq<u8>, enc_s2c: Seq<u8> },
    ServiceRequest { session_id: Seq<u8>, may_send_extensions: bool },
    Open { session_id: Seq<u8> },
}

pub enum MsgView {
    ProtocolInfo(Seq<u8>),
    Packet(Seq<u8>),
}

/// Key material for both directions: `key || IV`.
pub struct SessionKeysView {
    pub client_to_server: Seq<u8>,
    pub server_to_client: Seq<u8>,
}

pub struct ConnView {
    pub state: StateView,
    /// The partial identification line.
    pub ident_line: Seq<u8>,
    /// The partial packet frame.
    pub gathered: Seq<u8>,
    pub recv_seq: u64,
    pub send_seq: u64,
    /// Messages waiting to be written, oldest first.
    pub outbox: Seq<MsgView>,
    /// Packets for the layers above once the connection is open.
    pub plaintext: Seq<Seq<u8>>,
    pub keys: Option<SessionKeysView>,
    pub server_ident: Seq<u8>,
    /// Names (as UTF-8) and blobs of our host keys.
    pub host_keys: Seq<(Seq<u8>, Seq<u8>)>,
    pub cookie: Seq<u8>,
}

pub open spec fn host_key_names(s: ConnView) -> Seq<Seq<u8>> {
    s.host_keys.map_values(|h: (Seq<u8>, Seq<u8>)| h.0)
}

/// Queues a packet and counts it.
pub open spec fn queue(s: ConnView, payload: Seq<u8>) -> ConnView {
    ConnView {
        outbox: s.outbox.push(MsgView::Packet(payload)),
        send_seq: seq_after(s.send_seq, 1),
        ..s
    }
}

/// Our KEXINIT answer: the chosen algorithms, one per list, with the
/// `ext-info-s` marker after the key exchange algorithm.
pub open spec fn server_kexinit(
    cookie: Seq<u8>,
    kex: Seq<u8>,
    host_key: Seq<u8>,
    ec: Seq<u8>,
    es: Seq<u8>,
    mc: Seq<u8>,
    ms: Seq<u8>,
    cc: Seq<u8>,
    cs: Seq<u8>,
) -> KexInitView {
    KexInitView {
        cookie,
        name_lists: seq![
            decode_utf8(kex) + ",ext-info-s"@,
            decode_utf8(host_key),
            decode_utf8(ec),
            decode_utf8(es),
            decode_utf8(mc),
            decode_utf8(ms),
            decode_utf8(cc),
            decode_utf8(cs),
            Seq::empty(),
            Seq::empty(),
        ],
        first_kex_packet_follows: false,
    }
}

/// The first algorithm of the client's name-list `list` that `ours` holds.
#[verifier::opaque]
pub open spec fn chosen_from(list: Seq<char>, ours: Seq<Seq<u8>>) -> Option<Seq<u8>> {
    first_common(split_commas(encode_utf8(list)), ours)
}

/// Our KEXINIT payload for the chosen algorithms (in list order).
#[verifier::opaque]
pub open spec fn our_kexinit(cookie: Seq<u8>, n: Seq<Seq<u8>>) -> Seq<u8> {
    kexinit_bytes(server_kexinit(cookie, n[0], n[1], n[2], n[3], n[4], n[5], n[6], n[7]))
}

/// The algorithms chosen for a client's KEXINIT, in list order, if every
/// list has one in common with ours.
pub open spec fn negotiation_of(k: KexInitView, host_keys: Seq<Seq<u8>>) -> Option<Seq<Seq<u8>>> {
    let chosen = seq![
        chosen_from(k.name_lists[0], kex_names()),
        chosen_from(k.name_lists[1], host_keys),
        chosen_from(k.name_lists[2], encryption_names()),
        chosen_from(k.name_lists[3], encryption_names()),
        chosen_from(k.name_lists[4], mac_names()),
        chosen_from(k.name_lists[5], mac_names()),
        chosen_from(k.name_lists[6], compression_names()),
        chosen_from(k.name_lists[7], compression_names()),
    ];
    if forall|i: int| 0 <= i < 8 ==> #[trigger] chosen[i] is Some {
        Some(chosen.map_values(|c: Option<Seq<u8>>| c->0))
    } else {
        None
    }
}

#[verifier::opaque]
pub open spec fn kexinit_step(s: ConnView, client_ident: Seq<u8>, p: Seq<u8>) -> Result<ConnView, TransportError> {
    match parse_kexinit(p) {
        None => Err(TransportError::Malformed),
        Some(k) => match negotiation_of(k, host_key_names(s)) {
            None => Err(TransportError::NoCommonAlgorithm),
            Some(n) => if k.first_kex_packet_follows {
                Err(TransportError::GuessedKexPacket)
            } else {
                let ours = our_kexinit(s.cookie, n);
                Ok(
                    ConnView {
                        state: StateView::DhKeyInit {
                            client_ident,
                            client_kexinit: p,
                            server_kexinit: ours,
                            kex: n[0],
                            host_key: crate::negotiation::first_index_of(host_key_names(s), n[1]),
                            enc_c2s: n[2],
                            enc_s2c: n[3],
                        },
                        ..queue(s, ours)
                    },
                )
            },
        },
    }
}

/// The keys that take effect at NEWKEYS: `C`/`A` for client to server, `D`/`B`
/// for server to client, each `key || IV`.
pub open spec fn session_keys(h: Seq<u8>, k: Seq<u8>, session_id: Seq<u8>, enc_c2s: Seq<u8>, enc_s2c: Seq<u8>) -> SessionKeysView {
    SessionKeysView {
        client_to_server: derived_key(k, h, 67, session_id, cipher_sizes(enc_c2s).0) + derived_key(
            k,
            h,
            65,
            session_id,
            cipher_sizes(enc_c2s).1,
        ),
        server_to_client: derived_key(k, h, 68, session_id, cipher_sizes(enc_s2c).0) + derived_key(
            k,
            h,
            66,
            session_id,
            cipher_sizes(enc_s2c).1,
        ),
    }
}

/// Reads `n` extensions (name, value) from `pos` on.
pub open spec fn take_extensions(p: Seq<u8>, pos: int, n: nat) -> Option<int>
    decreases n,
{
    if n == 0 {
        Some(pos)
    } else {
        match take_utf8(p, pos) {
            Some((_, at1)) => match take_string(p, at1) {
                Some((_, at2)) => take_extensions(p, at2, (n - 1) as nat),
                None => None,
            },
            None => None,
        }
    }
}

/// "ssh-userauth"
pub open spec fn userauth_name() -> Seq<u8> {
    encode_utf8("ssh-userauth"@)
}

/// Messages handled in every state: DISCONNECT ends the connection, IGNORE and
/// DEBUG are read and dropped. `None` for any other message.
pub open spec fn global_step(p: Seq<u8>) -> Option<Result<(), TransportError>> {
    if p.len() == 0 {
        Some(Err(TransportError::Malformed))
    } else if p[0] == numbers::SSH_MSG_DISCONNECT {
        Some(
            match take_u32(p, 1) {
                Some((_, at1)) => match take_utf8(p, at1) {
                    Some((_, at2)) => match take_utf8(p, at2) {
                        Some(_) => Err(TransportError::Disconnect),
                        None => Err(TransportError::Malformed),
                    },
                    None => Err(TransportError::Malformed),
                },
                None => Err(TransportError::Malformed),
            },
        )
    } else if p[0] == numbers::SSH_MSG_IGNORE {
        Some(
            if take_string(p, 1) is Some {
                Ok(())
            } else {
                Err(TransportError::Malformed)
            },
        )
    } else if p[0] == numbers::SSH_MSG_DEBUG {
        Some(
            match take_bool(p, 1) {
                Some((_, at1)) => match take_utf8(p, at1) {
                    Some((_, at2)) => if take_utf8(p, at2) is Some {
                        Ok(())
                    } else {
                        Err(TransportError::Malformed)
                    },
                    None => Err(TransportError::Malformed),
                },
                None => Err(TransportError::Malformed),
            },
        )
    } else {
        None
    }
}

/// KEX_ECDH_INIT: the client's ephemeral key arrives; we wait for the host's signature.
#[verifier::opaque]
pub open spec fn ecdh_init_step(s: ConnView, p: Seq<u8>) -> Result<ConnView, TransportError> {
    match s.state {
        StateView::DhKeyInit {
            client_ident,
            client_kexinit,
            server_kexinit,
            kex,
            host_key,
            enc_c2s,
            enc_s2c,
        } => match parse_ecdh_init(p) {
            None => Err(TransportError::Malformed),
            Some(qc) => Ok(
                ConnView {
                    state: StateView::WaitingForKeyExchange {
                        client_ident,
                        client_kexinit,
                        server_kexinit,
                        kex,
                        host_key,
                        enc_c2s,
                        enc_s2c,
                        client_eph: qc,
                    },
                    ..s
                },
            ),
        },
        _ => Err(TransportError::UnexpectedPacket),
    }
}

/// NEWKEYS: we answer with ours, and the session keys are derived and
/// recorded. Packets stay framed in plaintext: no cipher is applied.
#[verifier::opaque]
pub open spec fn newkeys_step(s: ConnView, p: Seq<u8>) -> Result<ConnView, TransportError> {
    match s.state {
        StateView::NewKeys { hash, shared_secret, enc_c2s, enc_s2c } => if p == seq![
            numbers::SSH_MSG_NEWKEYS,
        ] {
            Ok(
                ConnView {
                    state: StateView::ServiceRequest { session_id: hash, may_send_extensions: true },
                    keys: Some(session_keys(hash, shared_secret, hash, enc_c2s, enc_s2c)),
                    ..queue(s, seq![numbers::SSH_MSG_NEWKEYS])
                },
            )
        } else {
            Err(TransportError::UnexpectedPacket)
        },
        _ => Err(TransportError::UnexpectedPacket),
    }
}

/// SERVICE_REQUEST for `ssh-userauth` opens the connection; EXT_INFO is read once.
#[verifier::opaque]
pub open spec fn service_step(s: ConnView, p: Seq<u8>) -> Result<ConnView, TransportError> {
    match s.state {
        StateView::ServiceRequest { session_id, may_send_extensions } => if p[0]
            == numbers::SSH_MSG_SERVICE_REQUEST {
            match take_utf8(p, 1) {
                None => Err(TransportError::Malformed),
                Some((service, _)) => if encode_utf8(service) != userauth_name() {
                    Err(TransportError::UnsupportedService)
                } else {
                    Ok(
                        ConnView {
                            state: StateView::Open { session_id },
                            ..queue(
                                s,
                                seq![numbers::SSH_MSG_SERVICE_ACCEPT] + string_bytes(userauth_name()),
                            )
                        },
                    )
                },
            }
        } else if p[0] == numbers::SSH_MSG_EXT_INFO && may_send_extensions {
            match take_u32(p, 1) {
                Some((count, at1)) => if take_extensions(p, at1, count as nat) is Some {
                    Ok(
                        ConnView {
                            state: StateView::ServiceRequest { session_id, may_send_extensions: false },
                            ..s
                        },
                    )
                } else {
                    Err(TransportError::Malformed)
                },
                None => Err(TransportError::Malformed),
            }
        } else {
            Err(TransportError::UnexpectedPacket)
        },
        _ => Err(TransportError::UnexpectedPacket),
    }
}

/// What one packet does in the current state.
#[verifier::opaque]
pub open spec fn packet_step(s: ConnView, p: Seq<u8>) -> Result<ConnView, TransportError> {
    match global_step(p) {
        Some(Err(e)) => Err(e),
        Some(Ok(())) => Ok(s),
        None => match s.state {
            StateView::ProtoExchange => Err(TransportError::UnexpectedPacket),
            StateView::KeyExchangeInit { client_ident } => kexinit_step(s, client_ident, p),
            StateView::DhKeyInit { .. } => ecdh_init_step(s, p),
            StateView::WaitingForKeyExchange { .. } => Err(TransportError::UnexpectedPacket),
            StateView::NewKeys { .. } => newkeys_step(s, p),
            StateView::ServiceRequest { .. } => service_step(s, p),
            StateView::Open { .. } => Ok(ConnView { plaintext: s.plaintext.push(p), ..s }),
        },
    }
}

pub open spec fn process_packets(s: ConnView, ps: Seq<Seq<u8>>) -> Result<ConnView, TransportError>
    decreases ps.len(),
{
    if ps.len() == 0 {
        Ok(s)
    } else {
        match packet_step(s, ps[0]) {
            Err(e) => Err(e),
            Ok(s2) => process_packets(s2, ps.drop_first()),
        }
    }
}

pub open spec fn stream_step(s: ConnView, b: Seq<u8>) -> Result<ConnView, TransportError> {
    match frame_stream(s.gathered, b) {
        Err(e) => Err(TransportError::Framing(e)),
        Ok((ps, rest)) => process_packets(
            ConnView { gathered: rest, recv_seq: seq_after(s.recv_seq, ps.len()), ..s },
            ps,
        ),
    }
}

/// What bytes from the peer do: first the identification line, then packets.
pub open spec fn recv_step(s: ConnView, b: Seq<u8>) -> Result<ConnView, TransportError> {
    if s.state is ProtoExchange {
        let (line, c) = ident_feed(s.ident_line, b);
        match c {
            None => Ok(ConnView { ident_line: line, ..s }),
            Some(n) => stream_step(
                ConnView {
                    state: StateView::KeyExchangeInit { client_ident: line },
                    ident_line: line,
                    outbox: s.outbox.push(MsgView::ProtocolInfo(s.server_ident)),
                    ..s
                },
                b.subrange(n as int, b.len() as int),
            ),
        }
    } else {
        stream_step(s, b)
    }
}

// ---- Name lengths ------------------------------------------------------------------------------
proof fn lemma_encode_len(chars: Seq<char>)
    ensures
        encode_utf8(chars).len() <= 4 * chars.len(),
    decreases chars.len(),
{
    if chars.len() > 0 {
        lemma_encode_len(chars.drop_first());
    }
}

/// The names we offer are short.
proof fn lemma_names_short()
    ensures
        "curve25519-sha256"@.len() <= 1000,
        "ecdh-sha2-nistp256"@.len() <= 1000,
        "chacha20-poly1305@openssh.com"@.len() <= 1000,
        "aes256-gcm@openssh.com"@.len() <= 1000,
        "hmac-sha2-256"@.len() <= 1000,
        "hmac-sha2-256-etm@openssh.com"@.len() <= 1000,
        "none"@.len() <= 1000,
        ",ext-info-s"@.len() <= 1000,
        "ssh-userauth"@.len() <= 1000,
{
    reveal_strlit("curve25519-sha256");
    reveal_strlit("ecdh-sha2-nistp256");
    reveal_strlit("chacha20-poly1305@openssh.com");
    reveal_strlit("aes256-gcm@openssh.com");
    reveal_strlit("hmac-sha2-256");
    reveal_strlit("hmac-sha2-256-etm@openssh.com");
    reveal_strlit("none");
    reveal_strlit(",ext-info-s");
    reveal_strlit("ssh-userauth");
}

// ---- Messages out ------------------------------------------------------------------------------
pub enum MsgKind {
    ServerProtocolInfo(Vec<u8>),
    PlaintextPacket(Packet),
}

/// Something to write to the peer.
pub struct Msg(pub MsgKind);

impl View for Msg {
    type V = MsgView;

    open spec fn view(&self) -> MsgView {
        match &self.0 {
            MsgKind::ServerProtocolInfo(v) => MsgView::ProtocolInfo(v@),
            MsgKind::PlaintextPacket(p) => MsgView::Packet(p.payload@),
        }
    }
}

impl Msg {
    /// The bytes on the wire: the identification line as it is, a packet framed.
    pub fn to_bytes(&self) -> (r: Vec<u8>)
        requires
            self@ matches MsgView::Packet(p) ==> p.len() <= 32768,
        ensures
            match self@ {
                MsgView::ProtocolInfo(v) => r@ == v,
                MsgView::Packet(p) => r@ == frame(p),
            },
    {
        match &self.0 {
            MsgKind::ServerProtocolInfo(v) => slice_to_vec(v.as_slice(), 0, v.len()),
            MsgKind::PlaintextPacket(p) => p.to_bytes(),
        }
    }
}

// ---- The connection ----------------------------------------------------------------------------
enum ServerState {
    ProtoExchange,
    KeyExchangeInit { client_identification: Vec<u8> },
    DhKeyInit {
        client_identification: Vec<u8>,
        client_kexinit: Vec<u8>,
        server_kexinit: Vec<u8>,
        kex_algorithm: KexAlgorithm,
        server_host_key_algorithm: usize,
        encryption_client_to_server: EncryptionAlgorithm,
        encryption_server_to_client: EncryptionAlgorithm,
    },
    WaitingForKeyExchange {
        client_identification: Vec<u8>,
        client_kexinit: Vec<u8>,
        server_kexinit: Vec<u8>,
        kex_algorithm: KexAlgorithm,
        server_host_key_algorithm: usize,
        encryption_client_to_server: EncryptionAlgorithm,
        encryption_server_to_client: EncryptionAlgorithm,
        client_ephemeral_public_key: Vec<u8>,
    },
    NewKeys {
        hash: Vec<u8>,
        shared_secret: Vec<u8>,
        encryption_client_to_server: EncryptionAlgorithm,
        encryption_server_to_client: EncryptionAlgorithm,
    },
    ServiceRequest { session_id: Vec<u8>, may_send_extensions: bool },
    Open { session_id: Vec<u8> },
}

spec fn alg_bytes<T: AlgorithmName>(t: T) -> Seq<u8> {
    encode_utf8(t.name_view())
}

spec fn state_view(s: ServerState) -> StateView {
    match s {
        ServerState::ProtoExchange => StateView::ProtoExchange,
        ServerState::KeyExchangeInit { client_identification } => StateView::KeyExchangeInit {
            client_ident: client_identification@,
        },
        ServerState::DhKeyInit {
            client_identification,
            client_kexinit,
            server_kexinit,
            kex_algorithm,
            server_host_key_algorithm,
            encryption_client_to_server,
            encryption_server_to_client,
        } => StateView::DhKeyInit {
            client_ident: client_identification@,
            client_kexinit: client_kexinit@,
            server_kexinit: server_kexinit@,
            kex: alg_bytes(kex_algorithm),
            host_key: server_host_key_algorithm as int,
            enc_c2s: alg_bytes(encryption_client_to_server),
            enc_s2c: alg_bytes(encryption_server_to_client),
        },
        ServerState::WaitingForKeyExchange {
            client_identification,
            client_kexinit,
            server_kexinit,
            kex_algorithm,
            server_host_key_algorithm,
            encryption_client_to_server,
            encryption_server_to_client,
            client_ephemeral_public_key,
        } => StateView::WaitingForKeyExchange {
            client_ident: client_identification@,
            client_kexinit: client_kexinit@,
            server_kexinit: server_kexinit@,
            kex: alg_bytes(kex_algorithm),
            host_key: server_host_key_algorithm as int,
            enc_c2s: alg_bytes(encryption_client_to_server),
            enc_s2c: alg_bytes(encryption_server_to_client),
            client_eph: client_ephemeral_public_key@,
        },
        ServerState::NewKeys {
            hash,
            shared_secret,
            encryption_client_to_server,
            encryption_server_to_client,
        } => StateView::NewKeys {
            hash: hash@,
            shared_secret: shared_secret@,
            enc_c2s: alg_bytes(encryption_client_to_server),
            enc_s2c: alg_bytes(encryption_server_to_client),
        },
        ServerState::ServiceRequest { session_id, may_send_extensions } => StateView::ServiceRequest {
            session_id: session_id@,
            may_send_extensions,
        },
        ServerState::Open { session_id } => StateView::Open { session_id: session_id@ },
    }
}

/// Key material for both directions, `key || IV` each.
pub struct SessionKeys {
    pub client_to_server: Vec<u8>,
    pub server_to_client: Vec<u8>,
}

/// What the host needs to carry out the key exchange.
pub struct KeyExchangeParameters {
    pub client_ident: Vec<u8>,
    pub server_ident: Vec<u8>,
    pub client_kexinit: Vec<u8>,
    pub server_kexinit: Vec<u8>,
    pub eph_client_public_key: Vec<u8>,
    pub server_host_key_algorithm: HostKeySigningAlgorithm,
    pub kex_algorithm: KexAlgorithm,
}

/// The outcome of the key exchange, with the host key's signature over the hash.
pub struct KeyExchangeResponse {
    pub hash: Vec<u8>,
    pub server_ephemeral_public_key: Vec<u8>,
    pub shared_secret: Vec<u8>,
    /// The signature blob over `hash`.
    pub signature: EncodedSshSignature,
}

/// A signature blob as it stands on the wire: `string format || string signature`.
pub struct EncodedSshSignature(pub Vec<u8>);

pub struct ServerConnection {
    state: ServerState,
    ident_parser: ProtocolIdentParser,
    packet_transport: PacketTransport,
    outgoing: VecDeque<Msg>,
    next_send_seq_nr: u64,
    config: ServerConfig,
    cookie: [u8; 16],
    plaintext_packets: VecDeque<Packet>,
    keys: Option<SessionKeys>,
}

impl View for ServerConnection {
    type V = ConnView;

    closed spec fn view(&self) -> ConnView {
        ConnView {
            state: state_view(self.state),
            ident_line: self.ident_parser.line_view(),
            gathered: self.packet_transport.gathered(),
            recv_seq: self.packet_transport.recv_seq(),
            send_seq: self.next_send_seq_nr,
            outbox: self.outgoing@.map_values(|m: Msg| m@),
            plaintext: self.plaintext_packets@.map_values(|p: Packet| p.payload@),
            keys: match self.keys {
                Some(k) => Some(SessionKeysView { client_to_server: k.client_to_server@, server_to_client: k.server_to_client@ }),
                None => None,
            },
            server_ident: self.config.server_identification@,
            host_keys: host_keys_view(self.config.host_keys@),
            cookie: self.cookie@,
        }
    }
}

/// Facts of every reachable state: the chosen host key exists, and the chosen
/// ciphers are ours.
pub open spec fn conn_wf(s: ConnView) -> bool {
    &&& 2 <= s.server_ident.len() <= u32::MAX
    &&& forall|i: int|
        0 <= i < s.host_keys.len() ==> (#[trigger] s.host_keys[i]).0.len() <= u32::MAX && s.host_keys[i].1.len()
            <= u32::MAX
    &&& match s.state {
        StateView::DhKeyInit { host_key, enc_c2s, enc_s2c, .. } => 0 <= host_key < s.host_keys.len(),
        StateView::WaitingForKeyExchange { host_key, .. } => 0 <= host_key < s.host_keys.len(),
        _ => true,
    }
}

impl ServerConnection {
    pub closed spec fn wf(&self) -> bool {
        &&& self.inv()
        &&& self.packet_transport.pending().len() == 0
    }

    closed spec fn inv(&self) -> bool {
        &&& self.packet_transport.wf()
        &&& conn_wf(self@)
        &&& self.config.wf()
        &&& self.config.host_keys@.len() == self@.host_keys.len()
        &&& match self.state {
            ServerState::NewKeys { shared_secret, encryption_client_to_server, encryption_server_to_client, .. } =>
                shared_secret@.len() < u32::MAX && enc_ok(encryption_client_to_server) && enc_ok(encryption_server_to_client),
            ServerState::DhKeyInit { encryption_client_to_server, encryption_server_to_client, .. } =>
                enc_ok(encryption_client_to_server) && enc_ok(encryption_server_to_client),
            ServerState::WaitingForKeyExchange { encryption_client_to_server, encryption_server_to_client, .. } =>
                enc_ok(encryption_client_to_server) && enc_ok(encryption_server_to_client),
            _ => true,
        }
    }

    /// A connection that has not yet seen a byte. `cookie` is the random cookie
    /// for our KEXINIT.
    pub fn new(config: ServerConfig, cookie: [u8; 16]) -> (r: Self)
        requires
            config.wf(),
        ensures
            r.wf(),
            r@.state is ProtoExchange,
            r@.ident_line.len() == 0,
            r@.gathered.len() == 0,
            r@.recv_seq == 0,
            r@.send_seq == 0,
            r@.outbox.len() == 0,
            r@.plaintext.len() == 0,
            r@.keys is None,
            r@.server_ident == config.server_identification@,
            r@.host_keys == host_keys_view(config.host_keys@),
            r@.cookie == cookie@,
    {
        let r = ServerConnection {
            state: ServerState::ProtoExchange,
            ident_parser: ProtocolIdentParser::new(),
            packet_transport: PacketTransport::new(),
            outgoing: VecDeque::new(),
            next_send_seq_nr: 0,
            config,
            cookie,
            plaintext_packets: VecDeque::new(),
            keys: None,
        };
        proof {
            assert forall|i: int| 0 <= i < r@.host_keys.len() implies (#[trigger] r@.host_keys[i]).0.len() <= u32::MAX && r@.host_keys[i].1.len() <= u32::MAX by {
                assert(r@.host_keys[i].0 == encode_utf8(r.config.host_keys@[i].algorithm@));
            }
        }
        r
    }
}

fn read_extensions(p: &[u8], pos: usize, count: u32) -> (r: bool)
    ensures
        r == take_extensions(p@, pos as int, count as nat) is Some,
{
    let mut at = pos;
    let mut i: u32 = 0;
    while i < count
        invariant
            i <= count,
            take_extensions(p@, pos as int, count as nat) == take_extensions(p@, at as int, (count - i) as nat),
        decreases count - i,
    {
        let Some((_, at1)) = read_utf8(p, at) else { return false };
        let Some((_, at2)) = read_string(p, at1) else { return false };
        at = at2;
        i = i + 1;
    }
    true
}

/// The index of the first host key named `name` (as UTF-8).
fn host_key_index(keys: &Vec<HostKeySigningAlgorithm>, name: &str) -> (r: usize)
    ensures
        r as int == crate::negotiation::first_index_of(
            keys@.map_values(|h: HostKeySigningAlgorithm| encode_utf8(h.algorithm@)),
            name.spec_bytes(),
        ),
{
    let ghost n = keys@.map_values(|h: HostKeySigningAlgorithm| encode_utf8(h.algorithm@));
    let mut i: usize = 0;
    assert(n.subrange(0, n.len() as int) =~= n);
    while i < keys.len()
        invariant
            i <= keys@.len(),
            n == keys@.map_values(|h: HostKeySigningAlgorithm| encode_utf8(h.algorithm@)),
            crate::negotiation::first_index_of(n, name.spec_bytes()) == i + crate::negotiation::first_index_of(
                n.subrange(i as int, n.len() as int),
                name.spec_bytes(),
            ),
        decreases keys@.len() - i,
    {
        let ghost rest = n.subrange(i as int, n.len() as int);
        assert(rest.drop_first() =~= n.subrange(i + 1, n.len() as int));
        if crate::wire::bytes_eq(keys[i].algorithm.as_bytes(), name.as_bytes()) {
            return i;
        }
        i = i + 1;
    }
    assert(n.subrange(i as int, n.len() as int) =~= Seq::<Seq<u8>>::empty());
    i
}

fn string_of(s: &'static str) -> (r: String)
    ensures
        r@ == s@,
{
    String::from_str(s)
}

impl ServerConnection {
    fn queue_packet(&mut self, p: Packet)
        ensures
            final(self)@ == queue(old(self)@, p.payload@),
            final(self).state == old(self).state,
            final(self).config == old(self).config,
            final(self).packet_transport == old(self).packet_transport,
    {
        let ghost m = MsgView::Packet(p.payload@);
        assert(seq_after(self.next_send_seq_nr, 0) == self.next_send_seq_nr);
        self.outgoing.push_back(Msg(MsgKind::PlaintextPacket(p)));
        self.next_send_seq_nr = self.next_send_seq_nr.wrapping_add(1);
        assert(self@.outbox =~= old(self)@.outbox.push(m));
    }

    fn take_state(&mut self) -> (r: ServerState)
        ensures
            r == old(self).state,
            final(self).state is ProtoExchange,
            final(self).config == old(self).config,
            final(self).packet_transport == old(self).packet_transport,
            final(self).outgoing == old(self).outgoing,
            final(self).next_send_seq_nr == old(self).next_send_seq_nr,
            final(self).ident_parser == old(self).ident_parser,
            final(self).plaintext_packets == old(self).plaintext_packets,
            final(self).keys == old(self).keys,
            final(self).cookie == old(self).cookie,
    {
        let mut st = ServerState::ProtoExchange;
        std::mem::swap(&mut st, &mut self.state);
        st
    }
}

/// `find` picks an entry of our own list.
proof fn lemma_found_in_list(mine: Seq<Seq<u8>>, peer: Seq<Seq<u8>>)
    requires
        first_common(peer, mine) is Some,
    ensures
        0 <= crate::negotiation::first_index_of(mine, first_common(peer, mine)->0) < mine.len(),
        mine[crate::negotiation::first_index_of(mine, first_common(peer, mine)->0)] == first_common(peer, mine)->0,
{
    crate::negotiation::lemma_first_common(peer, mine);
    crate::negotiation::lemma_first_index_of(mine, first_common(peer, mine)->0);
}

fn negotiate_kex(list: &str) -> (r: Option<KexAlgorithm>)
    ensures
        match chosen_from(list@, kex_names()) {
            Some(name) => r matches Some(a) && alg_bytes(a) == name && a.name_view().len() <= 1000,
            None => r is None,
        },
{
    let neg = AlgorithmNegotiation {
        supported: vec![KexAlgorithm::Curve25519Sha256, KexAlgorithm::EcdhSha2Nistp256],
    };
    assert(neg.name_bytes() =~= kex_names());
    proof {
        lemma_names_short();
        reveal(chosen_from);
    }
    match neg.find(false, list) {
        Ok(a) => Some(a),
        Err(_) => None,
    }
}

fn negotiate_encryption(list: &str) -> (r: Option<EncryptionAlgorithm>)
    ensures
        match chosen_from(list@, encryption_names()) {
            Some(name) => r matches Some(a) && alg_bytes(a) == name && enc_ok(a),
            None => r is None,
        },
{
    let neg = AlgorithmNegotiation { supported: vec![chacha20_poly1305(), aes256_gcm()] };
    assert(neg.name_bytes() =~= encryption_names());
    let ghost supported = neg.supported@;
    proof {
        reveal(chosen_from);
        if first_common(split_commas(encode_utf8(list@)), encryption_names()) is Some {
            lemma_found_in_list(encryption_names(), split_commas(encode_utf8(list@)));
        }
    }
    match neg.find(false, list) {
        Ok(a) => Some(a),
        Err(_) => None,
    }
}

/// Negotiates among names of our own, each fitting a 32-bit length field.
fn negotiate_names(supported: Vec<&'static str>, list: &str) -> (r: Option<&'static str>)
    requires
        forall|i: int| 0 <= i < supported@.len() ==> encode_utf8((#[trigger] supported@[i])@).len() <= u32::MAX,
    ensures
        ({
            let mine = supported@.map_values(|t: &'static str| encode_utf8(t@));
            match chosen_from(list@, mine) {
                Some(name) => r matches Some(a) && encode_utf8(a@) == name && encode_utf8(a@).len() <= u32::MAX
                    && 0 <= crate::negotiation::first_index_of(mine, name) < mine.len()
                    && a == supported@[crate::negotiation::first_index_of(mine, name)],
                None => r is None,
            }
        }),
{
    let neg = AlgorithmNegotiation { supported };
    let ghost mine = supported@.map_values(|t: &'static str| encode_utf8(t@));
    assert(neg.name_bytes() =~= mine);
    proof {
        reveal(chosen_from);
        if first_common(split_commas(encode_utf8(list@)), mine) is Some {
            lemma_found_in_list(mine, split_commas(encode_utf8(list@)));
        }
    }
    match neg.find(false, list) {
        Ok(a) => Some(a),
        Err(_) => None,
    }
}

fn mac_list() -> (r: Vec<&'static str>)
    ensures
        r@.map_values(|t: &'static str| encode_utf8(t@)) == mac_names(),
        forall|i: int| 0 <= i < r@.len() ==> encode_utf8((#[trigger] r@[i])@).len() <= u32::MAX,
{
    let r = vec!["hmac-sha2-256", "hmac-sha2-256-etm@openssh.com"];
    proof {
        lemma_names_short();
        lemma_encode_len("hmac-sha2-256"@);
        lemma_encode_len("hmac-sha2-256-etm@openssh.com"@);
    }
    assert(r@.map_values(|t: &'static str| encode_utf8(t@)) =~= mac_names());
    r
}

fn compression_list() -> (r: Vec<&'static str>)
    ensures
        r@.map_values(|t: &'static str| encode_utf8(t@)) == compression_names(),
        forall|i: int| 0 <= i < r@.len() ==> encode_utf8((#[trigger] r@[i])@).len() <= u32::MAX,
{
    let r = vec!["none"];
    proof {
        lemma_names_short();
        lemma_encode_len("none"@);
    }
    assert(r@.map_values(|t: &'static str| encode_utf8(t@)) =~= compression_names());
    r
}

/// Our KEXINIT packet for the chosen algorithms.
fn build_server_kexinit(cookie: [u8; 16], n: &Negotiated) -> (r: Vec<u8>)
    requires
        n.kex.name_view().len() <= 1000,
        encode_utf8(n.host_key@).len() <= u32::MAX,
        enc_ok(n.enc_c2s),
        enc_ok(n.enc_s2c),
        encode_utf8(n.mac_c2s@).len() <= u32::MAX,
        encode_utf8(n.mac_s2c@).len() <= u32::MAX,
        encode_utf8(n.comp_c2s@).len() <= u32::MAX,
        encode_utf8(n.comp_s2c@).len() <= u32::MAX,
    ensures
        r@ == our_kexinit(cookie@, negotiated_names(*n)),
{
    proof {
        lemma_names_short();
        vstd::utf8::encode_utf8_decode_utf8(n.kex.name_view());
        vstd::utf8::encode_utf8_decode_utf8(n.host_key@);
        vstd::utf8::encode_utf8_decode_utf8(n.enc_c2s.name@);
        vstd::utf8::encode_utf8_decode_utf8(n.enc_s2c.name@);
        vstd::utf8::encode_utf8_decode_utf8(n.mac_c2s@);
        vstd::utf8::encode_utf8_decode_utf8(n.mac_s2c@);
        vstd::utf8::encode_utf8_decode_utf8(n.comp_c2s@);
        vstd::utf8::encode_utf8_decode_utf8(n.comp_s2c@);
    }
    let mut kex_list = string_of(n.kex.name());
    kex_list.append(",ext-info-s");
    let server = KeyExchangeInitPacket {
        cookie,
        kex_algorithms: kex_list,
        server_host_key_algorithms: string_of(n.host_key),
        encryption_algorithms_client_to_server: string_of(n.enc_c2s.name),
        encryption_algorithms_server_to_client: string_of(n.enc_s2c.name),
        mac_algorithms_client_to_server: string_of(n.mac_c2s),
        mac_algorithms_server_to_client: string_of(n.mac_s2c),
        compression_algorithms_client_to_server: string_of(n.comp_c2s),
        compression_algorithms_server_to_client: string_of(n.comp_s2c),
        languages_client_to_server: String::new(),
        languages_server_to_client: String::new(),
        first_kex_packet_follows: false,
    };
    proof {
        assert forall|j: int| 0 <= j < server@.name_lists.len() implies encode_utf8(
            #[trigger] server@.name_lists[j],
        ).len() <= u32::MAX by {
            lemma_encode_len(server@.name_lists[j]);
        }
        let names = negotiated_names(*n);
        assert(server@.name_lists =~= server_kexinit(
            cookie@, names[0], names[1], names[2], names[3], names[4], names[5], names[6], names[7],
        ).name_lists);
        reveal(our_kexinit);
    }
    server.to_bytes()
}

/// The algorithms chosen by a negotiation.
struct Negotiated {
    kex: KexAlgorithm,
    host_key: &'static str,
    enc_c2s: EncryptionAlgorithm,
    enc_s2c: EncryptionAlgorithm,
    mac_c2s: &'static str,
    mac_s2c: &'static str,
    comp_c2s: &'static str,
    comp_s2c: &'static str,
}

spec fn negotiated_names(n: Negotiated) -> Seq<Seq<u8>> {
    seq![
        alg_bytes(n.kex),
        encode_utf8(n.host_key@),
        alg_bytes(n.enc_c2s),
        alg_bytes(n.enc_s2c),
        encode_utf8(n.mac_c2s@),
        encode_utf8(n.mac_s2c@),
        encode_utf8(n.comp_c2s@),
        encode_utf8(n.comp_s2c@),
    ]
}

fn negotiate_all(kex: &KeyExchangeInitPacket, host_names: Vec<&'static str>) -> (r: Option<Negotiated>)
    requires
        forall|i: int| 0 <= i < host_names@.len() ==> encode_utf8((#[trigger] host_names@[i])@).len() <= u32::MAX,
    ensures
        ({
            let hosts = host_names@.map_values(|t: &'static str| encode_utf8(t@));
            match negotiation_of(kex@, hosts) {
                Some(names) => r matches Some(n) && negotiated_names(n) == names
                    && 0 <= crate::negotiation::first_index_of(hosts, names[1]) < hosts.len()
                    && n.kex.name_view().len() <= 1000 && encode_utf8(n.host_key@).len() <= u32::MAX
                    && enc_ok(n.enc_c2s) && enc_ok(n.enc_s2c)
                    && encode_utf8(n.mac_c2s@).len() <= u32::MAX && encode_utf8(n.mac_s2c@).len() <= u32::MAX
                    && encode_utf8(n.comp_c2s@).len() <= u32::MAX && encode_utf8(n.comp_s2c@).len() <= u32::MAX,
                None => r is None,
            }
        }),
{
    let ghost k = kex@;
    let ghost hosts = host_names@.map_values(|t: &'static str| encode_utf8(t@));
    let kex_alg = negotiate_kex(kex.kex_algorithms.as_str());
    let hk = negotiate_names(host_names, kex.server_host_key_algorithms.as_str());
    let ec = negotiate_encryption(kex.encryption_algorithms_client_to_server.as_str());
    let es = negotiate_encryption(kex.encryption_algorithms_server_to_client.as_str());
    let mc = negotiate_names(mac_list(), kex.mac_algorithms_client_to_server.as_str());
    let ms = negotiate_names(mac_list(), kex.mac_algorithms_server_to_client.as_str());
    let cc = negotiate_names(compression_list(), kex.compression_algorithms_client_to_server.as_str());
    let cs = negotiate_names(compression_list(), kex.compression_algorithms_server_to_client.as_str());
    let ghost chosen = seq![
        chosen_from(k.name_lists[0], kex_names()),
        chosen_from(k.name_lists[1], hosts),
        chosen_from(k.name_lists[2], encryption_names()),
        chosen_from(k.name_lists[3], encryption_names()),
        chosen_from(k.name_lists[4], mac_names()),
        chosen_from(k.name_lists[5], mac_names()),
        chosen_from(k.name_lists[6], compression_names()),
        chosen_from(k.name_lists[7], compression_names()),
    ];
    match (kex_alg, hk, ec, es, mc, ms, cc, cs) {
        (Some(a), Some(b), Some(c), Some(d), Some(e), Some(f), Some(g), Some(h)) => {
            let n = Negotiated {
                kex: a,
                host_key: b,
                enc_c2s: c,
                enc_s2c: d,
                mac_c2s: e,
                mac_s2c: f,
                comp_c2s: g,
                comp_s2c: h,
            };
            assert(forall|i: int| 0 <= i < 8 ==> #[trigger] chosen[i] is Some);
            assert(negotiated_names(n) =~= chosen.map_values(|c: Option<Seq<u8>>| c->0));
            Some(n)
        },
        _ => {
            assert(!(forall|i: int| 0 <= i < 8 ==> #[trigger] chosen[i] is Some)) by {
                if kex_alg is None { assert(chosen[0] is None); }
                else if hk is None { assert(chosen[1] is None); }
                else if ec is None { assert(chosen[2] is None); }
                else if es is None { assert(chosen[3] is None); }
                else if mc is None { assert(chosen[4] is None); }
                else if ms is None { assert(chosen[5] is None); }
                else if cc is None { assert(chosen[6] is None); }
                else { assert(chosen[7] is None); }
            }
            None
        },
    }
}

/// The algorithm names of the host keys, in order.
fn host_key_names_of(keys: &Vec<HostKeySigningAlgorithm>) -> (r: Vec<&'static str>)
    ensures
        r@.map_values(|t: &'static str| encode_utf8(t@)) == keys@.map_values(
            |h: HostKeySigningAlgorithm| encode_utf8(h.algorithm@),
        ),
        r@.len() == keys@.len(),
        forall|j: int| 0 <= j < keys@.len() ==> #[trigger] r@[j] == keys@[j].algorithm,
{
    let mut host_names: Vec<&'static str> = Vec::new();
    let mut i: usize = 0;
    while i < keys.len()
        invariant
            i <= keys@.len(),
            host_names@.len() == i,
            forall|j: int| 0 <= j < i ==> #[trigger] host_names@[j] == keys@[j].algorithm,
        decreases keys@.len() - i,
    {
        host_names.push(keys[i].algorithm);
        i = i + 1;
    }
    assert(host_names@.map_values(|t: &'static str| encode_utf8(t@)) =~= keys@.map_values(
        |h: HostKeySigningAlgorithm| encode_utf8(h.algorithm@),
    ));
    host_names
}

pub open spec fn host_keys_view(keys: Seq<HostKeySigningAlgorithm>) -> Seq<(Seq<u8>, Seq<u8>)> {
    keys.map_values(|h: HostKeySigningAlgorithm| (encode_utf8(h.algorithm@), h.public_key@))
}

proof fn lemma_host_key_names(keys: Seq<HostKeySigningAlgorithm>)
    ensures
        host_keys_view(keys).map_values(|h: (Seq<u8>, Seq<u8>)| h.0) == keys.map_values(
            |h: HostKeySigningAlgorithm| encode_utf8(h.algorithm@),
        ),
{
    assert(host_keys_view(keys).map_values(|h: (Seq<u8>, Seq<u8>)| h.0) =~= keys.map_values(
        |h: HostKeySigningAlgorithm| encode_utf8(h.algorithm@),
    ));
}

impl ServerConnection {
    #[verifier::rlimit(100)]
    fn handle_kexinit(&mut self, client_identification: Vec<u8>, payload: &[u8]) -> (r: Result<(), TransportError>)
        requires
            old(self).config.wf(),
            conn_wf(old(self)@),
            old(self).config.host_keys@.len() == old(self)@.host_keys.len(),
        ensures
            match kexinit_step(old(self)@, client_identification@, payload@) {
                Ok(v) => r is Ok && final(self)@ == v && final(self).config == old(self).config
                    && final(self).packet_transport == old(self).packet_transport
                    && conn_wf(final(self)@)
                    && (final(self).state matches ServerState::DhKeyInit { encryption_client_to_server, encryption_server_to_client, .. }
                        && enc_ok(encryption_client_to_server) && enc_ok(encryption_server_to_client)),
                Err(e) => r == Err::<(), TransportError>(e),
            },
    {
        proof {
            reveal(kexinit_step);
        }
        let ghost s0 = self@;
        let Some(kex) = KeyExchangeInitPacket::parse(payload) else {
            return Err(TransportError::Malformed);
        };
        let host_names = host_key_names_of(&self.config.host_keys);
        proof {
            lemma_host_key_names(self.config.host_keys@);
        }
        let Some(n) = negotiate_all(&kex, host_names) else {
            return Err(TransportError::NoCommonAlgorithm);
        };
        if kex.first_kex_packet_follows {
            return Err(TransportError::GuessedKexPacket);
        }
        let host_key = host_key_index(&self.config.host_keys, n.host_key);
        let ours = build_server_kexinit(self.cookie, &n);
        let ours_copy = slice_to_vec(ours.as_slice(), 0, ours.len());
        self.queue_packet(Packet { payload: ours });
        self.state = ServerState::DhKeyInit {
            client_identification,
            client_kexinit: slice_to_vec(payload, 0, payload.len()),
            server_kexinit: ours_copy,
            kex_algorithm: n.kex,
            server_host_key_algorithm: host_key,
            encryption_client_to_server: n.enc_c2s,
            encryption_server_to_client: n.enc_s2c,
        };
        proof {
            let names = negotiated_names(n);
            let k = kex@;
            assert(negotiation_of(k, host_key_names(s0)) == Some(names));
            let v = kexinit_step(s0, client_identification@, payload@)->Ok_0;
            assert(self@.outbox == v.outbox);
            assert(self@.send_seq == v.send_seq);
            assert(self@.state->DhKeyInit_client_kexinit == v.state->DhKeyInit_client_kexinit);
            assert(self@.state->DhKeyInit_server_kexinit == v.state->DhKeyInit_server_kexinit);
            assert(self@.state->DhKeyInit_host_key == v.state->DhKeyInit_host_key);
            assert(self@.state->DhKeyInit_kex == v.state->DhKeyInit_kex);
            assert(self@.state->DhKeyInit_client_ident == v.state->DhKeyInit_client_ident);
            assert(self@.state == v.state);
            assert(self@ == v);
        }
        Ok(())
    }
}

proof fn lemma_cipher_sizes(e: EncryptionAlgorithm)
    requires
        enc_ok(e),
    ensures
        cipher_sizes(alg_bytes(e)) == (e.key_size as nat, e.iv_size as nat),
{
    reveal_strlit("chacha20-poly1305@openssh.com");
    reveal_strlit("aes256-gcm@openssh.com");
    vstd::utf8::is_ascii_chars_encode_utf8("chacha20-poly1305@openssh.com"@);
    vstd::utf8::is_ascii_chars_encode_utf8("aes256-gcm@openssh.com"@);
}

fn derive_session_keys(h: &[u8], k: &[u8], c2s: EncryptionAlgorithm, s2c: EncryptionAlgorithm) -> (r: SessionKeys)
    requires
        k@.len() < u32::MAX,
        enc_ok(c2s),
        enc_ok(s2c),
    ensures
        r.client_to_server@ == session_keys(h@, k@, h@, alg_bytes(c2s), alg_bytes(s2c)).client_to_server,
        r.server_to_client@ == session_keys(h@, k@, h@, alg_bytes(c2s), alg_bytes(s2c)).server_to_client,
{
    proof {
        lemma_cipher_sizes(c2s);
        lemma_cipher_sizes(s2c);
    }
    let mut client_to_server = crate::kex::derive_key(k, h, 67, h, c2s.key_size);
    let mut iv = crate::kex::derive_key(k, h, 65, h, c2s.iv_size);
    client_to_server.append(&mut iv);
    let mut server_to_client = crate::kex::derive_key(k, h, 68, h, s2c.key_size);
    let mut iv2 = crate::kex::derive_key(k, h, 66, h, s2c.iv_size);
    server_to_client.append(&mut iv2);
    SessionKeys { client_to_server, server_to_client }
}

/// SERVICE_ACCEPT for `ssh-userauth`.
fn service_accept() -> (r: Packet)
    ensures
        r.payload@ == seq![numbers::SSH_MSG_SERVICE_ACCEPT] + string_bytes(userauth_name()),
{
    proof {
        lemma_names_short();
        lemma_encode_len("ssh-userauth"@);
    }
    let mut out: Vec<u8> = Vec::new();
    out.push(numbers::SSH_MSG_SERVICE_ACCEPT);
    crate::wire::write_string(&mut out, "ssh-userauth".as_bytes());
    Packet { payload: out }
}

fn global_exec(p: &[u8]) -> (r: Option<Result<(), TransportError>>)
    ensures
        r == global_step(p@),
{
    if p.len() == 0 {
        return Some(Err(TransportError::Malformed));
    }
    let t = p[0];
    if t == numbers::SSH_MSG_DISCONNECT {
        let Some((_, at1)) = read_u32(p, 1) else { return Some(Err(TransportError::Malformed)) };
        let Some((_, at2)) = read_utf8(p, at1) else { return Some(Err(TransportError::Malformed)) };
        let Some(_) = read_utf8(p, at2) else { return Some(Err(TransportError::Malformed)) };
        return Some(Err(TransportError::Disconnect));
    }
    if t == numbers::SSH_MSG_IGNORE {
        return Some(
            match read_string(p, 1) {
                Some(_) => Ok(()),
                None => Err(TransportError::Malformed),
            },
        );
    }
    if t == numbers::SSH_MSG_DEBUG {
        let Some((_, at1)) = read_bool(p, 1) else { return Some(Err(TransportError::Malformed)) };
        let Some((_, at2)) = read_utf8(p, at1) else { return Some(Err(TransportError::Malformed)) };
        let Some(_) = read_utf8(p, at2) else { return Some(Err(TransportError::Malformed)) };
        return Some(Ok(()));
    }
    None
}

impl ServerConnection {
    fn handle_ecdh_init(&mut self, p: &[u8]) -> (r: Result<(), TransportError>)
        requires
            old(self).inv(),
            old(self)@.state is DhKeyInit,
        ensures
            match ecdh_init_step(old(self)@, p@) {
                Ok(v) => r is Ok && final(self)@ == v && final(self).inv()
                    && final(self).packet_transport == old(self).packet_transport,
                Err(e) => r == Err::<(), TransportError>(e),
            },
    {
        proof {
            reveal(ecdh_init_step);
        }
        let Some(dh) = KeyExchangeEcDhInitPacket::parse(p) else { return Err(TransportError::Malformed) };
        let st = self.take_state();
        match st {
            ServerState::DhKeyInit {
                client_identification,
                client_kexinit,
                server_kexinit,
                kex_algorithm,
                server_host_key_algorithm,
                encryption_client_to_server,
                encryption_server_to_client,
            } => {
                self.state = ServerState::WaitingForKeyExchange {
                    client_identification,
                    client_kexinit,
                    server_kexinit,
                    kex_algorithm,
                    server_host_key_algorithm,
                    encryption_client_to_server,
                    encryption_server_to_client,
                    client_ephemeral_public_key: dh.qc,
                };
                Ok(())
            },
            _ => {
                assert(false);
                Err(TransportError::UnexpectedPacket)
            },
        }
    }

    fn handle_newkeys(&mut self, p: &[u8]) -> (r: Result<(), TransportError>)
        requires
            old(self).inv(),
            old(self)@.state is NewKeys,
        ensures
            match newkeys_step(old(self)@, p@) {
                Ok(v) => r is Ok && final(self)@ == v && final(self).inv()
                    && final(self).packet_transport == old(self).packet_transport,
                Err(e) => r == Err::<(), TransportError>(e),
            },
    {
        proof {
            reveal(newkeys_step);
        }
        if !(p.len() == 1 && p[0] == numbers::SSH_MSG_NEWKEYS) {
            assert(p@ != seq![numbers::SSH_MSG_NEWKEYS]);
            return Err(TransportError::UnexpectedPacket);
        }
        assert(p@ =~= seq![numbers::SSH_MSG_NEWKEYS]);
        let st = self.take_state();
        match st {
            ServerState::NewKeys { hash, shared_secret, encryption_client_to_server, encryption_server_to_client } => {
                let nk: Vec<u8> = vec![numbers::SSH_MSG_NEWKEYS];
                assert(nk@ =~= seq![numbers::SSH_MSG_NEWKEYS]);
                self.queue_packet(Packet { payload: nk });
                let keys = derive_session_keys(
                    hash.as_slice(),
                    shared_secret.as_slice(),
                    encryption_client_to_server,
                    encryption_server_to_client,
                );
                self.keys = Some(keys);
                self.state = ServerState::ServiceRequest { session_id: hash, may_send_extensions: true };
                proof {
                    let v = newkeys_step(old(self)@, p@)->Ok_0;
                    assert(self@.keys == v.keys);
                    assert(self@.outbox == v.outbox);
                    assert(self@.state == v.state);
                }
                Ok(())
            },
            _ => {
                assert(false);
                Err(TransportError::UnexpectedPacket)
            },
        }
    }

    fn handle_service(&mut self, p: &[u8]) -> (r: Result<(), TransportError>)
        requires
            old(self).inv(),
            old(self)@.state is ServiceRequest,
            p@.len() > 0,
        ensures
            match service_step(old(self)@, p@) {
                Ok(v) => r is Ok && final(self)@ == v && final(self).inv()
                    && final(self).packet_transport == old(self).packet_transport,
                Err(e) => r == Err::<(), TransportError>(e),
            },
    {
        proof {
            reveal(service_step);
        }
        let t = p[0];
        let st = self.take_state();
        match st {
            ServerState::ServiceRequest { session_id, may_send_extensions } => {
                if t == numbers::SSH_MSG_SERVICE_REQUEST {
                    let Some((service, _)) = read_utf8(p, 1) else { return Err(TransportError::Malformed) };
                    if !crate::wire::bytes_eq(service.as_str().as_bytes(), "ssh-userauth".as_bytes()) {
                        return Err(TransportError::UnsupportedService);
                    }
                    self.queue_packet(service_accept());
                    self.state = ServerState::Open { session_id };
                    Ok(())
                } else if t == numbers::SSH_MSG_EXT_INFO && may_send_extensions {
                    let Some((count, at1)) = read_u32(p, 1) else { return Err(TransportError::Malformed) };
                    if !read_extensions(p, at1, count) {
                        return Err(TransportError::Malformed);
                    }
                    self.state = ServerState::ServiceRequest { session_id, may_send_extensions: false };
                    Ok(())
                } else {
                    Err(TransportError::UnexpectedPacket)
                }
            },
            _ => {
                assert(false);
                Err(TransportError::UnexpectedPacket)
            },
        }
    }

    /// Handles one packet in the current state.
    #[verifier::rlimit(100)]
    fn handle_packet(&mut self, packet: Packet) -> (r: Result<(), TransportError>)
        requires
            old(self).inv(),
        ensures
            match packet_step(old(self)@, packet.payload@) {
                Ok(v) => r is Ok && final(self)@ == v && final(self).inv()
                    && final(self).packet_transport == old(self).packet_transport,
                Err(e) => r == Err::<(), TransportError>(e),
            },
    {
        proof {
            reveal(packet_step);
        }
        let ghost s0 = self@;
        let ghost pv = packet.payload@;
        match global_exec(packet.payload.as_slice()) {
            Some(r) => {
                return r;
            },
            None => {},
        }
        match &self.state {
            ServerState::ProtoExchange => Err(TransportError::UnexpectedPacket),
            ServerState::KeyExchangeInit { .. } => {
                let st = self.take_state();
                match st {
                    ServerState::KeyExchangeInit { client_identification } => {
                        let ghost s1 = self@;
                        assert(kexinit_step(s0, client_identification@, pv) == kexinit_step(s1, client_identification@, pv)) by {
                            reveal(kexinit_step);
                            match kexinit_step(s0, client_identification@, pv) {
                                Ok(v0) => {
                                    let v1 = kexinit_step(s1, client_identification@, pv)->Ok_0;
                                    assert(v0.outbox == v1.outbox);
                                    assert(v0 == v1);
                                },
                                Err(_) => {},
                            }
                        }
                        self.handle_kexinit(client_identification, packet.payload.as_slice())
                    },
                    _ => {
                        assert(false);
                        Err(TransportError::UnexpectedPacket)
                    },
                }
            },
            ServerState::DhKeyInit { .. } => {
                assert(packet_step(s0, pv) == ecdh_init_step(s0, pv));
                self.handle_ecdh_init(packet.payload.as_slice())
            },
            ServerState::WaitingForKeyExchange { .. } => Err(TransportError::UnexpectedPacket),
            ServerState::NewKeys { .. } => {
                assert(packet_step(s0, pv) == newkeys_step(s0, pv));
                self.handle_newkeys(packet.payload.as_slice())
            },
            ServerState::ServiceRequest { .. } => {
                assert(packet_step(s0, pv) == service_step(s0, pv));
                self.handle_service(packet.payload.as_slice())
            },
            ServerState::Open { .. } => {
                self.plaintext_packets.push_back(packet);
                assert(self@.plaintext =~= s0.plaintext.push(pv));
                assert(self@ == packet_step(s0, pv)->Ok_0);
                Ok(())
            },
        }
    }
}

impl ProtocolIdentParser {
    /// A copy of the line held so far.
    pub fn line(&self) -> (r: Vec<u8>)
        ensures
            r@ == self.line_view(),
    {
        slice_to_vec(self.line.as_slice(), 0, self.line.len())
    }
}

/// The host key exchange replaced the waiting state by NEWKEYS.
pub open spec fn key_exchange_step(
    s: ConnView,
    hash: Seq<u8>,
    qs: Seq<u8>,
    shared_secret: Seq<u8>,
    signature: Seq<u8>,
) -> ConnView {
    match s.state {
        StateView::WaitingForKeyExchange { host_key, enc_c2s, enc_s2c, .. } => ConnView {
            state: StateView::NewKeys { hash, shared_secret, enc_c2s, enc_s2c },
            ..queue(s, msg_kex_ecdh_reply(s.host_keys[host_key].1, qs, signature))
        },
        _ => s,
    }
}

/// What the host computes for the key exchange, before signing.
pub struct KeyExchangeOutcome {
    /// The exchange hash `H`.
    pub hash: Vec<u8>,
    /// `Q_S`
    pub server_ephemeral_public_key: Vec<u8>,
    /// `K`
    pub shared_secret: Vec<u8>,
}

/// Runs our side of the ECDH exchange for `params` with 32 random bytes for
/// our ephemeral secret, and computes the exchange hash. Signing the hash is
/// left to the holder of the host key.
pub fn do_key_exchange(params: &KeyExchangeParameters, random: [u8; 32]) -> (r: Result<KeyExchangeOutcome, KexError>)
    requires
        2 <= params.client_ident@.len() <= u32::MAX,
        2 <= params.server_ident@.len() <= u32::MAX,
        params.client_kexinit@.len() <= u32::MAX,
        params.server_kexinit@.len() <= u32::MAX,
        params.server_host_key_algorithm.public_key@.len() <= u32::MAX,
        params.eph_client_public_key@.len() <= u32::MAX,
    ensures
        match crate::kex::generate_spec(params.kex_algorithm, random@) {
            Err(e) => r == Err::<KeyExchangeOutcome, KexError>(e),
            Ok(ours) => match crate::kex::exchange_spec(params.kex_algorithm, ours.1, params.eph_client_public_key@) {
                Err(e) => r == Err::<KeyExchangeOutcome, KexError>(e),
                Ok(k) => r matches Ok(out) && out.server_ephemeral_public_key@ == ours.0
                    && out.shared_secret@ == k && out.shared_secret@.len() == 32
                    && out.server_ephemeral_public_key@.len() <= 65 && out.hash@ == sha256_of(
                    exchange_hash_input(
                        params.client_ident@,
                        params.server_ident@,
                        params.client_kexinit@,
                        params.server_kexinit@,
                        params.server_host_key_algorithm.public_key@,
                        params.eph_client_public_key@,
                        ours.0,
                        k,
                    ),
                ),
            },
        },
{
    let secret = KeyExchangeSecret::generate(params.kex_algorithm, random)?;
    let shared_secret = secret.exchange(params.eph_client_public_key.as_slice())?;
    let hash = crate::kex::key_exchange_hash(
        params.client_ident.as_slice(),
        params.server_ident.as_slice(),
        params.client_kexinit.as_slice(),
        params.server_kexinit.as_slice(),
        params.server_host_key_algorithm.public_key.as_slice(),
        params.eph_client_public_key.as_slice(),
        secret.pubkey.as_slice(),
        shared_secret.as_slice(),
    );
    Ok(KeyExchangeOutcome { hash, server_ephemeral_public_key: secret.pubkey, shared_secret })
}

impl ServerConnection {
    fn recv_stream(&mut self, bytes: &[u8]) -> (r: Result<(), TransportError>)
        requires
            old(self).wf(),
        ensures
            match stream_step(old(self)@, bytes@) {
                Ok(v) => r is Ok && final(self)@ == v && final(self).wf(),
                Err(e) => r == Err::<(), TransportError>(e),
            },
    {
        match self.packet_transport.recv_bytes(bytes) {
            Err(e) => {
                return Err(TransportError::Framing(e));
            },
            Ok(()) => {},
        }
        let ghost target = stream_step(old(self)@, bytes@);
        loop
            invariant
                self.inv(),
                target == stream_step(old(self)@, bytes@),
                target == process_packets(self@, self.packet_transport.pending()),
            decreases self.packet_transport.pending().len(),
        {
            let ghost pending = self.packet_transport.pending();
            match self.packet_transport.next_packet() {
                None => {
                    return Ok(());
                },
                Some(p) => {
                    match self.handle_packet(p) {
                        Err(e) => {
                            return Err(e);
                        },
                        Ok(()) => {},
                    }
                },
            }
        }
    }

    /// Takes bytes from the peer: the identification line first, then packets.
    /// An error is fatal to the connection.
    pub fn recv_bytes(&mut self, bytes: &[u8]) -> (r: Result<(), TransportError>)
        requires
            old(self).wf(),
        ensures
            match recv_step(old(self)@, bytes@) {
                Ok(v) => r is Ok && final(self)@ == v && final(self).wf(),
                Err(e) => r == Err::<(), TransportError>(e),
            },
    {
        if let ServerState::ProtoExchange = self.state {
            match self.ident_parser.recv_bytes(bytes) {
                None => {
                    assert(self@ == (ConnView { ident_line: ident_feed(old(self)@.ident_line, bytes@).0, ..old(self)@ }));
                    Ok(())
                },
                Some(n) => {
                    proof {
                        lemma_ident_feed_count(old(self)@.ident_line, bytes@);
                    }
                    let line = self.ident_parser.line();
                    let ident = slice_to_vec(
                        self.config.server_identification.as_slice(),
                        0,
                        self.config.server_identification.len(),
                    );
                    assert(ident@ =~= self.config.server_identification@);
                    let ghost m = MsgView::ProtocolInfo(ident@);
                    let ghost before = self@.outbox;
                    self.outgoing.push_back(Msg(MsgKind::ServerProtocolInfo(ident)));
                    assert(self@.outbox =~= before.push(m));
                    self.state = ServerState::KeyExchangeInit { client_identification: line };
                    let rest = vstd::slice::slice_subrange(bytes, n, bytes.len());
                    let ghost s0 = old(self)@;
                    let ghost l = ident_feed(s0.ident_line, bytes@).0;
                    assert(self@.ident_line == l);
                    assert(self@.state == StateView::KeyExchangeInit { client_ident: l });
                    assert(self@.outbox == s0.outbox.push(MsgView::ProtocolInfo(s0.server_ident)));
                    assert(self@ == (ConnView {
                        state: StateView::KeyExchangeInit { client_ident: l },
                        ident_line: l,
                        outbox: s0.outbox.push(MsgView::ProtocolInfo(s0.server_ident)),
                        ..s0
                    }));
                    self.recv_stream(rest)
                },
            }
        } else {
            self.recv_stream(bytes)
        }
    }

    pub fn is_open(&self) -> (r: Option<Vec<u8>>)
        ensures
            match self@.state {
                StateView::Open { session_id } => r matches Some(id) && id@ == session_id,
                _ => r is None,
            },
    {
        match &self.state {
            ServerState::Open { session_id } => Some(slice_to_vec(session_id.as_slice(), 0, session_id.len())),
            _ => None,
        }
    }

    /// What the host needs to carry out the key exchange, while we wait for it.
    pub fn is_waiting_on_key_exchange(&self) -> (r: Option<KeyExchangeParameters>)
        requires
            self.wf(),
        ensures
            match self@.state {
                StateView::WaitingForKeyExchange { client_ident, client_kexinit, server_kexinit, kex, host_key, client_eph, .. } =>
                    r matches Some(p) && p.client_ident@ == client_ident && p.server_ident@ == self@.server_ident
                    && p.client_kexinit@ == client_kexinit && p.server_kexinit@ == server_kexinit
                    && p.eph_client_public_key@ == client_eph
                    && encode_utf8(p.server_host_key_algorithm.algorithm@) == self@.host_keys[host_key].0
                    && p.server_host_key_algorithm.public_key@ == self@.host_keys[host_key].1
                    && encode_utf8(p.kex_algorithm.name_view()) == kex,
                _ => r is None,
            },
    {
        match &self.state {
            ServerState::WaitingForKeyExchange {
                client_identification,
                client_kexinit,
                server_kexinit,
                kex_algorithm,
                server_host_key_algorithm,
                client_ephemeral_public_key,
                ..
            } => {
                let hk = &self.config.host_keys[*server_host_key_algorithm];
                Some(
                    KeyExchangeParameters {
                        client_ident: slice_to_vec(client_identification.as_slice(), 0, client_identification.len()),
                        server_ident: slice_to_vec(
                            self.config.server_identification.as_slice(),
                            0,
                            self.config.server_identification.len(),
                        ),
                        client_kexinit: slice_to_vec(client_kexinit.as_slice(), 0, client_kexinit.len()),
                        server_kexinit: slice_to_vec(server_kexinit.as_slice(), 0, server_kexinit.len()),
                        eph_client_public_key: slice_to_vec(
                            client_ephemeral_public_key.as_slice(),
                            0,
                            client_ephemeral_public_key.len(),
                        ),
                        server_host_key_algorithm: HostKeySigningAlgorithm::new(hk.algorithm, hk.public_key()),
                        kex_algorithm: *kex_algorithm,
                    },
                )
            },
            _ => None,
        }
    }

    /// Sends KEX_ECDH_REPLY with the host's result and moves on to NEWKEYS.
    pub fn do_key_exchange(&mut self, response: KeyExchangeResponse)
        requires
            old(self).wf(),
            old(self)@.state is WaitingForKeyExchange,
            response.shared_secret@.len() < u32::MAX,
            response.server_ephemeral_public_key@.len() <= u32::MAX,
            response.signature.0@.len() <= u32::MAX,
        ensures
            final(self).wf(),
            final(self)@ == key_exchange_step(
                old(self)@,
                response.hash@,
                response.server_ephemeral_public_key@,
                response.shared_secret@,
                response.signature.0@,
            ),
    {
        let st = self.take_state();
        match st {
            ServerState::WaitingForKeyExchange {
                server_host_key_algorithm,
                encryption_client_to_server,
                encryption_server_to_client,
                ..
            } => {
                let packet = Packet::new_msg_kex_ecdh_reply(
                    self.config.host_keys[server_host_key_algorithm].public_key.as_slice(),
                    response.server_ephemeral_public_key.as_slice(),
                    response.signature.0.as_slice(),
                );
                self.queue_packet(packet);
                self.state = ServerState::NewKeys {
                    hash: response.hash,
                    shared_secret: response.shared_secret,
                    encryption_client_to_server,
                    encryption_server_to_client,
                };
            },
            _ => {
                assert(false);
            },
        }
    }

    /// Takes the oldest message to write.
    pub fn next_msg_to_send(&mut self) -> (r: Option<Msg>)
        requires
            old(self).wf(),
        ensures
            final(self).wf(),
            if old(self)@.outbox.len() > 0 {
                r matches Some(m) && m@ == old(self)@.outbox[0] && final(self)@ == (ConnView {
                    outbox: old(self)@.outbox.drop_first(),
                    ..old(self)@
                })
            } else {
                r is None && final(self)@ == old(self)@
            },
    {
        let r = self.outgoing.pop_front();
        assert(self@.outbox =~= if old(self)@.outbox.len() > 0 {
            old(self)@.outbox.drop_first()
        } else {
            old(self)@.outbox
        });
        r
    }

    /// Takes the oldest packet for the layers above.
    pub fn next_plaintext_packet(&mut self) -> (r: Option<Packet>)
        requires
            old(self).wf(),
        ensures
            final(self).wf(),
            if old(self)@.plaintext.len() > 0 {
                r matches Some(p) && p.payload@ == old(self)@.plaintext[0] && final(self)@ == (ConnView {
                    plaintext: old(self)@.plaintext.drop_first(),
                    ..old(self)@
                })
            } else {
                r is None && final(self)@ == old(self)@
            },
    {
        let r = self.plaintext_packets.pop_front();
        assert(self@.plaintext =~= if old(self)@.plaintext.len() > 0 {
            old(self)@.plaintext.drop_first()
        } else {
            old(self)@.plaintext
        });
        r
    }

    /// Queues a packet of the layers above.
    pub fn send_plaintext_packet(&mut self, packet: Packet)
        requires
            old(self).wf(),
        ensures
            final(self).wf(),
            final(self)@ == queue(old(self)@, packet.payload@),
    {
        self.queue_packet(packet);
    }
}

/// The algorithms we offer, most preferred first.
pub struct SupportedAlgorithms {
    pub key_exchange: AlgorithmNegotiation<KexAlgorithm>,
    pub hostkey_sign: AlgorithmNegotiation<HostKeySigningAlgorithm>,
    pub encryption_to_peer: AlgorithmNegotiation<EncryptionAlgorithm>,
    pub encryption_from_peer: AlgorithmNegotiation<EncryptionAlgorithm>,
    pub mac_to_peer: AlgorithmNegotiation<&'static str>,
    pub mac_from_peer: AlgorithmNegotiation<&'static str>,
    pub compression_to_peer: AlgorithmNegotiation<&'static str>,
    pub compression_from_peer: AlgorithmNegotiation<&'static str>,
}

impl SupportedAlgorithms {
    /// A secure default using elliptic curves and AEAD ciphers, with the given host keys.
    pub fn secure(host_keys: &[HostKeySigningAlgorithm]) -> (r: Self)
        ensures
            r.key_exchange.name_bytes() == kex_names(),
            r.hostkey_sign.name_bytes() == host_keys@.map_values(
                |h: HostKeySigningAlgorithm| encode_utf8(h.algorithm@),
            ),
            forall|i: int| 0 <= i < host_keys@.len() ==> (#[trigger] r.hostkey_sign.supported@[i]).public_key@
                == host_keys@[i].public_key@,
            r.encryption_to_peer.name_bytes() == encryption_names(),
            r.encryption_from_peer.name_bytes() == encryption_names(),
            r.mac_to_peer.name_bytes() == mac_names(),
            r.mac_from_peer.name_bytes() == mac_names(),
            r.compression_to_peer.name_bytes() == compression_names(),
            r.compression_from_peer.name_bytes() == compression_names(),
    {
        let mut keys: Vec<HostKeySigningAlgorithm> = Vec::new();
        let mut i: usize = 0;
        while i < host_keys.len()
            invariant
                i <= host_keys@.len(),
                keys@.len() == i,
                forall|j: int| 0 <= j < i ==> (#[trigger] keys@[j]).algorithm == host_keys@[j].algorithm
                    && keys@[j].public_key@ == host_keys@[j].public_key@,
            decreases host_keys@.len() - i,
        {
            keys.push(HostKeySigningAlgorithm::new(host_keys[i].algorithm, host_keys[i].public_key()));
            i = i + 1;
        }
        let key_exchange = AlgorithmNegotiation {
            supported: vec![KexAlgorithm::Curve25519Sha256, KexAlgorithm::EcdhSha2Nistp256],
        };
        let hostkey_sign = AlgorithmNegotiation { supported: keys };
        let encryption_to_peer = AlgorithmNegotiation { supported: vec![chacha20_poly1305(), aes256_gcm()] };
        let encryption_from_peer = AlgorithmNegotiation { supported: vec![chacha20_poly1305(), aes256_gcm()] };
        let mac_to_peer = AlgorithmNegotiation { supported: mac_list() };
        let mac_from_peer = AlgorithmNegotiation { supported: mac_list() };
        let compression_to_peer = AlgorithmNegotiation { supported: compression_list() };
        let compression_from_peer = AlgorithmNegotiation { supported: compression_list() };
        assert(key_exchange.name_bytes() =~= kex_names());
        assert(hostkey_sign.name_bytes() =~= host_keys@.map_values(
            |h: HostKeySigningAlgorithm| encode_utf8(h.algorithm@),
        ));
        assert(encryption_to_peer.name_bytes() =~= encryption_names());
        assert(encryption_from_peer.name_bytes() =~= encryption_names());
        assert(mac_to_peer.name_bytes() =~= mac_names());
        assert(mac_from_peer.name_bytes() =~= mac_names());
        assert(compression_to_peer.name_bytes() =~= compression_names());
        assert(compression_from_peer.name_bytes() =~= compression_names());
        SupportedAlgorithms {
            key_exchange,
            hostkey_sign,
            encryption_to_peer,
            encryption_from_peer,
            mac_to_peer,
            mac_from_peer,
            compression_to_peer,
            compression_from_peer,
        }
    }
}

} // verus!
