//! The connection protocol: channels multiplexed over one transport, each with
//! an open/close handshake, requests, and flow control in both directions.
use std::collections::VecDeque;
use vstd::prelude::*;
use vstd::string::StringSliceAdditionalSpecFns;
use vstd::utf8::encode_utf8;

use crate::numbers;
use crate::packet::{
    msg_channel_close, msg_channel_data, msg_channel_eof, msg_channel_extended_data,
    msg_channel_failure, msg_channel_open, msg_channel_open_confirmation, msg_channel_open_failure,
    msg_channel_request, msg_channel_request_exit_status, msg_channel_request_pty_req,
    msg_channel_success, msg_channel_window_adjust, msg_data_on, msg_request_failure, Packet,
};
use crate::wire::{
    read_bool, read_string, read_u32, read_u8, read_utf8, string_bytes, take_bool, take_string,
    take_u32, take_u8, take_utf8, u32_bytes,
};

verus! {

/// A channel number (on our side).
#[derive(Debug, Clone, Copy, PartialEq, Eq, Hash, Structural)]
pub struct ChannelNumber(pub u32);

#[derive(Debug, Clone, Copy, PartialEq, Eq, Structural)]
pub enum ChannelKind {
    Session,
}

#[derive(Debug)]
pub enum ChannelRequest {
    PtyReq {
        want_reply: bool,
        term: String,
        width_chars: u32,
        height_rows: u32,
        width_px: u32,
        height_px: u32,
        term_modes: Vec<u8>,
    },
    Shell { want_reply: bool },
    Exec { want_reply: bool, command: Vec<u8> },
    Subsystem { want_reply: bool, name: String },
    Env { want_reply: bool, name: String, value: Vec<u8> },
    ExitStatus { status: u32 },
}

/// An update from a channel: what the peer did.
#[derive(Debug)]
pub struct ChannelUpdate {
    pub number: ChannelNumber,
    pub kind: ChannelUpdateKind,
}

#[derive(Debug)]
pub enum ChannelUpdateKind {
    Success,
    Failure,
    Open(ChannelKind),
    OpenFailed { code: u32, message: String },
    Request(ChannelRequest),
    Data { data: Vec<u8> },
    ExtendedData { code: u32, data: Vec<u8> },
    Eof,
    Closed,
}

/// An operation to do on a channel: what the host wants done.
pub struct ChannelOperation {
    pub number: ChannelNumber,
    pub kind: ChannelOperationKind,
}

pub enum ChannelOperationKind {
    Success,
    Failure,
    Data(Vec<u8>),
    ExtendedData(u32, Vec<u8>),
    Request(ChannelRequest),
    Eof,
    Close,
}

/// Why an incoming packet broke the connection.
#[derive(Debug, Clone, Copy, PartialEq, Eq, Structural)]
pub enum ChannelError {
    /// The packet does not parse as the message its number names.
    Malformed,
    /// A message number that the connection protocol does not handle here.
    UnsupportedMessage(u8),
    /// The channel does not exist or is not in the state the message needs.
    UnknownChannel(u32),
    /// The peer sent more data than our window allows.
    WindowExceeded,
    /// The peer sent a data packet larger than our maximum packet size.
    PacketTooLarge,
    /// A window adjustment pushed the peer's window past 2^32 - 1.
    WindowOverflow,
    /// The channel number counter is exhausted.
    TooManyChannels,
    /// A request that only a client may send to a server.
    RequestNotForClient,
}

// ---- Views -------------------------------------------------------------------------
pub enum RequestView {
    PtyReq {
        want_reply: bool,
        term: Seq<char>,
        width_chars: u32,
        height_rows: u32,
        width_px: u32,
        height_px: u32,
        term_modes: Seq<u8>,
    },
    Shell { want_reply: bool },
    Exec { want_reply: bool, command: Seq<u8> },
    Subsystem { want_reply: bool, name: Seq<char> },
    Env { want_reply: bool, name: Seq<char>, value: Seq<u8> },
    ExitStatus { status: u32 },
}

impl View for ChannelRequest {
    type V = RequestView;

    open spec fn view(&self) -> RequestView {
        match self {
            ChannelRequest::PtyReq {
                want_reply,
                term,
                width_chars,
                height_rows,
                width_px,
                height_px,
                term_modes,
            } => RequestView::PtyReq {
                want_reply: *want_reply,
                term: term@,
                width_chars: *width_chars,
                height_rows: *height_rows,
                width_px: *width_px,
                height_px: *height_px,
                term_modes: term_modes@,
            },
            ChannelRequest::Shell { want_reply } => RequestView::Shell { want_reply: *want_reply },
            ChannelRequest::Exec { want_reply, command } => RequestView::Exec {
                want_reply: *want_reply,
                command: command@,
            },
            ChannelRequest::Subsystem { want_reply, name } => RequestView::Subsystem {
                want_reply: *want_reply,
                name: name@,
            },
            ChannelRequest::Env { want_reply, name, value } => RequestView::Env {
                want_reply: *want_reply,
                name: name@,
                value: value@,
            },
            ChannelRequest::ExitStatus { status } => RequestView::ExitStatus { status: *status },
        }
    }
}

pub enum UpdateKindView {
    Success,
    Failure,
    Open(ChannelKind),
    OpenFailed { code: u32, message: Seq<char> },
    Request(RequestView),
    Data { data: Seq<u8> },
    ExtendedData { code: u32, data: Seq<u8> },
    Eof,
    Closed,
}

pub struct UpdateView {
    pub number: u32,
    pub kind: UpdateKindView,
}

impl View for ChannelUpdate {
    type V = UpdateView;

    open spec fn view(&self) -> UpdateView {
        UpdateView {
            number: self.number.0,
            kind: match &self.kind {
                ChannelUpdateKind::Success => UpdateKindView::Success,
                ChannelUpdateKind::Failure => UpdateKindView::Failure,
                ChannelUpdateKind::Open(k) => UpdateKindView::Open(*k),
                ChannelUpdateKind::OpenFailed { code, message } => UpdateKindView::OpenFailed {
                    code: *code,
                    message: message@,
                },
                ChannelUpdateKind::Request(r) => UpdateKindView::Request(r@),
                ChannelUpdateKind::Data { data } => UpdateKindView::Data { data: data@ },
                ChannelUpdateKind::ExtendedData { code, data } => UpdateKindView::ExtendedData {
                    code: *code,
                    data: data@,
                },
                ChannelUpdateKind::Eof => UpdateKindView::Eof,
                ChannelUpdateKind::Closed => UpdateKindView::Closed,
            },
        }
    }
}

/// The state of an open channel.
pub struct ChannelView {
    /// Whether we sent CHANNEL_CLOSE.
    pub we_closed: bool,
    /// The peer's number for the channel.
    pub peer_channel: u32,
    /// How many more bytes we may send.
    pub peer_window: u32,
    pub peer_max_packet: u32,
    /// How many more bytes the peer may send us.
    pub our_window: u32,
    pub our_max_packet: u32,
    /// By how much we raise our window when it runs low.
    pub window_step: u32,
    /// Default-stream bytes waiting for window space.
    pub queued: Seq<u8>,
    /// Extended-stream bytes waiting for window space, one queue per code.
    pub queued_extended: Seq<(u32, Seq<u8>)>,
    /// All default-stream bytes the host handed us, in order.
    pub submitted: Seq<u8>,
    /// All default-stream bytes sent in CHANNEL_DATA packets, in order.
    pub transmitted: Seq<u8>,
    /// All data bytes the peer sent us.
    pub received: nat,
    /// Our initial window plus every WINDOW_ADJUST we sent.
    pub granted: nat,
}

pub enum SlotView {
    /// We asked to open it; the peer has not answered.
    Pending { our_window: u32, our_max_packet: u32, kind: ChannelKind },
    Open(ChannelView),
}

pub struct ChannelsView {
    /// Indexed by our channel number; `None` once closed.
    pub slots: Seq<Option<SlotView>>,
    /// Payloads of the packets waiting to be sent, oldest first.
    pub outbox: Seq<Seq<u8>>,
    /// Updates waiting for the host, oldest first.
    pub updates: Seq<UpdateView>,
    pub is_server: bool,
}

/// Bytes sendable from a queue under the peer's window and packet size.
pub open spec fn sendable(c: ChannelView, q: Seq<u8>) -> nat {
    if c.peer_max_packet == 0 {
        0
    } else if c.peer_window < q.len() {
        c.peer_window as nat
    } else {
        q.len()
    }
}

/// `d` cut into pieces of `m` bytes, the last one possibly shorter.
pub open spec fn chunks(d: Seq<u8>, m: nat) -> Seq<Seq<u8>>
    decreases d.len(),
{
    if d.len() == 0 || m == 0 {
        Seq::empty()
    } else if d.len() <= m {
        seq![d]
    } else {
        seq![d.subrange(0, m as int)] + chunks(d.subrange(m as int, d.len() as int), m)
    }
}

pub open spec fn data_messages(peer: u32, code: Option<u32>, pieces: Seq<Seq<u8>>) -> Seq<Seq<u8>> {
    pieces.map_values(|p: Seq<u8>| msg_data_on(peer, code, p))
}

/// Sends what the window allows from the default queue.
pub open spec fn flush_default(c: ChannelView) -> (ChannelView, Seq<Seq<u8>>) {
    let s = sendable(c, c.queued);
    let sent = c.queued.subrange(0, s as int);
    (
        ChannelView {
            peer_window: (c.peer_window - s) as u32,
            queued: c.queued.subrange(s as int, c.queued.len() as int),
            transmitted: c.transmitted + sent,
            ..c
        },
        data_messages(c.peer_channel, None, chunks(sent, c.peer_max_packet as nat)),
    )
}

/// Sends what the window allows from the `i`-th extended queue.
pub open spec fn flush_extended(c: ChannelView, i: int) -> (ChannelView, Seq<Seq<u8>>) {
    let (code, q) = c.queued_extended[i];
    let s = sendable(c, q);
    (
        ChannelView {
            peer_window: (c.peer_window - s) as u32,
            queued_extended: c.queued_extended.update(i, (code, q.subrange(s as int, q.len() as int))),
            ..c
        },
        data_messages(c.peer_channel, Some(code), chunks(q.subrange(0, s as int), c.peer_max_packet as nat)),
    )
}

/// Flushes the extended queues from the `i`-th on, in order.
pub open spec fn flush_extended_from(c: ChannelView, i: int) -> (ChannelView, Seq<Seq<u8>>)
    decreases c.queued_extended.len() - i,
{
    if i < 0 || i >= c.queued_extended.len() {
        (c, Seq::empty())
    } else {
        let (c1, at1) = flush_extended(c, i);
        let (c2, at2) = flush_extended_from(c1, i + 1);
        (c2, at1 + at2)
    }
}

/// The index of the extended queue for `code`, or the number of queues.
pub open spec fn extended_index(qs: Seq<(u32, Seq<u8>)>, code: u32) -> int
    decreases qs.len(),
{
    if qs.len() == 0 {
        0
    } else if qs[0].0 == code {
        0
    } else {
        1 + extended_index(qs.drop_first(), code)
    }
}

proof fn lemma_extended_index_bounds(qs: Seq<(u32, Seq<u8>)>, code: u32)
    ensures
        0 <= extended_index(qs, code) <= qs.len(),
        extended_index(qs, code) < qs.len() ==> qs[extended_index(qs, code)].0 == code,
        forall|k: int| 0 <= k < extended_index(qs, code) ==> qs[k].0 != code,
    decreases qs.len(),
{
    if qs.len() > 0 && qs[0].0 != code {
        lemma_extended_index_bounds(qs.drop_first(), code);
        assert forall|k: int| 0 <= k < extended_index(qs, code) implies qs[k].0 != code by {
            if k > 0 {
                assert(qs[k] == qs.drop_first()[k - 1]);
            }
        }
    }
}

/// The queue for `code` stays where it was when its contents change or when it is made.
proof fn lemma_extended_index_after_enqueue(qs: Seq<(u32, Seq<u8>)>, code: u32, x: Seq<u8>)
    ensures
        ({
            let i = extended_index(qs, code);
            let qs2 = if i < qs.len() {
                qs.update(i, (code, x))
            } else {
                qs.push((code, x))
            };
            extended_index(qs2, code) == i
        }),
    decreases qs.len(),
{
    let i = extended_index(qs, code);
    if qs.len() > 0 && qs[0].0 != code {
        lemma_extended_index_after_enqueue(qs.drop_first(), code, x);
        lemma_extended_index_bounds(qs.drop_first(), code);
        assert(i == 1 + extended_index(qs.drop_first(), code));
        let qs2 = if i < qs.len() {
            qs.update(i, (code, x))
        } else {
            qs.push((code, x))
        };
        let r2 = if i - 1 < qs.drop_first().len() {
            qs.drop_first().update(i - 1, (code, x))
        } else {
            qs.drop_first().push((code, x))
        };
        assert(qs2.drop_first() =~= r2);
    } else if qs.len() == 0 {
        assert(qs.push((code, x))[0].0 == code);
    }
}

/// Appends to the extended queue for `code`, creating it when missing.
pub open spec fn enqueue_extended(c: ChannelView, code: u32, d: Seq<u8>) -> ChannelView {
    let i = extended_index(c.queued_extended, code);
    ChannelView {
        queued_extended: if i < c.queued_extended.len() {
            c.queued_extended.update(i, (code, c.queued_extended[i].1 + d))
        } else {
            c.queued_extended.push((code, d))
        },
        ..c
    }
}

/// Host data on a stream: queued behind what waits already, then flushed.
pub open spec fn send_data(c: ChannelView, code: Option<u32>, d: Seq<u8>) -> (ChannelView, Seq<Seq<u8>>) {
    match code {
        None => flush_default(ChannelView { queued: c.queued + d, submitted: c.submitted + d, ..c }),
        Some(code) => {
            let c1 = enqueue_extended(c, code, d);
            flush_extended(c1, extended_index(c1.queued_extended, code))
        },
    }
}

/// The peer raised its window: flush the default queue, then every extended one.
pub open spec fn grant_window(c: ChannelView, delta: u32) -> (ChannelView, Seq<Seq<u8>>) {
    let c1 = ChannelView { peer_window: (c.peer_window + delta) as u32, ..c };
    let (c2, at2) = flush_default(c1);
    let (c3, at3) = flush_extended_from(c2, 0);
    (c3, at2 + at3)
}

/// The window left below which we raise our window.
pub const WINDOW_REFILL_THRESHOLD: u32 = 1000;

/// The peer sent `len` data bytes: shrink our window and raise it again when it runs low.
/// Returns the new state and the adjustment sent, if any.
pub open spec fn receive_data(c: ChannelView, len: nat) -> (ChannelView, Option<u32>) {
    let w = (c.our_window - len) as u32;
    let c1 = ChannelView { our_window: w, received: c.received + len, ..c };
    if w < WINDOW_REFILL_THRESHOLD {
        let delta = if c.window_step <= u32::MAX - w {
            c.window_step
        } else {
            (u32::MAX - w) as u32
        };
        (ChannelView { our_window: (w + delta) as u32, granted: c.granted + delta as nat, ..c1 }, Some(delta))
    } else {
        (c1, None)
    }
}

/// The fields of a channel as we and the peer announced them at opening.
pub open spec fn new_channel_view(
    peer_channel: u32,
    peer_window: u32,
    peer_max_packet: u32,
    our_window: u32,
    our_max_packet: u32,
) -> ChannelView {
    ChannelView {
        we_closed: false,
        peer_channel,
        peer_window,
        peer_max_packet,
        our_window,
        our_max_packet,
        window_step: our_window,
        queued: Seq::empty(),
        queued_extended: Seq::empty(),
        submitted: Seq::empty(),
        transmitted: Seq::empty(),
        received: 0,
        granted: our_window as nat,
    }
}

// ---- One channel ---------------------------------------------------------------------
pub open spec fn payloads(s: Seq<Packet>) -> Seq<Seq<u8>> {
    s.map_values(|p: Packet| p.payload@)
}

pub(crate) fn push_packet(out: &mut Vec<Packet>, p: Packet)
    ensures
        payloads(final(out)@) == payloads(old(out)@).push(p.payload@),
{
    let ghost pl = p.payload@;
    out.push(p);
    assert(payloads(final(out)@) =~= payloads(old(out)@).push(pl));
}

/// The bytes waiting on one extended stream.
struct ExtendedQueue {
    code: u32,
    data: Vec<u8>,
}

struct Channel {
    we_closed: bool,
    peer_channel: u32,
    peer_window_size: u32,
    peer_max_packet_size: u32,
    our_window_size: u32,
    our_max_packet_size: u32,
    our_window_size_increase_step: u32,
    /// Data we could not send yet for lack of window; sent when the peer grants more.
    queued_data_default: Vec<u8>,
    queued_data_extended: Vec<ExtendedQueue>,
    submitted: Ghost<Seq<u8>>,
    transmitted: Ghost<Seq<u8>>,
    received: Ghost<nat>,
    granted: Ghost<nat>,
}

spec fn queues_view(qs: Seq<ExtendedQueue>) -> Seq<(u32, Seq<u8>)> {
    qs.map_values(|q: ExtendedQueue| (q.code, q.data@))
}

impl View for Channel {
    type V = ChannelView;

    closed spec fn view(&self) -> ChannelView {
        ChannelView {
            we_closed: self.we_closed,
            peer_channel: self.peer_channel,
            peer_window: self.peer_window_size,
            peer_max_packet: self.peer_max_packet_size,
            our_window: self.our_window_size,
            our_max_packet: self.our_max_packet_size,
            window_step: self.our_window_size_increase_step,
            queued: self.queued_data_default@,
            queued_extended: queues_view(self.queued_data_extended@),
            submitted: self.submitted@,
            transmitted: self.transmitted@,
            received: self.received@,
            granted: self.granted@,
        }
    }
}

/// Emits `data` as data packets of at most `max_packet` bytes each.
fn send_chunks(peer: u32, code: Option<u32>, data: &[u8], max_packet: u32, out: &mut Vec<Packet>)
    requires
        max_packet > 0,
    ensures
        payloads(final(out)@) == payloads(old(out)@) + data_messages(
            peer,
            code,
            chunks(data@, max_packet as nat),
        ),
{
    let m = max_packet as usize;
    let ghost all = chunks(data@, max_packet as nat);
    let ghost mut done: Seq<Seq<u8>> = Seq::empty();
    let mut pos: usize = 0;
    assert(data@.subrange(0, data@.len() as int) =~= data@);
    while pos < data.len()
        invariant
            m == max_packet as usize,
            m > 0,
            pos <= data@.len(),
            all == done + chunks(data@.subrange(pos as int, data@.len() as int), m as nat),
            payloads(out@) == payloads(old(out)@) + data_messages(peer, code, done),
        decreases data@.len() - pos,
    {
        let ghost rest = data@.subrange(pos as int, data@.len() as int);
        let end = if data.len() - pos <= m {
            data.len()
        } else {
            pos + m
        };
        let piece = vstd::slice::slice_subrange(data, pos, end);
        assert(piece@ =~= rest.subrange(0, (end - pos) as int));
        let pkt = match code {
            Some(c) => Packet::new_msg_channel_extended_data(peer, c, piece),
            None => Packet::new_msg_channel_data(peer, piece),
        };
        push_packet(out, pkt);
        proof {
            if rest.len() <= m {
                assert(piece@ =~= rest);
            } else {
                assert(rest.subrange(m as int, rest.len() as int) =~= data@.subrange(
                    end as int,
                    data@.len() as int,
                ));
            }
            assert(data_messages(peer, code, done.push(piece@)) =~= data_messages(peer, code, done).push(
                msg_data_on(peer, code, piece@),
            ));
            assert(done.push(piece@) + chunks(data@.subrange(end as int, data@.len() as int), m as nat)
                =~= done + chunks(rest, m as nat));
            done = done.push(piece@);
        }
        pos = end;
    }
    assert(data@.subrange(pos as int, data@.len() as int).len() == 0);
    assert(done + chunks(data@.subrange(pos as int, data@.len() as int), m as nat) =~= done);
}

/// Splits off the first `n` bytes of `v`.
fn take_front(v: &mut Vec<u8>, n: usize) -> (r: Vec<u8>)
    requires
        n <= old(v)@.len(),
    ensures
        r@ == old(v)@.subrange(0, n as int),
        final(v)@ == old(v)@.subrange(n as int, old(v)@.len() as int),
{
    let mut rest = v.split_off(n);
    std::mem::swap(v, &mut rest);
    rest
}

fn sendable_exec(window: u32, max_packet: u32, len: usize) -> (r: usize)
    ensures
        r <= len,
        r as nat == (if max_packet == 0 {
            0
        } else if window < len {
            window as nat
        } else {
            len as nat
        }),
{
    if max_packet == 0 {
        0
    } else if (window as usize) < len {
        window as usize
    } else {
        len
    }
}

impl Channel {
    fn flush_default(&mut self, out: &mut Vec<Packet>)
        ensures
            final(self)@ == flush_default(old(self)@).0,
            payloads(final(out)@) == payloads(old(out)@) + flush_default(old(self)@).1,
    {
        let s = sendable_exec(self.peer_window_size, self.peer_max_packet_size, self.queued_data_default.len());
        let sent = take_front(&mut self.queued_data_default, s);
        self.peer_window_size = self.peer_window_size - s as u32;
        proof {
            self.transmitted = Ghost(self.transmitted@ + sent@);
        }
        if self.peer_max_packet_size > 0 {
            send_chunks(self.peer_channel, None, sent.as_slice(), self.peer_max_packet_size, out);
        } else {
            assert(sent@.len() == 0);
            assert(payloads(out@) =~= payloads(old(out)@) + flush_default(old(self)@).1);
        }
        assert(self@ =~= flush_default(old(self)@).0);
    }

    fn flush_extended(&mut self, i: usize, out: &mut Vec<Packet>)
        requires
            i < old(self)@.queued_extended.len(),
        ensures
            final(self)@ == flush_extended(old(self)@, i as int).0,
            payloads(final(out)@) == payloads(old(out)@) + flush_extended(old(self)@, i as int).1,
    {
        let mut q = ExtendedQueue { code: 0, data: Vec::new() };
        std::mem::swap(&mut q, &mut self.queued_data_extended[i]);
        let s = sendable_exec(self.peer_window_size, self.peer_max_packet_size, q.data.len());
        let sent = take_front(&mut q.data, s);
        self.peer_window_size = self.peer_window_size - s as u32;
        let code = q.code;
        std::mem::swap(&mut q, &mut self.queued_data_extended[i]);
        if self.peer_max_packet_size > 0 {
            send_chunks(self.peer_channel, Some(code), sent.as_slice(), self.peer_max_packet_size, out);
        } else {
            assert(payloads(out@) =~= payloads(old(out)@) + flush_extended(old(self)@, i as int).1);
        }
        assert(queues_view(self.queued_data_extended@) =~= flush_extended(old(self)@, i as int).0.queued_extended);
        assert(self@ =~= flush_extended(old(self)@, i as int).0);
    }

    fn flush_all_extended(&mut self, out: &mut Vec<Packet>)
        ensures
            final(self)@ == flush_extended_from(old(self)@, 0).0,
            payloads(final(out)@) == payloads(old(out)@) + flush_extended_from(old(self)@, 0).1,
    {
        let ghost target = flush_extended_from(self@, 0);
        let mut i: usize = 0;
        let n = self.queued_data_extended.len();
        assert(payloads(out@) =~= payloads(old(out)@) + Seq::empty());
        while i < n
            invariant
                i <= n,
                n == self@.queued_extended.len(),
                flush_extended_from(self@, i as int).0 == target.0,
                payloads(out@) + flush_extended_from(self@, i as int).1 == payloads(old(out)@) + target.1,
            decreases n - i,
        {
            let ghost before = self@;
            let ghost before_out = payloads(out@);
            self.flush_extended(i, out);
            proof {
                let (c1, at1) = flush_extended(before, i as int);
                let (c2, at2) = flush_extended_from(c1, i + 1);
                assert(flush_extended_from(before, i as int) == (c2, at1 + at2));
                assert(payloads(out@) + at2 =~= before_out + (at1 + at2));
            }
            i = i + 1;
        }
        assert(payloads(out@) + flush_extended_from(self@, i as int).1 =~= payloads(out@));
    }

    /// The index of the queue for `code`; a new empty queue is made when missing.
    fn extended_queue_index(&mut self, code: u32) -> (r: usize)
        ensures
            r as int == extended_index(old(self)@.queued_extended, code),
            r < final(self)@.queued_extended.len(),
            final(self)@.queued_extended[r as int].0 == code,
            final(self)@ == (if r < old(self)@.queued_extended.len() {
                old(self)@
            } else {
                ChannelView { queued_extended: old(self)@.queued_extended.push((code, Seq::empty())), ..old(self)@ }
            }),
    {
        let ghost qs = self@.queued_extended;
        let mut i: usize = 0;
        assert(qs.subrange(0, qs.len() as int) =~= qs);
        while i < self.queued_data_extended.len()
            invariant
                i <= qs.len(),
                self@ == old(self)@,
                qs == self@.queued_extended,
                forall|k: int| 0 <= k < i ==> qs[k].0 != code,
                extended_index(qs, code) == i + extended_index(qs.subrange(i as int, qs.len() as int), code),
            decreases qs.len() - i,
        {
            let ghost rest = qs.subrange(i as int, qs.len() as int);
            assert(rest.drop_first() =~= qs.subrange(i + 1, qs.len() as int));
            if self.queued_data_extended[i].code == code {
                return i;
            }
            i = i + 1;
        }
        assert(qs.subrange(i as int, qs.len() as int) =~= Seq::<(u32, Seq<u8>)>::empty());
        self.queued_data_extended.push(ExtendedQueue { code, data: Vec::new() });
        assert(queues_view(self.queued_data_extended@) =~= qs.push((code, Seq::empty())));
        assert(self@ =~= ChannelView { queued_extended: qs.push((code, Seq::empty())), ..old(self)@ });
        i
    }

    fn send_data(&mut self, code: Option<u32>, data: Vec<u8>, out: &mut Vec<Packet>)
        ensures
            final(self)@ == send_data(old(self)@, code, data@).0,
            payloads(final(out)@) == payloads(old(out)@) + send_data(old(self)@, code, data@).1,
    {
        let ghost d = data@;
        let mut pending = data;
        match code {
            None => {
                self.queued_data_default.append(&mut pending);
                proof {
                    self.submitted = Ghost(self.submitted@ + d);
                }
                assert(self@ =~= ChannelView {
                    queued: old(self)@.queued + d,
                    submitted: old(self)@.submitted + d,
                    ..old(self)@
                });
                let ghost mid = self@;
                self.flush_default(out);
                assert(send_data(old(self)@, code, d) == flush_default(mid));
            },
            Some(c) => {
                let i = self.extended_queue_index(c);
                let ghost mid = self@.queued_extended;
                let mut q = ExtendedQueue { code: 0, data: Vec::new() };
                std::mem::swap(&mut q, &mut self.queued_data_extended[i]);
                q.data.append(&mut pending);
                std::mem::swap(&mut q, &mut self.queued_data_extended[i]);
                let ghost c1 = enqueue_extended(old(self)@, c, d);
                proof {
                    lemma_extended_index_after_enqueue(
                        old(self)@.queued_extended,
                        c,
                        if i < old(self)@.queued_extended.len() {
                            old(self)@.queued_extended[i as int].1 + d
                        } else {
                            d
                        },
                    );
                }
                assert(queues_view(self.queued_data_extended@) =~= mid.update(i as int, (c, mid[i as int].1 + d)));
                proof {
                    if i >= old(self)@.queued_extended.len() {
                        assert(mid[i as int].1 + d =~= d);
                        assert(mid.update(i as int, (c, d)) =~= old(self)@.queued_extended.push((c, d)));
                    }
                }
                assert(queues_view(self.queued_data_extended@) =~= c1.queued_extended);
                assert(self@ =~= c1);
                self.flush_extended(i, out);

            },
        }
    }
}

impl Channel {
    /// The peer raised its window by `delta`; what was queued goes out.
    fn grant_window(&mut self, delta: u32, out: &mut Vec<Packet>)
        requires
            old(self)@.peer_window + delta <= u32::MAX,
        ensures
            final(self)@ == grant_window(old(self)@, delta).0,
            payloads(final(out)@) == payloads(old(out)@) + grant_window(old(self)@, delta).1,
    {
        self.peer_window_size = self.peer_window_size + delta;
        let ghost c1 = self@;
        assert(c1 =~= ChannelView { peer_window: (old(self)@.peer_window + delta) as u32, ..old(self)@ });
        let ghost out1 = payloads(out@);
        self.flush_default(out);
        let ghost out2 = payloads(out@);
        self.flush_all_extended(out);
        assert(payloads(out@) =~= payloads(old(out)@) + grant_window(old(self)@, delta).1);
    }

    /// The peer sent `len` bytes of data; returns the window adjustment to send, if any.
    fn receive_data(&mut self, len: usize) -> (r: Option<u32>)
        requires
            len <= old(self)@.our_window,
        ensures
            (final(self)@, r) == receive_data(old(self)@, len as nat),
    {
        self.our_window_size = self.our_window_size - len as u32;
        proof {
            self.received = Ghost(self.received@ + len as nat);
        }
        if self.our_window_size < WINDOW_REFILL_THRESHOLD {
            let w = self.our_window_size;
            let delta = if self.our_window_size_increase_step <= u32::MAX - w {
                self.our_window_size_increase_step
            } else {
                u32::MAX - w
            };
            self.our_window_size = w + delta;
            proof {
                self.granted = Ghost(self.granted@ + delta as nat);
            }
            assert(self@ =~= receive_data(old(self)@, len as nat).0);
            Some(delta)
        } else {
            assert(self@ =~= receive_data(old(self)@, len as nat).0);
            None
        }
    }
}

fn new_channel(
    peer_channel: u32,
    peer_window: u32,
    peer_max_packet: u32,
    our_window: u32,
    our_max_packet: u32,
) -> (r: Channel)
    ensures
        r@ == new_channel_view(peer_channel, peer_window, peer_max_packet, our_window, our_max_packet),
{
    let r = Channel {
        we_closed: false,
        peer_channel,
        peer_window_size: peer_window,
        peer_max_packet_size: peer_max_packet,
        our_window_size: our_window,
        our_max_packet_size: our_max_packet,
        our_window_size_increase_step: our_window,
        queued_data_default: Vec::new(),
        queued_data_extended: Vec::new(),
        submitted: Ghost(Seq::empty()),
        transmitted: Ghost(Seq::empty()),
        received: Ghost(0),
        granted: Ghost(our_window as nat),
    };
    assert(queues_view(r.queued_data_extended@) =~= Seq::empty());
    assert(r@ =~= new_channel_view(peer_channel, peer_window, peer_max_packet, our_window, our_max_packet));
    r
}

// ---- Names on the wire -----------------------------------------------------------------
pub open spec fn name_session() -> Seq<u8> {
    seq![115u8, 101, 115, 115, 105, 111, 110]
}

pub open spec fn name_pty_req() -> Seq<u8> {
    seq![112u8, 116, 121, 45, 114, 101, 113]
}

pub open spec fn name_shell() -> Seq<u8> {
    seq![115u8, 104, 101, 108, 108]
}

pub open spec fn name_exec() -> Seq<u8> {
    seq![101u8, 120, 101, 99]
}

pub open spec fn name_subsystem() -> Seq<u8> {
    seq![115u8, 117, 98, 115, 121, 115, 116, 101, 109]
}

pub open spec fn name_env() -> Seq<u8> {
    seq![101u8, 110, 118]
}

pub open spec fn name_signal() -> Seq<u8> {
    seq![115u8, 105, 103, 110, 97, 108]
}

pub open spec fn name_exit_status() -> Seq<u8> {
    seq![101u8, 120, 105, 116, 45, 115, 116, 97, 116, 117, 115]
}

/// "unknown channel type"
pub open spec fn text_unknown_channel_type() -> Seq<u8> {
    seq![117u8, 110, 107, 110, 111, 119, 110, 32, 99, 104, 97, 110, 110, 101, 108, 32, 116, 121, 112, 101]
}

pub(crate) fn bytes_session() -> (r: Vec<u8>)
    ensures
        r@ == name_session(),
{
    let r = vec![115u8, 101, 115, 115, 105, 111, 110];
    assert(r@ =~= name_session());
    r
}

fn bytes_pty_req() -> (r: Vec<u8>)
    ensures
        r@ == name_pty_req(),
{
    let r = vec![112u8, 116, 121, 45, 114, 101, 113];
    assert(r@ =~= name_pty_req());
    r
}

fn bytes_shell() -> (r: Vec<u8>)
    ensures
        r@ == name_shell(),
{
    let r = vec![115u8, 104, 101, 108, 108];
    assert(r@ =~= name_shell());
    r
}

fn bytes_exec() -> (r: Vec<u8>)
    ensures
        r@ == name_exec(),
{
    let r = vec![101u8, 120, 101, 99];
    assert(r@ =~= name_exec());
    r
}

fn bytes_subsystem() -> (r: Vec<u8>)
    ensures
        r@ == name_subsystem(),
{
    let r = vec![115u8, 117, 98, 115, 121, 115, 116, 101, 109];
    assert(r@ =~= name_subsystem());
    r
}

fn bytes_env() -> (r: Vec<u8>)
    ensures
        r@ == name_env(),
{
    let r = vec![101u8, 110, 118];
    assert(r@ =~= name_env());
    r
}

fn bytes_signal() -> (r: Vec<u8>)
    ensures
        r@ == name_signal(),
{
    let r = vec![115u8, 105, 103, 110, 97, 108];
    assert(r@ =~= name_signal());
    r
}

fn bytes_exit_status() -> (r: Vec<u8>)
    ensures
        r@ == name_exit_status(),
{
    let r = vec![101u8, 120, 105, 116, 45, 115, 116, 97, 116, 117, 115];
    assert(r@ =~= name_exit_status());
    r
}

pub(crate) fn bytes_unknown_channel_type() -> (r: Vec<u8>)
    ensures
        r@ == text_unknown_channel_type(),
{
    let r = vec![117u8, 110, 107, 110, 111, 119, 110, 32, 99, 104, 97, 110, 110, 101, 108, 32, 116, 121, 112, 101];
    assert(r@ =~= text_unknown_channel_type());
    r
}

// ---- Incoming messages -------------------------------------------------------------------
/// What a channel request asks for.
pub enum RequestBody {
    /// A request the multiplexer hands to the host.
    Known(RequestView),
    /// `signal`: ignored.
    Signal,
    /// Any other request type.
    Other,
}

/// An incoming connection-protocol message.
pub enum Inbound {
    GlobalRequest,
    Open { kind: Seq<u8>, sender: u32, window: u32, max_packet: u32 },
    OpenConfirmation { recipient: u32, sender: u32, window: u32, max_packet: u32 },
    OpenFailure { recipient: u32, reason: u32, message: Seq<char> },
    WindowAdjust { recipient: u32, delta: u32 },
    /// `CHANNEL_DATA` (no code) or `CHANNEL_EXTENDED_DATA`.
    Data { recipient: u32, code: Option<u32>, data: Seq<u8> },
    Eof { recipient: u32 },
    Close { recipient: u32 },
    Request { recipient: u32, want_reply: bool, body: RequestBody },
    Success { recipient: u32 },
    Failure { recipient: u32 },
}

pub open spec fn take_u32_pair(p: Seq<u8>, pos: int) -> Option<(u32, u32, int)> {
    match take_u32(p, pos) {
        Some((a, at1)) => match take_u32(p, at1) {
            Some((b, at2)) => Some((a, b, at2)),
            None => None,
        },
        None => None,
    }
}

pub open spec fn take_u32_quad(p: Seq<u8>, pos: int) -> Option<(u32, u32, u32, u32, int)> {
    match take_u32_pair(p, pos) {
        Some((a, b, at1)) => match take_u32_pair(p, at1) {
            Some((c, d, at2)) => Some((a, b, c, d, at2)),
            None => None,
        },
        None => None,
    }
}

/// The body of a channel request named `name`, read from `pos` on.
pub open spec fn parse_request_body(p: Seq<u8>, pos: int, name: Seq<u8>, want_reply: bool) -> Option<
    RequestBody,
> {
    if name == name_pty_req() {
        match take_utf8(p, pos) {
            Some((term, at1)) => match take_u32_quad(p, at1) {
                Some((width_chars, height_rows, width_px, height_px, at2)) => match take_string(p, at2) {
                    Some((term_modes, _)) => Some(
                        RequestBody::Known(
                            RequestView::PtyReq {
                                want_reply,
                                term,
                                width_chars,
                                height_rows,
                                width_px,
                                height_px,
                                term_modes,
                            },
                        ),
                    ),
                    None => None,
                },
                None => None,
            },
            None => None,
        }
    } else if name == name_shell() {
        Some(RequestBody::Known(RequestView::Shell { want_reply }))
    } else if name == name_exec() {
        match take_string(p, pos) {
            Some((command, _)) => Some(RequestBody::Known(RequestView::Exec { want_reply, command })),
            None => None,
        }
    } else if name == name_subsystem() {
        match take_utf8(p, pos) {
            Some((n, _)) => Some(RequestBody::Known(RequestView::Subsystem { want_reply, name: n })),
            None => None,
        }
    } else if name == name_env() {
        match take_utf8(p, pos) {
            Some((n, at1)) => match take_string(p, at1) {
                Some((value, _)) => Some(
                    RequestBody::Known(RequestView::Env { want_reply, name: n, value }),
                ),
                None => None,
            },
            None => None,
        }
    } else if name == name_signal() {
        Some(RequestBody::Signal)
    } else {
        Some(RequestBody::Other)
    }
}

/// A message that names one channel and nothing else.
pub open spec fn parse_recipient_only(p: Seq<u8>, t: u8) -> Option<Inbound> {
    match take_u32(p, 1) {
        Some((recipient, _)) => Some(
            if t == numbers::SSH_MSG_CHANNEL_EOF {
                Inbound::Eof { recipient }
            } else if t == numbers::SSH_MSG_CHANNEL_CLOSE {
                Inbound::Close { recipient }
            } else if t == numbers::SSH_MSG_CHANNEL_SUCCESS {
                Inbound::Success { recipient }
            } else {
                Inbound::Failure { recipient }
            },
        ),
        None => None,
    }
}

/// The message numbers handled by the connection protocol.
pub open spec fn is_connection_message(t: u8) -> bool {
    t == numbers::SSH_MSG_GLOBAL_REQUEST || (numbers::SSH_MSG_CHANNEL_OPEN <= t
        <= numbers::SSH_MSG_CHANNEL_FAILURE)
}

/// Reads the fields of a message of a handled number.
pub open spec fn parse_fields(p: Seq<u8>, t: u8) -> Option<Inbound> {
            if t == numbers::SSH_MSG_GLOBAL_REQUEST {
                match take_utf8(p, 1) {
                    Some((_, at1)) => match take_bool(p, at1) {
                        Some(_) => Some(Inbound::GlobalRequest),
                        None => None,
                    },
                    None => None,
                }
            } else if t == numbers::SSH_MSG_CHANNEL_OPEN {
                match take_utf8(p, 1) {
                    Some((_, at1)) => match take_u32_pair(p, at1) {
                        Some((sender, window, at2)) => match take_u32(p, at2) {
                            Some((max_packet, _)) => Some(
                                Inbound::Open {
                                    kind: p.subrange(5, at1),
                                    sender,
                                    window,
                                    max_packet,
                                },
                            ),
                            None => None,
                        },
                        None => None,
                    },
                    None => None,
                }
            } else if t == numbers::SSH_MSG_CHANNEL_OPEN_CONFIRMATION {
                match take_u32_quad(p, 1) {
                    Some((recipient, sender, window, max_packet, _)) => Some(
                        Inbound::OpenConfirmation { recipient, sender, window, max_packet },
                    ),
                    None => None,
                }
            } else if t == numbers::SSH_MSG_CHANNEL_OPEN_FAILURE {
                match take_u32_pair(p, 1) {
                    Some((recipient, reason, at1)) => match take_utf8(p, at1) {
                        Some((message, at2)) => match take_utf8(p, at2) {
                            Some(_) => Some(Inbound::OpenFailure { recipient, reason, message }),
                            None => None,
                        },
                        None => None,
                    },
                    None => None,
                }
            } else if t == numbers::SSH_MSG_CHANNEL_WINDOW_ADJUST {
                match take_u32_pair(p, 1) {
                    Some((recipient, delta, _)) => Some(Inbound::WindowAdjust { recipient, delta }),
                    None => None,
                }
            } else if t == numbers::SSH_MSG_CHANNEL_DATA {
                match take_u32(p, 1) {
                    Some((recipient, at1)) => match take_string(p, at1) {
                        Some((data, _)) => Some(Inbound::Data { recipient, code: None, data }),
                        None => None,
                    },
                    None => None,
                }
            } else if t == numbers::SSH_MSG_CHANNEL_EXTENDED_DATA {
                match take_u32_pair(p, 1) {
                    Some((recipient, code, at1)) => match take_string(p, at1) {
                        Some((data, _)) => Some(Inbound::Data { recipient, code: Some(code), data }),
                        None => None,
                    },
                    None => None,
                }
            } else if t == numbers::SSH_MSG_CHANNEL_EOF || t == numbers::SSH_MSG_CHANNEL_CLOSE || t
                == numbers::SSH_MSG_CHANNEL_SUCCESS || t == numbers::SSH_MSG_CHANNEL_FAILURE {
                parse_recipient_only(p, t)
            } else if t == numbers::SSH_MSG_CHANNEL_REQUEST {
                match take_u32(p, 1) {
                    Some((recipient, at1)) => match take_string(p, at1) {
                        Some((name, at2)) => if !vstd::utf8::valid_utf8(name) {
                            None
                        } else {
                            match take_bool(p, at2) {
                                Some((want_reply, at3)) => match parse_request_body(
                                    p,
                                    at3,
                                    name,
                                    want_reply,
                                ) {
                                    Some(body) => Some(Inbound::Request { recipient, want_reply, body }),
                                    None => None,
                                },
                                None => None,
                            }
                        },
                        None => None,
                    },
                    None => None,
                }
            } else {
                None
            }
}

/// Reads an incoming payload. Trailing bytes are ignored.
pub open spec fn parse_inbound(p: Seq<u8>) -> Result<Inbound, ChannelError> {
    match take_u8(p, 0) {
        None => Err(ChannelError::Malformed),
        Some((t, _)) => if !is_connection_message(t) {
            Err(ChannelError::UnsupportedMessage(t))
        } else {
            match parse_fields(p, t) {
                Some(m) => Ok(m),
                None => Err(ChannelError::Malformed),
            }
        },
    }
}

/// A channel request as read from the wire.
pub enum InboundRequest {
    Known(ChannelRequest),
    Signal,
    Other,
}

/// A connection-protocol message as read from the wire.
pub enum InboundMessage {
    GlobalRequest,
    Open { kind: Vec<u8>, sender: u32, window: u32, max_packet: u32 },
    OpenConfirmation { recipient: u32, sender: u32, window: u32, max_packet: u32 },
    OpenFailure { recipient: u32, reason: u32, message: String },
    WindowAdjust { recipient: u32, delta: u32 },
    Data { recipient: u32, code: Option<u32>, data: Vec<u8> },
    Eof { recipient: u32 },
    Close { recipient: u32 },
    Request { recipient: u32, want_reply: bool, body: InboundRequest },
    Success { recipient: u32 },
    Failure { recipient: u32 },
}

impl View for InboundMessage {
    type V = Inbound;

    open spec fn view(&self) -> Inbound {
        match self {
            InboundMessage::GlobalRequest => Inbound::GlobalRequest,
            InboundMessage::Open { kind, sender, window, max_packet } => Inbound::Open {
                kind: kind@,
                sender: *sender,
                window: *window,
                max_packet: *max_packet,
            },
            InboundMessage::OpenConfirmation { recipient, sender, window, max_packet } =>
                Inbound::OpenConfirmation {
                recipient: *recipient,
                sender: *sender,
                window: *window,
                max_packet: *max_packet,
            },
            InboundMessage::OpenFailure { recipient, reason, message } => Inbound::OpenFailure {
                recipient: *recipient,
                reason: *reason,
                message: message@,
            },
            InboundMessage::WindowAdjust { recipient, delta } => Inbound::WindowAdjust {
                recipient: *recipient,
                delta: *delta,
            },
            InboundMessage::Data { recipient, code, data } => Inbound::Data {
                recipient: *recipient,
                code: *code,
                data: data@,
            },
            InboundMessage::Eof { recipient } => Inbound::Eof { recipient: *recipient },
            InboundMessage::Close { recipient } => Inbound::Close { recipient: *recipient },
            InboundMessage::Request { recipient, want_reply, body } => Inbound::Request {
                recipient: *recipient,
                want_reply: *want_reply,
                body: match body {
                    InboundRequest::Known(r) => RequestBody::Known(r@),
                    InboundRequest::Signal => RequestBody::Signal,
                    InboundRequest::Other => RequestBody::Other,
                },
            },
            InboundMessage::Success { recipient } => Inbound::Success { recipient: *recipient },
            InboundMessage::Failure { recipient } => Inbound::Failure { recipient: *recipient },
        }
    }
}

fn read_u32_pair(p: &[u8], pos: usize) -> (r: Option<(u32, u32, usize)>)
    ensures
        match take_u32_pair(p@, pos as int) {
            Some((a, b, next)) => r matches Some((x, y, n)) && x == a && y == b && n == next,
            None => r is None,
        },
{
    let Some((a, at1)) = read_u32(p, pos) else { return None };
    let Some((b, at2)) = read_u32(p, at1) else { return None };
    Some((a, b, at2))
}

fn read_u32_quad(p: &[u8], pos: usize) -> (r: Option<(u32, u32, u32, u32, usize)>)
    ensures
        match take_u32_quad(p@, pos as int) {
            Some((a, b, c, d, next)) => r matches Some((x, y, z, u, n)) && x == a && y == b && z == c && u == d && n == next,
            None => r is None,
        },
{
    let Some((a, b, at1)) = read_u32_pair(p, pos) else { return None };
    let Some((c, d, at2)) = read_u32_pair(p, at1) else { return None };
    Some((a, b, c, d, at2))
}

fn parse_request_body_exec(p: &[u8], pos: usize, name: &[u8], want_reply: bool) -> (r: Option<InboundRequest>)
    ensures
        match parse_request_body(p@, pos as int, name@, want_reply) {
            Some(b) => r matches Some(x) && (InboundMessage::Request { recipient: 0, want_reply, body: x })@
                == (Inbound::Request { recipient: 0, want_reply, body: b }),
            None => r is None,
        },
{
    if crate::wire::bytes_eq(name, bytes_pty_req().as_slice()) {
        let Some((term, at1)) = read_utf8(p, pos) else { return None };
        let Some((width_chars, height_rows, width_px, height_px, at2)) = read_u32_quad(p, at1) else {
            return None
        };
        let Some((term_modes, _)) = read_string(p, at2) else { return None };
        Some(
            InboundRequest::Known(
                ChannelRequest::PtyReq {
                    want_reply,
                    term,
                    width_chars,
                    height_rows,
                    width_px,
                    height_px,
                    term_modes,
                },
            ),
        )
    } else if crate::wire::bytes_eq(name, bytes_shell().as_slice()) {
        Some(InboundRequest::Known(ChannelRequest::Shell { want_reply }))
    } else if crate::wire::bytes_eq(name, bytes_exec().as_slice()) {
        let Some((command, _)) = read_string(p, pos) else { return None };
        Some(InboundRequest::Known(ChannelRequest::Exec { want_reply, command }))
    } else if crate::wire::bytes_eq(name, bytes_subsystem().as_slice()) {
        let Some((n, _)) = read_utf8(p, pos) else { return None };
        Some(InboundRequest::Known(ChannelRequest::Subsystem { want_reply, name: n }))
    } else if crate::wire::bytes_eq(name, bytes_env().as_slice()) {
        let Some((n, at1)) = read_utf8(p, pos) else { return None };
        let Some((value, _)) = read_string(p, at1) else { return None };
        Some(InboundRequest::Known(ChannelRequest::Env { want_reply, name: n, value }))
    } else if crate::wire::bytes_eq(name, bytes_signal().as_slice()) {
        Some(InboundRequest::Signal)
    } else {
        Some(InboundRequest::Other)
    }
}

fn parse_fields_exec(p: &[u8], t: u8) -> (r: Option<InboundMessage>)
    requires
        p@.len() >= 1,
        t == p@[0],
    ensures
        match parse_fields(p@, t) {
            Some(m) => r matches Some(x) && x@ == m,
            None => r is None,
        },
{
    if t == numbers::SSH_MSG_GLOBAL_REQUEST {
        let Some((_, at1)) = read_utf8(p, 1) else { return None };
        let Some(_) = read_bool(p, at1) else { return None };
        Some(InboundMessage::GlobalRequest)
    } else if t == numbers::SSH_MSG_CHANNEL_OPEN {
        let Some((_, at1)) = read_utf8(p, 1) else { return None };
        let Some((sender, window, at2)) = read_u32_pair(p, at1) else { return None };
        let Some((max_packet, _)) = read_u32(p, at2) else { return None };
        let kind = crate::wire::slice_to_vec(p, 5, at1);
        Some(InboundMessage::Open { kind, sender, window, max_packet })
    } else if t == numbers::SSH_MSG_CHANNEL_OPEN_CONFIRMATION {
        let Some((recipient, sender, window, max_packet, _)) = read_u32_quad(p, 1) else {
            return None
        };
        Some(InboundMessage::OpenConfirmation { recipient, sender, window, max_packet })
    } else if t == numbers::SSH_MSG_CHANNEL_OPEN_FAILURE {
        let Some((recipient, reason, at1)) = read_u32_pair(p, 1) else { return None };
        let Some((message, at2)) = read_utf8(p, at1) else { return None };
        let Some(_) = read_utf8(p, at2) else { return None };
        Some(InboundMessage::OpenFailure { recipient, reason, message })
    } else if t == numbers::SSH_MSG_CHANNEL_WINDOW_ADJUST {
        let Some((recipient, delta, _)) = read_u32_pair(p, 1) else { return None };
        Some(InboundMessage::WindowAdjust { recipient, delta })
    } else if t == numbers::SSH_MSG_CHANNEL_DATA {
        let Some((recipient, at1)) = read_u32(p, 1) else { return None };
        let Some((data, _)) = read_string(p, at1) else { return None };
        Some(InboundMessage::Data { recipient, code: None, data })
    } else if t == numbers::SSH_MSG_CHANNEL_EXTENDED_DATA {
        let Some((recipient, code, at1)) = read_u32_pair(p, 1) else { return None };
        let Some((data, _)) = read_string(p, at1) else { return None };
        Some(InboundMessage::Data { recipient, code: Some(code), data })
    } else if t == numbers::SSH_MSG_CHANNEL_EOF || t == numbers::SSH_MSG_CHANNEL_CLOSE || t
        == numbers::SSH_MSG_CHANNEL_SUCCESS || t == numbers::SSH_MSG_CHANNEL_FAILURE {
        let Some((recipient, _)) = read_u32(p, 1) else { return None };
        Some(
            if t == numbers::SSH_MSG_CHANNEL_EOF {
                InboundMessage::Eof { recipient }
            } else if t == numbers::SSH_MSG_CHANNEL_CLOSE {
                InboundMessage::Close { recipient }
            } else if t == numbers::SSH_MSG_CHANNEL_SUCCESS {
                InboundMessage::Success { recipient }
            } else {
                InboundMessage::Failure { recipient }
            },
        )
    } else if t == numbers::SSH_MSG_CHANNEL_REQUEST {
        let Some((recipient, at1)) = read_u32(p, 1) else { return None };
        let Some((name, at2)) = read_string(p, at1) else { return None };
        if !crate::wire::utf8_valid(name.as_slice()) {
            return None;
        }
        let Some((want_reply, at3)) = read_bool(p, at2) else { return None };
        let Some(body) = parse_request_body_exec(p, at3, name.as_slice(), want_reply) else {
            return None
        };
        Some(InboundMessage::Request { recipient, want_reply, body })
    } else {
        None
    }
}

pub(crate) fn parse_inbound_exec(p: &[u8]) -> (r: Result<InboundMessage, ChannelError>)
    ensures
        match parse_inbound(p@) {
            Ok(m) => r matches Ok(x) && x@ == m,
            Err(e) => r == Err::<InboundMessage, ChannelError>(e),
        },
{
    let Some((t, _)) = read_u8(p, 0) else { return Err(ChannelError::Malformed) };
    if !(t == numbers::SSH_MSG_GLOBAL_REQUEST || (numbers::SSH_MSG_CHANNEL_OPEN <= t && t
        <= numbers::SSH_MSG_CHANNEL_FAILURE)) {
        return Err(ChannelError::UnsupportedMessage(t));
    }
    match parse_fields_exec(p, t) {
        Some(m) => Ok(m),
        None => Err(ChannelError::Malformed),
    }
}

// ---- The connection state machine ----------------------------------------------------------
pub open spec fn slot(s: ChannelsView, n: u32) -> Option<SlotView> {
    if n < s.slots.len() {
        s.slots[n as int]
    } else {
        None
    }
}

pub open spec fn with_slot(s: ChannelsView, n: u32, x: Option<SlotView>) -> ChannelsView {
    ChannelsView { slots: s.slots.update(n as int, x), ..s }
}

/// Queues outgoing payloads.
pub open spec fn emit(s: ChannelsView, msgs: Seq<Seq<u8>>) -> ChannelsView {
    ChannelsView { outbox: s.outbox + msgs, ..s }
}

/// Queues an update for the host.
pub open spec fn notify(s: ChannelsView, n: u32, kind: UpdateKindView) -> ChannelsView {
    ChannelsView { updates: s.updates.push(UpdateView { number: n, kind }), ..s }
}

/// What the peer's message does to the connection, or why it is refused.
pub open spec fn recv_step(s: ChannelsView, m: Inbound) -> Result<ChannelsView, ChannelError> {
    match m {
        Inbound::GlobalRequest => Ok(emit(s, seq![msg_request_failure()])),
        Inbound::Open { kind, sender, window, max_packet } => if kind != name_session() {
            Ok(
                emit(
                    s,
                    seq![
                        msg_channel_open_failure(
                            sender,
                            numbers::SSH_OPEN_UNKNOWN_CHANNEL_TYPE,
                            text_unknown_channel_type(),
                            Seq::empty(),
                        ),
                    ],
                ),
            )
        } else if s.slots.len() >= u32::MAX {
            Err(ChannelError::TooManyChannels)
        } else {
            let n = s.slots.len() as u32;
            let c = new_channel_view(sender, window, max_packet, window, max_packet);
            Ok(
                notify(
                    ChannelsView {
                        slots: s.slots.push(Some(SlotView::Open(c))),
                        outbox: s.outbox.push(
                            msg_channel_open_confirmation(sender, n, window, max_packet),
                        ),
                        ..s
                    },
                    n,
                    UpdateKindView::Open(ChannelKind::Session),
                ),
            )
        },
        Inbound::OpenConfirmation { recipient, sender, window, max_packet } => match slot(
            s,
            recipient,
        ) {
            Some(SlotView::Pending { our_window, our_max_packet, kind }) => Ok(
                notify(
                    with_slot(
                        s,
                        recipient,
                        Some(
                            SlotView::Open(
                                new_channel_view(
                                    sender,
                                    window,
                                    max_packet,
                                    our_window,
                                    our_max_packet,
                                ),
                            ),
                        ),
                    ),
                    recipient,
                    UpdateKindView::Open(kind),
                ),
            ),
            _ => Err(ChannelError::UnknownChannel(recipient)),
        },
        Inbound::OpenFailure { recipient, reason, message } => match slot(s, recipient) {
            Some(SlotView::Pending { .. }) => Ok(
                notify(
                    with_slot(s, recipient, None),
                    recipient,
                    UpdateKindView::OpenFailed { code: reason, message },
                ),
            ),
            _ => Err(ChannelError::UnknownChannel(recipient)),
        },
        Inbound::WindowAdjust { recipient, delta } => match slot(s, recipient) {
            Some(SlotView::Open(c)) => if c.peer_window + delta > u32::MAX {
                Err(ChannelError::WindowOverflow)
            } else {
                let (c2, sent) = grant_window(c, delta);
                Ok(emit(with_slot(s, recipient, Some(SlotView::Open(c2))), sent))
            },
            _ => Err(ChannelError::UnknownChannel(recipient)),
        },
        Inbound::Data { recipient, code, data } => match slot(s, recipient) {
            Some(SlotView::Open(c)) => if data.len() > c.our_window {
                Err(ChannelError::WindowExceeded)
            } else if data.len() > c.our_max_packet {
                Err(ChannelError::PacketTooLarge)
            } else {
                let (c2, adjust) = receive_data(c, data.len());
                let s1 = with_slot(s, recipient, Some(SlotView::Open(c2)));
                let s2 = match adjust {
                    Some(delta) => emit(s1, seq![msg_channel_window_adjust(c.peer_channel, delta)]),
                    None => s1,
                };
                Ok(
                    notify(
                        s2,
                        recipient,
                        match code {
                            Some(k) => UpdateKindView::ExtendedData { code: k, data },
                            None => UpdateKindView::Data { data },
                        },
                    ),
                )
            },
            _ => Err(ChannelError::UnknownChannel(recipient)),
        },
        Inbound::Eof { recipient } => match slot(s, recipient) {
            Some(_) => Ok(notify(s, recipient, UpdateKindView::Eof)),
            None => Err(ChannelError::UnknownChannel(recipient)),
        },
        Inbound::Close { recipient } => match slot(s, recipient) {
            Some(SlotView::Open(c)) => {
                let s1 = if c.we_closed {
                    s
                } else {
                    emit(s, seq![msg_channel_close(c.peer_channel)])
                };
                Ok(notify(with_slot(s1, recipient, None), recipient, UpdateKindView::Closed))
            },
            _ => Err(ChannelError::UnknownChannel(recipient)),
        },
        Inbound::Request { recipient, want_reply, body } => match slot(s, recipient) {
            Some(SlotView::Open(c)) => match body {
                RequestBody::Known(r) => if !s.is_server {
                    Err(ChannelError::RequestNotForClient)
                } else {
                    Ok(notify(s, recipient, UpdateKindView::Request(r)))
                },
                RequestBody::Signal => Ok(s),
                RequestBody::Other => if want_reply {
                    Ok(emit(s, seq![msg_channel_failure(c.peer_channel)]))
                } else {
                    Ok(s)
                },
            },
            _ => Err(ChannelError::UnknownChannel(recipient)),
        },
        Inbound::Success { recipient } => match slot(s, recipient) {
            Some(_) => Ok(notify(s, recipient, UpdateKindView::Success)),
            None => Err(ChannelError::UnknownChannel(recipient)),
        },
        Inbound::Failure { recipient } => match slot(s, recipient) {
            Some(_) => Ok(notify(s, recipient, UpdateKindView::Failure)),
            None => Err(ChannelError::UnknownChannel(recipient)),
        },
    }
}

/// What the host's operation does to the connection.
pub enum OperationView {
    Success,
    Failure,
    Data(Seq<u8>),
    ExtendedData(u32, Seq<u8>),
    Request(RequestView),
    Eof,
    Close,
}

impl View for ChannelOperationKind {
    type V = OperationView;

    open spec fn view(&self) -> OperationView {
        match self {
            ChannelOperationKind::Success => OperationView::Success,
            ChannelOperationKind::Failure => OperationView::Failure,
            ChannelOperationKind::Data(d) => OperationView::Data(d@),
            ChannelOperationKind::ExtendedData(code, d) => OperationView::ExtendedData(*code, d@),
            ChannelOperationKind::Request(r) => OperationView::Request(r@),
            ChannelOperationKind::Eof => OperationView::Eof,
            ChannelOperationKind::Close => OperationView::Close,
        }
    }
}

/// The CHANNEL_REQUEST message for a request of the host.
pub open spec fn request_message(peer: u32, r: RequestView) -> Seq<u8> {
    match r {
        RequestView::PtyReq {
            want_reply,
            term,
            width_chars,
            height_rows,
            width_px,
            height_px,
            term_modes,
        } => msg_channel_request_pty_req(
            peer,
            name_pty_req(),
            want_reply,
            encode_utf8(term),
            width_chars,
            height_rows,
            width_px,
            height_px,
            term_modes,
        ),
        RequestView::Shell { want_reply } => msg_channel_request(peer, name_shell(), want_reply),
        RequestView::Exec { want_reply, command } => msg_channel_request(peer, name_exec(), want_reply)
            + string_bytes(command),
        RequestView::Subsystem { want_reply, name } => msg_channel_request(
            peer,
            name_subsystem(),
            want_reply,
        ) + string_bytes(encode_utf8(name)),
        RequestView::Env { want_reply, name, value } => msg_channel_request(peer, name_env(), want_reply)
            + string_bytes(encode_utf8(name)) + string_bytes(value),
        RequestView::ExitStatus { status } => msg_channel_request_exit_status(
            peer,
            name_exit_status(),
            false,
            status,
        ),
    }
}

/// The strings of a request fit the 32-bit length fields of the wire format.
pub open spec fn request_fits(r: RequestView) -> bool {
    match r {
        RequestView::PtyReq { term, term_modes, .. } => encode_utf8(term).len() <= u32::MAX
            && term_modes.len() <= u32::MAX,
        RequestView::Exec { command, .. } => command.len() <= u32::MAX,
        RequestView::Subsystem { name, .. } => encode_utf8(name).len() <= u32::MAX,
        RequestView::Env { name, value, .. } => encode_utf8(name).len() <= u32::MAX && value.len()
            <= u32::MAX,
        _ => true,
    }
}

/// What the host's operation on channel `n` does; on a channel that is gone,
/// not yet open, or that we closed, nothing.
pub open spec fn operation_step(s: ChannelsView, n: u32, op: OperationView) -> ChannelsView {
    match slot(s, n) {
        Some(SlotView::Open(c)) => if c.we_closed {
            s
        } else {
            match op {
                OperationView::Success => emit(s, seq![msg_channel_success(c.peer_channel)]),
                OperationView::Failure => emit(s, seq![msg_channel_failure(c.peer_channel)]),
                OperationView::Data(d) => {
                    let (c2, sent) = send_data(c, None, d);
                    emit(with_slot(s, n, Some(SlotView::Open(c2))), sent)
                },
                OperationView::ExtendedData(code, d) => {
                    let (c2, sent) = send_data(c, Some(code), d);
                    emit(with_slot(s, n, Some(SlotView::Open(c2))), sent)
                },
                OperationView::Request(r) => emit(s, seq![request_message(c.peer_channel, r)]),
                OperationView::Eof => emit(s, seq![msg_channel_eof(c.peer_channel)]),
                OperationView::Close => emit(
                    with_slot(s, n, Some(SlotView::Open(ChannelView { we_closed: true, ..c }))),
                    seq![msg_channel_close(c.peer_channel)],
                ),
            }
        },
        _ => s,
    }
}

/// The initial window we offer on channels we open.
pub const DEFAULT_WINDOW_SIZE: u32 = 2097152;

/// The largest packet we accept on channels we open.
pub const DEFAULT_MAX_PACKET_SIZE: u32 = 32768;

/// Opening a channel of our own: CHANNEL_OPEN goes out, the slot waits for the answer.
pub open spec fn create_step(s: ChannelsView, kind: ChannelKind) -> ChannelsView {
    let n = s.slots.len() as u32;
    ChannelsView {
        slots: s.slots.push(
            Some(
                SlotView::Pending {
                    our_window: DEFAULT_WINDOW_SIZE,
                    our_max_packet: DEFAULT_MAX_PACKET_SIZE,
                    kind,
                },
            ),
        ),
        outbox: s.outbox.push(
            msg_channel_open(name_session(), n, DEFAULT_WINDOW_SIZE, DEFAULT_MAX_PACKET_SIZE),
        ),
        ..s
    }
}

// ---- Invariants ---------------------------------------------------------------------
/// Bytes sent plus bytes queued are the bytes the host handed over, in order; bytes
/// received plus the window left are the window we granted.
pub open spec fn channel_invariant(c: ChannelView) -> bool {
    &&& c.transmitted + c.queued == c.submitted
    &&& c.received + c.our_window == c.granted
}

pub open spec fn view_wf(v: ChannelsView) -> bool {
    &&& v.slots.len() <= u32::MAX
    &&& forall|i: int|
        0 <= i < v.slots.len() ==> (#[trigger] v.slots[i] matches Some(SlotView::Open(c))
            ==> channel_invariant(c))
}

pub open spec fn slot_ok(x: Option<SlotView>) -> bool {
    x matches Some(SlotView::Open(c)) ==> channel_invariant(c)
}

proof fn lemma_wf_with_slot(s: ChannelsView, n: u32, x: Option<SlotView>)
    requires
        view_wf(s),
        n < s.slots.len(),
        slot_ok(x),
    ensures
        view_wf(with_slot(s, n, x)),
{
    let s2 = with_slot(s, n, x);
    assert forall|i: int| 0 <= i < s2.slots.len() implies (#[trigger] s2.slots[i] matches Some(
        SlotView::Open(c),
    ) ==> channel_invariant(c)) by {
        if i != n {
            assert(s2.slots[i] == s.slots[i]);
        }
    }
}

proof fn lemma_flush_default_invariant(c: ChannelView)
    requires
        channel_invariant(c),
    ensures
        channel_invariant(flush_default(c).0),
{
    let s = sendable(c, c.queued);
    assert(c.queued =~= c.queued.subrange(0, s as int) + c.queued.subrange(s as int, c.queued.len() as int));
    assert(c.transmitted + c.queued.subrange(0, s as int) + c.queued.subrange(s as int, c.queued.len() as int)
        =~= c.transmitted + c.queued);
}

proof fn lemma_flush_extended_from_keeps(c: ChannelView, i: int)
    ensures
        ({
            let c2 = flush_extended_from(c, i).0;
            &&& c2.queued == c.queued
            &&& c2.transmitted == c.transmitted
            &&& c2.submitted == c.submitted
            &&& c2.received == c.received
            &&& c2.granted == c.granted
            &&& c2.our_window == c.our_window
            &&& c2.peer_channel == c.peer_channel
            &&& c2.we_closed == c.we_closed
        }),
    decreases c.queued_extended.len() - i,
{
    if 0 <= i < c.queued_extended.len() {
        lemma_flush_extended_from_keeps(flush_extended(c, i).0, i + 1);
    }
}

pub proof fn lemma_send_data_invariant(c: ChannelView, code: Option<u32>, d: Seq<u8>)
    requires
        channel_invariant(c),
    ensures
        channel_invariant(send_data(c, code, d).0),
{
    match code {
        None => {
            let c1 = ChannelView { queued: c.queued + d, submitted: c.submitted + d, ..c };
            assert(c1.transmitted + c1.queued =~= c1.submitted);
            lemma_flush_default_invariant(c1);
        },
        Some(k) => {},
    }
}

pub proof fn lemma_grant_window_invariant(c: ChannelView, delta: u32)
    requires
        channel_invariant(c),
    ensures
        channel_invariant(grant_window(c, delta).0),
{
    let c1 = ChannelView { peer_window: (c.peer_window + delta) as u32, ..c };
    lemma_flush_default_invariant(c1);
    lemma_flush_extended_from_keeps(flush_default(c1).0, 0);
}

/// Every step the peer can cause keeps the invariant.
pub proof fn lemma_recv_step_wf(s: ChannelsView, m: Inbound)
    requires
        view_wf(s),
    ensures
        recv_step(s, m) matches Ok(s2) ==> view_wf(s2),
{
    match m {
        Inbound::Open { kind, sender, window, max_packet } => {
            if kind == name_session() && s.slots.len() < u32::MAX {
                let s2 = recv_step(s, m)->Ok_0;
                assert forall|i: int| 0 <= i < s2.slots.len() implies (#[trigger] s2.slots[i] matches Some(
                    SlotView::Open(c),
                ) ==> channel_invariant(c)) by {
                    if i < s.slots.len() {
                        assert(s2.slots[i] == s.slots[i]);
                    }
                }
            }
        },
        Inbound::OpenConfirmation { recipient, sender, window, max_packet } => {
            if let Some(SlotView::Pending { our_window, our_max_packet, kind }) = slot(s, recipient) {
                lemma_wf_with_slot(s, recipient, Some(SlotView::Open(new_channel_view(sender, window, max_packet, our_window, our_max_packet))));
            }
        },
        Inbound::OpenFailure { recipient, .. } => {
            if slot(s, recipient) is Some {
                lemma_wf_with_slot(s, recipient, None);
            }
        },
        Inbound::WindowAdjust { recipient, delta } => {
            if let Some(SlotView::Open(c)) = slot(s, recipient) {
                assert(s.slots[recipient as int] matches Some(SlotView::Open(c)));
                lemma_grant_window_invariant(c, delta);
                lemma_wf_with_slot(s, recipient, Some(SlotView::Open(grant_window(c, delta).0)));
            }
        },
        Inbound::Data { recipient, code, data } => {
            if let Some(SlotView::Open(c)) = slot(s, recipient) {
                assert(s.slots[recipient as int] matches Some(SlotView::Open(c)));
                if data.len() <= c.our_window {
                    lemma_wf_with_slot(s, recipient, Some(SlotView::Open(receive_data(c, data.len()).0)));
                }
            }
        },
        Inbound::Close { recipient } => {
            if let Some(SlotView::Open(c)) = slot(s, recipient) {
                let s1 = if c.we_closed {
                    s
                } else {
                    emit(s, seq![msg_channel_close(c.peer_channel)])
                };
                lemma_wf_with_slot(s1, recipient, None);
            }
        },
        _ => {},
    }
}

/// Every operation of the host keeps the invariant.
pub proof fn lemma_operation_step_wf(s: ChannelsView, n: u32, op: OperationView)
    requires
        view_wf(s),
    ensures
        view_wf(operation_step(s, n, op)),
{
    if let Some(SlotView::Open(c)) = slot(s, n) {
        assert(s.slots[n as int] matches Some(SlotView::Open(c)));
        if !c.we_closed {
            match op {
                OperationView::Data(d) => {
                    lemma_send_data_invariant(c, None, d);
                    lemma_wf_with_slot(s, n, Some(SlotView::Open(send_data(c, None, d).0)));
                },
                OperationView::ExtendedData(code, d) => {
                    lemma_send_data_invariant(c, Some(code), d);
                    lemma_wf_with_slot(s, n, Some(SlotView::Open(send_data(c, Some(code), d).0)));
                },
                OperationView::Close => {
                    lemma_wf_with_slot(s, n, Some(SlotView::Open(ChannelView { we_closed: true, ..c })));
                },
                _ => {},
            }
        }
    }
}

// ---- The multiplexer -----------------------------------------------------------------------
enum ChannelState {
    /// We sent CHANNEL_OPEN; the peer has not answered yet.
    AwaitingConfirmation { our_window_size: u32, our_max_packet_size: u32, update_message: ChannelKind },
    Open(Channel),
}

spec fn slot_view(s: Option<ChannelState>) -> Option<SlotView> {
    match s {
        None => None,
        Some(ChannelState::AwaitingConfirmation { our_window_size, our_max_packet_size, update_message }) =>
            Some(SlotView::Pending { our_window: our_window_size, our_max_packet: our_max_packet_size, kind: update_message }),
        Some(ChannelState::Open(c)) => Some(SlotView::Open(c@)),
    }
}

/// The channels of one connection, with the packets to send and the updates
/// for the host that they produced.
pub struct ChannelsState {
    packets_to_send: Vec<Packet>,
    channel_updates: VecDeque<ChannelUpdate>,
    /// Indexed by our channel number, which is handed out by counting up.
    channels: Vec<Option<ChannelState>>,
    is_server: bool,
}

impl View for ChannelsState {
    type V = ChannelsView;

    closed spec fn view(&self) -> ChannelsView {
        ChannelsView {
            slots: self.channels@.map_values(|s: Option<ChannelState>| slot_view(s)),
            outbox: payloads(self.packets_to_send@),
            updates: self.channel_updates@.map_values(|u: ChannelUpdate| u@),
            is_server: self.is_server,
        }
    }
}

/// The result of a step: the new state on success, the old one on failure.
pub open spec fn outcome(
    before: ChannelsView,
    after: ChannelsView,
    r: Result<(), ChannelError>,
    expected: Result<ChannelsView, ChannelError>,
) -> bool {
    match expected {
        Ok(v) => r is Ok && after == v,
        Err(e) => r == Err::<(), ChannelError>(e) && after == before,
    }
}

impl ChannelsState {
    pub open spec fn wf(&self) -> bool {
        view_wf(self@)
    }

    pub fn new(is_server: bool) -> (r: Self)
        ensures
            r.wf(),
            r@.slots.len() == 0,
            r@.outbox.len() == 0,
            r@.updates.len() == 0,
            r@.is_server == is_server,
    {
        let r = ChannelsState {
            packets_to_send: Vec::new(),
            channel_updates: VecDeque::new(),
            channels: Vec::new(),
            is_server,
        };
        assert(r@.slots =~= Seq::empty());
        r
    }

    fn emit_packet(&mut self, p: Packet)
        ensures
            final(self)@ == emit(old(self)@, seq![p.payload@]),
    {
        push_packet(&mut self.packets_to_send, p);
        assert(self@.outbox =~= old(self)@.outbox + seq![p.payload@]);
    }

    fn notify_update(&mut self, u: ChannelUpdate)
        ensures
            final(self)@ == notify(old(self)@, u@.number, u@.kind),
    {
        let ghost uv = u@;
        self.channel_updates.push_back(u);
        assert(self@.updates =~= old(self)@.updates.push(UpdateView { number: uv.number, kind: uv.kind }));
    }

    /// The open channel `n`, if there is one.
    fn open_channel_ref(&self, n: u32) -> (r: Option<&Channel>)
        ensures
            match slot(self@, n) {
                Some(SlotView::Open(c)) => r matches Some(ch) && ch@ == c,
                _ => r is None,
            },
    {
        if n as usize >= self.channels.len() {
            return None;
        }
        match &self.channels[n as usize] {
            Some(ChannelState::Open(c)) => Some(c),
            _ => None,
        }
    }

    fn has_slot(&self, n: u32) -> (r: bool)
        ensures
            r == slot(self@, n) is Some,
    {
        (n as usize) < self.channels.len() && match &self.channels[n as usize] {
            Some(_) => true,
            None => false,
        }
    }

    fn take_slot(&mut self, n: u32) -> (r: Option<ChannelState>)
        requires
            n < old(self)@.slots.len(),
        ensures
            slot_view(r) == slot(old(self)@, n),
            final(self)@ == with_slot(old(self)@, n, None),
    {
        let mut r: Option<ChannelState> = None;
        std::mem::swap(&mut r, &mut self.channels[n as usize]);
        assert(self@.slots =~= old(self)@.slots.update(n as int, None));
        r
    }

    fn put_slot(&mut self, n: u32, x: Option<ChannelState>)
        requires
            n < old(self)@.slots.len(),
        ensures
            final(self)@ == with_slot(old(self)@, n, slot_view(x)),
    {
        let ghost xv = slot_view(x);
        let mut x = x;
        std::mem::swap(&mut x, &mut self.channels[n as usize]);
        assert(self@.slots =~= old(self)@.slots.update(n as int, xv));
    }
}

impl ChannelsState {
    fn handle_open(&mut self, kind: Vec<u8>, sender: u32, window: u32, max_packet: u32) -> (r: Result<(), ChannelError>)
        ensures
            outcome(old(self)@, final(self)@, r, recv_step(old(self)@, Inbound::Open { kind: kind@, sender, window, max_packet })),
    {
        if !crate::wire::bytes_eq(kind.as_slice(), bytes_session().as_slice()) {
            let desc = bytes_unknown_channel_type();
            let lang: Vec<u8> = Vec::new();
            let p = Packet::new_msg_channel_open_failure(
                sender,
                numbers::SSH_OPEN_UNKNOWN_CHANNEL_TYPE,
                desc.as_slice(),
                lang.as_slice(),
            );
            assert(lang@ =~= Seq::<u8>::empty());
            self.emit_packet(p);
            return Ok(());
        }
        if self.channels.len() >= u32::MAX as usize {
            return Err(ChannelError::TooManyChannels);
        }
        let our_number = self.channels.len() as u32;
        let p = Packet::new_msg_channel_open_confirmation(sender, our_number, window, max_packet);
        self.emit_packet(p);
        let ch = new_channel(sender, window, max_packet, window, max_packet);
        let ghost before = self@;
        self.channels.push(Some(ChannelState::Open(ch)));
        assert(self@.slots =~= before.slots.push(Some(SlotView::Open(ch@))));
        self.notify_update(ChannelUpdate {
            number: ChannelNumber(our_number),
            kind: ChannelUpdateKind::Open(ChannelKind::Session),
        });
        assert(self@.outbox =~= old(self)@.outbox.push(
            msg_channel_open_confirmation(sender, our_number, window, max_packet),
        ));
        Ok(())
    }

    fn handle_open_confirmation(&mut self, recipient: u32, sender: u32, window: u32, max_packet: u32) -> (r: Result<(), ChannelError>)
        ensures
            outcome(old(self)@, final(self)@, r, recv_step(old(self)@, Inbound::OpenConfirmation { recipient, sender, window, max_packet })),
    {
        if (recipient as usize) < self.channels.len() {
            if let Some(ChannelState::AwaitingConfirmation { our_window_size, our_max_packet_size, update_message }) = &self.channels[recipient as usize] {
                let (ow, omp, kind) = (*our_window_size, *our_max_packet_size, *update_message);
                let ch = new_channel(sender, window, max_packet, ow, omp);
                self.put_slot(recipient, Some(ChannelState::Open(ch)));
                self.notify_update(ChannelUpdate { number: ChannelNumber(recipient), kind: ChannelUpdateKind::Open(kind) });
                return Ok(());
            }
        }
        Err(ChannelError::UnknownChannel(recipient))
    }

    fn handle_open_failure(&mut self, recipient: u32, reason: u32, message: String) -> (r: Result<(), ChannelError>)
        ensures
            outcome(old(self)@, final(self)@, r, recv_step(old(self)@, Inbound::OpenFailure { recipient, reason, message: message@ })),
    {
        if (recipient as usize) < self.channels.len() {
            if let Some(ChannelState::AwaitingConfirmation { .. }) = &self.channels[recipient as usize] {
                self.put_slot(recipient, None);
                self.notify_update(ChannelUpdate {
                    number: ChannelNumber(recipient),
                    kind: ChannelUpdateKind::OpenFailed { code: reason, message },
                });
                return Ok(());
            }
        }
        Err(ChannelError::UnknownChannel(recipient))
    }

    fn handle_window_adjust(&mut self, recipient: u32, delta: u32) -> (r: Result<(), ChannelError>)
        ensures
            outcome(old(self)@, final(self)@, r, recv_step(old(self)@, Inbound::WindowAdjust { recipient, delta })),
    {
        let Some(c) = self.open_channel_ref(recipient) else {
            return Err(ChannelError::UnknownChannel(recipient));
        };
        if c.peer_window_size > u32::MAX - delta {
            return Err(ChannelError::WindowOverflow);
        }
        let ghost cv = c@;
        match self.take_slot(recipient) {
            Some(ChannelState::Open(mut ch)) => {
                let ghost mid = self@;
                ch.grant_window(delta, &mut self.packets_to_send);
                assert(self@.outbox == mid.outbox + grant_window(cv, delta).1);
                self.put_slot(recipient, Some(ChannelState::Open(ch)));
                let ghost expected = emit(with_slot(old(self)@, recipient, Some(SlotView::Open(grant_window(cv, delta).0))), grant_window(cv, delta).1);
                assert(self@.slots =~= expected.slots);
                Ok(())
            },
            _ => {
                assert(false);
                Err(ChannelError::UnknownChannel(recipient))
            },
        }
    }

    fn handle_data(&mut self, recipient: u32, code: Option<u32>, data: Vec<u8>) -> (r: Result<(), ChannelError>)
        ensures
            outcome(old(self)@, final(self)@, r, recv_step(old(self)@, Inbound::Data { recipient, code, data: data@ })),
    {
        let Some(c) = self.open_channel_ref(recipient) else {
            return Err(ChannelError::UnknownChannel(recipient));
        };
        if data.len() > c.our_window_size as usize {
            return Err(ChannelError::WindowExceeded);
        }
        if data.len() > c.our_max_packet_size as usize {
            return Err(ChannelError::PacketTooLarge);
        }
        let ghost cv = c@;
        let peer = c.peer_channel;
        match self.take_slot(recipient) {
            Some(ChannelState::Open(mut ch)) => {
                let adjust = ch.receive_data(data.len());
                self.put_slot(recipient, Some(ChannelState::Open(ch)));
                let ghost s1 = with_slot(old(self)@, recipient, Some(SlotView::Open(receive_data(cv, data@.len()).0)));
                assert(self@.slots =~= s1.slots);
                assert(self@ == s1);
                match adjust {
                    Some(delta) => self.emit_packet(Packet::new_msg_channel_window_adjust(peer, delta)),
                    None => {},
                }
                let kind = match code {
                    Some(k) => ChannelUpdateKind::ExtendedData { code: k, data },
                    None => ChannelUpdateKind::Data { data },
                };
                self.notify_update(ChannelUpdate { number: ChannelNumber(recipient), kind });
                Ok(())
            },
            _ => {
                assert(false);
                Err(ChannelError::UnknownChannel(recipient))
            },
        }
    }

    fn handle_close(&mut self, recipient: u32) -> (r: Result<(), ChannelError>)
        ensures
            outcome(old(self)@, final(self)@, r, recv_step(old(self)@, Inbound::Close { recipient })),
    {
        let Some(c) = self.open_channel_ref(recipient) else {
            return Err(ChannelError::UnknownChannel(recipient));
        };
        if !c.we_closed {
            let p = Packet::new_msg_channel_close(c.peer_channel);
            self.emit_packet(p);
        }
        self.put_slot(recipient, None);
        self.notify_update(ChannelUpdate { number: ChannelNumber(recipient), kind: ChannelUpdateKind::Closed });
        Ok(())
    }

    fn handle_request(&mut self, recipient: u32, want_reply: bool, body: InboundRequest) -> (r: Result<(), ChannelError>)
        ensures
            outcome(old(self)@, final(self)@, r, recv_step(old(self)@,
                (InboundMessage::Request { recipient, want_reply, body })@)),
    {
        let Some(c) = self.open_channel_ref(recipient) else {
            return Err(ChannelError::UnknownChannel(recipient));
        };
        let peer = c.peer_channel;
        match body {
            InboundRequest::Known(req) => {
                if !self.is_server {
                    return Err(ChannelError::RequestNotForClient);
                }
                self.notify_update(ChannelUpdate { number: ChannelNumber(recipient), kind: ChannelUpdateKind::Request(req) });
                Ok(())
            },
            InboundRequest::Signal => Ok(()),
            InboundRequest::Other => {
                if want_reply {
                    self.emit_packet(Packet::new_msg_channel_failure(peer));
                }
                Ok(())
            },
        }
    }

    /// EOF, SUCCESS and FAILURE: handed to the host as they are.
    fn handle_notice(&mut self, recipient: u32, kind: ChannelUpdateKind) -> (r: Result<(), ChannelError>)
        requires
            kind is Eof || kind is Success || kind is Failure,
        ensures
            outcome(old(self)@, final(self)@, r, recv_step(old(self)@,
                if kind is Eof {
                    Inbound::Eof { recipient }
                } else if kind is Success {
                    Inbound::Success { recipient }
                } else {
                    Inbound::Failure { recipient }
                })),
    {
        if !self.has_slot(recipient) {
            return Err(ChannelError::UnknownChannel(recipient));
        }
        self.notify_update(ChannelUpdate { number: ChannelNumber(recipient), kind });
        Ok(())
    }

    fn handle(&mut self, m: InboundMessage) -> (r: Result<(), ChannelError>)
        ensures
            outcome(old(self)@, final(self)@, r, recv_step(old(self)@, m@)),
    {
        match m {
            InboundMessage::GlobalRequest => {
                self.emit_packet(Packet::new_msg_request_failure());
                Ok(())
            },
            InboundMessage::Open { kind, sender, window, max_packet } => self.handle_open(kind, sender, window, max_packet),
            InboundMessage::OpenConfirmation { recipient, sender, window, max_packet } =>
                self.handle_open_confirmation(recipient, sender, window, max_packet),
            InboundMessage::OpenFailure { recipient, reason, message } => self.handle_open_failure(recipient, reason, message),
            InboundMessage::WindowAdjust { recipient, delta } => self.handle_window_adjust(recipient, delta),
            InboundMessage::Data { recipient, code, data } => self.handle_data(recipient, code, data),
            InboundMessage::Eof { recipient } => self.handle_notice(recipient, ChannelUpdateKind::Eof),
            InboundMessage::Close { recipient } => self.handle_close(recipient),
            InboundMessage::Request { recipient, want_reply, body } => self.handle_request(recipient, want_reply, body),
            InboundMessage::Success { recipient } => self.handle_notice(recipient, ChannelUpdateKind::Success),
            InboundMessage::Failure { recipient } => self.handle_notice(recipient, ChannelUpdateKind::Failure),
        }
    }

    /// Handles one connection-protocol packet from the peer. On error nothing
    /// changes; the error is fatal to the connection.
    pub fn recv_packet(&mut self, packet: Packet) -> (r: Result<(), ChannelError>)
        requires
            old(self).wf(),
        ensures
            final(self).wf(),
            match parse_inbound(packet.payload@) {
                Err(e) => r == Err::<(), ChannelError>(e) && final(self)@ == old(self)@,
                Ok(m) => outcome(old(self)@, final(self)@, r, recv_step(old(self)@, m)),
            },
    {
        match parse_inbound_exec(packet.payload.as_slice()) {
            Err(e) => Err(e),
            Ok(m) => {
                let ghost mv = m@;
                let r = self.handle(m);
                proof {
                    lemma_recv_step_wf(old(self)@, mv);
                }
                r
            },
        }
    }

    /// Takes every packet waiting to be sent, oldest first.
    pub fn packets_to_send(&mut self) -> (r: Vec<Packet>)
        ensures
            payloads(r@) == old(self)@.outbox,
            final(self)@ == (ChannelsView { outbox: Seq::empty(), ..old(self)@ }),
    {
        let mut out: Vec<Packet> = Vec::new();
        std::mem::swap(&mut out, &mut self.packets_to_send);
        assert(self@.outbox =~= Seq::empty());
        out
    }

    /// Takes the oldest update for the host.
    pub fn next_channel_update(&mut self) -> (r: Option<ChannelUpdate>)
        ensures
            if old(self)@.updates.len() > 0 {
                &&& r matches Some(u) && u@ == old(self)@.updates[0]
                &&& final(self)@ == (ChannelsView { updates: old(self)@.updates.drop_first(), ..old(self)@ })
            } else {
                r is None && final(self)@ == old(self)@
            },
    {
        let r = self.channel_updates.pop_front();
        assert(self@.updates =~= if old(self)@.updates.len() > 0 { old(self)@.updates.drop_first() } else { old(self)@.updates });
        r
    }
}

impl ChannelNumber {
    pub fn construct_op(self, kind: ChannelOperationKind) -> (r: ChannelOperation)
        ensures
            r.number == self,
            r.kind == kind,
    {
        ChannelOperation { number: self, kind }
    }
}

/// The CHANNEL_REQUEST packet for a request of the host.
fn request_packet(peer: u32, req: ChannelRequest) -> (r: Packet)
    requires
        request_fits(req@),
    ensures
        r.payload@ == request_message(peer, req@),
{
    match req {
        ChannelRequest::PtyReq { want_reply, term, width_chars, height_rows, width_px, height_px, term_modes } => {
            let name = bytes_pty_req();
            Packet::new_msg_channel_request_pty_req(
                peer,
                name.as_slice(),
                want_reply,
                term.as_str().as_bytes(),
                width_chars,
                height_rows,
                width_px,
                height_px,
                term_modes.as_slice(),
            )
        },
        ChannelRequest::Shell { want_reply } => {
            let name = bytes_shell();
            Packet::new_msg_channel_request_shell(peer, name.as_slice(), want_reply)
        },
        ChannelRequest::Exec { want_reply, command } => {
            let name = bytes_exec();
            Packet::new_msg_channel_request_with_string(peer, name.as_slice(), want_reply, command.as_slice())
        },
        ChannelRequest::Subsystem { want_reply, name } => {
            let kind = bytes_subsystem();
            Packet::new_msg_channel_request_with_string(peer, kind.as_slice(), want_reply, name.as_str().as_bytes())
        },
        ChannelRequest::Env { want_reply, name, value } => {
            let kind = bytes_env();
            let mut p = Packet::new_msg_channel_request_with_string(peer, kind.as_slice(), want_reply, name.as_str().as_bytes());
            crate::wire::write_string(&mut p.payload, value.as_slice());
            p
        },
        ChannelRequest::ExitStatus { status } => {
            let name = bytes_exit_status();
            Packet::new_msg_channel_request_exit_status(peer, name.as_slice(), false, status)
        },
    }
}

impl ChannelsState {
    /// The number the next channel will get.
    pub fn next_channel_number(&self) -> (r: usize)
        ensures
            r == self@.slots.len(),
    {
        self.channels.len()
    }

    /// Opens a channel from our side: sends CHANNEL_OPEN and waits for the answer.
    pub fn create_channel(&mut self, kind: ChannelKind) -> (r: ChannelNumber)
        requires
            old(self).wf(),
            old(self)@.slots.len() < u32::MAX,
        ensures
            final(self).wf(),
            r.0 == old(self)@.slots.len(),
            final(self)@ == create_step(old(self)@, kind),
    {
        let our_number = self.channels.len() as u32;
        let name = bytes_session();
        let p = Packet::new_msg_channel_open_session(
            name.as_slice(),
            our_number,
            DEFAULT_WINDOW_SIZE,
            DEFAULT_MAX_PACKET_SIZE,
        );
        self.emit_packet(p);
        let ghost before = self@;
        self.channels.push(
            Some(
                ChannelState::AwaitingConfirmation {
                    our_window_size: DEFAULT_WINDOW_SIZE,
                    our_max_packet_size: DEFAULT_MAX_PACKET_SIZE,
                    update_message: kind,
                },
            ),
        );
        assert(self@.slots =~= create_step(old(self)@, kind).slots);
        assert(self@.outbox =~= create_step(old(self)@, kind).outbox);
        assert forall|i: int| 0 <= i < self@.slots.len() implies (#[trigger] self@.slots[i] matches Some(
            SlotView::Open(c),
        ) ==> channel_invariant(c)) by {
            if i < old(self)@.slots.len() {
                assert(self@.slots[i] == old(self)@.slots[i]);
            }
        }
        ChannelNumber(our_number)
    }

    /// Carries out an operation of the host. An operation on a channel that is
    /// closed, not yet open, or unknown is dropped.
    pub fn do_operation(&mut self, op: ChannelOperation)
        requires
            old(self).wf(),
            op.kind matches ChannelOperationKind::Request(req) ==> request_fits(req@),
        ensures
            final(self).wf(),
            final(self)@ == operation_step(old(self)@, op.number.0, op.kind@),
    {
        let n = op.number.0;
        proof {
            lemma_operation_step_wf(old(self)@, n, op.kind@);
        }
        let Some(c) = self.open_channel_ref(n) else {
            return;
        };
        if c.we_closed {
            return;
        }
        let peer = c.peer_channel;
        let ghost cv = c@;
        match op.kind {
            ChannelOperationKind::Success => self.emit_packet(Packet::new_msg_channel_success(peer)),
            ChannelOperationKind::Failure => self.emit_packet(Packet::new_msg_channel_failure(peer)),
            ChannelOperationKind::Data(data) => self.send_on_channel(n, None, data),
            ChannelOperationKind::ExtendedData(code, data) => self.send_on_channel(n, Some(code), data),
            ChannelOperationKind::Request(req) => self.emit_packet(request_packet(peer, req)),
            ChannelOperationKind::Eof => self.emit_packet(Packet::new_msg_channel_eof(peer)),
            ChannelOperationKind::Close => {
                match self.take_slot(n) {
                    Some(ChannelState::Open(mut ch)) => {
                        ch.we_closed = true;
                        assert(ch@ == ChannelView { we_closed: true, ..cv });
                        self.put_slot(n, Some(ChannelState::Open(ch)));
                        let ghost s1 = with_slot(old(self)@, n, Some(SlotView::Open(ChannelView { we_closed: true, ..cv })));
                        assert(self@.slots =~= s1.slots);
                        assert(self@ == s1);
                    },
                    _ => {
                        assert(false);
                    },
                }
                self.emit_packet(Packet::new_msg_channel_close(peer));
            },
        }
    }

    fn send_on_channel(&mut self, n: u32, code: Option<u32>, data: Vec<u8>)
        requires
            slot(old(self)@, n) matches Some(SlotView::Open(c)),
        ensures
            ({
                let c = slot(old(self)@, n)->Some_0->Open_0;
                let (c2, sent) = send_data(c, code, data@);
                final(self)@ == emit(with_slot(old(self)@, n, Some(SlotView::Open(c2))), sent)
            }),
    {
        let ghost cv = slot(old(self)@, n)->Some_0->Open_0;
        let ghost d = data@;
        match self.take_slot(n) {
            Some(ChannelState::Open(mut ch)) => {
                let ghost mid = self@;
                ch.send_data(code, data, &mut self.packets_to_send);
                assert(self@.outbox == mid.outbox + send_data(cv, code, d).1);
                self.put_slot(n, Some(ChannelState::Open(ch)));
                let ghost expected = emit(with_slot(old(self)@, n, Some(SlotView::Open(send_data(cv, code, d).0))), send_data(cv, code, d).1);
                assert(self@.slots =~= expected.slots);
            },
            _ => {
                assert(false);
            },
        }
    }
}

// ---- Laws ------------------------------------------------------------------------------
/// The pieces of `d` are non-empty, at most `m` bytes each, and put back together give `d`.
pub proof fn lemma_chunks_reassemble(d: Seq<u8>, m: nat)
    requires
        m > 0,
    ensures
        chunks(d, m).flatten() == d,
        forall|i: int| 0 <= i < chunks(d, m).len() ==> 0 < (#[trigger] chunks(d, m)[i]).len() <= m,
    decreases d.len(),
{
    if d.len() == 0 {
    } else if d.len() <= m {
        assert(seq![d].drop_first() =~= Seq::<Seq<u8>>::empty());
        assert(seq![d].flatten() == d + Seq::<Seq<u8>>::empty().flatten());
        assert(d + Seq::<u8>::empty() =~= d);
    } else {
        let head = d.subrange(0, m as int);
        let tail = d.subrange(m as int, d.len() as int);
        lemma_chunks_reassemble(tail, m);
        let cs = seq![head] + chunks(tail, m);
        assert(cs.drop_first() =~= chunks(tail, m));
        assert(cs.flatten() == head + cs.drop_first().flatten());
        assert(head + tail =~= d);
        assert forall|i: int| 0 <= i < cs.len() implies 0 < (#[trigger] cs[i]).len() <= m by {
            if i > 0 {
                assert(cs[i] == chunks(tail, m)[i - 1]);
            }
        }
    }
}

/// Default-stream data goes out in the order the host handed it over: what a
/// `Data` operation sends is the next part of the submitted bytes, cut into
/// packets that reassemble to exactly that part, and the rest waits in the queue.
pub proof fn lemma_send_data_order(c: ChannelView, d: Seq<u8>)
    requires
        channel_invariant(c),
        c.peer_max_packet > 0,
    ensures
        ({
            let (c2, msgs) = send_data(c, None, d);
            let x = c2.transmitted.subrange(c.transmitted.len() as int, c2.transmitted.len() as int);
            &&& c2.submitted == c.submitted + d
            &&& c2.transmitted == c.transmitted + x
            &&& c2.transmitted + c2.queued == c2.submitted
            &&& msgs == data_messages(c.peer_channel, None, chunks(x, c.peer_max_packet as nat))
            &&& chunks(x, c.peer_max_packet as nat).flatten() == x
        }),
{
    lemma_send_data_invariant(c, None, d);
    let c1 = ChannelView { queued: c.queued + d, submitted: c.submitted + d, ..c };
    let s = sendable(c1, c1.queued);
    let x = c1.queued.subrange(0, s as int);
    let c2 = send_data(c, None, d).0;
    assert(c2.transmitted.subrange(c.transmitted.len() as int, c2.transmitted.len() as int) =~= x);
    lemma_chunks_reassemble(x, c.peer_max_packet as nat);
}

/// A window grant sends queued default-stream data in order as well: the next
/// part of the submitted bytes, in packets that reassemble to it, before any
/// extended data.
pub proof fn lemma_grant_window_order(c: ChannelView, delta: u32)
    requires
        channel_invariant(c),
        c.peer_max_packet > 0,
    ensures
        ({
            let (c3, msgs) = grant_window(c, delta);
            let x = c3.transmitted.subrange(c.transmitted.len() as int, c3.transmitted.len() as int);
            let c1 = ChannelView { peer_window: (c.peer_window + delta) as u32, ..c };
            &&& c3.submitted == c.submitted
            &&& c3.transmitted == c.transmitted + x
            &&& c3.transmitted + c3.queued == c3.submitted
            &&& msgs == data_messages(c.peer_channel, None, chunks(x, c.peer_max_packet as nat))
                + flush_extended_from(flush_default(c1).0, 0).1
            &&& chunks(x, c.peer_max_packet as nat).flatten() == x
        }),
{
    lemma_grant_window_invariant(c, delta);
    let c1 = ChannelView { peer_window: (c.peer_window + delta) as u32, ..c };
    let c2 = flush_default(c1).0;
    lemma_flush_extended_from_keeps(c2, 0);
    let x = c1.queued.subrange(0, sendable(c1, c1.queued) as int);
    let c3 = grant_window(c, delta).0;
    assert(c3.transmitted.subrange(c.transmitted.len() as int, c3.transmitted.len() as int) =~= x);
    lemma_chunks_reassemble(x, c.peer_max_packet as nat);
}

/// The peer never gets to send more than our initial window plus the
/// adjustments we sent: each adjustment we send raises `granted` by its delta.
pub proof fn lemma_window_sound(c: ChannelView, len: nat)
    requires
        channel_invariant(c),
    ensures
        c.received <= c.granted,
        len <= c.our_window ==> ({
            let (c2, adjust) = receive_data(c, len);
            &&& channel_invariant(c2)
            &&& c2.received == c.received + len
            &&& c2.granted == c.granted + match adjust {
                Some(delta) => delta as nat,
                None => 0,
            }
        }),
{
}

/// Two host `Close` operations in a row send exactly one CHANNEL_CLOSE.
pub proof fn lemma_close_idempotent(s: ChannelsView, n: u32)
    ensures
        ({
            let s1 = operation_step(s, n, OperationView::Close);
            let s2 = operation_step(s1, n, OperationView::Close);
            &&& s2 == s1
            &&& s1.outbox == match slot(s, n) {
                Some(SlotView::Open(c)) => if c.we_closed {
                    s.outbox
                } else {
                    s.outbox.push(msg_channel_close(c.peer_channel))
                },
                _ => s.outbox,
            }
        }),
{
    let s1 = operation_step(s, n, OperationView::Close);
    if let Some(SlotView::Open(c)) = slot(s, n) {
        if !c.we_closed {
            assert(slot(s1, n) == Some(SlotView::Open(ChannelView { we_closed: true, ..c })));
            assert(s1.outbox =~= s.outbox.push(msg_channel_close(c.peer_channel)));
        }
    }
}

/// After the host's `Close`, every operation of the host on that channel is
/// dropped without a packet.
pub proof fn lemma_silent_after_host_close(s: ChannelsView, n: u32, op: OperationView)
    ensures
        ({
            let s1 = operation_step(s, n, OperationView::Close);
            operation_step(s1, n, op) == s1
        }),
{
    let s1 = operation_step(s, n, OperationView::Close);
    if let Some(SlotView::Open(c)) = slot(s, n) {
        if !c.we_closed {
            assert(slot(s1, n) == Some(SlotView::Open(ChannelView { we_closed: true, ..c })));
        }
    }
}

/// After the peer's CHANNEL_CLOSE, every operation of the host on that channel
/// is dropped without a packet.
pub proof fn lemma_silent_after_peer_close(s: ChannelsView, n: u32, op: OperationView)
    ensures
        recv_step(s, Inbound::Close { recipient: n }) matches Ok(s1) ==> operation_step(s1, n, op) == s1,
{
    if let Ok(s1) = recv_step(s, Inbound::Close { recipient: n }) {
        assert(slot(s1, n) is None);
    }
}

/// One event on a connection: a message from the peer or an operation of the host.
pub enum Event {
    Peer(Inbound),
    Host(u32, OperationView),
}

/// The state after a sequence of events, or the first refusal.
pub open spec fn run(s: ChannelsView, events: Seq<Event>) -> Result<ChannelsView, ChannelError>
    decreases events.len(),
{
    if events.len() == 0 {
        Ok(s)
    } else {
        let next = match events[0] {
            Event::Peer(m) => recv_step(s, m),
            Event::Host(n, op) => Ok(operation_step(s, n, op)),
        };
        match next {
            Ok(s2) => run(s2, events.drop_first()),
            Err(e) => Err(e),
        }
    }
}

/// Over any sequence of peer messages and host operations, on every open
/// channel: the default-stream bytes sent so far, followed by those still
/// queued, are exactly the bytes the host handed over, in order, whatever
/// windows the peer granted; and the peer never sent more than the initial
/// window plus the adjustments we sent.
pub proof fn lemma_run_keeps_invariant(s: ChannelsView, events: Seq<Event>)
    requires
        view_wf(s),
    ensures
        run(s, events) matches Ok(s2) ==> view_wf(s2) && forall|i: int|
            0 <= i < s2.slots.len() ==> (#[trigger] s2.slots[i] matches Some(SlotView::Open(c)) ==> (
            c.transmitted + c.queued == c.submitted && c.received <= c.granted)),
    decreases events.len(),
{
    if events.len() > 0 {
        match events[0] {
            Event::Peer(m) => {
                lemma_recv_step_wf(s, m);
                if let Ok(s1) = recv_step(s, m) {
                    lemma_run_keeps_invariant(s1, events.drop_first());
                }
            },
            Event::Host(n, op) => {
                lemma_operation_step_wf(s, n, op);
                lemma_run_keeps_invariant(operation_step(s, n, op), events.drop_first());
            },
        }
    } else {
        assert forall|i: int| 0 <= i < s.slots.len() implies (#[trigger] s.slots[i] matches Some(
            SlotView::Open(c),
        ) ==> (c.transmitted + c.queued == c.submitted && c.received <= c.granted)) by {}
    }
}

} // verus!
