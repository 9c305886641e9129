//! A server-only channel multiplexer without flow control: sessions opened by
//! the client, their requests, data, end of file and close.
use std::collections::VecDeque;
use vstd::prelude::*;

use crate::channels::{
    bytes_session, bytes_unknown_channel_type, name_session, parse_inbound, parse_inbound_exec,
    payloads, push_packet, text_unknown_channel_type, ChannelError, Inbound, InboundMessage,
    InboundRequest, RequestBody, RequestView,
};
use crate::numbers;
use crate::packet::{
    msg_channel_close, msg_channel_data, msg_channel_failure, msg_channel_open_confirmation,
    msg_channel_open_failure, msg_channel_success, msg_request_failure, Packet,
};

verus! {

/// A channel number (on our side).
#[derive(Debug, Clone, Copy, PartialEq, Eq, Hash, Structural)]
pub struct ChannelNumber(pub u32);

#[derive(Debug, Clone, Copy, PartialEq, Eq, Structural)]
pub enum ChannelOpen {
    Session,
}

#[derive(Debug)]
pub struct ChannelRequest {
    pub want_reply: bool,
    pub kind: ChannelRequestKind,
}

#[derive(Debug)]
pub enum ChannelRequestKind {
    PtyReq {
        term: String,
        width_chars: u32,
        height_rows: u32,
        width_px: u32,
        height_px: u32,
        term_modes: Vec<u8>,
    },
    Shell,
    Exec { command: Vec<u8> },
}

/// An update from a channel: what the client did.
#[derive(Debug)]
pub struct ChannelUpdate {
    pub number: ChannelNumber,
    pub kind: ChannelUpdateKind,
}

#[derive(Debug)]
pub enum ChannelUpdateKind {
    Open(ChannelOpen),
    Request(ChannelRequest),
    Data { data: Vec<u8> },
    ExtendedData { code: u32, data: Vec<u8> },
    Eof,
    Closed,
}

/// An operation to do on a channel.
pub struct ChannelOperation {
    pub number: ChannelNumber,
    pub kind: ChannelOperationKind,
}

pub enum ChannelOperationKind {
    Success,
    Failure,
    Data(Vec<u8>),
    Close,
}

impl ChannelNumber {
    pub fn construct_op(self, kind: ChannelOperationKind) -> (r: ChannelOperation)
        ensures
            r.number == self,
            r.kind == kind,
    {
        ChannelOperation { number: self, kind }
    }
}

// ---- Views ---------------------------------------------------------------------------
pub enum RequestKindView {
    PtyReq {
        term: Seq<char>,
        width_chars: u32,
        height_rows: u32,
        width_px: u32,
        height_px: u32,
        term_modes: Seq<u8>,
    },
    Shell,
    Exec { command: Seq<u8> },
}

pub enum UpdateKindView {
    Open,
    Request { want_reply: bool, kind: RequestKindView },
    Data { data: Seq<u8> },
    ExtendedData { code: u32, data: Seq<u8> },
    Eof,
    Closed,
}

pub struct UpdateView {
    pub number: u32,
    pub kind: UpdateKindView,
}

impl View for ChannelUpdate {
    type V = UpdateView;

    open spec fn view(&self) -> UpdateView {
        UpdateView {
            number: self.number.0,
            kind: match &self.kind {
                ChannelUpdateKind::Open(_) => UpdateKindView::Open,
                ChannelUpdateKind::Request(r) => UpdateKindView::Request {
                    want_reply: r.want_reply,
                    kind: match &r.kind {
                        ChannelRequestKind::PtyReq {
                            term,
                            width_chars,
                            height_rows,
                            width_px,
                            height_px,
                            term_modes,
                        } => RequestKindView::PtyReq {
                            term: term@,
                            width_chars: *width_chars,
                            height_rows: *height_rows,
                            width_px: *width_px,
                            height_px: *height_px,
                            term_modes: term_modes@,
                        },
                        ChannelRequestKind::Shell => RequestKindView::Shell,
                        ChannelRequestKind::Exec { command } => RequestKindView::Exec {
                            command: command@,
                        },
                    },
                },
                ChannelUpdateKind::Data { data } => UpdateKindView::Data { data: data@ },
                ChannelUpdateKind::ExtendedData { code, data } => UpdateKindView::ExtendedData {
                    code: *code,
                    data: data@,
                },
                ChannelUpdateKind::Eof => UpdateKindView::Eof,
                ChannelUpdateKind::Closed => UpdateKindView::Closed,
            },
        }
    }
}

pub struct ChannelView {
    pub peer_channel: u32,
    /// Whether we sent CHANNEL_CLOSE.
    pub we_closed: bool,
}

pub struct ServerChannelsView {
    /// Indexed by our channel number; `None` once closed.
    pub slots: Seq<Option<ChannelView>>,
    /// Payloads of the packets waiting to be sent, oldest first.
    pub outbox: Seq<Seq<u8>>,
    /// Updates waiting for the host, oldest first.
    pub updates: Seq<UpdateView>,
}

pub enum OperationView {
    Success,
    Failure,
    Data(Seq<u8>),
    Close,
}

impl View for ChannelOperationKind {
    type V = OperationView;

    open spec fn view(&self) -> OperationView {
        match self {
            ChannelOperationKind::Success => OperationView::Success,
            ChannelOperationKind::Failure => OperationView::Failure,
            ChannelOperationKind::Data(d) => OperationView::Data(d@),
            ChannelOperationKind::Close => OperationView::Close,
        }
    }
}

pub open spec fn slot(s: ServerChannelsView, n: u32) -> Option<ChannelView> {
    if n < s.slots.len() {
        s.slots[n as int]
    } else {
        None
    }
}

pub open spec fn emit(s: ServerChannelsView, msg: Seq<u8>) -> ServerChannelsView {
    ServerChannelsView { outbox: s.outbox.push(msg), ..s }
}

pub open spec fn notify(s: ServerChannelsView, n: u32, kind: UpdateKindView) -> ServerChannelsView {
    ServerChannelsView { updates: s.updates.push(UpdateView { number: n, kind }), ..s }
}

/// The requests this multiplexer hands to the host.
pub open spec fn request_kind(r: RequestView) -> Option<RequestKindView> {
    match r {
        RequestView::PtyReq {
            term,
            width_chars,
            height_rows,
            width_px,
            height_px,
            term_modes,
            ..
        } => Some(
            RequestKindView::PtyReq { term, width_chars, height_rows, width_px, height_px, term_modes },
        ),
        RequestView::Shell { .. } => Some(RequestKindView::Shell),
        RequestView::Exec { command, .. } => Some(RequestKindView::Exec { command }),
        _ => None,
    }
}

/// What a message of the client does, or why it is refused.
pub open spec fn recv_step(s: ServerChannelsView, m: Inbound) -> Result<ServerChannelsView, ChannelError> {
    match m {
        Inbound::GlobalRequest => Ok(emit(s, msg_request_failure())),
        Inbound::Open { kind, sender, window, max_packet } => if kind != name_session() {
            Ok(
                emit(
                    s,
                    msg_channel_open_failure(
                        sender,
                        numbers::SSH_OPEN_UNKNOWN_CHANNEL_TYPE,
                        text_unknown_channel_type(),
                        Seq::empty(),
                    ),
                ),
            )
        } else if s.slots.len() >= u32::MAX {
            Err(ChannelError::TooManyChannels)
        } else {
            let n = s.slots.len() as u32;
            Ok(
                notify(
                    ServerChannelsView {
                        slots: s.slots.push(Some(ChannelView { peer_channel: sender, we_closed: false })),
                        outbox: s.outbox.push(msg_channel_open_confirmation(sender, n, window, max_packet)),
                        ..s
                    },
                    n,
                    UpdateKindView::Open,
                ),
            )
        },
        Inbound::Data { recipient, code, data } => match slot(s, recipient) {
            Some(_) => Ok(
                notify(
                    s,
                    recipient,
                    match code {
                        Some(k) => UpdateKindView::ExtendedData { code: k, data },
                        None => UpdateKindView::Data { data },
                    },
                ),
            ),
            None => Err(ChannelError::UnknownChannel(recipient)),
        },
        Inbound::Eof { recipient } => match slot(s, recipient) {
            Some(_) => Ok(notify(s, recipient, UpdateKindView::Eof)),
            None => Err(ChannelError::UnknownChannel(recipient)),
        },
        Inbound::Close { recipient } => match slot(s, recipient) {
            Some(c) => {
                let s1 = if c.we_closed {
                    s
                } else {
                    emit(s, msg_channel_close(c.peer_channel))
                };
                Ok(
                    notify(
                        ServerChannelsView { slots: s1.slots.update(recipient as int, None), ..s1 },
                        recipient,
                        UpdateKindView::Closed,
                    ),
                )
            },
            None => Err(ChannelError::UnknownChannel(recipient)),
        },
        Inbound::Request { recipient, want_reply, body } => match slot(s, recipient) {
            Some(c) => match body {
                RequestBody::Signal => Ok(s),
                RequestBody::Known(r) if request_kind(r) is Some => Ok(
                    notify(
                        s,
                        recipient,
                        UpdateKindView::Request { want_reply, kind: request_kind(r)->Some_0 },
                    ),
                ),
                _ => if want_reply {
                    Ok(emit(s, msg_channel_failure(c.peer_channel)))
                } else {
                    Ok(s)
                },
            },
            None => Err(ChannelError::UnknownChannel(recipient)),
        },
        Inbound::OpenConfirmation { .. } => Err(
            ChannelError::UnsupportedMessage(numbers::SSH_MSG_CHANNEL_OPEN_CONFIRMATION),
        ),
        Inbound::OpenFailure { .. } => Err(
            ChannelError::UnsupportedMessage(numbers::SSH_MSG_CHANNEL_OPEN_FAILURE),
        ),
        Inbound::WindowAdjust { .. } => Err(
            ChannelError::UnsupportedMessage(numbers::SSH_MSG_CHANNEL_WINDOW_ADJUST),
        ),
        Inbound::Success { .. } => Err(
            ChannelError::UnsupportedMessage(numbers::SSH_MSG_CHANNEL_SUCCESS),
        ),
        Inbound::Failure { .. } => Err(
            ChannelError::UnsupportedMessage(numbers::SSH_MSG_CHANNEL_FAILURE),
        ),
    }
}

/// What the host's operation on channel `n` does; dropped on a channel that is
/// gone or that we closed.
pub open spec fn operation_step(s: ServerChannelsView, n: u32, op: OperationView) -> ServerChannelsView {
    match slot(s, n) {
        Some(c) => if c.we_closed {
            s
        } else {
            match op {
                OperationView::Success => emit(s, msg_channel_success(c.peer_channel)),
                OperationView::Failure => emit(s, msg_channel_failure(c.peer_channel)),
                OperationView::Data(d) => emit(s, msg_channel_data(c.peer_channel, d)),
                OperationView::Close => emit(
                    ServerChannelsView {
                        slots: s.slots.update(n as int, Some(ChannelView { we_closed: true, ..c })),
                        ..s
                    },
                    msg_channel_close(c.peer_channel),
                ),
            }
        },
        None => s,
    }
}

/// Two host `Close` operations in a row send exactly one CHANNEL_CLOSE, and
/// every later operation on the channel is dropped.
pub proof fn lemma_close_idempotent(s: ServerChannelsView, n: u32, op: OperationView)
    ensures
        ({
            let s1 = operation_step(s, n, OperationView::Close);
            &&& operation_step(s1, n, op) == s1
            &&& s1.outbox == match slot(s, n) {
                Some(c) => if c.we_closed {
                    s.outbox
                } else {
                    s.outbox.push(msg_channel_close(c.peer_channel))
                },
                None => s.outbox,
            }
        }),
{
    let s1 = operation_step(s, n, OperationView::Close);
    if let Some(c) = slot(s, n) {
        if !c.we_closed {
            assert(slot(s1, n) == Some(ChannelView { we_closed: true, ..c }));
        }
    }
}

// ---- The multiplexer -----------------------------------------------------------------
struct Channel {
    /// Whether our side has closed this channel.
    we_closed: bool,
    /// The channel number for the other side.
    peer_channel: u32,
}

spec fn channel_view(c: Option<Channel>) -> Option<ChannelView> {
    match c {
        Some(c) => Some(ChannelView { peer_channel: c.peer_channel, we_closed: c.we_closed }),
        None => None,
    }
}

pub struct ServerChannelsState {
    packets_to_send: Vec<Packet>,
    channel_updates: VecDeque<ChannelUpdate>,
    /// Indexed by our channel number, which is handed out by counting up.
    channels: Vec<Option<Channel>>,
}

impl View for ServerChannelsState {
    type V = ServerChannelsView;

    closed spec fn view(&self) -> ServerChannelsView {
        ServerChannelsView {
            slots: self.channels@.map_values(|c: Option<Channel>| channel_view(c)),
            outbox: payloads(self.packets_to_send@),
            updates: self.channel_updates@.map_values(|u: ChannelUpdate| u@),
        }
    }
}

impl ServerChannelsState {
    pub fn new() -> (r: Self)
        ensures
            r@.slots.len() == 0,
            r@.outbox.len() == 0,
            r@.updates.len() == 0,
    {
        let r = ServerChannelsState {
            packets_to_send: Vec::new(),
            channel_updates: VecDeque::new(),
            channels: Vec::new(),
        };
        assert(r@.slots =~= Seq::empty());
        r
    }

    fn emit_packet(&mut self, p: Packet)
        ensures
            final(self)@ == emit(old(self)@, p.payload@),
    {
        push_packet(&mut self.packets_to_send, p);
    }

    fn notify_update(&mut self, u: ChannelUpdate)
        ensures
            final(self)@ == notify(old(self)@, u@.number, u@.kind),
    {
        let ghost uv = u@;
        self.channel_updates.push_back(u);
        assert(self@.updates =~= old(self)@.updates.push(UpdateView { number: uv.number, kind: uv.kind }));
    }

    fn channel(&self, n: u32) -> (r: Option<&Channel>)
        ensures
            match slot(self@, n) {
                Some(c) => r matches Some(ch) && ch.peer_channel == c.peer_channel && ch.we_closed
                    == c.we_closed,
                None => r is None,
            },
    {
        if n as usize >= self.channels.len() {
            return None;
        }
        match &self.channels[n as usize] {
            Some(c) => Some(c),
            None => None,
        }
    }

    fn set_channel(&mut self, n: u32, c: Option<Channel>)
        requires
            n < old(self)@.slots.len(),
        ensures
            final(self)@ == (ServerChannelsView { slots: old(self)@.slots.update(n as int, channel_view(c)), ..old(self)@ }),
    {
        let ghost cv = channel_view(c);
        let mut c = c;
        std::mem::swap(&mut c, &mut self.channels[n as usize]);
        assert(self@.slots =~= old(self)@.slots.update(n as int, cv));
    }

    fn handle(&mut self, m: InboundMessage) -> (r: Result<(), ChannelError>)
        ensures
            match recv_step(old(self)@, m@) {
                Ok(v) => r is Ok && final(self)@ == v,
                Err(e) => r == Err::<(), ChannelError>(e) && final(self)@ == old(self)@,
            },
    {
        match m {
            InboundMessage::GlobalRequest => {
                self.emit_packet(Packet::new_msg_request_failure());
                Ok(())
            },
            InboundMessage::Open { kind, sender, window, max_packet } => {
                if !crate::wire::bytes_eq(kind.as_slice(), bytes_session().as_slice()) {
                    let desc = bytes_unknown_channel_type();
                    let lang: Vec<u8> = Vec::new();
                    assert(lang@ =~= Seq::<u8>::empty());
                    self.emit_packet(
                        Packet::new_msg_channel_open_failure(
                            sender,
                            numbers::SSH_OPEN_UNKNOWN_CHANNEL_TYPE,
                            desc.as_slice(),
                            lang.as_slice(),
                        ),
                    );
                    return Ok(());
                }
                if self.channels.len() >= u32::MAX as usize {
                    return Err(ChannelError::TooManyChannels);
                }
                let our_number = self.channels.len() as u32;
                self.emit_packet(
                    Packet::new_msg_channel_open_confirmation(sender, our_number, window, max_packet),
                );
                let ghost before = self@;
                self.channels.push(Some(Channel { we_closed: false, peer_channel: sender }));
                assert(self@.slots =~= before.slots.push(
                    Some(ChannelView { peer_channel: sender, we_closed: false }),
                ));
                self.notify_update(
                    ChannelUpdate {
                        number: ChannelNumber(our_number),
                        kind: ChannelUpdateKind::Open(ChannelOpen::Session),
                    },
                );
                Ok(())
            },
            InboundMessage::Data { recipient, code, data } => {
                if self.channel(recipient).is_none() {
                    return Err(ChannelError::UnknownChannel(recipient));
                }
                let kind = match code {
                    Some(k) => ChannelUpdateKind::ExtendedData { code: k, data },
                    None => ChannelUpdateKind::Data { data },
                };
                self.notify_update(ChannelUpdate { number: ChannelNumber(recipient), kind });
                Ok(())
            },
            InboundMessage::Eof { recipient } => {
                if self.channel(recipient).is_none() {
                    return Err(ChannelError::UnknownChannel(recipient));
                }
                self.notify_update(
                    ChannelUpdate { number: ChannelNumber(recipient), kind: ChannelUpdateKind::Eof },
                );
                Ok(())
            },
            InboundMessage::Close { recipient } => {
                let Some(c) = self.channel(recipient) else {
                    return Err(ChannelError::UnknownChannel(recipient));
                };
                if !c.we_closed {
                    let p = Packet::new_msg_channel_close(c.peer_channel);
                    self.emit_packet(p);
                }
                self.set_channel(recipient, None);
                self.notify_update(
                    ChannelUpdate { number: ChannelNumber(recipient), kind: ChannelUpdateKind::Closed },
                );
                Ok(())
            },
            InboundMessage::Request { recipient, want_reply, body } => {
                let Some(c) = self.channel(recipient) else {
                    return Err(ChannelError::UnknownChannel(recipient));
                };
                let peer = c.peer_channel;
                let kind = match body {
                    InboundRequest::Signal => {
                        return Ok(());
                    },
                    InboundRequest::Known(crate::channels::ChannelRequest::PtyReq {
                        term,
                        width_chars,
                        height_rows,
                        width_px,
                        height_px,
                        term_modes,
                        ..
                    }) => Some(
                        ChannelRequestKind::PtyReq {
                            term,
                            width_chars,
                            height_rows,
                            width_px,
                            height_px,
                            term_modes,
                        },
                    ),
                    InboundRequest::Known(crate::channels::ChannelRequest::Shell { .. }) => Some(
                        ChannelRequestKind::Shell,
                    ),
                    InboundRequest::Known(crate::channels::ChannelRequest::Exec { command, .. }) =>
                        Some(ChannelRequestKind::Exec { command }),
                    _ => None,
                };
                match kind {
                    Some(kind) => {
                        self.notify_update(
                            ChannelUpdate {
                                number: ChannelNumber(recipient),
                                kind: ChannelUpdateKind::Request(ChannelRequest { want_reply, kind }),
                            },
                        );
                    },
                    None => {
                        if want_reply {
                            self.emit_packet(Packet::new_msg_channel_failure(peer));
                        }
                    },
                }
                Ok(())
            },
            InboundMessage::OpenConfirmation { .. } => Err(
                ChannelError::UnsupportedMessage(numbers::SSH_MSG_CHANNEL_OPEN_CONFIRMATION),
            ),
            InboundMessage::OpenFailure { .. } => Err(
                ChannelError::UnsupportedMessage(numbers::SSH_MSG_CHANNEL_OPEN_FAILURE),
            ),
            InboundMessage::WindowAdjust { .. } => Err(
                ChannelError::UnsupportedMessage(numbers::SSH_MSG_CHANNEL_WINDOW_ADJUST),
            ),
            InboundMessage::Success { .. } => Err(
                ChannelError::UnsupportedMessage(numbers::SSH_MSG_CHANNEL_SUCCESS),
            ),
            InboundMessage::Failure { .. } => Err(
                ChannelError::UnsupportedMessage(numbers::SSH_MSG_CHANNEL_FAILURE),
            ),
        }
    }

    /// Handles one connection-protocol packet from the client. On error nothing
    /// changes; the error is fatal to the connection.
    pub fn recv_packet(&mut self, packet: Packet) -> (r: Result<(), ChannelError>)
        ensures
            match parse_inbound(packet.payload@) {
                Err(e) => r == Err::<(), ChannelError>(e) && final(self)@ == old(self)@,
                Ok(m) => match recv_step(old(self)@, m) {
                    Ok(v) => r is Ok && final(self)@ == v,
                    Err(e) => r == Err::<(), ChannelError>(e) && final(self)@ == old(self)@,
                },
            },
    {
        match parse_inbound_exec(packet.payload.as_slice()) {
            Err(e) => Err(e),
            Ok(m) => self.handle(m),
        }
    }

    /// Takes every packet waiting to be sent, oldest first.
    pub fn packets_to_send(&mut self) -> (r: Vec<Packet>)
        ensures
            payloads(r@) == old(self)@.outbox,
            final(self)@ == (ServerChannelsView { outbox: Seq::empty(), ..old(self)@ }),
    {
        let mut out: Vec<Packet> = Vec::new();
        std::mem::swap(&mut out, &mut self.packets_to_send);
        assert(self@.outbox =~= Seq::empty());
        out
    }

    /// Takes the oldest update for the host.
    pub fn next_channel_update(&mut self) -> (r: Option<ChannelUpdate>)
        ensures
            if old(self)@.updates.len() > 0 {
                &&& r matches Some(u) && u@ == old(self)@.updates[0]
                &&& final(self)@ == (ServerChannelsView { updates: old(self)@.updates.drop_first(), ..old(self)@ })
            } else {
                r is None && final(self)@ == old(self)@
            },
    {
        let r = self.channel_updates.pop_front();
        assert(self@.updates =~= if old(self)@.updates.len() > 0 {
            old(self)@.updates.drop_first()
        } else {
            old(self)@.updates
        });
        r
    }

    /// Carries out an operation of the host; dropped on a channel that is gone
    /// or that we closed.
    pub fn do_operation(&mut self, op: ChannelOperation)
        requires
            op.kind matches ChannelOperationKind::Data(d) ==> d@.len() <= u32::MAX,
        ensures
            final(self)@ == operation_step(old(self)@, op.number.0, op.kind@),
    {
        let n = op.number.0;
        let Some(c) = self.channel(n) else {
            return;
        };
        if c.we_closed {
            return;
        }
        let peer = c.peer_channel;
        match op.kind {
            ChannelOperationKind::Success => self.emit_packet(Packet::new_msg_channel_success(peer)),
            ChannelOperationKind::Failure => self.emit_packet(Packet::new_msg_channel_failure(peer)),
            ChannelOperationKind::Data(data) => self.emit_packet(
                Packet::new_msg_channel_data(peer, data.as_slice()),
            ),
            ChannelOperationKind::Close => {
                self.set_channel(n, Some(Channel { we_closed: true, peer_channel: peer }));
                self.emit_packet(Packet::new_msg_channel_close(peer));
            },
        }
    }
}

} // verus!
