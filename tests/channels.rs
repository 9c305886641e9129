use cluelessh::channels::{
    ChannelError, ChannelKind, ChannelNumber, ChannelOperation, ChannelOperationKind,
    ChannelRequest, ChannelUpdateKind, ChannelsState,
};
use cluelessh::numbers;
use cluelessh::packet::Packet;

fn assert_response_types(state: &mut ChannelsState, types: &[u8]) {
    let response = state
        .packets_to_send()
        .into_iter()
        .map(|p| numbers::packet_type_to_string(p.packet_type()))
        .collect::<Vec<_>>();
    let expected = types
        .iter()
        .map(|p| numbers::packet_type_to_string(*p))
        .collect::<Vec<_>>();
    assert_eq!(expected, response);
}

fn open_session_channel(state: &mut ChannelsState) {
    state
        .recv_packet(Packet::new_msg_channel_open_session(b"session", 0, 2048, 1024))
        .unwrap();
    assert_response_types(state, &[numbers::SSH_MSG_CHANNEL_OPEN_CONFIRMATION]);
}

fn data_lengths(state: &mut ChannelsState) -> Vec<usize> {
    state
        .packets_to_send()
        .into_iter()
        .map(|p| {
            assert_eq!(p.packet_type(), numbers::SSH_MSG_CHANNEL_DATA);
            p.payload.len() - 9
        })
        .collect()
}

#[test]
fn interactive_pty() {
    let state = &mut ChannelsState::new(true);
    open_session_channel(state);
    assert!(matches!(
        state.next_channel_update().unwrap().kind,
        ChannelUpdateKind::Open(ChannelKind::Session)
    ));

    state
        .recv_packet(Packet::new_msg_channel_request_pty_req(
            0, b"pty-req", true, b"xterm", 80, 24, 0, 0, b"",
        ))
        .unwrap();
    match state.next_channel_update().unwrap().kind {
        ChannelUpdateKind::Request(ChannelRequest::PtyReq {
            want_reply,
            term,
            width_chars,
            height_rows,
            ..
        }) => {
            assert!(want_reply);
            assert_eq!(term, "xterm");
            assert_eq!((width_chars, height_rows), (80, 24));
        }
        _ => panic!("expected a pty request"),
    }
    state.do_operation(ChannelNumber(0).construct_op(ChannelOperationKind::Success));
    assert_response_types(state, &[numbers::SSH_MSG_CHANNEL_SUCCESS]);

    state
        .recv_packet(Packet::new_msg_channel_request_shell(0, b"shell", true))
        .unwrap();
    state.do_operation(ChannelNumber(0).construct_op(ChannelOperationKind::Success));
    assert_response_types(state, &[numbers::SSH_MSG_CHANNEL_SUCCESS]);

    state
        .recv_packet(Packet::new_msg_channel_data(0, b"hello, world"))
        .unwrap();
    assert_response_types(state, &[]);

    state.recv_packet(Packet::new_msg_channel_eof(0)).unwrap();
    assert_response_types(state, &[]);

    state.recv_packet(Packet::new_msg_channel_close(0)).unwrap();
    assert_response_types(state, &[numbers::SSH_MSG_CHANNEL_CLOSE]);

    let kinds: Vec<ChannelUpdateKind> = std::iter::from_fn(|| state.next_channel_update())
        .map(|u| u.kind)
        .collect();
    assert_eq!(kinds.len(), 4);
    assert!(matches!(kinds[0], ChannelUpdateKind::Request(ChannelRequest::Shell { want_reply: true })));
    match &kinds[1] {
        ChannelUpdateKind::Data { data } => assert_eq!(data, b"hello, world"),
        _ => panic!("expected data"),
    }
    assert!(matches!(kinds[2], ChannelUpdateKind::Eof));
    assert!(matches!(kinds[3], ChannelUpdateKind::Closed));
}

#[test]
fn only_single_close_for_double_close_operation() {
    let state = &mut ChannelsState::new(true);
    open_session_channel(state);
    state.do_operation(ChannelOperation {
        number: ChannelNumber(0),
        kind: ChannelOperationKind::Close,
    });
    state.do_operation(ChannelOperation {
        number: ChannelNumber(0),
        kind: ChannelOperationKind::Close,
    });
    assert_response_types(state, &[numbers::SSH_MSG_CHANNEL_CLOSE]);
}

#[test]
fn ignore_operation_after_close() {
    let state = &mut ChannelsState::new(true);
    open_session_channel(state);
    state.recv_packet(Packet::new_msg_channel_close(0)).unwrap();
    assert_response_types(state, &[numbers::SSH_MSG_CHANNEL_CLOSE]);
    state.do_operation(ChannelOperation {
        number: ChannelNumber(0),
        kind: ChannelOperationKind::Data(vec![0]),
    });
    assert_response_types(state, &[]);
}

#[test]
fn operations_after_host_close_are_dropped() {
    let state = &mut ChannelsState::new(true);
    open_session_channel(state);
    state.do_operation(ChannelNumber(0).construct_op(ChannelOperationKind::Close));
    assert_response_types(state, &[numbers::SSH_MSG_CHANNEL_CLOSE]);
    state.do_operation(ChannelNumber(0).construct_op(ChannelOperationKind::Data(vec![1, 2])));
    state.do_operation(ChannelNumber(0).construct_op(ChannelOperationKind::Eof));
    state.do_operation(ChannelNumber(0).construct_op(ChannelOperationKind::Success));
    assert_response_types(state, &[]);
}

#[test]
fn respect_peer_windowing() {
    let state = &mut ChannelsState::new(true);
    state
        .recv_packet(Packet::new_msg_channel_open_session(b"session", 0, 10, 50))
        .unwrap();
    assert_response_types(state, &[numbers::SSH_MSG_CHANNEL_OPEN_CONFIRMATION]);

    state.do_operation(
        ChannelNumber(0).construct_op(ChannelOperationKind::Data((0_u8..200).collect::<Vec<_>>())),
    );
    assert_eq!(data_lengths(state), vec![10]);

    state
        .recv_packet(Packet::new_msg_channel_window_adjust(0, 90))
        .unwrap();
    assert_eq!(data_lengths(state), vec![50, 40]);

    state
        .recv_packet(Packet::new_msg_channel_window_adjust(0, 100))
        .unwrap();
    assert_eq!(data_lengths(state), vec![50, 50]);

    state
        .recv_packet(Packet::new_msg_channel_window_adjust(0, 100))
        .unwrap();
    assert_response_types(state, &[]);
}

#[test]
fn windowed_data_reassembles_in_order() {
    let state = &mut ChannelsState::new(true);
    state
        .recv_packet(Packet::new_msg_channel_open_session(b"session", 3, 7, 4))
        .unwrap();
    state.packets_to_send();
    state.do_operation(ChannelNumber(0).construct_op(ChannelOperationKind::Data((0_u8..10).collect())));
    state.do_operation(ChannelNumber(0).construct_op(ChannelOperationKind::Data((10_u8..20).collect())));
    let mut seen = Vec::new();
    for grant in [1u32, 5, 100] {
        for p in state.packets_to_send() {
            assert_eq!(p.packet_type(), numbers::SSH_MSG_CHANNEL_DATA);
            assert_eq!(&p.payload[1..5], &3u32.to_be_bytes());
            assert!(p.payload.len() - 9 <= 4);
            seen.extend_from_slice(&p.payload[9..]);
        }
        state
            .recv_packet(Packet::new_msg_channel_window_adjust(0, grant))
            .unwrap();
    }
    for p in state.packets_to_send() {
        seen.extend_from_slice(&p.payload[9..]);
    }
    assert_eq!(seen, (0_u8..20).collect::<Vec<_>>());
}

#[test]
fn extended_data_waits_for_window() {
    let state = &mut ChannelsState::new(true);
    state
        .recv_packet(Packet::new_msg_channel_open_session(b"session", 0, 0, 50))
        .unwrap();
    state.packets_to_send();
    state.do_operation(ChannelNumber(0).construct_op(ChannelOperationKind::ExtendedData(1, vec![9; 30])));
    assert_response_types(state, &[]);
    state
        .recv_packet(Packet::new_msg_channel_window_adjust(0, 20))
        .unwrap();
    let packets = state.packets_to_send();
    assert_eq!(packets.len(), 1);
    assert_eq!(packets[0].packet_type(), numbers::SSH_MSG_CHANNEL_EXTENDED_DATA);
    assert_eq!(&packets[0].payload[5..9], &1u32.to_be_bytes());
    assert_eq!(packets[0].payload.len() - 13, 20);
}

#[test]
fn send_windowing_adjustments() {
    let state = &mut ChannelsState::new(true);
    state
        .recv_packet(Packet::new_msg_channel_open_session(b"session", 0, 2000, 2000))
        .unwrap();
    assert_response_types(state, &[numbers::SSH_MSG_CHANNEL_OPEN_CONFIRMATION]);

    state
        .recv_packet(Packet::new_msg_channel_data(0, &vec![0; 2000]))
        .unwrap();
    let adjust = state.packets_to_send();
    assert_eq!(adjust.len(), 1);
    assert_eq!(adjust[0].payload, Packet::new_msg_channel_window_adjust(0, 2000).payload);

    state
        .recv_packet(Packet::new_msg_channel_data(0, &vec![0; 1000]))
        .unwrap();
    assert_response_types(state, &[]);
    state
        .recv_packet(Packet::new_msg_channel_data(0, &vec![0; 1]))
        .unwrap();
    assert_response_types(state, &[numbers::SSH_MSG_CHANNEL_WINDOW_ADJUST]);
}

#[test]
fn data_beyond_window_is_refused() {
    let state = &mut ChannelsState::new(true);
    state
        .recv_packet(Packet::new_msg_channel_open_session(b"session", 0, 10, 100))
        .unwrap();
    state.packets_to_send();
    assert_eq!(
        state.recv_packet(Packet::new_msg_channel_data(0, &[0; 11])),
        Err(ChannelError::WindowExceeded)
    );
    assert_response_types(state, &[]);
}

#[test]
fn data_beyond_max_packet_is_refused() {
    let state = &mut ChannelsState::new(true);
    state
        .recv_packet(Packet::new_msg_channel_open_session(b"session", 0, 100, 10))
        .unwrap();
    assert_eq!(
        state.recv_packet(Packet::new_msg_channel_data(0, &[0; 11])),
        Err(ChannelError::PacketTooLarge)
    );
}

#[test]
fn unknown_channel_is_refused() {
    let state = &mut ChannelsState::new(true);
    assert_eq!(
        state.recv_packet(Packet::new_msg_channel_data(4, b"x")),
        Err(ChannelError::UnknownChannel(4))
    );
    assert_eq!(
        state.recv_packet(Packet::new_msg_channel_eof(0)),
        Err(ChannelError::UnknownChannel(0))
    );
}

#[test]
fn window_overflow_is_refused() {
    let state = &mut ChannelsState::new(true);
    state
        .recv_packet(Packet::new_msg_channel_open_session(b"session", 0, 10, 100))
        .unwrap();
    assert_eq!(
        state.recv_packet(Packet::new_msg_channel_window_adjust(0, u32::MAX)),
        Err(ChannelError::WindowOverflow)
    );
}

#[test]
fn malformed_and_unsupported_messages() {
    let state = &mut ChannelsState::new(true);
    assert_eq!(
        state.recv_packet(Packet { payload: vec![] }),
        Err(ChannelError::Malformed)
    );
    assert_eq!(
        state.recv_packet(Packet { payload: vec![numbers::SSH_MSG_CHANNEL_DATA, 0, 0] }),
        Err(ChannelError::Malformed)
    );
    assert_eq!(
        state.recv_packet(Packet { payload: vec![numbers::SSH_MSG_KEXINIT] }),
        Err(ChannelError::UnsupportedMessage(numbers::SSH_MSG_KEXINIT))
    );
}

#[test]
fn client_refuses_shell_request() {
    let state = &mut ChannelsState::new(false);
    let n = state.create_channel(ChannelKind::Session);
    assert_eq!(n, ChannelNumber(0));
    let open = state.packets_to_send();
    assert_eq!(
        open[0].payload,
        Packet::new_msg_channel_open_session(b"session", 0, 2097152, 32768).payload
    );
    state
        .recv_packet(Packet::new_msg_channel_open_confirmation(0, 7, 100, 100))
        .unwrap();
    assert!(matches!(
        state.next_channel_update().unwrap().kind,
        ChannelUpdateKind::Open(ChannelKind::Session)
    ));
    assert_eq!(
        state.recv_packet(Packet::new_msg_channel_request_shell(0, b"shell", true)),
        Err(ChannelError::RequestNotForClient)
    );
}

#[test]
fn open_failure_removes_pending_channel() {
    let state = &mut ChannelsState::new(false);
    state.create_channel(ChannelKind::Session);
    state.packets_to_send();
    state
        .recv_packet(Packet::new_msg_channel_open_failure(0, 2, b"nope", b""))
        .unwrap();
    match state.next_channel_update().unwrap().kind {
        ChannelUpdateKind::OpenFailed { code, message } => {
            assert_eq!(code, 2);
            assert_eq!(message, "nope");
        }
        _ => panic!("expected open failure"),
    }
    assert_eq!(
        state.recv_packet(Packet::new_msg_channel_open_confirmation(0, 1, 1, 1)),
        Err(ChannelError::UnknownChannel(0))
    );
}

#[test]
fn unknown_channel_type_is_refused() {
    let state = &mut ChannelsState::new(true);
    state
        .recv_packet(Packet::new_msg_channel_open_session(b"x11", 5, 10, 10))
        .unwrap();
    let packets = state.packets_to_send();
    assert_eq!(
        packets[0].payload,
        Packet::new_msg_channel_open_failure(5, 3, b"unknown channel type", b"").payload
    );
    assert!(state.next_channel_update().is_none());
}

#[test]
fn unknown_request_gets_failure_only_when_reply_wanted() {
    let state = &mut ChannelsState::new(true);
    open_session_channel(state);
    state
        .recv_packet(Packet::new_msg_channel_request_shell(0, b"x-custom", false))
        .unwrap();
    assert_response_types(state, &[]);
    state
        .recv_packet(Packet::new_msg_channel_request_shell(0, b"x-custom", true))
        .unwrap();
    assert_response_types(state, &[numbers::SSH_MSG_CHANNEL_FAILURE]);
    state
        .recv_packet(Packet::new_msg_channel_request_shell(0, b"signal", true))
        .unwrap();
    assert_response_types(state, &[]);
}

#[test]
fn global_request_is_refused() {
    let state = &mut ChannelsState::new(true);
    let mut payload = vec![numbers::SSH_MSG_GLOBAL_REQUEST, 0, 0, 0, 1, b'a', 1];
    state.recv_packet(Packet { payload: payload.clone() }).unwrap();
    assert_response_types(state, &[numbers::SSH_MSG_REQUEST_FAILURE]);
    payload.truncate(6);
    assert_eq!(state.recv_packet(Packet { payload }), Err(ChannelError::Malformed));
}

#[test]
fn exit_status_request_is_sent() {
    let state = &mut ChannelsState::new(true);
    open_session_channel(state);
    state.do_operation(
        ChannelNumber(0).construct_op(ChannelOperationKind::Request(ChannelRequest::ExitStatus { status: 3 })),
    );
    let packets = state.packets_to_send();
    assert_eq!(
        packets[0].payload,
        Packet::new_msg_channel_request_exit_status(0, b"exit-status", false, 3).payload
    );
}
