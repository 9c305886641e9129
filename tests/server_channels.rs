use cluelessh::numbers;
use cluelessh::packet::Packet;
use cluelessh::server_channels::{
    ChannelNumber, ChannelOperationKind, ChannelRequestKind, ChannelUpdateKind, ServerChannelsState,
};

fn types(state: &mut ServerChannelsState) -> Vec<u8> {
    state.packets_to_send().into_iter().map(|p| p.packet_type()).collect()
}

#[test]
fn server_session_lifecycle() {
    let mut state = ServerChannelsState::new();
    state
        .recv_packet(Packet::new_msg_channel_open_session(b"session", 4, 100, 100))
        .unwrap();
    assert_eq!(
        state.packets_to_send()[0].payload,
        Packet::new_msg_channel_open_confirmation(4, 0, 100, 100).payload
    );
    assert!(matches!(state.next_channel_update().unwrap().kind, ChannelUpdateKind::Open(_)));

    state
        .recv_packet(Packet::new_msg_channel_request_with_string(0, b"exec", true, b"ls"))
        .unwrap();
    match state.next_channel_update().unwrap().kind {
        ChannelUpdateKind::Request(r) => {
            assert!(r.want_reply);
            match r.kind {
                ChannelRequestKind::Exec { command } => assert_eq!(command, b"ls"),
                _ => panic!("expected exec"),
            }
        }
        _ => panic!("expected a request"),
    }
    state.do_operation(ChannelNumber(0).construct_op(ChannelOperationKind::Data(b"out".to_vec())));
    assert_eq!(
        state.packets_to_send()[0].payload,
        Packet::new_msg_channel_data(4, b"out").payload
    );
    state.recv_packet(Packet::new_msg_channel_data(0, b"in")).unwrap();
    match state.next_channel_update().unwrap().kind {
        ChannelUpdateKind::Data { data } => assert_eq!(data, b"in"),
        _ => panic!("expected data"),
    }
    state.do_operation(ChannelNumber(0).construct_op(ChannelOperationKind::Close));
    state.do_operation(ChannelNumber(0).construct_op(ChannelOperationKind::Close));
    assert_eq!(types(&mut state), vec![numbers::SSH_MSG_CHANNEL_CLOSE]);
    state.recv_packet(Packet::new_msg_channel_close(0)).unwrap();
    assert_eq!(types(&mut state), Vec::<u8>::new());
    state.do_operation(ChannelNumber(0).construct_op(ChannelOperationKind::Success));
    assert_eq!(types(&mut state), Vec::<u8>::new());
}

#[test]
fn server_refuses_unknown_requests() {
    let mut state = ServerChannelsState::new();
    state
        .recv_packet(Packet::new_msg_channel_open_session(b"session", 0, 100, 100))
        .unwrap();
    state.packets_to_send();
    state
        .recv_packet(Packet::new_msg_channel_request_with_string(0, b"subsystem", true, b"sftp"))
        .unwrap();
    assert_eq!(types(&mut state), vec![numbers::SSH_MSG_CHANNEL_FAILURE]);
    assert!(state
        .recv_packet(Packet::new_msg_channel_window_adjust(0, 5))
        .is_err());
}
