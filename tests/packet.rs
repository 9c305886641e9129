use cluelessh::packet::{Packet, PacketError, PacketParser};

#[test]
fn packet_parser() {
    let mut p = PacketParser::new();
    assert!(p.test_recv_bytes(&2_u32.to_be_bytes()).is_none());
    assert!(p.test_recv_bytes(&[1]).is_none());
    let (consumed, data) = p.test_recv_bytes(&[2]).unwrap();
    assert_eq!(consumed, 1);
    assert_eq!(data.rest(), &[1, 2]);
}

#[test]
fn packet_parser_split_len() {
    let mut p = PacketParser::new();
    let len = &2_u32.to_be_bytes();
    assert!(p.test_recv_bytes(&len[0..2]).is_none());
    assert!(p.test_recv_bytes(&len[2..4]).is_none());

    assert!(p.test_recv_bytes(&[1]).is_none());
    let (consumed, data) = p.test_recv_bytes(&[2]).unwrap();
    assert_eq!(consumed, 1);
    assert_eq!(data.rest(), &[1, 2]);
}

#[test]
fn packet_parser_all() {
    let mut p = PacketParser::new();
    let (consumed, data) = p.test_recv_bytes(&[0, 0, 0, 2, 1, 2]).unwrap();
    assert_eq!(consumed, 6);
    assert_eq!(data.rest(), &[1, 2]);
}

#[test]
fn parser_stops_at_packet_end() {
    let mut p = PacketParser::new();
    let (consumed, data) = p.test_recv_bytes(&[0, 0, 0, 1, 9, 7, 7]).unwrap();
    assert_eq!(consumed, 5);
    assert_eq!(data.full_packet(), &[0, 0, 0, 1, 9]);
}

#[test]
fn parser_refuses_bad_lengths() {
    let mut p = PacketParser::new();
    assert_eq!(p.recv_bytes(&[0, 0, 0, 0]).err(), Some(PacketError::Truncated));
    let mut p = PacketParser::new();
    assert_eq!(p.recv_bytes(&35001u32.to_be_bytes()).err(), Some(PacketError::Truncated));
}

#[test]
fn framing_round_trip() {
    for len in [0usize, 1, 3, 7, 8, 100, 32768] {
        let payload: Vec<u8> = (0..len).map(|i| i as u8).collect();
        let framed = Packet { payload: payload.clone() }.to_bytes();
        assert_eq!(framed.len() % 8, 0);
        let pad = framed[4] as usize;
        assert!((4..=255).contains(&pad));
        assert_eq!(u32::from_be_bytes(framed[..4].try_into().unwrap()) as usize, framed.len() - 4);
        assert_eq!(Packet::from_raw(&framed[4..]).unwrap().payload, payload);
    }
}

#[test]
fn frame_of_empty_payload() {
    assert_eq!(
        Packet { payload: vec![21] }.to_bytes(),
        vec![0, 0, 0, 12, 10, 21, 0, 0, 0, 0, 0, 0, 0, 0, 0, 0]
    );
}

#[test]
fn unframing_errors() {
    assert_eq!(Packet::from_raw(&[]), Err(PacketError::Empty));
    assert_eq!(Packet::from_raw(&[5, 1, 2]), Err(PacketError::BadPadding));
    assert_eq!(Packet::from_raw(&[0, 1, 2]), Err(PacketError::Misaligned));
}

#[test]
fn message_builders() {
    assert_eq!(Packet::new_msg_channel_eof(0x01020304).payload, vec![96, 1, 2, 3, 4]);
    assert_eq!(
        Packet::new_msg_channel_data(1, b"ab").payload,
        vec![94, 0, 0, 0, 1, 0, 0, 0, 2, b'a', b'b']
    );
}
