use cluelessh::kex::{KexAlgorithm, KeyExchangeSecret};
use cluelessh::kexinit::KeyExchangeInitPacket;
use cluelessh::numbers;
use cluelessh::packet::Packet;
use cluelessh::transport::{
    do_key_exchange, EncodedSshSignature, HostKeySigningAlgorithm, KeyExchangeResponse, MsgKind, PacketTransport, ServerConfig,
    ServerConnection, SupportedAlgorithms, TransportError,
};

fn config() -> ServerConfig {
    ServerConfig {
        server_identification: b"SSH-2.0-cluelessh\r\n".to_vec(),
        host_keys: vec![HostKeySigningAlgorithm::new("ssh-ed25519", vec![1, 2, 3])],
    }
}

fn client_kexinit(kex: &str, host_key: &str, cipher: &str) -> Vec<u8> {
    KeyExchangeInitPacket {
        cookie: [7; 16],
        kex_algorithms: kex.to_string(),
        server_host_key_algorithms: host_key.to_string(),
        encryption_algorithms_client_to_server: cipher.to_string(),
        encryption_algorithms_server_to_client: cipher.to_string(),
        mac_algorithms_client_to_server: "hmac-sha2-256".to_string(),
        mac_algorithms_server_to_client: "hmac-sha2-256".to_string(),
        compression_algorithms_client_to_server: "none".to_string(),
        compression_algorithms_server_to_client: "none".to_string(),
        languages_client_to_server: String::new(),
        languages_server_to_client: String::new(),
        first_kex_packet_follows: false,
    }
    .to_bytes()
}

fn framed(payload: Vec<u8>) -> Vec<u8> {
    Packet { payload }.to_bytes()
}

fn next_packet(con: &mut ServerConnection) -> Vec<u8> {
    match con.next_msg_to_send().unwrap().0 {
        MsgKind::PlaintextPacket(p) => p.payload,
        MsgKind::ServerProtocolInfo(_) => panic!("expected a packet"),
    }
}

#[test]
fn protocol_exchange() {
    let mut con = ServerConnection::new(config(), [0; 16]);
    con.recv_bytes(b"SSH-2.0-OpenSSH_9.7\r\n").unwrap();
    let msg = con.next_msg_to_send().unwrap();
    assert!(matches!(msg.0, MsgKind::ServerProtocolInfo(_)));
}

#[test]
fn protocol_exchange_slow_client() {
    let mut con = ServerConnection::new(config(), [0; 16]);
    con.recv_bytes(b"SSH-2.0-").unwrap();
    assert!(con.next_msg_to_send().is_none());
    con.recv_bytes(b"OpenSSH_9.7\r\n").unwrap();
    let msg = con.next_msg_to_send().unwrap();
    match msg.0 {
        MsgKind::ServerProtocolInfo(ident) => assert_eq!(ident, b"SSH-2.0-cluelessh\r\n"),
        _ => panic!("expected the identification line"),
    }
    assert!(con.next_msg_to_send().is_none());
}

#[test]
fn banner_lines_before_identification_are_skipped() {
    let mut con = ServerConnection::new(config(), [0; 16]);
    con.recv_bytes(b"hello there\r\nSSH-2.0-x\r\n").unwrap();
    assert!(matches!(con.next_msg_to_send().unwrap().0, MsgKind::ServerProtocolInfo(_)));
}

#[test]
fn full_handshake_reaches_open() {
    let mut con = ServerConnection::new(config(), [3; 16]);
    let mut bytes = b"SSH-2.0-OpenSSH_9.7\r\n".to_vec();
    bytes.extend(framed(client_kexinit(
        "curve25519-sha256,ext-info-c",
        "rsa-sha2-512,ssh-ed25519",
        "aes256-gcm@openssh.com,chacha20-poly1305@openssh.com",
    )));
    con.recv_bytes(&bytes).unwrap();
    assert!(matches!(con.next_msg_to_send().unwrap().0, MsgKind::ServerProtocolInfo(_)));

    let server_kexinit = next_packet(&mut con);
    let parsed = KeyExchangeInitPacket::parse(&server_kexinit).unwrap();
    assert_eq!(parsed.cookie, [3; 16]);
    assert_eq!(parsed.kex_algorithms, "curve25519-sha256,ext-info-s");
    assert_eq!(parsed.server_host_key_algorithms, "ssh-ed25519");
    assert_eq!(parsed.encryption_algorithms_client_to_server, "aes256-gcm@openssh.com");

    let client_secret = KeyExchangeSecret::generate(KexAlgorithm::Curve25519Sha256, [5; 32]).unwrap();
    let mut ecdh_init = vec![numbers::SSH_MSG_KEX_ECDH_INIT, 0, 0, 0, 32];
    ecdh_init.extend_from_slice(&client_secret.pubkey);
    con.recv_bytes(&framed(ecdh_init)).unwrap();

    let params = con.is_waiting_on_key_exchange().unwrap();
    assert_eq!(params.client_ident, b"SSH-2.0-OpenSSH_9.7\r\n");
    assert_eq!(params.server_kexinit, server_kexinit);
    assert_eq!(params.kex_algorithm, KexAlgorithm::Curve25519Sha256);
    let outcome = do_key_exchange(&params, [9; 32]).unwrap();
    assert_eq!(outcome.hash.len(), 32);
    assert_eq!(
        client_secret.exchange(&outcome.server_ephemeral_public_key).unwrap(),
        outcome.shared_secret
    );
    con.do_key_exchange(KeyExchangeResponse {
        hash: outcome.hash.clone(),
        server_ephemeral_public_key: outcome.server_ephemeral_public_key,
        shared_secret: outcome.shared_secret,
        signature: EncodedSshSignature(vec![4, 4]),
    });
    assert_eq!(next_packet(&mut con)[0], numbers::SSH_MSG_KEX_ECDH_REPLY);

    con.recv_bytes(&framed(vec![numbers::SSH_MSG_NEWKEYS])).unwrap();
    assert_eq!(next_packet(&mut con), vec![numbers::SSH_MSG_NEWKEYS]);
    assert!(con.is_open().is_none());

    let mut service = vec![numbers::SSH_MSG_SERVICE_REQUEST, 0, 0, 0, 12];
    service.extend_from_slice(b"ssh-userauth");
    con.recv_bytes(&framed(service)).unwrap();
    let accept = next_packet(&mut con);
    assert_eq!(accept[0], numbers::SSH_MSG_SERVICE_ACCEPT);
    assert_eq!(&accept[5..], b"ssh-userauth");
    assert_eq!(con.is_open(), Some(outcome.hash));

    con.recv_bytes(&framed(vec![numbers::SSH_MSG_CHANNEL_EOF, 0, 0, 0, 0])).unwrap();
    assert_eq!(
        con.next_plaintext_packet().unwrap().payload,
        vec![numbers::SSH_MSG_CHANNEL_EOF, 0, 0, 0, 0]
    );
}

#[test]
fn no_common_algorithm_is_refused() {
    let mut con = ServerConnection::new(config(), [0; 16]);
    let mut bytes = b"SSH-2.0-x\r\n".to_vec();
    bytes.extend(framed(client_kexinit(
        "diffie-hellman-group14-sha256",
        "ssh-ed25519",
        "aes256-gcm@openssh.com",
    )));
    assert_eq!(con.recv_bytes(&bytes), Err(TransportError::NoCommonAlgorithm));
}

#[test]
fn unexpected_and_malformed_packets() {
    let mut con = ServerConnection::new(config(), [0; 16]);
    con.recv_bytes(b"SSH-2.0-x\r\n").unwrap();
    assert_eq!(
        con.recv_bytes(&framed(vec![numbers::SSH_MSG_NEWKEYS])),
        Err(TransportError::Malformed)
    );
    let mut con = ServerConnection::new(config(), [0; 16]);
    con.recv_bytes(b"SSH-2.0-x\r\n").unwrap();
    con.recv_bytes(&framed(vec![numbers::SSH_MSG_IGNORE, 0, 0, 0, 0])).unwrap();
    let mut disconnect = vec![numbers::SSH_MSG_DISCONNECT, 0, 0, 0, 11];
    disconnect.extend_from_slice(&[0, 0, 0, 0, 0, 0, 0, 0]);
    assert_eq!(con.recv_bytes(&framed(disconnect)), Err(TransportError::Disconnect));
}

#[test]
fn zero_length_packet_is_refused() {
    let mut con = ServerConnection::new(config(), [0; 16]);
    con.recv_bytes(b"SSH-2.0-x\r\n").unwrap();
    assert!(matches!(
        con.recv_bytes(&[0, 0, 0, 0]),
        Err(TransportError::Framing(_))
    ));
}

#[test]
fn secure_algorithms_in_preference_order() {
    let supported = SupportedAlgorithms::secure(&config().host_keys);
    assert_eq!(
        supported.key_exchange.to_name_list(),
        "curve25519-sha256,ecdh-sha2-nistp256"
    );
    assert_eq!(
        supported.encryption_to_peer.to_name_list(),
        "chacha20-poly1305@openssh.com,aes256-gcm@openssh.com"
    );
    assert_eq!(supported.hostkey_sign.to_name_list(), "ssh-ed25519");
    assert_eq!(supported.compression_from_peer.to_name_list(), "none");
}

#[test]
fn packets_are_numbered_one_by_one() {
    let mut t = PacketTransport::new();
    let mut stream = framed(vec![numbers::SSH_MSG_IGNORE, 0, 0, 0, 0]);
    stream.extend(framed(vec![numbers::SSH_MSG_NEWKEYS]));
    stream.extend(framed(vec![numbers::SSH_MSG_CHANNEL_EOF, 0, 0, 0, 1]));
    let (first, second) = stream.split_at(11);
    t.recv_bytes(first).unwrap();
    assert_eq!(t.next_recv_seq_nr(), 0);
    t.recv_bytes(second).unwrap();
    assert_eq!(t.next_recv_seq_nr(), 3);
    assert_eq!(t.next_packet().unwrap().payload, vec![numbers::SSH_MSG_IGNORE, 0, 0, 0, 0]);
    assert_eq!(t.next_packet().unwrap().payload, vec![numbers::SSH_MSG_NEWKEYS]);
    assert_eq!(t.next_packet().unwrap().payload[0], numbers::SSH_MSG_CHANNEL_EOF);
    assert!(t.next_packet().is_none());
}

#[test]
fn bad_length_word_queues_nothing() {
    let mut t = PacketTransport::new();
    let mut stream = framed(vec![numbers::SSH_MSG_IGNORE, 0, 0, 0, 0]);
    stream.extend_from_slice(&[0, 0, 0, 0, 1, 2, 3]);
    assert_eq!(t.recv_bytes(&stream), Err(cluelessh::packet::PacketError::Truncated));
    assert_eq!(t.next_packet().unwrap().payload, vec![numbers::SSH_MSG_IGNORE, 0, 0, 0, 0]);
    assert!(t.next_packet().is_none());
    let mut t = PacketTransport::new();
    assert!(t.recv_bytes(&40000u32.to_be_bytes()).is_err());
    assert!(t.next_packet().is_none());
}
