use cluelessh::negotiation::AlgorithmNegotiation;

#[test]
fn alg_negotation() {
    let server_algs = [
        "ssh-ed25519",
        "ecdsa-sha2-nistp256",
        "rsa-sha2-512,rsa-sha2-256",
    ];
    let client_algs = ["ssh-ed25519", "ecdsa-sha2-nistp256"];

    let we_are_client_negotiation = AlgorithmNegotiation {
        supported: client_algs.to_vec(),
    };

    let chosen = we_are_client_negotiation
        .find(
            true,
            &server_algs.iter().copied().collect::<Vec<&str>>().join(","),
        )
        .unwrap();
    assert_eq!(chosen, "ssh-ed25519");

    let we_are_server_negotiation = AlgorithmNegotiation {
        supported: server_algs.to_vec(),
    };
    let chosen = we_are_server_negotiation
        .find(
            true,
            &client_algs.iter().copied().collect::<Vec<&str>>().join(","),
        )
        .unwrap();
    assert_eq!(chosen, "ssh-ed25519");
}

#[test]
fn server_follows_client_preference() {
    let server = AlgorithmNegotiation {
        supported: vec!["ssh-ed25519", "ecdsa-sha2-nistp256", "rsa-sha2-512"],
    };
    let chosen = server
        .find(false, "rsa-sha2-512,ecdsa-sha2-nistp256")
        .unwrap();
    assert_eq!(chosen, "rsa-sha2-512");
}

#[test]
fn negotiation_without_common_algorithm() {
    let server = AlgorithmNegotiation {
        supported: vec!["a", "b"],
    };
    let err = server.find(false, "c,d").unwrap_err();
    assert_eq!(err.we_support, "a,b");
    assert_eq!(err.peer_supports, "c,d");
}

#[test]
fn name_list_joins_with_commas() {
    let n = AlgorithmNegotiation {
        supported: vec!["curve25519-sha256", "ecdh-sha2-nistp256"],
    };
    assert_eq!(n.to_name_list(), "curve25519-sha256,ecdh-sha2-nistp256");
    let empty: AlgorithmNegotiation<&'static str> = AlgorithmNegotiation { supported: vec![] };
    assert_eq!(empty.to_name_list(), "");
}
