//! Elliptic-curve key exchange, the exchange hash and session key derivation.
use vstd::prelude::*;
use vstd::string::StringSliceAdditionalSpecFns;
use vstd::utf8::encode_utf8;

use crate::negotiation::AlgorithmName;
use crate::wire::{bytes_eq, string_bytes, write_bytes, write_string, write_u32};

verus! {

broadcast use vstd::utf8::encode_utf8_decode_utf8;

/// The SHA-256 digest of `data`.
pub uninterp spec fn sha256_of(data: Seq<u8>) -> Seq<u8>;

/// Relies on `sha2::Sha256::digest`: the SHA-256 digest of the bytes, 32 bytes long.
#[verifier::external_body]
fn sha256(data: &[u8]) -> (r: Vec<u8>)
    ensures
        r@ == sha256_of(data@),
        r@.len() == 32,
{
    <sha2::Sha256 as sha2::Digest>::digest(data).to_vec()
}

/// X25519 of scalar `k` and point `u`.
pub uninterp spec fn x25519_of(k: Seq<u8>, u: Seq<u8>) -> Seq<u8>;

/// Relies on `x25519_dalek::x25519`: the X25519 function of a scalar and a point,
/// 32 bytes long.
#[verifier::external_body]
fn x25519(k: [u8; 32], u: [u8; 32]) -> (r: [u8; 32])
    ensures
        r@ == x25519_of(k@, u@),
{
    x25519_dalek::x25519(k, u)
}

/// The uncompressed SEC1 public point of a NIST P-256 secret scalar, if the
/// scalar is valid.
pub uninterp spec fn p256_public_of(secret: Seq<u8>) -> Option<Seq<u8>>;

/// Relies on `p256::SecretKey::from_slice` and `PublicKey::to_encoded_point`: the
/// public point of a valid secret scalar, uncompressed (65 bytes: a tag and two
/// 32-byte coordinates).
#[verifier::external_body]
fn p256_public_key(secret: &[u8]) -> (r: Option<Vec<u8>>)
    ensures
        r matches Some(v) ==> p256_public_of(secret@) == Some(v@) && v@.len() == 65,
        r is None ==> p256_public_of(secret@) is None,
{
    let key = p256::SecretKey::from_slice(secret).ok()?;
    Some(p256::elliptic_curve::sec1::ToEncodedPoint::to_encoded_point(&key.public_key(), false).as_bytes().to_vec())
}

/// The ECDH shared secret (the x coordinate) of a P-256 secret scalar and a
/// peer's SEC1 point, if both are valid.
pub uninterp spec fn p256_shared_of(secret: Seq<u8>, peer: Seq<u8>) -> Option<Seq<u8>>;

/// Relies on `p256::PublicKey::from_sec1_bytes` and `p256::ecdh::diffie_hellman`:
/// the raw shared secret of a valid secret scalar and a valid peer point, a
/// 32-byte field element.
#[verifier::external_body]
fn p256_shared_secret(secret: &[u8], peer: &[u8]) -> (r: Option<Vec<u8>>)
    ensures
        r matches Some(v) ==> p256_shared_of(secret@, peer@) == Some(v@) && v@.len() == 32,
        r is None ==> p256_shared_of(secret@, peer@) is None,
{
    let key = p256::SecretKey::from_slice(secret).ok()?;
    let peer = p256::PublicKey::from_sec1_bytes(peer).ok()?;
    let shared = p256::ecdh::diffie_hellman(key.to_nonzero_scalar(), peer.as_affine());
    Some(shared.raw_secret_bytes().to_vec())
}

// ---- mpint ------------------------------------------------------------------------------
pub open spec fn strip_leading_zeros(k: Seq<u8>) -> Seq<u8>
    decreases k.len(),
{
    if k.len() > 0 && k[0] == 0 {
        strip_leading_zeros(k.drop_first())
    } else {
        k
    }
}

/// The two's-complement body of the unsigned big-endian number `k`: no
/// superfluous leading zeros, and one zero byte when the top bit is set.
pub open spec fn mpint_body(k: Seq<u8>) -> Seq<u8> {
    let s = strip_leading_zeros(k);
    if s.len() > 0 && s[0] >= 0x80 {
        seq![0u8] + s
    } else {
        s
    }
}

pub open spec fn mpint_bytes(k: Seq<u8>) -> Seq<u8> {
    string_bytes(mpint_body(k))
}

proof fn lemma_strip_len(k: Seq<u8>)
    ensures
        strip_leading_zeros(k).len() <= k.len(),
    decreases k.len(),
{
    if k.len() > 0 && k[0] == 0 {
        lemma_strip_len(k.drop_first());
    }
}

/// Appends `k` as an mpint.
pub fn write_mpint(out: &mut Vec<u8>, k: &[u8])
    requires
        k@.len() < u32::MAX,
    ensures
        final(out)@ == old(out)@ + mpint_bytes(k@),
{
    let mut start: usize = 0;
    assert(k@.subrange(0, k@.len() as int) =~= k@);
    while start < k.len() && k[start] == 0
        invariant
            start <= k@.len(),
            strip_leading_zeros(k@) == strip_leading_zeros(k@.subrange(start as int, k@.len() as int)),
        decreases k@.len() - start,
    {
        assert(k@.subrange(start as int, k@.len() as int).drop_first() =~= k@.subrange(
            start + 1,
            k@.len() as int,
        ));
        start = start + 1;
    }
    let body = vstd::slice::slice_subrange(k, start, k.len());
    proof {
        if start < k@.len() {
        } else {
            assert(body@ =~= Seq::<u8>::empty());
        }
        assert(strip_leading_zeros(body@) == body@);
    }
    let pad = body.len() > 0 && body[0] >= 0x80;
    let len = if pad {
        body.len() + 1
    } else {
        body.len()
    };
    write_u32(out, len as u32);
    if pad {
        out.push(0);
    }
    write_bytes(out, body);
    assert(final(out)@ =~= old(out)@ + mpint_bytes(k@));
}

// ---- Exchange hash and key derivation -------------------------------------------------------
/// The bytes hashed into the exchange hash `H`: the identification lines
/// without CRLF, both KEXINIT payloads, the host key, both ephemeral public
/// keys as strings, and the shared secret as an mpint.
pub open spec fn exchange_hash_input(
    client_ident: Seq<u8>,
    server_ident: Seq<u8>,
    client_kexinit: Seq<u8>,
    server_kexinit: Seq<u8>,
    server_hostkey: Seq<u8>,
    eph_client_public_key: Seq<u8>,
    eph_server_public_key: Seq<u8>,
    shared_secret: Seq<u8>,
) -> Seq<u8> {
    string_bytes(client_ident.subrange(0, client_ident.len() - 2)) + string_bytes(
        server_ident.subrange(0, server_ident.len() - 2),
    ) + string_bytes(client_kexinit) + string_bytes(server_kexinit) + string_bytes(server_hostkey)
        + string_bytes(eph_client_public_key) + string_bytes(eph_server_public_key) + mpint_bytes(
        shared_secret,
    )
}

/// The exchange hash `H` over the given identification lines (each ending in CRLF),
/// KEXINIT payloads, host key, ephemeral public keys and shared secret.
pub fn key_exchange_hash(
    client_ident: &[u8],
    server_ident: &[u8],
    client_kexinit: &[u8],
    server_kexinit: &[u8],
    server_hostkey: &[u8],
    eph_client_public_key: &[u8],
    eph_server_public_key: &[u8],
    shared_secret: &[u8],
) -> (r: Vec<u8>)
    requires
        2 <= client_ident@.len() <= u32::MAX,
        2 <= server_ident@.len() <= u32::MAX,
        client_kexinit@.len() <= u32::MAX,
        server_kexinit@.len() <= u32::MAX,
        server_hostkey@.len() <= u32::MAX,
        eph_client_public_key@.len() <= u32::MAX,
        eph_server_public_key@.len() <= u32::MAX,
        shared_secret@.len() < u32::MAX,
    ensures
        r@ == sha256_of(
            exchange_hash_input(
                client_ident@,
                server_ident@,
                client_kexinit@,
                server_kexinit@,
                server_hostkey@,
                eph_client_public_key@,
                eph_server_public_key@,
                shared_secret@,
            ),
        ),
        r@.len() == 32,
{
    let mut data: Vec<u8> = Vec::new();
    write_string(&mut data, vstd::slice::slice_subrange(client_ident, 0, client_ident.len() - 2));
    write_string(&mut data, vstd::slice::slice_subrange(server_ident, 0, server_ident.len() - 2));
    write_string(&mut data, client_kexinit);
    write_string(&mut data, server_kexinit);
    write_string(&mut data, server_hostkey);
    write_string(&mut data, eph_client_public_key);
    write_string(&mut data, eph_server_public_key);
    write_mpint(&mut data, shared_secret);
    assert(data@ =~= exchange_hash_input(
        client_ident@,
        server_ident@,
        client_kexinit@,
        server_kexinit@,
        server_hostkey@,
        eph_client_public_key@,
        eph_server_public_key@,
        shared_secret@,
    ));
    sha256(data.as_slice())
}

/// The first `i` digest blocks of key derivation: the first hashes
/// `K || H || letter || session_id`, each later one `K || H || all blocks so far`.
pub open spec fn derive_blocks(k: Seq<u8>, h: Seq<u8>, letter: u8, session_id: Seq<u8>, i: nat) -> Seq<
    u8,
>
    decreases i,
{
    if i == 0 {
        Seq::empty()
    } else {
        let prev = derive_blocks(k, h, letter, session_id, (i - 1) as nat);
        prev + sha256_of(
            mpint_bytes(k) + h + if i == 1 {
                seq![letter] + session_id
            } else {
                prev
            },
        )
    }
}

/// Key derivation depends on its inputs alone and only ever extends its
/// output: the first `i` blocks are a prefix of the first `j` blocks for `i <= j`.
pub proof fn lemma_derive_blocks_prefix(k: Seq<u8>, h: Seq<u8>, letter: u8, session_id: Seq<u8>, i: nat, j: nat)
    requires
        i <= j,
    ensures
        derive_blocks(k, h, letter, session_id, i).len() <= derive_blocks(k, h, letter, session_id, j).len(),
        derive_blocks(k, h, letter, session_id, j).subrange(
            0,
            derive_blocks(k, h, letter, session_id, i).len() as int,
        ) == derive_blocks(k, h, letter, session_id, i),
    decreases j,
{
    let bi = derive_blocks(k, h, letter, session_id, i);
    if i == j {
        assert(bi.subrange(0, bi.len() as int) =~= bi);
    } else {
        lemma_derive_blocks_prefix(k, h, letter, session_id, i, (j - 1) as nat);
        let prev = derive_blocks(k, h, letter, session_id, (j - 1) as nat);
        let bj = derive_blocks(k, h, letter, session_id, j);
        assert(bj.subrange(0, bi.len() as int) =~= prev.subrange(0, bi.len() as int));
    }
}

/// The `n`-byte key labelled `letter`, derived from the shared secret `k`, the
/// exchange hash `h` and the session id.
pub open spec fn derived_key(k: Seq<u8>, h: Seq<u8>, letter: u8, session_id: Seq<u8>, n: nat) -> Seq<
    u8,
> {
    derive_blocks(k, h, letter, session_id, (n + 31) / 32).subrange(0, n as int)
}

/// Derives `key_size` bytes of key material labelled `letter` (`A` to `F`).
pub fn derive_key(k: &[u8], h: &[u8], letter: u8, session_id: &[u8], key_size: usize) -> (r: Vec<u8>)
    requires
        k@.len() < u32::MAX,
        key_size <= u32::MAX,
    ensures
        r@ == derived_key(k@, h@, letter, session_id@, key_size as nat),
        r@.len() == key_size,
{
    let mut output: Vec<u8> = Vec::new();
    let mut i: usize = 0;
    while output.len() < key_size
        invariant
            output@ == derive_blocks(k@, h@, letter, session_id@, i as nat),
            output@.len() == 32 * i,
            key_size <= u32::MAX,
            k@.len() < u32::MAX,
            32 * (i - 1) < key_size || i == 0,
        decreases key_size + 32 - 32 * i,
    {
        let mut input: Vec<u8> = Vec::new();
        write_mpint(&mut input, k);
        write_bytes(&mut input, h);
        if i == 0 {
            input.push(letter);
            write_bytes(&mut input, session_id);
        } else {
            write_bytes(&mut input, output.as_slice());
        }
        let block = sha256(input.as_slice());
        proof {
            let prev = derive_blocks(k@, h@, letter, session_id@, i as nat);
            if i == 0 {
                assert(input@ =~= mpint_bytes(k@) + h@ + (seq![letter] + session_id@));
            } else {
                assert(input@ =~= mpint_bytes(k@) + h@ + prev);
            }
        }
        let mut block = block;
        output.append(&mut block);
        i = i + 1;
    }
    assert((key_size + 31) / 32 == i) by (nonlinear_arith)
        requires
            output@.len() == 32 * i,
            key_size <= 32 * i,
            32 * (i - 1) < key_size || i == 0,
    ;
    output.truncate(key_size);
    output
}

// ---- Key exchange algorithms --------------------------------------------------------------
#[derive(Debug, Clone, Copy, PartialEq, Eq, Structural)]
pub enum KexAlgorithm {
    /// `curve25519-sha256`
    Curve25519Sha256,
    /// `ecdh-sha2-nistp256`
    EcdhSha2Nistp256,
}

impl AlgorithmName for KexAlgorithm {
    open spec fn name_view(&self) -> Seq<char> {
        match self {
            KexAlgorithm::Curve25519Sha256 => "curve25519-sha256"@,
            KexAlgorithm::EcdhSha2Nistp256 => "ecdh-sha2-nistp256"@,
        }
    }

    fn name(&self) -> (r: &'static str) {
        match self {
            KexAlgorithm::Curve25519Sha256 => "curve25519-sha256",
            KexAlgorithm::EcdhSha2Nistp256 => "ecdh-sha2-nistp256",
        }
    }
}

/// The key exchange algorithm of the given name.
pub fn kex_algorithm_by_name(name: &str) -> (r: Option<KexAlgorithm>)
    ensures
        match r {
            Some(alg) => name@ == alg.name_view(),
            None => name@ != KexAlgorithm::Curve25519Sha256.name_view() && name@
                != KexAlgorithm::EcdhSha2Nistp256.name_view(),
        },
{
    let curve = KexAlgorithm::Curve25519Sha256;
    let nist = KexAlgorithm::EcdhSha2Nistp256;
    proof {
        vstd::utf8::encode_utf8_decode_utf8(name@);
        vstd::utf8::encode_utf8_decode_utf8(curve.name_view());
        vstd::utf8::encode_utf8_decode_utf8(nist.name_view());
    }
    if bytes_eq(name.as_bytes(), curve.name().as_bytes()) {
        Some(curve)
    } else if bytes_eq(name.as_bytes(), nist.name().as_bytes()) {
        Some(nist)
    } else {
        None
    }
}

/// Why a key exchange failed.
#[derive(Debug, Clone, Copy, PartialEq, Eq, Structural)]
pub enum KexError {
    /// The random bytes are not a valid secret scalar for the curve.
    InvalidSecret,
    /// The peer's ephemeral public key is malformed or not on the curve.
    InvalidPeerKey,
}

/// The point that X25519 public keys are multiples of.
pub open spec fn x25519_basepoint() -> Seq<u8> {
    seq![9u8] + Seq::new(31, |i: int| 0u8)
}

fn x25519_basepoint_bytes() -> (r: [u8; 32])
    ensures
        r@ == x25519_basepoint(),
{
    let r: [u8; 32] = [9, 0, 0, 0, 0, 0, 0, 0, 0, 0, 0, 0, 0, 0, 0, 0, 0, 0, 0, 0, 0, 0, 0, 0, 0, 0, 0, 0, 0, 0, 0, 0];
    assert(r@ =~= x25519_basepoint());
    r
}

fn to_array32(s: &[u8]) -> (r: [u8; 32])
    requires
        s@.len() == 32,
    ensures
        r@ == s@,
{
    let mut r: [u8; 32] = [0; 32];
    let mut i: usize = 0;
    while i < 32
        invariant
            s@.len() == 32,
            i <= 32,
            r@.len() == 32,
            forall|j: int| 0 <= j < i ==> r@[j] == s@[j],
        decreases 32 - i,
    {
        r[i] = s[i];
        i = i + 1;
    }
    assert(r@ =~= s@);
    r
}

fn array_to_vec(a: &[u8; 32]) -> (r: Vec<u8>)
    ensures
        r@ == a@,
{
    let mut r: Vec<u8> = Vec::new();
    let mut i: usize = 0;
    while i < 32
        invariant
            i <= 32,
            a@.len() == 32,
            r@ == a@.subrange(0, i as int),
        decreases 32 - i,
    {
        r.push(a[i]);
        i = i + 1;
    }
    assert(r@ =~= a@);
    r
}

/// Our ephemeral public and secret key from 32 random bytes, or why there is none.
pub open spec fn generate_spec(algorithm: KexAlgorithm, random: Seq<u8>) -> Result<(Seq<u8>, Seq<u8>), KexError> {
    match algorithm {
        KexAlgorithm::Curve25519Sha256 => Ok((x25519_of(random, x25519_basepoint()), random)),
        KexAlgorithm::EcdhSha2Nistp256 => match p256_public_of(random) {
            Some(p) => Ok((p, random)),
            None => Err(KexError::InvalidSecret),
        },
    }
}

/// The shared secret of our secret and the peer's public key, or why there is none.
pub open spec fn exchange_spec(algorithm: KexAlgorithm, secret: Seq<u8>, peer: Seq<u8>) -> Result<Seq<u8>, KexError> {
    match algorithm {
        KexAlgorithm::Curve25519Sha256 => if peer.len() == 32 {
            Ok(x25519_of(secret, peer))
        } else {
            Err(KexError::InvalidPeerKey)
        },
        KexAlgorithm::EcdhSha2Nistp256 => match p256_shared_of(secret, peer) {
            Some(k) => Ok(k),
            None => Err(KexError::InvalidPeerKey),
        },
    }
}

/// Our ephemeral key pair for one exchange.
pub struct KeyExchangeSecret {
    pub algorithm: KexAlgorithm,
    /// `Q_S`, our ephemeral public key.
    pub pubkey: Vec<u8>,
    /// Our ephemeral secret scalar.
    pub secret: Vec<u8>,
}

impl KeyExchangeSecret {
    /// Makes the ephemeral key pair of `algorithm` from 32 random bytes.
    pub fn generate(algorithm: KexAlgorithm, random: [u8; 32]) -> (r: Result<KeyExchangeSecret, KexError>)
        ensures
            r matches Ok(s) ==> s.pubkey@.len() <= 65 && s.secret@.len() == 32,
            match algorithm {
                KexAlgorithm::Curve25519Sha256 => r matches Ok(s) && s.algorithm == algorithm
                    && s.secret@ == random@ && s.pubkey@ == x25519_of(random@, x25519_basepoint()),
                KexAlgorithm::EcdhSha2Nistp256 => match p256_public_of(random@) {
                    Some(p) => r matches Ok(s) && s.algorithm == algorithm && s.secret@
                        == random@ && s.pubkey@ == p,
                    None => r == Err::<KeyExchangeSecret, KexError>(KexError::InvalidSecret),
                },
            },
    {
        match algorithm {
            KexAlgorithm::Curve25519Sha256 => {
                let public = x25519(random, x25519_basepoint_bytes());
                Ok(KeyExchangeSecret { algorithm, pubkey: array_to_vec(&public), secret: array_to_vec(&random) })
            },
            KexAlgorithm::EcdhSha2Nistp256 => match p256_public_key(&random) {
                Some(pubkey) => Ok(KeyExchangeSecret { algorithm, pubkey, secret: array_to_vec(&random) }),
                None => Err(KexError::InvalidSecret),
            },
        }
    }

    /// The shared secret `K` with the peer's ephemeral public key.
    pub fn exchange(&self, peer_public_key: &[u8]) -> (r: Result<Vec<u8>, KexError>)
        requires
            self.algorithm is Curve25519Sha256 ==> self.secret@.len() == 32,
        ensures
            r matches Ok(k) ==> k@.len() == 32,
            match self.algorithm {
                KexAlgorithm::Curve25519Sha256 => if peer_public_key@.len() == 32 {
                    r matches Ok(k) && k@ == x25519_of(self.secret@, peer_public_key@)
                } else {
                    r == Err::<Vec<u8>, KexError>(KexError::InvalidPeerKey)
                },
                KexAlgorithm::EcdhSha2Nistp256 => match p256_shared_of(self.secret@, peer_public_key@) {
                    Some(k) => r matches Ok(v) && v@ == k,
                    None => r == Err::<Vec<u8>, KexError>(KexError::InvalidPeerKey),
                },
            },
    {
        match self.algorithm {
            KexAlgorithm::Curve25519Sha256 => {
                if peer_public_key.len() != 32 {
                    return Err(KexError::InvalidPeerKey);
                }
                let shared = x25519(to_array32(self.secret.as_slice()), to_array32(peer_public_key));
                Ok(array_to_vec(&shared))
            },
            KexAlgorithm::EcdhSha2Nistp256 => match p256_shared_secret(self.secret.as_slice(), peer_public_key) {
                Some(k) => Ok(k),
                None => Err(KexError::InvalidPeerKey),
            },
        }
    }
}

} // verus!
