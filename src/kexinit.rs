//! The key exchange messages: KEXINIT, KEX_ECDH_INIT and KEX_ECDH_REPLY.
use vstd::prelude::*;
use vstd::string::StringSliceAdditionalSpecFns;
use vstd::utf8::encode_utf8;

use crate::numbers;
use crate::packet::Packet;
use crate::wire::{
    bool_bytes, read_bool, read_string, read_u32, read_u8, read_utf8, string_bytes, take_bool,
    take_string, take_u32, take_u8, take_utf8, u32_bytes, write_bool, write_bytes, write_string,
    write_u32,
};

verus! {

/// The number of name-lists in a KEXINIT message.
pub const NAME_LIST_COUNT: usize = 10;

/// A KEXINIT message: the cookie, ten name-lists (key exchange, host key,
/// encryption both ways, MAC both ways, compression both ways, languages both
/// ways) and whether a guessed key exchange packet follows.
pub struct KexInitView {
    pub cookie: Seq<u8>,
    pub name_lists: Seq<Seq<char>>,
    pub first_kex_packet_follows: bool,
}

pub open spec fn name_lists_bytes(lists: Seq<Seq<char>>) -> Seq<u8>
    decreases lists.len(),
{
    if lists.len() == 0 {
        Seq::empty()
    } else {
        name_lists_bytes(lists.drop_last()) + string_bytes(encode_utf8(lists.last()))
    }
}

pub open spec fn kexinit_bytes(k: KexInitView) -> Seq<u8> {
    seq![numbers::SSH_MSG_KEXINIT] + k.cookie + name_lists_bytes(k.name_lists) + bool_bytes(
        k.first_kex_packet_follows,
    ) + u32_bytes(0)
}

/// Reads `n` name-lists from `pos` on.
pub open spec fn take_name_lists(p: Seq<u8>, pos: int, n: nat) -> Option<(Seq<Seq<char>>, int)>
    decreases n,
{
    if n == 0 {
        Some((Seq::empty(), pos))
    } else {
        match take_name_lists(p, pos, (n - 1) as nat) {
            Some((lists, at1)) => match take_utf8(p, at1) {
                Some((l, at2)) => Some((lists.push(l), at2)),
                None => None,
            },
            None => None,
        }
    }
}

pub open spec fn parse_kexinit(p: Seq<u8>) -> Option<KexInitView> {
    match take_u8(p, 0) {
        Some((t, _)) => if t != numbers::SSH_MSG_KEXINIT || p.len() < 17 {
            None
        } else {
            match take_name_lists(p, 17, NAME_LIST_COUNT as nat) {
                Some((name_lists, at1)) => match take_bool(p, at1) {
                    Some((follows, at2)) => match take_u32(p, at2) {
                        Some(_) => Some(
                            KexInitView {
                                cookie: p.subrange(1, 17),
                                name_lists,
                                first_kex_packet_follows: follows,
                            },
                        ),
                        None => None,
                    },
                    None => None,
                },
                None => None,
            }
        },
        None => None,
    }
}

#[derive(Debug)]
pub struct KeyExchangeInitPacket {
    pub cookie: [u8; 16],
    pub kex_algorithms: String,
    pub server_host_key_algorithms: String,
    pub encryption_algorithms_client_to_server: String,
    pub encryption_algorithms_server_to_client: String,
    pub mac_algorithms_client_to_server: String,
    pub mac_algorithms_server_to_client: String,
    pub compression_algorithms_client_to_server: String,
    pub compression_algorithms_server_to_client: String,
    pub languages_client_to_server: String,
    pub languages_server_to_client: String,
    pub first_kex_packet_follows: bool,
}

impl View for KeyExchangeInitPacket {
    type V = KexInitView;

    open spec fn view(&self) -> KexInitView {
        KexInitView {
            cookie: self.cookie@,
            name_lists: seq![
                self.kex_algorithms@,
                self.server_host_key_algorithms@,
                self.encryption_algorithms_client_to_server@,
                self.encryption_algorithms_server_to_client@,
                self.mac_algorithms_client_to_server@,
                self.mac_algorithms_server_to_client@,
                self.compression_algorithms_client_to_server@,
                self.compression_algorithms_server_to_client@,
                self.languages_client_to_server@,
                self.languages_server_to_client@,
            ],
            first_kex_packet_follows: self.first_kex_packet_follows,
        }
    }
}

proof fn lemma_name_lists_len(p: Seq<u8>, pos: int, n: nat)
    ensures
        take_name_lists(p, pos, n) matches Some((lists, _)) ==> lists.len() == n,
    decreases n,
{
    if n > 0 {
        lemma_name_lists_len(p, pos, (n - 1) as nat);
    }
}

fn read_name_lists(p: &[u8], pos: usize, n: usize) -> (r: Option<(Vec<String>, usize)>)
    ensures
        match take_name_lists(p@, pos as int, n as nat) {
            Some((lists, next)) => r matches Some((v, m)) && v@.map_values(|s: String| s@) == lists
                && m == next,
            None => r is None,
        },
{
    let mut out: Vec<String> = Vec::new();
    let mut at = pos;
    let mut i: usize = 0;
    while i < n
        invariant
            i <= n,
            take_name_lists(p@, pos as int, i as nat) == Some((out@.map_values(|s: String| s@), at as int)),
        decreases n - i,
    {
        let ghost prev = out@.map_values(|s: String| s@);
        let Some((l, next)) = read_utf8(p, at) else {
            proof {
                assert(take_name_lists(p@, pos as int, (i + 1) as nat) is None);
                lemma_name_lists_none_grows(p@, pos as int, (i + 1) as nat, n as nat);
            }
            return None;
        };
        let ghost lv = l@;
        let ghost before = out@;
        out.push(l);
        at = next;
        i = i + 1;
        assert(out@ == before.push(out@[before.len() as int]));
        assert(out@.map_values(|s: String| s@) =~= prev.push(lv));
    }
    Some((out, at))
}

proof fn lemma_name_lists_none_grows(p: Seq<u8>, pos: int, i: nat, n: nat)
    requires
        take_name_lists(p, pos, i) is None,
        i <= n,
    ensures
        take_name_lists(p, pos, n) is None,
    decreases n - i,
{
    if i < n {
        lemma_name_lists_none_grows(p, pos, i + 1, n);
    }
}

fn take_string_from(v: &Vec<String>, i: usize) -> (r: String)
    requires
        i < v@.len(),
    ensures
        r@ == v@[i as int]@,
{
    v[i].clone()
}

impl KeyExchangeInitPacket {
    pub fn parse(payload: &[u8]) -> (r: Option<KeyExchangeInitPacket>)
        ensures
            match parse_kexinit(payload@) {
                Some(k) => r matches Some(x) && x@ == k,
                None => r is None,
            },
    {
        let Some((kind, _)) = read_u8(payload, 0) else { return None };
        if kind != numbers::SSH_MSG_KEXINIT || payload.len() < 17 {
            return None;
        }
        let mut cookie = [0u8; 16];
        let mut i: usize = 0;
        while i < 16
            invariant
                payload@.len() >= 17,
                i <= 16,
                cookie@.len() == 16,
                forall|j: int| 0 <= j < i ==> cookie@[j] == payload@[1 + j],
            decreases 16 - i,
        {
            cookie[i] = payload[1 + i];
            i = i + 1;
        }
        assert(cookie@ =~= payload@.subrange(1, 17));
        let Some((lists, at1)) = read_name_lists(payload, 17, NAME_LIST_COUNT) else { return None };
        proof {
            lemma_name_lists_len(payload@, 17, 10);
            assert(lists@.len() == 10);
        }
        let Some((first_kex_packet_follows, at2)) = read_bool(payload, at1) else { return None };
        let Some(_) = read_u32(payload, at2) else { return None };
        let r = KeyExchangeInitPacket {
            cookie,
            kex_algorithms: take_string_from(&lists, 0),
            server_host_key_algorithms: take_string_from(&lists, 1),
            encryption_algorithms_client_to_server: take_string_from(&lists, 2),
            encryption_algorithms_server_to_client: take_string_from(&lists, 3),
            mac_algorithms_client_to_server: take_string_from(&lists, 4),
            mac_algorithms_server_to_client: take_string_from(&lists, 5),
            compression_algorithms_client_to_server: take_string_from(&lists, 6),
            compression_algorithms_server_to_client: take_string_from(&lists, 7),
            languages_client_to_server: take_string_from(&lists, 8),
            languages_server_to_client: take_string_from(&lists, 9),
            first_kex_packet_follows,
        };
        assert(r@.name_lists =~= lists@.map_values(|s: String| s@));
        Some(r)
    }

    pub fn to_bytes(&self) -> (r: Vec<u8>)
        requires
            forall|i: int|
                0 <= i < self@.name_lists.len() ==> encode_utf8(#[trigger] self@.name_lists[i]).len()
                    <= u32::MAX,
        ensures
            r@ == kexinit_bytes(self@),
    {
        let mut data: Vec<u8> = Vec::new();
        data.push(numbers::SSH_MSG_KEXINIT);
        write_bytes(&mut data, &self.cookie);
        let ghost lists = self@.name_lists;
        let ghost start = data@;
        let all: Vec<&str> = vec![
            self.kex_algorithms.as_str(),
            self.server_host_key_algorithms.as_str(),
            self.encryption_algorithms_client_to_server.as_str(),
            self.encryption_algorithms_server_to_client.as_str(),
            self.mac_algorithms_client_to_server.as_str(),
            self.mac_algorithms_server_to_client.as_str(),
            self.compression_algorithms_client_to_server.as_str(),
            self.compression_algorithms_server_to_client.as_str(),
            self.languages_client_to_server.as_str(),
            self.languages_server_to_client.as_str(),
        ];
        assert(all@.map_values(|s: &str| s@) =~= lists);
        let mut i: usize = 0;
        assert(lists.subrange(0, 0) =~= Seq::<Seq<char>>::empty());
        while i < all.len()
            invariant
                i <= all@.len(),
                all@.len() == lists.len(),
                lists == self@.name_lists,
                forall|j: int| 0 <= j < all@.len() ==> (#[trigger] all@[j])@ == lists[j],
                forall|j: int| 0 <= j < lists.len() ==> encode_utf8(#[trigger] lists[j]).len() <= u32::MAX,
                data@ == start + name_lists_bytes(lists.subrange(0, i as int)),
            decreases all@.len() - i,
        {
            assert(all@[i as int]@ == lists[i as int]);
            write_string(&mut data, all[i].as_bytes());
            assert(lists.subrange(0, i + 1).drop_last() =~= lists.subrange(0, i as int));
            i = i + 1;
        }
        assert(lists.subrange(0, 10) =~= lists);
        write_bool(&mut data, self.first_kex_packet_follows);
        write_u32(&mut data, 0);
        assert(data@ =~= kexinit_bytes(self@));
        data
    }
}

/// The client's ephemeral public key `Q_C` from KEX_ECDH_INIT.
pub open spec fn parse_ecdh_init(p: Seq<u8>) -> Option<Seq<u8>> {
    match take_u8(p, 0) {
        Some((t, _)) => if t != numbers::SSH_MSG_KEX_ECDH_INIT {
            None
        } else {
            match take_string(p, 1) {
                Some((qc, _)) => Some(qc),
                None => None,
            }
        },
        None => None,
    }
}

pub struct KeyExchangeEcDhInitPacket {
    pub qc: Vec<u8>,
}

impl KeyExchangeEcDhInitPacket {
    pub fn parse(payload: &[u8]) -> (r: Option<KeyExchangeEcDhInitPacket>)
        ensures
            match parse_ecdh_init(payload@) {
                Some(qc) => r matches Some(x) && x.qc@ == qc,
                None => r is None,
            },
    {
        let Some((kind, _)) = read_u8(payload, 0) else { return None };
        if kind != numbers::SSH_MSG_KEX_ECDH_INIT {
            return None;
        }
        let Some((qc, _)) = read_string(payload, 1) else { return None };
        Some(KeyExchangeEcDhInitPacket { qc })
    }
}

/// KEX_ECDH_REPLY: the host key blob, `Q_S` and the signature blob, each as a string.
pub open spec fn msg_kex_ecdh_reply(host_key: Seq<u8>, qs: Seq<u8>, signature: Seq<u8>) -> Seq<u8> {
    seq![numbers::SSH_MSG_KEX_ECDH_REPLY] + string_bytes(host_key) + string_bytes(qs) + string_bytes(
        signature,
    )
}

impl Packet {
    pub fn new_msg_kex_ecdh_reply(host_key: &[u8], qs: &[u8], signature: &[u8]) -> (r: Packet)
        requires
            host_key@.len() <= u32::MAX,
            qs@.len() <= u32::MAX,
            signature@.len() <= u32::MAX,
        ensures
            r.payload@ == msg_kex_ecdh_reply(host_key@, qs@, signature@),
    {
        let mut out: Vec<u8> = Vec::new();
        out.push(numbers::SSH_MSG_KEX_ECDH_REPLY);
        write_string(&mut out, host_key);
        write_string(&mut out, qs);
        write_string(&mut out, signature);
        assert(out@ =~= msg_kex_ecdh_reply(host_key@, qs@, signature@));
        Packet { payload: out }
    }
}

/// A public key or signature blob: `string format || string data`.
pub open spec fn key_blob(format: Seq<u8>, data: Seq<u8>) -> Seq<u8> {
    string_bytes(format) + string_bytes(data)
}

pub struct SshPublicKey {
    pub format: Vec<u8>,
    pub data: Vec<u8>,
}

impl SshPublicKey {
    /// The key blob as a string.
    pub fn to_bytes(&self) -> (r: Vec<u8>)
        requires
            self.format@.len() + self.data@.len() + 8 <= u32::MAX,
        ensures
            r@ == string_bytes(key_blob(self.format@, self.data@)),
    {
        let mut out: Vec<u8> = Vec::new();
        write_u32(&mut out, (4 + self.format.len() + 4 + self.data.len()) as u32);
        write_string(&mut out, self.format.as_slice());
        write_string(&mut out, self.data.as_slice());
        assert(out@ =~= string_bytes(key_blob(self.format@, self.data@)));
        out
    }
}

/// The client's `e` from KEXDH_INIT, as the bytes of its mpint.
pub open spec fn parse_dh_init(p: Seq<u8>) -> Option<Seq<u8>> {
    match take_u8(p, 0) {
        Some((t, _)) => if t != numbers::SSH_MSG_KEXDH_INIT {
            None
        } else {
            match take_string(p, 1) {
                Some((e, _)) => Some(e),
                None => None,
            }
        },
        None => None,
    }
}

pub struct DhKeyExchangeInitPacket {
    /// The mpint `e`, as it stands on the wire.
    pub e: Vec<u8>,
}

impl DhKeyExchangeInitPacket {
    pub fn parse(payload: &[u8]) -> (r: Option<DhKeyExchangeInitPacket>)
        ensures
            match parse_dh_init(payload@) {
                Some(e) => r matches Some(x) && x.e@ == e,
                None => r is None,
            },
    {
        let Some((kind, _)) = read_u8(payload, 0) else { return None };
        if kind != numbers::SSH_MSG_KEXDH_INIT {
            return None;
        }
        let Some((e, _)) = read_string(payload, 1) else { return None };
        Some(DhKeyExchangeInitPacket { e })
    }
}

/// KEXDH_REPLY: the host key, `f` and the signature.
pub struct DhKeyExchangeInitReplyPacket {
    pub pubkey: SshPublicKey,
    /// The mpint `f`, as it stands on the wire.
    pub f: Vec<u8>,
    pub signature: SshPublicKey,
}

impl DhKeyExchangeInitReplyPacket {
    pub fn to_bytes(&self) -> (r: Vec<u8>)
        requires
            self.pubkey.format@.len() + self.pubkey.data@.len() + 8 <= u32::MAX,
            self.signature.format@.len() + self.signature.data@.len() + 8 <= u32::MAX,
            self.f@.len() <= u32::MAX,
        ensures
            r@ == seq![numbers::SSH_MSG_KEXDH_REPLY] + string_bytes(
                key_blob(self.pubkey.format@, self.pubkey.data@),
            ) + string_bytes(self.f@) + string_bytes(
                key_blob(self.signature.format@, self.signature.data@),
            ),
    {
        let mut data: Vec<u8> = Vec::new();
        data.push(numbers::SSH_MSG_KEXDH_REPLY);
        let key = self.pubkey.to_bytes();
        write_bytes(&mut data, key.as_slice());
        write_string(&mut data, self.f.as_slice());
        let sig = self.signature.to_bytes();
        write_bytes(&mut data, sig.as_slice());
        assert(data@ =~= seq![numbers::SSH_MSG_KEXDH_REPLY] + string_bytes(
            key_blob(self.pubkey.format@, self.pubkey.data@),
        ) + string_bytes(self.f@) + string_bytes(
            key_blob(self.signature.format@, self.signature.data@),
        ));
        data
    }
}

} // verus!
