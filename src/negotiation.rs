//! Algorithm negotiation: the client's preference order decides, the server's
//! list only filters.
use vstd::prelude::*;
use vstd::string::{StringExecFns, StringSliceAdditionalSpecFns};
use vstd::utf8::encode_utf8;

use vstd::slice::slice_subrange;

use crate::wire::bytes_eq;

verus! {

/// Something that is negotiated by name.
pub trait AlgorithmName {
    spec fn name_view(&self) -> Seq<char>;

    fn name(&self) -> (r: &'static str)
        ensures
            r@ == self.name_view(),
    ;
}

impl AlgorithmName for &'static str {
    open spec fn name_view(&self) -> Seq<char> {
        (**self)@
    }

    fn name(&self) -> (r: &'static str) {
        *self
    }
}

/// The name-list `a,b,c` of the given names.
pub open spec fn join_names(names: Seq<Seq<char>>) -> Seq<char>
    decreases names.len(),
{
    if names.len() == 0 {
        Seq::empty()
    } else if names.len() == 1 {
        names[0]
    } else {
        join_names(names.drop_last()) + seq![','] + names.last()
    }
}

/// The fields of a comma-separated list, as `str::split(',')` yields them.
pub open spec fn split_commas(s: Seq<u8>) -> Seq<Seq<u8>>
    decreases s.len(),
{
    if s.len() == 0 {
        seq![Seq::empty()]
    } else {
        let fields = split_commas(s.drop_last());
        if s.last() == 0x2cu8 {
            fields.push(Seq::empty())
        } else {
            fields.update(fields.len() - 1, fields.last().push(s.last()))
        }
    }
}

pub proof fn lemma_split_commas_nonempty(s: Seq<u8>)
    ensures
        split_commas(s).len() >= 1,
    decreases s.len(),
{
    if s.len() > 0 {
        lemma_split_commas_nonempty(s.drop_last());
    }
}

/// The first entry of the client's list that also appears in the server's list.
pub open spec fn first_common(client: Seq<Seq<u8>>, server: Seq<Seq<u8>>) -> Option<Seq<u8>>
    decreases client.len(),
{
    if client.len() == 0 {
        None
    } else if server.contains(client[0]) {
        Some(client[0])
    } else {
        first_common(client.drop_first(), server)
    }
}

/// `first_common` picks an entry that both lists hold, and every entry before
/// it in the client's list is missing from the server's; it finds nothing only
/// when the lists share no entry.
pub proof fn lemma_first_common(client: Seq<Seq<u8>>, server: Seq<Seq<u8>>)
    ensures
        match first_common(client, server) {
            Some(name) => exists|i: int|
                0 <= i < client.len() && client[i] == name && server.contains(name) && forall|
                    k: int,
                | 0 <= k < i ==> !server.contains(#[trigger] client[k]),
            None => forall|k: int| 0 <= k < client.len() ==> !server.contains(#[trigger] client[k]),
        },
    decreases client.len(),
{
    if client.len() > 0 {
        lemma_first_common(client.drop_first(), server);
        if !server.contains(client[0]) {
            match first_common(client, server) {
                Some(name) => {
                    let i = choose|i: int|
                        0 <= i < client.drop_first().len() && client.drop_first()[i] == name
                            && server.contains(name) && forall|k: int|
                            0 <= k < i ==> !server.contains(#[trigger] client.drop_first()[k]);
                    assert(client[i + 1] == name);
                    assert forall|k: int| 0 <= k < i + 1 implies !server.contains(
                        #[trigger] client[k],
                    ) by {
                        if k > 0 {
                            assert(client[k] == client.drop_first()[k - 1]);
                        }
                    }
                },
                None => {
                    assert forall|k: int| 0 <= k < client.len() implies !server.contains(
                        #[trigger] client[k],
                    ) by {
                        if k > 0 {
                            assert(client[k] == client.drop_first()[k - 1]);
                        }
                    }
                },
            }
        }
    }
}

/// The first index of `names` whose entry is `name`.
pub open spec fn first_index_of(names: Seq<Seq<u8>>, name: Seq<u8>) -> int
    decreases names.len(),
{
    if names.len() == 0 {
        0
    } else if names[0] == name {
        0
    } else {
        1 + first_index_of(names.drop_first(), name)
    }
}

pub proof fn lemma_first_index_of(names: Seq<Seq<u8>>, name: Seq<u8>)
    requires
        names.contains(name),
    ensures
        0 <= first_index_of(names, name) < names.len(),
        names[first_index_of(names, name)] == name,
    decreases names.len(),
{
    if names[0] != name {
        let k = choose|k: int| 0 <= k < names.len() && names[k] == name;
        assert(names.drop_first()[k - 1] == name);
        lemma_first_index_of(names.drop_first(), name);
    }
}

/// No entry of the client's list is in the server's list.
#[derive(Debug)]
pub struct NoCommonAlgorithm {
    /// Our name-list.
    pub we_support: String,
    /// The peer's name-list.
    pub peer_supports: String,
}

/// A list of supported algorithms, most preferred first.
pub struct AlgorithmNegotiation<T> {
    pub supported: Vec<T>,
}

impl<T: AlgorithmName> AlgorithmNegotiation<T> {
    /// The UTF-8 encodings of the supported names, in order.
    pub open spec fn name_bytes(&self) -> Seq<Seq<u8>> {
        self.supported@.map_values(|t: T| encode_utf8(t.name_view()))
    }

    pub open spec fn name_views(&self) -> Seq<Seq<char>> {
        self.supported@.map_values(|t: T| t.name_view())
    }

    /// The supported names as a name-list.
    pub fn to_name_list(&self) -> (r: String)
        ensures
            r@ == join_names(self.name_views()),
    {
        let mut out = String::new();
        let mut i: usize = 0;
        while i < self.supported.len()
            invariant
                i <= self.supported@.len(),
                out@ == join_names(self.name_views().subrange(0, i as int)),
            decreases self.supported@.len() - i,
        {
            let name = self.supported[i].name();
            let ghost before = self.name_views().subrange(0, i as int);
            let ghost after = self.name_views().subrange(0, i + 1);
            assert(after.drop_last() =~= before);
            if i > 0 {
                out.append(",");
                proof {
                    reveal_strlit(",");
                }
            } else {
                assert(before.len() == 0);
            }
            out.append(name);
            i = i + 1;
        }
        assert(self.name_views().subrange(0, i as int) =~= self.name_views());
        out
    }

    /// Picks the first algorithm of the client's list that the server's list
    /// also holds. `peer_supports` is the peer's comma-separated name-list.
    pub fn find(self, this_is_client: bool, peer_supports: &str) -> (r: Result<
        T,
        NoCommonAlgorithm,
    >)
        ensures
            ({
                let mine = self.name_bytes();
                let peer = split_commas(peer_supports.spec_bytes());
                let chosen = if this_is_client {
                    first_common(mine, peer)
                } else {
                    first_common(peer, mine)
                };
                match chosen {
                    Some(name) => r matches Ok(t) && t == self.supported@[first_index_of(
                        mine,
                        name,
                    )] && encode_utf8(t.name_view()) == name,
                    None => r matches Err(e) && e.we_support@ == join_names(self.name_views())
                        && e.peer_supports@ == peer_supports@,
                }
            }),
    {
        let ghost mine = self.name_bytes();
        let peer_bytes = peer_supports.as_bytes();
        let peer_algs = split_name_list(peer_bytes);
        let ghost peer = split_commas(peer_supports.spec_bytes());
        assert(peer_algs@.map_values(|x: &[u8]| x@) =~= peer);
        let mut my_algs: Vec<&[u8]> = Vec::new();
        let mut i: usize = 0;
        while i < self.supported.len()
            invariant
                i <= self.supported@.len(),
                mine == self.name_bytes(),
                mine.len() == self.supported@.len(),
                my_algs@.len() == i,
                forall|k: int| 0 <= k < i ==> (#[trigger] my_algs@[k])@ == mine[k],
            decreases self.supported@.len() - i,
        {
            my_algs.push(self.supported[i].name().as_bytes());
            i = i + 1;
        }
        assert(my_algs@.map_values(|x: &[u8]| x@) =~= mine);
        let chosen = if this_is_client {
            first_common_exec(&my_algs, &peer_algs)
        } else {
            first_common_exec(&peer_algs, &my_algs)
        };
        proof {
            if this_is_client {
                lemma_first_common(mine, peer);
            } else {
                lemma_first_common(peer, mine);
            }
        }
        match chosen {
            Some(idx) => {
                let name: &[u8] = if this_is_client {
                    my_algs[idx]
                } else {
                    peer_algs[idx]
                };
                proof {
                    if this_is_client {
                        assert(mine[idx as int] == name@);
                    }
                }
                let pos = position_of(&my_algs, name);
                proof {
                    lemma_first_index_of(mine, name@);
                }
                let mut supported = self.supported;
                Ok(supported.remove(pos))
            },
            None => {
                let we_support = self.to_name_list();
                Err(NoCommonAlgorithm { we_support, peer_supports: peer_supports.to_owned() })
            },
        }
    }
}

/// Splits a comma-separated list into its fields.
fn split_name_list(s: &[u8]) -> (r: Vec<&[u8]>)
    ensures
        r@.len() == split_commas(s@).len(),
        forall|k: int| 0 <= k < r@.len() ==> (#[trigger] r@[k])@ == split_commas(s@)[k],
{
    let mut fields: Vec<&[u8]> = Vec::new();
    let mut start: usize = 0;
    let mut i: usize = 0;
    while i < s.len()
        invariant
            start <= i <= s@.len(),
            fields@.len() + 1 == split_commas(s@.subrange(0, i as int)).len(),
            forall|k: int|
                0 <= k < fields@.len() ==> (#[trigger] fields@[k])@ == split_commas(
                    s@.subrange(0, i as int),
                )[k],
            split_commas(s@.subrange(0, i as int)).last() == s@.subrange(start as int, i as int),
        decreases s@.len() - i,
    {
        let ghost prev = split_commas(s@.subrange(0, i as int));
        assert(s@.subrange(0, i + 1).drop_last() =~= s@.subrange(0, i as int));
        if s[i] == 0x2c {
            fields.push(slice_subrange(s, start, i));
            start = i + 1;
            assert(s@.subrange(start as int, i + 1) =~= Seq::<u8>::empty());
        } else {
            assert(s@.subrange(start as int, i + 1) =~= s@.subrange(start as int, i as int).push(
                s@[i as int],
            ));
        }
        i = i + 1;
    }
    assert(s@.subrange(0, i as int) =~= s@);
    fields.push(slice_subrange(s, start, i));
    fields
}

/// The index in `client` of the first entry that `server` holds.
fn first_common_exec(client: &Vec<&[u8]>, server: &Vec<&[u8]>) -> (r: Option<usize>)
    ensures
        ({
            let c = client@.map_values(|x: &[u8]| x@);
            let s = server@.map_values(|x: &[u8]| x@);
            match first_common(c, s) {
                Some(name) => r matches Some(i) && i < client@.len() && client@[i as int]@ == name,
                None => r is None,
            }
        }),
{
    let ghost c = client@.map_values(|x: &[u8]| x@);
    let ghost s = server@.map_values(|x: &[u8]| x@);
    let mut i: usize = 0;
    assert(c.subrange(0, c.len() as int) =~= c);
    while i < client.len()
        invariant
            i <= client@.len(),
            c == client@.map_values(|x: &[u8]| x@),
            s == server@.map_values(|x: &[u8]| x@),
            first_common(c, s) == first_common(c.subrange(i as int, c.len() as int), s),
        decreases client@.len() - i,
    {
        let ghost rest = c.subrange(i as int, c.len() as int);
        assert(rest.drop_first() =~= c.subrange(i + 1, c.len() as int));
        if position_of(server, client[i]) < server.len() {
            return Some(i);
        }
        i = i + 1;
    }
    assert(c.subrange(i as int, c.len() as int) =~= Seq::<Seq<u8>>::empty());
    None
}

/// The first index of `name` in `names`, or the length when it is absent.
fn position_of(names: &Vec<&[u8]>, name: &[u8]) -> (r: usize)
    ensures
        ({
            let n = names@.map_values(|x: &[u8]| x@);
            &&& r as int == first_index_of(n, name@)
            &&& r <= names@.len()
            &&& (r < names@.len() <==> n.contains(name@))
        }),
{
    let ghost n = names@.map_values(|x: &[u8]| x@);
    let mut i: usize = 0;
    assert(n.subrange(0, n.len() as int) =~= n);
    while i < names.len()
        invariant
            i <= names@.len(),
            n == names@.map_values(|x: &[u8]| x@),
            forall|k: int| 0 <= k < i ==> n[k] != name@,
            first_index_of(n, name@) == i + first_index_of(
                n.subrange(i as int, n.len() as int),
                name@,
            ),
        decreases names@.len() - i,
    {
        let ghost rest = n.subrange(i as int, n.len() as int);
        assert(rest.drop_first() =~= n.subrange(i + 1, n.len() as int));
        if bytes_eq(names[i], name) {
            return i;
        }
        i = i + 1;
    }
    assert(n.subrange(i as int, n.len() as int) =~= Seq::<Seq<u8>>::empty());
    assert(!n.contains(name@));
    i
}

} // verus!
