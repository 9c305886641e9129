//! The session driver's decisions: which channels the host has been shown,
//! where each channel update goes, when the host's key exchange starts, and
//! which authentication methods can be offered.
use vstd::prelude::*;

use crate::channels::{ChannelUpdate, UpdateKindView};

verus! {

/// How a channel stands with the host.
#[derive(Debug, Clone, Copy, PartialEq, Eq, Structural)]
pub enum Presented {
    /// We asked to open it; the host waits for the outcome.
    Pending,
    /// The host holds a handle to it.
    Ready,
}

/// Where an update goes.
#[derive(Debug, Clone, Copy, PartialEq, Eq, Structural)]
pub enum Route {
    /// A channel we opened is now open: complete the host's open request.
    OpenDone,
    /// A channel we opened was refused: fail the host's open request.
    OpenFailed,
    /// The peer opened a channel: hand the host a new channel.
    NewChannel,
    /// Deliver the update to the host's channel.
    Forward,
}

/// An update that cannot be routed; fatal to the connection.
#[derive(Debug, Clone, Copy, PartialEq, Eq, Structural)]
pub enum RouteError {
    OpenedTwice(u32),
    UnknownChannel(u32),
    NotReady(u32),
}

/// Routes the update `kind` on channel `n` given the channels shown to the host.
pub open spec fn route_step(t: Map<u32, Presented>, n: u32, kind: UpdateKindView) -> Result<
    (Map<u32, Presented>, Route),
    RouteError,
> {
    match kind {
        UpdateKindView::Open(_) => if !t.contains_key(n) {
            Ok((t.insert(n, Presented::Ready), Route::NewChannel))
        } else if t[n] == Presented::Pending {
            Ok((t.insert(n, Presented::Ready), Route::OpenDone))
        } else {
            Err(RouteError::OpenedTwice(n))
        },
        UpdateKindView::OpenFailed { .. } => if !t.contains_key(n) {
            Err(RouteError::UnknownChannel(n))
        } else if t[n] == Presented::Pending {
            Ok((t.remove(n), Route::OpenFailed))
        } else {
            Err(RouteError::OpenedTwice(n))
        },
        _ => if !t.contains_key(n) {
            Err(RouteError::UnknownChannel(n))
        } else if t[n] == Presented::Pending {
            Err(RouteError::NotReady(n))
        } else {
            Ok((t, Route::Forward))
        },
    }
}

/// The first entry for `n`.
pub open spec fn lookup(s: Seq<(u32, Presented)>, n: u32) -> Option<Presented>
    decreases s.len(),
{
    if s.len() == 0 {
        None
    } else if s[0].0 == n {
        Some(s[0].1)
    } else {
        lookup(s.drop_first(), n)
    }
}

pub open spec fn unique_numbers(s: Seq<(u32, Presented)>) -> bool {
    forall|i: int, j: int| 0 <= i < j < s.len() ==> #[trigger] s[i].0 != #[trigger] s[j].0
}

proof fn lemma_lookup_at(s: Seq<(u32, Presented)>, i: int)
    requires
        unique_numbers(s),
        0 <= i < s.len(),
    ensures
        lookup(s, s[i].0) == Some(s[i].1),
    decreases s.len(),
{
    if i > 0 {
        assert(s[0].0 != s[i].0);
        let t = s.drop_first();
        assert(t[i - 1] == s[i]);
        assert(unique_numbers(t)) by {
            assert forall|a: int, b: int| 0 <= a < b < t.len() implies #[trigger] t[a].0 != #[trigger] t[b].0 by {
                assert(t[a] == s[a + 1] && t[b] == s[b + 1]);
            }
        }
        lemma_lookup_at(t, i - 1);
    }
}

proof fn lemma_lookup_none(s: Seq<(u32, Presented)>, n: u32)
    requires
        forall|i: int| 0 <= i < s.len() ==> #[trigger] s[i].0 != n,
    ensures
        lookup(s, n) is None,
    decreases s.len(),
{
    if s.len() > 0 {
        let t = s.drop_first();
        assert forall|i: int| 0 <= i < t.len() implies #[trigger] t[i].0 != n by {
            assert(t[i] == s[i + 1]);
        }
        lemma_lookup_none(t, n);
    }
}

/// Whether `n` is in the table, and what it holds, read from the entries.
proof fn lemma_lookup(s: Seq<(u32, Presented)>, n: u32)
    requires
        unique_numbers(s),
    ensures
        lookup(s, n) matches Some(p) ==> exists|i: int| 0 <= i < s.len() && s[i] == (n, p),
        lookup(s, n) is None ==> forall|i: int| 0 <= i < s.len() ==> #[trigger] s[i].0 != n,
{
    if exists|i: int| 0 <= i < s.len() && s[i].0 == n {
        let i = choose|i: int| 0 <= i < s.len() && s[i].0 == n;
        lemma_lookup_at(s, i);
    } else {
        lemma_lookup_none(s, n);
    }
}

/// The channels shown to the host, by number.
pub struct PresentedChannels {
    entries: Vec<(u32, Presented)>,
}

impl View for PresentedChannels {
    type V = Map<u32, Presented>;

    closed spec fn view(&self) -> Map<u32, Presented> {
        Map::new(
            |n: u32| lookup(self.entries@, n) is Some,
            |n: u32| lookup(self.entries@, n)->Some_0,
        )
    }
}

impl PresentedChannels {
    pub closed spec fn wf(&self) -> bool {
        unique_numbers(self.entries@)
    }

    pub fn new() -> (r: Self)
        ensures
            r.wf(),
            r@ == Map::<u32, Presented>::empty(),
    {
        let r = PresentedChannels { entries: Vec::new() };
        assert(r@ =~= Map::<u32, Presented>::empty());
        r
    }

    fn find(&self, n: u32) -> (r: Option<usize>)
        requires
            self.wf(),
        ensures
            match r {
                Some(i) => i < self.entries@.len() && self.entries@[i as int].0 == n,
                None => forall|i: int| 0 <= i < self.entries@.len() ==> #[trigger] self.entries@[i].0 != n,
            },
    {
        let mut i: usize = 0;
        while i < self.entries.len()
            invariant
                i <= self.entries@.len(),
                forall|j: int| 0 <= j < i ==> #[trigger] self.entries@[j].0 != n,
            decreases self.entries@.len() - i,
        {
            if self.entries[i].0 == n {
                return Some(i);
            }
            i = i + 1;
        }
        None
    }

    /// What the table holds for `n`.
    pub fn get(&self, n: u32) -> (r: Option<Presented>)
        requires
            self.wf(),
        ensures
            r == (if self@.contains_key(n) {
                Some(self@[n])
            } else {
                None
            }),
    {
        match self.find(n) {
            Some(i) => {
                proof {
                    lemma_lookup_at(self.entries@, i as int);
                }
                Some(self.entries[i].1)
            },
            None => {
                proof {
                    lemma_lookup_none(self.entries@, n);
                }
                None
            },
        }
    }

    /// Sets `n` to `p`.
    pub fn insert(&mut self, n: u32, p: Presented)
        requires
            old(self).wf(),
        ensures
            final(self).wf(),
            final(self)@ == old(self)@.insert(n, p),
    {
        let ghost s0 = self.entries@;
        match self.find(n) {
            Some(i) => {
                self.entries.set(i, (n, p));
                let ghost s1 = self.entries@;
                assert(unique_numbers(s1)) by {
                    assert forall|a: int, b: int| 0 <= a < b < s1.len() implies #[trigger] s1[a].0 != #[trigger] s1[b].0 by {
                        assert(s1[a].0 == s0[a].0 && s1[b].0 == s0[b].0);
                    }
                }
                assert forall|m: u32| #[trigger] lookup(s1, m) == (if m == n { Some(p) } else { lookup(s0, m) }) by {
                    lemma_lookup(s0, m);
                    lemma_lookup(s1, m);
                    if m == n {
                        lemma_lookup_at(s1, i as int);
                    } else if lookup(s0, m) is Some {
                        let j = choose|j: int| 0 <= j < s0.len() && s0[j] == (m, lookup(s0, m)->Some_0);
                        assert(s1[j] == s0[j]);
                        lemma_lookup_at(s1, j);
                    } else {
                        assert forall|j: int| 0 <= j < s1.len() implies #[trigger] s1[j].0 != m by {
                            if j != i {
                                assert(s1[j] == s0[j]);
                            }
                        }
                        lemma_lookup_none(s1, m);
                    }
                }
            },
            None => {
                self.entries.push((n, p));
                let ghost s1 = self.entries@;
                assert(unique_numbers(s1)) by {
                    assert forall|a: int, b: int| 0 <= a < b < s1.len() implies #[trigger] s1[a].0 != #[trigger] s1[b].0 by {
                        if b < s0.len() {
                            assert(s1[a] == s0[a] && s1[b] == s0[b]);
                        } else {
                            assert(s1[a] == s0[a]);
                        }
                    }
                }
                assert forall|m: u32| #[trigger] lookup(s1, m) == (if m == n { Some(p) } else { lookup(s0, m) }) by {
                    lemma_lookup(s0, m);
                    if m == n {
                        lemma_lookup_at(s1, s0.len() as int);
                    } else if lookup(s0, m) is Some {
                        let j = choose|j: int| 0 <= j < s0.len() && s0[j] == (m, lookup(s0, m)->Some_0);
                        assert(s1[j] == s0[j]);
                        lemma_lookup_at(s1, j);
                    } else {
                        assert forall|j: int| 0 <= j < s1.len() implies #[trigger] s1[j].0 != m by {
                            if j < s0.len() {
                                assert(s1[j] == s0[j]);
                            }
                        }
                        lemma_lookup_none(s1, m);
                    }
                }
            },
        }
        assert(self@ =~= old(self)@.insert(n, p));
    }

    /// Removes `n`.
    pub fn remove(&mut self, n: u32)
        requires
            old(self).wf(),
        ensures
            final(self).wf(),
            final(self)@ == old(self)@.remove(n),
    {
        let ghost s0 = self.entries@;
        match self.find(n) {
            Some(i) => {
                self.entries.remove(i);
                let ghost s1 = self.entries@;
                assert forall|j: int| 0 <= j < s1.len() implies #[trigger] s1[j] == (if j < i { s0[j] } else { s0[j + 1] }) by {}
                assert(unique_numbers(s1)) by {
                    assert forall|a: int, b: int| 0 <= a < b < s1.len() implies #[trigger] s1[a].0 != #[trigger] s1[b].0 by {
                        let a0 = if a < i { a } else { a + 1 };
                        let b0 = if b < i { b } else { b + 1 };
                        assert(s1[a] == s0[a0] && s1[b] == s0[b0]);
                    }
                }
                assert forall|m: u32| #[trigger] lookup(s1, m) == (if m == n { None } else { lookup(s0, m) }) by {
                    lemma_lookup(s0, m);
                    if m == n {
                        assert forall|j: int| 0 <= j < s1.len() implies #[trigger] s1[j].0 != m by {
                            let j0 = if j < i { j } else { j + 1 };
                            assert(s1[j] == s0[j0]);
                        }
                        lemma_lookup_none(s1, m);
                    } else if lookup(s0, m) is Some {
                        let j = choose|j: int| 0 <= j < s0.len() && s0[j] == (m, lookup(s0, m)->Some_0);
                        assert(j != i);
                        let j1 = if j < i { j } else { j - 1 };
                        assert(s1[j1] == s0[j]);
                        lemma_lookup_at(s1, j1);
                    } else {
                        assert forall|j: int| 0 <= j < s1.len() implies #[trigger] s1[j].0 != m by {
                            let j0 = if j < i { j } else { j + 1 };
                            assert(s1[j] == s0[j0]);
                        }
                        lemma_lookup_none(s1, m);
                    }
                }
            },
            None => {
                proof {
                    lemma_lookup_none(s0, n);
                }
            },
        }
        assert(self@ =~= old(self)@.remove(n));
    }
}

/// Routes one channel update: which host action it calls for, and the table
/// afterwards. On error the table is unchanged.
pub fn route_update(table: &mut PresentedChannels, u: &ChannelUpdate) -> (r: Result<Route, RouteError>)
    requires
        old(table).wf(),
    ensures
        final(table).wf(),
        match route_step(old(table)@, u.number.0, u@.kind) {
            Ok((t, a)) => r == Ok::<Route, RouteError>(a) && final(table)@ == t,
            Err(e) => r == Err::<Route, RouteError>(e) && final(table)@ == old(table)@,
        },
{
    let n = u.number.0;
    let current = table.get(n);
    match &u.kind {
        crate::channels::ChannelUpdateKind::Open(_) => match current {
            None => {
                table.insert(n, Presented::Ready);
                Ok(Route::NewChannel)
            },
            Some(Presented::Pending) => {
                table.insert(n, Presented::Ready);
                Ok(Route::OpenDone)
            },
            Some(Presented::Ready) => Err(RouteError::OpenedTwice(n)),
        },
        crate::channels::ChannelUpdateKind::OpenFailed { .. } => match current {
            None => Err(RouteError::UnknownChannel(n)),
            Some(Presented::Pending) => {
                table.remove(n);
                Ok(Route::OpenFailed)
            },
            Some(Presented::Ready) => Err(RouteError::OpenedTwice(n)),
        },
        _ => match current {
            None => Err(RouteError::UnknownChannel(n)),
            Some(Presented::Pending) => Err(RouteError::NotReady(n)),
            Some(Presented::Ready) => Ok(Route::Forward),
        },
    }
}

/// Whether the host's key exchange was started for this connection.
pub struct KeyExchangeDispatch {
    started: bool,
}

impl KeyExchangeDispatch {
    pub closed spec fn started(&self) -> bool {
        self.started
    }

    pub fn new() -> (r: Self)
        ensures
            !r.started(),
    {
        KeyExchangeDispatch { started: false }
    }

    /// Given whether the transport waits for the key exchange, says whether to
    /// start it now: once, the first time it is waited for.
    pub fn should_start(&mut self, waiting: bool) -> (start: bool)
        ensures
            start == (waiting && !old(self).started()),
            final(self).started() == (old(self).started() || waiting),
    {
        if waiting && !self.started {
            self.started = true;
            true
        } else {
            false
        }
    }
}

/// The authentication methods to offer, `(password, public key)`, given which
/// verifiers the host supplied. None when nothing can be offered, or when only
/// one of the two public-key verifiers is there.
pub fn auth_options(password: bool, check_pubkey: bool, verify_signature: bool) -> (r: Option<(bool, bool)>)
    ensures
        r is None <==> (!password && !verify_signature) || check_pubkey != verify_signature,
        r matches Some((pw, pk)) ==> pw == password && pk == verify_signature,
{
    if (!password && !verify_signature) || check_pubkey != verify_signature {
        None
    } else {
        Some((password, verify_signature))
    }
}

} // verus!
