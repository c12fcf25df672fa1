//! The polling engine: one session per distinct configured address, and
//! the demultiplexing of inbound datagrams by source address.
//!
//! The engine owns no socket and keeps no clock.  The surrounding process
//! reads the shared socket, asks `route` where a datagram belongs, and
//! drives the matching session; a datagram from an unknown source routes
//! nowhere and is dropped without touching any session.

use vstd::prelude::*;

use crate::codec::decode_spec;
use crate::codec::query_bytes;
use crate::codec::ReplyModel;
use crate::session::fresh_model;
use crate::session::up_spec;
use crate::session::DatagramOutcome;
use crate::session::SessionState;

verus! {

/// One configured server's network identity, held as plain values: the
/// address bits (a v4 address uses the low 32 bits), the family, and the
/// port.  Identical addresses configured twice collapse to one session.
#[derive(Clone, Copy, Debug, PartialEq, Eq, Structural)]
pub struct ServerTarget {
    pub ip: u128,
    pub is_v6: bool,
    pub port: u16,
}

/// The polling engine: the deduplicated target list and one session per
/// target, in matching order.
pub struct Engine {
    pub targets: Vec<ServerTarget>,
    pub sessions: Vec<SessionState>,
}

fn contains_target(v: &Vec<ServerTarget>, a: ServerTarget) -> (r: bool)
    ensures
        r == v@.contains(a),
{
    let mut i: usize = 0;
    while i < v.len()
        invariant
            i <= v@.len(),
            forall|j: int| 0 <= j < i ==> v@[j] != a,
        decreases v@.len() - i,
    {
        if v[i] == a {
            proof {
                assert(v@.contains(a)) by {
                    assert(v@[i as int] == a);
                }
            }
            return true;
        }
        i = i + 1;
    }
    false
}

impl Engine {
    /// The engine's shape: one session per target, no address twice.
    pub open spec fn wf(&self) -> bool {
        &&& self.targets@.no_duplicates()
        &&& self.sessions@.len() == self.targets@.len()
    }

    /// Builds the engine from the configured address list.  A duplicate
    /// address is skipped, so every distinct configured address gets
    /// exactly one target and one fresh session.
    pub fn new(addrs: &Vec<ServerTarget>, interval: u64) -> (r: Engine)
        ensures
            r.wf(),
            forall|a: ServerTarget| r.targets@.contains(a) <==> addrs@.contains(a),
            forall|k: int|
                0 <= k < r.sessions@.len() ==> r.sessions@[k]@ == fresh_model(interval),
    {
        let mut targets: Vec<ServerTarget> = Vec::new();
        let mut sessions: Vec<SessionState> = Vec::new();
        let mut i: usize = 0;
        while i < addrs.len()
            invariant
                i <= addrs@.len(),
                targets@.no_duplicates(),
                sessions@.len() == targets@.len(),
                forall|a: ServerTarget|
                    targets@.contains(a) <==> addrs@.subrange(0, i as int).contains(a),
                forall|k: int|
                    0 <= k < sessions@.len() ==> sessions@[k]@ == fresh_model(interval),
            decreases addrs@.len() - i,
        {
            let ghost prev_targets = targets@;
            let a = addrs[i];
            if !contains_target(&targets, a) {
                targets.push(a);
                sessions.push(SessionState::new(interval));
                proof {
                    assert(targets@.no_duplicates()) by {
                        assert(forall|j: int|
                            0 <= j < prev_targets.len() ==> targets@[j] == prev_targets[j]);
                        assert(forall|j: int|
                            0 <= j < prev_targets.len() ==> prev_targets[j] != a) by {
                            if exists|j: int|
                                0 <= j < prev_targets.len() && prev_targets[j] == a {
                                let j = choose|j: int|
                                    0 <= j < prev_targets.len() && prev_targets[j] == a;
                                assert(prev_targets.contains(a));
                            }
                        }
                    }
                }
            }
            i = i + 1;
            proof {
                assert(addrs@.subrange(0, i as int) =~= addrs@.subrange(0, i - 1).push(
                    addrs@[i - 1],
                ));
                assert forall|x: ServerTarget|
                    targets@.contains(x) <==> addrs@.subrange(0, i as int).contains(x) by {
                    let fore = addrs@.subrange(0, i - 1);
                    let here = addrs@.subrange(0, i as int);
                    if targets@.contains(x) {
                        let j = choose|j: int| 0 <= j < targets@.len() && targets@[j] == x;
                        if j < prev_targets.len() {
                            assert(prev_targets.contains(x)) by {
                                assert(prev_targets[j] == x);
                            }
                            let k = choose|k: int| 0 <= k < fore.len() && fore[k] == x;
                            assert(here[k] == x);
                            assert(here.contains(x));
                        } else {
                            assert(x == a);
                            assert(here[i - 1] == x);
                            assert(here.contains(x));
                        }
                    }
                    if here.contains(x) {
                        let j = choose|j: int| 0 <= j < here.len() && here[j] == x;
                        if j < i - 1 {
                            assert(fore[j] == x);
                            assert(fore.contains(x));
                        } else {
                            assert(x == a);
                            if !prev_targets.contains(a) {
                                assert(targets@[targets@.len() - 1] == a);
                            }
                        }
                        assert(targets@.contains(x)) by {
                            if prev_targets.contains(x) {
                                let k = choose|k: int|
                                    0 <= k < prev_targets.len() && prev_targets[k] == x;
                                assert(targets@[k] == x);
                            }
                        }
                    }
                }
            }
        }
        proof {
            assert(addrs@.subrange(0, addrs@.len() as int) =~= addrs@);
        }
        Engine { targets, sessions }
    }

    /// How many sessions the engine runs: one per distinct address.
    pub fn session_count(&self) -> (r: usize)
        ensures
            r == self.sessions@.len(),
    {
        self.sessions.len()
    }

    /// Where an inbound datagram from `src` belongs: the index of the
    /// matching session, or nowhere when no session owns that address.
    pub fn route(&self, src: ServerTarget) -> (r: Option<usize>)
        ensures
            r is Some <==> self.targets@.contains(src),
            r matches Some(i) ==> i < self.targets@.len() && self.targets@[i as int] == src,
    {
        let mut i: usize = 0;
        while i < self.targets.len()
            invariant
                i <= self.targets@.len(),
                forall|j: int| 0 <= j < i ==> self.targets@[j] != src,
            decreases self.targets@.len() - i,
        {
            if self.targets[i] == src {
                proof {
                    assert(self.targets@.contains(src)) by {
                        assert(self.targets@[i as int] == src);
                    }
                }
                return Some(i);
            }
            i = i + 1;
        }
        None
    }

    /// The tick for session `i`: the query to send and the liveness value
    /// owed to the metrics sink.  The engine is unchanged.
    pub fn handle_tick(&self, i: usize, now: u64) -> (r: (Vec<u8>, bool))
        requires
            i < self.sessions@.len(),
        ensures
            r.0@ == query_bytes(self.sessions@[i as int]@.challenge),
            r.1 == up_spec(
                self.sessions@[i as int]@.last_update,
                now,
                self.sessions@[i as int]@.interval,
            ),
    {
        self.sessions[i].on_tick(now)
    }

    /// Hands one inbound datagram to session `i`.  Every other session,
    /// and the target list, is left exactly as it was.
    pub fn handle_datagram(&mut self, i: usize, data: &Vec<u8>, now: u64) -> (out:
        DatagramOutcome)
        requires
            i < old(self).sessions@.len(),
        ensures
            final(self).targets@ == old(self).targets@,
            final(self).sessions@.len() == old(self).sessions@.len(),
            forall|j: int|
                0 <= j < old(self).sessions@.len() && j != i ==> final(self).sessions@[j] == old(
                    self,
                ).sessions@[j],
            final(self).sessions@[i as int]@.interval == old(
                self,
            ).sessions@[i as int]@.interval,
            match decode_spec(data@) {
                ReplyModel::Info(info) => {
                    &&& out matches DatagramOutcome::Observe { players, bots, name, game, version }
                        && players == info.players && bots == info.bots && name@ == info.name
                        && game@ == info.game && version@ == info.version
                    &&& final(self).sessions@[i as int]@.last_update == Some(now)
                    &&& final(self).sessions@[i as int]@.challenge == old(
                        self,
                    ).sessions@[i as int]@.challenge
                },
                ReplyModel::Challenge(token) => {
                    &&& out matches DatagramOutcome::QueryAgain { query } && query@ == query_bytes(
                        token,
                    )
                    &&& final(self).sessions@[i as int]@.challenge == token
                    &&& final(self).sessions@[i as int]@.last_update == old(
                        self,
                    ).sessions@[i as int]@.last_update
                },
                _ => {
                    &&& out matches DatagramOutcome::Dropped
                    &&& final(self).sessions@[i as int]@ == old(self).sessions@[i as int]@
                },
            },
    {
        let ghost before = self.sessions@;
        let mut st = self.sessions.remove(i);
        let out = st.on_datagram(data, now);
        self.sessions.insert(i, st);
        proof {
            assert(self.sessions@ =~= before.update(i as int, st));
        }
        out
    }
}

/// With duplicates collapsed, an address owns at most one session, so one
/// tick for that address issues exactly one query.
pub proof fn lemma_one_session_per_address(e: Engine, i: int, j: int)
    requires
        e.wf(),
        0 <= i < e.targets@.len(),
        0 <= j < e.targets@.len(),
        e.targets@[i] == e.targets@[j],
    ensures
        i == j,
{
}

} // verus!
