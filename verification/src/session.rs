//! The per-server session state machine.
//!
//! A session owns one server's mutable record and reacts to three event
//! sources: the periodic tick, an inbound challenge token, and an inbound
//! datagram.  Each handler is a pure transition from state and event to
//! next state and action; the surrounding process performs the sends and
//! hands observations to the metrics sink.

use vstd::prelude::*;

use crate::codec::decode;
use crate::codec::decode_spec;
use crate::codec::encode_query;
use crate::codec::query_bytes;
use crate::codec::ReplyFrame;
use crate::codec::ReplyModel;

verus! {

/// Model of one session's mutable record.
pub ghost struct SessionModel {
    pub challenge: Seq<u8>,
    pub last_update: Option<u64>,
    pub interval: u64,
}

/// A session as first configured: no token, no successful parse yet.
pub open spec fn fresh_model(interval: u64) -> SessionModel {
    SessionModel { challenge: Seq::<u8>::empty(), last_update: None::<u64>, interval }
}

/// One server's mutable record: the stored challenge token (empty until
/// first received), the time of the last successfully parsed info reply
/// (absent initially), and the fixed tick interval.  Times are plain
/// milliseconds supplied by the caller.
pub struct SessionState {
    pub challenge: Vec<u8>,
    pub last_update: Option<u64>,
    pub interval: u64,
}

impl View for SessionState {
    type V = SessionModel;

    open spec fn view(&self) -> SessionModel {
        SessionModel {
            challenge: self.challenge@,
            last_update: self.last_update,
            interval: self.interval,
        }
    }
}

/// The liveness rule: a session is up exactly when its last successful
/// info parse exists and is strictly younger than one tick interval.
/// An elapsed time equal to the interval counts as stale.
pub open spec fn up_spec(last_update: Option<u64>, now: u64, interval: u64) -> bool {
    match last_update {
        Some(t) => t <= now && now - t < interval,
        None => false,
    }
}

/// What handling one inbound datagram asks of the caller.
pub enum DatagramOutcome {
    /// A parsed info reply: the observations owed to the metrics sink.
    Observe { players: u8, bots: u8, name: String, game: String, version: String },
    /// A fresh challenge token was stored: send this query at once.
    QueryAgain { query: Vec<u8> },
    /// Nothing usable this round; the datagram is dropped.
    Dropped,
}

impl SessionState {
    /// A fresh session for a newly configured address.
    pub fn new(interval: u64) -> (r: SessionState)
        ensures
            r@ == fresh_model(interval),
    {
        SessionState { challenge: Vec::new(), last_update: None, interval }
    }

    /// The periodic tick: the query to send this round (carrying the
    /// stored token, or unauthenticated when none is stored) and the
    /// liveness value owed to the metrics sink before any reply arrives.
    pub fn on_tick(&self, now: u64) -> (r: (Vec<u8>, bool))
        ensures
            r.0@ == query_bytes(self@.challenge),
            r.1 == up_spec(self@.last_update, now, self@.interval),
    {
        let query = encode_query(&self.challenge);
        let up = match self.last_update {
            Some(t) => t <= now && now - t < self.interval,
            None => false,
        };
        (query, up)
    }

    /// An inbound challenge token: replace the stored token and return
    /// the re-issued query, to send without waiting for the next tick.
    pub fn on_challenge(&mut self, token: Vec<u8>) -> (q: Vec<u8>)
        ensures
            final(self)@.challenge == token@,
            final(self)@.last_update == old(self)@.last_update,
            final(self)@.interval == old(self)@.interval,
            q@ == query_bytes(token@),
    {
        self.challenge = token;
        encode_query(&self.challenge)
    }

    /// An inbound datagram: decode it and transition.  An info reply
    /// refreshes the last-success time and yields observations; a
    /// challenge reply stores the token and yields an immediate query;
    /// everything else leaves the session unchanged.
    pub fn on_datagram(&mut self, data: &Vec<u8>, now: u64) -> (out: DatagramOutcome)
        ensures
            final(self)@.interval == old(self)@.interval,
            match decode_spec(data@) {
                ReplyModel::Info(info) => {
                    &&& out matches DatagramOutcome::Observe { players, bots, name, game, version }
                        && players == info.players && bots == info.bots && name@ == info.name
                        && game@ == info.game && version@ == info.version
                    &&& final(self)@.last_update == Some(now)
                    &&& final(self)@.challenge == old(self)@.challenge
                },
                ReplyModel::Challenge(token) => {
                    &&& out matches DatagramOutcome::QueryAgain { query } && query@ == query_bytes(
                        token,
                    )
                    &&& final(self)@.challenge == token
                    &&& final(self)@.last_update == old(self)@.last_update
                },
                _ => {
                    &&& out matches DatagramOutcome::Dropped
                    &&& final(self)@ == old(self)@
                },
            },
    {
        let frame = decode(data);
        match frame {
            ReplyFrame::Info(info) => {
                self.last_update = Some(now);
                DatagramOutcome::Observe {
                    players: info.players,
                    bots: info.bots,
                    name: info.name,
                    game: info.game,
                    version: info.version,
                }
            },
            ReplyFrame::Challenge(token) => {
                let query = self.on_challenge(token);
                DatagramOutcome::QueryAgain { query }
            },
            _ => DatagramOutcome::Dropped,
        }
    }
}

/// A session that never parsed an info reply reports down.
pub proof fn lemma_never_parsed_is_down(now: u64, interval: u64)
    ensures
        !up_spec(None::<u64>, now, interval),
{
}

/// A session whose last successful parse is one interval old or older
/// reports down; elapsed time exactly equal to the interval is stale.
pub proof fn lemma_stale_is_down(t: u64, now: u64, interval: u64)
    requires
        t <= now,
        now - t >= interval,
    ensures
        !up_spec(Some(t), now, interval),
{
}

/// A session whose last successful parse is strictly younger than one
/// interval reports up.
pub proof fn lemma_fresh_is_up(t: u64, now: u64, interval: u64)
    requires
        t <= now,
        now - t < interval,
    ensures
        up_spec(Some(t), now, interval),
{
}

} // verus!
