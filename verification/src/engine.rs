//! The collaboration engine: connection registry, session store,
//! membership, operation relay, chat relay and liveness sweep, as one
//! state machine. The surrounding process decodes frames, verifies
//! credentials and performs the socket I/O; every decision is made
//! here and every outgoing frame is returned as an addressed
//! delivery.

use vstd::prelude::*;
use crate::auth::AuthContext;
use crate::crypto::bcrypt_matches;
use crate::crypto::hash_bcrypt;
use crate::errors::AppError;
use crate::collaboration::view_opt_str;
use crate::crypto::verify_bcrypt;
use crate::text::spec_decimal;
use crate::text::decimal_string;
use crate::collaboration::CollaborationSession;
use crate::collaboration::CreateCollaborationSession;
use crate::collaboration::SessionType;
use crate::collaboration::ParticipantRole;
use crate::collaboration::MessageType;
use crate::collaboration::OperationType;
use crate::collaboration::SessionMessage;
use crate::collaboration::SessionOperation;
use crate::collaboration::SessionParticipant;
use crate::collaboration::SessionParticipantView;
use crate::protocol::Delivery;
use crate::protocol::DeliveryView;
use crate::protocol::FrameView;
use crate::protocol::WsMessage;
use crate::protocol::deliveries_view;
use crate::protocol::opt_str_view;

verus! {

/// Per-connection ephemeral state.
#[derive(Debug)]
pub struct ConnectionState {
    pub user: Option<AuthContext>,
    pub session_id: Option<u64>,
    pub participant_id: Option<u64>,
    pub last_heartbeat: i64,
    pub authenticated: bool,
}

impl ConnectionState {
    /// The zero-valued state of a connection registered at `now`.
    pub fn new(now: i64) -> (r: Self)
        ensures
            r == (ConnectionState {
                user: None,
                session_id: None,
                participant_id: None,
                last_heartbeat: now,
                authenticated: false,
            }),
    {
        ConnectionState {
            user: None,
            session_id: None,
            participant_id: None,
            last_heartbeat: now,
            authenticated: false,
        }
    }
}

/// A registered connection and its state.
#[derive(Debug)]
pub struct ConnectionEntry {
    pub connection_id: u64,
    pub state: ConnectionState,
}

/// The collaboration server state: the session store (sessions,
/// participants, operations, messages), the connection registry, and
/// the identifier counters.
#[derive(Debug)]
pub struct WsServerState {
    pub sessions: Vec<CollaborationSession>,
    pub participants: Vec<SessionParticipant>,
    pub operations: Vec<SessionOperation>,
    pub messages: Vec<SessionMessage>,
    pub connections: Vec<ConnectionEntry>,
    pub next_session_id: u64,
    pub next_participant_id: u64,
    pub next_operation_id: u64,
    pub next_message_id: u64,
}

/// The number of online participant rows of session `sid`.
pub open spec fn spec_online_count(ps: Seq<SessionParticipant>, sid: u64) -> nat
    decreases ps.len(),
{
    if ps.len() == 0 {
        0
    } else {
        spec_online_count(ps.drop_last(), sid) + if ps.last().is_online && ps.last().session_id
            == sid {
            1nat
        } else {
            0nat
        }
    }
}

/// The roster of session `sid`: the values of its online participant
/// rows, in store order.
pub open spec fn spec_roster(ps: Seq<SessionParticipant>, sid: u64) -> Seq<SessionParticipantView>
    decreases ps.len(),
{
    if ps.len() == 0 {
        Seq::empty()
    } else {
        let rest = spec_roster(ps.drop_last(), sid);
        if ps.last().is_online && ps.last().session_id == sid {
            rest.push(ps.last()@)
        } else {
            rest
        }
    }
}

/// The greatest persisted timestamp among the operations of session
/// `sid`, if any.
pub open spec fn spec_latest_ts(ops: Seq<SessionOperation>, sid: u64) -> Option<i64>
    decreases ops.len(),
{
    if ops.len() == 0 {
        None
    } else {
        let rest = spec_latest_ts(ops.drop_last(), sid);
        if ops.last().session_id == sid {
            match rest {
                None => Some(ops.last().timestamp),
                Some(m) => Some(
                    if ops.last().timestamp > m {
                        ops.last().timestamp
                    } else {
                        m
                    },
                ),
            }
        } else {
            rest
        }
    }
}

/// The server timestamp assigned to the next operation of session
/// `sid` accepted at instant `now`: strictly above everything already
/// persisted for the session, and never behind the clock.
pub open spec fn spec_next_ts(ops: Seq<SessionOperation>, sid: u64, now: i64) -> int {
    match spec_latest_ts(ops, sid) {
        None => now as int,
        Some(m) => if m >= now {
            m + 1
        } else {
            now as int
        },
    }
}

/// The latest persisted timestamp bounds every operation of the
/// session, and is attained by one of them.
proof fn lemma_latest_ts_bounds(ops: Seq<SessionOperation>, sid: u64)
    ensures
        match spec_latest_ts(ops, sid) {
            Some(m) => (forall|k: int|
                0 <= k < ops.len() && (#[trigger] ops[k]).session_id == sid ==> ops[k].timestamp
                    <= m) && exists|k: int|
                0 <= k < ops.len() && (#[trigger] ops[k]).session_id == sid && ops[k].timestamp
                    == m,
            None => forall|k: int| 0 <= k < ops.len() ==> (#[trigger] ops[k]).session_id != sid,
        },
    decreases ops.len(),
{
    if ops.len() > 0 {
        lemma_latest_ts_bounds(ops.drop_last(), sid);
        assert(forall|k: int|
            0 <= k < ops.len() - 1 ==> (#[trigger] ops[k]) == ops.drop_last()[k]);
        match spec_latest_ts(ops, sid) {
            Some(m) => {
                if ops.last().session_id == sid && ops.last().timestamp == m {
                    assert((#[trigger] ops[ops.len() - 1]).session_id == sid
                        && ops[ops.len() - 1].timestamp == m);
                } else {
                    let k0 = choose|k: int|
                        0 <= k < ops.drop_last().len() && (
                        #[trigger] ops.drop_last()[k]).session_id == sid
                            && ops.drop_last()[k].timestamp == m;
                    assert((#[trigger] ops[k0]).session_id == sid && ops[k0].timestamp == m);
                }
            },
            None => {},
        }
    }
}

/// The participant row `p` soft-closed at instant `now`.
pub open spec fn spec_offline(p: SessionParticipant, now: i64) -> SessionParticipant {
    SessionParticipant { is_online: false, left_at: Some(now), ..p }
}

/// One delivery of `frame` to every connection subscribed to session
/// `sid`, in registry order, leaving out the connection `except`.
pub open spec fn spec_fanout(
    conns: Seq<ConnectionEntry>,
    sid: u64,
    except: Option<u64>,
    frame: FrameView,
) -> Seq<DeliveryView>
    decreases conns.len(),
{
    if conns.len() == 0 {
        Seq::empty()
    } else {
        let rest = spec_fanout(conns.drop_last(), sid, except, frame);
        let e = conns.last();
        if e.state.session_id == Some(sid) && except != Some(e.connection_id) {
            rest.push(DeliveryView { to: e.connection_id, frame })
        } else {
            rest
        }
    }
}

impl WsServerState {
    /// All registered connections carry distinct connection IDs.
    pub open spec fn conn_ids_distinct(self) -> bool {
        forall|i: int, j: int|
            0 <= i < j < self.connections@.len() ==> (#[trigger] self.connections@[i]).connection_id
                != (#[trigger] self.connections@[j]).connection_id
    }

    /// Session IDs are strictly increasing and below the counter.
    pub open spec fn sessions_ok(self) -> bool {
        &&& forall|i: int|
            0 <= i < self.sessions@.len() ==> (#[trigger] self.sessions@[i]).id
                < self.next_session_id
        &&& forall|i: int, j: int|
            0 <= i < j < self.sessions@.len() ==> (#[trigger] self.sessions@[i]).id < (
            #[trigger] self.sessions@[j]).id
    }

    /// Participant IDs are strictly increasing and below the counter.
    pub open spec fn participants_ok(self) -> bool {
        &&& forall|i: int|
            0 <= i < self.participants@.len() ==> (#[trigger] self.participants@[i]).id
                < self.next_participant_id
        &&& forall|i: int, j: int|
            0 <= i < j < self.participants@.len() ==> (#[trigger] self.participants@[i]).id < (
            #[trigger] self.participants@[j]).id
    }

    /// Operation IDs are strictly increasing and below the counter,
    /// and within one session the persisted timestamps are strictly
    /// increasing in log order and below `i64::MAX`.
    pub open spec fn operations_ok(self) -> bool {
        &&& forall|i: int|
            0 <= i < self.operations@.len() ==> (#[trigger] self.operations@[i]).id
                < self.next_operation_id
        &&& forall|i: int, j: int|
            0 <= i < j < self.operations@.len() ==> (#[trigger] self.operations@[i]).id < (
            #[trigger] self.operations@[j]).id
        &&& forall|i: int, j: int|
            0 <= i < j < self.operations@.len() && (#[trigger] self.operations@[i]).session_id == (
            #[trigger] self.operations@[j]).session_id ==> self.operations@[i].timestamp
                < self.operations@[j].timestamp
        &&& forall|i: int|
            0 <= i < self.operations@.len() ==> (#[trigger] self.operations@[i]).timestamp
                < i64::MAX
    }

    /// Message IDs are strictly increasing and below the counter.
    pub open spec fn messages_ok(self) -> bool {
        &&& forall|i: int|
            0 <= i < self.messages@.len() ==> (#[trigger] self.messages@[i]).id
                < self.next_message_id
        &&& forall|i: int, j: int|
            0 <= i < j < self.messages@.len() ==> (#[trigger] self.messages@[i]).id < (
            #[trigger] self.messages@[j]).id
    }

    /// At most one participant row per (session, user) is online.
    pub open spec fn one_online_per_pair(self) -> bool {
        forall|i: int, j: int|
            0 <= i < j < self.participants@.len() && (#[trigger] self.participants@[i]).is_online
                && (#[trigger] self.participants@[j]).is_online ==> !(
            self.participants@[i].session_id == self.participants@[j].session_id
                && self.participants@[i].user_id == self.participants@[j].user_id)
    }

    /// The registry entry at index `i` is internally consistent: an
    /// authenticated connection carries an identity, a joined
    /// connection references an online participant row of its session
    /// belonging to its own user.
    pub open spec fn conn_entry_ok(self, i: int) -> bool {
        let st = self.connections@[i].state;
        &&& (st.authenticated <==> st.user is Some)
        &&& (st.session_id is Some <==> st.participant_id is Some)
        &&& (st.participant_id matches Some(pid) ==> st.user matches Some(u) && exists|k: int|
            0 <= k < self.participants@.len() && (#[trigger] self.participants@[k]).id == pid
                && self.participants@[k].is_online && Some(self.participants@[k].session_id)
                == st.session_id && self.participants@[k].user_id == u.user_id)
    }

    /// Every registry entry is internally consistent.
    pub open spec fn conns_ok(self) -> bool {
        forall|i: int| 0 <= i < self.connections@.len() ==> #[trigger] self.conn_entry_ok(i)
    }

    /// No two connections reference the same participant row.
    pub open spec fn conn_pids_distinct(self) -> bool {
        forall|i: int, j: int|
            0 <= i < j < self.connections@.len() && (
            #[trigger] self.connections@[i]).state.participant_id is Some && (
            #[trigger] self.connections@[j]).state.participant_id is Some
                ==> self.connections@[i].state.participant_id
                != self.connections@[j].state.participant_id
    }

    /// Every online participant row is referenced by a live
    /// connection.
    pub open spec fn online_rows_connected(self) -> bool {
        forall|k: int|
            0 <= k < self.participants@.len() && (#[trigger] self.participants@[k]).is_online
                ==> exists|i: int|
                0 <= i < self.connections@.len() && (
                #[trigger] self.connections@[i]).state.participant_id == Some(
                    self.participants@[k].id,
                )
    }

    /// The engine invariant.
    pub open spec fn wf(self) -> bool {
        &&& self.conn_ids_distinct()
        &&& self.sessions_ok()
        &&& self.participants_ok()
        &&& self.operations_ok()
        &&& self.messages_ok()
        &&& self.one_online_per_pair()
        &&& self.conns_ok()
        &&& self.conn_pids_distinct()
        &&& self.online_rows_connected()
    }

    /// Whether connection `cid` is registered.
    pub open spec fn has_conn(self, cid: u64) -> bool {
        exists|i: int|
            0 <= i < self.connections@.len() && (#[trigger] self.connections@[i]).connection_id
                == cid
    }

    /// The registry index of connection `cid`.
    pub open spec fn conn_idx(self, cid: u64) -> int {
        choose|i: int|
            0 <= i < self.connections@.len() && (#[trigger] self.connections@[i]).connection_id
                == cid
    }

    /// The state of connection `cid`.
    pub open spec fn conn_state(self, cid: u64) -> ConnectionState {
        self.connections@[self.conn_idx(cid)].state
    }

    /// Whether session `sid` exists in the store.
    pub open spec fn has_session(self, sid: u64) -> bool {
        exists|i: int|
            0 <= i < self.sessions@.len() && (#[trigger] self.sessions@[i]).id == sid
    }

    /// The store index of session `sid`.
    pub open spec fn session_idx(self, sid: u64) -> int {
        choose|i: int|
            0 <= i < self.sessions@.len() && (#[trigger] self.sessions@[i]).id == sid
    }

    /// The session record with ID `sid`.
    pub open spec fn session_at(self, sid: u64) -> CollaborationSession {
        self.sessions@[self.session_idx(sid)]
    }

    /// Whether user `uid` has an online participant row in session
    /// `sid`.
    pub open spec fn has_online(self, sid: u64, uid: u64) -> bool {
        exists|k: int|
            0 <= k < self.participants@.len() && (#[trigger] self.participants@[k]).is_online
                && self.participants@[k].session_id == sid && self.participants@[k].user_id == uid
    }

    /// A fresh server state with no sessions and no connections.
    pub fn new() -> (r: Self)
        ensures
            r.wf(),
            r.sessions@.len() == 0,
            r.participants@.len() == 0,
            r.operations@.len() == 0,
            r.messages@.len() == 0,
            r.connections@.len() == 0,
            r.next_session_id == 1,
            r.next_participant_id == 1,
            r.next_operation_id == 1,
            r.next_message_id == 1,
    {
        WsServerState {
            sessions: Vec::new(),
            participants: Vec::new(),
            operations: Vec::new(),
            messages: Vec::new(),
            connections: Vec::new(),
            next_session_id: 1,
            next_participant_id: 1,
            next_operation_id: 1,
            next_message_id: 1,
        }
    }

    /// Whether connection `cid` is currently registered.
    pub fn has_connection(&self, cid: u64) -> (r: bool)
        ensures
            r == self.has_conn(cid),
    {
        match self.find_connection(cid) {
            Some(_) => true,
            None => false,
        }
    }

    /// Finds the registry index of connection `cid`.
    fn find_connection(&self, cid: u64) -> (r: Option<usize>)
        ensures
            match r {
                Some(i) => i < self.connections@.len() && self.connections@[i as int].connection_id
                    == cid,
                None => !self.has_conn(cid),
            },
    {
        let n = self.connections.len();
        let mut i: usize = 0;
        while i < n
            invariant
                0 <= i <= n,
                n == self.connections@.len(),
                forall|k: int|
                    0 <= k < i ==> (#[trigger] self.connections@[k]).connection_id != cid,
            decreases n - i,
        {
            if self.connections[i].connection_id == cid {
                return Some(i);
            }
            i = i + 1;
        }
        None
    }

    /// Finds the store index of session `sid`.
    fn find_session(&self, sid: u64) -> (r: Option<usize>)
        ensures
            match r {
                Some(i) => i < self.sessions@.len() && self.sessions@[i as int].id == sid,
                None => !self.has_session(sid),
            },
    {
        let n = self.sessions.len();
        let mut i: usize = 0;
        while i < n
            invariant
                0 <= i <= n,
                n == self.sessions@.len(),
                forall|k: int| 0 <= k < i ==> (#[trigger] self.sessions@[k]).id != sid,
            decreases n - i,
        {
            if self.sessions[i].id == sid {
                return Some(i);
            }
            i = i + 1;
        }
        None
    }

    /// Whether a participant row with ID `pid` exists.
    pub open spec fn has_participant(self, pid: u64) -> bool {
        exists|k: int|
            0 <= k < self.participants@.len() && (#[trigger] self.participants@[k]).id == pid
    }

    /// The store index of the participant row with ID `pid`.
    pub open spec fn participant_idx(self, pid: u64) -> int {
        choose|k: int|
            0 <= k < self.participants@.len() && (#[trigger] self.participants@[k]).id == pid
    }

    /// Finds the store index of the participant row with ID `pid`.
    fn find_participant(&self, pid: u64) -> (r: Option<usize>)
        ensures
            match r {
                Some(k) => k < self.participants@.len() && self.participants@[k as int].id == pid,
                None => !self.has_participant(pid),
            },
    {
        let n = self.participants.len();
        let mut k: usize = 0;
        while k < n
            invariant
                0 <= k <= n,
                n == self.participants@.len(),
                forall|m: int| 0 <= m < k ==> (#[trigger] self.participants@[m]).id != pid,
            decreases n - k,
        {
            if self.participants[k].id == pid {
                return Some(k);
            }
            k = k + 1;
        }
        None
    }

    /// After clearing connection `ci`'s references and soft-closing
    /// its row `k`, the invariant holds and the (session, user) pair
    /// has no online row left.
    #[verifier::spinoff_prover]
    proof fn lemma_detach_wf(
        self,
        prev: WsServerState,
        ci: int,
        k: int,
        sid: u64,
        pid: u64,
        uid: u64,
        now: i64,
    )
        requires
            prev.wf(),
            0 <= ci < prev.connections@.len(),
            0 <= k < prev.participants@.len(),
            prev.connections@[ci].state.session_id == Some(sid),
            prev.connections@[ci].state.participant_id == Some(pid),
            prev.connections@[ci].state.user matches Some(u) && u.user_id == uid,
            prev.participants@[k].id == pid,
            self.sessions == prev.sessions,
            self.operations == prev.operations,
            self.messages == prev.messages,
            self.next_session_id == prev.next_session_id,
            self.next_participant_id == prev.next_participant_id,
            self.next_operation_id == prev.next_operation_id,
            self.next_message_id == prev.next_message_id,
            self.connections@.len() == prev.connections@.len(),
            forall|i: int|
                0 <= i < self.connections@.len() && i != ci ==> self.connections@[i]
                    == prev.connections@[i],
            self.connections@[ci].connection_id == prev.connections@[ci].connection_id,
            self.connections@[ci].state == (ConnectionState {
                session_id: None,
                participant_id: None,
                ..prev.connections@[ci].state
            }),
            self.participants@ == prev.participants@.update(
                k,
                spec_offline(prev.participants@[k], now),
            ),
        ensures
            self.wf(),
            !self.has_online(sid, uid),
    {
        assert(prev.conn_entry_ok(ci));
        let kw = choose|kw: int|
            0 <= kw < prev.participants@.len() && (#[trigger] prev.participants@[kw]).id == pid
                && prev.participants@[kw].is_online && Some(prev.participants@[kw].session_id)
                == prev.connections@[ci].state.session_id && prev.participants@[kw].user_id == uid;
        assert(kw == k);
        assert(prev.participants@[k].is_online && prev.participants@[k].session_id == sid
            && prev.participants@[k].user_id == uid);
        assert forall|i: int| 0 <= i < self.connections@.len() implies #[trigger] self.conn_entry_ok(
            i,
        ) by {
            assert(prev.conn_entry_ok(i));
            if i != ci {
                assert(self.connections@[i] == prev.connections@[i]);
                if self.connections@[i].state.participant_id is Some {
                    let pid2 = self.connections@[i].state.participant_id->0;
                    assert(pid2 != pid);
                    let k2 = choose|k2: int|
                        0 <= k2 < prev.participants@.len() && (
                        #[trigger] prev.participants@[k2]).id == pid2
                            && prev.participants@[k2].is_online && Some(
                            prev.participants@[k2].session_id,
                        ) == prev.connections@[i].state.session_id;
                    assert(k2 != k);
                    assert(self.participants@[k2] == prev.participants@[k2]);
                }
            }
        }
        assert forall|m: int|
            0 <= m < self.participants@.len() && (
            #[trigger] self.participants@[m]).is_online implies exists|i: int|
            0 <= i < self.connections@.len() && (
            #[trigger] self.connections@[i]).state.participant_id == Some(
                self.participants@[m].id,
            ) by {
            assert(m != k);
            assert(self.participants@[m] == prev.participants@[m]);
            let i = choose|i: int|
                0 <= i < prev.connections@.len() && (
                #[trigger] prev.connections@[i]).state.participant_id == Some(
                    prev.participants@[m].id,
                );
            assert(prev.participants@[m].id != pid);
            assert(i != ci);
            assert(self.connections@[i].state.participant_id == Some(self.participants@[m].id));
        }
        assert(self.wf());
        if self.has_online(sid, uid) {
            let m = choose|m: int|
                0 <= m < self.participants@.len() && (#[trigger] self.participants@[m]).is_online
                    && self.participants@[m].session_id == sid && self.participants@[m].user_id
                    == uid;
            assert(m != k);
            assert(prev.participants@[m].is_online);
            assert(false);
        }
    }

    /// Clears connection `ci`'s session references and soft-closes
    /// the participant row it held, reporting the session and user it
    /// was joined to, if any. No broadcast is built here.
    #[verifier::spinoff_prover]
    fn detach(&mut self, ci: usize, now: i64) -> (r: Option<(u64, u64)>)
        requires
            old(self).wf(),
            ci < old(self).connections@.len(),
        ensures
            final(self).wf(),
            final(self).sessions == old(self).sessions,
            final(self).operations == old(self).operations,
            final(self).messages == old(self).messages,
            final(self).next_session_id == old(self).next_session_id,
            final(self).next_participant_id == old(self).next_participant_id,
            final(self).next_operation_id == old(self).next_operation_id,
            final(self).next_message_id == old(self).next_message_id,
            final(self).connections@.len() == old(self).connections@.len(),
            forall|i: int|
                0 <= i < final(self).connections@.len() && i != ci ==> final(self).connections@[i] == old(self).connections@[i],
            final(self).connections@[ci as int].connection_id == old(self).connections@[ci as int].connection_id,
            final(self).connections@[ci as int].state == (ConnectionState {
                session_id: None,
                participant_id: None,
                ..old(self).connections@[ci as int].state
            }),
            match r {
                Some(su) => {
                    &&& old(self).connections@[ci as int].state.session_id == Some(su.0)
                    &&& old(self).connections@[ci as int].state.user matches Some(u) && u.user_id
                        == su.1
                    &&& old(self).connections@[ci as int].state.participant_id matches Some(pid)
                        && old(self).has_participant(pid) && final(self).participants@ == old(self).participants@.update(
                        old(self).participant_idx(pid),
                        spec_offline(
                            old(self).participants@[old(self).participant_idx(pid)],
                            now,
                        ),
                    )
                    &&& !final(self).has_online(su.0, su.1)
                },
                None => {
                    &&& old(self).connections@[ci as int].state.session_id is None
                    &&& final(self).participants == old(self).participants
                },
            },
    {
        let sid_opt = self.connections[ci].state.session_id;
        let pid_opt = self.connections[ci].state.participant_id;
        self.connections[ci].state.session_id = None;
        self.connections[ci].state.participant_id = None;
        match (sid_opt, pid_opt) {
            (Some(sid), Some(pid)) => {
                proof {
                    assert(old(self).conn_entry_ok(ci as int));
                }
                let uid = match &self.connections[ci].state.user {
                    Some(u) => u.user_id,
                    None => {
                        proof {
                            assert(false);
                        }
                        0
                    },
                };
                let found = self.find_participant(pid);
                let k = match found {
                    Some(k) => k,
                    None => {
                        proof {
                            assert(old(self).has_participant(pid));
                            assert(self.participants == old(self).participants);
                            assert(false);
                        }
                        0
                    },
                };
                self.participants[k].is_online = false;
                self.participants[k].left_at = Some(now);
                proof {
                    assert(self.participants@ =~= old(self).participants@.update(
                        k as int,
                        spec_offline(old(self).participants@[k as int], now),
                    ));
                    self.lemma_detach_wf(*old(self), ci as int, k as int, sid, pid, uid, now);
                    assert(old(self).has_participant(pid));
                    let k2 = old(self).participant_idx(pid);
                    assert(0 <= k2 < old(self).participants@.len() && old(self).participants@[k2].id
                        == pid);
                    assert(k2 == k as int);
                }
                Some((sid, uid))
            },
            (_, _) => {
                proof {
                    assert(old(self).conn_entry_ok(ci as int));
                    assert forall|i: int|
                        0 <= i < self.connections@.len() implies #[trigger] self.conn_entry_ok(
                        i,
                    ) by {
                        assert(old(self).conn_entry_ok(i));
                        if i != ci {
                            assert(self.connections@[i] == old(self).connections@[i]);
                        }
                    }
                    assert forall|k: int|
                        0 <= k < self.participants@.len() && (
                        #[trigger] self.participants@[k]).is_online implies exists|i: int|
                        0 <= i < self.connections@.len() && (
                        #[trigger] self.connections@[i]).state.participant_id == Some(
                            self.participants@[k].id,
                        ) by {
                        let i = choose|i: int|
                            0 <= i < old(self).connections@.len() && (
                            #[trigger] old(self).connections@[i]).state.participant_id == Some(old(self).participants@[k].id);
                        assert(i != ci);
                        assert(self.connections@[i].state.participant_id == Some(
                            self.participants@[k].id,
                        ));
                    }
                }
                None
            },
        }
    }

    pub open spec fn spec_leave_post(
        pre: WsServerState,
        post: WsServerState,
        connection_id: u64,
        now: i64,
        r: Seq<Delivery>,
    ) -> bool {
        &&& (pre.has_conn(connection_id) ==> post.has_conn(connection_id))
        &&& (post.sessions == pre.sessions)
        &&& (post.operations == pre.operations)
        &&& (post.messages == pre.messages)
        &&& (post.next_session_id == pre.next_session_id)
        &&& (post.next_participant_id == pre.next_participant_id)
        &&& (post.next_operation_id == pre.next_operation_id)
        &&& (post.next_message_id == pre.next_message_id)
        &&& (if !pre.has_conn(connection_id) || pre.conn_state(
                connection_id,
            ).session_id is None {
                &&& post.connections@ == pre.connections@
                &&& post.participants@ == pre.participants@
                &&& r.len() == 0
            } else {
                let ci = pre.conn_idx(connection_id);
                let st = pre.connections@[ci].state;
                &&& st.session_id matches Some(sid) && st.participant_id matches Some(pid)
                    && st.user matches Some(u) && {
                    let k = pre.participant_idx(pid);
                    &&& pre.has_participant(pid)
                    &&& post.participants@ == pre.participants@.update(
                        k,
                        spec_offline(pre.participants@[k], now),
                    )
                    &&& post.connections@ == pre.connections@.update(
                        ci,
                        (ConnectionEntry {
                            connection_id,
                            state: (ConnectionState {
                                session_id: None,
                                participant_id: None,
                                ..st
                            }),
                        }),
                    )
                    &&& !post.has_online(sid, u.user_id)
                    &&& deliveries_view(r) == spec_fanout(
                        post.connections@,
                        sid,
                        None,
                        (FrameView::ParticipantLeft { session_id: sid, user_id: u.user_id }),
                    )
                }
            })
    }

    pub open spec fn spec_operation_post(
        pre: WsServerState,
        post: WsServerState,
        connection_id: u64,
        session_id: u64,
        operation_type: OperationType,
        position: Option<i32>,
        content: Option<String>,
        length: Option<i32>,
        file_id: Option<u64>,
        now: i64,
        r: Seq<Delivery>,
    ) -> bool {
        &&& (post.sessions == pre.sessions)
        &&& (post.messages == pre.messages)
        &&& (post.connections@ == pre.connections@)
        &&& (post.next_session_id == pre.next_session_id)
        &&& (post.next_participant_id == pre.next_participant_id)
        &&& (post.next_message_id == pre.next_message_id)
        &&& (({
                let st = pre.conn_state(connection_id);
                if st.user is None {
                    &&& post.participants@ == pre.participants@
                    &&& post.operations@ == pre.operations@
                    &&& post.next_operation_id == pre.next_operation_id
                    &&& deliveries_view(r) == seq![
                        (DeliveryView {
                            to: connection_id,
                            frame: (FrameView::Error {
                                code: "UNAUTHORIZED"@,
                                message: "Not authenticated"@,
                            }),
                        }),
                    ]
                } else if st.session_id != Some(session_id) {
                    &&& post.participants@ == pre.participants@
                    &&& post.operations@ == pre.operations@
                    &&& post.next_operation_id == pre.next_operation_id
                    &&& deliveries_view(r) == seq![
                        (DeliveryView {
                            to: connection_id,
                            frame: (FrameView::Error {
                                code: "UNAUTHORIZED"@,
                                message: "You must be a session participant to create operations"@,
                            }),
                        }),
                    ]
                } else if operation_type == OperationType::Cursor || operation_type
                    == OperationType::Selection {
                    let k = pre.participant_idx(st.participant_id->0);
                    &&& post.operations@ == pre.operations@
                    &&& post.next_operation_id == pre.next_operation_id
                    &&& post.participants@ == pre.participants@.update(
                        k,
                        if operation_type == OperationType::Cursor {
                            (SessionParticipant {
                                cursor_position: position,
                                selection: content,
                                ..pre.participants@[k]
                            })
                        } else {
                            (SessionParticipant {
                                selection: content,
                                ..pre.participants@[k]
                            })
                        },
                    )
                    &&& deliveries_view(r) == spec_fanout(
                        post.connections@,
                        session_id,
                        None,
                        (FrameView::ServerOperation {
                            session_id,
                            user_id: st.user->0.user_id,
                            operation_type,
                            position,
                            content: opt_str_view(content),
                            length,
                            file_id,
                            timestamp: now,
                        }),
                    )
                } else if spec_latest_ts(pre.operations@, session_id) matches Some(m) && m
                    >= now && m == i64::MAX - 1 {
                    &&& post.participants@ == pre.participants@
                    &&& post.operations@ == pre.operations@
                    &&& post.next_operation_id == pre.next_operation_id
                    &&& deliveries_view(r) == seq![
                        (DeliveryView {
                            to: connection_id,
                            frame: (FrameView::Error {
                                code: "INTERNAL"@,
                                message: "Operation clock exhausted"@,
                            }),
                        }),
                    ]
                } else {
                    let ts = spec_next_ts(pre.operations@, session_id, now);
                    &&& post.participants@ == pre.participants@
                    &&& post.next_operation_id == pre.next_operation_id + 1
                    &&& post.operations@ == pre.operations@.push(
                        (SessionOperation {
                            id: pre.next_operation_id,
                            session_id,
                            user_id: st.user->0.user_id,
                            operation_type,
                            file_id,
                            position,
                            length,
                            content,
                            timestamp: ts as i64,
                            applied: true,
                            applied_at: Some(now),
                            rejected: false,
                            rejected_at: None,
                            rejection_reason: None,
                        }),
                    )
                    &&& ts >= now
                    &&& forall|k: int|
                        0 <= k < pre.operations@.len() && (
                        #[trigger] pre.operations@[k]).session_id == session_id ==> pre.operations@[k].timestamp < ts
                    &&& deliveries_view(r) == spec_fanout(
                        post.connections@,
                        session_id,
                        None,
                        (FrameView::ServerOperation {
                            session_id,
                            user_id: st.user->0.user_id,
                            operation_type,
                            position,
                            content: opt_str_view(content),
                            length,
                            file_id,
                            timestamp: ts as i64,
                        }),
                    )
                }
            }))
    }

    pub open spec fn spec_chat_post(
        pre: WsServerState,
        post: WsServerState,
        connection_id: u64,
        session_id: u64,
        content: String,
        message_type: MessageType,
        reply_to: Option<u64>,
        now: i64,
        r: Seq<Delivery>,
    ) -> bool {
        &&& (post.sessions == pre.sessions)
        &&& (post.operations == pre.operations)
        &&& (post.participants == pre.participants)
        &&& (post.connections@ == pre.connections@)
        &&& (post.next_session_id == pre.next_session_id)
        &&& (post.next_participant_id == pre.next_participant_id)
        &&& (post.next_operation_id == pre.next_operation_id)
        &&& (({
                let st = pre.conn_state(connection_id);
                if st.user is None {
                    &&& post.messages@ == pre.messages@
                    &&& post.next_message_id == pre.next_message_id
                    &&& deliveries_view(r) == seq![
                        (DeliveryView {
                            to: connection_id,
                            frame: (FrameView::Error {
                                code: "UNAUTHORIZED"@,
                                message: "Not authenticated"@,
                            }),
                        }),
                    ]
                } else if st.session_id != Some(session_id) {
                    &&& post.messages@ == pre.messages@
                    &&& post.next_message_id == pre.next_message_id
                    &&& deliveries_view(r) == seq![
                        (DeliveryView {
                            to: connection_id,
                            frame: (FrameView::Error {
                                code: "UNAUTHORIZED"@,
                                message: "You must be a session participant to send messages"@,
                            }),
                        }),
                    ]
                } else {
                    &&& post.next_message_id == pre.next_message_id + 1
                    &&& post.messages@ == pre.messages@.push(
                        (SessionMessage {
                            id: pre.next_message_id,
                            session_id,
                            user_id: st.user->0.user_id,
                            message_type,
                            content,
                            reply_to,
                            reactions: None,
                            edited: false,
                            edited_at: None,
                            deleted: false,
                            deleted_at: None,
                            created_at: now,
                        }),
                    )
                    &&& deliveries_view(r) == spec_fanout(
                        post.connections@,
                        session_id,
                        None,
                        (FrameView::ServerChatMessage {
                            session_id,
                            id: pre.next_message_id,
                            user_id: st.user->0.user_id,
                            content: content@,
                            message_type,
                            reply_to,
                            timestamp: now,
                        }),
                    )
                }
            }))
    }

    pub open spec fn spec_join_post(
        pre: WsServerState,
        post: WsServerState,
        connection_id: u64,
        session_id: u64,
        user_id: u64,
        role: ParticipantRole,
        password: Option<String>,
        now: i64,
        r: Seq<Delivery>,
    ) -> bool {
        &&& (post.has_conn(connection_id))
        &&& (post.sessions == pre.sessions)
        &&& (post.operations == pre.operations)
        &&& (post.messages == pre.messages)
        &&& (post.next_session_id == pre.next_session_id)
        &&& (post.next_operation_id == pre.next_operation_id)
        &&& (post.next_message_id == pre.next_message_id)
        &&& (({
                let s_ok = pre.has_session(session_id) && pre.session_at(
                    session_id,
                ).is_active;
                let pw_ok = match pre.session_at(session_id)@.password_hash {
                    Some(h) => password matches Some(p) && bcrypt_matches(p@, h),
                    None => true,
                };
                let full = spec_online_count(pre.participants@, session_id) >= pre.session_at(session_id).max_participants && !pre.has_online(
                    session_id,
                    user_id,
                );
                if !s_ok || !pw_ok {
                    &&& post.connections@ == pre.connections@
                    &&& post.participants@ == pre.participants@
                    &&& post.next_participant_id == pre.next_participant_id
                    &&& deliveries_view(r) == seq![
                        (DeliveryView {
                            to: connection_id,
                            frame: (FrameView::Error {
                                code: "NOT_FOUND"@,
                                message: "CollaborationSession not found: "@ + spec_decimal(
                                    session_id as nat,
                                ),
                            }),
                        }),
                    ]
                } else if full {
                    &&& post.connections@ == pre.connections@
                    &&& post.participants@ == pre.participants@
                    &&& post.next_participant_id == pre.next_participant_id
                    &&& deliveries_view(r) == seq![
                        (DeliveryView {
                            to: connection_id,
                            frame: (FrameView::Error {
                                code: "CONFLICT"@,
                                message: "Session is full"@,
                            }),
                        }),
                    ]
                } else {
                    let row = (SessionParticipant {
                        id: pre.next_participant_id,
                        session_id,
                        user_id,
                        role,
                        joined_at: now,
                        left_at: None,
                        cursor_position: None,
                        selection: None,
                        is_online: true,
                        last_seen_at: now,
                        permissions: None,
                    });
                    let ci = pre.conn_idx(connection_id);
                    let st = pre.conn_state(connection_id);
                    let osid = st.session_id;
                    &&& post.next_participant_id == pre.next_participant_id + 1
                    &&& post.participants@.len() == pre.participants@.len() + 1
                    &&& post.participants@.last() == row
                    &&& post.has_online(session_id, user_id)
                    &&& forall|k: int|
                        0 <= k < pre.participants@.len() ==> (#[trigger] post.participants@[k]) == pre.participants@[k] || (pre.participants@[k].is_online && post.participants@[k]
                            == spec_offline(pre.participants@[k], now) && (Some(pre.participants@[k].id) == st.participant_id || (pre.participants@[k].session_id
                            == session_id && pre.participants@[k].user_id == user_id)))
                    &&& post.connections@.len() == pre.connections@.len()
                    &&& post.connections@[ci].state == (ConnectionState {
                        user: st.user,
                        session_id: Some(session_id),
                        participant_id: Some(pre.next_participant_id),
                        last_heartbeat: now,
                        authenticated: true,
                    })
                    &&& forall|i: int|
                        0 <= i < pre.connections@.len() && i != ci ==> (#[trigger] post.connections@[i]) == pre.connections@[i] || (post.connections@[i] == (ConnectionEntry {
                            connection_id: pre.connections@[i].connection_id,
                            state: (ConnectionState {
                                session_id: None,
                                participant_id: None,
                                ..pre.connections@[i].state
                            }),
                        }) && pre.connections@[i].state.session_id == Some(session_id))
                    &&& deliveries_view(r) == (match osid {
                        Some(o) => if o != session_id {
                            spec_fanout(
                                post.connections@,
                                o,
                                None,
                                (FrameView::ParticipantLeft { session_id: o, user_id }),
                            )
                        } else {
                            Seq::empty()
                        },
                        None => Seq::empty(),
                    }) + spec_fanout(
                        post.connections@,
                        session_id,
                        Some(connection_id),
                        (FrameView::ParticipantUpdate { session_id, participant: row@ }),
                    ) + seq![
                        (DeliveryView {
                            to: connection_id,
                            frame: (FrameView::SessionJoined {
                                session_id,
                                participants: spec_roster(post.participants@, session_id),
                                session_info: pre.session_at(session_id)@,
                            }),
                        }),
                    ]
                }
            }))
    }

    /// Handles an explicit leave: idempotent. A connection that holds
    /// a session reference is unsubscribed, its participant row is
    /// soft-closed, and the remaining subscribers are told; a
    /// connection that never joined, or an unknown connection, causes
    /// no change and no broadcast.
    #[verifier::spinoff_prover]
    pub fn handle_session_leave(&mut self, connection_id: u64, now: i64) -> (r: Vec<Delivery>)
        requires
            old(self).wf(),
        ensures
            final(self).wf(),
            Self::spec_leave_post(*old(self), *final(self), connection_id, now, r@),
    {
        let found = self.find_connection(connection_id);
        let ci = match found {
            Some(ci) => ci,
            None => {
                return Vec::new();
            },
        };
        proof {
            assert(old(self).has_conn(connection_id));
            let c2 = old(self).conn_idx(connection_id);
            assert(0 <= c2 < old(self).connections@.len() && old(self).connections@[c2].connection_id == connection_id);
            assert(c2 == ci as int);
        }
        let detached = self.detach(ci, now);
        match detached {
            Some((sid, uid)) => {
                proof {
                    assert(self.connections@ =~= old(self).connections@.update(
                        ci as int,
                        (ConnectionEntry {
                            connection_id,
                            state: (ConnectionState {
                                session_id: None,
                                participant_id: None,
                                ..old(self).connections@[ci as int].state
                            }),
                        }),
                    ));
                }
                let frame = WsMessage::ParticipantLeft { session_id: sid, user_id: uid };
                let r = self.broadcast_to_session(sid, None, &frame);
                proof {
                    assert((#[trigger] self.connections@[ci as int]).connection_id
                        == connection_id);
                }
                r
            },
            None => {
                proof {
                    assert(old(self).conn_entry_ok(ci as int));
                    assert(self.connections@ =~= old(self).connections@);
                }
                Vec::new()
            },
        }
    }

    /// Unregisters a connection: removes it from the registry and, if
    /// it still held a session reference, performs the same cleanup
    /// and broadcast as an explicit leave. Unknown connections are
    /// ignored.
    #[verifier::spinoff_prover]
    pub fn unregister_connection(&mut self, connection_id: u64, now: i64) -> (r: Vec<Delivery>)
        requires
            old(self).wf(),
        ensures
            final(self).wf(),
            final(self).sessions == old(self).sessions,
            final(self).operations == old(self).operations,
            final(self).messages == old(self).messages,
            final(self).next_session_id == old(self).next_session_id,
            final(self).next_participant_id == old(self).next_participant_id,
            final(self).next_operation_id == old(self).next_operation_id,
            final(self).next_message_id == old(self).next_message_id,
            !final(self).has_conn(connection_id),
            if !old(self).has_conn(connection_id) {
                &&& final(self).connections@ == old(self).connections@
                &&& final(self).participants@ == old(self).participants@
                &&& r@.len() == 0
            } else {
                let ci = old(self).conn_idx(connection_id);
                let st = old(self).connections@[ci].state;
                &&& final(self).connections@ == old(self).connections@.remove(ci)
                &&& match st.participant_id {
                    Some(pid) => st.session_id matches Some(sid) && st.user matches Some(u) && {
                        let k = old(self).participant_idx(pid);
                        &&& old(self).has_participant(pid)
                        &&& final(self).participants@ == old(self).participants@.update(
                            k,
                            spec_offline(old(self).participants@[k], now),
                        )
                        &&& !final(self).has_online(sid, u.user_id)
                        &&& deliveries_view(r@) == spec_fanout(
                            final(self).connections@,
                            sid,
                            None,
                            (FrameView::ParticipantLeft { session_id: sid, user_id: u.user_id }),
                        )
                    },
                    None => final(self).participants@ == old(self).participants@ && r@.len() == 0,
                }
            },
    {
        let found = self.find_connection(connection_id);
        let ci = match found {
            Some(ci) => ci,
            None => {
                return Vec::new();
            },
        };
        proof {
            assert(old(self).has_conn(connection_id));
            let c2 = old(self).conn_idx(connection_id);
            assert(0 <= c2 < old(self).connections@.len() && old(self).connections@[c2].connection_id == connection_id);
            assert(c2 == ci as int);
        }
        let detached = self.detach(ci, now);
        let ghost mid = *self;
        self.connections.remove(ci);
        proof {
            assert(self.connections@ =~= old(self).connections@.remove(ci as int));
            self.lemma_remove_cleared_conn_wf(mid, ci as int);
            assert forall|i: int|
                0 <= i < self.connections@.len() implies (
            #[trigger] self.connections@[i]).connection_id != connection_id by {
                if i < ci {
                    assert(self.connections@[i] == old(self).connections@[i]);
                } else {
                    assert(self.connections@[i] == old(self).connections@[i + 1]);
                }
            }
        }
        match detached {
            Some((sid, uid)) => {
                let frame = WsMessage::ParticipantLeft { session_id: sid, user_id: uid };
                let r = self.broadcast_to_session(sid, None, &frame);
                r
            },
            None => {
                proof {
                    assert(old(self).conn_entry_ok(ci as int));
                }
                Vec::new()
            },
        }
    }

    /// Whether `x` stands among the first `t` entries of `stale`.
    pub open spec fn sweep_prefix(stale: Seq<u64>, t: int, x: u64) -> bool {
        exists|m: int| 0 <= m < t && stale[m] == x
    }

    /// Membership in one-longer prefixes of the stale list.
    proof fn lemma_sweep_prefix_succ(s: Seq<u64>, t: int, x: u64)
        requires
            0 <= t < s.len(),
        ensures
            Self::sweep_prefix(s, t + 1, x) <==> (Self::sweep_prefix(s, t, x) || s[t] == x),
    {
        if Self::sweep_prefix(s, t + 1, x) {
            let m = choose|m: int| 0 <= m < t + 1 && s[m] == x;
            if m < t {
                assert(0 <= m < t && s[m] == x);
            }
        }
        if Self::sweep_prefix(s, t, x) {
            let m = choose|m: int| 0 <= m < t && s[m] == x;
            assert(0 <= m < t + 1 && s[m] == x);
        }
        if s[t] == x {
            assert(0 <= t < t + 1 && s[t] == x);
        }
    }

    /// After removing one registry entry, every other connection is
    /// still registered with the same state.
    #[verifier::spinoff_prover]
    proof fn lemma_conns_after_remove(prev: WsServerState, cur: WsServerState, ci: int)
        requires
            prev.wf(),
            0 <= ci < prev.connections@.len(),
            cur.connections@ == prev.connections@.remove(ci),
        ensures
            forall|x: u64|
                #![trigger cur.has_conn(x)]
                x != prev.connections@[ci].connection_id ==> cur.has_conn(x) == prev.has_conn(x),
            forall|x: u64|
                #![trigger cur.conn_state(x)]
                x != prev.connections@[ci].connection_id && prev.has_conn(x) ==> cur.conn_state(x)
                    == prev.conn_state(x),
    {
        let removed = prev.connections@[ci].connection_id;
        assert forall|x: u64|
            #![trigger cur.has_conn(x)]
            #![trigger cur.conn_state(x)]
            x != prev.connections@[ci].connection_id implies (cur.has_conn(x) == prev.has_conn(x))
            && (prev.has_conn(x) ==> cur.conn_state(x) == prev.conn_state(x)) by {
            if prev.has_conn(x) {
                let i = prev.conn_idx(x);
                assert(0 <= i < prev.connections@.len() && prev.connections@[i].connection_id
                    == x);
                assert(i != ci);
                if i < ci {
                    assert(cur.connections@[i] == prev.connections@[i]);
                } else {
                    assert(cur.connections@[i - 1] == prev.connections@[i]);
                }
                assert(cur.has_conn(x));
            }
            if cur.has_conn(x) {
                let j = cur.conn_idx(x);
                assert(0 <= j < cur.connections@.len() && cur.connections@[j].connection_id == x);
                if j < ci {
                    assert(cur.connections@[j] == prev.connections@[j]);
                } else {
                    assert(cur.connections@[j] == prev.connections@[j + 1]);
                }
                assert(prev.has_conn(x));
                let i = prev.conn_idx(x);
                assert(0 <= i < prev.connections@.len() && prev.connections@[i].connection_id
                    == x);
                let j2 = if j < ci {
                    j
                } else {
                    j + 1
                };
                assert(prev.connections@[j2].connection_id == x);
                assert(i == j2);
                assert(cur.conn_state(x) == prev.conn_state(x));
            }
        }
    }

    /// Removing a registry entry that holds no session reference
    /// keeps the invariant.
    #[verifier::spinoff_prover]
    proof fn lemma_remove_cleared_conn_wf(self, mid: WsServerState, ci: int)
        requires
            mid.wf(),
            0 <= ci < mid.connections@.len(),
            mid.connections@[ci].state.participant_id is None,
            self.sessions == mid.sessions,
            self.participants == mid.participants,
            self.operations == mid.operations,
            self.messages == mid.messages,
            self.next_session_id == mid.next_session_id,
            self.next_participant_id == mid.next_participant_id,
            self.next_operation_id == mid.next_operation_id,
            self.next_message_id == mid.next_message_id,
            self.connections@ == mid.connections@.remove(ci),
        ensures
            self.wf(),
    {
        assert(self.connections@.len() == mid.connections@.len() - 1);
        assert forall|i: int| 0 <= i < self.connections@.len() implies #[trigger] self.connections@[i]
            == if i < ci {
            mid.connections@[i]
        } else {
            mid.connections@[i + 1]
        } by {}
        assert forall|i: int| 0 <= i < self.connections@.len() implies #[trigger] self.conn_entry_ok(
            i,
        ) by {
            if i < ci {
                assert(mid.conn_entry_ok(i));
                assert(self.connections@[i] == mid.connections@[i]);
            } else {
                assert(mid.conn_entry_ok(i + 1));
                assert(self.connections@[i] == mid.connections@[i + 1]);
            }
        }
        assert forall|k: int|
            0 <= k < self.participants@.len() && (
            #[trigger] self.participants@[k]).is_online implies exists|i: int|
            0 <= i < self.connections@.len() && (
            #[trigger] self.connections@[i]).state.participant_id == Some(
                self.participants@[k].id,
            ) by {
            let iw = choose|iw: int|
                0 <= iw < mid.connections@.len() && (
                #[trigger] mid.connections@[iw]).state.participant_id == Some(
                    mid.participants@[k].id,
                );
            assert(iw != ci);
            if iw < ci {
                assert(self.connections@[iw].state.participant_id == Some(
                    self.participants@[k].id,
                ));
            } else {
                assert(self.connections@[iw - 1].state.participant_id == Some(
                    self.participants@[k].id,
                ));
            }
        }
    }

    /// Every connection subscribed to the session and not excluded
    /// receives its delivery in the fan-out.
    #[verifier::spinoff_prover]
    proof fn lemma_fanout_covers(
        conns: Seq<ConnectionEntry>,
        sid: u64,
        except: Option<u64>,
        frame: FrameView,
        j: int,
    )
        requires
            0 <= j < conns.len(),
            conns[j].state.session_id == Some(sid),
            except != Some(conns[j].connection_id),
        ensures
            exists|m: int|
                0 <= m < spec_fanout(conns, sid, except, frame).len() && spec_fanout(
                    conns,
                    sid,
                    except,
                    frame,
                )[m] == (DeliveryView { to: conns[j].connection_id, frame }),
        decreases conns.len(),
    {
        let full = spec_fanout(conns, sid, except, frame);
        if j == conns.len() - 1 {
            assert(full.last() == (DeliveryView { to: conns[j].connection_id, frame }));
        } else {
            Self::lemma_fanout_covers(conns.drop_last(), sid, except, frame, j);
            let rest = spec_fanout(conns.drop_last(), sid, except, frame);
            let m = choose|m: int|
                0 <= m < rest.len() && rest[m] == (DeliveryView {
                    to: conns.drop_last()[j].connection_id,
                    frame,
                });
            assert(conns.drop_last()[j] == conns[j]);
            assert(full[m] == (DeliveryView { to: conns[j].connection_id, frame }));
        }
    }

    /// Every entry of `stale` names a connection of `init` whose
    /// heartbeat is `timeout` or more behind `now`.
    pub open spec fn stale_list_sound(
        init: WsServerState,
        stale: Seq<u64>,
        now: i64,
        timeout: i64,
    ) -> bool {
        forall|m: int|
            #![trigger stale[m]]
            0 <= m < stale.len() ==> exists|ii: int|
                0 <= ii < init.connections@.len() && (
                #[trigger] init.connections@[ii]).connection_id == stale[m]
                    && init.connections@[ii].state.last_heartbeat <= now - timeout
    }

    /// Every stale connection among the first `upto` entries of the
    /// registry is named in `stale`.
    pub open spec fn stale_list_complete(
        init: WsServerState,
        stale: Seq<u64>,
        upto: int,
        now: i64,
        timeout: i64,
    ) -> bool {
        forall|ii: int|
            0 <= ii < upto && (#[trigger] init.connections@[ii]).state.last_heartbeat <= now
                - timeout ==> stale.contains(init.connections@[ii].connection_id)
    }

    /// Appending the next stale connection ID keeps the stale list
    /// sound and complete.
    #[verifier::spinoff_prover]
    proof fn lemma_stale_collect_step(
        init: WsServerState,
        prev_stale: Seq<u64>,
        i: int,
        now: i64,
        timeout: i64,
    )
        requires
            0 <= i < init.connections@.len(),
            init.connections@[i].state.last_heartbeat <= now - timeout,
            Self::stale_list_sound(init, prev_stale, now, timeout),
            Self::stale_list_complete(init, prev_stale, i, now, timeout),
        ensures
            Self::stale_list_sound(
                init,
                prev_stale.push(init.connections@[i].connection_id),
                now,
                timeout,
            ),
            Self::stale_list_complete(
                init,
                prev_stale.push(init.connections@[i].connection_id),
                i + 1,
                now,
                timeout,
            ),
    {
        let pushed = prev_stale.push(init.connections@[i].connection_id);
        assert forall|m: int| #![trigger pushed[m]] 0 <= m < pushed.len() implies exists|ii: int|
            0 <= ii < init.connections@.len() && (
            #[trigger] init.connections@[ii]).connection_id == pushed[m]
                && init.connections@[ii].state.last_heartbeat <= now - timeout by {
            if m < prev_stale.len() {
                assert(pushed[m] == prev_stale[m]);
            } else {
                assert(pushed[m] == init.connections@[i].connection_id);
                assert((#[trigger] init.connections@[i]).connection_id == pushed[m]
                    && init.connections@[i].state.last_heartbeat <= now - timeout);
            }
        }
        assert forall|ii: int|
            0 <= ii < i + 1 && (#[trigger] init.connections@[ii]).state.last_heartbeat <= now
                - timeout implies pushed.contains(init.connections@[ii].connection_id) by {
            if ii < i {
                let m = choose|m: int|
                    0 <= m < prev_stale.len() && prev_stale[m]
                        == init.connections@[ii].connection_id;
                assert(pushed[m] == prev_stale[m]);
            } else {
                assert(pushed[pushed.len() - 1] == init.connections@[ii].connection_id);
            }
        }
    }

    /// The invariant of the liveness sweep after the first `t` stale
    /// connections have been torn down: the store is otherwise
    /// untouched, processed connections are gone, everything else
    /// keeps its pre-sweep state, and the departure of each processed
    /// member has been addressed to every live subscriber of its
    /// session.
    /// The store of `cur` matches `init` everywhere the sweep does
    /// not touch it.
    pub open spec fn sweep_store_inv(init: WsServerState, cur: WsServerState) -> bool {
        &&& cur.wf()
        &&& cur.sessions == init.sessions
        &&& cur.operations == init.operations
        &&& cur.messages == init.messages
        &&& cur.next_session_id == init.next_session_id
        &&& cur.next_participant_id == init.next_participant_id
        &&& cur.next_operation_id == init.next_operation_id
        &&& cur.next_message_id == init.next_message_id
        &&& cur.participants@.len() == init.participants@.len()
    }

    /// The registry of `cur` after the first `t` sweeps: processed
    /// stale connections are gone, every other connection keeps its
    /// initial state, and no entry was invented.
    pub open spec fn sweep_conns_inv(
        init: WsServerState,
        cur: WsServerState,
        stale: Seq<u64>,
        t: int,
    ) -> bool {
        &&& forall|m: int| 0 <= m < t ==> !cur.has_conn(#[trigger] stale[m])
        &&& forall|ii: int|
            0 <= ii < init.connections@.len() && !Self::sweep_prefix(
                stale,
                t,
                (#[trigger] init.connections@[ii]).connection_id,
            ) ==> cur.has_conn(init.connections@[ii].connection_id) && cur.conn_state(
                init.connections@[ii].connection_id,
            ) == init.connections@[ii].state
        &&& cur.connections@.to_multiset().subset_of(init.connections@.to_multiset())
    }

    /// The participant rows of `cur` after the first `t` sweeps: a
    /// row held by a processed member is soft-closed, every other
    /// held row is untouched, and no row changed in any other way.
    pub open spec fn sweep_rows_inv(
        init: WsServerState,
        cur: WsServerState,
        stale: Seq<u64>,
        t: int,
        now: i64,
    ) -> bool {
        &&& forall|k: int, ii: int|
            0 <= k < init.participants@.len() && 0 <= ii < init.connections@.len() && (
            #[trigger] init.connections@[ii]).state.participant_id == Some(
                (#[trigger] init.participants@[k]).id,
            ) && !Self::sweep_prefix(stale, t, init.connections@[ii].connection_id)
                ==> cur.participants@[k] == init.participants@[k]
        &&& forall|k: int, ii: int|
            0 <= k < init.participants@.len() && 0 <= ii < init.connections@.len() && (
            #[trigger] init.connections@[ii]).state.participant_id == Some(
                (#[trigger] init.participants@[k]).id,
            ) && Self::sweep_prefix(stale, t, init.connections@[ii].connection_id)
                ==> cur.participants@[k] == spec_offline(init.participants@[k], now)
        &&& forall|k: int|
            0 <= k < init.participants@.len() ==> (#[trigger] cur.participants@[k])
                == init.participants@[k] || cur.participants@[k] == spec_offline(
                init.participants@[k],
                now,
            )
    }

    /// Whether the batch holds a delivery of `frame` addressed to
    /// connection `to`.
    pub open spec fn delivered_to(r: Seq<Delivery>, to: u64, frame: FrameView) -> bool {
        exists|m: int| 0 <= m < r.len() && (#[trigger] r[m])@ == (DeliveryView { to, frame })
    }

    /// The deliveries built by the first `t` sweeps: every processed
    /// member's departure is addressed to every live subscriber of
    /// its session.
    pub open spec fn sweep_deliv_inv(
        init: WsServerState,
        stale: Seq<u64>,
        t: int,
        now: i64,
        timeout: i64,
        r: Seq<Delivery>,
    ) -> bool {
        forall|ii: int, jj: int|
            0 <= ii < init.connections@.len() && 0 <= jj < init.connections@.len()
                && Self::sweep_prefix(stale, t, (#[trigger] init.connections@[ii]).connection_id)
                && (#[trigger] init.connections@[jj]).state.last_heartbeat > now - timeout && init
                .connections@[ii].state.session_id is Some
                && init.connections@[jj].state.session_id
                == init.connections@[ii].state.session_id ==> Self::delivered_to(
                r,
                init.connections@[jj].connection_id,
                (FrameView::ParticipantLeft {
                    session_id: init.connections@[ii].state.session_id->0,
                    user_id: init.connections@[ii].state.user->0.user_id,
                }),
            )
    }

    #[verifier::opaque]
    pub open spec fn sweep_inv(
        init: WsServerState,
        cur: WsServerState,
        stale: Seq<u64>,
        t: int,
        now: i64,
        timeout: i64,
        r: Seq<Delivery>,
    ) -> bool {
        &&& Self::sweep_store_inv(init, cur)
        &&& Self::sweep_conns_inv(init, cur, stale, t)
        &&& Self::sweep_rows_inv(init, cur, stale, t, now)
        &&& Self::sweep_deliv_inv(init, stale, t, now, timeout, r)
    }

    /// What unregistering connection `stale[t]` at instant `now`
    /// guarantees, restated as a relation between the state `prev`
    /// before the call, the state `cur` after it, and the batch of
    /// deliveries it returned.
    pub open spec fn sweep_step_hyp(
        prev: WsServerState,
        cur: WsServerState,
        cid: u64,
        now: i64,
        batch: Seq<Delivery>,
    ) -> bool {
        &&& cur.wf()
        &&& cur.sessions == prev.sessions
        &&& cur.operations == prev.operations
        &&& cur.messages == prev.messages
        &&& cur.next_session_id == prev.next_session_id
        &&& cur.next_participant_id == prev.next_participant_id
        &&& cur.next_operation_id == prev.next_operation_id
        &&& cur.next_message_id == prev.next_message_id
        &&& !cur.has_conn(cid)
        &&& if !prev.has_conn(cid) {
            &&& cur.connections@ == prev.connections@
            &&& cur.participants@ == prev.participants@
            &&& batch.len() == 0
        } else {
            let ci = prev.conn_idx(cid);
            let st = prev.connections@[ci].state;
            &&& cur.connections@ == prev.connections@.remove(ci)
            &&& match st.participant_id {
                Some(pid) => st.session_id matches Some(sid) && st.user matches Some(u) && {
                    let k = prev.participant_idx(pid);
                    &&& prev.has_participant(pid)
                    &&& cur.participants@ == prev.participants@.update(
                        k,
                        spec_offline(prev.participants@[k], now),
                    )
                    &&& !cur.has_online(sid, u.user_id)
                    &&& deliveries_view(batch) == spec_fanout(
                        cur.connections@,
                        sid,
                        None,
                        (FrameView::ParticipantLeft { session_id: sid, user_id: u.user_id }),
                    )
                },
                None => cur.participants@ == prev.participants@ && batch.len() == 0,
            }
        }
    }

    /// No live connection is named in a sound stale list.
    proof fn lemma_live_not_stale(init: WsServerState, stale: Seq<u64>, now: i64, timeout: i64)
        requires
            init.wf(),
            Self::stale_list_sound(init, stale, now, timeout),
        ensures
            forall|jj: int, m: int|
                #![trigger init.connections@[jj], stale[m]]
                0 <= jj < init.connections@.len()
                    && init.connections@[jj].state.last_heartbeat > now - timeout && 0 <= m
                    < stale.len() ==> stale[m] != init.connections@[jj].connection_id,
    {
        assert forall|jj: int, m: int|
            #![trigger init.connections@[jj], stale[m]]
            0 <= jj < init.connections@.len() && init.connections@[jj].state.last_heartbeat > now
                - timeout && 0 <= m < stale.len() implies stale[m]
            != init.connections@[jj].connection_id by {
            let ii = choose|ii: int|
                0 <= ii < init.connections@.len() && (
                #[trigger] init.connections@[ii]).connection_id == stale[m]
                    && init.connections@[ii].state.last_heartbeat <= now - timeout;
            if stale[m] == init.connections@[jj].connection_id {
                assert(ii == jj);
                assert(false);
            }
        }
    }

    /// A live connection's ID is not in any prefix of a sound stale
    /// list.
    proof fn lemma_live_not_in_prefix(
        init: WsServerState,
        stale: Seq<u64>,
        t: int,
        jj: int,
        now: i64,
        timeout: i64,
    )
        requires
            init.wf(),
            Self::stale_list_sound(init, stale, now, timeout),
            0 <= t <= stale.len(),
            0 <= jj < init.connections@.len(),
            init.connections@[jj].state.last_heartbeat > now - timeout,
        ensures
            !Self::sweep_prefix(stale, t, init.connections@[jj].connection_id),
    {
        Self::lemma_live_not_stale(init, stale, now, timeout);
        let x = init.connections@[jj].connection_id;
        if Self::sweep_prefix(stale, t, x) {
            let m = choose|m: int| 0 <= m < t && stale[m] == x;
            assert(stale[m] == x);
            assert(stale[m] != init.connections@[jj].connection_id);
        }
    }

    /// One sweep step: the registry clauses of the invariant.
    #[verifier::rlimit(100)]
    #[verifier::spinoff_prover]
    proof fn lemma_sweep_step_registry(
        init: WsServerState,
        prev: WsServerState,
        cur: WsServerState,
        stale: Seq<u64>,
        t: int,
        now: i64,
        timeout: i64,
        prev_r: Seq<Delivery>,
        batch: Seq<Delivery>,
    )
        requires
            init.wf(),
            0 <= timeout,
            i64::MIN + timeout <= now,
            0 <= t < stale.len(),
            Self::stale_list_sound(init, stale, now, timeout),
            Self::sweep_store_inv(init, prev),
            Self::sweep_conns_inv(init, prev, stale, t),
            Self::sweep_step_hyp(prev, cur, stale[t], now, batch),
        ensures
            Self::sweep_conns_inv(init, cur, stale, t + 1),
    {
        broadcast use vstd::seq_lib::group_to_multiset_ensures;

        let cid = stale[t];
        if prev.has_conn(cid) {
            Self::lemma_conns_after_remove(prev, cur, prev.conn_idx(cid));
            assert(prev.connections@[prev.conn_idx(cid)].connection_id == cid);
            assert(cur.connections@.to_multiset() =~= prev.connections@.to_multiset().remove(
                prev.connections@[prev.conn_idx(cid)],
            ));
        }
        assert forall|v: ConnectionEntry|
            cur.connections@.to_multiset().count(v) <= init.connections@.to_multiset().count(
                v,
            ) by {
            assert(prev.connections@.to_multiset().count(v)
                <= init.connections@.to_multiset().count(v));
        }
        assert(cur.connections@.to_multiset().subset_of(init.connections@.to_multiset()));
        assert forall|m: int| 0 <= m < t + 1 implies !cur.has_conn(#[trigger] stale[m]) by {
            if m < t {
                assert(!prev.has_conn(stale[m]));
                if stale[m] != cid && prev.has_conn(cid) {
                    assert(cur.has_conn(stale[m]) == prev.has_conn(stale[m]));
                }
            }
        }
        assert forall|ii: int|
            0 <= ii < init.connections@.len() && !Self::sweep_prefix(stale, t + 1, (#[trigger] init.connections@[ii]).connection_id,) implies cur.has_conn(init.connections@[ii].connection_id) && cur.conn_state(
            init.connections@[ii].connection_id,
        ) == init.connections@[ii].state by {
            let x = init.connections@[ii].connection_id;
            Self::lemma_sweep_prefix_succ(stale, t, x);
            assert(!Self::sweep_prefix(stale, t, x));
            assert(x != cid);
            assert(prev.has_conn(x) && prev.conn_state(x) == init.connections@[ii].state);
        }
    }

    /// One sweep step: the participant-row clauses of the invariant.
    #[verifier::rlimit(100)]
    #[verifier::spinoff_prover]
    proof fn lemma_sweep_step_rows(
        init: WsServerState,
        prev: WsServerState,
        cur: WsServerState,
        stale: Seq<u64>,
        t: int,
        now: i64,
        timeout: i64,
        prev_r: Seq<Delivery>,
        batch: Seq<Delivery>,
    )
        requires
            init.wf(),
            0 <= timeout,
            i64::MIN + timeout <= now,
            0 <= t < stale.len(),
            Self::stale_list_sound(init, stale, now, timeout),
            Self::sweep_store_inv(init, prev),
            Self::sweep_conns_inv(init, prev, stale, t),
            Self::sweep_rows_inv(init, prev, stale, t, now),
            Self::sweep_step_hyp(prev, cur, stale[t], now, batch),
        ensures
            Self::sweep_rows_inv(init, cur, stale, t + 1, now),
    {
        let cid = stale[t];
        // whenever the step actually removes a joined member, its row
        // index in `prev` is the row of its initial participant ID
        if prev.has_conn(cid) {
            assert(!Self::sweep_prefix(stale, t, cid)) by {
                if Self::sweep_prefix(stale, t, cid) {
                    let m = choose|m: int|
                        0 <= m < t && stale[m] == cid;
                    assert(!prev.has_conn(stale[m]));
                }
            }
        }
        assert forall|k: int, ii: int|
            0 <= k < init.participants@.len() && 0 <= ii < init.connections@.len() && (
            #[trigger] init.connections@[ii]).state.participant_id == Some(
                (#[trigger] init.participants@[k]).id,
            ) && !Self::sweep_prefix(stale, t + 1, init.connections@[ii].connection_id) implies cur
            .participants@[k] == init.participants@[k] by {
            let x = init.connections@[ii].connection_id;
            Self::lemma_sweep_prefix_succ(stale, t, x);
            assert(!Self::sweep_prefix(stale, t, x));
            assert(x != cid);
            assert(prev.participants@[k] == init.participants@[k]);
            if prev.has_conn(cid) && prev.conn_state(cid).participant_id is Some {
                let pidc = prev.conn_state(cid).participant_id->0;
                let ci = prev.conn_idx(cid);
                let xi = prev.conn_idx(x);
                assert(prev.has_conn(x) && prev.conn_state(x) == init.connections@[ii].state);
                assert(prev.connections@[xi].state.participant_id == Some(
                    init.participants@[k].id,
                ));
                assert(xi != ci);
                assert(pidc != init.participants@[k].id);
                let kk = prev.participant_idx(pidc);
                if prev.has_participant(pidc) {
                    assert(prev.participants@[kk].id == pidc);
                    if kk == k {
                        assert(false);
                    }
                }
            }
        }
        Self::lemma_sweep_step_closed_rows(
            init,
            prev,
            cur,
            stale,
            t,
            now,
            timeout,
            prev_r,
            batch,
        );
        assert forall|k: int|
            0 <= k < init.participants@.len() implies (#[trigger] cur.participants@[k])
            == init.participants@[k] || cur.participants@[k] == spec_offline(
            init.participants@[k],
            now,
        ) by {
            if cur.participants@[k] != prev.participants@[k] {
                assert(cur.participants@[k] == spec_offline(prev.participants@[k], now));
                if prev.participants@[k] == spec_offline(init.participants@[k], now) {
                    assert(spec_offline(spec_offline(init.participants@[k], now), now)
                        == spec_offline(init.participants@[k], now));
                }
            }
        }
    }

    /// One sweep step: the row of each processed member stays or
    /// becomes soft-closed.
    #[verifier::rlimit(100)]
    #[verifier::spinoff_prover]
    proof fn lemma_sweep_step_closed_rows(
        init: WsServerState,
        prev: WsServerState,
        cur: WsServerState,
        stale: Seq<u64>,
        t: int,
        now: i64,
        timeout: i64,
        prev_r: Seq<Delivery>,
        batch: Seq<Delivery>,
    )
        requires
            init.wf(),
            0 <= timeout,
            i64::MIN + timeout <= now,
            0 <= t < stale.len(),
            Self::stale_list_sound(init, stale, now, timeout),
            Self::sweep_store_inv(init, prev),
            Self::sweep_conns_inv(init, prev, stale, t),
            Self::sweep_rows_inv(init, prev, stale, t, now),
            Self::sweep_step_hyp(prev, cur, stale[t], now, batch),
        ensures
            forall|k: int, ii: int|
                0 <= k < init.participants@.len() && 0 <= ii < init.connections@.len() && (
                #[trigger] init.connections@[ii]).state.participant_id == Some(
                    (#[trigger] init.participants@[k]).id,
                ) && Self::sweep_prefix(stale, t + 1, init.connections@[ii].connection_id)
                    ==> cur.participants@[k] == spec_offline(init.participants@[k], now),
    {
        let cid = stale[t];
        if prev.has_conn(cid) {
            assert(!Self::sweep_prefix(stale, t, cid)) by {
                if Self::sweep_prefix(stale, t, cid) {
                    let m = choose|m: int|
                        0 <= m < t && stale[m] == cid;
                    assert(!prev.has_conn(stale[m]));
                }
            }
        }
        assert forall|k: int, ii: int|
            0 <= k < init.participants@.len() && 0 <= ii < init.connections@.len() && (
            #[trigger] init.connections@[ii]).state.participant_id == Some(
                (#[trigger] init.participants@[k]).id,
            ) && Self::sweep_prefix(stale, t + 1, init.connections@[ii].connection_id) implies cur
            .participants@[k] == spec_offline(init.participants@[k], now) by {
            let x = init.connections@[ii].connection_id;
            Self::lemma_sweep_prefix_succ(stale, t, x);
            if Self::sweep_prefix(stale, t, x) {
                // closed in an earlier step; this step touches a
                // different member's row
                assert(prev.participants@[k] == spec_offline(init.participants@[k], now));
                if prev.has_conn(cid) && prev.conn_state(cid).participant_id is Some {
                    assert(x != cid);
                    let pidc = prev.conn_state(cid).participant_id->0;
                    let ci0 = choose|ci0: int|
                        0 <= ci0 < init.connections@.len() && (
                        #[trigger] init.connections@[ci0]).connection_id == cid
                            && init.connections@[ci0].state.last_heartbeat <= now - timeout;
                    assert(prev.conn_state(cid) == init.connections@[ci0].state);
                    assert(ci0 != ii);
                    assert(pidc != init.participants@[k].id);
                    let kk = prev.participant_idx(pidc);
                    if prev.has_participant(pidc) {
                        assert(prev.participants@[kk].id == pidc);
                        assert(prev.participants@[k].id == init.participants@[k].id);
                        if kk == k {
                            assert(false);
                        }
                    }
                }
            } else {
                // the newly processed member: its own row closes now
                assert(x == cid);
                assert(prev.has_conn(cid) && prev.conn_state(cid)
                    == init.connections@[ii].state);
                let pidc = init.participants@[k].id;
                assert(prev.conn_state(cid).participant_id == Some(pidc));
                assert(prev.has_participant(pidc));
                let kk = prev.participant_idx(pidc);
                assert(0 <= kk < prev.participants@.len() && prev.participants@[kk].id == pidc);
                assert(prev.participants@[k] == init.participants@[k]);
                assert(prev.participants@[k].id == pidc);
                if kk != k {
                    assert(prev.participants@[kk] == init.participants@[kk] || prev
                        .participants@[kk] == spec_offline(init.participants@[kk], now));
                    assert(init.participants@[kk].id == init.participants@[k].id);
                    assert(false);
                }
                assert(cur.participants@[k] == spec_offline(prev.participants@[k], now));
            }
        }
    }

    /// One sweep step: the delivery clause of the invariant.
    #[verifier::rlimit(100)]
    #[verifier::spinoff_prover]
    proof fn lemma_sweep_step_deliveries(
        init: WsServerState,
        prev: WsServerState,
        cur: WsServerState,
        stale: Seq<u64>,
        t: int,
        now: i64,
        timeout: i64,
        prev_r: Seq<Delivery>,
        batch: Seq<Delivery>,
        all_r: Seq<Delivery>,
    )
        requires
            init.wf(),
            0 <= timeout,
            i64::MIN + timeout <= now,
            0 <= t < stale.len(),
            Self::stale_list_sound(init, stale, now, timeout),
            Self::sweep_store_inv(init, prev),
            Self::sweep_conns_inv(init, prev, stale, t),
            Self::sweep_deliv_inv(init, stale, t, now, timeout, prev_r),
            Self::sweep_step_hyp(prev, cur, stale[t], now, batch),
            all_r == prev_r + batch,
        ensures
            Self::sweep_deliv_inv(init, stale, t + 1, now, timeout, all_r),
    {
        let cid = stale[t];
        if prev.has_conn(cid) {
            Self::lemma_conns_after_remove(prev, cur, prev.conn_idx(cid));
            assert(prev.connections@[prev.conn_idx(cid)].connection_id == cid);
        }
        assert forall|ii: int, jj: int|
            0 <= ii < init.connections@.len() && 0 <= jj < init.connections@.len()
                && Self::sweep_prefix(stale, t + 1, (#[trigger] init.connections@[ii]).connection_id)
                && (#[trigger] init.connections@[jj]).state.last_heartbeat > now - timeout && init
                .connections@[ii].state.session_id is Some
                && init.connections@[jj].state.session_id
                == init.connections@[ii].state.session_id implies Self::delivered_to(
            all_r,
            init.connections@[jj].connection_id,
            (FrameView::ParticipantLeft {
                session_id: init.connections@[ii].state.session_id->0,
                user_id: init.connections@[ii].state.user->0.user_id,
            }),
        ) by {
            let want = (DeliveryView {
                to: init.connections@[jj].connection_id,
                frame: (FrameView::ParticipantLeft {
                    session_id: init.connections@[ii].state.session_id->0,
                    user_id: init.connections@[ii].state.user->0.user_id,
                }),
            });
            Self::lemma_sweep_prefix_succ(stale, t, init.connections@[ii].connection_id);
            if Self::sweep_prefix(stale, t, init.connections@[ii].connection_id) {
                assert(Self::delivered_to(
                    prev_r,
                    init.connections@[jj].connection_id,
                    want.frame,
                ));
                let m = choose|m: int| 0 <= m < prev_r.len() && (#[trigger] prev_r[m])@ == want;
                assert(0 <= m < all_r.len() && all_r[m]@ == want);
            } else {
                assert(init.connections@[ii].connection_id == cid);
                assert(!Self::sweep_prefix(stale, t, cid));
                assert(prev.has_conn(cid) && prev.conn_state(cid)
                    == init.connections@[ii].state);
                assert(prev.conn_entry_ok(prev.conn_idx(cid)));
                let sid = init.connections@[ii].state.session_id->0;
                let frame = (FrameView::ParticipantLeft {
                    session_id: sid,
                    user_id: init.connections@[ii].state.user->0.user_id,
                });
                Self::lemma_live_not_in_prefix(init, stale, t, jj, now, timeout);
                Self::lemma_live_not_stale(init, stale, now, timeout);
                let x = init.connections@[jj].connection_id;
                assert(x != cid);
                assert(prev.has_conn(x) && prev.conn_state(x) == init.connections@[jj].state);
                assert(cur.has_conn(x) && cur.conn_state(x) == init.connections@[jj].state);
                let jj2 = cur.conn_idx(x);
                assert(cur.connections@[jj2].state.session_id == Some(sid));
                assert(deliveries_view(batch) == spec_fanout(cur.connections@, sid, None, frame));
                Self::lemma_fanout_covers(cur.connections@, sid, None, frame, jj2);
                let m = choose|m: int|
                    0 <= m < spec_fanout(cur.connections@, sid, None, frame).len() && spec_fanout(
                        cur.connections@,
                        sid,
                        None,
                        frame,
                    )[m] == (DeliveryView { to: x, frame });
                assert(deliveries_view(batch)[m] == want);
                assert(batch[m]@ == want);
                assert(0 <= prev_r.len() + m < all_r.len() && all_r[prev_r.len() + m]@ == want);
            }
        }
    }

    /// One step of the liveness sweep keeps [`Self::sweep_inv`].
    #[verifier::spinoff_prover]
    proof fn lemma_sweep_step(
        init: WsServerState,
        prev: WsServerState,
        cur: WsServerState,
        stale: Seq<u64>,
        t: int,
        now: i64,
        timeout: i64,
        prev_r: Seq<Delivery>,
        batch: Seq<Delivery>,
        all_r: Seq<Delivery>,
    )
        requires
            init.wf(),
            0 <= timeout,
            i64::MIN + timeout <= now,
            0 <= t < stale.len(),
            Self::stale_list_sound(init, stale, now, timeout),
            Self::sweep_inv(init, prev, stale, t, now, timeout, prev_r),
            Self::sweep_step_hyp(prev, cur, stale[t], now, batch),
            all_r == prev_r + batch,
        ensures
            cur.wf(),
            Self::sweep_inv(init, cur, stale, t + 1, now, timeout, all_r),
    {
        reveal(WsServerState::sweep_inv);
        assert(Self::sweep_store_inv(init, cur));
        Self::lemma_sweep_step_registry(init, prev, cur, stale, t, now, timeout, prev_r, batch);
        Self::lemma_sweep_step_rows(init, prev, cur, stale, t, now, timeout, prev_r, batch);
        Self::lemma_sweep_step_deliveries(
            init,
            prev,
            cur,
            stale,
            t,
            now,
            timeout,
            prev_r,
            batch,
            all_r,
        );
    }

    /// After the whole sweep: every stale connection is gone.
    #[verifier::rlimit(100)]
    #[verifier::spinoff_prover]
    proof fn lemma_sweep_final_gone(
        init: WsServerState,
        cur: WsServerState,
        stale: Seq<u64>,
        now: i64,
        timeout: i64,
    )
        requires
            Self::stale_list_complete(init, stale, init.connections@.len() as int, now, timeout),
            Self::sweep_conns_inv(init, cur, stale, stale.len() as int),
        ensures
            forall|i: int|
                0 <= i < init.connections@.len() && (
                #[trigger] init.connections@[i]).state.last_heartbeat <= now - timeout
                    ==> !cur.has_conn(init.connections@[i].connection_id),
    {
        assert forall|i: int|
            0 <= i < init.connections@.len() && (
            #[trigger] init.connections@[i]).state.last_heartbeat <= now - timeout implies !cur
            .has_conn(init.connections@[i].connection_id) by {
            assert(stale.contains(init.connections@[i].connection_id));
            let m = choose|m: int|
                0 <= m < stale.len() && stale[m] == init.connections@[i].connection_id;
            assert(!cur.has_conn(stale[m]));
        }
    }

    /// After the whole sweep: every live connection survives with its
    /// state untouched.
    #[verifier::rlimit(100)]
    #[verifier::spinoff_prover]
    proof fn lemma_sweep_final_live(
        init: WsServerState,
        cur: WsServerState,
        stale: Seq<u64>,
        now: i64,
        timeout: i64,
    )
        requires
            init.wf(),
            Self::stale_list_sound(init, stale, now, timeout),
            Self::sweep_conns_inv(init, cur, stale, stale.len() as int),
        ensures
            forall|i: int|
                0 <= i < init.connections@.len() && (
                #[trigger] init.connections@[i]).state.last_heartbeat > now - timeout
                    ==> cur.has_conn(init.connections@[i].connection_id) && cur.conn_state(
                    init.connections@[i].connection_id,
                ) == init.connections@[i].state,
    {
        Self::lemma_live_not_stale(init, stale, now, timeout);
        assert forall|i: int|
            0 <= i < init.connections@.len() && (
            #[trigger] init.connections@[i]).state.last_heartbeat > now - timeout implies cur
            .has_conn(init.connections@[i].connection_id) && cur.conn_state(
            init.connections@[i].connection_id,
        ) == init.connections@[i].state by {
            let x = init.connections@[i].connection_id;
            assert(!Self::sweep_prefix(stale, stale.len() as int, x)) by {
                if Self::sweep_prefix(stale, stale.len() as int, x) {
                    let m = choose|m: int| 0 <= m < stale.len() && stale[m] == x;
                    assert(stale[m] != init.connections@[i].connection_id);
                }
            }
        }
    }

    /// After the whole sweep: the row held by a live connection is
    /// untouched.
    #[verifier::rlimit(100)]
    #[verifier::spinoff_prover]
    proof fn lemma_sweep_final_live_rows(
        init: WsServerState,
        cur: WsServerState,
        stale: Seq<u64>,
        now: i64,
        timeout: i64,
    )
        requires
            init.wf(),
            Self::stale_list_sound(init, stale, now, timeout),
            Self::sweep_rows_inv(init, cur, stale, stale.len() as int, now),
        ensures
            forall|k: int, i: int|
                0 <= k < init.participants@.len() && 0 <= i < init.connections@.len() && (
                #[trigger] init.connections@[i]).state.participant_id == Some(
                    (#[trigger] init.participants@[k]).id,
                ) && init.connections@[i].state.last_heartbeat > now - timeout
                    ==> cur.participants@[k] == init.participants@[k],
    {
        Self::lemma_live_not_stale(init, stale, now, timeout);
        assert forall|k: int, i: int|
            0 <= k < init.participants@.len() && 0 <= i < init.connections@.len() && (
            #[trigger] init.connections@[i]).state.participant_id == Some(
                (#[trigger] init.participants@[k]).id,
            ) && init.connections@[i].state.last_heartbeat > now - timeout implies cur
            .participants@[k] == init.participants@[k] by {
            let x = init.connections@[i].connection_id;
            assert(!Self::sweep_prefix(stale, stale.len() as int, x)) by {
                if Self::sweep_prefix(stale, stale.len() as int, x) {
                    let m = choose|m: int| 0 <= m < stale.len() && stale[m] == x;
                    assert(stale[m] != init.connections@[i].connection_id);
                }
            }
        }
    }

    /// After the whole sweep: the row held by a stale connection is
    /// soft-closed.
    #[verifier::rlimit(100)]
    #[verifier::spinoff_prover]
    proof fn lemma_sweep_final_closed_rows(
        init: WsServerState,
        cur: WsServerState,
        stale: Seq<u64>,
        now: i64,
        timeout: i64,
    )
        requires
            Self::stale_list_complete(init, stale, init.connections@.len() as int, now, timeout),
            Self::sweep_rows_inv(init, cur, stale, stale.len() as int, now),
        ensures
            forall|k: int, i: int|
                0 <= k < init.participants@.len() && 0 <= i < init.connections@.len() && (
                #[trigger] init.connections@[i]).state.participant_id == Some(
                    (#[trigger] init.participants@[k]).id,
                ) && init.connections@[i].state.last_heartbeat <= now - timeout
                    ==> cur.participants@[k] == spec_offline(init.participants@[k], now),
    {
        assert forall|k: int, i: int|
            0 <= k < init.participants@.len() && 0 <= i < init.connections@.len() && (
            #[trigger] init.connections@[i]).state.participant_id == Some(
                (#[trigger] init.participants@[k]).id,
            ) && init.connections@[i].state.last_heartbeat <= now - timeout implies cur
            .participants@[k] == spec_offline(init.participants@[k], now) by {
            assert(stale.contains(init.connections@[i].connection_id));
            let m = choose|m: int|
                0 <= m < stale.len() && stale[m] == init.connections@[i].connection_id;
            assert(Self::sweep_prefix(
                stale,
                stale.len() as int,
                init.connections@[i].connection_id,
            ));
        }
    }

    /// After the whole sweep: the registry holds exactly untouched
    /// live entries.
    #[verifier::rlimit(100)]
    #[verifier::spinoff_prover]
    proof fn lemma_sweep_final_survivors(
        init: WsServerState,
        cur: WsServerState,
        stale: Seq<u64>,
        now: i64,
        timeout: i64,
    )
        requires
            Self::stale_list_complete(init, stale, init.connections@.len() as int, now, timeout),
            Self::sweep_conns_inv(init, cur, stale, stale.len() as int),
        ensures
            forall|j: int|
                0 <= j < cur.connections@.len() ==> init.connections@.contains(
                    #[trigger] cur.connections@[j],
                ) && cur.connections@[j].state.last_heartbeat > now - timeout,
    {
        broadcast use vstd::seq_lib::group_to_multiset_ensures;

        assert forall|j: int| 0 <= j < cur.connections@.len() implies init.connections@.contains(
            #[trigger] cur.connections@[j],
        ) && cur.connections@[j].state.last_heartbeat > now - timeout by {
            let e = cur.connections@[j];
            assert(0 <= j < cur.connections@.len() && cur.connections@[j] == e);
            assert(cur.connections@.contains(e));
            assert(cur.connections@.to_multiset().count(e) > 0);
            assert(init.connections@.to_multiset().count(e) > 0);
            assert(init.connections@.contains(e));
            if e.state.last_heartbeat <= now - timeout {
                let i = choose|i: int|
                    0 <= i < init.connections@.len() && init.connections@[i] == e;
                assert(stale.contains(init.connections@[i].connection_id));
                let m = choose|m: int|
                    0 <= m < stale.len() && stale[m] == init.connections@[i].connection_id;
                assert(!cur.has_conn(stale[m]));
                assert((#[trigger] cur.connections@[j]).connection_id
                    == init.connections@[i].connection_id);
                assert(false);
            }
        }
    }

    /// After the whole sweep: every remaining live subscriber of a
    /// stale participant's session was told of the departure.
    #[verifier::rlimit(100)]
    #[verifier::spinoff_prover]
    proof fn lemma_sweep_final_deliveries(
        init: WsServerState,
        stale: Seq<u64>,
        now: i64,
        timeout: i64,
        r: Seq<Delivery>,
    )
        requires
            Self::stale_list_complete(init, stale, init.connections@.len() as int, now, timeout),
            Self::sweep_deliv_inv(init, stale, stale.len() as int, now, timeout, r),
        ensures
            forall|i: int, j: int|
                0 <= i < init.connections@.len() && 0 <= j < init.connections@.len() && (
                #[trigger] init.connections@[i]).state.last_heartbeat <= now - timeout && (
                #[trigger] init.connections@[j]).state.last_heartbeat > now - timeout
                    && init.connections@[i].state.session_id is Some
                    && init.connections@[j].state.session_id
                    == init.connections@[i].state.session_id ==> Self::delivered_to(
                    r,
                    init.connections@[j].connection_id,
                    (FrameView::ParticipantLeft {
                        session_id: init.connections@[i].state.session_id->0,
                        user_id: init.connections@[i].state.user->0.user_id,
                    }),
                ),
    {
        assert forall|i: int, j: int|
            0 <= i < init.connections@.len() && 0 <= j < init.connections@.len() && (
            #[trigger] init.connections@[i]).state.last_heartbeat <= now - timeout && (
            #[trigger] init.connections@[j]).state.last_heartbeat > now - timeout
                && init.connections@[i].state.session_id is Some
                && init.connections@[j].state.session_id
                == init.connections@[i].state.session_id implies Self::delivered_to(
            r,
            init.connections@[j].connection_id,
            (FrameView::ParticipantLeft {
                session_id: init.connections@[i].state.session_id->0,
                user_id: init.connections@[i].state.user->0.user_id,
            }),
        ) by {
            assert(stale.contains(init.connections@[i].connection_id));
            let m0 = choose|m0: int|
                0 <= m0 < stale.len() && stale[m0] == init.connections@[i].connection_id;
            assert(Self::sweep_prefix(
                stale,
                stale.len() as int,
                init.connections@[i].connection_id,
            ));
        }
    }

    /// Collects the IDs of every connection whose heartbeat is
    /// `timeout` or more behind `now`.
    #[verifier::spinoff_prover]
    fn collect_stale(&self, now: i64, timeout: i64) -> (stale: Vec<u64>)
        requires
            self.wf(),
            0 <= timeout,
            i64::MIN + timeout <= now,
        ensures
            Self::stale_list_sound(*self, stale@, now, timeout),
            Self::stale_list_complete(
                *self,
                stale@,
                self.connections@.len() as int,
                now,
                timeout,
            ),
    {
        let mut stale: Vec<u64> = Vec::new();
        let n = self.connections.len();
        let mut i: usize = 0;
        while i < n
            invariant
                0 <= i <= n,
                n == self.connections@.len(),
                self.wf(),
                0 <= timeout,
                i64::MIN + timeout <= now,
                Self::stale_list_sound(*self, stale@, now, timeout),
                Self::stale_list_complete(*self, stale@, i as int, now, timeout),
            decreases n - i,
        {
            if self.connections[i].state.last_heartbeat <= now - timeout {
                let ghost prev_stale = stale@;
                stale.push(self.connections[i].connection_id);
                proof {
                    Self::lemma_stale_collect_step(*self, prev_stale, i as int, now, timeout);
                    assert(stale@ == prev_stale.push(self.connections@[i as int].connection_id));
                }
            } else {
                proof {
                    assert(Self::stale_list_complete(*self, stale@, i + 1, now, timeout));
                }
            }
            i = i + 1;
        }
        stale
    }

    /// Before the first teardown the sweep invariant holds of the
    /// untouched state with an empty delivery batch.
    #[verifier::rlimit(100)]
    #[verifier::spinoff_prover]
    proof fn lemma_sweep_inv_init(init: WsServerState, stale: Seq<u64>, now: i64, timeout: i64)
        requires
            init.wf(),
        ensures
            Self::sweep_inv(init, init, stale, 0, now, timeout, Seq::empty()),
    {
        reveal(WsServerState::sweep_inv);
        assert(Self::sweep_store_inv(init, init));
        assert forall|ii: int|
            0 <= ii < init.connections@.len() && !Self::sweep_prefix(
                stale,
                0,
                (#[trigger] init.connections@[ii]).connection_id,
            ) implies init.has_conn(init.connections@[ii].connection_id) && init.conn_state(
            init.connections@[ii].connection_id,
        ) == init.connections@[ii].state by {
            let x = init.connections@[ii].connection_id;
            assert((#[trigger] init.connections@[ii]).connection_id == x);
            let i2 = init.conn_idx(x);
            assert(0 <= i2 < init.connections@.len() && init.connections@[i2].connection_id
                == x);
            assert(i2 == ii);
        }
        assert(Self::sweep_conns_inv(init, init, stale, 0));
        assert(Self::sweep_rows_inv(init, init, stale, 0, now));
        assert(Self::sweep_deliv_inv(init, stale, 0, now, timeout, Seq::empty()));
    }

    /// The liveness sweep: every connection whose heartbeat is
    /// `timeout` or more behind `now` is torn down exactly as an
    /// abrupt disconnect would be, and every remaining subscriber of
    /// an affected session is told that the participant left.
    #[verifier::rlimit(100)]
    #[verifier::spinoff_prover]
    pub fn check_liveness(&mut self, now: i64, timeout: i64) -> (r: Vec<Delivery>)
        requires
            old(self).wf(),
            0 <= timeout,
            i64::MIN + timeout <= now,
        ensures
            final(self).wf(),
            final(self).sessions == old(self).sessions,
            final(self).operations == old(self).operations,
            final(self).messages == old(self).messages,
            final(self).next_session_id == old(self).next_session_id,
            final(self).next_participant_id == old(self).next_participant_id,
            final(self).next_operation_id == old(self).next_operation_id,
            final(self).next_message_id == old(self).next_message_id,
            final(self).participants@.len() == old(self).participants@.len(),
            // stale connections are gone
            forall|i: int|
                0 <= i < old(self).connections@.len() && (
                #[trigger] old(self).connections@[i]).state.last_heartbeat <= now - timeout
                    ==> !final(self).has_conn(old(self).connections@[i].connection_id),
            // live connections survive untouched
            forall|i: int|
                0 <= i < old(self).connections@.len() && (
                #[trigger] old(self).connections@[i]).state.last_heartbeat > now - timeout
                    ==> final(self).has_conn(old(self).connections@[i].connection_id) && final(self).conn_state(old(self).connections@[i].connection_id) == old(self).connections@[i].state,
            // participant rows held by live connections stay online and untouched
            forall|k: int, i: int|
                0 <= k < old(self).participants@.len() && 0 <= i < old(self).connections@.len() && (#[trigger] old(self).connections@[i]).state.participant_id == Some(
                    (#[trigger] old(self).participants@[k]).id,
                ) && old(self).connections@[i].state.last_heartbeat > now - timeout ==> final(self).participants@[k] == old(self).participants@[k],
            // every row is either untouched or soft-closed at `now`
            forall|k: int|
                0 <= k < old(self).participants@.len() ==> (#[trigger] final(self).participants@[k]) == old(self).participants@[k] || final(self).participants@[k]
                    == spec_offline(old(self).participants@[k], now),
            // the row held by a swept connection is soft-closed at `now`
            forall|k: int, i: int|
                0 <= k < old(self).participants@.len() && 0 <= i < old(self).connections@.len() && (#[trigger] old(self).connections@[i]).state.participant_id == Some(
                    (#[trigger] old(self).participants@[k]).id,
                ) && old(self).connections@[i].state.last_heartbeat <= now - timeout ==> final(self).participants@[k] == spec_offline(old(self).participants@[k], now),
            // the registry ends with exactly the live entries, untouched
            forall|j: int|
                0 <= j < final(self).connections@.len() ==> old(self).connections@.contains(
                    #[trigger] final(self).connections@[j],
                ) && final(self).connections@[j].state.last_heartbeat > now - timeout,
            // every remaining subscriber of a stale participant's session
            // is told that the participant left
            forall|i: int, j: int|
                0 <= i < old(self).connections@.len() && 0 <= j < old(self).connections@.len() && (#[trigger] old(self).connections@[i]).state.last_heartbeat <= now - timeout && (#[trigger] old(self).connections@[j]).state.last_heartbeat > now - timeout && old(self).connections@[i].state.session_id is Some && old(self).connections@[j].state.session_id == old(self).connections@[i].state.session_id
                    ==> Self::delivered_to(
                    r@,
                    old(self).connections@[j].connection_id,
                    (FrameView::ParticipantLeft {
                        session_id: old(self).connections@[i].state.session_id->0,
                        user_id: old(self).connections@[i].state.user->0.user_id,
                    }),
                ),
    {
        let ghost init = *old(self);
        // collect the stale connection IDs under the registry as it
        // stands, then tear each one down as an abrupt disconnect
        let stale = self.collect_stale(now, timeout);
        proof {
            Self::lemma_sweep_inv_init(init, stale@, now, timeout);
        }
        let mut r: Vec<Delivery> = Vec::new();
        let total = stale.len();
        let mut t: usize = 0;
        while t < total
            invariant
                0 <= t <= total,
                total == stale@.len(),
                init.wf(),
                0 <= timeout,
                i64::MIN + timeout <= now,
                Self::stale_list_sound(init, stale@, now, timeout),
                Self::stale_list_complete(
                    init,
                    stale@,
                    init.connections@.len() as int,
                    now,
                    timeout,
                ),
                self.wf(),
                Self::sweep_inv(init, *self, stale@, t as int, now, timeout, r@),
            decreases total - t,
        {
            let cid = stale[t];
            let ghost prev = *self;
            let ghost prev_r = r@;
            let mut batch = self.unregister_connection(cid, now);
            let ghost batch_snap = batch@;
            r.append(&mut batch);
            proof {
                assert(r@ == prev_r + batch_snap);
                assert(Self::sweep_step_hyp(prev, *self, cid, now, batch_snap));
                Self::lemma_sweep_step(
                    init,
                    prev,
                    *self,
                    stale@,
                    t as int,
                    now,
                    timeout,
                    prev_r,
                    batch_snap,
                    r@,
                );
            }
            t = t + 1;
        }
        proof {
            reveal(WsServerState::sweep_inv);
            assert(Self::sweep_store_inv(init, *self));
            assert(Self::sweep_conns_inv(init, *self, stale@, stale@.len() as int));
            assert(Self::sweep_rows_inv(init, *self, stale@, stale@.len() as int, now));
            assert(Self::sweep_deliv_inv(init, stale@, stale@.len() as int, now, timeout, r@));
            Self::lemma_sweep_final_gone(init, *self, stale@, now, timeout);
            Self::lemma_sweep_final_live(init, *self, stale@, now, timeout);
            Self::lemma_sweep_final_live_rows(init, *self, stale@, now, timeout);
            Self::lemma_sweep_final_closed_rows(init, *self, stale@, now, timeout);
            Self::lemma_sweep_final_survivors(init, *self, stale@, now, timeout);
            Self::lemma_sweep_final_deliveries(init, stale@, now, timeout, r@);
        }
        r
    }

    /// Registers a new connection with zero-valued state.
    #[verifier::spinoff_prover]
    pub fn register_connection(&mut self, connection_id: u64, now: i64)
        requires
            old(self).wf(),
            !old(self).has_conn(connection_id),
        ensures
            final(self).wf(),
            final(self).connections@ == old(self).connections@.push(
                ConnectionEntry { connection_id, state: ConnectionState::spec_new(now) },
            ),
            final(self).sessions == old(self).sessions,
            final(self).participants == old(self).participants,
            final(self).operations == old(self).operations,
            final(self).messages == old(self).messages,
            final(self).next_session_id == old(self).next_session_id,
            final(self).next_participant_id == old(self).next_participant_id,
            final(self).next_operation_id == old(self).next_operation_id,
            final(self).next_message_id == old(self).next_message_id,
    {
        self.connections.push(
            ConnectionEntry { connection_id, state: ConnectionState::new(now) },
        );
        proof {
            let n = self.connections@.len() - 1;
            assert forall|i: int| 0 <= i < self.connections@.len() implies #[trigger] self
                .conn_entry_ok(i) by {
                if i < n {
                    assert(old(self).conn_entry_ok(i));
                    assert(self.connections@[i] == old(self).connections@[i]);
                }
            }
            assert forall|k: int|
                0 <= k < self.participants@.len() && (
                #[trigger] self.participants@[k]).is_online implies exists|i: int|
                0 <= i < self.connections@.len() && (
                #[trigger] self.connections@[i]).state.participant_id == Some(
                    self.participants@[k].id,
                ) by {
                let i = choose|i: int|
                    0 <= i < old(self).connections@.len() && (
                    #[trigger] old(self).connections@[i]).state.participant_id == Some(old(self).participants@[k].id);
                assert(self.connections@[i].state.participant_id == Some(
                    self.participants@[k].id,
                ));
            }
        }
    }

    /// Updates a connection's heartbeat instant after a pong.
    #[verifier::spinoff_prover]
    pub fn record_pong(&mut self, connection_id: u64, now: i64)
        requires
            old(self).wf(),
        ensures
            final(self).wf(),
            final(self).sessions == old(self).sessions,
            final(self).participants == old(self).participants,
            final(self).operations == old(self).operations,
            final(self).messages == old(self).messages,
            final(self).next_session_id == old(self).next_session_id,
            final(self).next_participant_id == old(self).next_participant_id,
            final(self).next_operation_id == old(self).next_operation_id,
            final(self).next_message_id == old(self).next_message_id,
            final(self).connections@.len() == old(self).connections@.len(),
            forall|i: int|
                0 <= i < final(self).connections@.len() ==> (#[trigger] final(self).connections@[i])
                    == if old(self).connections@[i].connection_id == connection_id {
                    (ConnectionEntry {
                        connection_id: old(self).connections@[i].connection_id,
                        state: (ConnectionState {
                            last_heartbeat: now,
                            ..old(self).connections@[i].state
                        }),
                    })
                } else {
                    old(self).connections@[i]
                },
    {
        let found = self.find_connection(connection_id);
        match found {
            Some(i) => {
                self.connections[i].state.last_heartbeat = now;
                proof {
                    assert forall|j: int| 0 <= j < self.connections@.len() implies #[trigger] self
                        .conn_entry_ok(j) by {
                        assert(old(self).conn_entry_ok(j));
                    }
                    assert forall|k: int|
                        0 <= k < self.participants@.len() && (
                        #[trigger] self.participants@[k]).is_online implies exists|ii: int|
                        0 <= ii < self.connections@.len() && (
                        #[trigger] self.connections@[ii]).state.participant_id == Some(
                            self.participants@[k].id,
                        ) by {
                        let ii = choose|ii: int|
                            0 <= ii < old(self).connections@.len() && (
                            #[trigger] old(self).connections@[ii]).state.participant_id == Some(old(self).participants@[k].id);
                        assert(self.connections@[ii].state.participant_id == Some(
                            self.participants@[k].id,
                        ));
                    }
                }
            },
            None => {},
        }
    }

    /// The current roster of session `session_id`: a copy of every
    /// online participant row, in store order.
    #[verifier::spinoff_prover]
    pub fn get_active_participants(&self, session_id: u64) -> (r: Vec<SessionParticipant>)
        ensures
            r@.map_values(|p: SessionParticipant| p@) == spec_roster(
                self.participants@,
                session_id,
            ),
    {
        let n = self.participants.len();
        let mut r: Vec<SessionParticipant> = Vec::new();
        let mut i: usize = 0;
        while i < n
            invariant
                0 <= i <= n,
                n == self.participants@.len(),
                r@.map_values(|p: SessionParticipant| p@) == spec_roster(
                    self.participants@.take(i as int),
                    session_id,
                ),
            decreases n - i,
        {
            let p = &self.participants[i];
            let ghost prev = r@;
            if p.is_online && p.session_id == session_id {
                r.push(p.duplicate());
                proof {
                    assert(r@.map_values(|p: SessionParticipant| p@) =~= prev.map_values(
                        |p: SessionParticipant| p@,
                    ).push(self.participants@[i as int]@));
                }
            }
            proof {
                assert(self.participants@.take(i + 1).drop_last() =~= self.participants@.take(
                    i as int,
                ));
                assert(self.participants@.take(i + 1).last() == self.participants@[i as int]);
            }
            i = i + 1;
        }
        proof {
            assert(self.participants@.take(n as int) =~= self.participants@);
        }
        r
    }

    /// The greatest persisted timestamp among the operations of
    /// session `session_id`, if any.
    #[verifier::spinoff_prover]
    fn latest_op_timestamp(&self, session_id: u64) -> (r: Option<i64>)
        ensures
            r == spec_latest_ts(self.operations@, session_id),
    {
        let n = self.operations.len();
        let mut cur: Option<i64> = None;
        let mut i: usize = 0;
        while i < n
            invariant
                0 <= i <= n,
                n == self.operations@.len(),
                cur == spec_latest_ts(self.operations@.take(i as int), session_id),
            decreases n - i,
        {
            let op = &self.operations[i];
            if op.session_id == session_id {
                cur = match cur {
                    None => Some(op.timestamp),
                    Some(m) => if op.timestamp > m {
                        Some(op.timestamp)
                    } else {
                        Some(m)
                    },
                };
            }
            proof {
                assert(self.operations@.take(i + 1).drop_last() =~= self.operations@.take(
                    i as int,
                ));
                assert(self.operations@.take(i + 1).last() == self.operations@[i as int]);
            }
            i = i + 1;
        }
        proof {
            assert(self.operations@.take(n as int) =~= self.operations@);
        }
        cur
    }

    /// Relays an edit operation: the caller must be authenticated and
    /// an online participant of the session. Insert, delete, replace
    /// and format operations are persisted to the append-only log
    /// with a server timestamp strictly above every earlier operation
    /// of the session; cursor and selection updates are kept on the
    /// participant row instead. The accepted operation is fanned out
    /// to every subscriber of the session.
    #[verifier::rlimit(100)]
    #[verifier::spinoff_prover]
    pub fn handle_operation(
        &mut self,
        connection_id: u64,
        session_id: u64,
        operation_type: OperationType,
        position: Option<i32>,
        content: Option<String>,
        length: Option<i32>,
        file_id: Option<u64>,
        now: i64,
    ) -> (r: Vec<Delivery>)
        requires
            old(self).wf(),
            old(self).has_conn(connection_id),
            old(self).next_operation_id < u64::MAX,
            now < i64::MAX,
        ensures
            final(self).wf(),
            Self::spec_operation_post(
                *old(self),
                *final(self),
                connection_id,
                session_id,
                operation_type,
                position,
                content,
                length,
                file_id,
                now,
                r@,
            ),
    {
        let found = self.find_connection(connection_id);
        let ci = match found {
            Some(ci) => ci,
            None => {
                proof {
                    assert(false);
                }
                return Vec::new();
            },
        };
        proof {
            let c2 = old(self).conn_idx(connection_id);
            assert(0 <= c2 < old(self).connections@.len() && old(self).connections@[c2].connection_id == connection_id);
            assert(c2 == ci as int);
            assert(old(self).conn_entry_ok(ci as int));
        }
        let user_id = match &self.connections[ci].state.user {
            Some(u) => u.user_id,
            None => {
                let mut r: Vec<Delivery> = Vec::new();
                r.push(
                    Delivery {
                        to: connection_id,
                        frame: WsMessage::Error {
                            code: "UNAUTHORIZED".to_owned(),
                            message: "Not authenticated".to_owned(),
                        },
                    },
                );
                proof {
                    assert(deliveries_view(r@) =~= seq![
                        (DeliveryView {
                            to: connection_id,
                            frame: (FrameView::Error {
                                code: "UNAUTHORIZED"@,
                                message: "Not authenticated"@,
                            }),
                        }),
                    ]);
                }
                return r;
            },
        };
        let in_session = match self.connections[ci].state.session_id {
            Some(s) => s == session_id,
            None => false,
        };
        if !in_session {
            let mut r: Vec<Delivery> = Vec::new();
            r.push(
                Delivery {
                    to: connection_id,
                    frame: WsMessage::Error {
                        code: "UNAUTHORIZED".to_owned(),
                        message: "You must be a session participant to create operations"
                            .to_owned(),
                    },
                },
            );
            proof {
                assert(deliveries_view(r@) =~= seq![
                    (DeliveryView {
                        to: connection_id,
                        frame: (FrameView::Error {
                            code: "UNAUTHORIZED"@,
                            message: "You must be a session participant to create operations"@,
                        }),
                    }),
                ]);
            }
            return r;
        }
        if operation_type.is_transient() {
            let pid = match self.connections[ci].state.participant_id {
                Some(pid) => pid,
                None => {
                    proof {
                        assert(false);
                    }
                    0
                },
            };
            let kfound = self.find_participant(pid);
            let k = match kfound {
                Some(k) => k,
                None => {
                    proof {
                        assert(old(self).has_participant(pid));
                        assert(false);
                    }
                    0
                },
            };
            let frame = WsMessage::ServerOperation {
                session_id,
                user_id,
                operation_type,
                position,
                content: crate::collaboration::clone_opt_string(&content),
                length,
                file_id,
                timestamp: now,
            };
            let ghost content_snap = content;
            if matches!(operation_type, OperationType::Cursor) {
                self.participants[k].cursor_position = position;
            }
            self.participants[k].selection = content;
            proof {
                assert(k as int == old(self).participant_idx(pid)) by {
                    let k2 = old(self).participant_idx(pid);
                    assert(0 <= k2 < old(self).participants@.len() && old(self).participants@[k2].id == pid);
                }
                assert(self.participants@[k as int].id == old(self).participants@[k as int].id
                    && self.participants@[k as int].is_online == old(self).participants@[k as int].is_online && self.participants@[k as int].session_id
                    == old(self).participants@[k as int].session_id && self.participants@[k
                    as int].user_id == old(self).participants@[k as int].user_id);
                assert forall|j: int| 0 <= j < self.connections@.len() implies #[trigger] self
                    .conn_entry_ok(j) by {
                    assert(old(self).conn_entry_ok(j));
                    if self.connections@[j].state.participant_id is Some {
                        let pj = self.connections@[j].state.participant_id->0;
                        let kj = choose|kj: int|
                            0 <= kj < old(self).participants@.len() && (
                            #[trigger] old(self).participants@[kj]).id == pj && old(self).participants@[kj].is_online && Some(
                                old(self).participants@[kj].session_id,
                            ) == self.connections@[j].state.session_id;
                        assert(self.participants@[kj].id == pj && self.participants@[kj].is_online
                            && Some(self.participants@[kj].session_id)
                            == self.connections@[j].state.session_id);
                    }
                }
                assert forall|m: int|
                    0 <= m < self.participants@.len() && (
                    #[trigger] self.participants@[m]).is_online implies exists|j: int|
                    0 <= j < self.connections@.len() && (
                    #[trigger] self.connections@[j]).state.participant_id == Some(
                        self.participants@[m].id,
                    ) by {
                    let j = choose|j: int|
                        0 <= j < old(self).connections@.len() && (
                        #[trigger] old(self).connections@[j]).state.participant_id == Some(
                            old(self).participants@[m].id,
                        );
                    assert(self.connections@[j].state.participant_id == Some(
                        self.participants@[m].id,
                    ));
                }
            }
            let r = self.broadcast_to_session(session_id, None, &frame);
            proof {
                let pre = *old(self);
                let post = *self;
                let st = pre.conn_state(connection_id);
                assert(post.sessions == pre.sessions);
                assert(post.messages == pre.messages);
                assert(post.connections@ == pre.connections@);
                assert(st.user is Some);
                assert(st.session_id == Some(session_id));
                let kk = pre.participant_idx(st.participant_id->0);
                assert(post.operations@ == pre.operations@);
                assert(post.next_operation_id == pre.next_operation_id);
                assert(post.participants@ == pre.participants@.update(
                    kk,
                    if operation_type == OperationType::Cursor {
                        (SessionParticipant {
                            cursor_position: position,
                            selection: content_snap,
                            ..pre.participants@[kk]
                        })
                    } else {
                        (SessionParticipant {
                            selection: content_snap,
                            ..pre.participants@[kk]
                        })
                    },
                ));
                assert(deliveries_view(r@) == spec_fanout(
                    post.connections@,
                    session_id,
                    None,
                    (FrameView::ServerOperation {
                        session_id,
                        user_id: st.user->0.user_id,
                        operation_type,
                        position,
                        content: opt_str_view(content_snap),
                        length,
                        file_id,
                        timestamp: now,
                    }),
                ));
            }
            return r;
        }
        let latest = self.latest_op_timestamp(session_id);
        let ts: i64 = match latest {
            Some(m) => {
                if m >= now {
                    if m == i64::MAX - 1 {
                        let mut r: Vec<Delivery> = Vec::new();
                        r.push(
                            Delivery {
                                to: connection_id,
                                frame: WsMessage::Error {
                                    code: "INTERNAL".to_owned(),
                                    message: "Operation clock exhausted".to_owned(),
                                },
                            },
                        );
                        proof {
                            assert(deliveries_view(r@) =~= seq![
                                (DeliveryView {
                                    to: connection_id,
                                    frame: (FrameView::Error {
                                        code: "INTERNAL"@,
                                        message: "Operation clock exhausted"@,
                                    }),
                                }),
                            ]);
                        }
                        return r;
                    }
                    proof {
                        lemma_latest_ts_bounds(self.operations@, session_id);
                        let k0 = choose|k0: int|
                            0 <= k0 < self.operations@.len() && (
                            #[trigger] self.operations@[k0]).session_id == session_id
                                && self.operations@[k0].timestamp == m;
                        assert(self.operations@[k0].timestamp < i64::MAX);
                    }
                    m + 1
                } else {
                    now
                }
            },
            None => now,
        };
        proof {
            lemma_latest_ts_bounds(self.operations@, session_id);
            assert(ts as int == spec_next_ts(old(self).operations@, session_id, now));
            assert forall|k: int|
                0 <= k < old(self).operations@.len() && (
                #[trigger] old(self).operations@[k]).session_id == session_id implies old(self).operations@[k].timestamp < ts by {}
        }
        let frame = WsMessage::ServerOperation {
            session_id,
            user_id,
            operation_type,
            position,
            content: crate::collaboration::clone_opt_string(&content),
            length,
            file_id,
            timestamp: ts,
        };
        let op = SessionOperation {
            id: self.next_operation_id,
            session_id,
            user_id,
            operation_type,
            file_id,
            position,
            length,
            content,
            timestamp: ts,
            applied: true,
            applied_at: Some(now),
            rejected: false,
            rejected_at: None,
            rejection_reason: None,
        };
        self.operations.push(op);
        self.next_operation_id = self.next_operation_id + 1;
        let r = self.broadcast_to_session(session_id, None, &frame);
        proof {
            let nlen = self.operations@.len();
            assert(self.operations@.last() == self.operations@[nlen - 1]);
            assert forall|j: int| 0 <= j < self.connections@.len() implies #[trigger] self
                .conn_entry_ok(j) by {
                assert(old(self).conn_entry_ok(j));
            }
            assert forall|m: int|
                0 <= m < self.participants@.len() && (
                #[trigger] self.participants@[m]).is_online implies exists|j: int|
                0 <= j < self.connections@.len() && (
                #[trigger] self.connections@[j]).state.participant_id == Some(
                    self.participants@[m].id,
                ) by {
                let j = choose|j: int|
                    0 <= j < old(self).connections@.len() && (
                    #[trigger] old(self).connections@[j]).state.participant_id == Some(
                        old(self).participants@[m].id,
                    );
                assert(self.connections@[j].state.participant_id == Some(
                    self.participants@[m].id,
                ));
            }
        }
        r
    }

    /// Relays a chat message: the caller must be authenticated and an
    /// online participant of the session. The message is persisted to
    /// the append-only chat log and fanned out to every subscriber of
    /// the session.
    #[verifier::spinoff_prover]
    pub fn handle_chat_message(
        &mut self,
        connection_id: u64,
        session_id: u64,
        content: String,
        message_type: MessageType,
        reply_to: Option<u64>,
        now: i64,
    ) -> (r: Vec<Delivery>)
        requires
            old(self).wf(),
            old(self).has_conn(connection_id),
            old(self).next_message_id < u64::MAX,
        ensures
            final(self).wf(),
            Self::spec_chat_post(
                *old(self),
                *final(self),
                connection_id,
                session_id,
                content,
                message_type,
                reply_to,
                now,
                r@,
            ),
    {
        let found = self.find_connection(connection_id);
        let ci = match found {
            Some(ci) => ci,
            None => {
                proof {
                    assert(false);
                }
                return Vec::new();
            },
        };
        proof {
            let c2 = old(self).conn_idx(connection_id);
            assert(0 <= c2 < old(self).connections@.len() && old(self).connections@[c2].connection_id == connection_id);
            assert(c2 == ci as int);
            assert(old(self).conn_entry_ok(ci as int));
        }
        let user_id = match &self.connections[ci].state.user {
            Some(u) => u.user_id,
            None => {
                let mut r: Vec<Delivery> = Vec::new();
                r.push(
                    Delivery {
                        to: connection_id,
                        frame: WsMessage::Error {
                            code: "UNAUTHORIZED".to_owned(),
                            message: "Not authenticated".to_owned(),
                        },
                    },
                );
                proof {
                    assert(deliveries_view(r@) =~= seq![
                        (DeliveryView {
                            to: connection_id,
                            frame: (FrameView::Error {
                                code: "UNAUTHORIZED"@,
                                message: "Not authenticated"@,
                            }),
                        }),
                    ]);
                }
                return r;
            },
        };
        let in_session = match self.connections[ci].state.session_id {
            Some(s) => s == session_id,
            None => false,
        };
        if !in_session {
            let mut r: Vec<Delivery> = Vec::new();
            r.push(
                Delivery {
                    to: connection_id,
                    frame: WsMessage::Error {
                        code: "UNAUTHORIZED".to_owned(),
                        message: "You must be a session participant to send messages".to_owned(),
                    },
                },
            );
            proof {
                assert(deliveries_view(r@) =~= seq![
                    (DeliveryView {
                        to: connection_id,
                        frame: (FrameView::Error {
                            code: "UNAUTHORIZED"@,
                            message: "You must be a session participant to send messages"@,
                        }),
                    }),
                ]);
            }
            return r;
        }
        let frame = WsMessage::ServerChatMessage {
            session_id,
            id: self.next_message_id,
            user_id,
            content: content.clone(),
            message_type,
            reply_to,
            timestamp: now,
        };
        let message = SessionMessage {
            id: self.next_message_id,
            session_id,
            user_id,
            message_type,
            content,
            reply_to,
            reactions: None,
            edited: false,
            edited_at: None,
            deleted: false,
            deleted_at: None,
            created_at: now,
        };
        self.messages.push(message);
        self.next_message_id = self.next_message_id + 1;
        let r = self.broadcast_to_session(session_id, None, &frame);
        proof {
            assert forall|j: int| 0 <= j < self.connections@.len() implies #[trigger] self
                .conn_entry_ok(j) by {
                assert(old(self).conn_entry_ok(j));
            }
            assert forall|m: int|
                0 <= m < self.participants@.len() && (
                #[trigger] self.participants@[m]).is_online implies exists|j: int|
                0 <= j < self.connections@.len() && (
                #[trigger] self.connections@[j]).state.participant_id == Some(
                    self.participants@[m].id,
                ) by {
                let j = choose|j: int|
                    0 <= j < old(self).connections@.len() && (
                    #[trigger] old(self).connections@[j]).state.participant_id == Some(
                        old(self).participants@[m].id,
                    );
                assert(self.connections@[j].state.participant_id == Some(
                    self.participants@[m].id,
                ));
            }
        }
        r
    }
    /// Fan-out ignores everything about a registry but the IDs and
    /// the subscription status of its entries.
    #[verifier::spinoff_prover]
    proof fn lemma_fanout_agrees(
        s1: Seq<ConnectionEntry>,
        s2: Seq<ConnectionEntry>,
        sid: u64,
        except: Option<u64>,
        frame: FrameView,
    )
        requires
            s1.len() == s2.len(),
            forall|i: int|
                0 <= i < s1.len() ==> (#[trigger] s1[i]).connection_id == (
                #[trigger] s2[i]).connection_id && ((s1[i].state.session_id == Some(sid)) == (
                s2[i].state.session_id == Some(sid))),
        ensures
            spec_fanout(s1, sid, except, frame) == spec_fanout(s2, sid, except, frame),
        decreases s1.len(),
    {
        if s1.len() > 0 {
            assert(forall|i: int|
                0 <= i < s1.len() - 1 ==> (#[trigger] s1.drop_last()[i]) == s1[i] && (
                #[trigger] s2.drop_last()[i]) == s2[i]);
            Self::lemma_fanout_agrees(s1.drop_last(), s2.drop_last(), sid, except, frame);
            assert(s1.last() == s1[s1.len() - 1]);
            assert(s2.last() == s2[s2.len() - 1]);
        }
    }

    /// Fan-out also ignores the subscription status of the excluded
    /// connection.
    #[verifier::spinoff_prover]
    proof fn lemma_fanout_agrees_except(
        s1: Seq<ConnectionEntry>,
        s2: Seq<ConnectionEntry>,
        sid: u64,
        except: u64,
        frame: FrameView,
    )
        requires
            s1.len() == s2.len(),
            forall|i: int|
                0 <= i < s1.len() ==> (#[trigger] s1[i]).connection_id == (
                #[trigger] s2[i]).connection_id && (s1[i].connection_id == except || ((
                s1[i].state.session_id == Some(sid)) == (s2[i].state.session_id == Some(sid)))),
        ensures
            spec_fanout(s1, sid, Some(except), frame) == spec_fanout(s2, sid, Some(except), frame),
        decreases s1.len(),
    {
        if s1.len() > 0 {
            assert(forall|i: int|
                0 <= i < s1.len() - 1 ==> (#[trigger] s1.drop_last()[i]) == s1[i] && (
                #[trigger] s2.drop_last()[i]) == s2[i]);
            Self::lemma_fanout_agrees_except(s1.drop_last(), s2.drop_last(), sid, except, frame);
            assert(s1.last() == s1[s1.len() - 1]);
            assert(s2.last() == s2[s2.len() - 1]);
        }
    }

    /// After appending the fresh participant row and pointing the
    /// joining connection at it, the invariant holds again.
    #[verifier::spinoff_prover]
    proof fn lemma_join_wf(self, mid: WsServerState, ci: int, session_id: u64, user_id: u64, now: i64)
        requires
            mid.wf(),
            0 <= ci < mid.connections@.len(),
            mid.connections@[ci].state.session_id is None,
            mid.connections@[ci].state.participant_id is None,
            mid.connections@[ci].state.user matches Some(u) && u.user_id == user_id,
            mid.connections@[ci].state.authenticated,
            !mid.has_online(session_id, user_id),
            mid.next_participant_id < u64::MAX,
            self.sessions == mid.sessions,
            self.operations == mid.operations,
            self.messages == mid.messages,
            self.next_session_id == mid.next_session_id,
            self.next_operation_id == mid.next_operation_id,
            self.next_message_id == mid.next_message_id,
            self.next_participant_id == mid.next_participant_id + 1,
            self.participants@.len() == mid.participants@.len() + 1,
            forall|k: int|
                0 <= k < mid.participants@.len() ==> (#[trigger] self.participants@[k])
                    == mid.participants@[k],
            self.participants@.last().id == mid.next_participant_id,
            self.participants@.last().is_online,
            self.participants@.last().session_id == session_id,
            self.participants@.last().user_id == user_id,
            self.connections@.len() == mid.connections@.len(),
            forall|i: int|
                0 <= i < mid.connections@.len() && i != ci ==> (#[trigger] self.connections@[i])
                    == mid.connections@[i],
            self.connections@[ci].connection_id == mid.connections@[ci].connection_id,
            self.connections@[ci].state == (ConnectionState {
                session_id: Some(session_id),
                participant_id: Some(mid.next_participant_id),
                last_heartbeat: now,
                ..mid.connections@[ci].state
            }),
        ensures
            self.wf(),
            self.has_online(session_id, user_id),
    {
        let last = self.participants@.len() - 1;
        assert(self.participants@[last] == self.participants@.last());
        assert forall|i: int, j: int|
            0 <= i < j < self.participants@.len() implies (#[trigger] self.participants@[i]).id < (
        #[trigger] self.participants@[j]).id by {
            if j < last {
                assert(mid.participants@[i].id < mid.participants@[j].id);
            } else {
                assert(self.participants@[i].id < mid.next_participant_id);
            }
        }
        assert forall|i: int, j: int|
            0 <= i < j < self.participants@.len() && (#[trigger] self.participants@[i]).is_online
                && (#[trigger] self.participants@[j]).is_online implies !(
        self.participants@[i].session_id == self.participants@[j].session_id
            && self.participants@[i].user_id == self.participants@[j].user_id) by {
            if j == last {
                if self.participants@[i].is_online && self.participants@[i].session_id
                    == session_id && self.participants@[i].user_id == user_id {
                    assert((#[trigger] mid.participants@[i]).is_online
                        && mid.participants@[i].session_id == session_id
                        && mid.participants@[i].user_id == user_id);
                    assert(false);
                }
            }
        }
        assert forall|i: int| 0 <= i < self.connections@.len() implies #[trigger] self.conn_entry_ok(
            i,
        ) by {
            assert(mid.conn_entry_ok(i));
            if i == ci {
                assert((#[trigger] self.participants@[last]).id == mid.next_participant_id
                    && self.participants@[last].is_online && self.participants@[last].session_id
                    == session_id && self.participants@[last].user_id == user_id);
            } else {
                if self.connections@[i].state.participant_id is Some {
                    let pj = self.connections@[i].state.participant_id->0;
                    let kj = choose|kj: int|
                        0 <= kj < mid.participants@.len() && (
                        #[trigger] mid.participants@[kj]).id == pj
                            && mid.participants@[kj].is_online && Some(
                            mid.participants@[kj].session_id,
                        ) == self.connections@[i].state.session_id;
                    assert(self.participants@[kj] == mid.participants@[kj]);
                }
            }
        }
        assert forall|i: int, j: int|
            0 <= i < j < self.connections@.len() && (
            #[trigger] self.connections@[i]).state.participant_id is Some && (
            #[trigger] self.connections@[j]).state.participant_id is Some implies self
            .connections@[i].state.participant_id != self.connections@[j].state.participant_id by {
            if i == ci || j == ci {
                let other = if i == ci {
                    j
                } else {
                    i
                };
                assert(mid.conn_entry_ok(other));
                if mid.connections@[other].state.participant_id is Some {
                    let po = mid.connections@[other].state.participant_id->0;
                    let ko = choose|ko: int|
                        0 <= ko < mid.participants@.len() && (
                        #[trigger] mid.participants@[ko]).id == po
                            && mid.participants@[ko].is_online;
                    assert(po < mid.next_participant_id);
                }
            }
        }
        assert forall|k: int|
            0 <= k < self.participants@.len() && (
            #[trigger] self.participants@[k]).is_online implies exists|i: int|
            0 <= i < self.connections@.len() && (
            #[trigger] self.connections@[i]).state.participant_id == Some(
                self.participants@[k].id,
            ) by {
            if k == last {
                assert(self.connections@[ci].state.participant_id == Some(
                    self.participants@[k].id,
                ));
            } else {
                let i = choose|i: int|
                    0 <= i < mid.connections@.len() && (
                    #[trigger] mid.connections@[i]).state.participant_id == Some(
                        mid.participants@[k].id,
                    );
                assert(i != ci);
                assert(self.connections@[i].state.participant_id == Some(
                    self.participants@[k].id,
                ));
            }
        }
        assert(self.has_online(session_id, user_id)) by {
            assert((#[trigger] self.participants@[last]).is_online
                && self.participants@[last].session_id == session_id
                && self.participants@[last].user_id == user_id);
        }
    }

    /// The number of online participant rows of session `session_id`.
    #[verifier::spinoff_prover]
    fn count_online(&self, session_id: u64) -> (r: usize)
        ensures
            r == spec_online_count(self.participants@, session_id),
    {
        let n = self.participants.len();
        let mut count: usize = 0;
        let mut i: usize = 0;
        while i < n
            invariant
                0 <= i <= n,
                n == self.participants@.len(),
                count == spec_online_count(self.participants@.take(i as int), session_id),
                count <= i,
            decreases n - i,
        {
            let p = &self.participants[i];
            if p.is_online && p.session_id == session_id {
                count = count + 1;
            }
            proof {
                assert(self.participants@.take(i + 1).drop_last() =~= self.participants@.take(
                    i as int,
                ));
                assert(self.participants@.take(i + 1).last() == self.participants@[i as int]);
            }
            i = i + 1;
        }
        proof {
            assert(self.participants@.take(n as int) =~= self.participants@);
        }
        count
    }

    /// Finds the store index of the online participant row of user
    /// `user_id` in session `session_id`.
    #[verifier::spinoff_prover]
    fn find_online_participant(&self, session_id: u64, user_id: u64) -> (r: Option<usize>)
        ensures
            match r {
                Some(k) => k < self.participants@.len() && self.participants@[k as int].is_online
                    && self.participants@[k as int].session_id == session_id
                    && self.participants@[k as int].user_id == user_id,
                None => !self.has_online(session_id, user_id),
            },
    {
        let n = self.participants.len();
        let mut k: usize = 0;
        while k < n
            invariant
                0 <= k <= n,
                n == self.participants@.len(),
                forall|m: int|
                    0 <= m < k ==> !((#[trigger] self.participants@[m]).is_online
                        && self.participants@[m].session_id == session_id
                        && self.participants@[m].user_id == user_id),
            decreases n - k,
        {
            let p = &self.participants[k];
            if p.is_online && p.session_id == session_id && p.user_id == user_id {
                return Some(k);
            }
            k = k + 1;
        }
        None
    }

    /// Finds the registry index of the connection referencing
    /// participant row `pid`.
    #[verifier::spinoff_prover]
    fn find_conn_by_pid(&self, pid: u64) -> (r: Option<usize>)
        ensures
            match r {
                Some(i) => i < self.connections@.len() && self.connections@[i as int]
                    .state.participant_id == Some(pid),
                None => forall|i: int|
                    0 <= i < self.connections@.len() ==> (
                    #[trigger] self.connections@[i]).state.participant_id != Some(pid),
            },
    {
        let n = self.connections.len();
        let mut i: usize = 0;
        while i < n
            invariant
                0 <= i <= n,
                n == self.connections@.len(),
                forall|m: int|
                    0 <= m < i ==> (#[trigger] self.connections@[m]).state.participant_id != Some(
                        pid,
                    ),
            decreases n - i,
        {
            let matches_pid = match self.connections[i].state.participant_id {
                Some(p) => p == pid,
                None => false,
            };
            if matches_pid {
                return Some(i);
            }
            i = i + 1;
        }
        None
    }

    /// Handles a join request. The session must exist, be active,
    /// and, when password-protected, be given a matching credential;
    /// all three failures are answered identically, so that a wrong
    /// password is indistinguishable from an unknown session. A full
    /// session refuses a new member with a conflict. On success the
    /// caller's previous membership is closed, any stale online row
    /// of the same user in the session is superseded, a fresh online
    /// participant row is created, the other subscribers see a
    /// participant update, and the caller receives the session record
    /// with its roster.
    #[verifier::rlimit(100)]
    #[verifier::spinoff_prover]
    pub fn handle_session_join(
        &mut self,
        connection_id: u64,
        session_id: u64,
        user_id: u64,
        role: ParticipantRole,
        password: Option<String>,
        now: i64,
    ) -> (r: Vec<Delivery>)
        requires
            old(self).wf(),
            old(self).has_conn(connection_id),
            old(self).conn_state(connection_id).user matches Some(u) && u.user_id == user_id,
            old(self).next_participant_id < u64::MAX,
        ensures
            final(self).wf(),
            Self::spec_join_post(
                *old(self),
                *final(self),
                connection_id,
                session_id,
                user_id,
                role,
                password,
                now,
                r@,
            ),
    {
        let found = self.find_connection(connection_id);
        let ci = match found {
            Some(ci) => ci,
            None => {
                proof {
                    assert(false);
                }
                return Vec::new();
            },
        };
        proof {
            let c2 = old(self).conn_idx(connection_id);
            assert(0 <= c2 < old(self).connections@.len() && old(self).connections@[c2].connection_id == connection_id);
            assert(c2 == ci as int);
            assert(old(self).conn_entry_ok(ci as int));
        }
        // validate the session and the credential
        let sfound = self.find_session(session_id);
        let mut ok = false;
        let mut full = false;
        match sfound {
            Some(si) => {
                proof {
                    let s2 = old(self).session_idx(session_id);
                    assert(0 <= s2 < old(self).sessions@.len() && old(self).sessions@[s2].id
                        == session_id);
                    assert(s2 == si as int);
                }
                let session = &self.sessions[si];
                if session.is_active {
                    let pw_ok = match &session.password_hash {
                        Some(h) => match &password {
                            Some(p) => verify_bcrypt(p.as_str(), h.as_str()),
                            None => false,
                        },
                        None => true,
                    };
                    if pw_ok {
                        let already = self.find_online_participant(session_id, user_id);
                        match already {
                            Some(_) => {
                                ok = true;
                            },
                            None => {
                                let count = self.count_online(session_id);
                                if count >= (session.max_participants as usize) {
                                    full = true;
                                } else {
                                    ok = true;
                                }
                            },
                        }
                    }
                }
            },
            None => {},
        }
        if !ok {
            let mut r: Vec<Delivery> = Vec::new();
            let code = if full {
                "CONFLICT".to_owned()
            } else {
                "NOT_FOUND".to_owned()
            };
            let message = if full {
                "Session is full".to_owned()
            } else {
                let mut m = "CollaborationSession not found: ".to_owned();
                m.append(decimal_string(session_id).as_str());
                m
            };
            r.push(Delivery { to: connection_id, frame: WsMessage::Error { code, message } });
            proof {
                if full {
                    assert(deliveries_view(r@) =~= seq![
                        (DeliveryView {
                            to: connection_id,
                            frame: (FrameView::Error {
                                code: "CONFLICT"@,
                                message: "Session is full"@,
                            }),
                        }),
                    ]);
                } else {
                    assert(deliveries_view(r@) =~= seq![
                        (DeliveryView {
                            to: connection_id,
                            frame: (FrameView::Error {
                                code: "NOT_FOUND"@,
                                message: "CollaborationSession not found: "@ + spec_decimal(
                                    session_id as nat,
                                ),
                            }),
                        }),
                    ]);
                }
            }
            return r;
        }
        let ghost init = *old(self);
        let ghost st0 = old(self).conn_state(connection_id);
        // close the caller's previous membership, quietly for now
        let detached = self.detach(ci, now);
        let ghost mid1 = *self;
        // tell the old session, unless the caller is rejoining it
        let mut r: Vec<Delivery> = Vec::new();
        match detached {
            Some((osid, _ouid)) => {
                if osid != session_id {
                    let frame = WsMessage::ParticipantLeft { session_id: osid, user_id };
                    let mut d1 = self.broadcast_to_session(osid, None, &frame);
                    r.append(&mut d1);
                }
            },
            None => {},
        }
        let ghost r1 = r@;
        let ghost mut stale_k: Option<int> = None;
        let ghost mut kicked_ci: Option<int> = None;
        // supersede any stale online row of the same user
        let stale_row = self.find_online_participant(session_id, user_id);
        match stale_row {
            Some(k) => {
                let pid = self.participants[k].id;
                let cfound = self.find_conn_by_pid(pid);
                match cfound {
                    Some(cj) => {
                        proof {
                            assert(cj != ci) by {
                                assert(self.connections@[ci as int].state.participant_id
                                    is None);
                            }
                            stale_k = Some(k as int);
                            kicked_ci = Some(cj as int);
                        }
                        let kicked = self.detach(cj, now);
                        proof {
                            assert(kicked is Some);
                            assert(mid1.participant_idx(pid) == k as int) by {
                                assert(mid1.has_participant(pid));
                                let k2 = mid1.participant_idx(pid);
                                assert(0 <= k2 < mid1.participants@.len()
                                    && mid1.participants@[k2].id == pid);
                            }
                        }
                    },
                    None => {
                        proof {
                            assert((#[trigger] self.participants@[k as int]).is_online);
                            assert(exists|j: int|
                                0 <= j < self.connections@.len() && (
                                #[trigger] self.connections@[j]).state.participant_id == Some(
                                    self.participants@[k as int].id,
                                ));
                            assert(false);
                        }
                    },
                }
            },
            None => {},
        }
        let ghost mid2 = *self;
        proof {
            assert(!mid2.has_online(session_id, user_id));
        }
        // create the fresh membership
        let row = SessionParticipant {
            id: self.next_participant_id,
            session_id,
            user_id,
            role,
            joined_at: now,
            left_at: None,
            cursor_position: None,
            selection: None,
            is_online: true,
            last_seen_at: now,
            permissions: None,
        };
        let update_frame = WsMessage::ParticipantUpdate {
            session_id,
            participant: row.duplicate(),
        };
        let mut d2 = self.broadcast_to_session(session_id, Some(connection_id), &update_frame);
        let ghost d2_snap = d2@;
        self.participants.push(row);
        self.connections[ci].state.session_id = Some(session_id);
        self.connections[ci].state.participant_id = Some(self.next_participant_id);
        self.connections[ci].state.last_heartbeat = now;
        self.next_participant_id = self.next_participant_id + 1;
        proof {
            self.lemma_join_wf(mid2, ci as int, session_id, user_id, now);
        }
        // reply with the session record and the current roster
        let si = match self.find_session(session_id) {
            Some(si) => si,
            None => {
                proof {
                    let s2 = old(self).session_idx(session_id);
                    assert(0 <= s2 < old(self).sessions@.len() && old(self).sessions@[s2].id
                        == session_id);
                    assert(false);
                }
                0
            },
        };
        let roster = self.get_active_participants(session_id);
        let joined_frame = WsMessage::SessionJoined {
            session_id,
            participants: roster,
            session_info: self.sessions[si].duplicate(),
        };
        let ghost d3v = (DeliveryView { to: connection_id, frame: joined_frame@ });
        r.append(&mut d2);
        r.push(Delivery { to: connection_id, frame: joined_frame });
        proof {
            let finals = *self;
            assert(init.conn_idx(connection_id) == ci as int);
            assert(st0 == init.connections@[ci as int].state);
            // where each registry entry ended up
            assert(finals.connections@.len() == init.connections@.len());
            assert forall|i: int|
                0 <= i < init.connections@.len() implies (#[trigger] finals
                .connections@[i]).connection_id == init.connections@[i].connection_id by {
                if i != ci {
                    if kicked_ci == Some(i) {
                        assert(mid2.connections@[i].connection_id
                            == mid1.connections@[i].connection_id);
                    }
                }
            }
            // the joined-session reply
            assert(si as int == init.session_idx(session_id)) by {
                let s2 = init.session_idx(session_id);
                assert(0 <= s2 < init.sessions@.len() && init.sessions@[s2].id == session_id);
            }
            assert(d3v == (DeliveryView {
                to: connection_id,
                frame: (FrameView::SessionJoined {
                    session_id,
                    participants: spec_roster(finals.participants@, session_id),
                    session_info: init.session_at(session_id)@,
                }),
            }));
            // the participant-update fan-out agrees between the state it
            // was computed in and the final state
            assert(deliveries_view(d2_snap) == spec_fanout(
                finals.connections@,
                session_id,
                Some(connection_id),
                (FrameView::ParticipantUpdate {
                    session_id,
                    participant: finals.participants@.last()@,
                }),
            )) by {
                assert(update_frame@ == (FrameView::ParticipantUpdate {
                    session_id,
                    participant: finals.participants@.last()@,
                }));
                Self::lemma_fanout_agrees_except(
                    mid2.connections@,
                    finals.connections@,
                    session_id,
                    connection_id,
                    update_frame@,
                );
            }
            // the departure fan-out, if any, agrees too
            match st0.session_id {
                Some(osid) => {
                    if osid != session_id {
                        assert(deliveries_view(r1) == spec_fanout(
                            finals.connections@,
                            osid,
                            None,
                            (FrameView::ParticipantLeft { session_id: osid, user_id }),
                        )) by {
                            assert forall|i: int|
                                0 <= i < mid1.connections@.len() implies (#[trigger] mid1
                                .connections@[i]).connection_id == (#[trigger] finals
                                .connections@[i]).connection_id && ((
                            mid1.connections@[i].state.session_id == Some(osid)) == (
                            finals.connections@[i].state.session_id == Some(osid))) by {
                                if i == ci {
                                } else if kicked_ci == Some(i) {
                                    assert(mid1.conn_entry_ok(i));
                                    assert(mid1.connections@[i].state.session_id == Some(
                                        session_id,
                                    ));
                                }
                            }
                            Self::lemma_fanout_agrees(
                                mid1.connections@,
                                finals.connections@,
                                osid,
                                None,
                                (FrameView::ParticipantLeft { session_id: osid, user_id }),
                            );
                        }
                    } else {
                        assert(r1 =~= Seq::<Delivery>::empty());
                    }
                },
                None => {
                    assert(r1 =~= Seq::<Delivery>::empty());
                },
            }
            assert(deliveries_view(r@) =~= deliveries_view(r1) + deliveries_view(d2_snap)
                + seq![d3v]);
            // which participant rows changed, and how
            assert forall|k: int|
                0 <= k < init.participants@.len() implies (#[trigger] finals.participants@[k])
                == init.participants@[k] || (init.participants@[k].is_online
                && finals.participants@[k] == spec_offline(init.participants@[k], now) && (Some(
                init.participants@[k].id,
            ) == st0.participant_id || (init.participants@[k].session_id == session_id
                && init.participants@[k].user_id == user_id))) by {
                if finals.participants@[k] != init.participants@[k] {
                    if stale_k == Some(k) {
                        assert(mid1.participants@[k].is_online
                            && mid1.participants@[k].session_id == session_id
                            && mid1.participants@[k].user_id == user_id);
                        assert(mid1.participants@[k] == init.participants@[k]);
                        assert(finals.participants@[k] == spec_offline(
                            init.participants@[k],
                            now,
                        ));
                    } else {
                        assert(mid2.participants@[k] == mid1.participants@[k]);
                        assert(mid1.participants@[k] != init.participants@[k]);
                        assert(st0.participant_id matches Some(pid0)
                            && init.has_participant(pid0) && k == init.participant_idx(pid0));
                        assert(init.participants@[k].id == st0.participant_id->0);
                        assert(init.conn_entry_ok(ci as int));
                        assert(init.participants@[k].is_online);
                        assert(finals.participants@[k] == spec_offline(
                            init.participants@[k],
                            now,
                        ));
                    }
                }
            }
            assert((#[trigger] finals.connections@[ci as int]).connection_id == connection_id);
            // which registry entries changed, and how
            assert forall|i: int|
                0 <= i < init.connections@.len() && i != ci implies (#[trigger] finals
                .connections@[i]) == init.connections@[i] || (finals.connections@[i]
                == (ConnectionEntry {
                connection_id: init.connections@[i].connection_id,
                state: (ConnectionState {
                    session_id: None,
                    participant_id: None,
                    ..init.connections@[i].state
                }),
            }) && init.connections@[i].state.session_id == Some(session_id)) by {
                if finals.connections@[i] != init.connections@[i] {
                    assert(kicked_ci == Some(i));
                    assert(mid1.connections@[i] == init.connections@[i]);
                    assert(mid1.conn_entry_ok(i));
                    assert(mid1.connections@[i].state.session_id == Some(session_id));
                }
            }
        }
        r
    }
    /// Creates a collaboration session owned by `created_by`. A
    /// requested password is stored only as a bcrypt hash that
    /// verifies against it; a request without a password always
    /// succeeds, and one with a password fails only when the
    /// randomness source behind the hashing does, in which case
    /// nothing is stored.
    #[verifier::spinoff_prover]
    pub fn create_session(
        &mut self,
        created_by: u64,
        project_id: u64,
        create: CreateCollaborationSession,
        now: i64,
    ) -> (r: Result<u64, AppError>)
        requires
            old(self).wf(),
            old(self).next_session_id < u64::MAX,
        ensures
            final(self).wf(),
            final(self).participants == old(self).participants,
            final(self).operations == old(self).operations,
            final(self).messages == old(self).messages,
            final(self).connections == old(self).connections,
            final(self).next_participant_id == old(self).next_participant_id,
            final(self).next_operation_id == old(self).next_operation_id,
            final(self).next_message_id == old(self).next_message_id,
            create.password is None ==> r is Ok,
            match r {
                Ok(sid) => {
                    &&& sid == old(self).next_session_id
                    &&& final(self).next_session_id == old(self).next_session_id + 1
                    &&& final(self).sessions@.len() == old(self).sessions@.len() + 1
                    &&& forall|i: int|
                        0 <= i < old(self).sessions@.len() ==> (#[trigger] final(self).sessions@[i]) == old(self).sessions@[i]
                    &&& ({
                        let s = final(self).sessions@.last();
                        &&& s.id == sid
                        &&& s.project_id == project_id
                        &&& s.file_id == create.file_id
                        &&& s.created_by == created_by
                        &&& s.session_type == (match create.session_type {
                            Some(t) => t,
                            None => SessionType::Realtime,
                        })
                        &&& s@.title == view_opt_str(create.title)
                        &&& s@.description == view_opt_str(create.description)
                        &&& s.is_active
                        &&& s.max_participants == (match create.max_participants {
                            Some(m) => m,
                            None => 10u32,
                        })
                        &&& (match create.password {
                            Some(p) => s@.password_hash matches Some(h) && bcrypt_matches(p@, h),
                            None => s@.password_hash is None,
                        })
                        &&& s@.settings == view_opt_str(create.settings)
                        &&& s.started_at is None
                        &&& s.ended_at is None
                        &&& s.created_at == now
                        &&& s.updated_at == now
                    })
                },
                Err(e) => {
                    &&& create.password is Some
                    &&& e matches AppError::Bcrypt(_)
                    &&& final(self).sessions == old(self).sessions
                    &&& final(self).next_session_id == old(self).next_session_id
                },
            },
    {
        let password_hash: Option<String> = match &create.password {
            Some(p) => match hash_bcrypt(p.as_str()) {
                Ok(h) => Some(h),
                Err(msg) => {
                    return Err(AppError::Bcrypt(msg));
                },
            },
            None => None,
        };
        let sid = self.next_session_id;
        let session = CollaborationSession {
            id: sid,
            project_id,
            file_id: create.file_id,
            created_by,
            session_type: match create.session_type {
                Some(t) => t,
                None => SessionType::Realtime,
            },
            title: create.title,
            description: create.description,
            is_active: true,
            max_participants: match create.max_participants {
                Some(m) => m,
                None => 10,
            },
            password_hash,
            settings: create.settings,
            started_at: None,
            ended_at: None,
            created_at: now,
            updated_at: now,
        };
        self.sessions.push(session);
        self.next_session_id = self.next_session_id + 1;
        proof {
            let last = self.sessions@.len() - 1;
            assert(self.sessions@[last] == self.sessions@.last());
            assert forall|i: int, j: int|
                0 <= i < j < self.sessions@.len() implies (#[trigger] self.sessions@[i]).id < (
            #[trigger] self.sessions@[j]).id by {
                if j < last {
                    assert(old(self).sessions@[i].id < old(self).sessions@[j].id);
                }
            }
            assert forall|i: int| 0 <= i < self.connections@.len() implies #[trigger] self
                .conn_entry_ok(i) by {
                assert(old(self).conn_entry_ok(i));
            }
            assert forall|k: int|
                0 <= k < self.participants@.len() && (
                #[trigger] self.participants@[k]).is_online implies exists|i: int|
                0 <= i < self.connections@.len() && (
                #[trigger] self.connections@[i]).state.participant_id == Some(
                    self.participants@[k].id,
                ) by {
                let i = choose|i: int|
                    0 <= i < old(self).connections@.len() && (
                    #[trigger] old(self).connections@[i]).state.participant_id == Some(
                        old(self).participants@[k].id,
                    );
                assert(self.connections@[i].state.participant_id == Some(
                    self.participants@[k].id,
                ));
            }
        }
        Ok(sid)
    }

    /// Applies the identity verifier's answer for a connection. A
    /// granted identity marks the connection authenticated; a
    /// rejection reports the failure, and the connection stays open
    /// either way. A connection that re-authenticates while joined to
    /// a session first leaves it, with the usual broadcast.
    #[verifier::spinoff_prover]
    pub fn handle_authenticate(
        &mut self,
        connection_id: u64,
        outcome: Result<AuthContext, String>,
        now: i64,
    ) -> (r: Vec<Delivery>)
        requires
            old(self).wf(),
            old(self).has_conn(connection_id),
        ensures
            final(self).wf(),
            final(self).sessions == old(self).sessions,
            final(self).operations == old(self).operations,
            final(self).messages == old(self).messages,
            final(self).next_session_id == old(self).next_session_id,
            final(self).next_participant_id == old(self).next_participant_id,
            final(self).next_operation_id == old(self).next_operation_id,
            final(self).next_message_id == old(self).next_message_id,
            final(self).has_conn(connection_id),
            match outcome {
                Ok(ctx) => {
                    &&& final(self).conn_state(connection_id) == (ConnectionState {
                        user: Some(ctx),
                        session_id: None,
                        participant_id: None,
                        last_heartbeat: now,
                        authenticated: true,
                    })
                    &&& deliveries_view(r@).last() == (DeliveryView {
                        to: connection_id,
                        frame: (FrameView::AuthResult {
                            success: true,
                            user: Some(ctx@),
                            error: None,
                        }),
                    })
                    &&& old(self).conn_state(connection_id).session_id is None ==> r@.len() == 1
                        && final(self).participants@ == old(self).participants@
                },
                Err(msg) => {
                    &&& final(self).connections@ == old(self).connections@
                    &&& final(self).participants@ == old(self).participants@
                    &&& deliveries_view(r@) == seq![
                        (DeliveryView {
                            to: connection_id,
                            frame: (FrameView::AuthResult {
                                success: false,
                                user: None,
                                error: Some("Authentication failed: "@ + msg@),
                            }),
                        }),
                    ]
                },
            },
    {
        match outcome {
            Ok(ctx) => {
                let mut r = self.handle_session_leave(connection_id, now);
                let found = self.find_connection(connection_id);
                let ci = match found {
                    Some(ci) => ci,
                    None => {
                        proof {
                            assert(old(self).has_conn(connection_id));
                            let c0 = old(self).conn_idx(connection_id);
                            assert(0 <= c0 < old(self).connections@.len() && old(self).connections@[c0].connection_id == connection_id);
                            if old(self).conn_state(connection_id).session_id is None {
                                assert(self.connections@ == old(self).connections@);
                            } else {
                                assert(self.connections@[c0].connection_id == connection_id);
                            }
                            assert(false);
                        }
                        return Vec::new();
                    },
                };
                let ghost mid = *self;
                let reply = WsMessage::AuthResult {
                    success: true,
                    user: Some(ctx.duplicate()),
                    error: None,
                };
                proof {
                    assert(mid.conn_entry_ok(ci as int));
                    assert(mid.connections@[ci as int].state.session_id is None) by {
                        if old(self).conn_state(connection_id).session_id is None {
                            assert(old(self).conn_entry_ok(old(self).conn_idx(connection_id)));
                            assert(mid.connections@ == old(self).connections@);
                            let c0 = old(self).conn_idx(connection_id);
                            assert(c0 == ci as int);
                        } else {
                            let c0 = old(self).conn_idx(connection_id);
                            assert(c0 == ci as int);
                        }
                    }
                }
                self.connections[ci].state.user = Some(ctx);
                self.connections[ci].state.authenticated = true;
                self.connections[ci].state.last_heartbeat = now;
                proof {
                    assert forall|j: int| 0 <= j < self.connections@.len() implies #[trigger] self
                        .conn_entry_ok(j) by {
                        assert(mid.conn_entry_ok(j));
                        if j != ci {
                            assert(self.connections@[j] == mid.connections@[j]);
                        }
                    }
                    assert forall|k: int|
                        0 <= k < self.participants@.len() && (
                        #[trigger] self.participants@[k]).is_online implies exists|i: int|
                        0 <= i < self.connections@.len() && (
                        #[trigger] self.connections@[i]).state.participant_id == Some(
                            self.participants@[k].id,
                        ) by {
                        let i = choose|i: int|
                            0 <= i < mid.connections@.len() && (
                            #[trigger] mid.connections@[i]).state.participant_id == Some(
                                mid.participants@[k].id,
                            );
                        assert(i != ci) by {
                            assert(mid.connections@[ci as int].state.participant_id is None);
                        }
                        assert(self.connections@[i].state.participant_id == Some(
                            self.participants@[k].id,
                        ));
                    }
                    assert(self.conn_idx(connection_id) == ci as int) by {
                        let c2 = self.conn_idx(connection_id);
                        assert(self.connections@[ci as int].connection_id == connection_id);
                        assert(0 <= c2 < self.connections@.len()
                            && self.connections@[c2].connection_id == connection_id);
                    }
                }
                r.push(Delivery { to: connection_id, frame: reply });
                proof {
                    assert(deliveries_view(r@) =~= deliveries_view(r@.drop_last()).push(
                        r@.last()@,
                    ));
                }
                r
            },
            Err(msg) => {
                let mut error_text = "Authentication failed: ".to_owned();
                error_text.append(msg.as_str());
                let mut r: Vec<Delivery> = Vec::new();
                r.push(
                    Delivery {
                        to: connection_id,
                        frame: WsMessage::AuthResult {
                            success: false,
                            user: None,
                            error: Some(error_text),
                        },
                    },
                );
                proof {
                    assert(deliveries_view(r@) =~= seq![
                        (DeliveryView {
                            to: connection_id,
                            frame: (FrameView::AuthResult {
                                success: false,
                                user: None,
                                error: Some("Authentication failed: "@ + msg@),
                            }),
                        }),
                    ]);
                }
                r
            },
        }
    }

    /// Dispatches one decoded client frame. Session-scoped commands
    /// from a connection that has not authenticated are answered with
    /// an error and the connection stays registered; `Authenticate`
    /// itself is resolved by the transport through
    /// [`Self::handle_authenticate`] and ignored here, as are frames
    /// that only the server may send.
    #[verifier::spinoff_prover]
    pub fn handle_ws_message(&mut self, connection_id: u64, message: WsMessage, now: i64) -> (r:
        Vec<Delivery>)
        requires
            old(self).wf(),
            old(self).has_conn(connection_id),
            old(self).next_participant_id < u64::MAX,
            old(self).next_operation_id < u64::MAX,
            old(self).next_message_id < u64::MAX,
            now < i64::MAX,
        ensures
            final(self).wf(),
            final(self).has_conn(connection_id),
            final(self).sessions == old(self).sessions,
            final(self).next_session_id == old(self).next_session_id,
            // frames the engine does not act on leave everything unchanged
            (message matches WsMessage::Authenticate { .. } || message
                matches WsMessage::AuthResult { .. } || message
                matches WsMessage::SessionJoined { .. } || message
                matches WsMessage::ParticipantUpdate { .. } || message
                matches WsMessage::ParticipantLeft { .. } || message
                matches WsMessage::ServerOperation { .. } || message
                matches WsMessage::ServerChatMessage { .. } || message
                matches WsMessage::SessionStatus { .. } || message
                matches WsMessage::Error { .. } || message matches WsMessage::Pong) ==> (final(self).connections@ == old(self).connections@ && final(self).participants@ == old(self).participants@ && final(self).operations@ == old(self).operations@ && final(self).messages@ == old(self).messages@ && r@.len() == 0),
            // a ping is answered with a pong and nothing else
            message matches WsMessage::Ping ==> (final(self).connections@ == old(self).connections@ && final(self).participants@ == old(self).participants@ && final(self).operations@ == old(self).operations@ && final(self).messages@ == old(self).messages@ && deliveries_view(r@) == seq![
                (DeliveryView { to: connection_id, frame: FrameView::Pong }),
            ]),
            // session-scoped commands before authentication fail with an
            // error and the connection stays open and untouched
            ((message matches WsMessage::JoinSession { .. } || message
                matches WsMessage::Operation { .. } || message matches WsMessage::Cursor { .. }
                || message matches WsMessage::ChatMessage { .. }) && old(self).conn_state(
                connection_id,
            ).user is None) ==> (final(self).connections@ == old(self).connections@ && final(self).participants@ == old(self).participants@ && final(self).operations@ == old(self).operations@ && final(self).messages@ == old(self).messages@ && deliveries_view(r@)
                == seq![
                (DeliveryView {
                    to: connection_id,
                    frame: (FrameView::Error {
                        code: "UNAUTHORIZED"@,
                        message: "Not authenticated"@,
                    }),
                }),
            ]),
            // an explicit leave from a connection that never joined
            // changes nothing and is not an error
            (message matches WsMessage::LeaveSession && old(self).conn_state(
                connection_id,
            ).session_id is None) ==> (final(self).connections@ == old(self).connections@
                && final(self).participants@ == old(self).participants@ && final(self).operations@ == old(self).operations@ && final(self).messages@ == old(self).messages@ && r@.len() == 0),
            // each acted-on frame gets exactly the corresponding
            // handler's behaviour
            message matches WsMessage::LeaveSession ==> Self::spec_leave_post(
                *old(self),
                *final(self),
                connection_id,
                now,
                r@,
            ),
            message matches WsMessage::JoinSession { session_id, role, password } ==> (old(self).conn_state(connection_id).user matches Some(u) ==> Self::spec_join_post(
                *old(self),
                *final(self),
                connection_id,
                session_id,
                u.user_id,
                role,
                password,
                now,
                r@,
            )),
            message matches WsMessage::Operation {
                session_id,
                operation_type,
                position,
                content,
                length,
                file_id,
            } ==> Self::spec_operation_post(
                *old(self),
                *final(self),
                connection_id,
                session_id,
                operation_type,
                position,
                content,
                length,
                file_id,
                now,
                r@,
            ),
            message matches WsMessage::Cursor { session_id, position, selection } ==> (
            Self::spec_operation_post(
                *old(self),
                *final(self),
                connection_id,
                session_id,
                OperationType::Cursor,
                Some(position),
                selection,
                None,
                None,
                now,
                r@,
            )),
            message matches WsMessage::ChatMessage {
                session_id,
                content,
                message_type,
                reply_to,
            } ==> Self::spec_chat_post(
                *old(self),
                *final(self),
                connection_id,
                session_id,
                content,
                message_type,
                reply_to,
                now,
                r@,
            ),
    {
        proof {
            let c0 = old(self).conn_idx(connection_id);
            assert(0 <= c0 < old(self).connections@.len() && old(self).connections@[c0].connection_id == connection_id);
            assert(old(self).conn_entry_ok(c0));
        }
        match message {
            WsMessage::JoinSession { session_id, role, password } => {
                let found = self.find_connection(connection_id);
                let ci = match found {
                    Some(ci) => ci,
                    None => {
                        proof {
                            assert(false);
                        }
                        return Vec::new();
                    },
                };
                proof {
                    let c0 = old(self).conn_idx(connection_id);
                    assert(c0 == ci as int);
                }
                let user_id = match &self.connections[ci].state.user {
                    Some(u) => u.user_id,
                    None => {
                        let mut r: Vec<Delivery> = Vec::new();
                        r.push(
                            Delivery {
                                to: connection_id,
                                frame: WsMessage::Error {
                                    code: "UNAUTHORIZED".to_owned(),
                                    message: "Not authenticated".to_owned(),
                                },
                            },
                        );
                        proof {
                            assert(deliveries_view(r@) =~= seq![
                                (DeliveryView {
                                    to: connection_id,
                                    frame: (FrameView::Error {
                                        code: "UNAUTHORIZED"@,
                                        message: "Not authenticated"@,
                                    }),
                                }),
                            ]);
                        }
                        return r;
                    },
                };
                self.handle_session_join(connection_id, session_id, user_id, role, password, now)
            },
            WsMessage::LeaveSession => self.handle_session_leave(connection_id, now),
            WsMessage::Operation {
                session_id,
                operation_type,
                position,
                content,
                length,
                file_id,
            } => {
                proof {
                    let c0 = old(self).conn_idx(connection_id);
                    assert(old(self).conn_state(connection_id)
                        == old(self).connections@[c0].state);
                }
                self.handle_operation(
                    connection_id,
                    session_id,
                    operation_type,
                    position,
                    content,
                    length,
                    file_id,
                    now,
                )
            },
            WsMessage::Cursor { session_id, position, selection } => {
                self.handle_operation(
                    connection_id,
                    session_id,
                    OperationType::Cursor,
                    Some(position),
                    selection,
                    None,
                    None,
                    now,
                )
            },
            WsMessage::ChatMessage { session_id, content, message_type, reply_to } => {
                self.handle_chat_message(
                    connection_id,
                    session_id,
                    content,
                    message_type,
                    reply_to,
                    now,
                )
            },
            WsMessage::Ping => {
                let mut r: Vec<Delivery> = Vec::new();
                r.push(Delivery { to: connection_id, frame: WsMessage::Pong });
                proof {
                    assert(deliveries_view(r@) =~= seq![
                        (DeliveryView { to: connection_id, frame: FrameView::Pong }),
                    ]);
                }
                r
            },
            _ => Vec::new(),
        }
    }

    /// The users reported online by the session store for session
    /// `sid`.
    pub open spec fn online_users(self, sid: u64) -> Set<u64> {
        Set::new(|uid: u64| self.has_online(sid, uid))
    }

    /// The users whose connections are currently subscribed to
    /// session `sid`'s channel.
    pub open spec fn subscribed_users(self, sid: u64) -> Set<u64> {
        Set::new(
            |uid: u64|
                exists|i: int|
                    0 <= i < self.connections@.len() && (
                    #[trigger] self.connections@[i]).state.session_id == Some(sid)
                        && (self.connections@[i].state.user matches Some(u) && u.user_id == uid),
        )
    }

    /// In every well-formed state, the set of users the store reports
    /// online for a session is exactly the set of users subscribed to
    /// the session's channel: persisted membership and in-memory
    /// subscriptions never drift apart.
    #[verifier::spinoff_prover]
    pub proof fn lemma_no_membership_drift(self, sid: u64)
        requires
            self.wf(),
        ensures
            self.online_users(sid) =~= self.subscribed_users(sid),
    {
        assert forall|uid: u64| self.online_users(sid).contains(uid) implies self.subscribed_users(
            sid,
        ).contains(uid) by {
            let k = choose|k: int|
                0 <= k < self.participants@.len() && (#[trigger] self.participants@[k]).is_online
                    && self.participants@[k].session_id == sid && self.participants@[k].user_id
                    == uid;
            let i = choose|i: int|
                0 <= i < self.connections@.len() && (
                #[trigger] self.connections@[i]).state.participant_id == Some(
                    self.participants@[k].id,
                );
            assert(self.conn_entry_ok(i));
            let kw = choose|kw: int|
                0 <= kw < self.participants@.len() && (#[trigger] self.participants@[kw]).id
                    == self.connections@[i].state.participant_id->0
                    && self.participants@[kw].is_online && Some(
                    self.participants@[kw].session_id,
                ) == self.connections@[i].state.session_id;
            assert(kw == k);
            assert((#[trigger] self.connections@[i]).state.session_id == Some(sid) && (
            self.connections@[i].state.user matches Some(u) && u.user_id == uid));
        }
        assert forall|uid: u64| self.subscribed_users(sid).contains(uid) implies self.online_users(
            sid,
        ).contains(uid) by {
            let i = choose|i: int|
                0 <= i < self.connections@.len() && (
                #[trigger] self.connections@[i]).state.session_id == Some(sid) && (
                self.connections@[i].state.user matches Some(u) && u.user_id == uid);
            assert(self.conn_entry_ok(i));
            let kw = choose|kw: int|
                0 <= kw < self.participants@.len() && (#[trigger] self.participants@[kw]).id
                    == self.connections@[i].state.participant_id->0
                    && self.participants@[kw].is_online && Some(
                    self.participants@[kw].session_id,
                ) == self.connections@[i].state.session_id;
            assert((#[trigger] self.participants@[kw]).is_online
                && self.participants@[kw].session_id == sid && self.participants@[kw].user_id
                == uid);
        }
    }

    /// In every well-formed state, the operations persisted for a
    /// session carry strictly increasing timestamps in log order: the
    /// persisted order and the timestamp order agree.
    #[verifier::spinoff_prover]
    pub proof fn lemma_operations_totally_ordered(self, i: int, j: int)
        requires
            self.wf(),
            0 <= i < j < self.operations@.len(),
            self.operations@[i].session_id == self.operations@[j].session_id,
        ensures
            self.operations@[i].timestamp < self.operations@[j].timestamp,
    {
    }
    /// Builds one delivery of `frame` for every connection subscribed
    /// to session `session_id`, leaving out `except`. An empty
    /// subscriber set yields an empty batch: publishing to a session
    /// nobody subscribes to is not an error.
    #[verifier::spinoff_prover]
    pub fn broadcast_to_session(
        &self,
        session_id: u64,
        except: Option<u64>,
        frame: &WsMessage,
    ) -> (r: Vec<Delivery>)
        ensures
            deliveries_view(r@) == spec_fanout(self.connections@, session_id, except, frame@),
    {
        let n = self.connections.len();
        let mut r: Vec<Delivery> = Vec::new();
        let mut i: usize = 0;
        while i < n
            invariant
                0 <= i <= n,
                n == self.connections@.len(),
                deliveries_view(r@) == spec_fanout(
                    self.connections@.take(i as int),
                    session_id,
                    except,
                    frame@,
                ),
            decreases n - i,
        {
            let entry = &self.connections[i];
            let ghost prev = r@;
            let subscribed = match entry.state.session_id {
                Some(s) => s == session_id,
                None => false,
            };
            let excluded = match except {
                Some(e) => e == entry.connection_id,
                None => false,
            };
            if subscribed && !excluded {
                r.push(Delivery { to: entry.connection_id, frame: frame.duplicate() });
                proof {
                    assert(deliveries_view(r@) =~= deliveries_view(prev).push(
                        DeliveryView { to: entry.connection_id, frame: frame@ },
                    ));
                }
            }
            proof {
                assert(self.connections@.take(i + 1).drop_last() =~= self.connections@.take(
                    i as int,
                ));
                assert(self.connections@.take(i + 1).last() == self.connections@[i as int]);
            }
            i = i + 1;
        }
        proof {
            assert(self.connections@.take(n as int) =~= self.connections@);
        }
        r
    }
}

impl ConnectionState {
    /// The zero-valued state of a connection registered at `now`.
    pub open spec fn spec_new(now: i64) -> ConnectionState {
        ConnectionState {
            user: None,
            session_id: None,
            participant_id: None,
            last_heartbeat: now,
            authenticated: false,
        }
    }
}

} // verus!
