//! The room actor's state and its request handlers.
//!
//! A [`Room`] owns one room's participant roster and visibility flag.  Each
//! handler is a pure state transition: it mutates the room and reports the
//! response, the broadcasts to fan out, and whether a delayed removal probe
//! must be scheduled.  The unverified runtime delivers requests one at a
//! time, so the contracts here describe the full per-request timeline.

use vstd::prelude::*;

use crate::channel::{EstimateVisibility, RoomBroadcastMessage, RoomRequest, RoomResponse};
use crate::estimate::Estimate;

verus! {

/// Stable identity a session layer assigns to one connected client.
pub type SessionId = u128;

/// Registry key of a room.
pub type RoomId = String;

/// Presence of a participant inside a room's lifetime: `Left` marks a
/// participant whose removal probe is pending and who may still return.
#[derive(Clone, Copy, Debug, PartialEq, Eq, Structural)]
pub enum ParticipantStatus {
    Online,
    Left,
}

/// Per-room identity record of one session.  Identity is the `session_id`
/// alone; the other fields are mutated in place by the owning room.
#[derive(Debug)]
pub struct Participant {
    pub session_id: SessionId,
    pub name: String,
    pub estimate: Estimate,
    pub status: ParticipantStatus,
}

impl Participant {
    /// A freshly joining participant: no estimate cast yet, online.
    pub fn new(session_id: SessionId, name: String) -> (p: Participant)
        ensures
            p.session_id == session_id,
            p.name == name,
            p.estimate == Estimate::Unset,
            p.status == ParticipantStatus::Online,
    {
        Participant { session_id, name, estimate: Estimate::Unset, status: ParticipantStatus::Online }
    }
}

impl Clone for Participant {
    fn clone(&self) -> (r: Self)
        ensures
            r == *self,
    {
        Participant {
            session_id: self.session_id,
            name: self.name.clone(),
            estimate: self.estimate,
            status: self.status,
        }
    }
}

/// No two roster entries share a session id.
pub open spec fn wf_participants(ps: Seq<Participant>) -> bool {
    forall|i: int, j: int|
        0 <= i < j < ps.len() ==> (#[trigger] ps[i]).session_id != (#[trigger] ps[j]).session_id
}

/// Whether some roster entry carries this session id.
pub open spec fn ps_has_session(ps: Seq<Participant>, sid: SessionId) -> bool {
    exists|i: int| 0 <= i < ps.len() && (#[trigger] ps[i]).session_id == sid
}

/// Index of the roster entry with this session id; meaningful only when
/// `ps_has_session` holds and the roster is well formed.
pub open spec fn session_index(ps: Seq<Participant>, sid: SessionId) -> int {
    choose|i: int| 0 <= i < ps.len() && (#[trigger] ps[i]).session_id == sid
}

/// On a well-formed roster the session index is the one matching position.
pub proof fn lemma_session_index_unique(ps: Seq<Participant>, sid: SessionId, i: int)
    requires
        wf_participants(ps),
        0 <= i < ps.len(),
        ps[i].session_id == sid,
    ensures
        session_index(ps, sid) == i,
        ps_has_session(ps, sid),
{
    assert(ps_has_session(ps, sid));
    let j = session_index(ps, sid);
    if i < j {
        assert(ps[i].session_id != ps[j].session_id);
    } else if j < i {
        assert(ps[j].session_id != ps[i].session_id);
    }
}

/// Roster after a join: a present session is refreshed in place (back
/// online, name updated, estimate kept); a new session is appended as given.
pub open spec fn join_model(ps: Seq<Participant>, p: Participant) -> Seq<Participant> {
    if ps_has_session(ps, p.session_id) {
        let i = session_index(ps, p.session_id);
        ps.update(
            i,
            Participant {
                session_id: ps[i].session_id,
                name: p.name,
                estimate: ps[i].estimate,
                status: ParticipantStatus::Online,
            },
        )
    } else {
        ps.push(p)
    }
}

/// Roster after a leave: the session, if present, is marked `Left` but not
/// yet removed.
pub open spec fn leave_model(ps: Seq<Participant>, sid: SessionId) -> Seq<Participant> {
    if ps_has_session(ps, sid) {
        let i = session_index(ps, sid);
        ps.update(
            i,
            Participant {
                session_id: ps[i].session_id,
                name: ps[i].name,
                estimate: ps[i].estimate,
                status: ParticipantStatus::Left,
            },
        )
    } else {
        ps
    }
}

/// Roster after the delayed removal: the entry goes away only if it is still
/// marked `Left`; a session that reconnected in the meantime stays.
pub open spec fn remove_model(ps: Seq<Participant>, sid: SessionId) -> Seq<Participant> {
    if ps_has_session(ps, sid) && ps[session_index(ps, sid)].status == ParticipantStatus::Left {
        ps.remove(session_index(ps, sid))
    } else {
        ps
    }
}

/// Broadcasts of the delayed removal: exactly one `Left` event when the
/// entry is deleted, none otherwise.
pub open spec fn remove_broadcasts(ps: Seq<Participant>, sid: SessionId) -> Seq<
    RoomBroadcastMessage,
> {
    if ps_has_session(ps, sid) && ps[session_index(ps, sid)].status == ParticipantStatus::Left {
        seq![RoomBroadcastMessage::Left(sid)]
    } else {
        Seq::empty()
    }
}

/// Roster after a heartbeat: a session marked `Left` flips back to
/// `Online`, cancelling its pending removal; anything else is untouched.
pub open spec fn heartbeat_model(ps: Seq<Participant>, sid: SessionId) -> Seq<Participant> {
    if ps_has_session(ps, sid) && ps[session_index(ps, sid)].status == ParticipantStatus::Left {
        let i = session_index(ps, sid);
        ps.update(
            i,
            Participant {
                session_id: ps[i].session_id,
                name: ps[i].name,
                estimate: ps[i].estimate,
                status: ParticipantStatus::Online,
            },
        )
    } else {
        ps
    }
}

/// Roster after a cast estimate: the named session's estimate is replaced;
/// a stale session id changes nothing.
pub open spec fn estimate_model(ps: Seq<Participant>, sid: SessionId, e: Estimate) -> Seq<
    Participant,
> {
    if ps_has_session(ps, sid) {
        let i = session_index(ps, sid);
        ps.update(
            i,
            Participant {
                session_id: ps[i].session_id,
                name: ps[i].name,
                estimate: e,
                status: ps[i].status,
            },
        )
    } else {
        ps
    }
}

/// Roster after a name change: the named session's display name is
/// replaced; a stale session id changes nothing.
pub open spec fn rename_model(ps: Seq<Participant>, sid: SessionId, name: String) -> Seq<
    Participant,
> {
    if ps_has_session(ps, sid) {
        let i = session_index(ps, sid);
        ps.update(
            i,
            Participant {
                session_id: ps[i].session_id,
                name: name,
                estimate: ps[i].estimate,
                status: ps[i].status,
            },
        )
    } else {
        ps
    }
}

/// Roster after `DeleteEstimates`: every entry's estimate is reset to
/// `Unset`; names, statuses and order are kept.
pub open spec fn clear_estimates_model(ps: Seq<Participant>) -> Seq<Participant> {
    ps.map_values(
        |q: Participant|
            Participant {
                session_id: q.session_id,
                name: q.name,
                estimate: Estimate::Unset,
                status: q.status,
            },
    )
}

/// Broadcasts of a join: exactly one `Joined` event for a new session,
/// none when a present session merely reconnects.
pub open spec fn join_broadcasts(ps: Seq<Participant>, p: Participant) -> Seq<
    RoomBroadcastMessage,
> {
    if ps_has_session(ps, p.session_id) {
        Seq::empty()
    } else {
        seq![RoomBroadcastMessage::Joined(p)]
    }
}

/// Broadcasts of a cast estimate: exactly one `ParticipantUpdate` carrying
/// the updated entry, none for a stale session id.
pub open spec fn estimate_broadcasts(ps: Seq<Participant>, sid: SessionId, e: Estimate) -> Seq<
    RoomBroadcastMessage,
> {
    if ps_has_session(ps, sid) {
        let i = session_index(ps, sid);
        seq![
            RoomBroadcastMessage::ParticipantUpdate(
                Participant {
                    session_id: ps[i].session_id,
                    name: ps[i].name,
                    estimate: e,
                    status: ps[i].status,
                },
            ),
        ]
    } else {
        Seq::empty()
    }
}

/// Broadcasts of a name change: exactly one `ParticipantUpdate` carrying
/// the updated entry, none for a stale session id.
pub open spec fn rename_broadcasts(ps: Seq<Participant>, sid: SessionId, name: String) -> Seq<
    RoomBroadcastMessage,
> {
    if ps_has_session(ps, sid) {
        let i = session_index(ps, sid);
        seq![
            RoomBroadcastMessage::ParticipantUpdate(
                Participant {
                    session_id: ps[i].session_id,
                    name: name,
                    estimate: ps[i].estimate,
                    status: ps[i].status,
                },
            ),
        ]
    } else {
        Seq::empty()
    }
}

/// Roster transition of one request, whichever variant it is.
pub open spec fn step_participants(ps: Seq<Participant>, request: RoomRequest) -> Seq<
    Participant,
> {
    match request {
        RoomRequest::Join(p) => join_model(ps, p),
        RoomRequest::Leave(sid) => leave_model(ps, sid),
        RoomRequest::Remove(sid) => remove_model(ps, sid),
        RoomRequest::SendEstimate(sid, e) => estimate_model(ps, sid, e),
        RoomRequest::ChangeVisibility => ps,
        RoomRequest::DeleteEstimates => clear_estimates_model(ps),
        RoomRequest::Heartbeat(sid) => heartbeat_model(ps, sid),
        RoomRequest::NameChange(sid, name) => rename_model(ps, sid, name),
    }
}

/// Visibility transition of one request: toggled by `ChangeVisibility`,
/// forced to `Hidden` by `DeleteEstimates`, untouched by everything else.
pub open spec fn step_visibility(vis: EstimateVisibility, request: RoomRequest) -> EstimateVisibility {
    match request {
        RoomRequest::ChangeVisibility => vis.toggle_spec(),
        RoomRequest::DeleteEstimates => EstimateVisibility::Hidden,
        _ => vis,
    }
}

/// The exact broadcasts one request emits, in order.
pub open spec fn step_broadcasts(
    ps: Seq<Participant>,
    vis: EstimateVisibility,
    request: RoomRequest,
) -> Seq<RoomBroadcastMessage> {
    match request {
        RoomRequest::Join(p) => join_broadcasts(ps, p),
        RoomRequest::Leave(_) => Seq::empty(),
        RoomRequest::Remove(sid) => remove_broadcasts(ps, sid),
        RoomRequest::SendEstimate(sid, e) => estimate_broadcasts(ps, sid, e),
        RoomRequest::ChangeVisibility => seq![
            RoomBroadcastMessage::ChangedVisibility(vis.toggle_spec()),
        ],
        RoomRequest::DeleteEstimates => seq![RoomBroadcastMessage::EstimatesDeleted],
        RoomRequest::Heartbeat(_) => Seq::empty(),
        RoomRequest::NameChange(sid, name) => rename_broadcasts(ps, sid, name),
    }
}

/// Which session, if any, gets a delayed removal probe out of this request:
/// only a leave of a present session schedules one.
pub open spec fn step_probe(ps: Seq<Participant>, request: RoomRequest) -> Option<SessionId> {
    match request {
        RoomRequest::Leave(sid) => if ps_has_session(ps, sid) {
            Some(sid)
        } else {
            None
        },
        _ => None,
    }
}

/// Updating one roster entry without changing its session id keeps the
/// roster well formed and every session at its position.
pub proof fn lemma_update_same_sid_wf(ps: Seq<Participant>, i: int, q: Participant)
    requires
        wf_participants(ps),
        0 <= i < ps.len(),
        q.session_id == ps[i].session_id,
    ensures
        wf_participants(ps.update(i, q)),
        ps_has_session(ps.update(i, q), q.session_id),
        session_index(ps.update(i, q), q.session_id) == i,
{
    let after = ps.update(i, q);
    assert forall|a: int, b: int|
        0 <= a < b < after.len() implies (#[trigger] after[a]).session_id
        != (#[trigger] after[b]).session_id by {
        assert(after[a].session_id == ps[a].session_id);
        assert(after[b].session_id == ps[b].session_id);
    }
    lemma_session_index_unique(after, q.session_id, i);
}

/// The cumulative roster after a sequence of joins into a fresh room.
pub open spec fn join_all(requests: Seq<Participant>) -> Seq<Participant>
    decreases requests.len(),
{
    if requests.len() == 0 {
        Seq::empty()
    } else {
        join_model(join_all(requests.drop_last()), requests.last())
    }
}

/// For any sequence of join requests with distinct session ids into a fresh
/// room, the final roster — and so the snapshot the last join returns — is
/// exactly those participants, in join order.  Fresh participants are built
/// online, so the roster then holds exactly those session ids with status
/// `Online`.
pub proof fn lemma_join_all_distinct(requests: Seq<Participant>)
    requires
        forall|i: int, j: int|
            0 <= i < j < requests.len() ==> (#[trigger] requests[i]).session_id != (
            #[trigger] requests[j]).session_id,
    ensures
        join_all(requests) =~= requests,
    decreases requests.len(),
{
    if requests.len() > 0 {
        let front = requests.drop_last();
        let last = requests.last();
        lemma_join_all_distinct(front);
        assert(!ps_has_session(front, last.session_id));
        assert(join_all(requests) =~= front.push(last));
        assert(front.push(last) =~= requests);
    }
}

/// Re-joining with a session id already in the roster never duplicates the
/// participant: the roster keeps its length and order, the entry's name is
/// updated, its status returns to `Online`, and its estimate is kept.
pub proof fn lemma_rejoin_no_duplicate(ps: Seq<Participant>, p: Participant)
    requires
        wf_participants(ps),
        ps_has_session(ps, p.session_id),
    ensures
        ({
            let i = session_index(ps, p.session_id);
            let after = join_model(ps, p);
            &&& after.len() == ps.len()
            &&& after[i].session_id == p.session_id
            &&& after[i].name == p.name
            &&& after[i].status == ParticipantStatus::Online
            &&& after[i].estimate == ps[i].estimate
            &&& forall|j: int| 0 <= j < ps.len() && j != i ==> (#[trigger] after[j]) == ps[j]
            &&& wf_participants(after)
        }),
{
    let i = session_index(ps, p.session_id);
    let after = join_model(ps, p);
    lemma_update_same_sid_wf(ps, i, after[i]);
}

/// A cast estimate is immediately observable: the cast emits exactly one
/// `ParticipantUpdate` carrying the new value, and the roster snapshot a
/// subsequent re-join returns shows that session with that estimate.
pub proof fn lemma_estimate_then_rejoin(
    ps: Seq<Participant>,
    sid: SessionId,
    e: Estimate,
    p: Participant,
)
    requires
        wf_participants(ps),
        ps_has_session(ps, sid),
        p.session_id == sid,
    ensures
        ({
            let cast = estimate_model(ps, sid, e);
            let roster = join_model(cast, p);
            &&& estimate_broadcasts(ps, sid, e).len() == 1
            &&& (estimate_broadcasts(ps, sid, e)[0] matches RoomBroadcastMessage::ParticipantUpdate(
                q,
            ) && q.session_id == sid && q.estimate == e)
            &&& ps_has_session(roster, sid)
            &&& roster[session_index(roster, sid)].estimate == e
        }),
{
    let i = session_index(ps, sid);
    let cast = estimate_model(ps, sid, e);
    lemma_update_same_sid_wf(ps, i, cast[i]);
    let roster = join_model(cast, p);
    lemma_update_same_sid_wf(cast, i, roster[i]);
}

/// `DeleteEstimates` resets every entry's estimate to `Unset` regardless of
/// prior state, while keeping ids, names, statuses and order.
pub proof fn lemma_delete_estimates_resets(ps: Seq<Participant>)
    ensures
        clear_estimates_model(ps).len() == ps.len(),
        forall|j: int|
            0 <= j < ps.len() ==> {
                let q = #[trigger] clear_estimates_model(ps)[j];
                &&& q.estimate == Estimate::Unset
                &&& q.session_id == ps[j].session_id
                &&& q.name == ps[j].name
                &&& q.status == ps[j].status
            },
{
}

/// A heartbeat that arrives before the probe window closes cancels the
/// pending removal: the session is back online, the later `Remove` request
/// is a no-op, and no `Left` broadcast ever fires for it.  A session that
/// was online before its leave is restored exactly.
pub proof fn lemma_heartbeat_cancels_removal(ps: Seq<Participant>, sid: SessionId)
    requires
        wf_participants(ps),
        ps_has_session(ps, sid),
    ensures
        ({
            let gone = leave_model(ps, sid);
            let back = heartbeat_model(gone, sid);
            &&& ps_has_session(back, sid)
            &&& back[session_index(back, sid)].status == ParticipantStatus::Online
            &&& remove_model(back, sid) =~= back
            &&& remove_broadcasts(back, sid) =~= Seq::<RoomBroadcastMessage>::empty()
            &&& (ps[session_index(ps, sid)].status == ParticipantStatus::Online ==> back =~= ps)
        }),
{
    let i = session_index(ps, sid);
    let gone = leave_model(ps, sid);
    lemma_update_same_sid_wf(ps, i, gone[i]);
    let back = heartbeat_model(gone, sid);
    lemma_update_same_sid_wf(gone, i, back[i]);
}

/// A leave with no heartbeat within the probe window schedules exactly one
/// probe, and the removal that follows deletes the entry, emits exactly one
/// `Left` broadcast, and leaves the session absent from every later roster
/// snapshot.
pub proof fn lemma_unanswered_probe_removes(ps: Seq<Participant>, sid: SessionId)
    requires
        wf_participants(ps),
        ps_has_session(ps, sid),
    ensures
        ({
            let gone = leave_model(ps, sid);
            let after = remove_model(gone, sid);
            &&& step_probe(ps, RoomRequest::Leave(sid)) == Some(sid)
            &&& remove_broadcasts(gone, sid) =~= seq![RoomBroadcastMessage::Left(sid)]
            &&& !ps_has_session(after, sid)
            &&& after.len() == ps.len() - 1
        }),
{
    let i = session_index(ps, sid);
    let gone = leave_model(ps, sid);
    lemma_update_same_sid_wf(ps, i, gone[i]);
    let after = remove_model(gone, sid);
    assert(after =~= gone.remove(i));
    assert forall|k: int| 0 <= k < after.len() implies (#[trigger] after[k]).session_id != sid by {
        let k0 = if k < i {
            k
        } else {
            k + 1
        };
        assert(after[k] == gone[k0]);
        if k0 < i {
            assert(gone[k0].session_id != gone[i].session_id);
        } else {
            assert(gone[i].session_id != gone[k0].session_id);
        }
    }
}

/// Everything one request produces besides the state change: the reply for
/// the caller's one-shot slot, the broadcasts to fan out in order, and the
/// session whose delayed removal probe must now be scheduled, if any.
#[derive(Debug)]
pub struct RoomOutcome {
    pub response: RoomResponse,
    pub broadcasts: Vec<RoomBroadcastMessage>,
    pub probe: Option<SessionId>,
}

/// One room's authoritative state.  The runtime gives each room to exactly
/// one actor task, which is the only writer.
#[derive(Debug)]
pub struct Room {
    pub room_id: RoomId,
    pub visibility: EstimateVisibility,
    pub participants: Vec<Participant>,
}

impl Room {
    /// Roster entries never share a session id.
    pub open spec fn wf(self) -> bool {
        wf_participants(self.participants@)
    }

    pub open spec fn has_session(self, sid: SessionId) -> bool {
        ps_has_session(self.participants@, sid)
    }

    /// A fresh room: empty roster, estimates hidden.
    pub fn new(room_id: RoomId) -> (r: Room)
        ensures
            r.room_id == room_id,
            r.visibility == EstimateVisibility::Hidden,
            r.participants@ =~= Seq::<Participant>::empty(),
            r.wf(),
    {
        Room { room_id, visibility: EstimateVisibility::Hidden, participants: Vec::new() }
    }

    /// Position of the roster entry with this session id.
    fn find_index(&self, sid: SessionId) -> (r: Option<usize>)
        requires
            self.wf(),
        ensures
            match r {
                Some(i) => {
                    &&& i < self.participants@.len()
                    &&& self.participants@[i as int].session_id == sid
                    &&& session_index(self.participants@, sid) == i
                    &&& self.has_session(sid)
                },
                None => !self.has_session(sid),
            },
    {
        let n = self.participants.len();
        let mut i: usize = 0;
        while i < n
            invariant
                n == self.participants@.len(),
                i <= n,
                self.wf(),
                forall|j: int| 0 <= j < i ==> (#[trigger] self.participants@[j]).session_id != sid,
            decreases n - i,
        {
            if self.participants[i].session_id == sid {
                proof {
                    lemma_session_index_unique(self.participants@, sid, i as int);
                }
                return Some(i);
            }
            i = i + 1;
        }
        None
    }

    /// A copy of the roster, for the `RoomState` reply.
    fn roster_snapshot(&self) -> (r: Vec<Participant>)
        ensures
            r@ =~= self.participants@,
    {
        let n = self.participants.len();
        let mut r: Vec<Participant> = Vec::new();
        let mut i: usize = 0;
        while i < n
            invariant
                n == self.participants@.len(),
                i <= n,
                r@ =~= self.participants@.take(i as int),
            decreases n - i,
        {
            r.push(self.participants[i].clone());
            proof {
                assert(r@ =~= self.participants@.take(i + 1));
            }
            i = i + 1;
        }
        proof {
            assert(self.participants@.take(n as int) =~= self.participants@);
        }
        r
    }

    /// The self-eviction check the room runs on every timer tick: a room
    /// with nobody in it asks the pool to shut it down.
    pub fn is_room_empty(&self) -> (r: bool)
        ensures
            r == (self.participants@.len() == 0),
    {
        self.participants.len() == 0
    }

    /// Handles `Join`: a present session is refreshed in place (reconnect),
    /// a new one is appended and announced; either way the caller gets the
    /// full roster snapshot and the current visibility.
    pub fn join_participant(&mut self, p: Participant) -> (out: RoomOutcome)
        requires
            old(self).wf(),
        ensures
            final(self).wf(),
            final(self).room_id == old(self).room_id,
            final(self).visibility == old(self).visibility,
            final(self).participants@ =~= join_model(old(self).participants@, p),
            (out.response matches RoomResponse::RoomState(ros, vis) && ros@
                =~= final(self).participants@ && vis == final(self).visibility),
            out.broadcasts@ =~= join_broadcasts(old(self).participants@, p),
            out.probe is None,
    {
        let mut broadcasts: Vec<RoomBroadcastMessage> = Vec::new();
        match self.find_index(p.session_id) {
            Some(i) => {
                self.participants[i].status = ParticipantStatus::Online;
                self.participants[i].name = p.name;
            },
            None => {
                let ghost ps0 = self.participants@;
                broadcasts.push(RoomBroadcastMessage::Joined(p.clone()));
                self.participants.push(p);
                proof {
                    assert forall|i: int, j: int|
                        0 <= i < j < self.participants@.len() implies (#[trigger] self.participants@[i]).session_id
                        != (#[trigger] self.participants@[j]).session_id by {
                        if j == ps0.len() {
                            assert(!ps_has_session(ps0, self.participants@[j].session_id));
                        }
                    }
                }
            },
        }
        let response = RoomResponse::RoomState(self.roster_snapshot(), self.visibility);
        RoomOutcome { response, broadcasts, probe: None }
    }

    /// Handles `Leave`: marks the session `Left` (no removal yet) and asks
    /// the runtime to schedule the delayed removal probe.  The caller is
    /// acknowledged at once so it never hangs on the reply slot.
    pub fn leave_participant(&mut self, sid: SessionId) -> (out: RoomOutcome)
        requires
            old(self).wf(),
        ensures
            final(self).wf(),
            final(self).room_id == old(self).room_id,
            final(self).visibility == old(self).visibility,
            final(self).participants@ =~= leave_model(old(self).participants@, sid),
            out.broadcasts@ =~= Seq::<RoomBroadcastMessage>::empty(),
            out.probe == step_probe(old(self).participants@, RoomRequest::Leave(sid)),
            out.response == RoomResponse::Ack,
    {
        let probe: Option<SessionId> = match self.find_index(sid) {
            Some(i) => {
                self.participants[i].status = ParticipantStatus::Left;
                Some(sid)
            },
            None => None,
        };
        RoomOutcome { response: RoomResponse::Ack, broadcasts: Vec::new(), probe }
    }

    /// Handles the internal `Remove` a probe sends back: deletes the entry
    /// and announces `Left` only if the session is still marked `Left`; a
    /// session that reconnected in the meantime is kept untouched.
    pub fn remove_participant(&mut self, sid: SessionId) -> (out: RoomOutcome)
        requires
            old(self).wf(),
        ensures
            final(self).wf(),
            final(self).room_id == old(self).room_id,
            final(self).visibility == old(self).visibility,
            final(self).participants@ =~= remove_model(old(self).participants@, sid),
            out.broadcasts@ =~= remove_broadcasts(old(self).participants@, sid),
            out.probe is None,
            out.response == RoomResponse::Ack,
    {
        let mut broadcasts: Vec<RoomBroadcastMessage> = Vec::new();
        match self.find_index(sid) {
            Some(i) => {
                if self.participants[i].status == ParticipantStatus::Left {
                    let ghost ps0 = self.participants@;
                    self.participants.remove(i);
                    broadcasts.push(RoomBroadcastMessage::Left(sid));
                    proof {
                        assert forall|a: int, b: int|
                            0 <= a < b < self.participants@.len() implies (#[trigger] self.participants@[a]).session_id
                            != (#[trigger] self.participants@[b]).session_id by {
                            let a0 = if a < i { a } else { a + 1 };
                            let b0 = if b < i { b } else { b + 1 };
                            assert(self.participants@[a] == ps0[a0]);
                            assert(self.participants@[b] == ps0[b0]);
                        }
                    }
                }
            },
            None => {},
        }
        RoomOutcome { response: RoomResponse::Ack, broadcasts, probe: None }
    }

    /// Handles `Heartbeat`: a session still marked `Left` is flipped back
    /// to `Online`, cancelling its pending removal.  No broadcast.
    pub fn heartbeat_participant(&mut self, sid: SessionId) -> (out: RoomOutcome)
        requires
            old(self).wf(),
        ensures
            final(self).wf(),
            final(self).room_id == old(self).room_id,
            final(self).visibility == old(self).visibility,
            final(self).participants@ =~= heartbeat_model(old(self).participants@, sid),
            out.broadcasts@ =~= Seq::<RoomBroadcastMessage>::empty(),
            out.probe is None,
            out.response == RoomResponse::Ack,
    {
        match self.find_index(sid) {
            Some(i) => {
                if self.participants[i].status == ParticipantStatus::Left {
                    self.participants[i].status = ParticipantStatus::Online;
                }
            },
            None => {},
        }
        RoomOutcome { response: RoomResponse::Ack, broadcasts: Vec::new(), probe: None }
    }

    /// Handles `SendEstimate`: replaces the session's estimate and announces
    /// the updated entry; a stale session id is logged upstream and
    /// discarded here without crashing the room.
    pub fn send_estimate(&mut self, sid: SessionId, e: Estimate) -> (out: RoomOutcome)
        requires
            old(self).wf(),
        ensures
            final(self).wf(),
            final(self).room_id == old(self).room_id,
            final(self).visibility == old(self).visibility,
            final(self).participants@ =~= estimate_model(old(self).participants@, sid, e),
            out.broadcasts@ =~= estimate_broadcasts(old(self).participants@, sid, e),
            out.probe is None,
            out.response == RoomResponse::Ack,
    {
        let mut broadcasts: Vec<RoomBroadcastMessage> = Vec::new();
        match self.find_index(sid) {
            Some(i) => {
                self.participants[i].estimate = e;
                broadcasts.push(self.participants[i].clone().into_update_message());
            },
            None => {},
        }
        RoomOutcome { response: RoomResponse::Ack, broadcasts, probe: None }
    }

    /// Handles `NameChange`: replaces the session's display name and
    /// announces the updated entry; a stale session id changes nothing.
    pub fn change_participant_name(&mut self, sid: SessionId, new_name: String) -> (out:
        RoomOutcome)
        requires
            old(self).wf(),
        ensures
            final(self).wf(),
            final(self).room_id == old(self).room_id,
            final(self).visibility == old(self).visibility,
            final(self).participants@ =~= rename_model(old(self).participants@, sid, new_name),
            out.broadcasts@ =~= rename_broadcasts(old(self).participants@, sid, new_name),
            out.probe is None,
            out.response == RoomResponse::Ack,
    {
        let mut broadcasts: Vec<RoomBroadcastMessage> = Vec::new();
        match self.find_index(sid) {
            Some(i) => {
                self.participants[i].name = new_name;
                broadcasts.push(self.participants[i].clone().into_update_message());
            },
            None => {},
        }
        RoomOutcome { response: RoomResponse::Ack, broadcasts, probe: None }
    }

    /// Resets every participant's estimate to `Unset`.  The `DeleteEstimates`
    /// request additionally hides the estimates and broadcasts once; see
    /// [`Room::update_room`].
    pub fn delete_estimates(&mut self)
        requires
            old(self).wf(),
        ensures
            final(self).wf(),
            final(self).room_id == old(self).room_id,
            final(self).visibility == old(self).visibility,
            final(self).participants@ =~= clear_estimates_model(old(self).participants@),
    {
        let n = self.participants.len();
        let mut i: usize = 0;
        while i < n
            invariant
                n == self.participants@.len(),
                n == old(self).participants@.len(),
                i <= n,
                self.room_id == old(self).room_id,
                self.visibility == old(self).visibility,
                forall|j: int|
                    0 <= j < i ==> (#[trigger] self.participants@[j]) == (Participant {
                        session_id: old(self).participants@[j].session_id,
                        name: old(self).participants@[j].name,
                        estimate: Estimate::Unset,
                        status: old(self).participants@[j].status,
                    }),
                forall|j: int|
                    i <= j < n ==> (#[trigger] self.participants@[j]) == old(
                        self,
                    ).participants@[j],
            decreases n - i,
        {
            self.participants[i].estimate = Estimate::Unset;
            i = i + 1;
        }
        proof {
            assert(final(self).participants@ =~= clear_estimates_model(old(self).participants@));
        }
    }

    /// Processes one request from the mailbox: dispatches on the variant,
    /// mutates the room, and reports the response, the broadcasts, and any
    /// removal probe to schedule.
    pub fn update_room(&mut self, request: RoomRequest) -> (out: RoomOutcome)
        requires
            old(self).wf(),
        ensures
            final(self).wf(),
            final(self).room_id == old(self).room_id,
            final(self).participants@ =~= step_participants(old(self).participants@, request),
            final(self).visibility == step_visibility(old(self).visibility, request),
            out.broadcasts@ =~= step_broadcasts(
                old(self).participants@,
                old(self).visibility,
                request,
            ),
            out.probe == step_probe(old(self).participants@, request),
            (request matches RoomRequest::Join(_) ==> (out.response
                matches RoomResponse::RoomState(ros, vis) && ros@ =~= final(self).participants@
                && vis == final(self).visibility)),
            !(request matches RoomRequest::Join(_)) ==> out.response == RoomResponse::Ack,
    {
        match request {
            RoomRequest::Join(p) => self.join_participant(p),
            RoomRequest::Leave(sid) => self.leave_participant(sid),
            RoomRequest::Remove(sid) => self.remove_participant(sid),
            RoomRequest::SendEstimate(sid, e) => self.send_estimate(sid, e),
            RoomRequest::ChangeVisibility => {
                self.visibility = self.visibility.toggle();
                let mut broadcasts: Vec<RoomBroadcastMessage> = Vec::new();
                broadcasts.push(RoomBroadcastMessage::ChangedVisibility(self.visibility));
                RoomOutcome { response: RoomResponse::Ack, broadcasts, probe: None }
            },
            RoomRequest::DeleteEstimates => {
                self.delete_estimates();
                self.visibility = EstimateVisibility::Hidden;
                let mut broadcasts: Vec<RoomBroadcastMessage> = Vec::new();
                broadcasts.push(RoomBroadcastMessage::EstimatesDeleted);
                RoomOutcome { response: RoomResponse::Ack, broadcasts, probe: None }
            },
            RoomRequest::Heartbeat(sid) => self.heartbeat_participant(sid),
            RoomRequest::NameChange(sid, new_name) => self.change_participant_name(sid, new_name),
        }
    }
}

impl Participant {
    /// The broadcast that announces this entry's new state.
    fn into_update_message(self) -> (r: RoomBroadcastMessage)
        ensures
            r == RoomBroadcastMessage::ParticipantUpdate(self),
    {
        RoomBroadcastMessage::ParticipantUpdate(self)
    }
}

/// The detached probe a leave schedules, as the runtime must play it out:
/// after the grace interval the room-wide heartbeat request goes to every
/// subscriber, and after the second interval the removal request re-enters
/// the same mailbox, where it can no longer race a heartbeat destructively.
pub fn cleanup_probe_plan(sid: SessionId) -> (r: (RoomBroadcastMessage, RoomRequest))
    ensures
        r.0 == RoomBroadcastMessage::RoomRequestedHeartbeat,
        r.1 == RoomRequest::Remove(sid),
{
    (RoomBroadcastMessage::RoomRequestedHeartbeat, RoomRequest::Remove(sid))
}

} // verus!
