//! The room registry: at most one live room per room id.
//!
//! The pool actor owns a [`RoomRegistry`] mapping room ids to the handles of
//! live room actors.  Spawning the actor tasks and their channels is the
//! runtime's job; the registry here carries the verified bookkeeping that
//! makes spawn-or-find idempotent and eviction race-free.

use vstd::prelude::*;

use crate::room::RoomId;

verus! {

/// The control request the pool sends a freshly spawned room before handing
/// its channel out: the readiness barrier of the spawn path.
#[derive(Debug)]
pub enum CtrlRequest {
    HealthCheck,
}

#[derive(Clone, Copy, Debug, PartialEq, Eq, Structural)]
pub enum HealthStatus {
    Healthy,
}

#[derive(Clone, Copy, Debug, PartialEq, Eq, Structural)]
pub enum CtrlResponse {
    Health(HealthStatus),
}

/// One request into the pool's mailbox: resolve a room id to a live room,
/// or retire a room that reported itself empty.
#[derive(Debug)]
pub enum RoomPoolRequest {
    Spawn(RoomId),
    Shutdown(RoomId),
}

/// The answer a live room gives the readiness barrier: it is processing its
/// mailbox, so a request sent right after cannot be lost.
pub fn handle_ctrl(request: &CtrlRequest) -> (r: CtrlResponse)
    ensures
        r == CtrlResponse::Health(HealthStatus::Healthy),
{
    match *request {
        CtrlRequest::HealthCheck => CtrlResponse::Health(HealthStatus::Healthy),
    }
}

/// No two registered ids read the same.
pub open spec fn distinct_ids(ids: Seq<Seq<char>>) -> bool {
    forall|i: int, j: int| 0 <= i < j < ids.len() ==> (#[trigger] ids[i]) != (#[trigger] ids[j])
}

/// The registered ids after an eviction: the id goes away if it was held,
/// and nothing else moves.
pub open spec fn remove_id_model(ids: Seq<Seq<char>>, id: Seq<char>) -> Seq<Seq<char>> {
    if ids.contains(id) {
        ids.remove(ids.index_of(id))
    } else {
        ids
    }
}

/// The registry of live rooms, generic in the handle the runtime stores for
/// each (a clonable channel pair in practice).  Ids and handles line up by
/// position.
pub struct RoomRegistry<H> {
    ids: Vec<RoomId>,
    handles: Vec<H>,
}

impl<H> RoomRegistry<H> {
    /// What the registry holds, as a sequence of id texts.
    pub closed spec fn id_views(self) -> Seq<Seq<char>> {
        self.ids@.map_values(|s: RoomId| s@)
    }

    /// The handles, by the same positions as `id_views`.
    pub closed spec fn handle_views(self) -> Seq<H> {
        self.handles@
    }

    /// Ids and handles line up, and no id is registered twice.
    pub closed spec fn wf(self) -> bool {
        &&& self.ids@.len() == self.handles@.len()
        &&& distinct_ids(self.id_views())
    }

    pub open spec fn contains_id(self, id: Seq<char>) -> bool {
        self.id_views().contains(id)
    }

    pub fn new() -> (r: RoomRegistry<H>)
        ensures
            r.wf(),
            r.id_views() =~= Seq::<Seq<char>>::empty(),
    {
        RoomRegistry { ids: Vec::new(), handles: Vec::new() }
    }

    /// Position of a registered id, or `None` when a fresh room must be
    /// spawned: the find half of spawn-or-find.
    pub fn find(&self, room_id: &RoomId) -> (r: Option<usize>)
        requires
            self.wf(),
        ensures
            match r {
                Some(i) => {
                    &&& i < self.id_views().len()
                    &&& i < self.handle_views().len()
                    &&& self.id_views()[i as int] == room_id@
                    &&& self.contains_id(room_id@)
                },
                None => !self.contains_id(room_id@),
            },
    {
        let n = self.ids.len();
        let mut i: usize = 0;
        while i < n
            invariant
                n == self.ids@.len(),
                self.ids@.len() == self.handles@.len(),
                i <= n,
                forall|j: int| 0 <= j < i ==> (#[trigger] self.ids@[j])@ != room_id@,
            decreases n - i,
        {
            if self.ids[i] == *room_id {
                return Some(i);
            }
            i = i + 1;
        }
        proof {
            assert forall|j: int| 0 <= j < self.id_views().len() implies (
            #[trigger] self.id_views()[j]) != room_id@ by {
                assert(self.id_views()[j] == self.ids@[j]@);
            }
        }
        None
    }

    /// The handle registered at a position `find` returned.
    pub fn get(&self, i: usize) -> (r: &H)
        requires
            self.wf(),
            i < self.handle_views().len(),
        ensures
            *r == self.handle_views()[i as int],
    {
        &self.handles[i]
    }

    /// Registers a freshly spawned room under an id the registry does not
    /// hold yet: the spawn half of spawn-or-find.
    pub fn insert(&mut self, room_id: RoomId, handle: H)
        requires
            old(self).wf(),
            !old(self).contains_id(room_id@),
        ensures
            final(self).wf(),
            final(self).id_views() =~= old(self).id_views().push(room_id@),
            final(self).handle_views() =~= old(self).handle_views().push(handle),
            final(self).contains_id(room_id@),
    {
        let ghost ids0 = self.id_views();
        self.ids.push(room_id);
        self.handles.push(handle);
        proof {
            assert(self.id_views() =~= ids0.push(self.ids@.last()@));
            assert forall|i: int, j: int|
                0 <= i < j < self.id_views().len() implies (#[trigger] self.id_views()[i]) != (
            #[trigger] self.id_views()[j]) by {
                if j == ids0.len() {
                    assert(!ids0.contains(self.id_views()[j]));
                }
            }
            assert(self.id_views().last() == self.id_views()[self.id_views().len() - 1]);
        }
    }

    /// Evicts a room that reported itself empty.  An id the registry does
    /// not hold is ignored, so a stale shutdown request is harmless.
    pub fn remove(&mut self, room_id: &RoomId)
        requires
            old(self).wf(),
        ensures
            final(self).wf(),
            final(self).id_views() =~= remove_id_model(old(self).id_views(), room_id@),
            !final(self).contains_id(room_id@),
            final(self).handle_views() =~= (if old(self).contains_id(room_id@) {
                old(self).handle_views().remove(old(self).id_views().index_of(room_id@))
            } else {
                old(self).handle_views()
            }),
    {
        match self.find(room_id) {
            Some(i) => {
                let ghost ids0 = self.id_views();
                self.ids.remove(i);
                self.handles.remove(i);
                proof {
                    assert(ids0.contains(room_id@));
                    lemma_distinct_index_of(ids0, room_id@, i as int);
                    assert(self.id_views() =~= ids0.remove(i as int));
                    assert forall|a: int, b: int|
                        0 <= a < b < self.id_views().len() implies (
                    #[trigger] self.id_views()[a]) != (#[trigger] self.id_views()[b]) by {
                        let a0 = if a < i {
                            a
                        } else {
                            a + 1
                        };
                        let b0 = if b < i {
                            b
                        } else {
                            b + 1
                        };
                        assert(self.id_views()[a] == ids0[a0]);
                        assert(self.id_views()[b] == ids0[b0]);
                    }
                    assert forall|k: int|
                        0 <= k < self.id_views().len() implies (#[trigger] self.id_views()[k])
                        != room_id@ by {
                        let k0 = if k < i {
                            k
                        } else {
                            k + 1
                        };
                        assert(self.id_views()[k] == ids0[k0]);
                        if k0 < i {
                            assert(ids0[k0] != ids0[i as int]);
                        } else {
                            assert(ids0[i as int] != ids0[k0]);
                        }
                    }
                }
            },
            None => {
                proof {
                    assert(final(self).id_views() =~= old(self).id_views());
                }
            },
        }
    }
}

/// On a distinct id sequence, `index_of` finds exactly the position that
/// matches.
pub proof fn lemma_distinct_index_of(ids: Seq<Seq<char>>, id: Seq<char>, i: int)
    requires
        distinct_ids(ids),
        0 <= i < ids.len(),
        ids[i] == id,
    ensures
        ids.contains(id),
        ids.index_of(id) == i,
{
    assert(ids.contains(id));
    let j = ids.index_of(id);
    if i < j {
        assert(ids[i] != ids[j]);
    } else if j < i {
        assert(ids[j] != ids[i]);
    }
}

/// Once an empty room's shutdown has evicted its id, the next spawn-or-find
/// for that id cannot find a handle, so it takes the spawn path; every other
/// room is untouched.  A freshly spawned room starts with an empty roster
/// and hidden estimates, as [`crate::room::Room::new`] guarantees, so the
/// caller gets a distinct, freshly initialized room.
pub proof fn lemma_shutdown_forces_fresh_spawn(ids: Seq<Seq<char>>, id: Seq<char>)
    requires
        distinct_ids(ids),
    ensures
        !remove_id_model(ids, id).contains(id),
        forall|x: Seq<char>|
            x != id ==> #[trigger] remove_id_model(ids, id).contains(x) == ids.contains(x),
{
    if ids.contains(id) {
        let i = ids.index_of(id);
        let after = ids.remove(i);
        assert forall|k: int| 0 <= k < after.len() implies (#[trigger] after[k]) != id by {
            let k0 = if k < i {
                k
            } else {
                k + 1
            };
            assert(after[k] == ids[k0]);
            if k0 < i {
                assert(ids[k0] != ids[i]);
            } else {
                assert(ids[i] != ids[k0]);
            }
        }
        assert(!after.contains(id));
        assert forall|x: Seq<char>| x != id implies #[trigger] after.contains(x) == ids.contains(
            x,
        ) by {
            if after.contains(x) {
                let k = choose|k: int| 0 <= k < after.len() && after[k] == x;
                let k0 = if k < i {
                    k
                } else {
                    k + 1
                };
                assert(ids[k0] == x);
            }
            if ids.contains(x) {
                let k0 = choose|k0: int| 0 <= k0 < ids.len() && ids[k0] == x;
                let k = if k0 < i {
                    k0
                } else {
                    k0 - 1
                };
                assert(k0 != i);
                assert(after[k] == x);
            }
        }
    }
}

} // verus!
