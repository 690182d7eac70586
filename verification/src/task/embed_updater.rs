//! Live embeds: animations that keep editing an interaction response.
//!
//! At most one live update runs per scope (a guild, or a channel outside
//! guilds). The registry decides whether an update may start, which one it
//! replaces and which one a stop or a finished task removes; the caller owns
//! the running tasks, whose handles the registry keeps.
use vstd::prelude::*;

verus! {

/// Where a live update runs: a guild, or a channel outside any guild.
#[derive(Debug, Clone, Copy, PartialEq, Eq, Hash, Structural)]
pub enum LiveScope {
    Guild(u64),
    Channel(u64),
}

impl LiveScope {
    /// The scope of a command: its guild when it has one, else its channel.
    pub fn from_command(guild_id: Option<u64>, channel_id: u64) -> (s: LiveScope)
        ensures
            s == (match guild_id {
                Some(g) => LiveScope::Guild(g),
                None => LiveScope::Channel(channel_id),
            }),
    {
        match guild_id {
            Some(g) => LiveScope::Guild(g),
            None => LiveScope::Channel(channel_id),
        }
    }
}

/// A running live update: its id, the user who started it and its task.
pub struct ActiveLive<H> {
    pub scope: LiveScope,
    pub id: u64,
    pub owner: u64,
    pub handle: H,
}

/// Why a live update did not start.
#[derive(Debug, Clone, Copy, PartialEq, Eq, Structural)]
pub enum LiveError {
    /// The animation has no frame.
    NoFrames,
    /// The same user already runs a live update in this scope.
    AlreadyActive,
}

impl LiveError {
    /// The message shown for the error.
    pub fn message(&self) -> (m: &'static str)
        ensures
            m@ == (match self {
                LiveError::NoFrames => "la animación no tiene frames"@,
                LiveError::AlreadyActive => "ya tienes una actualización activa aquí"@,
            }),
    {
        match self {
            LiveError::NoFrames => "la animación no tiene frames",
            LiveError::AlreadyActive => "ya tienes una actualización activa aquí",
        }
    }
}

/// Permission to start a live update: where, for whom, under which id, and
/// from which frame of how many.
#[derive(Debug, Clone, Copy, PartialEq, Eq, Structural)]
pub struct LiveTicket {
    pub scope: LiveScope,
    pub owner: u64,
    pub id: u64,
    pub start_index: usize,
    pub frame_count: usize,
}

/// The running live updates, by scope.
pub struct LiveRegistry<H> {
    entries: Vec<ActiveLive<H>>,
    next_id: u64,
}

/// What `reserve` answers for a registry whose updates are `active` and whose
/// next id is `next_id`.
pub open spec fn reserve_outcome<H>(
    active: Map<LiveScope, ActiveLive<H>>,
    next_id: u64,
    scope: LiveScope,
    owner: u64,
    frame_count: usize,
    start_from: usize,
) -> Result<LiveTicket, LiveError> {
    if frame_count == 0 {
        Err(LiveError::NoFrames)
    } else if active.contains_key(scope) && active[scope].owner == owner {
        Err(LiveError::AlreadyActive)
    } else {
        Ok(
            LiveTicket {
                scope,
                owner,
                id: next_id,
                start_index: (start_from % frame_count) as usize,
                frame_count,
            },
        )
    }
}

/// The next id after a reservation that got past the frame check.
pub open spec fn id_after(next_id: u64, frame_count: usize) -> u64 {
    if frame_count == 0 {
        next_id
    } else if next_id == u64::MAX {
        0
    } else {
        (next_id + 1) as u64
    }
}

/// The running updates once the ticket's update runs with `handle`.
pub open spec fn after_install<H>(
    active: Map<LiveScope, ActiveLive<H>>,
    ticket: LiveTicket,
    handle: H,
) -> Map<LiveScope, ActiveLive<H>> {
    active.insert(
        ticket.scope,
        ActiveLive { scope: ticket.scope, id: ticket.id, owner: ticket.owner, handle },
    )
}

/// The running updates once the update of `scope` stops.
pub open spec fn after_stop<H>(active: Map<LiveScope, ActiveLive<H>>, scope: LiveScope) -> Map<
    LiveScope,
    ActiveLive<H>,
> {
    active.remove(scope)
}

/// The running updates once the task with id `id` in `scope` ends: its entry
/// goes, unless another update has replaced it.
pub open spec fn after_cleanup<H>(
    active: Map<LiveScope, ActiveLive<H>>,
    scope: LiveScope,
    id: u64,
) -> Map<LiveScope, ActiveLive<H>> {
    if active.contains_key(scope) && active[scope].id == id {
        active.remove(scope)
    } else {
        active
    }
}

impl<H> LiveRegistry<H> {
    /// No scope holds two entries.
    pub closed spec fn wf(&self) -> bool {
        forall|i: int, j: int|
            0 <= i < j < self.entries@.len() ==> #[trigger] self.entries@[i].scope
                != #[trigger] self.entries@[j].scope
    }

    /// The running updates, by scope.
    pub closed spec fn active(&self) -> Map<LiveScope, ActiveLive<H>> {
        Map::new(
            |s: LiveScope| exists|i: int| 0 <= i < self.entries@.len() && self.entries@[i].scope == s,
            |s: LiveScope|
                self.entries@[choose|i: int|
                    0 <= i < self.entries@.len() && self.entries@[i].scope == s],
        )
    }

    /// The id the next reservation gets.
    pub closed spec fn next_id(&self) -> u64 {
        self.next_id
    }

    /// Every running update is filed under its own scope.
    pub proof fn law_updates_filed_under_their_scope(&self)
        requires
            self.wf(),
        ensures
            forall|s: LiveScope| #[trigger]
                self.active().contains_key(s) ==> self.active()[s].scope == s,
    {
    }

    /// An empty registry whose first id is 1.
    pub fn new() -> (r: Self)
        ensures
            r.wf(),
            r.active() == Map::<LiveScope, ActiveLive<H>>::empty(),
            r.next_id() == 1,
    {
        let r = LiveRegistry { entries: Vec::new(), next_id: 1 };
        assert(r.active() =~= Map::<LiveScope, ActiveLive<H>>::empty());
        r
    }

    /// Position of the entry of `scope`, if any.
    fn find(&self, scope: LiveScope) -> (pos: Option<usize>)
        requires
            self.wf(),
        ensures
            match pos {
                Some(i) => i < self.entries@.len() && self.entries@[i as int].scope == scope,
                None => !self.active().contains_key(scope),
            },
            self.active().contains_key(scope) == pos is Some,
            pos matches Some(i) ==> self.active()[scope] == self.entries@[i as int],
    {
        let mut i: usize = 0;
        while i < self.entries.len()
            invariant
                self.wf(),
                i <= self.entries@.len(),
                forall|k: int| 0 <= k < i ==> self.entries@[k].scope != scope,
            decreases self.entries@.len() - i,
        {
            if self.entries[i].scope == scope {
                assert(self.active().contains_key(scope));
                let ghost c = choose|k: int|
                    0 <= k < self.entries@.len() && self.entries@[k].scope == scope;
                assert(c == i as int) by {
                    if c < i {
                    } else if c > i {
                        assert(self.entries@[i as int].scope != self.entries@[c].scope);
                    }
                }
                return Some(i);
            }
            i = i + 1;
        }
        None
    }

    /// Removes the entry at `i`, returning it.
    fn take_at(&mut self, i: usize) -> (e: ActiveLive<H>)
        requires
            old(self).wf(),
            i < old(self).entries@.len(),
        ensures
            final(self).wf(),
            e == old(self).entries@[i as int],
            final(self).active() == old(self).active().remove(e.scope),
            final(self).next_id() == old(self).next_id(),
    {
        let ghost before = self.entries@;
        let e = self.entries.remove(i);
        proof {
            assert forall|a: int, b: int|
                0 <= a < b < self.entries@.len() implies #[trigger] self.entries@[a].scope
                != #[trigger] self.entries@[b].scope by {
                let a0 = if a < i {
                    a
                } else {
                    a + 1
                };
                let b0 = if b < i {
                    b
                } else {
                    b + 1
                };
                assert(self.entries@[a] == before[a0]);
                assert(self.entries@[b] == before[b0]);
                assert(before[a0].scope != before[b0].scope);
            }
            let old_map = Map::new(
                |s: LiveScope| exists|k: int| 0 <= k < before.len() && before[k].scope == s,
                |s: LiveScope| before[choose|k: int| 0 <= k < before.len() && before[k].scope == s],
            );
            assert forall|s: LiveScope| #[trigger]
                self.active().contains_key(s) == old_map.remove(e.scope).contains_key(s) by {
                if self.active().contains_key(s) {
                    let k = choose|k: int|
                        0 <= k < self.entries@.len() && self.entries@[k].scope == s;
                    let k0 = if k < i {
                        k
                    } else {
                        k + 1
                    };
                    assert(before[k0].scope == s);
                    assert(k0 != i);
                    assert(s != e.scope);
                }
                if old_map.remove(e.scope).contains_key(s) {
                    let k = choose|k: int| 0 <= k < before.len() && before[k].scope == s;
                    assert(k != i);
                    let k1 = if k < i {
                        k
                    } else {
                        k - 1
                    };
                    assert(self.entries@[k1].scope == s);
                }
            }
            assert forall|s: LiveScope| #[trigger]
                self.active().contains_key(s) implies self.active()[s] == old_map.remove(
                e.scope,
            )[s] by {
                let k = choose|k: int| 0 <= k < self.entries@.len() && self.entries@[k].scope == s;
                let k0 = if k < i {
                    k
                } else {
                    k + 1
                };
                assert(before[k0].scope == s);
                let c = choose|k: int| 0 <= k < before.len() && before[k].scope == s;
                assert(c == k0) by {
                    if c != k0 {
                        if c < k0 {
                            assert(before[c].scope != before[k0].scope);
                        } else {
                            assert(before[k0].scope != before[c].scope);
                        }
                    }
                }
                let d = choose|d: int| 0 <= d < self.entries@.len() && self.entries@[d].scope == s;
                assert(d == k) by {
                    if d != k {
                        if d < k {
                            assert(self.entries@[d].scope != self.entries@[k].scope);
                        } else {
                            assert(self.entries@[k].scope != self.entries@[d].scope);
                        }
                    }
                }
            }
            assert(self.active() =~= old_map.remove(e.scope));
        }
        e
    }

    /// Appends an entry for a scope that has none.
    fn add(&mut self, e: ActiveLive<H>)
        requires
            old(self).wf(),
            !old(self).active().contains_key(e.scope),
        ensures
            final(self).wf(),
            final(self).active() == old(self).active().insert(e.scope, e),
            final(self).next_id() == old(self).next_id(),
    {
        let ghost before = self.entries@;
        let ghost scope = e.scope;
        let ghost entry = e;
        self.entries.push(e);
        proof {
            let n = before.len() as int;
            assert forall|a: int, b: int|
                0 <= a < b < self.entries@.len() implies #[trigger] self.entries@[a].scope
                != #[trigger] self.entries@[b].scope by {
                if b == n {
                    assert(self.entries@[a] == before[a]);
                    if before[a].scope == scope {
                        assert(old(self).active().contains_key(scope));
                    }
                } else {
                    assert(self.entries@[a] == before[a]);
                    assert(self.entries@[b] == before[b]);
                }
            }
            let old_map = old(self).active();
            assert forall|s: LiveScope| #[trigger]
                self.active().contains_key(s) == old_map.insert(scope, entry).contains_key(s) by {
                if self.active().contains_key(s) {
                    let k = choose|k: int|
                        0 <= k < self.entries@.len() && self.entries@[k].scope == s;
                    if k < n {
                        assert(before[k].scope == s);
                        assert(old_map.contains_key(s));
                    }
                }
                if old_map.contains_key(s) {
                    let k = choose|k: int| 0 <= k < before.len() && before[k].scope == s;
                    assert(self.entries@[k].scope == s);
                }
                if s == scope {
                    assert(self.entries@[n].scope == s);
                }
            }
            assert forall|s: LiveScope| #[trigger]
                self.active().contains_key(s) implies self.active()[s] == old_map.insert(
                scope,
                entry,
            )[s] by {
                let d = choose|d: int| 0 <= d < self.entries@.len() && self.entries@[d].scope == s;
                if s == scope {
                    assert(self.entries@[n].scope == s);
                    assert(d == n) by {
                        if d < n {
                            assert(self.entries@[d].scope != self.entries@[n].scope);
                        }
                    }
                } else {
                    assert(d < n);
                    assert(before[d].scope == s);
                    let c = choose|c: int| 0 <= c < before.len() && before[c].scope == s;
                    assert(c == d) by {
                        if c != d {
                            if c < d {
                                assert(self.entries@[c].scope != self.entries@[d].scope);
                            } else {
                                assert(self.entries@[d].scope != self.entries@[c].scope);
                            }
                        }
                    }
                }
            }
            assert(self.active() =~= old_map.insert(scope, entry));
        }
    }

    /// Stops the live update of `scope`: removes it and hands back its task,
    /// or answers `None` when the scope had none.
    pub fn stop(&mut self, scope: LiveScope) -> (h: Option<H>)
        requires
            old(self).wf(),
        ensures
            final(self).wf(),
            final(self).active() == after_stop(old(self).active(), scope),
            final(self).next_id() == old(self).next_id(),
            h is Some == old(self).active().contains_key(scope),
            h matches Some(handle) ==> handle == old(self).active()[scope].handle,
    {
        match self.find(scope) {
            Some(i) => {
                let e = self.take_at(i);
                Some(e.handle)
            },
            None => {
                assert(self.active().remove(scope) =~= self.active());
                None
            },
        }
    }

    /// Decides whether `owner` may start a live update of `frame_count` frames
    /// in `scope`: not without frames, nor while the same user runs one there.
    /// Past the frame check the next id is used up, even when the answer is no.
    pub fn reserve(
        &mut self,
        scope: LiveScope,
        owner: u64,
        frame_count: usize,
        start_from: usize,
    ) -> (res: Result<LiveTicket, LiveError>)
        requires
            old(self).wf(),
        ensures
            final(self).wf(),
            final(self).active() == old(self).active(),
            final(self).next_id() == id_after(old(self).next_id(), frame_count),
            res == reserve_outcome(
                old(self).active(),
                old(self).next_id(),
                scope,
                owner,
                frame_count,
                start_from,
            ),
    {
        if frame_count == 0 {
            return Err(LiveError::NoFrames);
        }
        let id = self.next_id;
        self.next_id = self.next_id.wrapping_add(1);
        let start_index = start_from % frame_count;
        match self.find(scope) {
            Some(i) => {
                if self.entries[i].owner == owner {
                    return Err(LiveError::AlreadyActive);
                }
            },
            None => {},
        }
        Ok(LiveTicket { scope, owner, id, start_index, frame_count })
    }

    /// Runs the ticket's update with task `handle`: it replaces the update of
    /// the scope, whose task is handed back to be stopped.
    pub fn install(&mut self, ticket: LiveTicket, handle: H) -> (replaced: Option<H>)
        requires
            old(self).wf(),
        ensures
            final(self).wf(),
            final(self).active() == after_install(old(self).active(), ticket, handle),
            final(self).next_id() == old(self).next_id(),
            replaced is Some == old(self).active().contains_key(ticket.scope),
            replaced matches Some(h) ==> h == old(self).active()[ticket.scope].handle,
    {
        let replaced = self.stop(ticket.scope);
        let e = ActiveLive { scope: ticket.scope, id: ticket.id, owner: ticket.owner, handle };
        self.add(e);
        proof {
            assert(after_install(old(self).active(), ticket, handle) =~= old(self).active().remove(
                ticket.scope,
            ).insert(ticket.scope, e));
        }
        replaced
    }

    /// The task with id `id` in `scope` has ended: its entry goes, unless a
    /// newer update has replaced it. Hands back the removed task, if any.
    pub fn cleanup_if_same(&mut self, scope: LiveScope, id: u64) -> (h: Option<H>)
        requires
            old(self).wf(),
        ensures
            final(self).wf(),
            final(self).active() == after_cleanup(old(self).active(), scope, id),
            final(self).next_id() == old(self).next_id(),
            h is Some == (old(self).active().contains_key(scope) && old(self).active()[scope].id
                == id),
            h matches Some(x) ==> x == old(self).active()[scope].handle,
    {
        match self.find(scope) {
            Some(i) => {
                if self.entries[i].id == id {
                    let e = self.take_at(i);
                    Some(e.handle)
                } else {
                    None
                }
            },
            None => None,
        }
    }
}

// ----- playing the frames -----

/// What the task does at `index`: with `repeat` off it stops once every frame
/// from the start was shown; otherwise it shows frame `index % frame_count`
/// and goes on at `index + 1` (wrapping).
pub open spec fn next_frame_spec(index: usize, frame_count: usize, repeat: bool) -> Option<
    (usize, usize),
> {
    if !repeat && index >= frame_count {
        None
    } else {
        Some(
            (
                (index % frame_count) as usize,
                (if index == usize::MAX {
                    0
                } else {
                    index + 1
                }) as usize,
            ),
        )
    }
}

/// The frame to show at `index`, and the index after it; `None` when the
/// animation is over.
pub fn next_frame(index: usize, frame_count: usize, repeat: bool) -> (r: Option<(usize, usize)>)
    requires
        frame_count > 0,
    ensures
        r == next_frame_spec(index, frame_count, repeat),
{
    if !repeat && index >= frame_count {
        None
    } else {
        Some((index % frame_count, index.wrapping_add(1)))
    }
}

/// The index a task reaches after `k` successful steps from `start`, or
/// `None` if it stopped before.
pub open spec fn index_after(start: usize, frame_count: usize, repeat: bool, k: nat) -> Option<
    usize,
>
    decreases k,
{
    if k == 0 {
        Some(start)
    } else {
        match index_after(start, frame_count, repeat, (k - 1) as nat) {
            Some(i) => match next_frame_spec(i, frame_count, repeat) {
                Some(step) => Some(step.1),
                None => None,
            },
            None => None,
        }
    }
}

/// Without repeat, a task started at frame `start` shows the frames
/// `start, start + 1, ..., frame_count - 1`, one per step, and then stops.
pub proof fn law_single_pass_shows_remaining_frames(start: usize, frame_count: usize, k: nat)
    requires
        start < frame_count,
        k <= frame_count - start,
    ensures
        index_after(start, frame_count, false, k) == Some((start + k) as usize),
        k < frame_count - start ==> next_frame_spec((start + k) as usize, frame_count, false)
            == Some(((start + k) as usize, (start + k + 1) as usize)),
        k == frame_count - start ==> next_frame_spec((start + k) as usize, frame_count, false)
            is None,
    decreases k,
{
    if k > 0 {
        law_single_pass_shows_remaining_frames(start, frame_count, (k - 1) as nat);
    }
    if k < frame_count - start {
        let i = (start + k) as usize;
        assert(i % frame_count == i) by (nonlinear_arith)
            requires
                i < frame_count,
        ;
    }
}

/// With repeat, step `k` of a task started at `start` shows frame
/// `(start + k) % frame_count`, for as long as the index does not wrap.
pub proof fn law_repeat_cycles_frames(start: usize, frame_count: usize, k: nat)
    requires
        frame_count > 0,
        start + k < usize::MAX,
    ensures
        index_after(start, frame_count, true, k) == Some((start + k) as usize),
        next_frame_spec((start + k) as usize, frame_count, true) == Some(
            (((start + k) % (frame_count as int)) as usize, (start + k + 1) as usize),
        ),
    decreases k,
{
    if k > 0 {
        law_repeat_cycles_frames(start, frame_count, (k - 1) as nat);
    }
}

// ----- laws of the registry -----

/// Stopping a scope right after an update was installed there hands back that
/// update's task and leaves the other scopes as they were.
pub proof fn law_stop_after_install<H>(
    active: Map<LiveScope, ActiveLive<H>>,
    ticket: LiveTicket,
    handle: H,
)
    ensures
        after_install(active, ticket, handle).contains_key(ticket.scope),
        after_install(active, ticket, handle)[ticket.scope].handle == handle,
        after_stop(after_install(active, ticket, handle), ticket.scope) == after_stop(
            active,
            ticket.scope,
        ),
{
    assert(after_stop(after_install(active, ticket, handle), ticket.scope) =~= after_stop(
        active,
        ticket.scope,
    ));
}

/// A task that was replaced does not remove its replacement when it ends.
pub proof fn law_replaced_task_cleanup_keeps_replacement<H>(
    active: Map<LiveScope, ActiveLive<H>>,
    ticket: LiveTicket,
    handle: H,
    old_id: u64,
)
    requires
        old_id != ticket.id,
    ensures
        after_cleanup(after_install(active, ticket, handle), ticket.scope, old_id)
            == after_install(active, ticket, handle),
{
}

/// A task that ends while still current removes its own entry, as a stop would.
pub proof fn law_current_task_cleanup_removes_it<H>(
    active: Map<LiveScope, ActiveLive<H>>,
    ticket: LiveTicket,
    handle: H,
)
    ensures
        after_cleanup(after_install(active, ticket, handle), ticket.scope, ticket.id)
            == after_stop(active, ticket.scope),
{
    assert(after_cleanup(after_install(active, ticket, handle), ticket.scope, ticket.id)
        =~= after_stop(active, ticket.scope));
}

/// A user cannot start a second update where one of theirs runs; another
/// user's update there is replaced, and a scope without one gets it.
pub proof fn law_one_update_per_user_and_scope<H>(
    active: Map<LiveScope, ActiveLive<H>>,
    next_id: u64,
    scope: LiveScope,
    owner: u64,
    frame_count: usize,
    start_from: usize,
)
    requires
        frame_count > 0,
    ensures
        (reserve_outcome(active, next_id, scope, owner, frame_count, start_from) == Err::<
            LiveTicket,
            LiveError,
        >(LiveError::AlreadyActive)) == (active.contains_key(scope) && active[scope].owner
            == owner),
        reserve_outcome(active, next_id, scope, owner, frame_count, start_from) matches Ok(t)
            ==> t.scope == scope && t.owner == owner && t.start_index < frame_count,
{
}

/// A granted reservation is for the whole animation: it keeps every frame
/// (its frame count is the animation's), starts at the start step wrapped
/// around the frames, and carries the scope, the user and the next id.
pub proof fn law_reservation_keeps_the_animation<H>(
    active: Map<LiveScope, ActiveLive<H>>,
    next_id: u64,
    scope: LiveScope,
    owner: u64,
    frame_count: usize,
    start_from: usize,
)
    ensures
        reserve_outcome(active, next_id, scope, owner, frame_count, start_from) matches Ok(t) ==> {
            &&& t.frame_count == frame_count
            &&& frame_count > 0
            &&& t.start_index == start_from % frame_count
            &&& t.start_index < frame_count
            &&& t.scope == scope
            &&& t.owner == owner
            &&& t.id == next_id
        },
        frame_count > 0 && !(active.contains_key(scope) && active[scope].owner == owner)
            ==> reserve_outcome(active, next_id, scope, owner, frame_count, start_from) is Ok,
{
}

/// Every id below `next_id`: the state a registry is in until its ids wrap.
pub open spec fn ids_below<H>(active: Map<LiveScope, ActiveLive<H>>, next_id: u64) -> bool {
    forall|s: LiveScope| #[trigger] active.contains_key(s) ==> active[s].id < next_id
}

/// Until ids wrap, a started update gets an id that no running update has, and
/// the ids stay below the next one.
pub proof fn law_fresh_ids<H>(
    active: Map<LiveScope, ActiveLive<H>>,
    next_id: u64,
    scope: LiveScope,
    owner: u64,
    frame_count: usize,
    start_from: usize,
    handle: H,
)
    requires
        ids_below(active, next_id),
        next_id < u64::MAX,
    ensures
        reserve_outcome(active, next_id, scope, owner, frame_count, start_from) matches Ok(t) ==> {
            &&& forall|s: LiveScope| #[trigger] active.contains_key(s) ==> active[s].id != t.id
            &&& ids_below(after_install(active, t, handle), id_after(next_id, frame_count))
        },
        ids_below(active, id_after(next_id, frame_count)),
{
}

} // verus!
