//! The registry of engines: for each database at most one engine, built by
//! the first request that misses it and shared by those that arrive while it
//! is being built.
//!
//! The registry decides; it does not build. A lookup tells the caller
//! whether to build the engine, to wait for the build that is under way, or
//! to use the engine that is there. The caller reports back how a build
//! ended and when a query is over.

use crate::keyed::{
    as_map, distinct_keys, has_key, index_of_key, lemma_as_map_at, lemma_as_map_push,
    lemma_as_map_remove, lemma_as_map_update,
};
use vstd::prelude::*;

verus! {

/// How long an engine may go without a lookup before it is evicted, in
/// milliseconds, unless the worker is told otherwise.
pub const IDLE_EVICTION_MS: u64 = 300_000;

/// What the registry holds for a database. A database without an entry is
/// absent: no engine, no build.
#[derive(Clone, Copy, PartialEq, Eq, Structural, Debug)]
pub enum EntryState {
    /// The build with this ticket is under way; `waiters` requests wait for
    /// it besides the one that builds.
    Building { ticket: u64, waiters: u64 },
    /// The engine is there. Its handle is the ticket of the build that made
    /// it; `readers` queries run on it; `atime` is the instant of the last
    /// lookup.
    Ready { handle: u64, readers: u64, atime: u64 },
}

/// What a lookup tells the request to do.
#[derive(Clone, Copy, PartialEq, Eq, Structural, Debug)]
pub enum Lookup {
    /// Build the engine, under this ticket, and report how it went.
    Build { ticket: u64 },
    /// Wait for the build with this ticket.
    Wait { ticket: u64 },
    /// Query the engine with this handle, and release it afterwards.
    Use { handle: u64 },
    /// The registry admits no request: it drains, or it cannot count one
    /// more.
    Refused,
}

/// How the report of a build was taken.
#[derive(Clone, Copy, PartialEq, Eq, Structural, Debug)]
pub enum BuildOutcome {
    /// The engine is published; this many waiters are to be woken.
    Published { waiters: u64 },
    /// The entry is cleared; this many waiters are to be failed.
    Cleared { waiters: u64 },
    /// The database is no longer being built under this ticket: the rows
    /// changed meanwhile. What was built is dropped.
    Discarded,
}

/// The registry as a mathematical value.
pub struct RegistryView {
    pub entries: Map<Seq<char>, EntryState>,
    /// The ticket that the next build gets.
    pub next_ticket: u64,
    /// Requests admitted and not yet released.
    pub inflight: u64,
    pub draining: bool,
}

/// Whether a request for `id` is admitted.
pub open spec fn admits(v: RegistryView, id: Seq<char>) -> bool {
    &&& !v.draining
    &&& v.inflight < u64::MAX
    &&& if v.entries.contains_key(id) {
        match v.entries[id] {
            EntryState::Building { ticket, waiters } => waiters + 1 < u64::MAX,
            EntryState::Ready { handle, readers, atime } => readers < u64::MAX,
        }
    } else {
        v.next_ticket < u64::MAX
    }
}

/// A lookup of `id` at the instant `now`.
pub open spec fn lookup_step(v: RegistryView, id: Seq<char>, now: u64) -> (RegistryView, Lookup) {
    if !admits(v, id) {
        (v, Lookup::Refused)
    } else if !v.entries.contains_key(id) {
        (
            RegistryView {
                entries: v.entries.insert(
                    id,
                    EntryState::Building { ticket: v.next_ticket, waiters: 0 },
                ),
                next_ticket: (v.next_ticket + 1) as u64,
                inflight: (v.inflight + 1) as u64,
                draining: v.draining,
            },
            Lookup::Build { ticket: v.next_ticket },
        )
    } else {
        match v.entries[id] {
            EntryState::Building { ticket, waiters } => (
                RegistryView {
                    entries: v.entries.insert(
                        id,
                        EntryState::Building { ticket, waiters: (waiters + 1) as u64 },
                    ),
                    next_ticket: v.next_ticket,
                    inflight: (v.inflight + 1) as u64,
                    draining: v.draining,
                },
                Lookup::Wait { ticket },
            ),
            EntryState::Ready { handle, readers, atime } => (
                RegistryView {
                    entries: v.entries.insert(
                        id,
                        EntryState::Ready { handle, readers: (readers + 1) as u64, atime: now },
                    ),
                    next_ticket: v.next_ticket,
                    inflight: (v.inflight + 1) as u64,
                    draining: v.draining,
                },
                Lookup::Use { handle },
            ),
        }
    }
}

/// Whether `id` is being built under `ticket`.
pub open spec fn builds_under(v: RegistryView, id: Seq<char>, ticket: u64) -> bool {
    v.entries.contains_key(id) && match v.entries[id] {
        EntryState::Building { ticket: current, waiters } => current == ticket,
        EntryState::Ready { handle, readers, atime } => false,
    }
}

/// The builder reports that the build with `ticket` made an engine, at the
/// instant `now`. The builder and the waiters all become its readers.
pub open spec fn build_succeeded_step(v: RegistryView, id: Seq<char>, ticket: u64, now: u64) -> (
    RegistryView,
    BuildOutcome,
) {
    if builds_under(v, id, ticket) {
        let waiters = v.entries[id]->Building_waiters;
        (
            RegistryView {
                entries: v.entries.insert(
                    id,
                    EntryState::Ready {
                        handle: ticket,
                        readers: if waiters < u64::MAX {
                            (waiters + 1) as u64
                        } else {
                            u64::MAX
                        },
                        atime: now,
                    },
                ),
                ..v
            },
            BuildOutcome::Published { waiters },
        )
    } else {
        (v, BuildOutcome::Discarded)
    }
}

/// The builder reports that the build with `ticket` failed. The entry is
/// cleared, so that the next request tries again.
pub open spec fn build_failed_step(v: RegistryView, id: Seq<char>, ticket: u64) -> (
    RegistryView,
    BuildOutcome,
) {
    if builds_under(v, id, ticket) {
        (
            RegistryView { entries: v.entries.remove(id), ..v },
            BuildOutcome::Cleared { waiters: v.entries[id]->Building_waiters },
        )
    } else {
        (v, BuildOutcome::Discarded)
    }
}

/// A request that was admitted is over. If it read the engine that `id`
/// still has, that engine has one reader less.
pub open spec fn release_step(v: RegistryView, id: Seq<char>, handle: u64) -> RegistryView {
    let inflight = if v.inflight > 0 {
        (v.inflight - 1) as u64
    } else {
        0
    };
    if v.entries.contains_key(id) {
        match v.entries[id] {
            EntryState::Ready { handle: current, readers, atime } => if current == handle && readers
                > 0 {
                RegistryView {
                    entries: v.entries.insert(
                        id,
                        EntryState::Ready { handle, readers: (readers - 1) as u64, atime },
                    ),
                    inflight,
                    ..v
                }
            } else {
                RegistryView { inflight, ..v }
            },
            EntryState::Building { ticket, waiters } => RegistryView { inflight, ..v },
        }
    } else {
        RegistryView { inflight, ..v }
    }
}

/// The rows of `id` changed: whatever the registry holds for it goes.
pub open spec fn invalidate_step(v: RegistryView, id: Seq<char>) -> RegistryView {
    RegistryView { entries: v.entries.remove(id), ..v }
}

/// An engine that may be evicted at `now`: nobody reads it, and its last
/// lookup is at least `idle_ms` milliseconds old.
pub open spec fn evictable(state: EntryState, now: u64, idle_ms: u64) -> bool {
    match state {
        EntryState::Ready { handle, readers, atime } => readers == 0 && now - atime
            >= idle_ms,
        EntryState::Building { ticket, waiters } => false,
    }
}

/// The databases whose engines are evicted at `now`.
pub open spec fn idle_ids(v: RegistryView, now: u64, idle_ms: u64) -> Set<Seq<char>> {
    Set::new(|id: Seq<char>| v.entries.contains_key(id) && evictable(v.entries[id], now, idle_ms))
}

pub open spec fn evict_idle_step(v: RegistryView, now: u64, idle_ms: u64) -> RegistryView {
    RegistryView { entries: v.entries.remove_keys(idle_ids(v, now, idle_ms)), ..v }
}

/// The registry has drained: it admits nothing, and nothing admitted is
/// still running.
pub open spec fn drained(v: RegistryView) -> bool {
    v.draining && v.inflight == 0
}

struct Entry {
    database_id: String,
    state: EntryState,
}

spec fn entry_id() -> spec_fn(Entry) -> Seq<char> {
    |entry: Entry| entry.database_id@
}

spec fn entry_state() -> spec_fn(Entry) -> EntryState {
    |entry: Entry| entry.state
}

spec fn has_id(entries: Seq<Entry>, id: Seq<char>) -> bool {
    has_key(entries, entry_id(), id)
}

spec fn index_of(entries: Seq<Entry>, id: Seq<char>) -> int {
    index_of_key(entries, entry_id(), id)
}

spec fn entries_map(entries: Seq<Entry>) -> Map<Seq<char>, EntryState> {
    as_map(entries, entry_id(), entry_state())
}

/// No two entries are for the same database.
spec fn distinct_ids(entries: Seq<Entry>) -> bool {
    distinct_keys(entries, entry_id())
}

/// The ticket or handle of an entry.
spec fn ticket_of(state: EntryState) -> u64 {
    match state {
        EntryState::Building { ticket, waiters } => ticket,
        EntryState::Ready { handle, readers, atime } => handle,
    }
}

/// Every ticket in use was handed out before `next_ticket`.
spec fn tickets_below(entries: Seq<Entry>, next_ticket: u64) -> bool {
    forall|i: int| 0 <= i < entries.len() ==> ticket_of((#[trigger] entries[i]).state) < next_ticket
}

proof fn lemma_map_at(entries: Seq<Entry>, i: int)
    requires
        distinct_ids(entries),
        0 <= i < entries.len(),
    ensures
        entries_map(entries).contains_key(entries[i].database_id@),
        entries_map(entries)[entries[i].database_id@] == entries[i].state,
{
    lemma_as_map_at(entries, entry_id(), entry_state(), i);
}

proof fn lemma_map_update(entries: Seq<Entry>, i: int, entry: Entry)
    requires
        distinct_ids(entries),
        0 <= i < entries.len(),
        entry.database_id@ == entries[i].database_id@,
    ensures
        distinct_ids(entries.update(i, entry)),
        entries_map(entries.update(i, entry)) == entries_map(entries).insert(
            entry.database_id@,
            entry.state,
        ),
{
    lemma_as_map_update(entries, entry_id(), entry_state(), i, entry);
}

proof fn lemma_map_push(entries: Seq<Entry>, entry: Entry)
    requires
        distinct_ids(entries),
        !has_id(entries, entry.database_id@),
    ensures
        distinct_ids(entries.push(entry)),
        entries_map(entries.push(entry)) == entries_map(entries).insert(
            entry.database_id@,
            entry.state,
        ),
{
    lemma_as_map_push(entries, entry_id(), entry_state(), entry);
}

proof fn lemma_map_remove(entries: Seq<Entry>, i: int)
    requires
        distinct_ids(entries),
        0 <= i < entries.len(),
    ensures
        distinct_ids(entries.remove(i)),
        entries_map(entries.remove(i)) == entries_map(entries).remove(entries[i].database_id@),
{
    lemma_as_map_remove(entries, entry_id(), entry_state(), i);
}

/// The registry of one worker process.
pub struct DatabaseRegistry {
    entries: Vec<Entry>,
    next_ticket: u64,
    inflight: u64,
    draining: bool,
}

impl View for DatabaseRegistry {
    type V = RegistryView;

    closed spec fn view(&self) -> RegistryView {
        RegistryView {
            entries: entries_map(self.entries@),
            next_ticket: self.next_ticket,
            inflight: self.inflight,
            draining: self.draining,
        }
    }
}

impl DatabaseRegistry {
    /// The databases that have an entry, in the order in which the registry
    /// stores them.
    pub closed spec fn stored_ids(&self) -> Seq<Seq<char>> {
        self.entries@.map_values(|entry: Entry| entry.database_id@)
    }

    /// The registry is well formed: no database has two entries, and every
    /// ticket in use was handed out before the next one.
    pub closed spec fn wf(&self) -> bool {
        &&& distinct_ids(self.entries@)
        &&& tickets_below(self.entries@, self.next_ticket)
    }

    pub fn new() -> (registry: Self)
        ensures
            registry.wf(),
            registry@ == (RegistryView {
                entries: Map::empty(),
                next_ticket: 0,
                inflight: 0,
                draining: false,
            }),
    {
        let registry = DatabaseRegistry {
            entries: Vec::new(),
            next_ticket: 0,
            inflight: 0,
            draining: false,
        };
        assert(registry@.entries =~= Map::empty());
        registry
    }

    fn position(&self, database_id: &String) -> (found: Option<usize>)
        ensures
            match found {
                Some(i) => i < self.entries@.len() && self.entries@[i as int].database_id@
                    == database_id@,
                None => !has_id(self.entries@, database_id@),
            },
    {
        let mut i: usize = 0;
        while i < self.entries.len()
            invariant
                i <= self.entries@.len(),
                forall|k: int| 0 <= k < i ==> (#[trigger] self.entries@[k]).database_id@ != database_id@,
            decreases self.entries@.len() - i,
        {
            if self.entries[i].database_id == *database_id {
                return Some(i);
            }
            i += 1;
        }
        None
    }

    /// What the registry holds for a database.
    pub fn state_of(&self, database_id: &str) -> (state: Option<EntryState>)
        requires
            self.wf(),
        ensures
            state == if self@.entries.contains_key(database_id@) {
                Some(self@.entries[database_id@])
            } else {
                None
            },
    {
        let id = database_id.to_owned();
        match self.position(&id) {
            Some(i) => {
                proof {
                    lemma_map_at(self.entries@, i as int);
                }
                Some(self.entries[i].state)
            },
            None => None,
        }
    }

    /// The number of databases that have an entry.
    pub fn len(&self) -> (n: usize)
        ensures
            n == self.stored_ids().len(),
    {
        self.entries.len()
    }

    /// Looks up the engine of a database for a request that arrives at `now`.
    pub fn lookup(&mut self, database_id: &str, now: u64) -> (action: Lookup)
        requires
            old(self).wf(),
        ensures
            final(self).wf(),
            (final(self)@, action) == lookup_step(old(self)@, database_id@, now),
    {
        let id = database_id.to_owned();
        if self.draining || self.inflight == u64::MAX {
            return Lookup::Refused;
        }
        match self.position(&id) {
            None => {
                if self.next_ticket == u64::MAX {
                    return Lookup::Refused;
                }
                let ticket = self.next_ticket;
                let entry = Entry {
                    database_id: id,
                    state: EntryState::Building { ticket, waiters: 0 },
                };
                proof {
                    lemma_map_push(self.entries@, entry);
                }
                self.entries.push(entry);
                self.next_ticket = ticket + 1;
                self.inflight = self.inflight + 1;
                assert(tickets_below(self.entries@, self.next_ticket)) by {
                    assert forall|k: int| 0 <= k < self.entries@.len() implies ticket_of(
                        (#[trigger] self.entries@[k]).state,
                    ) < self.next_ticket by {
                        if k < old(self).entries@.len() {
                            assert(self.entries@[k] == old(self).entries@[k]);
                        }
                    }
                }
                Lookup::Build { ticket }
            },
            Some(i) => {
                proof {
                    lemma_map_at(self.entries@, i as int);
                }
                match self.entries[i].state {
                    EntryState::Building { ticket, waiters } => {
                        if waiters >= u64::MAX - 1 {
                            return Lookup::Refused;
                        }
                        let entry = Entry {
                            database_id: id,
                            state: EntryState::Building { ticket, waiters: waiters + 1 },
                        };
                        proof {
                            lemma_map_update(self.entries@, i as int, entry);
                        }
                        self.entries.set(i, entry);
                        self.inflight = self.inflight + 1;
                        assert(tickets_below(self.entries@, self.next_ticket)) by {
                            assert forall|k: int| 0 <= k < self.entries@.len() implies ticket_of(
                                (#[trigger] self.entries@[k]).state,
                            ) < self.next_ticket by {
                                if k != i {
                                    assert(self.entries@[k] == old(self).entries@[k]);
                                }
                            }
                        }
                        Lookup::Wait { ticket }
                    },
                    EntryState::Ready { handle, readers, atime } => {
                        if readers == u64::MAX {
                            return Lookup::Refused;
                        }
                        let entry = Entry {
                            database_id: id,
                            state: EntryState::Ready { handle, readers: readers + 1, atime: now },
                        };
                        proof {
                            lemma_map_update(self.entries@, i as int, entry);
                        }
                        self.entries.set(i, entry);
                        self.inflight = self.inflight + 1;
                        assert(tickets_below(self.entries@, self.next_ticket)) by {
                            assert forall|k: int| 0 <= k < self.entries@.len() implies ticket_of(
                                (#[trigger] self.entries@[k]).state,
                            ) < self.next_ticket by {
                                if k != i {
                                    assert(self.entries@[k] == old(self).entries@[k]);
                                }
                            }
                        }
                        Lookup::Use { handle }
                    },
                }
            },
        }
    }
}

impl DatabaseRegistry {
    /// Takes the builder's report that the build with `ticket` made an
    /// engine.
    pub fn build_succeeded(&mut self, database_id: &str, ticket: u64, now: u64) -> (outcome:
        BuildOutcome)
        requires
            old(self).wf(),
        ensures
            final(self).wf(),
            (final(self)@, outcome) == build_succeeded_step(old(self)@, database_id@, ticket, now),
    {
        let id = database_id.to_owned();
        match self.position(&id) {
            None => BuildOutcome::Discarded,
            Some(i) => {
                proof {
                    lemma_map_at(self.entries@, i as int);
                }
                match self.entries[i].state {
                    EntryState::Building { ticket: current, waiters } => {
                        if current != ticket {
                            return BuildOutcome::Discarded;
                        }
                        let readers = if waiters < u64::MAX {
                            waiters + 1
                        } else {
                            u64::MAX
                        };
                        let entry = Entry {
                            database_id: id,
                            state: EntryState::Ready { handle: ticket, readers, atime: now },
                        };
                        proof {
                            lemma_map_update(self.entries@, i as int, entry);
                        }
                        self.entries.set(i, entry);
                        assert(tickets_below(self.entries@, self.next_ticket)) by {
                            assert forall|k: int| 0 <= k < self.entries@.len() implies ticket_of(
                                (#[trigger] self.entries@[k]).state,
                            ) < self.next_ticket by {
                                if k != i {
                                    assert(self.entries@[k] == old(self).entries@[k]);
                                } else {
                                    assert(ticket_of(old(self).entries@[k].state) == ticket);
                                }
                            }
                        }
                        BuildOutcome::Published { waiters }
                    },
                    EntryState::Ready { handle, readers, atime } => BuildOutcome::Discarded,
                }
            },
        }
    }

    fn remove_at(&mut self, i: usize)
        requires
            old(self).wf(),
            i < old(self).entries@.len(),
        ensures
            final(self).wf(),
            final(self).entries@ == old(self).entries@.remove(i as int),
            final(self)@ == (RegistryView {
                entries: old(self)@.entries.remove(old(self).entries@[i as int].database_id@),
                ..old(self)@
            }),
    {
        proof {
            lemma_map_remove(self.entries@, i as int);
        }
        self.entries.remove(i);
        assert(tickets_below(self.entries@, self.next_ticket)) by {
            assert forall|k: int| 0 <= k < self.entries@.len() implies ticket_of(
                (#[trigger] self.entries@[k]).state,
            ) < self.next_ticket by {
                let k2 = if k < i {
                    k
                } else {
                    k + 1
                };
                assert(self.entries@[k] == old(self).entries@[k2]);
            }
        }
    }

    /// Takes the builder's report that the build with `ticket` failed.
    pub fn build_failed(&mut self, database_id: &str, ticket: u64) -> (outcome: BuildOutcome)
        requires
            old(self).wf(),
        ensures
            final(self).wf(),
            (final(self)@, outcome) == build_failed_step(old(self)@, database_id@, ticket),
    {
        let id = database_id.to_owned();
        match self.position(&id) {
            None => BuildOutcome::Discarded,
            Some(i) => {
                proof {
                    lemma_map_at(self.entries@, i as int);
                }
                match self.entries[i].state {
                    EntryState::Building { ticket: current, waiters } => {
                        if current != ticket {
                            return BuildOutcome::Discarded;
                        }
                        self.remove_at(i);
                        BuildOutcome::Cleared { waiters }
                    },
                    EntryState::Ready { handle, readers, atime } => BuildOutcome::Discarded,
                }
            },
        }
    }

    /// Takes note that a request which was admitted is over. `handle` is the
    /// engine it read, or the ticket it held.
    pub fn release(&mut self, database_id: &str, handle: u64)
        requires
            old(self).wf(),
        ensures
            final(self).wf(),
            final(self)@ == release_step(old(self)@, database_id@, handle),
    {
        let id = database_id.to_owned();
        if self.inflight > 0 {
            self.inflight = self.inflight - 1;
        }
        match self.position(&id) {
            None => {},
            Some(i) => {
                proof {
                    lemma_map_at(self.entries@, i as int);
                }
                match self.entries[i].state {
                    EntryState::Ready { handle: current, readers, atime } => {
                        if current == handle && readers > 0 {
                            let entry = Entry {
                                database_id: id,
                                state: EntryState::Ready { handle, readers: readers - 1, atime },
                            };
                            proof {
                                lemma_map_update(self.entries@, i as int, entry);
                            }
                            self.entries.set(i, entry);
                            assert(tickets_below(self.entries@, self.next_ticket)) by {
                                assert forall|k: int|
                                    0 <= k < self.entries@.len() implies ticket_of(
                                    (#[trigger] self.entries@[k]).state,
                                ) < self.next_ticket by {
                                    if k != i {
                                        assert(self.entries@[k] == old(self).entries@[k]);
                                    } else {
                                        assert(ticket_of(old(self).entries@[k].state) == handle);
                                    }
                                }
                            }
                        }
                    },
                    EntryState::Building { ticket, waiters } => {},
                }
            },
        }
    }

    /// Drops whatever the registry holds for a database, because its rows
    /// changed. Says whether there was anything to drop.
    pub fn invalidate(&mut self, database_id: &str) -> (dropped: bool)
        requires
            old(self).wf(),
        ensures
            final(self).wf(),
            final(self)@ == invalidate_step(old(self)@, database_id@),
            dropped == old(self)@.entries.contains_key(database_id@),
    {
        let id = database_id.to_owned();
        match self.position(&id) {
            None => {
                assert(self@.entries.remove(database_id@) =~= self@.entries);
                false
            },
            Some(i) => {
                proof {
                    lemma_map_at(self.entries@, i as int);
                }
                self.remove_at(i);
                true
            },
        }
    }

    /// Stops admitting requests.
    pub fn begin_drain(&mut self)
        requires
            old(self).wf(),
        ensures
            final(self).wf(),
            final(self)@ == (RegistryView { draining: true, ..old(self)@ }),
    {
        self.draining = true;
    }

    /// Whether the registry has drained.
    pub fn is_drained(&self) -> (done: bool)
        ensures
            done == drained(self@),
    {
        self.draining && self.inflight == 0
    }

    /// The number of requests admitted and not yet released.
    pub fn inflight(&self) -> (n: u64)
        ensures
            n == self@.inflight,
    {
        self.inflight
    }
}

/// The handle `handle` belongs to an engine that is in `v` for some database
/// and may be evicted at `now`.
pub open spec fn idle_handle(v: RegistryView, now: u64, idle_ms: u64, handle: u64) -> bool {
    exists|id: Seq<char>|
        #![trigger v.entries[id]]
        v.entries.contains_key(id) && evictable(v.entries[id], now, idle_ms) && v.entries[id]
            == (EntryState::Ready {
            handle,
            readers: 0,
            atime: v.entries[id]->Ready_atime,
        })
}

fn may_evict(state: EntryState, now: u64, idle_ms: u64) -> (idle: bool)
    ensures
        idle == evictable(state, now, idle_ms),
{
    match state {
        EntryState::Ready { handle, readers, atime } => readers == 0 && now >= atime && now - atime
            >= idle_ms,
        EntryState::Building { ticket, waiters } => false,
    }
}

impl DatabaseRegistry {
    /// Evicts the engines that at `now` have gone `idle_ms` milliseconds or
    /// more without a lookup, and hands back their handles. An engine with
    /// a reader stays, however old its last lookup.
    pub fn evict_idle(&mut self, now: u64, idle_ms: u64) -> (evicted: Vec<u64>)
        requires
            old(self).wf(),
        ensures
            final(self).wf(),
            final(self)@ == evict_idle_step(old(self)@, now, idle_ms),
            forall|handle: u64|
                evicted@.contains(handle) <==> idle_handle(old(self)@, now, idle_ms, handle),
    {
        let ghost before = self@;
        let mut evicted: Vec<u64> = Vec::new();
        let mut i: usize = 0;
        while i < self.entries.len()
            invariant
                self.wf(),
                i <= self.entries@.len(),
                self@.next_ticket == before.next_ticket,
                self@.inflight == before.inflight,
                self@.draining == before.draining,
                forall|id: Seq<char>| #[trigger]
                    self@.entries.contains_key(id) ==> before.entries.contains_key(id)
                        && before.entries[id] == self@.entries[id],
                forall|id: Seq<char>| #[trigger]
                    before.entries.contains_key(id) && !evictable(before.entries[id], now, idle_ms)
                        ==> self@.entries.contains_key(id),
                forall|k: int| 0 <= k < i ==> !evictable((#[trigger] self.entries@[k]).state, now, idle_ms),
                forall|handle: u64|
                    evicted@.contains(handle) <==> exists|id: Seq<char>|
                        #![trigger before.entries[id]]
                        before.entries.contains_key(id) && !self@.entries.contains_key(id)
                            && before.entries[id] == (EntryState::Ready {
                            handle,
                            readers: 0,
                            atime: before.entries[id]->Ready_atime,
                        }),
            decreases self.entries@.len() - i,
        {
            let state = self.entries[i].state;
            proof {
                lemma_map_at(self.entries@, i as int);
            }
            if may_evict(state, now, idle_ms) {
                let ghost gone = self.entries@[i as int].database_id@;
                let ghost earlier = self@;
                let ghost listed = evicted@;
                let ghost stored = self.entries@;
                let handle = match state {
                    EntryState::Ready { handle, readers, atime } => handle,
                    EntryState::Building { ticket, waiters } => ticket,
                };
                self.remove_at(i);
                evicted.push(handle);
                proof {
                    assert(before.entries[gone] == state);
                    assert forall|k: int| 0 <= k < i implies !evictable(
                        (#[trigger] self.entries@[k]).state,
                        now,
                        idle_ms,
                    ) by {
                        assert(self.entries@[k] == stored[k]);
                    }
                    assert forall|h: u64|
                        evicted@.contains(h) <==> exists|id: Seq<char>|
                            #![trigger before.entries[id]]
                            before.entries.contains_key(id) && !self@.entries.contains_key(id)
                                && before.entries[id] == (EntryState::Ready {
                                handle: h,
                                readers: 0,
                                atime: before.entries[id]->Ready_atime,
                            }) by {
                        if evicted@.contains(h) {
                            let at = choose|at: int| 0 <= at < evicted@.len() && evicted@[at] == h;
                            if at < listed.len() {
                                assert(listed[at] == h);
                                assert(listed.contains(h));
                                let id = choose|id: Seq<char>|
                                    #![trigger before.entries[id]]
                                    before.entries.contains_key(id) && !earlier.entries.contains_key(
                                        id,
                                    ) && before.entries[id] == (EntryState::Ready {
                                        handle: h,
                                        readers: 0,
                                        atime: before.entries[id]->Ready_atime,
                                    });
                                assert(!self@.entries.contains_key(id));
                            } else {
                                assert(h == handle);
                                assert(before.entries.contains_key(gone));
                                assert(!self@.entries.contains_key(gone));
                            }
                        }
                        if exists|id: Seq<char>|
                            #![trigger before.entries[id]]
                            before.entries.contains_key(id) && !self@.entries.contains_key(id)
                                && before.entries[id] == (EntryState::Ready {
                                handle: h,
                                readers: 0,
                                atime: before.entries[id]->Ready_atime,
                            }) {
                            let id = choose|id: Seq<char>|
                                #![trigger before.entries[id]]
                                before.entries.contains_key(id) && !self@.entries.contains_key(id)
                                    && before.entries[id] == (EntryState::Ready {
                                    handle: h,
                                    readers: 0,
                                    atime: before.entries[id]->Ready_atime,
                                });
                            if id == gone {
                                assert(h == handle);
                                assert(evicted@[listed.len() as int] == h);
                            } else {
                                assert(!earlier.entries.contains_key(id));
                                assert(listed.contains(h));
                                let at = choose|at: int| 0 <= at < listed.len() && listed[at] == h;
                                assert(evicted@[at] == h);
                            }
                        }
                    }
                }
            } else {
                i += 1;
            }
        }
        proof {
            assert forall|id: Seq<char>| #[trigger]
                self@.entries.contains_key(id) implies !evictable(before.entries[id], now, idle_ms) by {
                let k = index_of(self.entries@, id);
                lemma_map_at(self.entries@, k);
            }
            assert(self@.entries =~= before.entries.remove_keys(idle_ids(before, now, idle_ms)));
            assert forall|handle: u64|
                evicted@.contains(handle) <==> idle_handle(before, now, idle_ms, handle) by {
                if evicted@.contains(handle) {
                    let id = choose|id: Seq<char>|
                        #![trigger before.entries[id]]
                        before.entries.contains_key(id) && !self@.entries.contains_key(id)
                            && before.entries[id] == (EntryState::Ready {
                            handle,
                            readers: 0,
                            atime: before.entries[id]->Ready_atime,
                        });
                    assert(evictable(before.entries[id], now, idle_ms));
                }
                if idle_handle(before, now, idle_ms, handle) {
                    let id = choose|id: Seq<char>|
                        #![trigger before.entries[id]]
                        before.entries.contains_key(id) && evictable(before.entries[id], now, idle_ms)
                            && before.entries[id] == (EntryState::Ready {
                            handle,
                            readers: 0,
                            atime: before.entries[id]->Ready_atime,
                        });
                    assert(!self@.entries.contains_key(id));
                }
            }
        }
        evicted
    }
}

/// A well-formed registry stores no database twice, and stores exactly the
/// databases that have an entry: so a database has at most one engine.
pub proof fn lemma_one_entry_per_database(registry: &DatabaseRegistry)
    requires
        registry.wf(),
    ensures
        registry.stored_ids().no_duplicates(),
        forall|id: Seq<char>|
            registry.stored_ids().contains(id) <==> #[trigger] registry@.entries.contains_key(id),
{
    let ids = registry.stored_ids();
    let entries = registry.entries@;
    assert forall|i: int, j: int| 0 <= i < ids.len() && 0 <= j < ids.len() && i != j implies ids[i]
        != ids[j] by {
        assert(ids[i] == entries[i].database_id@);
        assert(ids[j] == entries[j].database_id@);
    }
    assert forall|id: Seq<char>| ids.contains(id) <==> #[trigger] registry@.entries.contains_key(
        id,
    ) by {
        if ids.contains(id) {
            let i = choose|i: int| 0 <= i < ids.len() && ids[i] == id;
            assert(entries[i].database_id@ == id);
            assert(has_id(entries, id));
        }
        if has_id(entries, id) {
            let i = index_of(entries, id);
            assert(ids[i] == id);
        }
    }
}

/// A lookup: the database and the instant.
pub type Request = (Seq<char>, u64);

/// The registry after a sequence of lookups, with what each was told.
pub open spec fn run_lookups(v: RegistryView, requests: Seq<Request>) -> (
    RegistryView,
    Seq<Lookup>,
)
    decreases requests.len(),
{
    if requests.len() == 0 {
        (v, Seq::empty())
    } else {
        let (mid, actions) = run_lookups(v, requests.drop_last());
        let (after, action) = lookup_step(mid, requests.last().0, requests.last().1);
        (after, actions.push(action))
    }
}

/// The registry refused none of the requests.
pub open spec fn all_admitted(v: RegistryView, requests: Seq<Request>) -> bool
    decreases requests.len(),
{
    if requests.len() == 0 {
        true
    } else {
        &&& all_admitted(v, requests.drop_last())
        &&& run_lookups(v, requests).1.last() != Lookup::Refused
    }
}

/// How many of the requests are for `id`.
pub open spec fn requests_for(requests: Seq<Request>, id: Seq<char>) -> nat
    decreases requests.len(),
{
    if requests.len() == 0 {
        0
    } else if requests.last().0 == id {
        requests_for(requests.drop_last(), id) + 1
    } else {
        requests_for(requests.drop_last(), id)
    }
}

/// The ticket that the first request for `id` is given, where there is such
/// a request.
pub open spec fn build_ticket(v: RegistryView, requests: Seq<Request>, id: Seq<char>) -> u64
    decreases requests.len(),
{
    if requests.len() == 0 {
        0
    } else if requests_for(requests.drop_last(), id) > 0 {
        build_ticket(v, requests.drop_last(), id)
    } else {
        run_lookups(v, requests.drop_last()).0.next_ticket
    }
}

proof fn lemma_run_lookups_len(v: RegistryView, requests: Seq<Request>)
    ensures
        run_lookups(v, requests).1.len() == requests.len(),
    decreases requests.len(),
{
    if requests.len() > 0 {
        lemma_run_lookups_len(v, requests.drop_last());
    }
}

/// Where the requests for a database without an entry were all admitted, the
/// database is being built as soon as one of them was for it, under the
/// ticket of the first, with the others waiting; and the last request, if it
/// is for that database, was told so.
proof fn lemma_cold_state(v: RegistryView, requests: Seq<Request>, id: Seq<char>)
    requires
        !v.entries.contains_key(id),
        all_admitted(v, requests),
    ensures
        requests_for(requests, id) == 0 ==> !run_lookups(v, requests).0.entries.contains_key(id),
        requests_for(requests, id) > 0 ==> run_lookups(v, requests).0.entries.contains_key(id)
            && run_lookups(v, requests).0.entries[id] == (EntryState::Building {
            ticket: build_ticket(v, requests, id),
            waiters: (requests_for(requests, id) - 1) as u64,
        }) && requests_for(requests, id) - 1 < u64::MAX,
        requests.len() > 0 && requests.last().0 == id ==> run_lookups(v, requests).1.last() == if requests_for(
            requests.drop_last(),
            id,
        ) == 0 {
            Lookup::Build { ticket: build_ticket(v, requests, id) }
        } else {
            Lookup::Wait { ticket: build_ticket(v, requests, id) }
        },
    decreases requests.len(),
{
    if requests.len() > 0 {
        let shorter = requests.drop_last();
        lemma_cold_state(v, shorter, id);
        let mid = run_lookups(v, shorter).0;
        let last = requests.last();
        let step = lookup_step(mid, last.0, last.1);
        assert(run_lookups(v, requests).0 == step.0);
        assert(run_lookups(v, requests).1.last() == step.1);
        assert(step.1 != Lookup::Refused);
        assert(admits(mid, last.0));
        if last.0 != id {
            assert(step.0.entries.contains_key(id) == mid.entries.contains_key(id));
            if mid.entries.contains_key(id) {
                assert(step.0.entries[id] == mid.entries[id]);
            }
        }
    }
}

/// What a request was told depends on the requests up to it alone.
proof fn lemma_action_of_prefix(v: RegistryView, requests: Seq<Request>, k: int)
    requires
        0 <= k < requests.len(),
    ensures
        run_lookups(v, requests).1.len() == requests.len(),
        run_lookups(v, requests).1[k] == run_lookups(v, requests.take(k + 1)).1.last(),
    decreases requests.len(),
{
    lemma_run_lookups_len(v, requests);
    if k == requests.len() - 1 {
        assert(requests.take(k + 1) =~= requests);
    } else {
        let shorter = requests.drop_last();
        lemma_action_of_prefix(v, shorter, k);
        lemma_run_lookups_len(v, shorter);
        assert(shorter.take(k + 1) =~= requests.take(k + 1));
    }
}

proof fn lemma_prefix_admitted(v: RegistryView, requests: Seq<Request>, n: int)
    requires
        0 <= n <= requests.len(),
        all_admitted(v, requests),
    ensures
        all_admitted(v, requests.take(n)),
    decreases requests.len(),
{
    if n == requests.len() {
        assert(requests.take(n) =~= requests);
    } else {
        let shorter = requests.drop_last();
        lemma_prefix_admitted(v, shorter, n);
        assert(shorter.take(n) =~= requests.take(n));
    }
}

proof fn lemma_requests_for_grows(requests: Seq<Request>, id: Seq<char>, n: int)
    requires
        0 <= n <= requests.len(),
    ensures
        requests_for(requests.take(n), id) <= requests_for(requests, id),
    decreases requests.len(),
{
    if n == requests.len() {
        assert(requests.take(n) =~= requests);
    } else {
        let shorter = requests.drop_last();
        lemma_requests_for_grows(shorter, id, n);
        assert(shorter.take(n) =~= requests.take(n));
    }
}

/// Once a request for `id` has arrived, the ticket of its build stays.
proof fn lemma_ticket_stable(v: RegistryView, requests: Seq<Request>, id: Seq<char>, n: int)
    requires
        0 <= n <= requests.len(),
        requests_for(requests.take(n), id) > 0,
    ensures
        build_ticket(v, requests.take(n), id) == build_ticket(v, requests, id),
    decreases requests.len(),
{
    if n == requests.len() {
        assert(requests.take(n) =~= requests);
    } else {
        let shorter = requests.drop_last();
        assert(shorter.take(n) =~= requests.take(n));
        lemma_ticket_stable(v, shorter, id, n);
        lemma_requests_for_grows(shorter, id, n);
    }
}

/// Single flight. Take any sequence of requests, for this database and for
/// others, that arrive while the database has no entry and that the
/// registry admits. Then the first request for the database is told to
/// build, and each later one to wait for that very build. Afterwards the
/// database is being built under the first one's ticket with all the others
/// waiting, so that the report of the build makes the ticket the handle
/// that all of them read.
pub proof fn lemma_cold_requests_share_one_build(
    v: RegistryView,
    requests: Seq<Request>,
    id: Seq<char>,
    now: u64,
)
    requires
        !v.entries.contains_key(id),
        all_admitted(v, requests),
        requests_for(requests, id) > 0,
    ensures
        run_lookups(v, requests).1.len() == requests.len(),
        forall|k: int|
            0 <= k < requests.len() && (#[trigger] requests[k]).0 == id ==> run_lookups(
                v,
                requests,
            ).1[k] == if requests_for(requests.take(k), id) == 0 {
                Lookup::Build { ticket: build_ticket(v, requests, id) }
            } else {
                Lookup::Wait { ticket: build_ticket(v, requests, id) }
            },
        run_lookups(v, requests).0.entries.contains_key(id),
        run_lookups(v, requests).0.entries[id] == (EntryState::Building {
            ticket: build_ticket(v, requests, id),
            waiters: (requests_for(requests, id) - 1) as u64,
        }),
        build_succeeded_step(
            run_lookups(v, requests).0,
            id,
            build_ticket(v, requests, id),
            now,
        ).0.entries[id] == (EntryState::Ready {
            handle: build_ticket(v, requests, id),
            readers: requests_for(requests, id) as u64,
            atime: now,
        }),
{
    lemma_run_lookups_len(v, requests);
    lemma_cold_state(v, requests, id);
    assert forall|k: int|
        0 <= k < requests.len() && (#[trigger] requests[k]).0 == id implies run_lookups(
        v,
        requests,
    ).1[k] == if requests_for(requests.take(k), id) == 0 {
        Lookup::Build { ticket: build_ticket(v, requests, id) }
    } else {
        Lookup::Wait { ticket: build_ticket(v, requests, id) }
    } by {
        let prefix = requests.take(k + 1);
        lemma_action_of_prefix(v, requests, k);
        lemma_prefix_admitted(v, requests, k + 1);
        lemma_cold_state(v, prefix, id);
        assert(prefix.last() == requests[k]);
        assert(prefix.drop_last() =~= requests.take(k));
        assert(requests_for(prefix, id) > 0);
        lemma_ticket_stable(v, requests, id, k + 1);
    }
}

/// After the rows of a database changed, the next request for it that the
/// registry admits is told to build: it never reads an engine from before
/// the change. And a build from before the change can no longer publish
/// its engine.
pub proof fn lemma_lookup_after_invalidate_rebuilds(
    v: RegistryView,
    id: Seq<char>,
    now: u64,
    stale: u64,
)
    requires
        admits(invalidate_step(v, id), id),
        stale < v.next_ticket,
    ensures
        !invalidate_step(v, id).entries.contains_key(id),
        lookup_step(invalidate_step(v, id), id, now).1 == (Lookup::Build { ticket: v.next_ticket }),
        build_succeeded_step(invalidate_step(v, id), id, stale, now).1 == BuildOutcome::Discarded,
        build_succeeded_step(lookup_step(invalidate_step(v, id), id, now).0, id, stale, now).1
            == BuildOutcome::Discarded,
{
}

/// A registry that drains admits no request, and a refused request changes
/// nothing.
pub proof fn lemma_draining_registry_refuses(v: RegistryView, id: Seq<char>, now: u64)
    requires
        v.draining,
    ensures
        lookup_step(v, id, now) == (v, Lookup::Refused),
{
}

/// Eviction leaves every engine that has a reader, and every build, where
/// it is, however long ago the last lookup was.
pub proof fn lemma_eviction_spares_what_is_in_use(
    v: RegistryView,
    id: Seq<char>,
    now: u64,
    idle_ms: u64,
)
    requires
        v.entries.contains_key(id),
        match v.entries[id] {
            EntryState::Ready { handle, readers, atime } => readers > 0,
            EntryState::Building { ticket, waiters } => true,
        },
    ensures
        evict_idle_step(v, now, idle_ms).entries.contains_key(id),
        evict_idle_step(v, now, idle_ms).entries[id] == v.entries[id],
{
}

/// A request that is admitted counts as in flight until it is released, so
/// a registry that has admitted a request and not seen it released has not
/// drained.
pub proof fn lemma_admitted_request_holds_the_drain(v: RegistryView, id: Seq<char>, now: u64)
    requires
        lookup_step(v, id, now).1 != Lookup::Refused,
    ensures
        lookup_step(v, id, now).0.inflight == v.inflight + 1,
        !drained(RegistryView { draining: true, ..lookup_step(v, id, now).0 }),
{
}

/// A lookup of one database leaves what the registry holds for every other
/// database as it is.
pub proof fn lemma_lookup_touches_one_database(
    v: RegistryView,
    id: Seq<char>,
    now: u64,
    other: Seq<char>,
)
    requires
        other != id,
    ensures
        lookup_step(v, id, now).0.entries.contains_key(other) == v.entries.contains_key(other),
        v.entries.contains_key(other) ==> lookup_step(v, id, now).0.entries[other]
            == v.entries[other],
{
}

} // verus!
