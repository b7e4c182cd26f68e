//! The control plane's list of workers: for each pod the instant of its last
//! heartbeat. Queries are routed to workers whose heartbeat is fresh.

use crate::keyed::{
    as_map, distinct_keys, has_key, index_of_key, lemma_as_map_at, lemma_as_map_push,
    lemma_as_map_remove, lemma_as_map_update,
};
use crate::sqlite_workers::lifecycle::HEARTBEAT_INTERVAL_MS;
use crate::sqlite_workers::sqlite_workers::{
    heartbeat_is_fresh, SqliteWorker, HEARTBEAT_LIVENESS_MS,
};
use vstd::prelude::*;

verus! {

/// The directory as a mathematical value: the last heartbeat of each pod.
pub type DirectoryView = Map<Seq<char>, u64>;

/// Some worker of the directory is alive at `now`.
pub open spec fn some_alive(directory: DirectoryView, now: u64) -> bool {
    exists|pod_name: Seq<char>|
        directory.contains_key(pod_name) && heartbeat_is_fresh(#[trigger] directory[pod_name], now)
}

spec fn worker_pod() -> spec_fn(SqliteWorker) -> Seq<char> {
    |worker: SqliteWorker| worker.spec_pod_name()
}

spec fn worker_heartbeat() -> spec_fn(SqliteWorker) -> u64 {
    |worker: SqliteWorker| worker.spec_last_heartbeat()
}

pub struct WorkerDirectory {
    workers: Vec<SqliteWorker>,
}

impl View for WorkerDirectory {
    type V = DirectoryView;

    closed spec fn view(&self) -> DirectoryView {
        as_map(self.workers@, worker_pod(), worker_heartbeat())
    }
}

impl WorkerDirectory {
    /// No pod is listed twice.
    pub closed spec fn wf(&self) -> bool {
        distinct_keys(self.workers@, worker_pod())
    }

    pub fn new() -> (directory: Self)
        ensures
            directory.wf(),
            directory@ == Map::<Seq<char>, u64>::empty(),
    {
        let directory = WorkerDirectory { workers: Vec::new() };
        assert(directory@ =~= Map::<Seq<char>, u64>::empty());
        directory
    }

    fn position(&self, pod_name: &String) -> (found: Option<usize>)
        ensures
            match found {
                Some(i) => i < self.workers@.len() && self.workers@[i as int].spec_pod_name()
                    == pod_name@,
                None => !has_key(self.workers@, worker_pod(), pod_name@),
            },
    {
        let mut i: usize = 0;
        while i < self.workers.len()
            invariant
                i <= self.workers@.len(),
                forall|k: int|
                    0 <= k < i ==> worker_pod()(#[trigger] self.workers@[k]) != pod_name@,
            decreases self.workers@.len() - i,
        {
            if self.workers[i].is_pod(pod_name) {
                return Some(i);
            }
            i += 1;
        }
        None
    }

    /// Takes a heartbeat of a pod at `now`: the pod is listed from now on,
    /// with this heartbeat as its last.
    pub fn register_or_refresh(&mut self, pod_name: &str, now: u64)
        requires
            old(self).wf(),
        ensures
            final(self).wf(),
            final(self)@ == old(self)@.insert(pod_name@, now),
    {
        let name = pod_name.to_owned();
        let found = self.position(&name);
        let worker = SqliteWorker::new(name, now);
        match found {
            Some(i) => {
                proof {
                    lemma_as_map_update(
                        self.workers@,
                        worker_pod(),
                        worker_heartbeat(),
                        i as int,
                        worker,
                    );
                }
                self.workers.set(i, worker);
            },
            None => {
                proof {
                    lemma_as_map_push(self.workers@, worker_pod(), worker_heartbeat(), worker);
                }
                self.workers.push(worker);
            },
        }
    }

    /// Takes a pod off the list. Says whether it was listed.
    pub fn deregister(&mut self, pod_name: &str) -> (listed: bool)
        requires
            old(self).wf(),
        ensures
            final(self).wf(),
            final(self)@ == old(self)@.remove(pod_name@),
            listed == old(self)@.contains_key(pod_name@),
    {
        let name = pod_name.to_owned();
        match self.position(&name) {
            Some(i) => {
                proof {
                    lemma_as_map_at(self.workers@, worker_pod(), worker_heartbeat(), i as int);
                    lemma_as_map_remove(self.workers@, worker_pod(), worker_heartbeat(), i as int);
                }
                self.workers.remove(i);
                true
            },
            None => {
                assert(self@.remove(pod_name@) =~= self@);
                false
            },
        }
    }

    /// A worker that is alive at `now`, if there is one. Which one of
    /// several is not promised.
    pub fn pick_live_worker(&self, now: u64) -> (picked: Option<&SqliteWorker>)
        requires
            self.wf(),
        ensures
            match picked {
                Some(worker) => self@.contains_key(worker.spec_pod_name())
                    && self@[worker.spec_pod_name()] == worker.spec_last_heartbeat()
                    && heartbeat_is_fresh(worker.spec_last_heartbeat(), now),
                None => !some_alive(self@, now),
            },
    {
        let mut i: usize = 0;
        while i < self.workers.len()
            invariant
                self.wf(),
                i <= self.workers@.len(),
                forall|k: int|
                    0 <= k < i ==> !heartbeat_is_fresh(
                        (#[trigger] self.workers@[k]).spec_last_heartbeat(),
                        now,
                    ),
            decreases self.workers@.len() - i,
        {
            if self.workers[i].is_alive_at(now) {
                proof {
                    lemma_as_map_at(self.workers@, worker_pod(), worker_heartbeat(), i as int);
                }
                return Some(&self.workers[i]);
            }
            i += 1;
        }
        proof {
            if some_alive(self@, now) {
                let pod_name = choose|pod_name: Seq<char>|
                    self@.contains_key(pod_name) && heartbeat_is_fresh(#[trigger] self@[pod_name], now);
                let k = index_of_key(self.workers@, worker_pod(), pod_name);
                lemma_as_map_at(self.workers@, worker_pod(), worker_heartbeat(), k);
                assert(!heartbeat_is_fresh(self.workers@[k].spec_last_heartbeat(), now));
            }
        }
        None
    }

    /// The last heartbeat of a pod, if it is listed.
    pub fn last_heartbeat_of(&self, pod_name: &str) -> (at: Option<u64>)
        requires
            self.wf(),
        ensures
            at == if self@.contains_key(pod_name@) {
                Some(self@[pod_name@])
            } else {
                None
            },
    {
        let name = pod_name.to_owned();
        match self.position(&name) {
            Some(i) => {
                proof {
                    lemma_as_map_at(self.workers@, worker_pod(), worker_heartbeat(), i as int);
                }
                Some(self.workers[i].last_heartbeat())
            },
            None => None,
        }
    }
}

/// A pod whose last heartbeat lies `HEARTBEAT_LIVENESS_MS` or more in the
/// past is not alive, so a directory that lists only such pods routes to
/// nobody.
pub proof fn lemma_silent_worker_is_not_picked(directory: DirectoryView, now: u64)
    requires
        forall|pod_name: Seq<char>|
            directory.contains_key(pod_name) ==> now - #[trigger] directory[pod_name]
                >= HEARTBEAT_LIVENESS_MS,
    ensures
        !some_alive(directory, now),
{
}

/// A worker that heartbeats at its pace stays alive when one heartbeat is
/// lost: two paces after its last heartbeat it still counts.
pub proof fn lemma_one_lost_heartbeat_is_forgiven(last_heartbeat: u64, now: u64)
    requires
        now - last_heartbeat <= 2 * HEARTBEAT_INTERVAL_MS,
    ensures
        heartbeat_is_fresh(last_heartbeat, now),
{
}

} // verus!
