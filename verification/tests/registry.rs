use dust::sqlite_workers::registry::{
    BuildOutcome, DatabaseRegistry, EntryState, Lookup, IDLE_EVICTION_MS,
};

#[test]
fn ten_requests_for_a_cold_database_share_one_build() {
    let mut registry = DatabaseRegistry::new();
    let mut builds = 0;
    let mut waits = 0;
    for now in 0..10u64 {
        match registry.lookup("D", now) {
            Lookup::Build { ticket } => {
                assert_eq!(ticket, 0);
                builds += 1;
            }
            Lookup::Wait { ticket } => {
                assert_eq!(ticket, 0);
                waits += 1;
            }
            other => panic!("unexpected: {:?}", other),
        }
    }
    assert_eq!(builds, 1);
    assert_eq!(waits, 9);
    assert_eq!(registry.state_of("D"), Some(EntryState::Building { ticket: 0, waiters: 9 }));
    assert_eq!(registry.build_succeeded("D", 0, 20), BuildOutcome::Published { waiters: 9 });
    assert_eq!(
        registry.state_of("D"),
        Some(EntryState::Ready { handle: 0, readers: 10, atime: 20 })
    );
    assert_eq!(registry.inflight(), 10);
    assert_eq!(registry.len(), 1);
}

#[test]
fn requests_for_other_databases_build_on_their_own() {
    let mut registry = DatabaseRegistry::new();
    assert_eq!(registry.lookup("A", 1), Lookup::Build { ticket: 0 });
    assert_eq!(registry.lookup("B", 2), Lookup::Build { ticket: 1 });
    assert_eq!(registry.lookup("A", 3), Lookup::Wait { ticket: 0 });
    assert_eq!(registry.lookup("B", 4), Lookup::Wait { ticket: 1 });
    assert_eq!(registry.len(), 2);
    assert_eq!(registry.build_succeeded("B", 1, 5), BuildOutcome::Published { waiters: 1 });
    assert_eq!(registry.state_of("A"), Some(EntryState::Building { ticket: 0, waiters: 1 }));
    assert_eq!(registry.lookup("B", 6), Lookup::Use { handle: 1 });
    assert_eq!(registry.state_of("B"), Some(EntryState::Ready { handle: 1, readers: 3, atime: 6 }));
}

#[test]
fn an_upsert_makes_the_next_request_build_again() {
    let mut registry = DatabaseRegistry::new();
    assert_eq!(registry.lookup("D", 1), Lookup::Build { ticket: 0 });
    assert_eq!(registry.build_succeeded("D", 0, 2), BuildOutcome::Published { waiters: 0 });
    registry.release("D", 0);
    assert_eq!(registry.lookup("D", 3), Lookup::Use { handle: 0 });
    registry.release("D", 0);
    assert!(registry.invalidate("D"));
    assert_eq!(registry.state_of("D"), None);
    assert_eq!(registry.lookup("D", 4), Lookup::Build { ticket: 1 });
    assert_eq!(registry.build_succeeded("D", 1, 5), BuildOutcome::Published { waiters: 0 });
    assert_eq!(registry.lookup("D", 6), Lookup::Use { handle: 1 });
    assert!(!registry.invalidate("other"));
}

#[test]
fn a_build_from_before_an_upsert_is_discarded() {
    let mut registry = DatabaseRegistry::new();
    assert_eq!(registry.lookup("D", 1), Lookup::Build { ticket: 0 });
    assert!(registry.invalidate("D"));
    assert_eq!(registry.build_succeeded("D", 0, 2), BuildOutcome::Discarded);
    assert_eq!(registry.state_of("D"), None);
    assert_eq!(registry.lookup("D", 3), Lookup::Build { ticket: 1 });
    assert_eq!(registry.build_succeeded("D", 0, 4), BuildOutcome::Discarded);
    assert_eq!(registry.build_failed("D", 0), BuildOutcome::Discarded);
    assert_eq!(registry.state_of("D"), Some(EntryState::Building { ticket: 1, waiters: 0 }));
    assert_eq!(registry.build_succeeded("D", 1, 5), BuildOutcome::Published { waiters: 0 });
    assert_eq!(registry.build_succeeded("D", 1, 6), BuildOutcome::Discarded);
    assert_eq!(registry.build_failed("D", 1), BuildOutcome::Discarded);
}

#[test]
fn a_failed_build_clears_the_entry_and_does_not_poison_the_next() {
    let mut registry = DatabaseRegistry::new();
    assert_eq!(registry.lookup("D", 1), Lookup::Build { ticket: 0 });
    assert_eq!(registry.lookup("D", 2), Lookup::Wait { ticket: 0 });
    assert_eq!(registry.build_failed("D", 0), BuildOutcome::Cleared { waiters: 1 });
    assert_eq!(registry.state_of("D"), None);
    registry.release("D", 0);
    registry.release("D", 0);
    assert_eq!(registry.inflight(), 0);
    assert_eq!(registry.lookup("D", 3), Lookup::Build { ticket: 1 });
}

#[test]
fn releasing_counts_readers_down() {
    let mut registry = DatabaseRegistry::new();
    registry.lookup("D", 1);
    registry.lookup("D", 2);
    registry.build_succeeded("D", 0, 3);
    assert_eq!(registry.state_of("D"), Some(EntryState::Ready { handle: 0, readers: 2, atime: 3 }));
    registry.release("D", 0);
    assert_eq!(registry.state_of("D"), Some(EntryState::Ready { handle: 0, readers: 1, atime: 3 }));
    assert_eq!(registry.inflight(), 1);
    registry.release("D", 99);
    assert_eq!(registry.state_of("D"), Some(EntryState::Ready { handle: 0, readers: 1, atime: 3 }));
    assert_eq!(registry.inflight(), 0);
    registry.release("D", 0);
    assert_eq!(registry.state_of("D"), Some(EntryState::Ready { handle: 0, readers: 0, atime: 3 }));
    assert_eq!(registry.inflight(), 0);
    registry.release("D", 0);
    assert_eq!(registry.state_of("D"), Some(EntryState::Ready { handle: 0, readers: 0, atime: 3 }));
}

#[test]
fn idle_engines_are_evicted_but_not_under_a_reader() {
    let mut registry = DatabaseRegistry::new();
    registry.lookup("idle", 0);
    registry.build_succeeded("idle", 0, 0);
    registry.release("idle", 0);
    registry.lookup("busy", 0);
    registry.build_succeeded("busy", 1, 0);
    registry.lookup("fresh", 0);
    registry.build_succeeded("fresh", 2, 0);
    registry.release("fresh", 2);
    registry.lookup("fresh", 1_000);
    registry.release("fresh", 2);
    registry.lookup("building", 0);
    assert_eq!(registry.evict_idle(IDLE_EVICTION_MS - 1, IDLE_EVICTION_MS), Vec::<u64>::new());
    assert_eq!(registry.len(), 4);
    assert_eq!(registry.evict_idle(IDLE_EVICTION_MS, IDLE_EVICTION_MS), vec![0]);
    assert_eq!(registry.state_of("idle"), None);
    assert_eq!(registry.state_of("busy"), Some(EntryState::Ready { handle: 1, readers: 1, atime: 0 }));
    assert_eq!(registry.state_of("fresh"), Some(EntryState::Ready { handle: 2, readers: 0, atime: 1_000 }));
    assert_eq!(registry.state_of("building"), Some(EntryState::Building { ticket: 3, waiters: 0 }));
    registry.release("busy", 1);
    assert_eq!(registry.evict_idle(IDLE_EVICTION_MS + 999, IDLE_EVICTION_MS), vec![1]);
    assert_eq!(registry.evict_idle(IDLE_EVICTION_MS + 1_000, IDLE_EVICTION_MS), vec![2]);
    assert_eq!(registry.len(), 1);
    assert_eq!(IDLE_EVICTION_MS, 300_000);
}

#[test]
fn the_time_that_an_engine_may_idle_can_be_set() {
    let mut registry = DatabaseRegistry::new();
    registry.lookup("D", 100);
    registry.build_succeeded("D", 0, 100);
    registry.release("D", 0);
    assert_eq!(registry.evict_idle(1_099, 1_000), Vec::<u64>::new());
    assert_eq!(registry.evict_idle(1_100, 1_000), vec![0]);
    registry.lookup("E", 100);
    registry.build_succeeded("E", 1, 100);
    registry.release("E", 1);
    assert_eq!(registry.evict_idle(100, 0), vec![1]);
}

#[test]
fn an_engine_looked_at_after_now_is_not_idle() {
    let mut registry = DatabaseRegistry::new();
    registry.lookup("D", 1_000_000);
    registry.build_succeeded("D", 0, 1_000_000);
    registry.release("D", 0);
    assert_eq!(registry.evict_idle(0, IDLE_EVICTION_MS), Vec::<u64>::new());
    assert_eq!(registry.len(), 1);
}

#[test]
fn a_draining_registry_admits_nothing_and_is_done_when_all_is_released() {
    let mut registry = DatabaseRegistry::new();
    assert!(!registry.is_drained());
    registry.lookup("D", 1);
    registry.build_succeeded("D", 0, 2);
    registry.begin_drain();
    assert!(!registry.is_drained());
    assert_eq!(registry.lookup("D", 3), Lookup::Refused);
    assert_eq!(registry.lookup("E", 3), Lookup::Refused);
    assert_eq!(registry.state_of("D"), Some(EntryState::Ready { handle: 0, readers: 1, atime: 2 }));
    assert_eq!(registry.state_of("E"), None);
    registry.release("D", 0);
    assert!(registry.is_drained());
}

#[test]
fn a_new_registry_is_empty() {
    let registry = DatabaseRegistry::new();
    assert_eq!(registry.len(), 0);
    assert_eq!(registry.inflight(), 0);
    assert_eq!(registry.state_of("D"), None);
    assert!(!registry.is_drained());
}
