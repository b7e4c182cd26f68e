//! The store of rows, kept in memory: for each table of each database the
//! rows in the order in which they were first written.
//!
//! An upsert writes rows into one table. A row whose id the table already
//! has replaces the old row in its place; any other row is appended. With
//! `truncate` the table is emptied first.

use crate::databases::database::{contents_for, row_views, DatabaseRow, RowView};
use crate::keyed::{
    as_map, distinct_keys, has_key, index_of_key, lemma_as_map_at, lemma_as_map_push,
    lemma_as_map_update,
};
use vstd::prelude::*;

verus! {

/// A table is known by its database and its own id.
pub type TableKey = (Seq<char>, Seq<char>);

/// The store as a mathematical value: the rows of each table that was ever
/// written.
pub type StoreView = Map<TableKey, Seq<RowView>>;

/// Some row has this id.
pub open spec fn has_row(rows: Seq<RowView>, row_id: Seq<char>) -> bool {
    exists|i: int| 0 <= i < rows.len() && (#[trigger] rows[i]).row_id == row_id
}

/// The position of a row with this id, where there is one.
pub open spec fn index_of_row(rows: Seq<RowView>, row_id: Seq<char>) -> int {
    choose|i: int| 0 <= i < rows.len() && (#[trigger] rows[i]).row_id == row_id
}

/// No two rows have the same id.
pub open spec fn distinct_rows(rows: Seq<RowView>) -> bool {
    forall|i: int, j: int|
        0 <= i < rows.len() && 0 <= j < rows.len() && (#[trigger] rows[i]).row_id == (
        #[trigger] rows[j]).row_id ==> i == j
}

/// Writes one row: in place of the row with its id, or at the end.
pub open spec fn merge_row(rows: Seq<RowView>, row: RowView) -> Seq<RowView> {
    if has_row(rows, row.row_id) {
        rows.update(index_of_row(rows, row.row_id), row)
    } else {
        rows.push(row)
    }
}

/// Writes rows one after the other.
pub open spec fn merge_rows(existing: Seq<RowView>, rows: Seq<RowView>) -> Seq<RowView>
    decreases rows.len(),
{
    if rows.len() == 0 {
        existing
    } else {
        merge_row(merge_rows(existing, rows.drop_last()), rows.last())
    }
}

/// The row as the table `table_id` holds it.
pub open spec fn stamp(row: RowView, table_id: Seq<char>) -> RowView {
    RowView { table_id, ..row }
}

/// The rows as the table `table_id` holds them.
pub open spec fn stamped(rows: Seq<RowView>, table_id: Seq<char>) -> Seq<RowView> {
    rows.map_values(|row: RowView| stamp(row, table_id))
}

/// The rows of a table; a table that was never written has none.
pub open spec fn rows_at(store: StoreView, database_id: Seq<char>, table_id: Seq<char>) -> Seq<
    RowView,
> {
    if store.contains_key((database_id, table_id)) {
        store[(database_id, table_id)]
    } else {
        Seq::empty()
    }
}

/// The store after an upsert.
pub open spec fn upsert_step(
    store: StoreView,
    database_id: Seq<char>,
    table_id: Seq<char>,
    rows: Seq<RowView>,
    truncate: bool,
) -> StoreView {
    store.insert(
        (database_id, table_id),
        merge_rows(
            if truncate {
                Seq::empty()
            } else {
                rows_at(store, database_id, table_id)
            },
            stamped(rows, table_id),
        ),
    )
}

/// One page of a list: at most `limit` items from position `offset` on;
/// without a page, the whole list.
pub open spec fn page<T>(rows: Seq<T>, limit_offset: Option<(usize, usize)>) -> Seq<T> {
    match limit_offset {
        None => rows,
        Some((limit, offset)) => {
            let from = if offset <= rows.len() {
                offset as int
            } else {
                rows.len() as int
            };
            let to = if from + limit <= rows.len() {
                from + limit
            } else {
                rows.len() as int
            };
            rows.subrange(from, to)
        },
    }
}

/// The rows among `rows` that belong to the table `table_id`, in order.
pub open spec fn rows_of_table(rows: Seq<RowView>, table_id: Seq<char>) -> Seq<RowView>
    decreases rows.len(),
{
    if rows.len() == 0 {
        Seq::empty()
    } else if rows.last().table_id == table_id {
        rows_of_table(rows.drop_last(), table_id).push(rows.last())
    } else {
        rows_of_table(rows.drop_last(), table_id)
    }
}

struct StoredTable {
    database_id: String,
    table_id: String,
    rows: Vec<DatabaseRow>,
}

spec fn table_key() -> spec_fn(StoredTable) -> TableKey {
    |table: StoredTable| (table.database_id@, table.table_id@)
}

spec fn table_rows() -> spec_fn(StoredTable) -> Seq<RowView> {
    |table: StoredTable| row_views(table.rows@)
}

/// Every row carries this table id.
spec fn all_of_table(rows: Seq<RowView>, table_id: Seq<char>) -> bool {
    forall|i: int| 0 <= i < rows.len() ==> (#[trigger] rows[i]).table_id == table_id
}

/// An in-memory store of rows.
pub struct MemoryDatabasesStore {
    tables: Vec<StoredTable>,
}

impl View for MemoryDatabasesStore {
    type V = StoreView;

    closed spec fn view(&self) -> StoreView {
        as_map(self.tables@, table_key(), table_rows())
    }
}

impl MemoryDatabasesStore {
    /// The store is well formed: no table is stored twice, no table holds
    /// two rows with the same id, and every row carries the id of its table.
    pub closed spec fn wf(&self) -> bool {
        &&& distinct_keys(self.tables@, table_key())
        &&& forall|t: int|
            0 <= t < self.tables@.len() ==> distinct_rows(
                row_views((#[trigger] self.tables@[t]).rows@),
            ) && all_of_table(row_views(self.tables@[t].rows@), self.tables@[t].table_id@)
    }

    pub fn new() -> (store: Self)
        ensures
            store.wf(),
            store@ == Map::<TableKey, Seq<RowView>>::empty(),
    {
        let store = MemoryDatabasesStore { tables: Vec::new() };
        assert(store@ =~= Map::<TableKey, Seq<RowView>>::empty());
        store
    }

    fn position(&self, database_id: &String, table_id: &String) -> (found: Option<usize>)
        ensures
            match found {
                Some(t) => t < self.tables@.len() && self.tables@[t as int].database_id@
                    == database_id@ && self.tables@[t as int].table_id@ == table_id@,
                None => !has_key(self.tables@, table_key(), (database_id@, table_id@)),
            },
    {
        let mut t: usize = 0;
        while t < self.tables.len()
            invariant
                t <= self.tables@.len(),
                forall|k: int|
                    0 <= k < t ==> table_key()(#[trigger] self.tables@[k]) != (
                        database_id@,
                        table_id@,
                    ),
            decreases self.tables@.len() - t,
        {
            if self.tables[t].database_id == *database_id && self.tables[t].table_id == *table_id {
                return Some(t);
            }
            t += 1;
        }
        None
    }

    /// The rows of a table, all of them or one page, and how many rows the
    /// table has in all.
    pub fn list_rows(
        &self,
        database_id: &str,
        table_id: &str,
        limit_offset: Option<(usize, usize)>,
    ) -> (listed: (Vec<DatabaseRow>, usize))
        requires
            self.wf(),
        ensures
            row_views(listed.0@) == page(rows_at(self@, database_id@, table_id@), limit_offset),
            listed.1 == rows_at(self@, database_id@, table_id@).len(),
    {
        let database = database_id.to_owned();
        let table = table_id.to_owned();
        match self.position(&database, &table) {
            None => {
                let rows: Vec<DatabaseRow> = Vec::new();
                assert(row_views(rows@) =~= page(
                    rows_at(self@, database_id@, table_id@),
                    limit_offset,
                ));
                (rows, 0)
            },
            Some(t) => {
                proof {
                    lemma_as_map_at(self.tables@, table_key(), table_rows(), t as int);
                }
                let stored = &self.tables[t].rows;
                let total = stored.len();
                let (from, to) = match limit_offset {
                    None => (0, total),
                    Some((limit, offset)) => {
                        let from = if offset <= total {
                            offset
                        } else {
                            total
                        };
                        let to = if limit <= total - from {
                            from + limit
                        } else {
                            total
                        };
                        (from, to)
                    },
                };
                let mut rows: Vec<DatabaseRow> = Vec::new();
                let mut i: usize = from;
                while i < to
                    invariant
                        from <= i <= to <= stored@.len(),
                        rows@.len() == i - from,
                        forall|k: int| 0 <= k < rows@.len() ==> (#[trigger] rows@[k])@ == stored@[from + k]@,
                    decreases to - i,
                {
                    rows.push(stored[i].clone());
                    i += 1;
                }
                assert(row_views(rows@) =~= row_views(stored@).subrange(from as int, to as int));
                assert(row_views(stored@).subrange(0, total as int) =~= row_views(stored@));
                (rows, total)
            },
        }
    }
}

proof fn lemma_merge_row_keeps(rows: Seq<RowView>, row: RowView, table_id: Seq<char>)
    requires
        distinct_rows(rows),
        all_of_table(rows, table_id),
        row.table_id == table_id,
    ensures
        distinct_rows(merge_row(rows, row)),
        all_of_table(merge_row(rows, row), table_id),
{
    let merged = merge_row(rows, row);
    if has_row(rows, row.row_id) {
        let at = index_of_row(rows, row.row_id);
        assert forall|i: int, j: int|
            0 <= i < merged.len() && 0 <= j < merged.len() && (#[trigger] merged[i]).row_id == (
            #[trigger] merged[j]).row_id implies i == j by {
            assert(merged[i].row_id == rows[i].row_id);
            assert(merged[j].row_id == rows[j].row_id);
        }
    } else {
        assert forall|i: int, j: int|
            0 <= i < merged.len() && 0 <= j < merged.len() && (#[trigger] merged[i]).row_id == (
            #[trigger] merged[j]).row_id implies i == j by {
            if i < rows.len() {
                assert(merged[i] == rows[i]);
            }
            if j < rows.len() {
                assert(merged[j] == rows[j]);
            }
        }
        assert forall|i: int| 0 <= i < merged.len() implies (#[trigger] merged[i]).table_id
            == table_id by {
            if i < rows.len() {
                assert(merged[i] == rows[i]);
            }
        }
    }
}

/// Writes one row into a list of rows.
fn write_row(merged: &mut Vec<DatabaseRow>, row: DatabaseRow)
    requires
        distinct_rows(row_views(old(merged)@)),
    ensures
        row_views(final(merged)@) == merge_row(row_views(old(merged)@), row@),
{
    let ghost before = row_views(merged@);
    let mut k: usize = 0;
    while k < merged.len()
        invariant
            k <= merged@.len(),
            merged@ == old(merged)@,
            before == row_views(merged@),
            distinct_rows(before),
            forall|j: int| 0 <= j < k ==> (#[trigger] before[j]).row_id != row@.row_id,
        decreases merged@.len() - k,
    {
        assert(before[k as int] == merged@[k as int]@);
        if merged[k].same_row_id(&row) {
            assert(has_row(before, row@.row_id));
            assert(index_of_row(before, row@.row_id) == k);
            merged.set(k, row);
            assert(row_views(merged@) =~= before.update(k as int, row@));
            return ;
        }
        k += 1;
    }
    assert(!has_row(before, row@.row_id));
    merged.push(row);
    assert(row_views(merged@) =~= before.push(row@));
}

fn copy_rows(rows: &Vec<DatabaseRow>) -> (copy: Vec<DatabaseRow>)
    ensures
        row_views(copy@) == row_views(rows@),
{
    let mut copy: Vec<DatabaseRow> = Vec::new();
    let mut i: usize = 0;
    while i < rows.len()
        invariant
            i <= rows@.len(),
            copy@.len() == i,
            forall|k: int| 0 <= k < i ==> (#[trigger] copy@[k])@ == rows@[k]@,
        decreases rows@.len() - i,
    {
        copy.push(rows[i].clone());
        i += 1;
    }
    assert(row_views(copy@) =~= row_views(rows@));
    copy
}

impl MemoryDatabasesStore {
    /// Writes rows into a table, after emptying it if `truncate` is set.
    pub fn batch_upsert(
        &mut self,
        database_id: &str,
        table_id: &str,
        rows: &Vec<DatabaseRow>,
        truncate: bool,
    )
        requires
            old(self).wf(),
        ensures
            final(self).wf(),
            final(self)@ == upsert_step(
                old(self)@,
                database_id@,
                table_id@,
                row_views(rows@),
                truncate,
            ),
    {
        let database = database_id.to_owned();
        let table = table_id.to_owned();
        let found = self.position(&database, &table);
        let ghost base = if truncate {
            Seq::<RowView>::empty()
        } else {
            rows_at(self@, database_id@, table_id@)
        };
        let ghost incoming = stamped(row_views(rows@), table_id@);
        let mut merged: Vec<DatabaseRow> = match found {
            Some(t) => {
                proof {
                    lemma_as_map_at(self.tables@, table_key(), table_rows(), t as int);
                }
                if truncate {
                    Vec::new()
                } else {
                    copy_rows(&self.tables[t].rows)
                }
            },
            None => Vec::new(),
        };
        assert(row_views(merged@) =~= base);
        let mut i: usize = 0;
        assert(incoming.take(0) =~= Seq::<RowView>::empty());
        while i < rows.len()
            invariant
                i <= rows@.len(),
                incoming == stamped(row_views(rows@), table_id@),
                row_views(merged@) == merge_rows(base, incoming.take(i as int)),
                distinct_rows(row_views(merged@)),
                all_of_table(row_views(merged@), table_id@),
            decreases rows@.len() - i,
        {
            let row = rows[i].in_table(table_id);
            proof {
                assert(row@ == incoming[i as int]);
                assert(incoming.take(i + 1).drop_last() =~= incoming.take(i as int));
                assert(incoming.take(i + 1).last() == row@);
                lemma_merge_row_keeps(row_views(merged@), row@, table_id@);
            }
            write_row(&mut merged, row);
            i += 1;
        }
        assert(incoming.take(i as int) =~= incoming);
        let entry = StoredTable { database_id: database, table_id: table, rows: merged };
        match found {
            Some(t) => {
                proof {
                    lemma_as_map_update(self.tables@, table_key(), table_rows(), t as int, entry);
                }
                self.tables.set(t, entry);
                assert forall|k: int| 0 <= k < self.tables@.len() implies distinct_rows(
                    row_views((#[trigger] self.tables@[k]).rows@),
                ) && all_of_table(row_views(self.tables@[k].rows@), self.tables@[k].table_id@) by {
                    if k != t {
                        assert(self.tables@[k] == old(self).tables@[k]);
                    }
                }
            },
            None => {
                proof {
                    lemma_as_map_push(self.tables@, table_key(), table_rows(), entry);
                }
                self.tables.push(entry);
                assert forall|k: int| 0 <= k < self.tables@.len() implies distinct_rows(
                    row_views((#[trigger] self.tables@[k]).rows@),
                ) && all_of_table(row_views(self.tables@[k].rows@), self.tables@[k].table_id@) by {
                    if k < old(self).tables@.len() {
                        assert(self.tables@[k] == old(self).tables@[k]);
                    }
                }
            },
        }
    }
}

/// Writing rows with distinct ids into an empty table leaves exactly those
/// rows, in their order.
pub proof fn lemma_merge_into_empty(rows: Seq<RowView>)
    requires
        distinct_rows(rows),
    ensures
        merge_rows(Seq::empty(), rows) == rows,
    decreases rows.len(),
{
    if rows.len() > 0 {
        let shorter = rows.drop_last();
        assert forall|i: int, j: int|
            0 <= i < shorter.len() && 0 <= j < shorter.len() && (#[trigger] shorter[i]).row_id == (
            #[trigger] shorter[j]).row_id implies i == j by {
            assert(shorter[i] == rows[i]);
            assert(shorter[j] == rows[j]);
        }
        lemma_merge_into_empty(shorter);
        if has_row(shorter, rows.last().row_id) {
            let i = index_of_row(shorter, rows.last().row_id);
            assert(shorter[i] == rows[i]);
            assert(rows[rows.len() - 1].row_id == rows[i].row_id);
        }
        assert(shorter.push(rows.last()) =~= rows);
    } else {
        assert(rows =~= Seq::<RowView>::empty());
    }
}

/// After rows were written into a table with `truncate`, the table lists
/// exactly those rows, in their order, and counts as many: provided that no
/// two of them have the same id and that each carries the id of the table.
pub proof fn lemma_truncating_upsert_round_trip(
    store: StoreView,
    database_id: Seq<char>,
    table_id: Seq<char>,
    rows: Seq<RowView>,
)
    requires
        distinct_rows(rows),
        forall|i: int| 0 <= i < rows.len() ==> (#[trigger] rows[i]).table_id == table_id,
    ensures
        rows_at(upsert_step(store, database_id, table_id, rows, true), database_id, table_id)
            == rows,
        page(
            rows_at(upsert_step(store, database_id, table_id, rows, true), database_id, table_id),
            None,
        ) == rows,
        rows_at(
            upsert_step(store, database_id, table_id, rows, true),
            database_id,
            table_id,
        ).len() == rows.len(),
{
    assert(stamped(rows, table_id) =~= rows);
    lemma_merge_into_empty(rows);
}

/// Writing the same rows twice with `truncate` leaves the store as writing
/// them once does.
pub proof fn lemma_truncating_upsert_idempotent(
    store: StoreView,
    database_id: Seq<char>,
    table_id: Seq<char>,
    rows: Seq<RowView>,
)
    ensures
        upsert_step(
            upsert_step(store, database_id, table_id, rows, true),
            database_id,
            table_id,
            rows,
            true,
        ) == upsert_step(store, database_id, table_id, rows, true),
{
    let once = upsert_step(store, database_id, table_id, rows, true);
    let twice = upsert_step(once, database_id, table_id, rows, true);
    assert(twice =~= once);
}

/// Writing no rows with `truncate` empties the table, and leaves every other
/// table as it was.
pub proof fn lemma_truncating_with_no_rows_empties(
    store: StoreView,
    database_id: Seq<char>,
    table_id: Seq<char>,
)
    ensures
        rows_at(
            upsert_step(store, database_id, table_id, Seq::empty(), true),
            database_id,
            table_id,
        ) == Seq::<RowView>::empty(),
        forall|other_database: Seq<char>, other_table: Seq<char>|
            (other_database, other_table) != (database_id, table_id) ==> #[trigger] rows_at(
                upsert_step(store, database_id, table_id, Seq::empty(), true),
                other_database,
                other_table,
            ) == rows_at(store, other_database, other_table),
{
    assert(stamped(Seq::<RowView>::empty(), table_id) =~= Seq::<RowView>::empty());
}

/// An upsert into one table leaves the rows of every other table as they
/// were.
pub proof fn lemma_upsert_touches_one_table(
    store: StoreView,
    database_id: Seq<char>,
    table_id: Seq<char>,
    rows: Seq<RowView>,
    truncate: bool,
    other_database: Seq<char>,
    other_table: Seq<char>,
)
    requires
        (other_database, other_table) != (database_id, table_id),
    ensures
        rows_at(
            upsert_step(store, database_id, table_id, rows, truncate),
            other_database,
            other_table,
        ) == rows_at(store, other_database, other_table),
{
}

/// How often the store tries an operation that fails for a passing reason.
pub const MAX_ATTEMPTS: u32 = 3;

/// The pause before the second attempt, in milliseconds.
pub const INITIAL_BACKOFF_MS: u64 = 1_000;

/// The longest pause between two attempts, in milliseconds.
pub const MAX_BACKOFF_MS: u64 = 8_000;

/// The pause after the given number of failed attempts: it starts at
/// `INITIAL_BACKOFF_MS`, doubles with each failure and stops growing at
/// `MAX_BACKOFF_MS`.
pub open spec fn backoff_ms(failures: nat) -> nat
    decreases failures,
{
    if failures <= 1 {
        INITIAL_BACKOFF_MS as nat
    } else if 2 * backoff_ms((failures - 1) as nat) <= MAX_BACKOFF_MS {
        2 * backoff_ms((failures - 1) as nat)
    } else {
        MAX_BACKOFF_MS as nat
    }
}

/// What to do after an attempt has failed.
#[derive(Clone, Copy, PartialEq, Eq, Structural, Debug)]
pub enum Retry {
    /// Try again after this many milliseconds.
    After { ms: u64 },
    /// Report the failure.
    GiveUp,
}

/// What the store does after `failures` attempts have failed, the last for
/// a reason that is passing or not: it tries again only after a passing
/// failure, and only while attempts are left.
pub open spec fn retry_decision(failures: u32, transient: bool) -> Retry {
    if transient && 0 < failures < MAX_ATTEMPTS {
        Retry::After { ms: backoff_ms(failures as nat) as u64 }
    } else {
        Retry::GiveUp
    }
}

proof fn lemma_backoff_bounded(failures: nat)
    ensures
        INITIAL_BACKOFF_MS <= backoff_ms(failures) <= MAX_BACKOFF_MS,
    decreases failures,
{
    if failures > 1 {
        lemma_backoff_bounded((failures - 1) as nat);
    }
}

/// Decides whether to try again after a failed attempt.
pub fn after_failure(failures: u32, transient: bool) -> (decision: Retry)
    ensures
        decision == retry_decision(failures, transient),
{
    if !transient || failures == 0 || failures >= MAX_ATTEMPTS {
        return Retry::GiveUp;
    }
    let mut ms: u64 = INITIAL_BACKOFF_MS;
    let mut n: u32 = 1;
    while n < failures
        invariant
            1 <= n <= failures,
            ms == backoff_ms(n as nat),
            INITIAL_BACKOFF_MS <= ms <= MAX_BACKOFF_MS,
        decreases failures - n,
    {
        proof {
            lemma_backoff_bounded((n + 1) as nat);
        }
        ms = if 2 * ms <= MAX_BACKOFF_MS {
            2 * ms
        } else {
            MAX_BACKOFF_MS
        };
        n += 1;
    }
    Retry::After { ms }
}

proof fn lemma_rows_of_table_concat(a: Seq<RowView>, b: Seq<RowView>, table_id: Seq<char>)
    ensures
        rows_of_table(a + b, table_id) == rows_of_table(a, table_id) + rows_of_table(b, table_id),
    decreases b.len(),
{
    if b.len() == 0 {
        assert(a + b =~= a);
        assert(rows_of_table(a, table_id) + rows_of_table(b, table_id) =~= rows_of_table(
            a,
            table_id,
        ));
    } else {
        lemma_rows_of_table_concat(a, b.drop_last(), table_id);
        assert((a + b).drop_last() =~= a + b.drop_last());
        assert((a + b).last() == b.last());
        if b.last().table_id == table_id {
            assert((rows_of_table(a, table_id) + rows_of_table(b.drop_last(), table_id)).push(
                b.last(),
            ) =~= rows_of_table(a, table_id) + rows_of_table(b.drop_last(), table_id).push(
                b.last(),
            ));
        }
    }
}

proof fn lemma_rows_of_own_table(rows: Seq<RowView>, own: Seq<char>, table_id: Seq<char>)
    requires
        all_of_table(rows, own),
    ensures
        rows_of_table(rows, table_id) == if table_id == own {
            rows
        } else {
            Seq::empty()
        },
    decreases rows.len(),
{
    if rows.len() > 0 {
        let shorter = rows.drop_last();
        assert forall|i: int| 0 <= i < shorter.len() implies (#[trigger] shorter[i]).table_id
            == own by {
            assert(shorter[i] == rows[i]);
        }
        lemma_rows_of_own_table(shorter, own, table_id);
        assert(rows[rows.len() - 1].table_id == own);
        if table_id == own {
            assert(shorter.push(rows.last()) =~= rows);
        }
    } else {
        assert(rows =~= Seq::<RowView>::empty());
    }
}

fn append_rows(out: &mut Vec<DatabaseRow>, rows: &Vec<DatabaseRow>)
    ensures
        row_views(final(out)@) == row_views(old(out)@) + row_views(rows@),
{
    let ghost before = row_views(out@);
    let mut i: usize = 0;
    assert(row_views(rows@).take(0) =~= Seq::<RowView>::empty());
    assert(before + Seq::<RowView>::empty() =~= before);
    while i < rows.len()
        invariant
            i <= rows@.len(),
            row_views(out@) == before + row_views(rows@).take(i as int),
        decreases rows@.len() - i,
    {
        let ghost sofar = row_views(out@);
        out.push(rows[i].clone());
        assert(row_views(out@) =~= sofar.push(rows@[i as int]@));
        assert(row_views(rows@).take(i + 1) =~= row_views(rows@).take(i as int).push(
            rows@[i as int]@,
        ));
        assert(before + row_views(rows@).take(i + 1) =~= sofar.push(rows@[i as int]@));
        i += 1;
    }
    assert(row_views(rows@).take(i as int) =~= row_views(rows@));
}

impl MemoryDatabasesStore {
    /// The rows of all tables of a database. Rows of one table stay
    /// together and in their order.
    pub fn list_rows_all_tables(&self, database_id: &str) -> (rows: Vec<DatabaseRow>)
        requires
            self.wf(),
        ensures
            forall|table_id: Seq<char>| #[trigger]
                rows_of_table(row_views(rows@), table_id) == rows_at(
                    self@,
                    database_id@,
                    table_id,
                ),
    {
        let database = database_id.to_owned();
        let mut out: Vec<DatabaseRow> = Vec::new();
        let mut t: usize = 0;
        proof {
            assert(self.tables@.take(0) =~= Seq::<StoredTable>::empty());
            assert(as_map(self.tables@.take(0), table_key(), table_rows()) =~= Map::<
                TableKey,
                Seq<RowView>,
            >::empty());
            assert(row_views(out@) =~= Seq::<RowView>::empty());
        }
        while t < self.tables.len()
            invariant
                self.wf(),
                t <= self.tables@.len(),
                database@ == database_id@,
                distinct_keys(self.tables@.take(t as int), table_key()),
                forall|table_id: Seq<char>| #[trigger]
                    rows_of_table(row_views(out@), table_id) == rows_at(
                        as_map(self.tables@.take(t as int), table_key(), table_rows()),
                        database_id@,
                        table_id,
                    ),
            decreases self.tables@.len() - t,
        {
            let ghost seen = self.tables@.take(t as int);
            let ghost entry = self.tables@[t as int];
            let ghost before = row_views(out@);
            let ghost map_before = as_map(seen, table_key(), table_rows());
            proof {
                assert(self.tables@.take(t + 1) =~= seen.push(entry));
                if has_key(seen, table_key(), table_key()(entry)) {
                    let k = index_of_key(seen, table_key(), table_key()(entry));
                    assert(seen[k] == self.tables@[k]);
                    assert(table_key()(self.tables@[k]) == table_key()(self.tables@[t as int]));
                }
                lemma_as_map_push(seen, table_key(), table_rows(), entry);
            }
            let ghost map_after = as_map(self.tables@.take(t + 1), table_key(), table_rows());
            assert(map_after == map_before.insert(table_key()(entry), table_rows()(entry)));
            if self.tables[t].database_id == database {
                append_rows(&mut out, &self.tables[t].rows);
                proof {
                    let added = row_views(entry.rows@);
                    assert forall|table_id: Seq<char>| #[trigger]
                        rows_of_table(row_views(out@), table_id) == rows_at(
                            map_after,
                            database_id@,
                            table_id,
                        ) by {
                        lemma_rows_of_table_concat(before, added, table_id);
                        lemma_rows_of_own_table(added, entry.table_id@, table_id);
                        assert(rows_of_table(before, table_id) == rows_at(
                            map_before,
                            database_id@,
                            table_id,
                        ));
                        if table_id == entry.table_id@ {
                            assert(!map_before.contains_key((database_id@, table_id)));
                            assert(Seq::<RowView>::empty() + added =~= added);
                        } else {
                            assert(rows_of_table(before, table_id) + Seq::<RowView>::empty()
                                =~= rows_of_table(before, table_id));
                        }
                    }
                }
            } else {
                proof {
                    assert forall|table_id: Seq<char>| #[trigger]
                        rows_of_table(row_views(out@), table_id) == rows_at(
                            map_after,
                            database_id@,
                            table_id,
                        ) by {
                        assert(rows_of_table(before, table_id) == rows_at(
                            map_before,
                            database_id@,
                            table_id,
                        ));
                    }
                }
            }
            t += 1;
        }
        assert(self.tables@.take(t as int) =~= self.tables@);
        out
    }
}

impl MemoryDatabasesStore {
    /// The ids of the tables of a database that were ever written, each
    /// once.
    fn table_ids(&self, database_id: &str) -> (table_ids: Vec<String>)
        requires
            self.wf(),
        ensures
            forall|table_id: Seq<char>|
                (exists|i: int|
                    0 <= i < table_ids@.len() && (#[trigger] table_ids@[i])@ == table_id)
                    <==> self@.contains_key((database_id@, table_id)),
            forall|i: int, j: int|
                0 <= i < table_ids@.len() && 0 <= j < table_ids@.len() && (#[trigger] table_ids@[i])@
                    == (#[trigger] table_ids@[j])@ ==> i == j,
    {
        let database = database_id.to_owned();
        let mut table_ids: Vec<String> = Vec::new();
        let ghost mut origin: Seq<int> = Seq::empty();
        let mut t: usize = 0;
        while t < self.tables.len()
            invariant
                self.wf(),
                t <= self.tables@.len(),
                database@ == database_id@,
                origin.len() == table_ids@.len(),
                forall|i: int, j: int|
                    0 <= i < j < origin.len() ==> #[trigger] origin[i] < #[trigger] origin[j],
                forall|i: int|
                    0 <= i < origin.len() ==> 0 <= #[trigger] origin[i] < t
                        && self.tables@[origin[i]].database_id@ == database_id@
                        && self.tables@[origin[i]].table_id@ == table_ids@[i]@,
                forall|k: int|
                    0 <= k < t && (#[trigger] self.tables@[k]).database_id@ == database_id@
                        ==> exists|i: int| 0 <= i < origin.len() && #[trigger] origin[i] == k,
            decreases self.tables@.len() - t,
        {
            if self.tables[t].database_id == database {
                let ghost before = origin;
                table_ids.push(self.tables[t].table_id.clone());
                proof {
                    origin = origin.push(t as int);
                    assert forall|k: int|
                        0 <= k < t + 1 && (#[trigger] self.tables@[k]).database_id@
                            == database_id@ implies exists|i: int|
                        0 <= i < origin.len() && #[trigger] origin[i] == k by {
                        if k < t {
                            let i = choose|i: int| 0 <= i < before.len() && #[trigger] before[i] == k;
                            assert(origin[i] == k);
                        } else {
                            assert(origin[before.len() as int] == k);
                        }
                    }
                }
            }
            t += 1;
        }
        proof {
            assert forall|table_id: Seq<char>|
                (exists|i: int|
                    0 <= i < table_ids@.len() && (#[trigger] table_ids@[i])@ == table_id)
                    <==> self@.contains_key((database_id@, table_id)) by {
                if exists|i: int|
                    0 <= i < table_ids@.len() && (#[trigger] table_ids@[i])@ == table_id {
                    let i = choose|i: int|
                        0 <= i < table_ids@.len() && (#[trigger] table_ids@[i])@ == table_id;
                    lemma_as_map_at(self.tables@, table_key(), table_rows(), origin[i]);
                }
                if self@.contains_key((database_id@, table_id)) {
                    let k = index_of_key(self.tables@, table_key(), (database_id@, table_id));
                    assert(self.tables@[k].database_id@ == database_id@);
                    let i = choose|i: int| 0 <= i < origin.len() && #[trigger] origin[i] == k;
                    assert(table_ids@[i]@ == table_id);
                }
            }
            assert forall|i: int, j: int|
                0 <= i < table_ids@.len() && 0 <= j < table_ids@.len() && (#[trigger] table_ids@[i])@
                    == (#[trigger] table_ids@[j])@ implies i == j by {
                let a = origin[i];
                let b = origin[j];
                assert(table_key()(self.tables@[a]) == table_key()(self.tables@[b]));
                assert(a == b);
                if i < j {
                    assert(origin[i] < origin[j]);
                }
                if j < i {
                    assert(origin[j] < origin[i]);
                }
            }
        }
        table_ids
    }
}

/// The contents of the rows of a table are the contents of its rows.
pub proof fn lemma_contents_of_table_rows(rows: Seq<RowView>, table_id: Seq<char>)
    ensures
        contents_for(rows, table_id) == rows_of_table(rows, table_id).map_values(
            |row: RowView| row.content,
        ),
    decreases rows.len(),
{
    if rows.len() > 0 {
        lemma_contents_of_table_rows(rows.drop_last(), table_id);
        let earlier = rows_of_table(rows.drop_last(), table_id);
        if rows.last().table_id == table_id {
            assert(earlier.push(rows.last()).map_values(|row: RowView| row.content)
                =~= earlier.map_values(|row: RowView| row.content).push(rows.last().content));
        }
    } else {
        assert(contents_for(rows, table_id) =~= rows_of_table(rows, table_id).map_values(
            |row: RowView| row.content,
        ));
    }
}

/// The ids are those of the tables of the database in the store, each
/// once.
pub open spec fn lists_tables_of(all: Seq<Seq<char>>, store: StoreView, database_id: Seq<char>) -> bool {
    &&& all.no_duplicates()
    &&& forall|table_id: Seq<char>|
        all.contains(table_id) <==> #[trigger] store.contains_key((database_id, table_id))
}

pub open spec fn ids_view(ids: Seq<String>) -> Seq<Seq<char>> {
    ids.map_values(|id: String| id@)
}

impl MemoryDatabasesStore {
    /// The ids of the tables of a database that were ever written, all of
    /// them or one page, and how many tables the database has in all. The
    /// order of the tables is that in which they were first written.
    pub fn list_tables(&self, database_id: &str, limit_offset: Option<(usize, usize)>) -> (listed: (
        Vec<String>,
        usize,
    ))
        requires
            self.wf(),
        ensures
            exists|all: Seq<Seq<char>>|
                #![trigger lists_tables_of(all, self@, database_id@)]
                lists_tables_of(all, self@, database_id@) && listed.1 == all.len() && ids_view(
                    listed.0@,
                ) == page(all, limit_offset),
    {
        let all = self.table_ids(database_id);
        let total = all.len();
        let ghost views = ids_view(all@);
        proof {
            assert forall|i: int, j: int|
                0 <= i < views.len() && 0 <= j < views.len() && i != j implies views[i]
                != views[j] by {
                assert(views[i] == all@[i]@);
                assert(views[j] == all@[j]@);
            }
            assert forall|table_id: Seq<char>|
                views.contains(table_id) <==> #[trigger] self@.contains_key(
                    (database_id@, table_id),
                ) by {
                if views.contains(table_id) {
                    let i = choose|i: int| 0 <= i < views.len() && views[i] == table_id;
                    assert(all@[i]@ == table_id);
                }
                if self@.contains_key((database_id@, table_id)) {
                    let i = choose|i: int|
                        0 <= i < all@.len() && (#[trigger] all@[i])@ == table_id;
                    assert(views[i] == table_id);
                }
            }
            assert(lists_tables_of(views, self@, database_id@));
        }
        let (from, to) = match limit_offset {
            None => (0, total),
            Some((limit, offset)) => {
                let from = if offset <= total {
                    offset
                } else {
                    total
                };
                let to = if limit <= total - from {
                    from + limit
                } else {
                    total
                };
                (from, to)
            },
        };
        let mut ids: Vec<String> = Vec::new();
        let mut i: usize = from;
        while i < to
            invariant
                from <= i <= to <= all@.len(),
                ids@.len() == i - from,
                forall|k: int| 0 <= k < ids@.len() ==> (#[trigger] ids@[k])@ == all@[from + k]@,
            decreases to - i,
        {
            ids.push(all[i].clone());
            i += 1;
        }
        proof {
            assert(ids_view(ids@) =~= views.subrange(from as int, to as int));
            assert(views.subrange(0, total as int) =~= views);
        }
        (ids, total)
    }
}

} // verus!
