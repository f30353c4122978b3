//! The row kinds the engine persists, and what every kind must provide
//! to take part in batch writes, bulk deletes and recovery.

use vstd::prelude::*;

use crate::config::{IngestConfig, RetryConfig};
use crate::errors::IngestError;
use crate::retry::{backoff_at, run_retries, spec_failed_attempts, spec_retry_succeeds, AttemptLog};
use crate::store::{spec_max_block_height, spec_max_block_timestamp, StoreModel, StoreTables};
use blocks::Block;
use vstd::seq_lib::lemma_flatten_concat;
use vstd::string::StringExecFns;

pub mod account_changes;
pub mod blocks;

verus! {

/// A row that carries the timestamp of the block it belongs to.
pub trait Timestamped {
    /// The block timestamp of one row.
    spec fn row_timestamp(self) -> u64;
}

/// The rows of `rows` whose block timestamp is not `ts`, in order:
/// what a bulk delete by timestamp leaves behind.
pub open spec fn without_timestamp<T: Timestamped>(rows: Seq<T>, ts: u64) -> Seq<T> {
    rows.filter(|r: T| r.row_timestamp() != ts)
}

/// The number of fields (columns) of a row kind.
pub trait FieldCount {
    /// The number of fields on the struct.
    spec fn spec_field_count() -> usize;

    /// The number of fields on the struct.
    fn field_count() -> (r: usize)
        ensures
            r == Self::spec_field_count(),
    ;
}

/// What a row kind provides to the batch writer, the bulk delete of the
/// recovery manager, and the model store: its table, its statements,
/// and how its rows enter and leave a store.
pub trait MySqlMethods: FieldCount + Timestamped + Sized {
    /// The name of the table this kind is stored in.
    spec fn table_name() -> Seq<char>;

    /// This kind's table inside a model store.
    spec fn table_view(store: StoreModel) -> Seq<Self>;

    /// The content of every *other* table of a model store: this
    /// kind's own table is erased, so two stores agree on this view
    /// exactly when an operation touched nothing but this kind's table.
    spec fn others_view(store: StoreModel) -> StoreTables;

    /// The text of the bulk-insert statement for `count` rows.
    spec fn insert_query_text(count: int) -> Seq<char>;

    /// The text of the delete-by-block-timestamp statement.
    spec fn delete_query_text() -> Seq<char>;

    /// Builds the bulk-insert statement for `count` rows: the insert
    /// template followed by `count` placeholder groups, one per row.
    /// Zero rows are a caller bug and are rejected.
    fn insert_query(count: usize) -> (r: Result<String, IngestError>)
        requires
            count * Self::spec_field_count() + 1 <= usize::MAX,
        ensures
            count == 0 ==> (r matches Err(e) && e == IngestError::EmptyInput),
            count >= 1 ==> (r matches Ok(q) && q@ == Self::insert_query_text(count as int)),
    ;

    /// Builds the delete-by-block-timestamp statement.
    fn delete_query() -> (r: String)
        ensures
            r@ == Self::delete_query_text(),
    ;

    /// The name of the table this kind is stored in, as text.
    fn name() -> (r: String)
        ensures
            r@ == Self::table_name(),
    ;

    /// Appends rows to this kind's table of the model store, leaving
    /// every other table as it was.
    fn append_rows(store: &mut StoreModel, rows: Vec<Self>)
        ensures
            Self::table_view(*final(store)) == Self::table_view(*old(store)) + rows@,
            Self::others_view(*final(store)) == Self::others_view(*old(store)),
    ;

    /// Deletes every row of this kind's table whose block timestamp is
    /// `ts`, leaving every other table as it was.
    fn delete_rows(store: &mut StoreModel, ts: u64)
        ensures
            Self::table_view(*final(store)) == without_timestamp(
                Self::table_view(*old(store)),
                ts,
            ),
            Self::others_view(*final(store)) == Self::others_view(*old(store)),
    ;
}

/// The input split into chunks of at most `c` rows, in order: full
/// chunks of exactly `c` rows, and a final shorter one if rows remain.
pub open spec fn spec_chunks<T>(s: Seq<T>, c: int) -> Seq<Seq<T>>
    recommends
        c >= 1,
    decreases s.len(),
{
    if c < 1 || s.len() == 0 {
        Seq::empty()
    } else if s.len() <= c {
        seq![s]
    } else {
        seq![s.take(c)] + spec_chunks(s.skip(c), c)
    }
}

/// LAW (chunking): splitting a row collection of size `n` into chunks
/// of at most `c >= 1` rows yields exactly `ceil(n / c)` chunks; chunk
/// `i` is the non-empty, order-preserving sub-range of the input from
/// `i*c` up to `min(n, (i+1)*c)`, so the chunks are disjoint, and their
/// concatenation is the input again.
pub proof fn lemma_chunking<T>(s: Seq<T>, c: int)
    requires
        c >= 1,
    ensures
        spec_chunks(s, c).len() == (s.len() + c - 1) / c,
        forall|i: int|
            0 <= i < spec_chunks(s, c).len() ==> #[trigger] spec_chunks(s, c)[i] == s.subrange(
                i * c,
                if s.len() < (i + 1) * c {
                    s.len() as int
                } else {
                    (i + 1) * c
                },
            ) && i * c < s.len() && spec_chunks(s, c)[i].len() >= 1,
        spec_chunks(s, c).flatten() == s,
    decreases s.len(),
{
    let chunks = spec_chunks(s, c);
    if s.len() == 0 {
        assert(s.len() + c - 1 < c);
        vstd::arithmetic::div_mod::lemma_basic_div(s.len() + c - 1, c);
        assert(chunks.flatten() =~= s);
    } else if s.len() <= c {
        vstd::arithmetic::div_mod::lemma_basic_div(s.len() + c - 1 - c, c);
        vstd::arithmetic::div_mod::lemma_div_plus_one(s.len() + c - 1 - c, c);
        assert((s.len() + c - 1) / c == 1);
        chunks.lemma_flatten_one_element();
        assert(chunks.flatten() == s);
        assert forall|i: int| 0 <= i < chunks.len() implies #[trigger] chunks[i] == s.subrange(
            i * c,
            if s.len() < (i + 1) * c {
                s.len() as int
            } else {
                (i + 1) * c
            },
        ) && i * c < s.len() && chunks[i].len() >= 1 by {
            assert(i == 0);
            assert(i * c == 0) by (nonlinear_arith)
                requires
                    i == 0,
            ;
            assert(s.subrange(0, s.len() as int) =~= s);
        }
    } else {
        let tail = s.skip(c);
        lemma_chunking(tail, c);
        vstd::arithmetic::div_mod::lemma_div_plus_one(s.len() - 1, c);
        assert(chunks.len() == 1 + spec_chunks(tail, c).len());
        assert(tail.len() + c - 1 == s.len() - 1);
        assert((s.len() + c - 1) / c == 1 + (s.len() - 1) / c);
        lemma_flatten_concat(seq![s.take(c)], spec_chunks(tail, c));
        assert(seq![s.take(c)].flatten() == s.take(c)) by {
            seq![s.take(c)].lemma_flatten_one_element();
        }
        assert(chunks.flatten() =~= s);
        assert forall|i: int| 0 <= i < chunks.len() implies #[trigger] chunks[i] == s.subrange(
            i * c,
            if s.len() < (i + 1) * c {
                s.len() as int
            } else {
                (i + 1) * c
            },
        ) && i * c < s.len() && chunks[i].len() >= 1 by {
            if i == 0 {
                assert(s.take(c) =~= s.subrange(0, c));
                assert(chunks[0].len() == c);
                assert(i * c == 0) by (nonlinear_arith)
                    requires
                        i == 0,
                ;
            } else {
                let j = i - 1;
                assert(j * c == i * c - c) by (nonlinear_arith)
                    requires
                        j == i - 1,
                ;
                assert((j + 1) * c == (i + 1) * c - c) by (nonlinear_arith)
                    requires
                        j == i - 1,
                ;
                assert(j * c >= 0) by (nonlinear_arith)
                    requires
                        j >= 0,
                        c >= 1,
                ;
                assert(j * c < (j + 1) * c) by (nonlinear_arith)
                    requires
                        c >= 1,
                ;
                assert(chunks[i] == spec_chunks(tail, c)[j]);
                assert(j * c < tail.len() && spec_chunks(tail, c)[j].len() >= 1);
                let lo = j * c;
                let hi = if tail.len() < (j + 1) * c {
                    tail.len() as int
                } else {
                    (j + 1) * c
                };
                let lo2 = i * c;
                let hi2 = if s.len() < (i + 1) * c {
                    s.len() as int
                } else {
                    (i + 1) * c
                };
                assert(hi2 == hi + c);
                assert(lo2 == lo + c);
                assert(chunks[i] == tail.subrange(lo, hi));
                assert(0 <= lo && lo < hi && hi <= tail.len());
                assert forall|k: int| 0 <= k < hi - lo implies tail.subrange(lo, hi)[k]
                    == s.subrange(lo2, hi2)[k] by {
                    assert(tail[lo + k] == s[c + lo + k]);
                }
                assert(tail.subrange(lo, hi) =~= s.subrange(lo2, hi2));
            }
        }
    }
}

/// The two lookups the recovery manager makes against the store.
#[derive(Debug, Clone, Copy, PartialEq, Eq)]
pub enum SelectQuery {
    MaxBlockTimestamp,
    MaxBlockHeight,
}

impl SelectQuery {
    /// The statement text of this lookup.
    pub open spec fn query_text(self) -> Seq<char> {
        match self {
            SelectQuery::MaxBlockTimestamp => "SELECT block_timestamp FROM blocks ORDER BY block_timestamp DESC LIMIT 1"@,
            SelectQuery::MaxBlockHeight => "SELECT block_height FROM blocks ORDER BY block_height DESC LIMIT 1"@,
        }
    }

    /// The statement text of this lookup.
    pub fn text(&self) -> (r: &'static str)
        ensures
            r@ == self.query_text(),
    {
        match self {
            SelectQuery::MaxBlockTimestamp => "SELECT block_timestamp FROM blocks ORDER BY block_timestamp DESC LIMIT 1",
            SelectQuery::MaxBlockHeight => "SELECT block_height FROM blocks ORDER BY block_height DESC LIMIT 1",
        }
    }

    /// What this lookup returns on a given blocks table.
    pub open spec fn spec_eval(self, blocks: Seq<Block>) -> Option<u64> {
        match self {
            SelectQuery::MaxBlockTimestamp => spec_max_block_timestamp(blocks),
            SelectQuery::MaxBlockHeight => spec_max_block_height(blocks),
        }
    }
}

/// Runs one lookup through the retry executor.  Entry `i` of `fails`
/// says whether attempt `i` fails transiently; attempts beyond the
/// schedule succeed.  On success the lookup's value on the store comes
/// back; an exhausted budget is fatal and surfaces the statement and
/// the attempt count.
pub fn select_retry_or_panic(
    store: &StoreModel,
    query: SelectQuery,
    fails: &Vec<bool>,
    cfg: &RetryConfig,
) -> (r: Result<Option<u64>, IngestError>)
    requires
        cfg.wf(),
    ensures
        spec_retry_succeeds(fails@, cfg.retry_count as int) ==> (r matches Ok(v) && v
            == query.spec_eval(store.blocks@)),
        !spec_retry_succeeds(fails@, cfg.retry_count as int) ==> (r matches Err(e)
            && e matches IngestError::RetriesExhausted { table, statement, attempts } && table@
            == "blocks"@ && statement@ == query.query_text() && attempts == cfg.retry_count),
{
    let log = run_retries(fails, cfg);
    if log.succeeded {
        let v = match query {
            SelectQuery::MaxBlockTimestamp => store.max_block_timestamp(),
            SelectQuery::MaxBlockHeight => store.max_block_height(),
        };
        Ok(v)
    } else {
        Err(
            IngestError::RetriesExhausted {
                table: String::from_str("blocks"),
                statement: String::from_str(query.text()),
                attempts: log.attempts,
            },
        )
    }
}

/// Writes one batch of rows through the retry executor: the bulk-insert
/// statement is built once, then attempted until it succeeds or the
/// budget is exhausted.  On success the rows are appended to the kind's
/// table exactly once; on exhaustion nothing is written and the error
/// is fatal.  An empty batch is a caller bug.
pub fn insert_retry_or_panic<T: MySqlMethods>(
    store: &mut StoreModel,
    items: Vec<T>,
    fails: &Vec<bool>,
    cfg: &RetryConfig,
) -> (r: Result<AttemptLog, IngestError>)
    requires
        cfg.wf(),
        items@.len() * T::spec_field_count() + 1 <= usize::MAX,
    ensures
        items@.len() == 0 ==> (r matches Err(e) && e == IngestError::EmptyInput && *final(store)
            == *old(store)),
        items@.len() >= 1 && spec_retry_succeeds(fails@, cfg.retry_count as int) ==> (r matches Ok(
            log,
        ) && log.succeeded && log.attempts == spec_failed_attempts(fails@, cfg.retry_count as int)
            + 1 && log.intervals@.len() == spec_failed_attempts(fails@, cfg.retry_count as int) && (
        forall|k: int| 0 <= k < log.intervals@.len() ==> log.intervals@[k] == backoff_at(*cfg, k))
            && T::table_view(*final(store)) == T::table_view(*old(store)) + items@
            && T::others_view(*final(store)) == T::others_view(*old(store))),
        items@.len() >= 1 && !spec_retry_succeeds(fails@, cfg.retry_count as int) ==> (r matches Err(
            e,
        ) && e matches IngestError::RetriesExhausted { table, statement, attempts } && table@
            == T::table_name() && statement@ == T::insert_query_text(items@.len() as int)
            && attempts == cfg.retry_count && *final(store) == *old(store)),
{
    let query = match T::insert_query(items.len()) {
        Ok(q) => q,
        Err(e) => {
            return Err(e);
        },
    };
    let log = run_retries(fails, cfg);
    if log.succeeded {
        T::append_rows(store, items);
        Ok(log)
    } else {
        Err(
            IngestError::RetriesExhausted {
                table: T::name(),
                statement: query,
                attempts: log.attempts,
            },
        )
    }
}

/// Deletes every row of one kind whose block timestamp is `timestamp`,
/// through the retry executor.  On success the kind's table keeps
/// exactly the rows with a different timestamp; on exhaustion nothing
/// is deleted and the error is fatal.
pub fn delete_retry_or_panic<T: MySqlMethods>(
    store: &mut StoreModel,
    timestamp: u64,
    fails: &Vec<bool>,
    cfg: &RetryConfig,
) -> (r: Result<AttemptLog, IngestError>)
    requires
        cfg.wf(),
    ensures
        spec_retry_succeeds(fails@, cfg.retry_count as int) ==> (r matches Ok(log) && log.succeeded
            && T::table_view(*final(store)) == without_timestamp(
            T::table_view(*old(store)),
            timestamp,
        ) && T::others_view(*final(store)) == T::others_view(*old(store))),
        !spec_retry_succeeds(fails@, cfg.retry_count as int) ==> (r matches Err(e)
            && e matches IngestError::RetriesExhausted { table, statement, attempts } && table@
            == T::table_name() && statement@ == T::delete_query_text() && attempts
            == cfg.retry_count && *final(store) == *old(store)),
{
    let query = T::delete_query();
    let log = run_retries(fails, cfg);
    if log.succeeded {
        T::delete_rows(store, timestamp);
        Ok(log)
    } else {
        Err(
            IngestError::RetriesExhausted {
                table: T::name(),
                statement: query,
                attempts: log.attempts,
            },
        )
    }
}

/// The failure schedule of chunk `i`: its entry of the per-chunk
/// schedules, or the empty schedule (the first attempt succeeds) when
/// the schedules list is shorter.
pub open spec fn schedule_at(fails: Seq<Vec<bool>>, i: int) -> Seq<bool> {
    if 0 <= i < fails.len() {
        fails[i]@
    } else {
        Seq::empty()
    }
}

/// Whether chunk `i`'s write exhausts the retry budget.
pub open spec fn op_fails(fails: Seq<Vec<bool>>, i: int, retry_count: int) -> bool {
    !spec_retry_succeeds(schedule_at(fails, i), retry_count)
}

/// The first failing chunk index at or after `i`, or `n` when none of
/// the chunks `i..n` fails.
pub open spec fn first_failing_chunk_from(
    fails: Seq<Vec<bool>>,
    retry_count: int,
    i: int,
    n: int,
) -> int
    decreases n - i,
{
    if i >= n {
        n
    } else if op_fails(fails, i, retry_count) {
        i
    } else {
        first_failing_chunk_from(fails, retry_count, i + 1, n)
    }
}

/// The first chunk whose write exhausts the retry budget, or the chunk
/// count when every chunk succeeds.
pub open spec fn first_failing_chunk(fails: Seq<Vec<bool>>, retry_count: int, n: int) -> int {
    first_failing_chunk_from(fails, retry_count, 0, n)
}

/// If the chunks `i..j` all succeed and chunk `j` fails (or `j` is the
/// chunk count), the first failing chunk at or after `i` is `j`.
proof fn lemma_first_failing_chunk_from(
    fails: Seq<Vec<bool>>,
    retry_count: int,
    i: int,
    n: int,
    j: int,
)
    requires
        0 <= i <= j <= n,
        forall|k: int| i <= k < j ==> !op_fails(fails, k, retry_count),
        j == n || op_fails(fails, j, retry_count),
    ensures
        first_failing_chunk_from(fails, retry_count, i, n) == j,
    decreases j - i,
{
    if i < j {
        lemma_first_failing_chunk_from(fails, retry_count, i + 1, n, j);
    }
}

/// Splits a batch into chunks of at most `cfg.chunk_size` rows and
/// writes each chunk through the retry executor, with `fails[i]` as
/// chunk `i`'s failure schedule.  Chunk writes are independent, not
/// atomic as a set: when one chunk exhausts its budget the whole call
/// fails fatally, but the chunks already written stay written.  On
/// success the logs hold one entry per chunk, in order.  An empty batch
/// writes nothing and succeeds.
#[verifier::rlimit(60)]
#[verifier::loop_isolation(false)]
pub fn chunked_insert<T: MySqlMethods>(
    store: &mut StoreModel,
    items: Vec<T>,
    cfg: &IngestConfig,
    fails: &Vec<Vec<bool>>,
) -> (r: Result<Vec<AttemptLog>, IngestError>)
    requires
        cfg.wf(),
        cfg.chunk_size * T::spec_field_count() + 1 <= usize::MAX,
    ensures
        ({
            let chunks = spec_chunks(items@, cfg.chunk_size as int);
            let rc = cfg.retry.retry_count as int;
            let ff = first_failing_chunk(fails@, rc, chunks.len() as int);
            &&& T::table_view(*final(store)) == T::table_view(*old(store)) + chunks.take(
                ff,
            ).flatten()
            &&& T::others_view(*final(store)) == T::others_view(*old(store))
            &&& (r matches Ok(logs) <==> ff == chunks.len())
            &&& (r matches Ok(logs) ==> logs@.len() == chunks.len() && (forall|i: int|
                0 <= i < chunks.len() ==> (#[trigger] logs@[i]).succeeded && logs@[i].attempts
                    == spec_failed_attempts(schedule_at(fails@, i), rc) + 1
                    && logs@[i].intervals@.len() == spec_failed_attempts(
                    schedule_at(fails@, i),
                    rc,
                ) && (forall|k: int|
                    0 <= k < logs@[i].intervals@.len() ==> logs@[i].intervals@[k] == backoff_at(
                        cfg.retry,
                        k,
                    ))))
            &&& (r matches Err(e) ==> e matches IngestError::RetriesExhausted {
                table,
                statement,
                attempts,
            } && table@ == T::table_name() && statement@ == T::insert_query_text(
                chunks[ff].len() as int,
            ) && attempts == cfg.retry.retry_count)
        }),
{
    let n_items = items.len();
    let ghost items0 = items@;
    let ghost c = cfg.chunk_size as int;
    let ghost rc = cfg.retry.retry_count as int;
    let ghost all_chunks = spec_chunks(items0, c);
    let empty_schedule: Vec<bool> = Vec::new();
    let mut logs: Vec<AttemptLog> = Vec::new();
    let mut rest = items;
    let mut chunk_idx: usize = 0;
    proof {
        assert(all_chunks.skip(0) =~= all_chunks);
        assert(all_chunks.take(0) =~= Seq::<Seq<T>>::empty());
        assert(Seq::<Seq<T>>::empty().flatten() =~= Seq::<T>::empty());
        assert(T::table_view(*store) =~= T::table_view(*old(store)) + all_chunks.take(0).flatten());
    }
    while rest.len() > 0
        invariant
            cfg.wf(),
            cfg.chunk_size * T::spec_field_count() + 1 <= usize::MAX,
            c == cfg.chunk_size as int,
            rc == cfg.retry.retry_count as int,
            items0.len() == n_items,
            all_chunks == spec_chunks(items0, c),
            chunk_idx <= items0.len() - rest@.len(),
            spec_chunks(rest@, c) == all_chunks.skip(chunk_idx as int),
            chunk_idx <= all_chunks.len(),
            forall|k: int| 0 <= k < chunk_idx ==> !op_fails(fails@, k, rc),
            logs@.len() == chunk_idx,
            forall|i: int|
                0 <= i < chunk_idx ==> (#[trigger] logs@[i]).succeeded && logs@[i].attempts
                    == spec_failed_attempts(schedule_at(fails@, i), rc) + 1
                    && logs@[i].intervals@.len() == spec_failed_attempts(
                    schedule_at(fails@, i),
                    rc,
                ) && (forall|k: int|
                    0 <= k < logs@[i].intervals@.len() ==> logs@[i].intervals@[k] == backoff_at(
                        cfg.retry,
                        k,
                    )),
            T::table_view(*store) == T::table_view(*old(store)) + all_chunks.take(
                chunk_idx as int,
            ).flatten(),
            T::others_view(*store) == T::others_view(*old(store)),
            empty_schedule@.len() == 0,
        decreases rest@.len(),
    {
        let ghost rest0 = rest@;
        let chunk: Vec<T>;
        if rest.len() > cfg.chunk_size {
            let tail = rest.split_off(cfg.chunk_size);
            chunk = rest;
            rest = tail;
        } else {
            chunk = rest;
            rest = Vec::new();
        }
        proof {
            if rest0.len() > c {
                assert(chunk@ =~= rest0.take(c));
                assert(rest@ =~= rest0.skip(c));
            }
            assert(spec_chunks(rest0, c) =~= seq![chunk@] + spec_chunks(rest@, c)) by {
                if rest0.len() <= c {
                    assert(rest@ =~= Seq::<T>::empty());
                    assert(spec_chunks(rest@, c) =~= Seq::<Seq<T>>::empty());
                    assert(seq![chunk@] + Seq::<Seq<T>>::empty() =~= seq![chunk@]);
                }
            }
            assert(all_chunks[chunk_idx as int] == chunk@) by {
                assert(all_chunks.skip(chunk_idx as int)[0] == all_chunks[chunk_idx as int + 0]);
            }
            assert(spec_chunks(rest@, c) =~= all_chunks.skip(chunk_idx as int + 1)) by {
                assert((seq![chunk@] + spec_chunks(rest@, c)).drop_first() =~= spec_chunks(
                    rest@,
                    c,
                ));
                assert(all_chunks.skip(chunk_idx as int).drop_first() =~= all_chunks.skip(
                    chunk_idx as int + 1,
                ));
            }
            assert(chunk_idx as int + 1 <= all_chunks.len()) by {
                assert(all_chunks.skip(chunk_idx as int).len() >= 1);
            }
            assert(chunk@.len() * T::spec_field_count() <= cfg.chunk_size
                * T::spec_field_count()) by (nonlinear_arith)
                requires
                    chunk@.len() <= cfg.chunk_size,
                    T::spec_field_count() >= 0,
            ;
        }
        let sched: &Vec<bool> = if chunk_idx < fails.len() {
            &fails[chunk_idx]
        } else {
            &empty_schedule
        };
        proof {
            assert(sched@ == schedule_at(fails@, chunk_idx as int));
        }
        let res = insert_retry_or_panic::<T>(store, chunk, sched, &cfg.retry);
        match res {
            Ok(log) => {
                logs.push(log);
                proof {
                    assert(!op_fails(fails@, chunk_idx as int, rc));
                    let prev = all_chunks.take(chunk_idx as int);
                    assert(all_chunks.take(chunk_idx as int + 1) =~= prev.push(
                        all_chunks[chunk_idx as int],
                    ));
                    prev.lemma_flatten_push(all_chunks[chunk_idx as int]);
                    assert(T::table_view(*store) =~= T::table_view(*old(store)) + all_chunks.take(
                        chunk_idx as int + 1,
                    ).flatten());
                }
                chunk_idx = chunk_idx + 1;
            },
            Err(e) => {
                proof {
                    assert(op_fails(fails@, chunk_idx as int, rc));
                    lemma_first_failing_chunk_from(
                        fails@,
                        rc,
                        0,
                        all_chunks.len() as int,
                        chunk_idx as int,
                    );
                    assert((chunk_idx as int) < all_chunks.len());
                }
                return Err(e);
            },
        }
    }
    proof {
        assert(spec_chunks(rest@, c) =~= Seq::<Seq<T>>::empty());
        assert(all_chunks.skip(chunk_idx as int).len() == 0);
        assert(chunk_idx == all_chunks.len());
        lemma_first_failing_chunk_from(fails@, rc, 0, all_chunks.len() as int, chunk_idx as int);
        assert(all_chunks.take(chunk_idx as int) =~= all_chunks);
    }
    Ok(logs)
}

} // verus!
