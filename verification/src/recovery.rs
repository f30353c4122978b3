//! Crash recovery: re-establishing a safe resume point on startup.
//!
//! Because a block's rows are written to the entity tables as
//! independent batches, a crash can leave the most recent block
//! partially persisted.  Recovery therefore discards *every* row whose
//! block timestamp equals the greatest persisted one, whichever tables
//! actually received data, and resumes the stream one past the greatest
//! block height that remains.  On an empty store the resume height is
//! the configured initial height.

use vstd::prelude::*;

use crate::config::RetryConfig;
use crate::errors::IngestError;
use crate::models::account_changes::AccountChange;
use crate::models::blocks::Block;
use crate::models::{
    delete_retry_or_panic, op_fails, select_retry_or_panic, without_timestamp, MySqlMethods,
    SelectQuery, Timestamped,
};
use crate::store::{spec_max_block_height, spec_max_block_timestamp, StoreModel};

verus! {

/// The blocks that recovery leaves behind: when any block exists,
/// every block row carrying the greatest timestamp is discarded.
pub open spec fn spec_recover_blocks(blocks: Seq<Block>) -> Seq<Block> {
    match spec_max_block_timestamp(blocks) {
        None => blocks,
        Some(t) => without_timestamp(blocks, t),
    }
}

/// The account changes that recovery leaves behind: when any block
/// exists, every change row carrying the greatest block timestamp is
/// discarded.
pub open spec fn spec_recover_changes(blocks: Seq<Block>, changes: Seq<AccountChange>) -> Seq<
    AccountChange,
> {
    match spec_max_block_timestamp(blocks) {
        None => changes,
        Some(t) => without_timestamp(changes, t),
    }
}

/// The height at which the stream must resume after recovery: one past
/// the greatest remaining block height, or the configured initial
/// height when no block remains.
pub open spec fn spec_resume_height(blocks: Seq<Block>, initial_height: u64) -> int {
    match spec_max_block_timestamp(blocks) {
        None => initial_height as int,
        Some(t) => match spec_max_block_height(without_timestamp(blocks, t)) {
            None => initial_height as int,
            Some(h) => h + 1,
        },
    }
}

/// A row sequence in which no row carries timestamp `ts` is left
/// unchanged by the delete.
proof fn lemma_without_timestamp_all_kept<T: Timestamped>(rows: Seq<T>, ts: u64)
    requires
        forall|i: int| 0 <= i < rows.len() ==> (#[trigger] rows[i]).row_timestamp() != ts,
    ensures
        without_timestamp(rows, ts) == rows,
    decreases rows.len(),
{
    reveal(Seq::filter);
    if rows.len() > 0 {
        assert(rows.drop_last() =~= rows.subrange(0, rows.len() - 1));
        lemma_without_timestamp_all_kept(rows.drop_last(), ts);
        assert(without_timestamp(rows, ts) =~= rows);
    }
}

/// A row sequence in which every row carries timestamp `ts` is emptied
/// by the delete.
proof fn lemma_without_timestamp_all_dropped<T: Timestamped>(rows: Seq<T>, ts: u64)
    requires
        forall|i: int| 0 <= i < rows.len() ==> (#[trigger] rows[i]).row_timestamp() == ts,
    ensures
        without_timestamp(rows, ts) =~= Seq::<T>::empty(),
    decreases rows.len(),
{
    reveal(Seq::filter);
    if rows.len() > 0 {
        lemma_without_timestamp_all_dropped(rows.drop_last(), ts);
    }
}

/// Every row the delete keeps already stood in the input.
proof fn lemma_without_timestamp_element<T: Timestamped>(rows: Seq<T>, ts: u64, i: int)
    requires
        0 <= i < without_timestamp(rows, ts).len(),
    ensures
        exists|j: int|
            0 <= j < rows.len() && rows[j] == without_timestamp(rows, ts)[i],
    decreases rows.len(),
{
    reveal(Seq::filter);
    if rows.len() > 0 {
        let kept = without_timestamp(rows, ts);
        let prev = without_timestamp(rows.drop_last(), ts);
        if rows.last().row_timestamp() != ts && i == kept.len() - 1 {
            assert(rows[rows.len() - 1] == kept[i]);
        } else {
            lemma_without_timestamp_element(rows.drop_last(), ts, i);
            let j = choose|j: int| 0 <= j < rows.drop_last().len() && rows.drop_last()[j] == prev[i];
            assert(rows[j] == kept[i]);
        }
    }
}

/// The greatest block timestamp, when it exists, is some block's.
proof fn lemma_max_timestamp_element(blocks: Seq<Block>)
    requires
        blocks.len() > 0,
    ensures
        spec_max_block_timestamp(blocks) matches Some(t) && exists|i: int|
            0 <= i < blocks.len() && (#[trigger] blocks[i]).block_timestamp == t,
        forall|i: int|
            0 <= i < blocks.len() ==> (#[trigger] blocks[i]).block_timestamp
                <= spec_max_block_timestamp(blocks)->Some_0,
    decreases blocks.len(),
{
    if blocks.len() > 1 {
        lemma_max_timestamp_element(blocks.drop_last());
        assert forall|i: int| 0 <= i < blocks.len() implies (#[trigger] blocks[i]).block_timestamp
            <= spec_max_block_timestamp(blocks)->Some_0 by {
            if i < blocks.len() - 1 {
                assert(blocks.drop_last()[i] == blocks[i]);
            }
        }
        let t = spec_max_block_timestamp(blocks)->Some_0;
        let tp = spec_max_block_timestamp(blocks.drop_last())->Some_0;
        if t == tp {
            let i = choose|i: int|
                0 <= i < blocks.drop_last().len() && blocks.drop_last()[i].block_timestamp == tp;
            assert(blocks[i].block_timestamp == t);
        } else {
            assert(blocks[blocks.len() - 1].block_timestamp == t);
        }
    } else {
        assert(blocks[0].block_timestamp == spec_max_block_timestamp(blocks)->Some_0);
    }
}

/// The greatest block height, when it exists, is under any bound that
/// every block's height is under.
proof fn lemma_max_height_bound(blocks: Seq<Block>, bound: u64)
    requires
        forall|i: int| 0 <= i < blocks.len() ==> (#[trigger] blocks[i]).block_height < bound,
    ensures
        spec_max_block_height(blocks) matches Some(h) ==> h < bound,
    decreases blocks.len(),
{
    if blocks.len() > 0 {
        assert forall|i: int| 0 <= i < blocks.drop_last().len() implies (#[trigger] blocks.drop_last()[i]).block_height
            < bound by {
            assert(blocks.drop_last()[i] == blocks[i]);
        }
        lemma_max_height_bound(blocks.drop_last(), bound);
        assert(blocks[blocks.len() - 1].block_height < bound);
    }
}

/// Runs the recovery sequence against the store, through the retry
/// executor: read the greatest persisted block timestamp; if one
/// exists, delete every row carrying it from every entity table, then
/// read the greatest remaining block height; resume one past it, or at
/// the configured initial height when nothing remains.  `fails[i]` is
/// the failure schedule of the i-th store operation, in the order
/// timestamp lookup, blocks delete, account-changes delete, height
/// lookup.  A failed operation aborts recovery fatally; operations
/// already completed keep their effect.
pub fn start_after_interruption(
    store: &mut StoreModel,
    initial_height: u64,
    fails: &Vec<Vec<bool>>,
    cfg: &RetryConfig,
) -> (r: Result<u64, IngestError>)
    requires
        cfg.wf(),
        forall|i: int|
            0 <= i < old(store).blocks@.len() ==> (#[trigger] old(store).blocks@[i]).block_height
                < u64::MAX,
    ensures
        ({
            let rc = cfg.retry_count as int;
            let blocks0 = old(store).blocks@;
            let changes0 = old(store).account_changes@;
            let ok = !op_fails(fails@, 0, rc) && (blocks0.len() == 0 || (!op_fails(fails@, 1, rc)
                && !op_fails(fails@, 2, rc) && !op_fails(fails@, 3, rc)));
            &&& (r matches Ok(h) <==> ok)
            &&& (r matches Ok(h) ==> h as int == spec_resume_height(blocks0, initial_height)
                && final(store).blocks@ == spec_recover_blocks(blocks0)
                && final(store).account_changes@ == spec_recover_changes(blocks0, changes0))
            &&& (r matches Err(e) ==> e matches IngestError::RetriesExhausted {
                table,
                statement,
                attempts,
            } && attempts == cfg.retry_count && (final(store).blocks@ == blocks0
                || final(store).blocks@ == spec_recover_blocks(blocks0)) && (
            final(store).account_changes@ == changes0 || final(store).account_changes@
                == spec_recover_changes(blocks0, changes0)))
        }),
{
    let empty_schedule: Vec<bool> = Vec::new();
    let sched0: &Vec<bool> = if fails.len() > 0 {
        &fails[0]
    } else {
        &empty_schedule
    };
    let max_ts = match select_retry_or_panic(store, SelectQuery::MaxBlockTimestamp, sched0, cfg) {
        Ok(v) => v,
        Err(e) => {
            return Err(e);
        },
    };
    let t = match max_ts {
        Some(t) => t,
        None => {
            return Ok(initial_height);
        },
    };
    let sched1: &Vec<bool> = if fails.len() > 1 {
        &fails[1]
    } else {
        &empty_schedule
    };
    match delete_retry_or_panic::<Block>(store, t, sched1, cfg) {
        Ok(_) => {},
        Err(e) => {
            return Err(e);
        },
    }
    let sched2: &Vec<bool> = if fails.len() > 2 {
        &fails[2]
    } else {
        &empty_schedule
    };
    match delete_retry_or_panic::<AccountChange>(store, t, sched2, cfg) {
        Ok(_) => {},
        Err(e) => {
            return Err(e);
        },
    }
    let sched3: &Vec<bool> = if fails.len() > 3 {
        &fails[3]
    } else {
        &empty_schedule
    };
    let max_height = match select_retry_or_panic(store, SelectQuery::MaxBlockHeight, sched3, cfg) {
        Ok(v) => v,
        Err(e) => {
            return Err(e);
        },
    };
    match max_height {
        Some(h) => {
            proof {
                assert forall|i: int|
                    0 <= i < without_timestamp(old(store).blocks@, t).len() implies (
                #[trigger] without_timestamp(old(store).blocks@, t)[i]).block_height
                    < u64::MAX by {
                    lemma_without_timestamp_element(old(store).blocks@, t, i);
                }
                lemma_max_height_bound(without_timestamp(old(store).blocks@, t), u64::MAX);
            }
            Ok(h + 1)
        },
        None => Ok(initial_height),
    }
}

/// LAW (recovery, single run): for a store whose blocks carry strictly
/// increasing timestamps and the heights `1..=H` in order, recovery
/// discards exactly the last block's rows; for `H >= 2` the resume
/// height is `H`, so the stream re-fetches block `H`, and for `H == 1`
/// the store is emptied and the initial height is returned.
pub proof fn lemma_recovery_resume_height(blocks: Seq<Block>, initial_height: u64)
    requires
        blocks.len() >= 1,
        forall|i: int| 0 <= i < blocks.len() ==> (#[trigger] blocks[i]).block_height == i + 1,
        forall|i: int, j: int|
            0 <= i < j < blocks.len() ==> blocks[i].block_timestamp < blocks[j].block_timestamp,
    ensures
        spec_recover_blocks(blocks) =~= blocks.take(blocks.len() - 1),
        forall|changes: Seq<AccountChange>|
            #[trigger] spec_recover_changes(blocks, changes) == without_timestamp(
                changes,
                blocks.last().block_timestamp,
            ),
        blocks.len() >= 2 ==> spec_resume_height(blocks, initial_height) == blocks.len(),
        blocks.len() == 1 ==> spec_resume_height(blocks, initial_height) == initial_height,
{
    let t = blocks.last().block_timestamp;
    lemma_max_timestamp_strictly_increasing(blocks);
    let front = blocks.drop_last();
    assert(front =~= blocks.take(blocks.len() - 1));
    reveal(Seq::filter);
    assert forall|i: int| 0 <= i < front.len() implies (#[trigger] front[i]).row_timestamp()
        != t by {
        assert(front[i] == blocks[i]);
        assert(blocks[i].block_timestamp < t);
    }
    lemma_without_timestamp_all_kept(front, t);
    assert(without_timestamp(blocks, t) == front);
    if blocks.len() >= 2 {
        lemma_max_height_consecutive(front);
    }
}

/// In a block sequence with strictly increasing timestamps the
/// greatest timestamp is the last block's.
proof fn lemma_max_timestamp_strictly_increasing(blocks: Seq<Block>)
    requires
        blocks.len() >= 1,
        forall|i: int, j: int|
            0 <= i < j < blocks.len() ==> blocks[i].block_timestamp < blocks[j].block_timestamp,
    ensures
        spec_max_block_timestamp(blocks) == Some(blocks.last().block_timestamp),
    decreases blocks.len(),
{
    if blocks.len() > 1 {
        assert forall|i: int, j: int|
            0 <= i < j < blocks.drop_last().len() implies blocks.drop_last()[i].block_timestamp
            < blocks.drop_last()[j].block_timestamp by {
            assert(blocks.drop_last()[i] == blocks[i]);
            assert(blocks.drop_last()[j] == blocks[j]);
        }
        lemma_max_timestamp_strictly_increasing(blocks.drop_last());
        assert(blocks.drop_last().last() == blocks[blocks.len() - 2]);
        assert(blocks[blocks.len() - 2].block_timestamp < blocks[blocks.len()
            - 1].block_timestamp);
    } else {
        assert(blocks.drop_last() =~= Seq::<Block>::empty());
        assert(spec_max_block_timestamp(Seq::<Block>::empty()) is None);
    }
}

/// In a block sequence whose heights are `1..=H` in order the greatest
/// height is `H`.
proof fn lemma_max_height_consecutive(blocks: Seq<Block>)
    requires
        blocks.len() >= 1,
        forall|i: int| 0 <= i < blocks.len() ==> (#[trigger] blocks[i]).block_height == i + 1,
    ensures
        spec_max_block_height(blocks) == Some(blocks.len() as u64),
    decreases blocks.len(),
{
    if blocks.len() > 1 {
        assert forall|i: int| 0 <= i < blocks.drop_last().len() implies (#[trigger] blocks.drop_last()[i]).block_height
            == i + 1 by {
            assert(blocks.drop_last()[i] == blocks[i]);
        }
        lemma_max_height_consecutive(blocks.drop_last());
        assert(blocks[blocks.len() - 1].block_height == blocks.len());
    } else {
        assert(blocks.drop_last() =~= Seq::<Block>::empty());
        assert(spec_max_block_height(Seq::<Block>::empty()) is None);
    }
}

/// LAW (recovery idempotence, restricted): on a store whose blocks all
/// share one timestamp — the empty store among them — recovery prunes
/// every block and resumes at the initial height, and a second run on
/// the pruned store changes nothing and returns the same height.  On a
/// store with two or more distinct block timestamps a second run
/// discards a further block, so the unrestricted claim does not hold.
pub proof fn lemma_recovery_idempotent_uniform(
    blocks: Seq<Block>,
    changes: Seq<AccountChange>,
    initial_height: u64,
)
    requires
        forall|i: int, j: int|
            0 <= i < blocks.len() && 0 <= j < blocks.len() ==> blocks[i].block_timestamp
                == blocks[j].block_timestamp,
    ensures
        spec_recover_blocks(blocks) =~= Seq::<Block>::empty(),
        spec_resume_height(blocks, initial_height) == initial_height,
        spec_recover_blocks(spec_recover_blocks(blocks)) =~= spec_recover_blocks(blocks),
        spec_resume_height(spec_recover_blocks(blocks), initial_height) == spec_resume_height(
            blocks,
            initial_height,
        ),
        spec_recover_changes(spec_recover_blocks(blocks), spec_recover_changes(blocks, changes))
            == spec_recover_changes(blocks, changes),
{
    if blocks.len() == 0 {
        assert(spec_recover_blocks(blocks) =~= Seq::<Block>::empty());
    } else {
        lemma_max_timestamp_element(blocks);
        let t = spec_max_block_timestamp(blocks)->Some_0;
        assert forall|i: int| 0 <= i < blocks.len() implies (#[trigger] blocks[i]).row_timestamp()
            == t by {
            let w = choose|w: int| 0 <= w < blocks.len() && blocks[w].block_timestamp == t;
            assert(blocks[i].block_timestamp == blocks[w].block_timestamp);
        }
        lemma_without_timestamp_all_dropped(blocks, t);
    }
}

} // verus!
