//! Turning one delivered chain message into row batches, and driving
//! those batches into the store.
//!
//! Conversion is pure: one block row, and one account-change row per
//! account-affecting state change, indexed consecutively in chain
//! order.  A state change that affects an account but carries an
//! impossible cause tag aborts the whole message loudly.  The
//! processing step then writes each kind's batch through the chunked
//! batch writer; the surrounding runtime decides how many messages are
//! in flight at once and stays outside the library.

use vstd::prelude::*;

use crate::config::IngestConfig;
use crate::errors::IngestError;
use crate::models::account_changes::{spec_account_change, AccountChange};
use crate::models::blocks::{spec_block_row, Block};
use crate::models::{
    chunked_insert, first_failing_chunk, first_failing_chunk_from, op_fails, spec_chunks,
    lemma_chunking,
};
use crate::store::StoreModel;
use crate::views::{StateChangeWithCause, StreamerMessage};

verus! {

/// The per-kind row batches derived from one chain message.
#[derive(Debug, Clone, PartialEq, Eq)]
pub struct EntityBatches {
    pub blocks: Vec<Block>,
    pub account_changes: Vec<AccountChange>,
}

/// Whether one state change breaks the data-source contract: it
/// affects an account but carries an impossible cause tag.
pub open spec fn spec_violates(sc: StateChangeWithCause) -> bool {
    sc.value.affects_account() && sc.cause.is_impossible()
}

/// Whether any state change of the message breaks the contract.
pub open spec fn spec_has_violation(scs: Seq<StateChangeWithCause>) -> bool {
    exists|i: int| 0 <= i < scs.len() && spec_violates(#[trigger] scs[i])
}

/// The position of the first contract-breaking state change.
pub open spec fn spec_first_violation(scs: Seq<StateChangeWithCause>) -> int
    decreases scs.len(),
{
    if scs.len() == 0 {
        0
    } else if spec_violates(scs[0]) {
        0
    } else {
        1 + spec_first_violation(scs.drop_first())
    }
}

/// The positions, in order, of the state changes that produce an
/// account-change row.
pub open spec fn spec_affecting_indices(scs: Seq<StateChangeWithCause>) -> Seq<int>
    decreases scs.len(),
{
    if scs.len() == 0 {
        Seq::empty()
    } else {
        let prefix = spec_affecting_indices(scs.drop_last());
        if scs.last().value.affects_account() {
            prefix.push(scs.len() - 1)
        } else {
            prefix
        }
    }
}

/// LAW (conversion coverage): the positions that produce an
/// account-change row are exactly the account-affecting state changes
/// of the message: each listed position is in range and affects an
/// account, the positions are strictly increasing, and every
/// account-affecting position is listed.
pub proof fn lemma_affecting_indices(scs: Seq<StateChangeWithCause>)
    ensures
        forall|k: int|
            0 <= k < spec_affecting_indices(scs).len() ==> 0 <= #[trigger] spec_affecting_indices(
                scs,
            )[k] < scs.len(),
        forall|k: int|
            0 <= k < spec_affecting_indices(scs).len() ==> scs[#[trigger] spec_affecting_indices(
                scs,
            )[k]].value.affects_account(),
        forall|k1: int, k2: int|
            0 <= k1 < k2 < spec_affecting_indices(scs).len() ==> spec_affecting_indices(scs)[k1]
                < spec_affecting_indices(scs)[k2],
        forall|i: int|
            0 <= i < scs.len() && (#[trigger] scs[i]).value.affects_account()
                ==> spec_affecting_indices(scs).contains(i),
    decreases scs.len(),
{
    if scs.len() > 0 {
        let front = scs.drop_last();
        let prefix = spec_affecting_indices(front);
        lemma_affecting_indices(front);
        assert forall|k: int| 0 <= k < prefix.len() implies 0 <= prefix[k] < scs.len()
            && scs[prefix[k]].value.affects_account() by {
            assert(front[prefix[k]] == scs[prefix[k]]);
        }
        assert forall|i: int|
            0 <= i < scs.len() && (#[trigger] scs[i]).value.affects_account() implies spec_affecting_indices(
            scs,
        ).contains(i) by {
            let all = spec_affecting_indices(scs);
            if i == scs.len() - 1 {
                assert(all[all.len() - 1] == i);
            } else {
                assert(front[i] == scs[i]);
                assert(prefix.contains(i));
                let w = choose|w: int| 0 <= w < prefix.len() && prefix[w] == i;
                assert(all[w] == i);
            }
        }
    }
}

/// If the changes before `i` keep the contract and change `i` breaks
/// it, `i` is the first violation.
proof fn lemma_first_violation(scs: Seq<StateChangeWithCause>, i: int)
    requires
        0 <= i < scs.len(),
        forall|j: int| 0 <= j < i ==> !spec_violates(#[trigger] scs[j]),
        spec_violates(scs[i]),
    ensures
        spec_first_violation(scs) == i,
    decreases i,
{
    if i > 0 {
        assert(!spec_violates(scs[0]));
        assert forall|j: int| 0 <= j < i - 1 implies !spec_violates(
            #[trigger] scs.drop_first()[j],
        ) by {
            assert(scs.drop_first()[j] == scs[j + 1]);
        }
        assert(scs.drop_first()[i - 1] == scs[i]);
        lemma_first_violation(scs.drop_first(), i - 1);
    }
}

/// Derives the row batches of one chain message: the block row, and
/// one account-change row per account-affecting state change, in chain
/// order, with consecutive `index_in_block` values starting at zero.
/// The first contract-breaking state change aborts the whole message.
pub fn handle_streamer_message(msg: &StreamerMessage) -> (r: Result<EntityBatches, IngestError>)
    requires
        msg.state_changes@.len() <= i32::MAX,
    ensures
        (r matches Ok(b) <==> !spec_has_violation(msg.state_changes@)),
        r matches Ok(b) ==> b.blocks@.len() == 1 && spec_block_row(b.blocks@[0], msg.block)
            && b.account_changes@.len() == spec_affecting_indices(msg.state_changes@).len() && (
        forall|k: int|
            0 <= k < b.account_changes@.len() ==> spec_account_change(
                #[trigger] b.account_changes@[k],
                msg.state_changes@[spec_affecting_indices(msg.state_changes@)[k]],
                msg.block.header.hash@,
                msg.block.header.timestamp,
                k as i32,
            )),
        r matches Err(e) ==> e matches IngestError::UnexpectedCause { cause } && cause
            == msg.state_changes@[spec_first_violation(msg.state_changes@)].cause,
{
    let ghost scs = msg.state_changes@;
    let block_row = Block::from_view(&msg.block);
    let mut blocks: Vec<Block> = Vec::new();
    blocks.push(block_row);
    let mut changes: Vec<AccountChange> = Vec::new();
    let mut i: usize = 0;
    proof {
        assert(scs.take(0) =~= Seq::<StateChangeWithCause>::empty());
    }
    while i < msg.state_changes.len()
        invariant
            msg.state_changes@ == scs,
            scs.len() <= i32::MAX,
            i <= scs.len(),
            forall|j: int| 0 <= j < i ==> !spec_violates(#[trigger] scs[j]),
            changes@.len() == spec_affecting_indices(scs.take(i as int)).len(),
            changes@.len() <= i,
            forall|k: int|
                0 <= k < changes@.len() ==> 0 <= #[trigger] spec_affecting_indices(
                    scs.take(i as int),
                )[k] < i,
            forall|k: int|
                0 <= k < changes@.len() ==> spec_account_change(
                    #[trigger] changes@[k],
                    scs[spec_affecting_indices(scs.take(i as int))[k]],
                    msg.block.header.hash@,
                    msg.block.header.timestamp,
                    k as i32,
                ),
        decreases scs.len() - i,
    {
        let sc = &msg.state_changes[i];
        let converted = AccountChange::from_state_change_with_cause(
            sc,
            &msg.block.header.hash,
            msg.block.header.timestamp,
            changes.len() as i32,
        );
        proof {
            assert(scs.take(i as int + 1).drop_last() =~= scs.take(i as int));
            assert(scs.take(i as int + 1).last() == scs[i as int]);
        }
        match converted {
            Ok(Some(a)) => {
                changes.push(a);
            },
            Ok(None) => {},
            Err(e) => {
                proof {
                    lemma_first_violation(scs, i as int);
                }
                return Err(e);
            },
        }
        i = i + 1;
    }
    proof {
        assert(scs.take(scs.len() as int) =~= scs);
    }
    Ok(EntityBatches { blocks, account_changes: changes })
}

/// Whether every chunk write of a batch with `nchunks` chunks
/// succeeds under its schedule.
pub open spec fn spec_all_chunks_ok(fails: Seq<Vec<bool>>, retry_count: int, nchunks: int) -> bool {
    forall|j: int| 0 <= j < nchunks ==> !op_fails(fails, j, retry_count)
}

/// The first failing chunk is the chunk count exactly when every chunk
/// succeeds.
proof fn lemma_first_failing_all_ok(fails: Seq<Vec<bool>>, retry_count: int, n: int)
    requires
        n >= 0,
    ensures
        first_failing_chunk(fails, retry_count, n) == n <==> spec_all_chunks_ok(
            fails,
            retry_count,
            n,
        ),
{
    if spec_all_chunks_ok(fails, retry_count, n) {
        lemma_first_failing_all(fails, retry_count, 0, n);
    } else {
        let j = choose|j: int| 0 <= j < n && op_fails(fails, j, retry_count);
        lemma_first_failing_le(fails, retry_count, 0, n, j);
    }
}

/// When no chunk in `i..n` fails, the first failing chunk at or after
/// `i` is `n`.
proof fn lemma_first_failing_all(fails: Seq<Vec<bool>>, retry_count: int, i: int, n: int)
    requires
        0 <= i <= n,
        forall|j: int| i <= j < n ==> !op_fails(fails, j, retry_count),
    ensures
        first_failing_chunk_from(fails, retry_count, i, n) == n,
    decreases n - i,
{
    if i < n {
        lemma_first_failing_all(fails, retry_count, i + 1, n);
    }
}

/// The first failing chunk at or after `i` is no later than any
/// failing chunk at or after `i`.
proof fn lemma_first_failing_le(fails: Seq<Vec<bool>>, retry_count: int, i: int, n: int, j: int)
    requires
        0 <= i <= j < n,
        op_fails(fails, j, retry_count),
    ensures
        first_failing_chunk_from(fails, retry_count, i, n) <= j,
    decreases j - i,
{
    if i < j && !op_fails(fails, i, retry_count) {
        lemma_first_failing_le(fails, retry_count, i + 1, n, j);
    }
}

/// Drives one chain message into the store: derives the row batches,
/// then writes the block batch and the account-change batch through
/// the chunked batch writer, with `block_fails` and `change_fails` as
/// the per-chunk failure schedules.  A contract violation aborts
/// before anything is written; a chunk that exhausts its retry budget
/// aborts fatally with the chunks already written kept; on success the
/// store gains exactly the message's rows, appended in order.
pub fn process_streamer_message(
    store: &mut StoreModel,
    msg: &StreamerMessage,
    cfg: &IngestConfig,
    block_fails: &Vec<Vec<bool>>,
    change_fails: &Vec<Vec<bool>>,
) -> (r: Result<(), IngestError>)
    requires
        cfg.wf(),
        msg.state_changes@.len() <= i32::MAX,
    ensures
        ({
            let rc = cfg.retry.retry_count as int;
            let c = cfg.chunk_size as int;
            let scs = msg.state_changes@;
            let nrows = spec_affecting_indices(scs).len() as int;
            let nchunks = (nrows + c - 1) / c;
            let oldblocks = old(store).blocks@;
            let oldchanges = old(store).account_changes@;
            let newblocks = final(store).blocks@;
            let newchanges = final(store).account_changes@;
            let ok = !spec_has_violation(scs) && !op_fails(block_fails@, 0, rc)
                && spec_all_chunks_ok(change_fails@, rc, nchunks);
            &&& (r matches Ok(u) <==> ok)
            &&& newblocks.take(oldblocks.len() as int) == oldblocks
            &&& newchanges.take(oldchanges.len() as int) == oldchanges
            &&& (spec_has_violation(scs) ==> *final(store) == *old(store) && (r matches Err(e)
                && e matches IngestError::UnexpectedCause { cause } && cause == scs[
                spec_first_violation(scs)].cause))
            &&& (r matches Ok(u) ==> newblocks.len() == oldblocks.len() + 1 && spec_block_row(
                newblocks.last(),
                msg.block,
            ) && newchanges.len() == oldchanges.len() + nrows && (forall|k: int|
                0 <= k < nrows ==> spec_account_change(
                    #[trigger] newchanges[oldchanges.len() + k],
                    scs[spec_affecting_indices(scs)[k]],
                    msg.block.header.hash@,
                    msg.block.header.timestamp,
                    k as i32,
                )))
            &&& (!spec_has_violation(scs) ==> (r matches Err(e) ==> e
                matches IngestError::RetriesExhausted { .. }))
        }),
{
    let batches = match handle_streamer_message(msg) {
        Ok(b) => b,
        Err(e) => {
            proof {
                assert(store.blocks@.take(store.blocks@.len() as int) =~= store.blocks@);
                assert(store.account_changes@.take(store.account_changes@.len() as int)
                    =~= store.account_changes@);
            }
            return Err(e);
        },
    };
    let ghost block_rows = batches.blocks@;
    let ghost change_rows = batches.account_changes@;
    let ghost c = cfg.chunk_size as int;
    let ghost rc = cfg.retry.retry_count as int;
    proof {
        lemma_chunking(block_rows, c);
        lemma_chunking(change_rows, c);
        lemma_first_failing_all_ok(block_fails@, rc, spec_chunks(block_rows, c).len() as int);
        lemma_first_failing_all_ok(change_fails@, rc, spec_chunks(change_rows, c).len() as int);
        assert(spec_chunks(block_rows, c).len() == 1);
        assert(spec_all_chunks_ok(block_fails@, rc, 1) <==> !op_fails(block_fails@, 0, rc)) by {
            if !op_fails(block_fails@, 0, rc) {
                assert forall|j: int| 0 <= j < 1 implies !op_fails(block_fails@, j, rc) by {
                    assert(j == 0);
                }
            }
        }
        assert(cfg.chunk_size * 7 + 1 <= usize::MAX) by (nonlinear_arith)
            requires
                1 <= cfg.chunk_size <= 100_000,
        ;
        assert(cfg.chunk_size * 10 + 1 <= usize::MAX) by (nonlinear_arith)
            requires
                1 <= cfg.chunk_size <= 100_000,
        ;
    }
    match chunked_insert::<Block>(store, batches.blocks, cfg, block_fails) {
        Ok(_) => {},
        Err(e) => {
            proof {
                let ffb = first_failing_chunk(block_fails@, rc, 1);
                assert(first_failing_chunk_from(block_fails@, rc, 1, 1) == 1);
                assert(ffb == 0);
                assert(spec_chunks(block_rows, c).take(0).flatten() =~= Seq::<Block>::empty());
                assert(store.blocks@ =~= old(store).blocks@);
                assert(store.blocks@.take(old(store).blocks@.len() as int) =~= old(
                    store,
                ).blocks@);
                assert(store.account_changes@.take(old(store).account_changes@.len() as int)
                    =~= old(store).account_changes@);
            }
            return Err(e);
        },
    }
    proof {
        assert(spec_chunks(block_rows, c).take(1) =~= spec_chunks(block_rows, c));
        assert(spec_chunks(block_rows, c).flatten() == block_rows);
        assert(store.blocks@ == old(store).blocks@ + block_rows);
        assert(store.blocks@.take(old(store).blocks@.len() as int) =~= old(store).blocks@);
        assert(store.blocks@.last() == block_rows[0]);
    }
    match chunked_insert::<AccountChange>(store, batches.account_changes, cfg, change_fails) {
        Ok(_) => {},
        Err(e) => {
            proof {
                let chunks_c = spec_chunks(change_rows, c);
                let ffc = first_failing_chunk(change_fails@, rc, chunks_c.len() as int);
                let mid = chunks_c.take(ffc).flatten();
                assert(store.account_changes@ == old(store).account_changes@ + mid);
                assert(store.account_changes@.take(old(store).account_changes@.len() as int)
                    =~= old(store).account_changes@);
                assert(store.blocks@.take(old(store).blocks@.len() as int) =~= old(
                    store,
                ).blocks@);
            }
            return Err(e);
        },
    }
    proof {
        assert(spec_chunks(change_rows, c).take(spec_chunks(change_rows, c).len() as int)
            =~= spec_chunks(change_rows, c));
        assert(spec_chunks(change_rows, c).flatten() == change_rows);
        assert(store.account_changes@ == old(store).account_changes@ + change_rows);
        assert(store.account_changes@.take(old(store).account_changes@.len() as int) =~= old(
            store,
        ).account_changes@);
        assert forall|k: int|
            0 <= k < change_rows.len() implies #[trigger] store.account_changes@[old(
            store,
        ).account_changes@.len() + k] == change_rows[k] by {
            assert((old(store).account_changes@ + change_rows)[old(store).account_changes@.len()
                + k] == change_rows[k]);
        }
    }
    Ok(())
}

} // verus!
