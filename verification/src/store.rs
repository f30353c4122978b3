//! An in-memory model of the relational store.
//!
//! The real store is a connection pool reached over the network; what
//! the engine's logic depends on is only which rows each entity table
//! holds.  This model captures exactly that, so the batch writer and the
//! recovery manager can be specified and proved against it, and the
//! runtime around the library can mirror each verified step with the
//! corresponding SQL statement.

use vstd::prelude::*;

use crate::models::account_changes::AccountChange;
use crate::models::blocks::Block;

verus! {

/// The entity tables, one `Vec` of rows per kind.
#[derive(Debug, Clone, PartialEq, Eq)]
pub struct StoreModel {
    pub blocks: Vec<Block>,
    pub account_changes: Vec<AccountChange>,
}

/// The mathematical content of a store: the row sequence of every
/// entity table.  Row kinds use it to say that an operation left every
/// table but their own untouched.
pub ghost struct StoreTables {
    pub blocks: Seq<Block>,
    pub account_changes: Seq<AccountChange>,
}

/// The greatest block timestamp of a blocks table, if any row exists.
pub open spec fn spec_max_block_timestamp(blocks: Seq<Block>) -> Option<u64>
    decreases blocks.len(),
{
    if blocks.len() == 0 {
        None
    } else {
        let t = blocks.last().block_timestamp;
        match spec_max_block_timestamp(blocks.drop_last()) {
            None => Some(t),
            Some(m) => if t >= m {
                Some(t)
            } else {
                Some(m)
            },
        }
    }
}

/// The greatest block height of a blocks table, if any row exists.
pub open spec fn spec_max_block_height(blocks: Seq<Block>) -> Option<u64>
    decreases blocks.len(),
{
    if blocks.len() == 0 {
        None
    } else {
        let h = blocks.last().block_height;
        match spec_max_block_height(blocks.drop_last()) {
            None => Some(h),
            Some(m) => if h >= m {
                Some(h)
            } else {
                Some(m)
            },
        }
    }
}

impl StoreModel {
    /// An empty store: no table holds a row.
    pub fn new() -> (r: StoreModel)
        ensures
            r.blocks@.len() == 0,
            r.account_changes@.len() == 0,
    {
        StoreModel { blocks: Vec::new(), account_changes: Vec::new() }
    }

    /// The greatest block timestamp in the store, if any block exists.
    pub fn max_block_timestamp(&self) -> (r: Option<u64>)
        ensures
            r == spec_max_block_timestamp(self.blocks@),
    {
        let mut best: Option<u64> = None;
        let mut i: usize = 0;
        while i < self.blocks.len()
            invariant
                i <= self.blocks@.len(),
                best == spec_max_block_timestamp(self.blocks@.take(i as int)),
            decreases self.blocks@.len() - i,
        {
            let t = self.blocks[i].block_timestamp;
            proof {
                assert(self.blocks@.take(i as int + 1).drop_last() =~= self.blocks@.take(i as int));
                assert(self.blocks@.take(i as int + 1).last() == self.blocks@[i as int]);
            }
            best = match best {
                None => Some(t),
                Some(m) => if t >= m {
                    Some(t)
                } else {
                    Some(m)
                },
            };
            i = i + 1;
        }
        proof {
            assert(self.blocks@.take(self.blocks@.len() as int) =~= self.blocks@);
        }
        best
    }

    /// The greatest block height in the store, if any block exists.
    pub fn max_block_height(&self) -> (r: Option<u64>)
        ensures
            r == spec_max_block_height(self.blocks@),
    {
        let mut best: Option<u64> = None;
        let mut i: usize = 0;
        while i < self.blocks.len()
            invariant
                i <= self.blocks@.len(),
                best == spec_max_block_height(self.blocks@.take(i as int)),
            decreases self.blocks@.len() - i,
        {
            let h = self.blocks[i].block_height;
            proof {
                assert(self.blocks@.take(i as int + 1).drop_last() =~= self.blocks@.take(i as int));
                assert(self.blocks@.take(i as int + 1).last() == self.blocks@[i as int]);
            }
            best = match best {
                None => Some(h),
                Some(m) => if h >= m {
                    Some(h)
                } else {
                    Some(m)
                },
            };
            i = i + 1;
        }
        proof {
            assert(self.blocks@.take(self.blocks@.len() as int) =~= self.blocks@);
        }
        best
    }
}

} // verus!
