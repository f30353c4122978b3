//! The blocks table: one row per delivered block.

use vstd::prelude::*;
use vstd::string::StringExecFns;

use crate::errors::IngestError;
use crate::models::{without_timestamp, FieldCount, MySqlMethods, Timestamped};
use crate::queries::{create_placeholders, dec_digits, push_dec_u128, spec_placeholders};
use crate::store::{StoreModel, StoreTables};
use crate::views::BlockView;

verus! {

/// One row of the blocks table.  Heights, timestamps and the two
/// currency amounts are plain unsigned integers wide enough for every
/// chain value; the store maps them onto its arbitrary-precision
/// numeric columns.
#[derive(Debug, Clone, PartialEq, Eq)]
pub struct Block {
    pub block_height: u64,
    pub block_hash: String,
    pub prev_block_hash: String,
    pub block_timestamp: u64,
    pub total_supply: u128,
    pub gas_price: u128,
    pub author_account_id: String,
}

/// What the row derived from one delivered block holds: every column
/// comes straight from the header, plus the block author.
pub open spec fn spec_block_row(r: Block, v: BlockView) -> bool {
    &&& r.block_height == v.header.height
    &&& r.block_hash@ == v.header.hash@
    &&& r.prev_block_hash@ == v.header.prev_hash@
    &&& r.block_timestamp == v.header.timestamp
    &&& r.total_supply == v.header.total_supply
    &&& r.gas_price == v.header.gas_price
    &&& r.author_account_id@ == v.author@
}

/// The quoted SQL value tuple of one block row, column by column.
pub open spec fn spec_block_values_text(b: Block) -> Seq<char> {
    "('"@ + dec_digits(b.block_height as int) + "','"@ + b.block_hash@ + "','"@
        + b.prev_block_hash@ + "','"@ + dec_digits(b.block_timestamp as int) + "','"@ + dec_digits(
        b.total_supply as int,
    ) + "','"@ + dec_digits(b.gas_price as int) + "','"@ + b.author_account_id@ + "')"@
}

impl Block {
    /// The row derived from one delivered block.
    pub fn from_view(block_view: &BlockView) -> (r: Block)
        ensures
            spec_block_row(r, *block_view),
    {
        Block {
            block_height: block_view.header.height,
            block_hash: block_view.header.hash.clone(),
            prev_block_hash: block_view.header.prev_hash.clone(),
            block_timestamp: block_view.header.timestamp,
            total_supply: block_view.header.total_supply,
            gas_price: block_view.header.gas_price,
            author_account_id: block_view.author.clone(),
        }
    }

    /// Renders the row as a quoted SQL value tuple.
    pub fn values_text(&self) -> (r: String)
        ensures
            r@ == spec_block_values_text(*self),
    {
        let mut s = String::from_str("('");
        push_dec_u128(&mut s, self.block_height as u128);
        s.append("','");
        s.append(self.block_hash.as_str());
        s.append("','");
        s.append(self.prev_block_hash.as_str());
        s.append("','");
        push_dec_u128(&mut s, self.block_timestamp as u128);
        s.append("','");
        push_dec_u128(&mut s, self.total_supply);
        s.append("','");
        push_dec_u128(&mut s, self.gas_price);
        s.append("','");
        s.append(self.author_account_id.as_str());
        s.append("')");
        proof {
            assert(s@ =~= spec_block_values_text(*self));
        }
        s
    }
}

impl FieldCount for Block {
    open spec fn spec_field_count() -> usize {
        7
    }

    fn field_count() -> (r: usize) {
        7
    }
}

impl Timestamped for Block {
    open spec fn row_timestamp(self) -> u64 {
        self.block_timestamp
    }
}

impl MySqlMethods for Block {
    open spec fn table_name() -> Seq<char> {
        "blocks"@
    }

    open spec fn table_view(store: StoreModel) -> Seq<Block> {
        store.blocks@
    }

    open spec fn others_view(store: StoreModel) -> StoreTables {
        StoreTables { blocks: Seq::empty(), account_changes: store.account_changes@ }
    }

    open spec fn insert_query_text(count: int) -> Seq<char> {
        "INSERT INTO blocks VALUES "@ + spec_placeholders(count, 7)
    }

    open spec fn delete_query_text() -> Seq<char> {
        "DELETE FROM blocks WHERE block_timestamp = $1"@
    }

    fn insert_query(count: usize) -> (r: Result<String, IngestError>) {
        let placeholders = create_placeholders(count, Block::field_count())?;
        let mut q = String::from_str("INSERT INTO blocks VALUES ");
        q.append(placeholders.as_str());
        Ok(q)
    }

    fn delete_query() -> (r: String) {
        String::from_str("DELETE FROM blocks WHERE block_timestamp = $1")
    }

    fn name() -> (r: String) {
        String::from_str("blocks")
    }

    fn append_rows(store: &mut StoreModel, rows: Vec<Block>) {
        let mut rows = rows;
        store.blocks.append(&mut rows);
    }

    fn delete_rows(store: &mut StoreModel, ts: u64) {
        let mut rest = store.blocks.split_off(0);
        let total = rest.len();
        let ghost orig = rest@;
        let mut kept: Vec<Block> = Vec::new();
        let mut i: usize = 0;
        proof {
            assert(without_timestamp(orig.take(0), ts) =~= Seq::<Block>::empty()) by {
                reveal(Seq::filter);
            }
        }
        while rest.len() > 0
            invariant
                i + rest@.len() == total,
                orig.len() == total,
                rest@ == orig.skip(i as int),
                kept@ == without_timestamp(orig.take(i as int), ts),
            decreases rest@.len(),
        {
            let row = rest.remove(0);
            proof {
                assert(row == orig[i as int]);
                let s0 = orig.take(i as int);
                let s1 = orig.take(i as int + 1);
                assert(s1.drop_last() =~= s0);
                assert(s1.last() == row);
                assert(without_timestamp(s1, ts) == if row.row_timestamp() != ts {
                    without_timestamp(s0, ts).push(row)
                } else {
                    without_timestamp(s0, ts)
                }) by {
                    reveal(Seq::filter);
                }
                assert(rest@ =~= orig.skip(i as int + 1));
            }
            if row.block_timestamp != ts {
                kept.push(row);
            }
            i = i + 1;
        }
        proof {
            assert(orig =~= old(store).blocks@);
            assert(orig.take(orig.len() as int) =~= orig);
        }
        store.blocks = kept;
    }
}

} // verus!
