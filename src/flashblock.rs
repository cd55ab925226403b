//! The flashblock record: one fragment of a block under construction.

use vstd::prelude::*;
use crate::hex::{parse_prefixed_hex, prefixed_hex_value};
use crate::json::JsonValue;


verus! {

/// The header that the initial fragment of a block carries; every value is a
/// hex numeral or hash as text.
#[derive(Clone, Debug)]
pub struct FlashblockBase {
    pub parent_hash: String,
    pub fee_recipient: String,
    pub block_number: String,
    pub gas_limit: String,
    pub timestamp: String,
    pub base_fee_per_gas: String,
}

/// What one fragment adds to the block.
#[derive(Debug)]
pub struct FlashblockDiff {
    pub state_root: Option<String>,
    pub block_hash: Option<String>,
    pub gas_used: Option<String>,
    pub transactions: Option<Vec<String>>,
    pub withdrawals: Option<Vec<JsonValue>>,
}

#[derive(Debug)]
pub struct FlashblockMetadata {
    /// Decimal block number; preferred over the hex one of the base.
    pub block_number: Option<u64>,
    pub new_account_balances: Option<JsonValue>,
    pub receipts: Option<JsonValue>,
}

/// One fragment of a block: index 0 carries the base, later ones a diff.
#[derive(Debug)]
pub struct Flashblock {
    pub payload_id: String,
    pub index: u64,
    pub base: Option<FlashblockBase>,
    pub diff: FlashblockDiff,
    pub metadata: FlashblockMetadata,
}

/// The number of members of an object; zero for anything else.
pub open spec fn object_size(v: Option<JsonValue>) -> nat {
    match v {
        Some(JsonValue::Object(members)) => members@.len(),
        _ => 0,
    }
}

impl Flashblock {
    /// The block number: the metadata's, else the base's hex one when it
    /// parses, else unknown.
    pub open spec fn spec_block_number(&self) -> Option<u64> {
        match self.metadata.block_number {
            Some(n) => Some(n),
            None => match self.base {
                Some(base) => prefixed_hex_value(base.block_number@),
                None => None,
            },
        }
    }

    pub open spec fn spec_effective_block_number(&self) -> u64 {
        match self.spec_block_number() {
            Some(n) => n,
            None => 0,
        }
    }

    pub open spec fn spec_transaction_count(&self) -> nat {
        match self.diff.transactions {
            Some(txs) => txs@.len(),
            None => 0,
        }
    }

    pub fn block_number(&self) -> (r: Option<u64>)
        ensures
            r == self.spec_block_number(),
    {
        match self.metadata.block_number {
            Some(n) => Some(n),
            None => match &self.base {
                Some(base) => parse_prefixed_hex(base.block_number.as_str()),
                None => None,
            },
        }
    }

    /// The block number, with 0 standing for unknown.
    pub fn effective_block_number(&self) -> (r: u64)
        ensures
            r == self.spec_effective_block_number(),
    {
        match self.block_number() {
            Some(n) => n,
            None => 0,
        }
    }

    pub fn transaction_count(&self) -> (r: usize)
        ensures
            r == self.spec_transaction_count(),
    {
        match &self.diff.transactions {
            Some(txs) => txs.len(),
            None => 0,
        }
    }

    /// How many accounts the metadata reports new balances for.
    pub fn balance_update_count(&self) -> (r: usize)
        ensures
            r == object_size(self.metadata.new_account_balances),
    {
        match &self.metadata.new_account_balances {
            Some(JsonValue::Object(members)) => members.len(),
            _ => 0,
        }
    }

    /// How many receipts the metadata carries.
    pub fn receipt_count(&self) -> (r: usize)
        ensures
            r == object_size(self.metadata.receipts),
    {
        match &self.metadata.receipts {
            Some(JsonValue::Object(members)) => members.len(),
            _ => 0,
        }
    }

    pub fn is_initial(&self) -> (r: bool)
        ensures
            r == (self.index == 0),
    {
        self.index == 0
    }
}

} // verus!
