//! Transactions as the block explorer reports them.
use vstd::prelude::*;

verus! {

/// A transaction that pays into the wallet's address.
#[derive(Debug, Clone)]
pub struct Transaction {
    /// Transaction id, in hex.
    pub hash: String,
    /// Amount in litoshis (1 LTC = 100 000 000 litoshis).
    pub amount: i64,
    /// Number of blocks that confirm the transaction.
    pub confirmations: i32,
    /// When the explorer first saw the transaction.
    pub received: String,
    pub inputs: Vec<TxInput>,
    pub outputs: Vec<TxOutput>,
}

/// One input of a transaction: the addresses it spends from.
#[derive(Debug, Clone)]
pub struct TxInput {
    pub addresses: Vec<String>,
}

/// One output of a transaction: the addresses it pays and the amount.
#[derive(Debug, Clone)]
pub struct TxOutput {
    pub addresses: Vec<String>,
    pub value: i64,
}

} // verus!
