//! The ledger values the node core reads: transactions and blocks, modelled
//! by the fields the protocol logic inspects. A transaction is its id plus
//! an opaque body; a block is its hash plus the transactions it carries.
//! What only the ledger collaborator can compute (validity verdicts, proof
//! of work, signatures) is handed to the core as arguments.

use vstd::prelude::*;

verus! {

/// A pending or mined transaction: the id the protocol keys on, and the
/// rest of the transaction (inputs, outputs, signatures) as opaque bytes.
#[derive(Debug, PartialEq)]
pub struct Transaction {
    pub id: String,
    pub body: Vec<u8>,
}

/// Mathematical value of a [`Transaction`].
pub struct TransactionV {
    pub id: Seq<char>,
    pub body: Seq<u8>,
}

impl View for Transaction {
    type V = TransactionV;

    open spec fn view(&self) -> TransactionV {
        TransactionV { id: self.id@, body: self.body@ }
    }
}

impl DeepView for Transaction {
    type V = TransactionV;

    open spec fn deep_view(&self) -> TransactionV {
        self.view()
    }
}

impl Transaction {
    pub fn clone_tx(&self) -> (r: Transaction)
        ensures
            r@ == self@,
    {
        let mut body: Vec<u8> = Vec::new();
        let mut i: usize = 0;
        while i < self.body.len()
            invariant
                i <= self.body.len(),
                body@ == self.body@.take(i as int),
            decreases self.body.len() - i,
        {
            body.push(self.body[i]);
            i += 1;
            proof {
                assert(body@ =~= self.body@.take(i as int));
            }
        }
        proof {
            assert(body@ =~= self.body@);
        }
        Transaction { id: self.id.clone(), body }
    }
}

/// A mined block: its hash and the transactions it contains.
#[derive(Debug, PartialEq)]
pub struct Block {
    pub hash: String,
    pub txs: Vec<Transaction>,
}

/// Mathematical value of a [`Block`].
pub struct BlockV {
    pub hash: Seq<char>,
    pub txs: Seq<TransactionV>,
}

impl View for Block {
    type V = BlockV;

    open spec fn view(&self) -> BlockV {
        BlockV { hash: self.hash@, txs: self.txs.deep_view() }
    }
}

impl DeepView for Block {
    type V = BlockV;

    open spec fn deep_view(&self) -> BlockV {
        self.view()
    }
}

impl Block {
    pub fn clone_block(&self) -> (r: Block)
        ensures
            r@ == self@,
    {
        let mut txs: Vec<Transaction> = Vec::new();
        let mut i: usize = 0;
        while i < self.txs.len()
            invariant
                i <= self.txs.len(),
                txs@.len() == i,
                forall|j: int| 0 <= j < i ==> #[trigger] txs@[j]@ == self.txs@[j]@,
            decreases self.txs.len() - i,
        {
            txs.push(self.txs[i].clone_tx());
            i += 1;
        }
        proof {
            assert(txs.deep_view() =~= self.txs.deep_view());
        }
        Block { hash: self.hash.clone(), txs }
    }
}

} // verus!
