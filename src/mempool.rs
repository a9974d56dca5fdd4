//! A first-in, first-out queue that admits only correctly signed transactions.
use vstd::prelude::*;
use std::collections::VecDeque;
use crate::signature::{ed25519_accepts, SignatureManager};

verus! {

/// A signed payload waiting to be processed.
#[derive(Debug, Clone)]
pub struct Transaction {
    /// The sender's Ed25519 public key.
    pub sender: Vec<u8>,
    pub payload: Vec<u8>,
    /// The sender's signature over `payload`.
    pub signature: Vec<u8>,
}

pub struct PendingView {
    pub sender: Seq<u8>,
    pub payload: Seq<u8>,
    pub signature: Seq<u8>,
}

impl View for Transaction {
    type V = PendingView;

    open spec fn view(&self) -> PendingView {
        PendingView { sender: self.sender@, payload: self.payload@, signature: self.signature@ }
    }
}

fn copy_bytes(v: &Vec<u8>) -> (r: Vec<u8>)
    ensures
        r@ == v@,
{
    let mut out: Vec<u8> = Vec::new();
    let mut i: usize = 0;
    while i < v.len()
        invariant
            i <= v@.len(),
            out@ == v@.subrange(0, i as int),
        decreases v@.len() - i,
    {
        out.push(v[i]);
        i = i + 1;
    }
    proof {
        assert(out@ =~= v@);
    }
    out
}

impl Transaction {
    /// A copy with the same bytes.
    pub fn duplicate(&self) -> (r: Self)
        ensures
            r@ == self@,
    {
        Transaction {
            sender: copy_bytes(&self.sender),
            payload: copy_bytes(&self.payload),
            signature: copy_bytes(&self.signature),
        }
    }
}

/// Whether the transaction's signature verifies under its sender's key.
pub open spec fn well_signed(tx: PendingView) -> bool {
    ed25519_accepts(tx.sender, tx.payload, tx.signature)
}

#[derive(Debug)]
pub struct TxMempool {
    pool: VecDeque<Transaction>,
}

impl View for TxMempool {
    type V = Seq<PendingView>;

    closed spec fn view(&self) -> Seq<PendingView> {
        self.pool@.map_values(|t: Transaction| t@)
    }
}

impl TxMempool {
    pub fn new() -> (r: Self)
        ensures
            r@ == Seq::<PendingView>::empty(),
    {
        let r = TxMempool { pool: VecDeque::new() };
        assert(r@ =~= Seq::<PendingView>::empty());
        r
    }

    /// Queues `tx` at the back if its signature verifies; says whether it did.
    pub fn add_transaction(&mut self, tx: Transaction) -> (r: bool)
        ensures
            r == well_signed(tx@),
            r ==> final(self)@ == old(self)@.push(tx@),
            !r ==> final(self)@ == old(self)@,
    {
        let is_valid = SignatureManager::verify(tx.sender.as_slice(), tx.payload.as_slice(), tx.signature.as_slice());
        if is_valid {
            let ghost v = tx@;
            self.pool.push_back(tx);
            assert(self@ =~= old(self)@.push(v));
            true
        } else {
            false
        }
    }

    /// Takes the oldest transaction off the queue.
    pub fn pop_transaction(&mut self) -> (r: Option<Transaction>)
        ensures
            old(self)@.len() == 0 ==> r is None && final(self)@ == old(self)@,
            old(self)@.len() > 0 ==> (r matches Some(t) && t@ == old(self)@[0] && final(self)@ == old(self)@.drop_first()),
    {
        let r = self.pool.pop_front();
        proof {
            if old(self)@.len() > 0 {
                assert(self@ =~= old(self)@.drop_first());
            }
        }
        r
    }

    /// Copies of the queued transactions, oldest first.
    pub fn list_transactions(&self) -> (r: Vec<Transaction>)
        ensures
            r@.map_values(|t: Transaction| t@) == self@,
    {
        let mut out: Vec<Transaction> = Vec::new();
        let mut i: usize = 0;
        while i < self.pool.len()
            invariant
                i <= self.pool@.len(),
                out@.len() == i,
                forall|j: int| 0 <= j < i ==> (#[trigger] out@[j])@ == self.pool@[j]@,
            decreases self.pool@.len() - i,
        {
            out.push(self.pool[i].duplicate());
            i = i + 1;
        }
        assert(out@.map_values(|t: Transaction| t@) =~= self@);
        out
    }

    pub fn size(&self) -> (r: usize)
        ensures
            r == self@.len(),
    {
        self.pool.len()
    }
}

} // verus!
