//! A simple address book of token balances and NFT holdings.
use vstd::prelude::*;
use crate::keymap::KeyMap;

verus! {

#[derive(Debug)]
pub struct Ledger {
    pub balances: KeyMap<String, u64>,
    /// For each owner, the ids of the NFTs minted to it, oldest first.
    pub nfts: KeyMap<String, Vec<String>>,
}

impl Ledger {
    /// The balance recorded for `address`; zero where none is.
    pub open spec fn balance(&self, address: Seq<char>) -> u64 {
        if self.balances@.contains_key(address) {
            self.balances@[address]
        } else {
            0
        }
    }

    /// The NFT ids recorded for `owner`; empty where none are.
    pub open spec fn holdings(&self, owner: Seq<char>) -> Seq<String> {
        if self.nfts@.contains_key(owner) {
            self.nfts@[owner]
        } else {
            Seq::empty()
        }
    }

    pub fn new() -> (r: Self)
        ensures
            r.balances@ == Map::<Seq<char>, u64>::empty(),
            r.nfts@ == Map::<Seq<char>, Seq<String>>::empty(),
    {
        Ledger { balances: KeyMap::new(), nfts: KeyMap::new() }
    }

    pub fn get_balance(&self, address: &str) -> (r: u64)
        ensures
            r == self.balance(address@),
    {
        match self.balances.get(&address.to_owned()) {
            Some(b) => *b,
            None => 0,
        }
    }

    /// Adds `amount` to the balance of `address`, recording it if it was not yet.
    pub fn credit(&mut self, address: &str, amount: u64)
        requires
            old(self).balance(address@) + amount <= u64::MAX,
        ensures
            final(self).balances@ == old(self).balances@.insert(address@, (old(self).balance(address@) + amount) as u64),
            final(self).nfts@ == old(self).nfts@,
    {
        let current = self.get_balance(address);
        self.balances.insert(address.to_owned(), current + amount);
    }

    /// Takes `amount` from `address` if its balance covers it, and says whether it
    /// did. The address is recorded, with balance zero, even when the debit fails.
    pub fn debit(&mut self, address: &str, amount: u64) -> (r: bool)
        ensures
            r == (old(self).balance(address@) >= amount),
            final(self).balances@ == old(self).balances@.insert(
                address@,
                if r {
                    (old(self).balance(address@) - amount) as u64
                } else {
                    old(self).balance(address@)
                },
            ),
            final(self).nfts@ == old(self).nfts@,
    {
        let current = self.get_balance(address);
        if current >= amount {
            self.balances.insert(address.to_owned(), current - amount);
            true
        } else {
            self.balances.insert(address.to_owned(), current);
            false
        }
    }

    /// Records `nft_id` as the newest NFT of `owner`.
    pub fn mint_nft(&mut self, owner: &str, nft_id: &str)
        ensures
            final(self).nfts@.contains_key(owner@),
            final(self).nfts@[owner@].len() == old(self).holdings(owner@).len() + 1,
            final(self).nfts@[owner@].subrange(0, old(self).holdings(owner@).len() as int) == old(self).holdings(
                owner@,
            ),
            final(self).nfts@[owner@].last()@ == nft_id@,
            forall|o: Seq<char>| o != owner@ ==> #[trigger] final(self).nfts@.contains_key(o) == old(self).nfts@.contains_key(o),
            forall|o: Seq<char>| o != owner@ && old(self).nfts@.contains_key(o) ==> #[trigger] final(self).nfts@[o] == old(self).nfts@[o],
            final(self).balances@ == old(self).balances@,
    {
        let key = owner.to_owned();
        let mut list = match self.nfts.remove(&key) {
            Some(l) => l,
            None => Vec::new(),
        };
        let ghost before = list@;
        list.push(nft_id.to_owned());
        proof {
            assert(list@.subrange(0, before.len() as int) =~= before);
        }
        self.nfts.insert(key, list);
    }

    /// A copy of the NFT ids recorded for `owner`, oldest first.
    pub fn get_nfts(&self, owner: &str) -> (r: Vec<String>)
        ensures
            r@ == self.holdings(owner@),
    {
        let mut out: Vec<String> = Vec::new();
        match self.nfts.get(&owner.to_owned()) {
            Some(list) => {
                let mut i: usize = 0;
                while i < list.len()
                    invariant
                        i <= list@.len(),
                        out@ == list@.subrange(0, i as int),
                    decreases list@.len() - i,
                {
                    out.push(list[i].clone());
                    i = i + 1;
                }
                proof {
                    assert(out@ =~= list@);
                }
            },
            None => {},
        }
        out
    }
}

} // verus!
