//! Properties of the transition model that hold for every state and transaction.
use vstd::prelude::*;
use crate::runtime::{apply_result, genesis};
use crate::types::{AccountId, Balance, ChainStateView, Error, ProofVerdict, Timestamp, Transaction, TransactionType};

verus! {

/// The ledger's invariants: accounts are filed under their own ids; the NFT
/// registry and the owners' sets agree and use only allocated ids; every
/// proposal's tally counts each of its voters once; stakes use allocated ids.
pub open spec fn well_formed(s: ChainStateView) -> bool {
    &&& forall|k: Seq<char>| #[trigger] s.accounts.contains_key(k) ==> s.accounts[k].id == k
    &&& forall|id: u64| #[trigger]
        s.nfts.contains_key(id) ==> {
            &&& s.nfts[id].id == id
            &&& id < s.next_nft_id
            &&& s.accounts.contains_key(s.nfts[id].owner@)
            &&& s.accounts[s.nfts[id].owner@].nfts.contains(id)
        }
    &&& forall|k: Seq<char>, id: u64|
        s.accounts.contains_key(k) && #[trigger] s.accounts[k].nfts.contains(id) ==> s.nfts.contains_key(id)
            && s.nfts[id].owner@ == k
    &&& forall|id: u64| #[trigger]
        s.proposals.contains_key(id) ==> {
            &&& s.proposals[id].id == id
            &&& id < s.next_proposal_id
            &&& s.proposals[id].voters.dom().finite()
            &&& s.proposals[id].votes_for + s.proposals[id].votes_against == s.proposals[id].voters.len()
        }
    &&& forall|id: u64| #[trigger] s.stakes.contains_key(id) ==> s.stakes[id].id == id && id < s.next_stake_id
}

/// The genesis state is well-formed.
pub proof fn lemma_genesis_well_formed()
    ensures
        well_formed(genesis()),
{
}

/// Applying any transaction to a well-formed state gives a well-formed state.
pub proof fn lemma_apply_preserves_well_formed(
    s: ChainStateView,
    tx: Transaction,
    signature_ok: bool,
    now: Timestamp,
    verdict: ProofVerdict,
)
    requires
        well_formed(s),
    ensures
        apply_result(s, tx, signature_ok, now, verdict) matches Ok(t) ==> well_formed(t),
{
}

/// The liquid balance held under `id`; zero where there is no account.
pub open spec fn balance_of(s: ChainStateView, id: Seq<char>) -> int {
    if s.accounts.contains_key(id) {
        s.accounts[id].balance as int
    } else {
        0
    }
}

/// The nonce of the account under `id`; zero where there is no account.
pub open spec fn nonce_of(s: ChainStateView, id: Seq<char>) -> int {
    if s.accounts.contains_key(id) {
        s.accounts[id].nonce as int
    } else {
        0
    }
}

/// The sum of the balances held under the given ids.
pub open spec fn total_over(s: ChainStateView, ids: Seq<Seq<char>>) -> int
    decreases ids.len(),
{
    if ids.len() == 0 {
        0
    } else {
        total_over(s, ids.drop_last()) + balance_of(s, ids.last())
    }
}

/// Whether `tx`, taken as correctly signed and applied at its own timestamp with
/// no proof verifier configured, succeeds on `s`.
#[verifier::opaque]
pub open spec fn applies(s: ChainStateView, tx: Transaction) -> bool {
    apply_result(s, tx, true, tx.timestamp, ProofVerdict::Rejected) is Ok
}

/// The state after `tx` as `applies` takes it: the new state on success, else `s`.
#[verifier::opaque]
pub open spec fn after(s: ChainStateView, tx: Transaction) -> ChainStateView {
    match apply_result(s, tx, true, tx.timestamp, ProofVerdict::Rejected) {
        Ok(t) => t,
        Err(_) => s,
    }
}

/// The state after the transactions, one after another.
#[verifier::opaque]
pub open spec fn run(s: ChainStateView, txs: Seq<Transaction>) -> ChainStateView
    decreases txs.len(),
{
    if txs.len() == 0 {
        s
    } else {
        after(run(s, txs.drop_last()), txs.last())
    }
}

proof fn lemma_run_last(s: ChainStateView, txs: Seq<Transaction>)
    ensures
        txs.len() == 0 ==> run(s, txs) == s,
        txs.len() > 0 ==> run(s, txs) == after(run(s, txs.drop_last()), txs.last()),
{
    reveal_with_fuel(run, 1);
}

/// How many of the transactions succeed with `id` as their signer.
pub open spec fn successes_by(s: ChainStateView, txs: Seq<Transaction>, id: Seq<char>) -> int
    decreases txs.len(),
{
    if txs.len() == 0 {
        0
    } else {
        let prior = run(s, txs.drop_last());
        successes_by(s, txs.drop_last(), id) + if applies(prior, txs.last()) && txs.last().signer@ == id {
            1int
        } else {
            0int
        }
    }
}

proof fn lemma_total_same(s1: ChainStateView, s2: ChainStateView, ids: Seq<Seq<char>>)
    requires
        forall|k: Seq<char>| balance_of(s2, k) == balance_of(s1, k),
    ensures
        total_over(s2, ids) == total_over(s1, ids),
    decreases ids.len(),
{
    if ids.len() > 0 {
        lemma_total_same(s1, s2, ids.drop_last());
    }
}

proof fn lemma_total_shift(
    s1: ChainStateView,
    s2: ChainStateView,
    ids: Seq<Seq<char>>,
    from: Seq<char>,
    to: Seq<char>,
    amount: int,
)
    requires
        ids.no_duplicates(),
        from != to,
        forall|k: Seq<char>| k != from && k != to ==> balance_of(s2, k) == balance_of(s1, k),
        balance_of(s2, from) == balance_of(s1, from) - amount,
        balance_of(s2, to) == balance_of(s1, to) + amount,
    ensures
        total_over(s2, ids) == total_over(s1, ids) + (if ids.contains(to) { amount } else { 0 }) - (
        if ids.contains(from) {
            amount
        } else {
            0
        }),
    decreases ids.len(),
{
    if ids.len() > 0 {
        let rest = ids.drop_last();
        let last = ids.last();
        assert(rest.no_duplicates()) by {
            assert forall|i: int, j: int| 0 <= i < rest.len() && 0 <= j < rest.len() && i != j implies rest[i]
                != rest[j] by {
                assert(rest[i] == ids[i] && rest[j] == ids[j]);
            }
        }
        assert(!rest.contains(last)) by {
            if rest.contains(last) {
                let i = choose|i: int| 0 <= i < rest.len() && rest[i] == last;
                assert(ids[i] == ids[ids.len() - 1]);
            }
        }
        assert forall|x: Seq<char>| ids.contains(x) == (rest.contains(x) || x == last) by {
            if ids.contains(x) && x != last {
                let i = choose|i: int| 0 <= i < ids.len() && ids[i] == x;
                assert(rest[i] == x);
            }
            if rest.contains(x) {
                let i = choose|i: int| 0 <= i < rest.len() && rest[i] == x;
                assert(ids[i] == x);
            }
            if x == last {
                assert(ids[ids.len() - 1] == x);
            }
        }
        lemma_total_shift(s1, s2, rest, from, to, amount);
    }
}

/// A transfer between two of the given accounts leaves the sum of their balances
/// as it was, whether it succeeds or fails.
pub proof fn lemma_transfer_conserves(s: ChainStateView, tx: Transaction, ids: Seq<Seq<char>>)
    requires
        tx.transaction_type is Transfer,
        ids.no_duplicates(),
        ids.contains(tx.signer@),
        ids.contains(tx.transaction_type->Transfer_recipient@),
    ensures
        total_over(after(s, tx), ids) == total_over(s, ids),
{
    reveal(after);
    reveal(applies);
    let t = after(s, tx);
    let from = tx.signer@;
    let to = tx.transaction_type->Transfer_recipient@;
    let amount = tx.transaction_type->Transfer_amount;
    if applies(s, tx) {
        if from == to {
            lemma_total_same(s, t, ids);
        } else {
            lemma_total_shift(s, t, ids, from, to, amount as int);
        }
    }
}

/// Over any sequence of transfers among a fixed set of accounts, the sum of their
/// balances is conserved.
pub proof fn lemma_transfers_conserve(s: ChainStateView, txs: Seq<Transaction>, ids: Seq<Seq<char>>)
    requires
        ids.no_duplicates(),
        forall|i: int|
            0 <= i < txs.len() ==> (#[trigger] txs[i]).transaction_type is Transfer && ids.contains(
                txs[i].signer@,
            ) && ids.contains(txs[i].transaction_type->Transfer_recipient@),
    ensures
        total_over(run(s, txs), ids) == total_over(s, ids),
    decreases txs.len(),
{
    lemma_run_last(s, txs);
    if txs.len() > 0 {
        let rest = txs.drop_last();
        assert forall|i: int| 0 <= i < rest.len() implies (#[trigger] rest[i]).transaction_type is Transfer
            && ids.contains(rest[i].signer@) && ids.contains(rest[i].transaction_type->Transfer_recipient@) by {
            assert(rest[i] == txs[i]);
        }
        lemma_transfers_conserve(s, rest, ids);
        let last = txs.last();
        assert(last == txs[txs.len() - 1]);
        lemma_transfer_conserves(run(s, rest), last, ids);
    }
}

/// One transaction moves the nonce of its signer up by one when it succeeds, and no
/// other account's nonce.
pub proof fn lemma_nonce_step(s: ChainStateView, tx: Transaction, id: Seq<char>)
    ensures
        nonce_of(after(s, tx), id) == nonce_of(s, id) + if applies(s, tx) && tx.signer@ == id {
            1int
        } else {
            0int
        },
{
    reveal(after);
    reveal(applies);
}

/// After any sequence of transactions, an account's nonce has grown by the number
/// of those that it signed and that succeeded.
pub proof fn lemma_nonce_counts(s: ChainStateView, txs: Seq<Transaction>, id: Seq<char>)
    ensures
        nonce_of(run(s, txs), id) == nonce_of(s, id) + successes_by(s, txs, id),
    decreases txs.len(),
{
    lemma_run_last(s, txs);
    if txs.len() > 0 {
        lemma_nonce_counts(s, txs.drop_last(), id);
        lemma_nonce_step(run(s, txs.drop_last()), txs.last(), id);
    }
}

/// A transaction whose nonce is not the signer's current one fails with
/// `InvalidNonce`, naming the expected and the presented nonce.
pub proof fn lemma_wrong_nonce_rejected(
    s: ChainStateView,
    tx: Transaction,
    now: Timestamp,
    verdict: ProofVerdict,
)
    requires
        s.accounts.contains_key(tx.signer@),
        tx.nonce != s.accounts[tx.signer@].nonce,
    ensures
        apply_result(s, tx, true, now, verdict) == Err::<ChainStateView, Error>(
            Error::InvalidNonce(tx.signer, s.accounts[tx.signer@].nonce, tx.nonce),
        ),
{
}

/// Staking an amount and then unstaking that stake, both by the same owner,
/// returns the owner's balance to what it was and leaves the stakes as they were.
pub proof fn lemma_stake_then_unstake(
    s: ChainStateView,
    stake: Transaction,
    unstake: Transaction,
    amount: Balance,
    now1: Timestamp,
    now2: Timestamp,
    verdict: ProofVerdict,
)
    requires
        well_formed(s),
        stake.transaction_type == (TransactionType::Stake { amount }),
        unstake.transaction_type == (TransactionType::Unstake { stake_id: s.next_stake_id }),
        unstake.signer@ == stake.signer@,
        unstake.nonce == stake.nonce + 1,
        unstake.nonce < u64::MAX,
        apply_result(s, stake, true, now1, verdict) is Ok,
    ensures
        ({
            let s1 = apply_result(s, stake, true, now1, verdict)->Ok_0;
            &&& apply_result(s1, unstake, true, now2, verdict) is Ok
            &&& balance_of(apply_result(s1, unstake, true, now2, verdict)->Ok_0, stake.signer@)
                == balance_of(s, stake.signer@)
            &&& apply_result(s1, unstake, true, now2, verdict)->Ok_0.stakes == s.stakes
        }),
{
    let s1 = apply_result(s, stake, true, now1, verdict)->Ok_0;
    let id = s.next_stake_id;
    let who = stake.signer@;
    assert(!s.stakes.contains_key(id));
    assert(s1.stakes.contains_key(id) && s1.stakes[id].owner@ == who && s1.stakes[id].amount == amount);
    assert(s1.accounts.contains_key(who));
    assert(s1.accounts[who].balance == s.accounts[who].balance - amount);
    assert(s1.accounts[who].nonce == unstake.nonce);
    let s2 = apply_result(s1, unstake, true, now2, verdict)->Ok_0;
    assert(s1.stakes.remove(id) =~= s.stakes);
}

/// Unstaking a stake that someone else owns fails with `NotOwner`; by the
/// dispatcher's contract, the stake and all balances are then left as they were.
pub proof fn lemma_unstake_by_other_fails(
    s: ChainStateView,
    tx: Transaction,
    stake_id: u64,
    now: Timestamp,
    verdict: ProofVerdict,
)
    requires
        tx.transaction_type == (TransactionType::Unstake { stake_id }),
        s.accounts.contains_key(tx.signer@),
        tx.nonce == s.accounts[tx.signer@].nonce,
        tx.nonce < u64::MAX,
        s.stakes.contains_key(stake_id),
        s.stakes[stake_id].owner@ != tx.signer@,
    ensures
        apply_result(s, tx, true, now, verdict) == Err::<ChainStateView, Error>(Error::NotOwner),
{
}

/// Once an account's vote on a proposal has been counted, a second vote by it on
/// that proposal fails with `AlreadyVoted`.
pub proof fn lemma_second_vote_fails(
    s: ChainStateView,
    first: Transaction,
    second: Transaction,
    proposal_id: u64,
    support1: bool,
    support2: bool,
    now1: Timestamp,
    now2: Timestamp,
    verdict: ProofVerdict,
)
    requires
        first.transaction_type == (TransactionType::Vote { proposal_id, support: support1 }),
        second.transaction_type == (TransactionType::Vote { proposal_id, support: support2 }),
        second.signer@ == first.signer@,
        apply_result(s, first, true, now1, verdict) is Ok,
        second.nonce == first.nonce + 1,
        second.nonce < u64::MAX,
        ({
            let p = apply_result(s, first, true, now1, verdict)->Ok_0.proposals[proposal_id];
            p.start_time <= now2 <= p.end_time
        }),
    ensures
        apply_result(apply_result(s, first, true, now1, verdict)->Ok_0, second, true, now2, verdict)
            == Err::<ChainStateView, Error>(Error::AlreadyVoted(second.signer, proposal_id)),
{
}

/// A vote outside the proposal's window `[start_time, end_time]` fails with
/// `VotingPeriodInactive`.
pub proof fn lemma_vote_outside_window_fails(
    s: ChainStateView,
    tx: Transaction,
    proposal_id: u64,
    support: bool,
    now: Timestamp,
    verdict: ProofVerdict,
)
    requires
        tx.transaction_type == (TransactionType::Vote { proposal_id, support }),
        s.accounts.contains_key(tx.signer@),
        tx.nonce == s.accounts[tx.signer@].nonce,
        tx.nonce < u64::MAX,
        s.proposals.contains_key(proposal_id),
        now < s.proposals[proposal_id].start_time || now > s.proposals[proposal_id].end_time,
    ensures
        apply_result(s, tx, true, now, verdict) == Err::<ChainStateView, Error>(Error::VotingPeriodInactive),
{
}

/// Whether every transaction in `txs` mints an NFT and succeeds in turn.
pub open spec fn all_mints_succeed(s: ChainStateView, txs: Seq<Transaction>) -> bool {
    forall|i: int|
        0 <= i < txs.len() ==> (#[trigger] txs[i]).transaction_type is MintNft && applies(
            run(s, txs.take(i)),
            txs[i],
        )
}

/// The recipient named by a minting transaction.
pub open spec fn mint_recipient(tx: Transaction) -> AccountId {
    tx.transaction_type->MintNft_recipient
}

/// One successful mint: it takes the next NFT id for the recipient, and keeps
/// every existing NFT and every account's holdings.
pub proof fn lemma_mint_step(s: ChainStateView, tx: Transaction)
    requires
        tx.transaction_type is MintNft,
        applies(s, tx),
    ensures
        ({
            let t = after(s, tx);
            let id = s.next_nft_id;
            &&& t.next_nft_id == id + 1
            &&& t.nfts.contains_key(id)
            &&& t.nfts[id].owner == mint_recipient(tx)
            &&& t.accounts.contains_key(mint_recipient(tx)@)
            &&& t.accounts[mint_recipient(tx)@].nfts.contains(id)
            &&& forall|n: u64| #[trigger] s.nfts.contains_key(n) && n != id ==> t.nfts.contains_key(n) && t.nfts[n] == s.nfts[n]
            &&& forall|k: Seq<char>, n: u64|
                s.accounts.contains_key(k) && #[trigger] s.accounts[k].nfts.contains(n) ==> t.accounts.contains_key(k)
                    && t.accounts[k].nfts.contains(n)
        }),
{
    reveal(after);
    reveal(applies);
}

/// NFT `id` is registered to the recipient that `tx` names and is in that
/// recipient's set.
pub open spec fn minted(t: ChainStateView, id: int, tx: Transaction) -> bool {
    &&& t.nfts.contains_key(id as u64)
    &&& t.nfts[id as u64].owner == mint_recipient(tx)
    &&& t.accounts.contains_key(mint_recipient(tx)@)
    &&& t.accounts[mint_recipient(tx)@].nfts.contains(id as u64)
}

/// Minting K NFTs in a row hands out the ids `next_nft_id .. next_nft_id + K - 1`
/// in order; each is owned by the recipient its transaction named and appears in
/// that recipient's set of NFTs.
pub proof fn lemma_mints_number_consecutively(s: ChainStateView, txs: Seq<Transaction>)
    requires
        all_mints_succeed(s, txs),
    ensures
        run(s, txs).next_nft_id == s.next_nft_id + txs.len(),
        forall|i: int| 0 <= i < txs.len() ==> #[trigger] minted(run(s, txs), s.next_nft_id + i, txs[i]),
    decreases txs.len(),
{
    lemma_run_last(s, txs);
    if txs.len() > 0 {
        let rest = txs.drop_last();
        let k = txs.len() - 1;
        assert forall|i: int| 0 <= i < rest.len() implies (#[trigger] rest[i]).transaction_type is MintNft
            && applies(run(s, rest.take(i)), rest[i]) by {
            assert(rest[i] == txs[i]);
            assert(rest.take(i) =~= txs.take(i));
        }
        lemma_mints_number_consecutively(s, rest);
        let prior = run(s, rest);
        assert(txs.take(k) =~= rest);
        assert(applies(prior, txs[k]));
        let last = txs.last();
        assert(last == txs[k]);
        lemma_mint_step(prior, last);
        let t = run(s, txs);
        assert(t == after(prior, last));
        assert forall|i: int| 0 <= i < txs.len() implies #[trigger] minted(t, s.next_nft_id + i, txs[i]) by {
            if i < k {
                assert(rest[i] == txs[i]);
                assert(minted(prior, s.next_nft_id + i, rest[i]));
                let id = (s.next_nft_id + i) as u64;
                assert(prior.nfts.contains_key(id));
                assert(id != prior.next_nft_id);
                assert(prior.accounts[mint_recipient(txs[i])@].nfts.contains(id));
            }
        }
    }
}

/// Every state reached from a well-formed one is well-formed.
pub proof fn lemma_apply_preserves_runs_well_formed(s: ChainStateView, txs: Seq<Transaction>)
    requires
        well_formed(s),
    ensures
        well_formed(run(s, txs)),
    decreases txs.len(),
{
    lemma_run_last(s, txs);
    if txs.len() > 0 {
        lemma_apply_preserves_runs_well_formed(s, txs.drop_last());
        let prior = run(s, txs.drop_last());
        let tx = txs.last();
        reveal(after);
        lemma_apply_preserves_well_formed(prior, tx, true, tx.timestamp, ProofVerdict::Rejected);
    }
}

} // verus!
