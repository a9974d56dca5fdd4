//! The state-transition engine: validation, per-kind handlers and the dispatcher.
use vstd::prelude::*;
use crate::keymap::{Key, KeyMap};
use crate::signature::{ed25519_accepts, SignatureManager};
use crate::types::{
    fresh_account, Account, AccountId, AccountView, Balance, ChainState, ChainStateView, Error,
    Feature, NftData, NftId, NftMetadata, ProofKind, ProofType, ProofVerdict, Proposal, ProposalId,
    ProposalView, Reward, RewardId, StakeId, StakeInfo, Timestamp, Transaction, TransactionType,
    VOTING_PERIOD,
};

verus! {

broadcast use vstd::std_specs::hash::group_hash_axioms;

/// Tokens issued at genesis, all held by the founder.
pub const INITIAL_SUPPLY: Balance = 1_000_000_000;

/// Account id of the founder.
pub const FOUNDER_ADDRESS: &'static str = "PV_FOUNDER_001";

// ---------------------------------------------------------------------------
// The model: what each transaction does to the abstract state.
// ---------------------------------------------------------------------------

/// The account under `id`, or a fresh one if there is none yet.
pub open spec fn account_or_fresh(accounts: Map<Seq<char>, AccountView>, id: Seq<char>) -> AccountView {
    if accounts.contains_key(id) {
        accounts[id]
    } else {
        fresh_account(id)
    }
}

/// Takes `amount` from the liquid balance of an account that holds it.
pub open spec fn debited(accounts: Map<Seq<char>, AccountView>, id: Seq<char>, amount: Balance) -> Map<
    Seq<char>,
    AccountView,
> {
    let a = accounts[id];
    accounts.insert(id, AccountView { balance: (a.balance - amount) as u128, ..a })
}

/// Adds `amount` to an account, opening it if needed; `None` if the balance would overflow.
pub open spec fn credited(accounts: Map<Seq<char>, AccountView>, id: Seq<char>, amount: Balance) -> Option<
    Map<Seq<char>, AccountView>,
> {
    let a = account_or_fresh(accounts, id);
    if a.balance + amount > u128::MAX {
        None
    } else {
        Some(accounts.insert(id, AccountView { balance: (a.balance + amount) as u128, ..a }))
    }
}

pub open spec fn transfer_result(s: ChainStateView, sender: Seq<char>, recipient: Seq<char>, amount: Balance) -> Result<
    ChainStateView,
    Error,
> {
    match credited(debited(s.accounts, sender, amount), recipient, amount) {
        Some(accounts) => Ok(ChainStateView { accounts, ..s }),
        None => Err(Error::ArithmeticOverflow),
    }
}

pub open spec fn mint_nft_result(
    s: ChainStateView,
    metadata: NftMetadata,
    recipient: AccountId,
    now: Timestamp,
) -> Result<ChainStateView, Error> {
    if s.next_nft_id == u64::MAX {
        Err(Error::ArithmeticOverflow)
    } else {
        let id = s.next_nft_id;
        let r = account_or_fresh(s.accounts, recipient@);
        Ok(
            ChainStateView {
                nfts: s.nfts.insert(
                    id,
                    NftData { id, owner: recipient, metadata, minted_at: Some(now) },
                ),
                accounts: s.accounts.insert(recipient@, AccountView { nfts: r.nfts.insert(id), ..r }),
                next_nft_id: (id + 1) as u64,
                ..s
            },
        )
    }
}

/// The proposal that `proposer` opens at `now` under id `id`.
pub open spec fn opened_proposal(
    id: ProposalId,
    proposer: AccountId,
    title: String,
    description: String,
    now: Timestamp,
) -> ProposalView {
    ProposalView {
        id,
        title,
        description,
        proposer,
        votes_for: 0,
        votes_against: 0,
        voters: Map::empty(),
        start_time: now,
        end_time: (now + VOTING_PERIOD) as u64,
        executed: false,
    }
}

pub open spec fn create_proposal_result(
    s: ChainStateView,
    proposer: AccountId,
    title: String,
    description: String,
    now: Timestamp,
) -> Result<ChainStateView, Error> {
    if s.next_proposal_id == u64::MAX || now > u64::MAX - VOTING_PERIOD {
        Err(Error::ArithmeticOverflow)
    } else {
        let id = s.next_proposal_id;
        Ok(
            ChainStateView {
                proposals: s.proposals.insert(id, opened_proposal(id, proposer, title, description, now)),
                next_proposal_id: (id + 1) as u64,
                ..s
            },
        )
    }
}

pub open spec fn vote_result(
    s: ChainStateView,
    voter: AccountId,
    proposal_id: ProposalId,
    support: bool,
    now: Timestamp,
) -> Result<ChainStateView, Error> {
    if !s.proposals.contains_key(proposal_id) {
        Err(Error::ProposalNotFound)
    } else {
        let p = s.proposals[proposal_id];
        if now < p.start_time || now > p.end_time {
            Err(Error::VotingPeriodInactive)
        } else if p.voters.contains_key(voter@) {
            Err(Error::AlreadyVoted(voter, proposal_id))
        } else if (support && p.votes_for == u64::MAX) || (!support && p.votes_against == u64::MAX) {
            Err(Error::ArithmeticOverflow)
        } else {
            let q = ProposalView {
                voters: p.voters.insert(voter@, support),
                votes_for: if support { (p.votes_for + 1) as u64 } else { p.votes_for },
                votes_against: if support { p.votes_against } else { (p.votes_against + 1) as u64 },
                ..p
            };
            Ok(ChainStateView { proposals: s.proposals.insert(proposal_id, q), ..s })
        }
    }
}

pub open spec fn claim_reward_result(s: ChainStateView, claimer: AccountId, reward_id: RewardId) -> Result<
    ChainStateView,
    Error,
> {
    if !s.rewards.contains_key(reward_id) {
        Err(Error::RewardNotFound(reward_id))
    } else {
        let rw = s.rewards[reward_id];
        if rw.recipient@ != claimer@ {
            Err(Error::NotOwner)
        } else if rw.claimed {
            Err(Error::RewardAlreadyClaimed(reward_id))
        } else {
            match credited(s.accounts, claimer@, rw.amount) {
                Some(accounts) => Ok(
                    ChainStateView {
                        accounts,
                        rewards: s.rewards.insert(reward_id, Reward { claimed: true, ..rw }),
                        ..s
                    },
                ),
                None => Err(Error::ArithmeticOverflow),
            }
        }
    }
}

/// How many proofs of `kind` the account has had accepted.
pub open spec fn proof_count(a: AccountView, kind: ProofKind) -> u64 {
    if a.proof_submissions.contains_key(kind) {
        a.proof_submissions[kind]
    } else {
        0
    }
}

pub open spec fn submit_proof_result(
    s: ChainStateView,
    submitter: Seq<char>,
    kind: ProofKind,
    verdict: ProofVerdict,
) -> Result<ChainStateView, Error> {
    match verdict {
        ProofVerdict::Accepted => {
            let a = s.accounts[submitter];
            let count = proof_count(a, kind);
            if count == u64::MAX {
                Err(Error::ArithmeticOverflow)
            } else {
                let b = AccountView {
                    proof_submissions: a.proof_submissions.insert(kind, (count + 1) as u64),
                    ..a
                };
                Ok(ChainStateView { accounts: s.accounts.insert(submitter, b), ..s })
            }
        },
        ProofVerdict::Rejected => Err(Error::ProofVerificationFailed(None)),
        ProofVerdict::Failed(msg) => Err(Error::ProofVerificationFailed(Some(msg))),
    }
}

/// The error that a borrow against `nft_id` ends in.
pub open spec fn borrow_error(s: ChainStateView, borrower: Seq<char>, nft_id: NftId) -> Error {
    if !s.nfts.contains_key(nft_id) {
        Error::NftNotFound(nft_id)
    } else if s.nfts[nft_id].owner@ != borrower {
        Error::NotOwner
    } else {
        Error::NotImplemented(Feature::Borrow)
    }
}

pub open spec fn stake_result(s: ChainStateView, staker: AccountId, amount: Balance, now: Timestamp) -> Result<
    ChainStateView,
    Error,
> {
    if s.next_stake_id == u64::MAX {
        Err(Error::ArithmeticOverflow)
    } else {
        let id = s.next_stake_id;
        Ok(
            ChainStateView {
                accounts: debited(s.accounts, staker@, amount),
                stakes: s.stakes.insert(id, StakeInfo { id, owner: staker, amount, start_time: now }),
                next_stake_id: (id + 1) as u64,
                ..s
            },
        )
    }
}

pub open spec fn unstake_result(s: ChainStateView, unstaker: Seq<char>, stake_id: StakeId) -> Result<
    ChainStateView,
    Error,
> {
    if !s.stakes.contains_key(stake_id) {
        Err(Error::StakeNotFound(stake_id))
    } else {
        let st = s.stakes[stake_id];
        if st.owner@ != unstaker {
            Err(Error::NotOwner)
        } else {
            match credited(s.accounts, unstaker, st.amount) {
                Some(accounts) => Ok(
                    ChainStateView { accounts, stakes: s.stakes.remove(stake_id), ..s },
                ),
                None => Err(Error::ArithmeticOverflow),
            }
        }
    }
}

/// What the handler of the transaction's kind does, after validation.
pub open spec fn handler_result(
    s: ChainStateView,
    signer: AccountId,
    kind: TransactionType,
    now: Timestamp,
    verdict: ProofVerdict,
) -> Result<ChainStateView, Error> {
    match kind {
        TransactionType::Transfer { recipient, amount } => transfer_result(s, signer@, recipient@, amount),
        TransactionType::MintNft { metadata, recipient, .. } => mint_nft_result(s, metadata, recipient, now),
        TransactionType::CreateProposal { title, description } => create_proposal_result(
            s,
            signer,
            title,
            description,
            now,
        ),
        TransactionType::Vote { proposal_id, support } => vote_result(s, signer, proposal_id, support, now),
        TransactionType::ClaimReward { reward_id } => claim_reward_result(s, signer, reward_id),
        TransactionType::SubmitProof { proof_type, .. } => submit_proof_result(
            s,
            signer@,
            proof_type@,
            verdict,
        ),
        TransactionType::Lend { .. } => Err(Error::NotImplemented(Feature::Lend)),
        TransactionType::WithdrawLend { .. } => Err(Error::NotImplemented(Feature::WithdrawLend)),
        TransactionType::Borrow { collateral_nft_id, .. } => Err(borrow_error(s, signer@, collateral_nft_id)),
        TransactionType::RepayLoan { .. } => Err(Error::NotImplemented(Feature::RepayLoan)),
        TransactionType::LiquidateLoan { .. } => Err(Error::NotImplemented(Feature::LiquidateLoan)),
        TransactionType::Stake { amount } => stake_result(s, signer, amount, now),
        TransactionType::Unstake { stake_id } => unstake_result(s, signer@, stake_id),
        TransactionType::ClaimAirdrop { .. } => Err(Error::NotImplemented(Feature::ClaimAirdrop)),
    }
}

/// The amount that a kind takes from the signer's liquid balance, if any.
pub open spec fn spends(kind: TransactionType) -> Option<Balance> {
    match kind {
        TransactionType::Transfer { amount, .. } => Some(amount),
        TransactionType::Lend { amount, .. } => Some(amount),
        TransactionType::Stake { amount } => Some(amount),
        _ => None,
    }
}

/// Sets the signer's nonce to one past `nonce`.
pub open spec fn nonce_advanced(s: ChainStateView, signer: Seq<char>, nonce: u64) -> ChainStateView {
    ChainStateView {
        accounts: s.accounts.insert(signer, AccountView { nonce: (nonce + 1) as u64, ..s.accounts[signer] }),
        ..s
    }
}

/// The outcome of applying `tx` to `s`: the new state, or the error with `s` left as it was.
pub open spec fn apply_result(
    s: ChainStateView,
    tx: Transaction,
    signature_ok: bool,
    now: Timestamp,
    verdict: ProofVerdict,
) -> Result<ChainStateView, Error> {
    let signer = tx.signer@;
    if !signature_ok {
        Err(Error::InvalidSignature(tx.signer))
    } else if !s.accounts.contains_key(signer) {
        Err(Error::AccountNotFound(tx.signer))
    } else if tx.nonce != s.accounts[signer].nonce {
        Err(Error::InvalidNonce(tx.signer, s.accounts[signer].nonce, tx.nonce))
    } else if tx.nonce == u64::MAX {
        Err(Error::ArithmeticOverflow)
    } else if spends(tx.transaction_type) is Some && s.accounts[signer].balance < spends(
        tx.transaction_type,
    )->0 {
        Err(Error::InsufficientBalance(tx.signer, spends(tx.transaction_type)->0))
    } else {
        match handler_result(s, tx.signer, tx.transaction_type, now, verdict) {
            Ok(t) => Ok(nonce_advanced(t, signer, tx.nonce)),
            Err(e) => Err(e),
        }
    }
}

/// Whether `tx` carries a signature that verifies under `public_key` over the
/// UTF-8 bytes of its hash.
pub open spec fn signed_by(tx: Transaction, public_key: Seq<u8>) -> bool {
    match tx.signature {
        Some(sig) => ed25519_accepts(public_key, vstd::utf8::encode_utf8(tx.hash@), sig@),
        None => false,
    }
}

/// `r` and the move from `before` to `after` are what `expected` describes.
pub open spec fn realizes(
    r: Result<(), Error>,
    before: ChainStateView,
    after: ChainStateView,
    expected: Result<ChainStateView, Error>,
) -> bool {
    match expected {
        Ok(t) => r is Ok && after == t,
        Err(e) => r == Err::<(), Error>(e) && after == before,
    }
}

/// The state at genesis: the founder holds the whole initial supply.
pub open spec fn genesis() -> ChainStateView {
    ChainStateView {
        accounts: Map::empty().insert(
            FOUNDER_ADDRESS@,
            AccountView { balance: INITIAL_SUPPLY, ..fresh_account(FOUNDER_ADDRESS@) },
        ),
        nfts: Map::empty(),
        proposals: Map::empty(),
        stakes: Map::empty(),
        rewards: Map::empty(),
        block_height: 0,
        next_nft_id: 0,
        next_proposal_id: 0,
        next_stake_id: 0,
        total_supply: INITIAL_SUPPLY,
    }
}

proof fn lemma_reinsert<K, V>(m: Map<K, V>, k: K, v: V)
    ensures
        m.remove(k).insert(k, v) == m.insert(k, v),
{
    assert(m.remove(k).insert(k, v) =~= m.insert(k, v));
}

// ---------------------------------------------------------------------------
// The engine.
// ---------------------------------------------------------------------------

/// Takes the account under `id` out of the table, or makes a fresh one.
fn take_account(accounts: &mut KeyMap<AccountId, Account>, id: &AccountId) -> (r: Account)
    ensures
        r@ == account_or_fresh(old(accounts)@, id@),
        final(accounts)@ == old(accounts)@.remove(id@),
{
    match accounts.remove(id) {
        Some(a) => a,
        None => Account::new(id.clone()),
    }
}

/// Puts an account taken by `take_account` back under `id`.
fn put_account(accounts: &mut KeyMap<AccountId, Account>, id: &AccountId, a: Account)
    ensures
        final(accounts)@ == old(accounts)@.insert(id@, a@),
{
    accounts.insert(id.clone(), a);
}

fn execute_transfer(state: &mut ChainState, sender: &AccountId, recipient: &AccountId, amount: Balance) -> (r:
    Result<(), Error>)
    requires
        old(state)@.accounts.contains_key(sender@),
        old(state)@.accounts[sender@].balance >= amount,
    ensures
        realizes(r, old(state)@, final(state)@, transfer_result(old(state)@, sender@, recipient@, amount)),
{
    let ghost s = state@;
    let sender_balance = state.accounts.get(sender).unwrap().balance;
    let recipient_balance: Balance = if recipient.same_key(sender) {
        sender_balance - amount
    } else {
        match state.accounts.get(recipient) {
            Some(b) => b.balance,
            None => 0,
        }
    };
    if recipient_balance > u128::MAX - amount {
        return Err(Error::ArithmeticOverflow);
    }
    let mut a = take_account(&mut state.accounts, sender);
    a.balance = a.balance - amount;
    put_account(&mut state.accounts, sender, a);
    proof {
        lemma_reinsert(s.accounts, sender@, a@);
        assert(state@.accounts == debited(s.accounts, sender@, amount));
    }
    let mut b = take_account(&mut state.accounts, recipient);
    b.balance = b.balance + amount;
    put_account(&mut state.accounts, recipient, b);
    proof {
        let d = debited(s.accounts, sender@, amount);
        lemma_reinsert(d, recipient@, b@);
    }
    Ok(())
}

fn execute_nft_mint(
    state: &mut ChainState,
    metadata: &NftMetadata,
    recipient: &AccountId,
    now: Timestamp,
) -> (r: Result<(), Error>)
    ensures
        realizes(r, old(state)@, final(state)@, mint_nft_result(old(state)@, *metadata, *recipient, now)),
{
    let ghost s = state@;
    if state.next_nft_id == u64::MAX {
        return Err(Error::ArithmeticOverflow);
    }
    let nft_id = state.next_nft_id;
    state.nfts.insert(
        nft_id,
        NftData { id: nft_id, owner: recipient.clone(), metadata: metadata.duplicate(), minted_at: Some(now) },
    );
    let mut r = take_account(&mut state.accounts, recipient);
    r.nfts.insert(nft_id);
    put_account(&mut state.accounts, recipient, r);
    state.next_nft_id = nft_id + 1;
    proof {
        lemma_reinsert(s.accounts, recipient@, r@);
    }
    Ok(())
}

fn execute_create_proposal(
    state: &mut ChainState,
    proposer: &AccountId,
    title: &String,
    description: &String,
    now: Timestamp,
) -> (r: Result<(), Error>)
    ensures
        realizes(
            r,
            old(state)@,
            final(state)@,
            create_proposal_result(old(state)@, *proposer, *title, *description, now),
        ),
{
    if state.next_proposal_id == u64::MAX || now > u64::MAX - VOTING_PERIOD {
        return Err(Error::ArithmeticOverflow);
    }
    let proposal_id = state.next_proposal_id;
    let p = Proposal {
        id: proposal_id,
        title: title.clone(),
        description: description.clone(),
        proposer: proposer.clone(),
        votes_for: 0,
        votes_against: 0,
        voters: KeyMap::new(),
        start_time: now,
        end_time: now + VOTING_PERIOD,
        executed: false,
    };
    state.proposals.insert(proposal_id, p);
    state.next_proposal_id = proposal_id + 1;
    Ok(())
}

fn execute_vote(
    state: &mut ChainState,
    voter: &AccountId,
    proposal_id: ProposalId,
    support: bool,
    now: Timestamp,
) -> (r: Result<(), Error>)
    ensures
        realizes(r, old(state)@, final(state)@, vote_result(old(state)@, *voter, proposal_id, support, now)),
{
    let ghost s = state@;
    match state.proposals.get(&proposal_id) {
        None => {
            return Err(Error::ProposalNotFound);
        },
        Some(p) => {
            if now < p.start_time || now > p.end_time {
                return Err(Error::VotingPeriodInactive);
            }
            if p.voters.contains_key(voter) {
                return Err(Error::AlreadyVoted(voter.clone(), proposal_id));
            }
            if (support && p.votes_for == u64::MAX) || (!support && p.votes_against == u64::MAX) {
                return Err(Error::ArithmeticOverflow);
            }
        },
    }
    let mut p = state.proposals.remove(&proposal_id).unwrap();
    p.voters.insert(voter.clone(), support);
    if support {
        p.votes_for = p.votes_for + 1;
    } else {
        p.votes_against = p.votes_against + 1;
    }
    state.proposals.insert(proposal_id, p);
    proof {
        lemma_reinsert(s.proposals, proposal_id, p@);
    }
    Ok(())
}

fn execute_claim_reward(state: &mut ChainState, claimer: &AccountId, reward_id: RewardId) -> (r: Result<
    (),
    Error,
>)
    requires
        old(state)@.accounts.contains_key(claimer@),
    ensures
        realizes(r, old(state)@, final(state)@, claim_reward_result(old(state)@, *claimer, reward_id)),
{
    let ghost s = state@;
    let amount = match state.rewards.get(&reward_id) {
        None => {
            return Err(Error::RewardNotFound(reward_id));
        },
        Some(rw) => {
            if !rw.recipient.same_key(claimer) {
                return Err(Error::NotOwner);
            }
            if rw.claimed {
                return Err(Error::RewardAlreadyClaimed(reward_id));
            }
            rw.amount
        },
    };
    let balance = state.accounts.get(claimer).unwrap().balance;
    if balance > u128::MAX - amount {
        return Err(Error::ArithmeticOverflow);
    }
    let mut rw = state.rewards.remove(&reward_id).unwrap();
    rw.claimed = true;
    state.rewards.insert(reward_id, rw);
    let mut a = take_account(&mut state.accounts, claimer);
    a.balance = a.balance + amount;
    put_account(&mut state.accounts, claimer, a);
    proof {
        lemma_reinsert(s.rewards, reward_id, rw@);
        lemma_reinsert(s.accounts, claimer@, a@);
    }
    Ok(())
}

fn execute_submit_proof(
    state: &mut ChainState,
    submitter: &AccountId,
    proof_type: &ProofType,
    verdict: &ProofVerdict,
) -> (r: Result<(), Error>)
    requires
        old(state)@.accounts.contains_key(submitter@),
    ensures
        realizes(
            r,
            old(state)@,
            final(state)@,
            submit_proof_result(old(state)@, submitter@, proof_type@, *verdict),
        ),
{
    let ghost s = state@;
    match verdict {
        ProofVerdict::Accepted => {},
        ProofVerdict::Rejected => {
            return Err(Error::ProofVerificationFailed(None));
        },
        ProofVerdict::Failed(msg) => {
            return Err(Error::ProofVerificationFailed(Some(msg.clone())));
        },
    }
    let count: u64 = match state.accounts.get(submitter).unwrap().proof_submissions.get(proof_type) {
        Some(c) => *c,
        None => 0,
    };
    if count == u64::MAX {
        return Err(Error::ArithmeticOverflow);
    }
    let mut a = take_account(&mut state.accounts, submitter);
    a.proof_submissions.insert(proof_type.duplicate(), count + 1);
    put_account(&mut state.accounts, submitter, a);
    proof {
        lemma_reinsert(s.accounts, submitter@, a@);
    }
    Ok(())
}

fn execute_borrow(state: &ChainState, borrower: &AccountId, collateral_nft_id: NftId) -> (r: Error)
    ensures
        r == borrow_error(state@, borrower@, collateral_nft_id),
{
    match state.nfts.get(&collateral_nft_id) {
        None => Error::NftNotFound(collateral_nft_id),
        Some(nft) => {
            if !nft.owner.same_key(borrower) {
                Error::NotOwner
            } else {
                Error::NotImplemented(Feature::Borrow)
            }
        },
    }
}

fn execute_stake(state: &mut ChainState, staker: &AccountId, amount: Balance, now: Timestamp) -> (r: Result<
    (),
    Error,
>)
    requires
        old(state)@.accounts.contains_key(staker@),
        old(state)@.accounts[staker@].balance >= amount,
    ensures
        realizes(r, old(state)@, final(state)@, stake_result(old(state)@, *staker, amount, now)),
{
    let ghost s = state@;
    if state.next_stake_id == u64::MAX {
        return Err(Error::ArithmeticOverflow);
    }
    let mut a = take_account(&mut state.accounts, staker);
    a.balance = a.balance - amount;
    put_account(&mut state.accounts, staker, a);
    let stake_id = state.next_stake_id;
    state.stakes.insert(stake_id, StakeInfo { id: stake_id, owner: staker.clone(), amount, start_time: now });
    state.next_stake_id = stake_id + 1;
    proof {
        lemma_reinsert(s.accounts, staker@, a@);
    }
    Ok(())
}

fn execute_unstake(state: &mut ChainState, unstaker: &AccountId, stake_id: StakeId) -> (r: Result<(), Error>)
    requires
        old(state)@.accounts.contains_key(unstaker@),
    ensures
        realizes(r, old(state)@, final(state)@, unstake_result(old(state)@, unstaker@, stake_id)),
{
    let ghost s = state@;
    let amount = match state.stakes.get(&stake_id) {
        None => {
            return Err(Error::StakeNotFound(stake_id));
        },
        Some(st) => {
            if !st.owner.same_key(unstaker) {
                return Err(Error::NotOwner);
            }
            st.amount
        },
    };
    let balance = state.accounts.get(unstaker).unwrap().balance;
    if balance > u128::MAX - amount {
        return Err(Error::ArithmeticOverflow);
    }
    let _ = state.stakes.remove(&stake_id);
    let mut a = take_account(&mut state.accounts, unstaker);
    a.balance = a.balance + amount;
    put_account(&mut state.accounts, unstaker, a);
    proof {
        lemma_reinsert(s.accounts, unstaker@, a@);
    }
    Ok(())
}

fn spent_amount(kind: &TransactionType) -> (r: Option<Balance>)
    ensures
        r == spends(*kind),
{
    match kind {
        TransactionType::Transfer { amount, .. } => Some(*amount),
        TransactionType::Lend { amount, .. } => Some(*amount),
        TransactionType::Stake { amount } => Some(*amount),
        _ => None,
    }
}

/// Checks the transaction's signature under the signer's public key.
pub fn signature_valid(tx: &Transaction, public_key: &[u8]) -> (r: bool)
    ensures
        r == signed_by(*tx, public_key@),
{
    match &tx.signature {
        Some(sig) => SignatureManager::verify(public_key, tx.hash.as_str().as_bytes(), sig.as_slice()),
        None => false,
    }
}

/// Relies on `std::time::SystemTime::now`: seconds since the Unix epoch, or 0 for a
/// clock set before it. Nothing is promised of the value.
#[verifier::external_body]
fn current_timestamp() -> (r: Timestamp) {
    std::time::SystemTime::now().duration_since(std::time::UNIX_EPOCH).unwrap_or_default().as_secs()
}

proof fn lemma_handler_keeps_signer(
    s: ChainStateView,
    signer: AccountId,
    kind: TransactionType,
    now: Timestamp,
    verdict: ProofVerdict,
)
    requires
        s.accounts.contains_key(signer@),
    ensures
        handler_result(s, signer, kind, now, verdict) matches Ok(t) ==> t.accounts.contains_key(signer@)
            && t.accounts[signer@].nonce == s.accounts[signer@].nonce,
{
}

/// Owns the chain state and applies transactions to it one at a time.
#[derive(Debug)]
pub struct Runtime {
    pub state: ChainState,
}

impl Runtime {
    /// The runtime at genesis.
    pub fn new() -> (r: Self)
        ensures
            r.state@ == genesis(),
    {
        let mut state = ChainState::new();
        let founder = FOUNDER_ADDRESS.to_owned();
        state.accounts.insert(founder.clone(), Account::with_balance(founder, INITIAL_SUPPLY));
        state.total_supply = INITIAL_SUPPLY;
        proof {
            assert(state@.accounts =~= genesis().accounts);
        }
        Runtime { state }
    }

    /// Applies `tx` given the verifiers' answers: whether its signature checked out,
    /// and what the proof verifier said (read only for proof submissions).
    /// Either the whole transaction takes effect and the signer's nonce advances by
    /// one, or an error comes back and the state is left exactly as it was.
    pub fn apply_transaction_at(
        &mut self,
        tx: &Transaction,
        signature_ok: bool,
        now: Timestamp,
        verdict: &ProofVerdict,
    ) -> (r: Result<(), Error>)
        ensures
            realizes(r, old(self).state@, final(self).state@, apply_result(old(self).state@, *tx, signature_ok, now, *verdict)),
    {
        let ghost s = self.state@;
        if !signature_ok {
            return Err(Error::InvalidSignature(tx.signer.clone()));
        }
        let (nonce, balance) = match self.state.accounts.get(&tx.signer) {
            None => {
                return Err(Error::AccountNotFound(tx.signer.clone()));
            },
            Some(a) => (a.nonce, a.balance),
        };
        if tx.nonce != nonce {
            return Err(Error::InvalidNonce(tx.signer.clone(), nonce, tx.nonce));
        }
        if tx.nonce == u64::MAX {
            return Err(Error::ArithmeticOverflow);
        }
        match spent_amount(&tx.transaction_type) {
            Some(amount) => {
                if balance < amount {
                    return Err(Error::InsufficientBalance(tx.signer.clone(), amount));
                }
            },
            None => {},
        }
        let signer = &tx.signer;
        let state = &mut self.state;
        let handled = match &tx.transaction_type {
            TransactionType::Transfer { recipient, amount } => execute_transfer(state, signer, recipient, *amount),
            TransactionType::MintNft { metadata, recipient, .. } => execute_nft_mint(state, metadata, recipient, now),
            TransactionType::CreateProposal { title, description } => execute_create_proposal(
                state,
                signer,
                title,
                description,
                now,
            ),
            TransactionType::Vote { proposal_id, support } => execute_vote(state, signer, *proposal_id, *support, now),
            TransactionType::ClaimReward { reward_id } => execute_claim_reward(state, signer, *reward_id),
            TransactionType::SubmitProof { proof_type, .. } => execute_submit_proof(state, signer, proof_type, verdict),
            TransactionType::Lend { .. } => Err(Error::NotImplemented(Feature::Lend)),
            TransactionType::WithdrawLend { .. } => Err(Error::NotImplemented(Feature::WithdrawLend)),
            TransactionType::Borrow { collateral_nft_id, .. } => Err(execute_borrow(state, signer, *collateral_nft_id)),
            TransactionType::RepayLoan { .. } => Err(Error::NotImplemented(Feature::RepayLoan)),
            TransactionType::LiquidateLoan { .. } => Err(Error::NotImplemented(Feature::LiquidateLoan)),
            TransactionType::Stake { amount } => execute_stake(state, signer, *amount, now),
            TransactionType::Unstake { stake_id } => execute_unstake(state, signer, *stake_id),
            TransactionType::ClaimAirdrop { .. } => Err(Error::NotImplemented(Feature::ClaimAirdrop)),
        };
        if let Err(e) = handled {
            return Err(e);
        }
        proof {
            lemma_handler_keeps_signer(s, tx.signer, tx.transaction_type, now, *verdict);
        }
        let ghost t = self.state@;
        let mut a = take_account(&mut self.state.accounts, signer);
        a.nonce = nonce + 1;
        put_account(&mut self.state.accounts, signer, a);
        proof {
            lemma_reinsert(t.accounts, signer@, a@);
        }
        Ok(())
    }

    /// Applies `tx` now, checking its signature under `signer_key`. No proof verifier
    /// is configured here, so proof submissions are rejected; use
    /// `apply_transaction_at` to supply a verifier's answer. Whatever time the clock
    /// gives, the outcome is the one `apply_transaction_at` describes for it.
    pub fn apply_transaction(&mut self, tx: &Transaction, signer_key: &[u8]) -> (r: Result<(), Error>)
        ensures
            exists|now: Timestamp|
                realizes(
                    r,
                    old(self).state@,
                    final(self).state@,
                    #[trigger] apply_result(
                        old(self).state@,
                        *tx,
                        signed_by(*tx, signer_key@),
                        now,
                        ProofVerdict::Rejected,
                    ),
                ),
    {
        let signature_ok = signature_valid(tx, signer_key);
        let now = current_timestamp();
        self.apply_transaction_at(tx, signature_ok, now, &ProofVerdict::Rejected)
    }

    /// A read-only view of the whole state.
    pub fn get_state(&self) -> (r: &ChainState)
        ensures
            *r == self.state,
    {
        &self.state
    }

    pub fn get_balance(&self, account_id: &AccountId) -> (r: Result<Balance, Error>)
        ensures
            self.state@.accounts.contains_key(account_id@) ==> r == Ok::<Balance, Error>(
                self.state@.accounts[account_id@].balance,
            ),
            !self.state@.accounts.contains_key(account_id@) ==> r == Err::<Balance, Error>(
                Error::AccountNotFound(*account_id),
            ),
    {
        match self.state.accounts.get(account_id) {
            Some(a) => Ok(a.balance),
            None => Err(Error::AccountNotFound(account_id.clone())),
        }
    }

    pub fn get_nft_data(&self, nft_id: NftId) -> (r: Result<NftData, Error>)
        ensures
            self.state@.nfts.contains_key(nft_id) ==> r == Ok::<NftData, Error>(self.state@.nfts[nft_id]),
            !self.state@.nfts.contains_key(nft_id) ==> r == Err::<NftData, Error>(Error::NftNotFound(nft_id)),
    {
        match self.state.nfts.get(&nft_id) {
            Some(n) => Ok(n.duplicate()),
            None => Err(Error::NftNotFound(nft_id)),
        }
    }
}

} // verus!
