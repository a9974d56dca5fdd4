use pixelvault::keymap::KeyMap;
use pixelvault::runtime::{signature_valid, Runtime, FOUNDER_ADDRESS, INITIAL_SUPPLY};
use pixelvault::signature::SignatureManager;
use pixelvault::types::{
    Account, AccountId, Error, Feature, NftMetadata, ProofType, ProofVerdict, Reward, Transaction,
    TransactionType, ZkEngine, VOTING_PERIOD,
};

const NOW: u64 = 1_700_000_000;

fn tx(signer: &str, nonce: u64, kind: TransactionType) -> Transaction {
    Transaction {
        hash: format!("{}-{}", signer, nonce),
        signer: signer.to_string(),
        nonce,
        timestamp: NOW,
        transaction_type: kind,
        signature: None,
    }
}

fn apply(runtime: &mut Runtime, t: &Transaction) -> Result<(), Error> {
    runtime.apply_transaction_at(t, true, NOW, &ProofVerdict::Rejected)
}

fn runtime_with(accounts: &[(&str, u128)]) -> Runtime {
    let mut runtime = Runtime::new();
    runtime.state.accounts = KeyMap::new();
    for (id, balance) in accounts {
        runtime.state.accounts.insert(id.to_string(), Account::with_balance(id.to_string(), *balance));
    }
    runtime
}

fn balance(runtime: &Runtime, id: &str) -> u128 {
    runtime.get_balance(&id.to_string()).unwrap()
}

fn nonce(runtime: &Runtime, id: &str) -> u64 {
    runtime.get_state().accounts.get(&id.to_string()).unwrap().nonce
}

fn metadata() -> NftMetadata {
    NftMetadata { uri: "ipfs://x".to_string(), name: None, description: None, image_uri: None, attributes: None }
}

#[test]
fn founder_transfer_to_new_account() {
    let mut runtime = Runtime::new();
    let founder = FOUNDER_ADDRESS;
    let t = tx(founder, 0, TransactionType::Transfer { recipient: "B".to_string(), amount: 100 });
    assert_eq!(apply(&mut runtime, &t), Ok(()));
    assert_eq!(balance(&runtime, founder), INITIAL_SUPPLY - 100);
    assert_eq!(nonce(&runtime, founder), 1);
    assert_eq!(balance(&runtime, "B"), 100);
    assert_eq!(nonce(&runtime, "B"), 0);
}

#[test]
fn transfer_beyond_balance_is_refused() {
    let mut runtime = runtime_with(&[("A", 50)]);
    let t = tx("A", 0, TransactionType::Transfer { recipient: "B".to_string(), amount: 100 });
    assert_eq!(apply(&mut runtime, &t), Err(Error::InsufficientBalance("A".to_string(), 100)));
    assert_eq!(balance(&runtime, "A"), 50);
    assert_eq!(nonce(&runtime, "A"), 0);
    assert!(!runtime.get_state().accounts.contains_key(&"B".to_string()));
}

#[test]
fn proposal_then_vote_for() {
    let mut runtime = runtime_with(&[("P", 10), ("V", 10)]);
    let create = tx("P", 0, TransactionType::CreateProposal { title: "T".to_string(), description: "D".to_string() });
    assert_eq!(apply(&mut runtime, &create), Ok(()));
    let vote = tx("V", 0, TransactionType::Vote { proposal_id: 0, support: true });
    assert_eq!(apply(&mut runtime, &vote), Ok(()));
    let p = runtime.get_state().proposals.get(&0).unwrap();
    assert_eq!(p.votes_for, 1);
    assert_eq!(p.votes_against, 0);
    assert_eq!(p.voters.get(&"V".to_string()), Some(&true));
    assert_eq!(p.start_time, NOW);
    assert_eq!(p.end_time, NOW + VOTING_PERIOD);
}

#[test]
fn second_vote_is_refused() {
    let mut runtime = runtime_with(&[("P", 10), ("V", 10)]);
    apply(&mut runtime, &tx("P", 0, TransactionType::CreateProposal { title: "T".to_string(), description: String::new() })).unwrap();
    apply(&mut runtime, &tx("V", 0, TransactionType::Vote { proposal_id: 0, support: false })).unwrap();
    let again = tx("V", 1, TransactionType::Vote { proposal_id: 0, support: true });
    assert_eq!(apply(&mut runtime, &again), Err(Error::AlreadyVoted("V".to_string(), 0)));
    let p = runtime.get_state().proposals.get(&0).unwrap();
    assert_eq!(p.votes_for, 0);
    assert_eq!(p.votes_against, 1);
    assert_eq!(p.voters.len(), 1);
    assert_eq!(nonce(&runtime, "V"), 1);
}

#[test]
fn vote_outside_window_is_refused() {
    let mut runtime = runtime_with(&[("P", 10), ("V", 10)]);
    apply(&mut runtime, &tx("P", 0, TransactionType::CreateProposal { title: "T".to_string(), description: String::new() })).unwrap();
    let vote = tx("V", 0, TransactionType::Vote { proposal_id: 0, support: true });
    let late = runtime.apply_transaction_at(&vote, true, NOW + VOTING_PERIOD + 1, &ProofVerdict::Rejected);
    assert_eq!(late, Err(Error::VotingPeriodInactive));
    let early = runtime.apply_transaction_at(&vote, true, NOW - 1, &ProofVerdict::Rejected);
    assert_eq!(early, Err(Error::VotingPeriodInactive));
    let last_second = runtime.apply_transaction_at(&vote, true, NOW + VOTING_PERIOD, &ProofVerdict::Rejected);
    assert_eq!(last_second, Ok(()));
}

#[test]
fn vote_on_missing_proposal() {
    let mut runtime = runtime_with(&[("V", 10)]);
    let vote = tx("V", 0, TransactionType::Vote { proposal_id: 7, support: true });
    assert_eq!(apply(&mut runtime, &vote), Err(Error::ProposalNotFound));
    assert_eq!(nonce(&runtime, "V"), 0);
}

#[test]
fn unknown_signer_is_refused() {
    let mut runtime = runtime_with(&[("A", 10)]);
    let t = tx("Z", 0, TransactionType::Stake { amount: 1 });
    assert_eq!(apply(&mut runtime, &t), Err(Error::AccountNotFound("Z".to_string())));
}

#[test]
fn stake_then_unstake_restores_balance() {
    let mut runtime = runtime_with(&[("S", 500)]);
    assert_eq!(apply(&mut runtime, &tx("S", 0, TransactionType::Stake { amount: 200 })), Ok(()));
    assert_eq!(balance(&runtime, "S"), 300);
    let stake = runtime.get_state().stakes.get(&0).unwrap();
    assert_eq!(stake.amount, 200);
    assert_eq!(stake.owner, "S");
    assert_eq!(stake.start_time, NOW);
    assert_eq!(runtime.get_state().next_stake_id, 1);
    assert_eq!(apply(&mut runtime, &tx("S", 1, TransactionType::Unstake { stake_id: 0 })), Ok(()));
    assert_eq!(balance(&runtime, "S"), 500);
    assert_eq!(runtime.get_state().stakes.len(), 0);
    assert_eq!(nonce(&runtime, "S"), 2);
}

#[test]
fn unstake_by_other_is_refused() {
    let mut runtime = runtime_with(&[("S", 500), ("X", 5)]);
    apply(&mut runtime, &tx("S", 0, TransactionType::Stake { amount: 200 })).unwrap();
    assert_eq!(apply(&mut runtime, &tx("X", 0, TransactionType::Unstake { stake_id: 0 })), Err(Error::NotOwner));
    assert_eq!(runtime.get_state().stakes.get(&0).unwrap().amount, 200);
    assert_eq!(balance(&runtime, "S"), 300);
    assert_eq!(balance(&runtime, "X"), 5);
    assert_eq!(nonce(&runtime, "X"), 0);
    assert_eq!(apply(&mut runtime, &tx("X", 0, TransactionType::Unstake { stake_id: 9 })), Err(Error::StakeNotFound(9)));
}

#[test]
fn stake_beyond_balance_is_refused() {
    let mut runtime = runtime_with(&[("S", 5)]);
    assert_eq!(
        apply(&mut runtime, &tx("S", 0, TransactionType::Stake { amount: 6 })),
        Err(Error::InsufficientBalance("S".to_string(), 6))
    );
}

#[test]
fn minting_numbers_ids_from_zero() {
    let mut runtime = runtime_with(&[("M", 0), ("R", 0)]);
    for k in 0..4u64 {
        let recipient = if k % 2 == 0 { "R" } else { "M" };
        let t = tx("M", k, TransactionType::MintNft { template_id: "TPL".to_string(), metadata: metadata(), recipient: recipient.to_string() });
        assert_eq!(apply(&mut runtime, &t), Ok(()));
    }
    let state = runtime.get_state();
    assert_eq!(state.next_nft_id, 4);
    for id in 0..4u64 {
        let nft = runtime.get_nft_data(id).unwrap();
        assert_eq!(nft.id, id);
        let owner = if id % 2 == 0 { "R" } else { "M" };
        assert_eq!(nft.owner, owner);
        assert_eq!(nft.minted_at, Some(NOW));
        assert!(state.accounts.get(&owner.to_string()).unwrap().nfts.contains(&id));
    }
    assert_eq!(runtime.get_nft_data(4).unwrap_err(), Error::NftNotFound(4));
}

#[test]
fn mint_opens_recipient_account() {
    let mut runtime = runtime_with(&[("M", 0)]);
    let t = tx("M", 0, TransactionType::MintNft { template_id: "TPL".to_string(), metadata: metadata(), recipient: "New".to_string() });
    assert_eq!(apply(&mut runtime, &t), Ok(()));
    let acct = runtime.get_state().accounts.get(&"New".to_string()).unwrap();
    assert_eq!(acct.balance, 0);
    assert_eq!(acct.nonce, 0);
    assert!(acct.nfts.contains(&0));
}

#[test]
fn nonce_counts_successes_only() {
    let mut runtime = runtime_with(&[("A", 100)]);
    for n in 0..3u64 {
        apply(&mut runtime, &tx("A", n, TransactionType::Transfer { recipient: "B".to_string(), amount: 10 })).unwrap();
    }
    let failing = tx("A", 3, TransactionType::Transfer { recipient: "B".to_string(), amount: 1000 });
    assert!(apply(&mut runtime, &failing).is_err());
    assert_eq!(nonce(&runtime, "A"), 3);
    assert_eq!(
        apply(&mut runtime, &tx("A", 1, TransactionType::Stake { amount: 1 })),
        Err(Error::InvalidNonce("A".to_string(), 3, 1))
    );
    assert_eq!(balance(&runtime, "A") + balance(&runtime, "B"), 100);
}

#[test]
fn transfers_conserve_total() {
    let mut runtime = runtime_with(&[("A", 70), ("B", 20), ("C", 10)]);
    let moves = [("A", "B", 30u128), ("B", "C", 45), ("C", "A", 5), ("C", "C", 50), ("A", "C", 1000)];
    let mut nonces = std::collections::HashMap::new();
    for (from, to, amount) in moves.iter() {
        let n = *nonces.get(from).unwrap_or(&0u64);
        let t = tx(from, n, TransactionType::Transfer { recipient: to.to_string(), amount: *amount });
        if apply(&mut runtime, &t).is_ok() {
            nonces.insert(*from, n + 1);
        }
    }
    assert_eq!(balance(&runtime, "A") + balance(&runtime, "B") + balance(&runtime, "C"), 100);
    assert_eq!(balance(&runtime, "A"), 45);
    assert_eq!(balance(&runtime, "B"), 5);
    assert_eq!(balance(&runtime, "C"), 50);
}

#[test]
fn self_transfer_keeps_balance() {
    let mut runtime = runtime_with(&[("A", 70)]);
    assert_eq!(apply(&mut runtime, &tx("A", 0, TransactionType::Transfer { recipient: "A".to_string(), amount: 70 })), Ok(()));
    assert_eq!(balance(&runtime, "A"), 70);
    assert_eq!(nonce(&runtime, "A"), 1);
}

#[test]
fn credit_overflow_is_refused() {
    let mut runtime = runtime_with(&[("A", 10), ("B", u128::MAX - 5)]);
    let t = tx("A", 0, TransactionType::Transfer { recipient: "B".to_string(), amount: 10 });
    assert_eq!(apply(&mut runtime, &t), Err(Error::ArithmeticOverflow));
    assert_eq!(balance(&runtime, "A"), 10);
    assert_eq!(balance(&runtime, "B"), u128::MAX - 5);
}

#[test]
fn rewards_are_claimed_once() {
    let mut runtime = runtime_with(&[("A", 1), ("O", 1)]);
    runtime.state.rewards.insert(42, Reward { id: 42, recipient: "A".to_string(), amount: 9, claimed: false, timestamp: 0 });
    assert_eq!(apply(&mut runtime, &tx("O", 0, TransactionType::ClaimReward { reward_id: 42 })), Err(Error::NotOwner));
    assert_eq!(apply(&mut runtime, &tx("A", 0, TransactionType::ClaimReward { reward_id: 7 })), Err(Error::RewardNotFound(7)));
    assert_eq!(apply(&mut runtime, &tx("A", 0, TransactionType::ClaimReward { reward_id: 42 })), Ok(()));
    assert_eq!(balance(&runtime, "A"), 10);
    assert!(runtime.get_state().rewards.get(&42).unwrap().claimed);
    assert_eq!(
        apply(&mut runtime, &tx("A", 1, TransactionType::ClaimReward { reward_id: 42 })),
        Err(Error::RewardAlreadyClaimed(42))
    );
    assert_eq!(balance(&runtime, "A"), 10);
}

#[test]
fn proofs_follow_the_verdict() {
    let mut runtime = runtime_with(&[("A", 1)]);
    let kind = ProofType::ZkSnark(ZkEngine::Mock);
    let t0 = tx("A", 0, TransactionType::SubmitProof { proof_type: kind.clone(), data: vec![1, 2, 3] });
    assert_eq!(
        runtime.apply_transaction_at(&t0, true, NOW, &ProofVerdict::Rejected),
        Err(Error::ProofVerificationFailed(None))
    );
    assert_eq!(
        runtime.apply_transaction_at(&t0, true, NOW, &ProofVerdict::Failed("down".to_string())),
        Err(Error::ProofVerificationFailed(Some("down".to_string())))
    );
    assert_eq!(runtime.apply_transaction_at(&t0, true, NOW, &ProofVerdict::Accepted), Ok(()));
    let t1 = tx("A", 1, TransactionType::SubmitProof { proof_type: kind.clone(), data: vec![] });
    assert_eq!(runtime.apply_transaction_at(&t1, true, NOW, &ProofVerdict::Accepted), Ok(()));
    let acct = runtime.get_state().accounts.get(&"A".to_string()).unwrap();
    assert_eq!(acct.proof_submissions.get(&kind), Some(&2));
    assert_eq!(acct.proof_submissions.get(&ProofType::ZkSnark(ZkEngine::Halo2)), None);
}

#[test]
fn lending_kinds_are_not_implemented() {
    let mut runtime = runtime_with(&[("A", 100)]);
    let kinds = vec![
        (TransactionType::Lend { asset: "PV".to_string(), amount: 10 }, Feature::Lend),
        (TransactionType::WithdrawLend { asset: "PV".to_string(), amount: 10 }, Feature::WithdrawLend),
        (TransactionType::RepayLoan { loan_id: 1, amount: 10 }, Feature::RepayLoan),
        (TransactionType::LiquidateLoan { loan_id: 1 }, Feature::LiquidateLoan),
        (TransactionType::ClaimAirdrop { campaign_id: 1 }, Feature::ClaimAirdrop),
    ];
    for (kind, feature) in kinds {
        assert_eq!(apply(&mut runtime, &tx("A", 0, kind)), Err(Error::NotImplemented(feature)));
    }
    assert_eq!(
        apply(&mut runtime, &tx("A", 0, TransactionType::Lend { asset: "PV".to_string(), amount: 101 })),
        Err(Error::InsufficientBalance("A".to_string(), 101))
    );
    assert_eq!(balance(&runtime, "A"), 100);
    assert_eq!(nonce(&runtime, "A"), 0);
}

#[test]
fn borrow_checks_collateral() {
    let mut runtime = runtime_with(&[("A", 100), ("B", 0)]);
    let borrow = |id| TransactionType::Borrow { asset: "PV".to_string(), amount: 5, collateral_nft_id: id };
    assert_eq!(apply(&mut runtime, &tx("A", 0, borrow(0))), Err(Error::NftNotFound(0)));
    apply(&mut runtime, &tx("A", 0, TransactionType::MintNft { template_id: "T".to_string(), metadata: metadata(), recipient: "B".to_string() })).unwrap();
    assert_eq!(apply(&mut runtime, &tx("A", 1, borrow(0))), Err(Error::NotOwner));
    assert_eq!(apply(&mut runtime, &tx("B", 0, borrow(0))), Err(Error::NotImplemented(Feature::Borrow)));
}

#[test]
fn unsigned_transaction_is_refused() {
    let mut runtime = runtime_with(&[("A", 100)]);
    let manager = SignatureManager::new();
    let mut t = tx("A", 0, TransactionType::Stake { amount: 1 });
    assert!(!signature_valid(&t, &manager.get_public_key()));
    assert_eq!(runtime.apply_transaction(&t, &manager.get_public_key()), Err(Error::InvalidSignature("A".to_string())));
    let other = SignatureManager::new();
    t.signature = Some(other.sign(t.hash.as_bytes()));
    assert!(!signature_valid(&t, &manager.get_public_key()));
    assert_eq!(runtime.apply_transaction(&t, &manager.get_public_key()), Err(Error::InvalidSignature("A".to_string())));
    t.signature = Some(manager.sign(t.hash.as_bytes()));
    assert!(signature_valid(&t, &manager.get_public_key()));
    assert_eq!(runtime.apply_transaction(&t, &manager.get_public_key()), Ok(()));
    assert_eq!(balance(&runtime, "A"), 99);
}

#[test]
fn get_balance_of_missing_account() {
    let runtime = Runtime::new();
    assert_eq!(runtime.get_balance(&"nobody".to_string()), Err(Error::AccountNotFound("nobody".to_string())));
    assert_eq!(runtime.get_balance(&FOUNDER_ADDRESS.to_string()), Ok(INITIAL_SUPPLY));
}

#[test]
fn account_constructors() {
    let a = Account::new("x".to_string());
    assert_eq!(a.id, "x");
    assert_eq!(a.balance, 0);
    assert_eq!(a.nonce, 0);
    assert!(a.nfts.is_empty());
    assert_eq!(a.proof_submissions.len(), 0);
    let b = Account::with_balance("y".to_string(), 77);
    assert_eq!(b.balance, 77);
    assert_eq!(b.nonce, 0);
}

#[test]
fn account_ids_are_unique_keys() {
    let mut m: KeyMap<AccountId, u64> = KeyMap::new();
    m.insert("a".to_string(), 1);
    m.insert("b".to_string(), 2);
    m.insert("a".to_string(), 3);
    assert_eq!(m.len(), 2);
    assert_eq!(m.get(&"a".to_string()), Some(&3));
    assert_eq!(m.remove(&"a".to_string()), Some(3));
    assert_eq!(m.remove(&"a".to_string()), None);
    assert_eq!(m.len(), 1);
}

#[test]
fn exhausted_counters_are_refused() {
    let mut runtime = runtime_with(&[("A", 100)]);
    runtime.state.next_nft_id = u64::MAX;
    runtime.state.next_stake_id = u64::MAX;
    runtime.state.next_proposal_id = u64::MAX;
    let mint = tx("A", 0, TransactionType::MintNft { template_id: "T".to_string(), metadata: metadata(), recipient: "A".to_string() });
    assert_eq!(apply(&mut runtime, &mint), Err(Error::ArithmeticOverflow));
    assert_eq!(apply(&mut runtime, &tx("A", 0, TransactionType::Stake { amount: 1 })), Err(Error::ArithmeticOverflow));
    let create = tx("A", 0, TransactionType::CreateProposal { title: "T".to_string(), description: String::new() });
    assert_eq!(apply(&mut runtime, &create), Err(Error::ArithmeticOverflow));
    assert_eq!(balance(&runtime, "A"), 100);
    assert_eq!(nonce(&runtime, "A"), 0);
    assert_eq!(runtime.get_state().nfts.len(), 0);
}

#[test]
fn last_nonce_cannot_advance() {
    let mut runtime = runtime_with(&[("A", 100)]);
    let mut a = runtime.state.accounts.remove(&"A".to_string()).unwrap();
    a.nonce = u64::MAX;
    runtime.state.accounts.insert("A".to_string(), a);
    let t = tx("A", u64::MAX, TransactionType::Stake { amount: 1 });
    assert_eq!(apply(&mut runtime, &t), Err(Error::ArithmeticOverflow));
    assert_eq!(balance(&runtime, "A"), 100);
}

#[test]
fn proposal_window_must_fit_the_clock() {
    let mut runtime = runtime_with(&[("A", 100)]);
    let create = tx("A", 0, TransactionType::CreateProposal { title: "T".to_string(), description: String::new() });
    let r = runtime.apply_transaction_at(&create, true, u64::MAX - VOTING_PERIOD + 1, &ProofVerdict::Rejected);
    assert_eq!(r, Err(Error::ArithmeticOverflow));
    let r = runtime.apply_transaction_at(&create, true, u64::MAX - VOTING_PERIOD, &ProofVerdict::Rejected);
    assert_eq!(r, Ok(()));
    assert_eq!(runtime.get_state().proposals.get(&0).unwrap().end_time, u64::MAX);
}
