//! The ledger's entities, the transaction union and the error taxonomy.
use vstd::prelude::*;
use std::collections::HashSet;
use crate::keymap::{Key, KeyMap};

verus! {

pub type AccountId = String;

pub type Balance = u128;

pub type BlockNumber = u64;

pub type Timestamp = u64;

pub type Nonce = u64;

/// Raw bytes of an Ed25519 signature.
pub type Signature = Vec<u8>;

pub type TransactionHash = String;

pub type NftId = u64;

pub type TemplateId = String;

pub type StakeId = u64;

pub type ProposalId = u64;

/// The 128-bit value of a UUID.
pub type LoanId = u128;

/// The 128-bit value of a UUID.
pub type CampaignId = u128;

/// The 128-bit value of a UUID.
pub type RewardId = u128;

pub type GameId = String;

/// Length of a proposal's voting window, in seconds (seven days).
pub const VOTING_PERIOD: u64 = 604800;

/// Transaction kinds that are recognised but not given effect yet.
#[derive(Debug, Clone, Copy, PartialEq, Eq, Structural, Hash)]
pub enum Feature {
    Lend,
    WithdrawLend,
    Borrow,
    RepayLoan,
    LiquidateLoan,
    ClaimAirdrop,
}

#[derive(Debug, Clone, PartialEq, Eq)]
pub enum Error {
    /// The shared state could not be locked.
    StateLockError(String),
    AccountNotFound(AccountId),
    /// Signer, expected nonce, presented nonce.
    InvalidNonce(AccountId, Nonce, Nonce),
    /// Signer, amount that was asked for.
    InsufficientBalance(AccountId, Balance),
    NotOwner,
    /// No valid signature of the signer over the transaction hash.
    InvalidSignature(AccountId),
    /// `None` when the verifier rejected the proof, else the verifier's error.
    ProofVerificationFailed(Option<String>),
    NftNotFound(NftId),
    ProposalNotFound,
    VotingPeriodInactive,
    AlreadyVoted(AccountId, ProposalId),
    StakeNotFound(StakeId),
    RewardNotFound(RewardId),
    RewardAlreadyClaimed(RewardId),
    NotImplemented(Feature),
    /// A counter or balance would leave its integer range.
    ArithmeticOverflow,
}

#[derive(Debug, Clone, Copy, PartialEq, Eq, Structural, Hash)]
pub enum ZkEngine {
    Halo2,
    Zexe,
    Mock,
}

#[derive(Debug, Clone, PartialEq, Eq, Hash)]
pub enum ProofType {
    Miner,
    ScreenCapture(String),
    ScreenCaptureHash(String),
    ZkSnark(ZkEngine),
    GameActivity(GameId),
    Play,
    Growth,
    Contribution,
    Knowledge,
    Build,
}

/// What a `ProofType` stands for, with its text as characters.
pub enum ProofKind {
    Miner,
    ScreenCapture(Seq<char>),
    ScreenCaptureHash(Seq<char>),
    ZkSnark(ZkEngine),
    GameActivity(Seq<char>),
    Play,
    Growth,
    Contribution,
    Knowledge,
    Build,
}

impl View for ProofType {
    type V = ProofKind;

    open spec fn view(&self) -> ProofKind {
        match self {
            ProofType::Miner => ProofKind::Miner,
            ProofType::ScreenCapture(s) => ProofKind::ScreenCapture(s@),
            ProofType::ScreenCaptureHash(s) => ProofKind::ScreenCaptureHash(s@),
            ProofType::ZkSnark(e) => ProofKind::ZkSnark(*e),
            ProofType::GameActivity(g) => ProofKind::GameActivity(g@),
            ProofType::Play => ProofKind::Play,
            ProofType::Growth => ProofKind::Growth,
            ProofType::Contribution => ProofKind::Contribution,
            ProofType::Knowledge => ProofKind::Knowledge,
            ProofType::Build => ProofKind::Build,
        }
    }
}

impl Key for ProofType {
    fn same_key(&self, other: &Self) -> (r: bool) {
        match (self, other) {
            (ProofType::Miner, ProofType::Miner) => true,
            (ProofType::ScreenCapture(a), ProofType::ScreenCapture(b)) => *a == *b,
            (ProofType::ScreenCaptureHash(a), ProofType::ScreenCaptureHash(b)) => *a == *b,
            (ProofType::ZkSnark(a), ProofType::ZkSnark(b)) => *a == *b,
            (ProofType::GameActivity(a), ProofType::GameActivity(b)) => *a == *b,
            (ProofType::Play, ProofType::Play) => true,
            (ProofType::Growth, ProofType::Growth) => true,
            (ProofType::Contribution, ProofType::Contribution) => true,
            (ProofType::Knowledge, ProofType::Knowledge) => true,
            (ProofType::Build, ProofType::Build) => true,
            _ => false,
        }
    }
}

impl ProofType {
    /// A copy equal to `self`.
    pub fn duplicate(&self) -> (r: Self)
        ensures
            r == *self,
    {
        match self {
            ProofType::Miner => ProofType::Miner,
            ProofType::ScreenCapture(s) => ProofType::ScreenCapture(s.clone()),
            ProofType::ScreenCaptureHash(s) => ProofType::ScreenCaptureHash(s.clone()),
            ProofType::ZkSnark(e) => ProofType::ZkSnark(*e),
            ProofType::GameActivity(g) => ProofType::GameActivity(g.clone()),
            ProofType::Play => ProofType::Play,
            ProofType::Growth => ProofType::Growth,
            ProofType::Contribution => ProofType::Contribution,
            ProofType::Knowledge => ProofType::Knowledge,
            ProofType::Build => ProofType::Build,
        }
    }
}

#[derive(Debug)]
pub struct Account {
    pub id: AccountId,
    pub balance: Balance,
    pub nfts: HashSet<NftId>,
    pub nonce: Nonce,
    pub proof_submissions: KeyMap<ProofType, u64>,
}

pub struct AccountView {
    pub id: Seq<char>,
    pub balance: Balance,
    pub nonce: Nonce,
    pub nfts: Set<NftId>,
    pub proof_submissions: Map<ProofKind, u64>,
}

impl View for Account {
    type V = AccountView;

    open spec fn view(&self) -> AccountView {
        AccountView {
            id: self.id@,
            balance: self.balance,
            nonce: self.nonce,
            nfts: self.nfts@,
            proof_submissions: self.proof_submissions@,
        }
    }
}

/// A newly opened account: no funds, no NFTs, no transactions yet.
pub open spec fn fresh_account(id: Seq<char>) -> AccountView {
    AccountView {
        id,
        balance: 0,
        nonce: 0,
        nfts: Set::empty(),
        proof_submissions: Map::empty(),
    }
}

impl Account {
    pub fn new(id: AccountId) -> (r: Self)
        ensures
            r@ == fresh_account(id@),
    {
        Account {
            id,
            balance: 0,
            nfts: HashSet::new(),
            nonce: 0,
            proof_submissions: KeyMap::new(),
        }
    }

    pub fn with_balance(id: AccountId, bal: Balance) -> (r: Self)
        ensures
            r@ == (AccountView { balance: bal, ..fresh_account(id@) }),
    {
        let mut a = Self::new(id);
        a.balance = bal;
        a
    }
}

#[derive(Debug, Clone)]
pub struct NftMetadata {
    pub uri: String,
    pub name: Option<String>,
    pub description: Option<String>,
    pub image_uri: Option<String>,
    /// Free-form attributes as JSON text.
    pub attributes: Option<String>,
}

fn duplicate_text(t: &Option<String>) -> (r: Option<String>)
    ensures
        r == *t,
{
    match t {
        Some(s) => Some(s.clone()),
        None => None,
    }
}

impl NftMetadata {
    /// A copy equal to `self`.
    pub fn duplicate(&self) -> (r: Self)
        ensures
            r == *self,
    {
        NftMetadata {
            uri: self.uri.clone(),
            name: duplicate_text(&self.name),
            description: duplicate_text(&self.description),
            image_uri: duplicate_text(&self.image_uri),
            attributes: duplicate_text(&self.attributes),
        }
    }
}

#[derive(Debug, Clone)]
pub struct NftData {
    pub id: NftId,
    pub owner: AccountId,
    pub metadata: NftMetadata,
    pub minted_at: Option<Timestamp>,
}

impl NftData {
    /// A copy equal to `self`.
    pub fn duplicate(&self) -> (r: Self)
        ensures
            r == *self,
    {
        NftData {
            id: self.id,
            owner: self.owner.clone(),
            metadata: self.metadata.duplicate(),
            minted_at: self.minted_at,
        }
    }
}

impl View for NftData {
    type V = NftData;

    open spec fn view(&self) -> NftData {
        *self
    }
}

#[derive(Debug, Clone)]
pub struct NftTemplate {
    pub id: TemplateId,
    pub name: String,
}

#[derive(Debug, Clone)]
pub struct Reward {
    pub id: RewardId,
    pub recipient: AccountId,
    pub amount: Balance,
    pub claimed: bool,
    pub timestamp: Timestamp,
}

impl View for Reward {
    type V = Reward;

    open spec fn view(&self) -> Reward {
        *self
    }
}

#[derive(Debug, Clone)]
pub struct StakeInfo {
    pub id: StakeId,
    pub owner: AccountId,
    pub amount: Balance,
    pub start_time: Timestamp,
}

impl View for StakeInfo {
    type V = StakeInfo;

    open spec fn view(&self) -> StakeInfo {
        *self
    }
}

#[derive(Debug)]
pub struct Proposal {
    pub id: ProposalId,
    pub title: String,
    pub description: String,
    pub proposer: AccountId,
    pub votes_for: u64,
    pub votes_against: u64,
    /// Each voter's choice: `true` for, `false` against.
    pub voters: KeyMap<AccountId, bool>,
    pub start_time: Timestamp,
    pub end_time: Timestamp,
    pub executed: bool,
}

pub struct ProposalView {
    pub id: ProposalId,
    pub title: String,
    pub description: String,
    pub proposer: AccountId,
    pub votes_for: u64,
    pub votes_against: u64,
    pub voters: Map<Seq<char>, bool>,
    pub start_time: Timestamp,
    pub end_time: Timestamp,
    pub executed: bool,
}

impl View for Proposal {
    type V = ProposalView;

    open spec fn view(&self) -> ProposalView {
        ProposalView {
            id: self.id,
            title: self.title,
            description: self.description,
            proposer: self.proposer,
            votes_for: self.votes_for,
            votes_against: self.votes_against,
            voters: self.voters@,
            start_time: self.start_time,
            end_time: self.end_time,
            executed: self.executed,
        }
    }
}

/// A submitted proof: its kind and its bytes.
#[derive(Debug, Clone)]
pub struct ProofData {
    pub proof_type: ProofType,
    pub data: Vec<u8>,
}

#[derive(Debug, Clone)]
pub enum TransactionType {
    Transfer { recipient: AccountId, amount: Balance },
    MintNft { template_id: TemplateId, metadata: NftMetadata, recipient: AccountId },
    CreateProposal { title: String, description: String },
    Vote { proposal_id: ProposalId, support: bool },
    ClaimReward { reward_id: RewardId },
    SubmitProof { proof_type: ProofType, data: Vec<u8> },
    Lend { asset: String, amount: Balance },
    WithdrawLend { asset: String, amount: Balance },
    Borrow { asset: String, amount: Balance, collateral_nft_id: NftId },
    RepayLoan { loan_id: LoanId, amount: Balance },
    LiquidateLoan { loan_id: LoanId },
    Stake { amount: Balance },
    Unstake { stake_id: StakeId },
    ClaimAirdrop { campaign_id: CampaignId },
}

#[derive(Debug, Clone)]
pub struct Transaction {
    pub hash: TransactionHash,
    pub signer: AccountId,
    pub nonce: Nonce,
    pub timestamp: Timestamp,
    pub transaction_type: TransactionType,
    /// The signer's signature over the UTF-8 bytes of `hash`.
    pub signature: Option<Signature>,
}

/// What an external proof verifier answered.
#[derive(Debug, Clone)]
pub enum ProofVerdict {
    Accepted,
    Rejected,
    /// The verifier could not decide; its message.
    Failed(String),
}

#[derive(Debug)]
pub struct ChainState {
    pub accounts: KeyMap<AccountId, Account>,
    pub nfts: KeyMap<NftId, NftData>,
    pub proposals: KeyMap<ProposalId, Proposal>,
    pub stakes: KeyMap<StakeId, StakeInfo>,
    pub rewards: KeyMap<RewardId, Reward>,
    pub block_height: BlockNumber,
    pub next_nft_id: u64,
    pub next_proposal_id: u64,
    pub next_stake_id: u64,
    pub total_supply: Balance,
}

pub struct ChainStateView {
    pub accounts: Map<Seq<char>, AccountView>,
    pub nfts: Map<NftId, NftData>,
    pub proposals: Map<ProposalId, ProposalView>,
    pub stakes: Map<StakeId, StakeInfo>,
    pub rewards: Map<RewardId, Reward>,
    pub block_height: BlockNumber,
    pub next_nft_id: u64,
    pub next_proposal_id: u64,
    pub next_stake_id: u64,
    pub total_supply: Balance,
}

impl View for ChainState {
    type V = ChainStateView;

    open spec fn view(&self) -> ChainStateView {
        ChainStateView {
            accounts: self.accounts@,
            nfts: self.nfts@,
            proposals: self.proposals@,
            stakes: self.stakes@,
            rewards: self.rewards@,
            block_height: self.block_height,
            next_nft_id: self.next_nft_id,
            next_proposal_id: self.next_proposal_id,
            next_stake_id: self.next_stake_id,
            total_supply: self.total_supply,
        }
    }
}

impl ChainState {
    /// A state with no accounts, entities or supply.
    pub fn new() -> (r: Self)
        ensures
            r@.accounts == Map::<Seq<char>, AccountView>::empty(),
            r@.nfts == Map::<NftId, NftData>::empty(),
            r@.proposals == Map::<ProposalId, ProposalView>::empty(),
            r@.stakes == Map::<StakeId, StakeInfo>::empty(),
            r@.rewards == Map::<RewardId, Reward>::empty(),
            r.block_height == 0,
            r.next_nft_id == 0,
            r.next_proposal_id == 0,
            r.next_stake_id == 0,
            r.total_supply == 0,
    {
        ChainState {
            accounts: KeyMap::new(),
            nfts: KeyMap::new(),
            proposals: KeyMap::new(),
            stakes: KeyMap::new(),
            rewards: KeyMap::new(),
            block_height: 0,
            next_nft_id: 0,
            next_proposal_id: 0,
            next_stake_id: 0,
            total_supply: 0,
        }
    }
}

/// Rejection: the requested item does not exist.
#[derive(Debug)]
pub struct NotFoundError;

/// Rejection: the server failed; its message.
#[derive(Debug)]
pub struct InternalServerErrorRejection(pub String);

/// Rejection: the request was malformed; its message.
#[derive(Debug)]
pub struct BadRequestError(pub String);

/// Rejection: the shared state could not be locked; its message.
#[derive(Debug)]
pub struct StateLockErrorRejection(pub String);

} // verus!
