//! The records the ledger stores, the accounts an operation is handed, and
//! the errors an operation can end in.
use crate::address::Address;
use vstd::prelude::*;

verus! {

/// The reward for one attribution at relevance score ten, in minor units.
pub const REWARD_PER_ATTRIBUTION: u64 = 1_000_000;

/// The longest title, in bytes of UTF-8.
pub const MAX_TITLE_LEN: usize = 100;

/// The longest category, in bytes of UTF-8.
pub const MAX_CATEGORY_LEN: usize = 50;

/// The highest relevance score.
pub const MAX_RELEVANCE_SCORE: u8 = 100;

/// The registry: totals over the whole ledger and the reward rate.
#[derive(Clone, Copy, Debug, PartialEq, Eq)]
pub struct Protocol {
    pub is_initialized: bool,
    pub authority: Address,
    pub total_knowledge_entries: u64,
    pub total_attributions: u64,
    pub reward_per_attribution: u64,
    pub bump: u8,
}

impl Protocol {
    /// Bytes of storage the record takes.
    pub const LEN: usize = 1 + 32 + 8 + 8 + 8 + 1;
}

/// One piece of knowledge staked by one staker.
#[derive(Clone, Debug, PartialEq, Eq)]
pub struct KnowledgeEntry {
    pub is_initialized: bool,
    pub staker: Address,
    pub content_hash: [u8; 32],
    pub title: String,
    pub category: String,
    pub created_at: i64,
    pub total_attributions: u64,
    pub pending_rewards: u64,
    pub is_active: bool,
    pub bump: u8,
}

impl KnowledgeEntry {
    /// Bytes of storage the record takes: both strings at their longest,
    /// each after a four-byte length.
    pub const LEN: usize = 1 + 32 + 32 + 4 + 100 + 4 + 50 + 8 + 8 + 8 + 1 + 1;
}

/// One use of a knowledge entry in answering a query.
#[derive(Clone, Copy, Debug, PartialEq, Eq)]
pub struct Attribution {
    pub is_initialized: bool,
    pub knowledge_entry: Address,
    pub query_hash: [u8; 32],
    pub relevance_score: u8,
    pub timestamp: i64,
    pub reward_claimed: bool,
    pub bump: u8,
}

impl Attribution {
    /// Bytes of storage the record takes.
    pub const LEN: usize = 1 + 32 + 32 + 1 + 8 + 1 + 1;
}

/// Why an operation failed. A failed operation changes nothing.
#[derive(Clone, Copy, Debug, PartialEq, Eq, Structural)]
pub enum SolSageError {
    /// The account that has to sign did not.
    MissingSignature,
    /// A supplied address is not the one derived for the record.
    InvalidAddress,
    /// The address of the record to create already holds a record.
    AlreadyInitialized,
    /// No record of the expected kind is stored at a supplied address.
    AccountNotFound,
    TitleTooLong,
    CategoryTooLong,
    /// The relevance score is above the highest one.
    InvalidRelevanceScore,
    /// The entry has no pending rewards.
    NoRewardsToClaim,
    /// The signer is not the entry's staker.
    NotKnowledgeOwner,
    /// A counter or a balance would pass the largest `u64`.
    ArithmeticOverflow,
    /// Fewer accounts were supplied than the operation reads.
    NotEnoughAccountKeys,
}

/// An account handed to an operation: its address, and whether it signed.
#[derive(Clone, Copy, Debug, PartialEq, Eq)]
pub struct AccountRef {
    pub key: Address,
    pub is_signer: bool,
}

/// The accounts of the operation that creates the registry.
#[derive(Clone, Copy, Debug)]
pub struct Initialize {
    pub authority: AccountRef,
    pub protocol: Address,
}

/// The accounts of the operation that stakes knowledge.
#[derive(Clone, Copy, Debug)]
pub struct StakeKnowledge {
    pub staker: AccountRef,
    pub protocol: Address,
    pub knowledge_entry: Address,
}

/// The accounts of the operation that records an attribution. The payer
/// need not be the staker.
#[derive(Clone, Copy, Debug)]
pub struct RecordAttribution {
    pub payer: AccountRef,
    pub protocol: Address,
    pub knowledge_entry: Address,
    pub attribution: Address,
}

/// The accounts of the operation that claims an entry's rewards.
#[derive(Clone, Copy, Debug)]
pub struct ClaimRewards {
    pub staker: AccountRef,
    pub knowledge_entry: Address,
}

/// One operation with its payload.
#[derive(Clone, Debug)]
pub enum SolSageInstruction {
    Initialize,
    StakeKnowledge { content_hash: [u8; 32], title: String, category: String },
    RecordAttribution { query_hash: [u8; 32], relevance_score: u8 },
    ClaimRewards,
}

} // verus!
