//! The four operations on the records they touch: what each checks, and the
//! records it writes.
use crate::address::{
    attribution_address, attribution_seeds, knowledge_address, knowledge_seeds, program_address,
    protocol_address, protocol_seeds, same_address, Address,
};
use crate::state::{
    Attribution, ClaimRewards, Initialize, KnowledgeEntry, Protocol, RecordAttribution,
    SolSageError, StakeKnowledge, MAX_CATEGORY_LEN, MAX_RELEVANCE_SCORE, MAX_TITLE_LEN,
    REWARD_PER_ATTRIBUTION,
};
use vstd::prelude::*;
use vstd::utf8::encode_utf8;

verus! {

/// The length of a string in bytes of UTF-8.
pub open spec fn byte_len(s: Seq<char>) -> nat {
    encode_utf8(s).len()
}

/// The reward for one attribution: the rate times the score, over ten,
/// rounded down.
pub open spec fn reward_of(rate: u64, score: u8) -> int {
    (rate as int * score as int) / 10
}

/// The reward for one attribution at `rate` and relevance `score`, or `None`
/// where the product of the two passes the largest `u64`.
pub fn compute_reward(rate: u64, score: u8) -> (r: Option<u64>)
    ensures
        r is Some <==> rate as int * score as int <= u64::MAX,
        r matches Some(v) ==> v as int == reward_of(rate, score),
{
    match rate.checked_mul(score as u64) {
        Some(p) => Some(p / 10),
        None => None,
    }
}

// ---------------------------------------------------------------------------
// Initialize
pub open spec fn new_protocol(authority: Address, bump: u8) -> Protocol {
    Protocol {
        is_initialized: true,
        authority,
        total_knowledge_entries: 0,
        total_attributions: 0,
        reward_per_attribution: REWARD_PER_ATTRIBUTION,
        bump,
    }
}

/// The registry that Initialize writes: the authority must sign, and the
/// supplied address must be the one derived for the registry.
pub open spec fn initialize_spec(program_id: Seq<u8>, ctx: Initialize) -> Result<
    Protocol,
    SolSageError,
> {
    if !ctx.authority.is_signer {
        Err(SolSageError::MissingSignature)
    } else {
        match program_address(protocol_seeds(), program_id) {
            Some((a, bump)) => if a == ctx.protocol@ {
                Ok(new_protocol(ctx.authority.key, bump))
            } else {
                Err(SolSageError::InvalidAddress)
            },
            None => Err(SolSageError::InvalidAddress),
        }
    }
}

/// Builds the registry record that Initialize creates.
pub fn initialize(program_id: &Address, ctx: &Initialize) -> (r: Result<Protocol, SolSageError>)
    ensures
        r == initialize_spec(program_id@, *ctx),
{
    if !ctx.authority.is_signer {
        return Err(SolSageError::MissingSignature);
    }
    match protocol_address(program_id) {
        Some((a, bump)) => {
            if same_address(&a, &ctx.protocol) {
                Ok(
                    Protocol {
                        is_initialized: true,
                        authority: ctx.authority.key,
                        total_knowledge_entries: 0,
                        total_attributions: 0,
                        reward_per_attribution: REWARD_PER_ATTRIBUTION,
                        bump,
                    },
                )
            } else {
                Err(SolSageError::InvalidAddress)
            }
        },
        None => Err(SolSageError::InvalidAddress),
    }
}

// ---------------------------------------------------------------------------
// StakeKnowledge
/// The checks of StakeKnowledge, in order: the staker signed, the title and
/// the category fit, and the supplied entry address is the one derived from
/// the staker and the content hash. Gives the bump seed of that address.
pub open spec fn stake_check_spec(
    program_id: Seq<u8>,
    ctx: StakeKnowledge,
    content_hash: Seq<u8>,
    title: Seq<char>,
    category: Seq<char>,
) -> Result<u8, SolSageError> {
    if !ctx.staker.is_signer {
        Err(SolSageError::MissingSignature)
    } else if byte_len(title) > MAX_TITLE_LEN {
        Err(SolSageError::TitleTooLong)
    } else if byte_len(category) > MAX_CATEGORY_LEN {
        Err(SolSageError::CategoryTooLong)
    } else {
        match program_address(knowledge_seeds(ctx.staker.key@, content_hash), program_id) {
            Some((a, bump)) => if a == ctx.knowledge_entry@ {
                Ok(bump)
            } else {
                Err(SolSageError::InvalidAddress)
            },
            None => Err(SolSageError::InvalidAddress),
        }
    }
}

pub open spec fn new_entry(
    staker: Address,
    content_hash: [u8; 32],
    title: String,
    category: String,
    now: i64,
    bump: u8,
) -> KnowledgeEntry {
    KnowledgeEntry {
        is_initialized: true,
        staker,
        content_hash,
        title,
        category,
        created_at: now,
        total_attributions: 0,
        pending_rewards: 0,
        is_active: true,
        bump,
    }
}

/// The registry after one more entry, unless its count is at the largest `u64`.
pub open spec fn count_entry_spec(protocol: Protocol) -> Result<Protocol, SolSageError> {
    if protocol.total_knowledge_entries == u64::MAX {
        Err(SolSageError::ArithmeticOverflow)
    } else {
        Ok(
            Protocol {
                total_knowledge_entries: (protocol.total_knowledge_entries + 1) as u64,
                ..protocol
            },
        )
    }
}

/// The registry and the new entry after StakeKnowledge.
pub open spec fn stake_spec(
    program_id: Seq<u8>,
    ctx: StakeKnowledge,
    protocol: Protocol,
    content_hash: [u8; 32],
    title: String,
    category: String,
    now: i64,
) -> Result<(Protocol, KnowledgeEntry), SolSageError> {
    match stake_check_spec(program_id, ctx, content_hash@, title@, category@) {
        Err(e) => Err(e),
        Ok(bump) => match count_entry_spec(protocol) {
            Err(e) => Err(e),
            Ok(p) => Ok((p, new_entry(ctx.staker.key, content_hash, title, category, now, bump))),
        },
    }
}

/// Runs the checks of StakeKnowledge; gives the bump seed of the entry's address.
pub fn check_stake(
    program_id: &Address,
    ctx: &StakeKnowledge,
    content_hash: &[u8; 32],
    title: &String,
    category: &String,
) -> (r: Result<u8, SolSageError>)
    ensures
        r == stake_check_spec(program_id@, *ctx, content_hash@, title@, category@),
{
    if !ctx.staker.is_signer {
        return Err(SolSageError::MissingSignature);
    }
    if title.as_str().as_bytes().len() > MAX_TITLE_LEN {
        return Err(SolSageError::TitleTooLong);
    }
    if category.as_str().as_bytes().len() > MAX_CATEGORY_LEN {
        return Err(SolSageError::CategoryTooLong);
    }
    match knowledge_address(program_id, &ctx.staker.key, content_hash) {
        Some((a, bump)) => {
            if same_address(&a, &ctx.knowledge_entry) {
                Ok(bump)
            } else {
                Err(SolSageError::InvalidAddress)
            }
        },
        None => Err(SolSageError::InvalidAddress),
    }
}

/// Counts one more entry in the registry.
pub fn count_entry(protocol: &mut Protocol) -> (r: Result<(), SolSageError>)
    ensures
        match count_entry_spec(*old(protocol)) {
            Ok(p) => r is Ok && *final(protocol) == p,
            Err(e) => r == Err::<(), SolSageError>(e) && *final(protocol) == *old(protocol),
        },
{
    match protocol.total_knowledge_entries.checked_add(1) {
        Some(n) => {
            protocol.total_knowledge_entries = n;
            Ok(())
        },
        None => Err(SolSageError::ArithmeticOverflow),
    }
}

/// StakeKnowledge on the registry: counts the entry and gives the new entry
/// record. On failure the registry is unchanged.
pub fn stake_knowledge(
    program_id: &Address,
    ctx: &StakeKnowledge,
    protocol: &mut Protocol,
    content_hash: [u8; 32],
    title: String,
    category: String,
    now: i64,
) -> (r: Result<KnowledgeEntry, SolSageError>)
    ensures
        match r {
            Ok(e) => stake_spec(program_id@, *ctx, *old(protocol), content_hash, title, category, now)
                == Ok::<(Protocol, KnowledgeEntry), SolSageError>((*final(protocol), e)),
            Err(err) => stake_spec(
                program_id@,
                *ctx,
                *old(protocol),
                content_hash,
                title,
                category,
                now,
            ) == Err::<(Protocol, KnowledgeEntry), SolSageError>(err) && *final(protocol) == *old(
                protocol,
            ),
        },
{
    let bump = match check_stake(program_id, ctx, &content_hash, &title, &category) {
        Ok(b) => b,
        Err(e) => return Err(e),
    };
    match count_entry(protocol) {
        Ok(()) => {},
        Err(e) => return Err(e),
    }
    Ok(
        KnowledgeEntry {
            is_initialized: true,
            staker: ctx.staker.key,
            content_hash,
            title,
            category,
            created_at: now,
            total_attributions: 0,
            pending_rewards: 0,
            is_active: true,
            bump,
        },
    )
}

// ---------------------------------------------------------------------------
// RecordAttribution
/// The checks of RecordAttribution, in order: the payer signed, the score is
/// at most the highest, and the supplied attribution address is the one
/// derived from the query hash and the entry's address. Gives the bump seed
/// of that address.
pub open spec fn attribution_check_spec(
    program_id: Seq<u8>,
    ctx: RecordAttribution,
    query_hash: Seq<u8>,
    relevance_score: u8,
) -> Result<u8, SolSageError> {
    if !ctx.payer.is_signer {
        Err(SolSageError::MissingSignature)
    } else if relevance_score > MAX_RELEVANCE_SCORE {
        Err(SolSageError::InvalidRelevanceScore)
    } else {
        match program_address(attribution_seeds(query_hash, ctx.knowledge_entry@), program_id) {
            Some((a, bump)) => if a == ctx.attribution@ {
                Ok(bump)
            } else {
                Err(SolSageError::InvalidAddress)
            },
            None => Err(SolSageError::InvalidAddress),
        }
    }
}

/// The registry, the entry and the reward after one attribution at
/// `relevance_score`: the entry counts one more attribution and adds the
/// reward to its pending rewards, and the registry counts one more
/// attribution; unless a value would pass the largest `u64`.
pub open spec fn accrue_spec(protocol: Protocol, entry: KnowledgeEntry, relevance_score: u8) -> Result<
    (Protocol, KnowledgeEntry, u64),
    SolSageError,
> {
    let reward = reward_of(protocol.reward_per_attribution, relevance_score);
    if protocol.reward_per_attribution as int * relevance_score as int > u64::MAX
        || entry.total_attributions == u64::MAX || entry.pending_rewards + reward > u64::MAX
        || protocol.total_attributions == u64::MAX {
        Err(SolSageError::ArithmeticOverflow)
    } else {
        Ok(
            (
                Protocol {
                    total_attributions: (protocol.total_attributions + 1) as u64,
                    ..protocol
                },
                KnowledgeEntry {
                    total_attributions: (entry.total_attributions + 1) as u64,
                    pending_rewards: (entry.pending_rewards + reward) as u64,
                    ..entry
                },
                reward as u64,
            ),
        )
    }
}

pub open spec fn new_attribution(
    knowledge_entry: Address,
    query_hash: [u8; 32],
    relevance_score: u8,
    now: i64,
    bump: u8,
) -> Attribution {
    Attribution {
        is_initialized: true,
        knowledge_entry,
        query_hash,
        relevance_score,
        timestamp: now,
        reward_claimed: false,
        bump,
    }
}

/// The registry, the entry, the new attribution and the reward after
/// RecordAttribution.
pub open spec fn attribution_spec(
    program_id: Seq<u8>,
    ctx: RecordAttribution,
    protocol: Protocol,
    entry: KnowledgeEntry,
    query_hash: [u8; 32],
    relevance_score: u8,
    now: i64,
) -> Result<(Protocol, KnowledgeEntry, Attribution, u64), SolSageError> {
    match attribution_check_spec(program_id, ctx, query_hash@, relevance_score) {
        Err(e) => Err(e),
        Ok(bump) => match accrue_spec(protocol, entry, relevance_score) {
            Err(e) => Err(e),
            Ok((p, k, reward)) => Ok(
                (
                    p,
                    k,
                    new_attribution(ctx.knowledge_entry, query_hash, relevance_score, now, bump),
                    reward,
                ),
            ),
        },
    }
}

/// Runs the checks of RecordAttribution; gives the bump seed of the
/// attribution's address.
pub fn check_attribution(
    program_id: &Address,
    ctx: &RecordAttribution,
    query_hash: &[u8; 32],
    relevance_score: u8,
) -> (r: Result<u8, SolSageError>)
    ensures
        r == attribution_check_spec(program_id@, *ctx, query_hash@, relevance_score),
{
    if !ctx.payer.is_signer {
        return Err(SolSageError::MissingSignature);
    }
    if relevance_score > MAX_RELEVANCE_SCORE {
        return Err(SolSageError::InvalidRelevanceScore);
    }
    match attribution_address(program_id, query_hash, &ctx.knowledge_entry) {
        Some((a, bump)) => {
            if same_address(&a, &ctx.attribution) {
                Ok(bump)
            } else {
                Err(SolSageError::InvalidAddress)
            }
        },
        None => Err(SolSageError::InvalidAddress),
    }
}

/// Accrues the reward of one attribution at `relevance_score` to the entry
/// and counts the attribution in the entry and the registry; gives the
/// reward. On failure both records are unchanged.
pub fn accrue(protocol: &mut Protocol, entry: &mut KnowledgeEntry, relevance_score: u8) -> (r:
    Result<u64, SolSageError>)
    ensures
        match accrue_spec(*old(protocol), *old(entry), relevance_score) {
            Ok((p, k, reward)) => r == Ok::<u64, SolSageError>(reward) && *final(protocol) == p
                && *final(entry) == k,
            Err(e) => r == Err::<u64, SolSageError>(e) && *final(protocol) == *old(protocol)
                && *final(entry) == *old(entry),
        },
{
    let reward = match compute_reward(protocol.reward_per_attribution, relevance_score) {
        Some(v) => v,
        None => return Err(SolSageError::ArithmeticOverflow),
    };
    let entry_count = match entry.total_attributions.checked_add(1) {
        Some(n) => n,
        None => return Err(SolSageError::ArithmeticOverflow),
    };
    let pending = match entry.pending_rewards.checked_add(reward) {
        Some(n) => n,
        None => return Err(SolSageError::ArithmeticOverflow),
    };
    let total = match protocol.total_attributions.checked_add(1) {
        Some(n) => n,
        None => return Err(SolSageError::ArithmeticOverflow),
    };
    entry.total_attributions = entry_count;
    entry.pending_rewards = pending;
    protocol.total_attributions = total;
    Ok(reward)
}

/// RecordAttribution on the registry and the entry: gives the new
/// attribution record and the reward it accrued. On failure both records
/// are unchanged.
pub fn record_attribution(
    program_id: &Address,
    ctx: &RecordAttribution,
    protocol: &mut Protocol,
    entry: &mut KnowledgeEntry,
    query_hash: [u8; 32],
    relevance_score: u8,
    now: i64,
) -> (r: Result<(Attribution, u64), SolSageError>)
    ensures
        match attribution_spec(
            program_id@,
            *ctx,
            *old(protocol),
            *old(entry),
            query_hash,
            relevance_score,
            now,
        ) {
            Ok((p, k, a, reward)) => r == Ok::<(Attribution, u64), SolSageError>((a, reward))
                && *final(protocol) == p && *final(entry) == k,
            Err(e) => r == Err::<(Attribution, u64), SolSageError>(e) && *final(protocol)
                == *old(protocol) && *final(entry) == *old(entry),
        },
{
    let bump = match check_attribution(program_id, ctx, &query_hash, relevance_score) {
        Ok(b) => b,
        Err(e) => return Err(e),
    };
    let reward = match accrue(protocol, entry, relevance_score) {
        Ok(v) => v,
        Err(e) => return Err(e),
    };
    let attribution = Attribution {
        is_initialized: true,
        knowledge_entry: ctx.knowledge_entry,
        query_hash,
        relevance_score,
        timestamp: now,
        reward_claimed: false,
        bump,
    };
    Ok((attribution, reward))
}

// ---------------------------------------------------------------------------
// ClaimRewards
/// The entry after ClaimRewards, and the amount claimed: the signer must be
/// the entry's staker, and the entry must have pending rewards, which the
/// claim empties.
pub open spec fn claim_spec(ctx: ClaimRewards, entry: KnowledgeEntry) -> Result<
    (KnowledgeEntry, u64),
    SolSageError,
> {
    if !ctx.staker.is_signer {
        Err(SolSageError::MissingSignature)
    } else if entry.staker@ != ctx.staker.key@ {
        Err(SolSageError::NotKnowledgeOwner)
    } else if entry.pending_rewards == 0 {
        Err(SolSageError::NoRewardsToClaim)
    } else {
        Ok((KnowledgeEntry { pending_rewards: 0, ..entry }, entry.pending_rewards))
    }
}

/// ClaimRewards on the entry: empties its pending rewards and gives the
/// amount claimed. On failure the entry is unchanged.
pub fn claim_rewards(ctx: &ClaimRewards, entry: &mut KnowledgeEntry) -> (r: Result<
    u64,
    SolSageError,
>)
    ensures
        match claim_spec(*ctx, *old(entry)) {
            Ok((k, amount)) => r == Ok::<u64, SolSageError>(amount) && *final(entry) == k,
            Err(e) => r == Err::<u64, SolSageError>(e) && *final(entry) == *old(entry),
        },
{
    if !ctx.staker.is_signer {
        return Err(SolSageError::MissingSignature);
    }
    if !same_address(&entry.staker, &ctx.staker.key) {
        return Err(SolSageError::NotKnowledgeOwner);
    }
    if entry.pending_rewards == 0 {
        return Err(SolSageError::NoRewardsToClaim);
    }
    let amount = entry.pending_rewards;
    entry.pending_rewards = 0;
    Ok(amount)
}

} // verus!
