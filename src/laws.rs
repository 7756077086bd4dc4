//! What holds of the ledger over every state and across operations.
use crate::address::{attribution_seeds, knowledge_seeds, program_address};
use crate::ledger::{
    attribute_ledger, claim_ledger, initialize_ledger, process_spec, stake_ledger, LedgerView,
};
use crate::processor::{
    attribution_check_spec, attribution_spec, byte_len, claim_spec, reward_of, stake_check_spec,
    stake_spec,
};
use crate::state::{
    AccountRef, ClaimRewards, KnowledgeEntry, Protocol, Initialize, RecordAttribution, SolSageError, SolSageInstruction,
    StakeKnowledge, MAX_TITLE_LEN, REWARD_PER_ATTRIBUTION,
};
use vstd::prelude::*;

verus! {

/// Initialize keeps the ledger well formed.
pub proof fn lemma_initialize_keeps_wf(l: LedgerView, ctx: Initialize)
    requires
        l.wf(),
    ensures
        initialize_ledger(l, ctx) matches Ok(l2) ==> l2.wf(),
{
}

/// StakeKnowledge keeps the ledger well formed: in particular the registry
/// counts exactly the entries stored.
pub proof fn lemma_stake_keeps_wf(
    l: LedgerView,
    ctx: StakeKnowledge,
    content_hash: [u8; 32],
    title: String,
    category: String,
    now: i64,
)
    requires
        l.wf(),
    ensures
        stake_ledger(l, ctx, content_hash, title, category, now) matches Ok(l2) ==> l2.wf(),
{
    if let Ok(l2) = stake_ledger(l, ctx, content_hash, title, category, now) {
        assert(l2.entries.dom() =~= l.entries.dom().insert(ctx.knowledge_entry@));
        assert forall|k: Seq<u8>| #[trigger] l2.entries.contains_key(k) implies program_address(
            knowledge_seeds(l2.entries[k].staker@, l2.entries[k].content_hash@),
            l2.program_id,
        ) == Some((k, l2.entries[k].bump)) by {
            if k != ctx.knowledge_entry@ {
                assert(l.entries.contains_key(k));
            }
        }
    }
}

/// RecordAttribution keeps the ledger well formed: in particular the
/// registry counts exactly the attributions stored.
pub proof fn lemma_attribute_keeps_wf(
    l: LedgerView,
    ctx: RecordAttribution,
    query_hash: [u8; 32],
    relevance_score: u8,
    now: i64,
)
    requires
        l.wf(),
    ensures
        attribute_ledger(l, ctx, query_hash, relevance_score, now) matches Ok((l2, _)) ==> l2.wf(),
{
    if let Ok((l2, _)) = attribute_ledger(l, ctx, query_hash, relevance_score, now) {
        assert(l2.entries.dom() =~= l.entries.dom());
        assert(l2.attributions.dom() =~= l.attributions.dom().insert(ctx.attribution@));
        assert forall|k: Seq<u8>| #[trigger] l2.entries.contains_key(k) implies program_address(
            knowledge_seeds(l2.entries[k].staker@, l2.entries[k].content_hash@),
            l2.program_id,
        ) == Some((k, l2.entries[k].bump)) by {
            assert(l.entries.contains_key(k));
        }
        assert forall|k: Seq<u8>| #[trigger] l2.attributions.contains_key(k) implies program_address(
            attribution_seeds(l2.attributions[k].query_hash@, l2.attributions[k].knowledge_entry@),
            l2.program_id,
        ) == Some((k, l2.attributions[k].bump)) by {
            if k != ctx.attribution@ {
                assert(l.attributions.contains_key(k));
            }
        }
    }
}

/// ClaimRewards keeps the ledger well formed.
pub proof fn lemma_claim_keeps_wf(l: LedgerView, ctx: ClaimRewards)
    requires
        l.wf(),
    ensures
        claim_ledger(l, ctx) matches Ok((l2, _)) ==> l2.wf(),
{
    if let Ok((l2, _)) = claim_ledger(l, ctx) {
        assert(l2.entries.dom() =~= l.entries.dom());
        assert forall|k: Seq<u8>| #[trigger] l2.entries.contains_key(k) implies program_address(
            knowledge_seeds(l2.entries[k].staker@, l2.entries[k].content_hash@),
            l2.program_id,
        ) == Some((k, l2.entries[k].bump)) by {
            assert(l.entries.contains_key(k));
        }
    }
}

/// Any instruction keeps the ledger well formed.
pub proof fn lemma_process_keeps_wf(
    l: LedgerView,
    accounts: Seq<AccountRef>,
    instruction: SolSageInstruction,
    now: i64,
)
    requires
        l.wf(),
    ensures
        process_spec(l, accounts, instruction, now) matches Ok((l2, _)) ==> l2.wf(),
{
    match instruction {
        SolSageInstruction::Initialize => if accounts.len() >= 2 {
            lemma_initialize_keeps_wf(
                l,
                Initialize { authority: accounts[0], protocol: accounts[1].key },
            );
        },
        SolSageInstruction::StakeKnowledge { content_hash, title, category } => if accounts.len()
            >= 3 {
            lemma_stake_keeps_wf(
                l,
                StakeKnowledge {
                    staker: accounts[0],
                    protocol: accounts[1].key,
                    knowledge_entry: accounts[2].key,
                },
                content_hash,
                title,
                category,
                now,
            );
        },
        SolSageInstruction::RecordAttribution { query_hash, relevance_score } => if accounts.len()
            >= 4 {
            lemma_attribute_keeps_wf(
                l,
                RecordAttribution {
                    payer: accounts[0],
                    protocol: accounts[1].key,
                    knowledge_entry: accounts[2].key,
                    attribution: accounts[3].key,
                },
                query_hash,
                relevance_score,
                now,
            );
        },
        SolSageInstruction::ClaimRewards => if accounts.len() >= 2 {
            lemma_claim_keeps_wf(
                l,
                ClaimRewards { staker: accounts[0], knowledge_entry: accounts[1].key },
            );
        },
    }
}

/// One instruction of a run: the accounts, the instruction and the time.
pub type Step = (Seq<AccountRef>, SolSageInstruction, i64);

/// The ledger after a run of instructions, each applied in turn; one that
/// fails leaves the ledger as it was.
pub open spec fn run(l: LedgerView, steps: Seq<Step>) -> LedgerView
    decreases steps.len(),
{
    if steps.len() == 0 {
        l
    } else {
        let before = run(l, steps.drop_last());
        let (accounts, instruction, now) = steps.last();
        match process_spec(before, accounts, instruction, now) {
            Ok((after, _)) => after,
            Err(_) => before,
        }
    }
}

/// After any run of interleaved instructions from a well-formed ledger, the
/// registry counts exactly the entries and the attributions stored, and
/// none is stored while no registry exists.
pub proof fn lemma_counters_match_records(l: LedgerView, steps: Seq<Step>)
    requires
        l.wf(),
    ensures
        run(l, steps).wf(),
        match run(l, steps).protocol {
            Some((_, p)) => p.total_knowledge_entries == run(l, steps).entries.dom().len()
                && p.total_attributions == run(l, steps).attributions.dom().len(),
            None => run(l, steps).entries.dom().len() == 0 && run(l, steps).attributions.dom().len()
                == 0,
        },
    decreases steps.len(),
{
    if steps.len() > 0 {
        lemma_counters_match_records(l, steps.drop_last());
        let (accounts, instruction, now) = steps.last();
        lemma_process_keeps_wf(run(l, steps.drop_last()), accounts, instruction, now);
    }
}

/// In a well-formed ledger no two entries share a staker and a content hash.
pub proof fn lemma_entry_unique(l: LedgerView, k1: Seq<u8>, k2: Seq<u8>)
    requires
        l.wf(),
        l.entries.contains_key(k1),
        l.entries.contains_key(k2),
        l.entries[k1].staker@ == l.entries[k2].staker@,
        l.entries[k1].content_hash@ == l.entries[k2].content_hash@,
    ensures
        k1 == k2,
{
}

/// In a well-formed ledger no two attributions share a query hash and an
/// entry.
pub proof fn lemma_attribution_unique(l: LedgerView, k1: Seq<u8>, k2: Seq<u8>)
    requires
        l.wf(),
        l.attributions.contains_key(k1),
        l.attributions.contains_key(k2),
        l.attributions[k1].query_hash@ == l.attributions[k2].query_hash@,
        l.attributions[k1].knowledge_entry@ == l.attributions[k2].knowledge_entry@,
    ensures
        k1 == k2,
{
}

/// Once a staker has staked a content hash, staking it again fails; where
/// the second attempt passes the checks, it fails because the entry's
/// address is taken.
pub proof fn lemma_stake_at_most_once(
    l: LedgerView,
    ctx: StakeKnowledge,
    content_hash: [u8; 32],
    title: String,
    category: String,
    now: i64,
    ctx2: StakeKnowledge,
    title2: String,
    category2: String,
    now2: i64,
)
    requires
        stake_ledger(l, ctx, content_hash, title, category, now) is Ok,
        ctx2.staker.key@ == ctx.staker.key@,
    ensures
        ({
            let l2 = stake_ledger(l, ctx, content_hash, title, category, now)->Ok_0;
            let again = stake_ledger(l2, ctx2, content_hash, title2, category2, now2);
            &&& again is Err
            &&& stake_check_spec(l2.program_id, ctx2, content_hash@, title2@, category2@) is Ok
                ==> again == Err::<LedgerView, SolSageError>(SolSageError::AlreadyInitialized)
        }),
{
    let l2 = stake_ledger(l, ctx, content_hash, title, category, now)->Ok_0;
    assert(l2.entries.contains_key(ctx.knowledge_entry@));
}

/// An attribution of a query to an entry can be recorded once: recording
/// it again fails; where the second attempt passes the checks, it fails
/// because the attribution's address is taken.
pub proof fn lemma_attribution_at_most_once(
    l: LedgerView,
    ctx: RecordAttribution,
    query_hash: [u8; 32],
    relevance_score: u8,
    now: i64,
    ctx2: RecordAttribution,
    relevance_score2: u8,
    now2: i64,
)
    requires
        attribute_ledger(l, ctx, query_hash, relevance_score, now) is Ok,
        ctx2.knowledge_entry@ == ctx.knowledge_entry@,
    ensures
        ({
            let l2 = attribute_ledger(l, ctx, query_hash, relevance_score, now)->Ok_0.0;
            let again = attribute_ledger(l2, ctx2, query_hash, relevance_score2, now2);
            &&& again is Err
            &&& attribution_check_spec(l2.program_id, ctx2, query_hash@, relevance_score2) is Ok
                ==> again == Err::<(LedgerView, u64), SolSageError>(
                SolSageError::AlreadyInitialized,
            )
        }),
{
    let l2 = attribute_ledger(l, ctx, query_hash, relevance_score, now)->Ok_0.0;
    assert(l2.attributions.contains_key(ctx.attribution@));
}

/// The sum of the rewards of attributions at `scores`.
pub open spec fn total_reward(rate: u64, scores: Seq<u8>) -> int
    decreases scores.len(),
{
    if scores.len() == 0 {
        0
    } else {
        total_reward(rate, scores.drop_last()) + reward_of(rate, scores.last())
    }
}

/// After attributions at scores r1..rn to one entry, each succeeding from
/// the ledger the one before left, the entry's pending rewards have grown
/// by the sum of floor(rate * ri / 10) and its attribution count by n.
pub proof fn lemma_attributions_accrue(
    states: Seq<LedgerView>,
    ctxs: Seq<RecordAttribution>,
    query_hashes: Seq<[u8; 32]>,
    scores: Seq<u8>,
    times: Seq<i64>,
    entry: Seq<u8>,
)
    requires
        states.len() == scores.len() + 1,
        ctxs.len() == scores.len(),
        query_hashes.len() == scores.len(),
        times.len() == scores.len(),
        states[0].wf(),
        states[0].entries.contains_key(entry),
        forall|i: int|
            0 <= i < scores.len() ==> {
                &&& (#[trigger] ctxs[i]).knowledge_entry@ == entry
                &&& attribute_ledger(states[i], ctxs[i], query_hashes[i], scores[i], times[i]) is Ok
                &&& attribute_ledger(
                    states[i],
                    ctxs[i],
                    query_hashes[i],
                    scores[i],
                    times[i],
                )->Ok_0.0 == states[i + 1]
            },
    ensures
        states.last().wf(),
        states.last().entries.contains_key(entry),
        states.last().entries[entry].pending_rewards == states[0].entries[entry].pending_rewards
            + total_reward(REWARD_PER_ATTRIBUTION, scores),
        states.last().entries[entry].total_attributions == states[0].entries[entry].total_attributions
            + scores.len(),
    decreases scores.len(),
{
    let n = scores.len() as int;
    if n > 0 {
        lemma_attributions_accrue(
            states.drop_last(),
            ctxs.drop_last(),
            query_hashes.drop_last(),
            scores.drop_last(),
            times.drop_last(),
            entry,
        );
        assert(ctxs[n - 1].knowledge_entry@ == entry);
        let prev = states[n - 1];
        assert(prev == states.drop_last().last());
        lemma_attribute_keeps_wf(prev, ctxs[n - 1], query_hashes[n - 1], scores[n - 1], times[n - 1]);
    }
}

/// A claim empties the entry's pending rewards and gives what they were;
/// a second claim right after fails for want of rewards.
pub proof fn lemma_claim_then_claim_again(l: LedgerView, ctx: ClaimRewards)
    requires
        claim_ledger(l, ctx) is Ok,
    ensures
        ({
            let (l2, amount) = claim_ledger(l, ctx)->Ok_0;
            &&& amount == l.entries[ctx.knowledge_entry@].pending_rewards
            &&& l2.entries[ctx.knowledge_entry@].pending_rewards == 0
            &&& claim_ledger(l2, ctx) == Err::<(LedgerView, u64), SolSageError>(
                SolSageError::NoRewardsToClaim,
            )
        }),
{
}

/// A signed claim on an entry by anyone but its staker fails as not the
/// owner's, whatever the entry's balance.
pub proof fn lemma_claim_by_other_fails(l: LedgerView, ctx: ClaimRewards)
    requires
        ctx.staker.is_signer,
        l.entries.contains_key(ctx.knowledge_entry@),
        l.entries[ctx.knowledge_entry@].staker@ != ctx.staker.key@,
    ensures
        claim_ledger(l, ctx) == Err::<(LedgerView, u64), SolSageError>(
            SolSageError::NotKnowledgeOwner,
        ),
{
}

/// A signed stake whose title is longer than the limit fails for that, and
/// so stores nothing.
pub proof fn lemma_long_title_rejected(
    l: LedgerView,
    ctx: StakeKnowledge,
    content_hash: [u8; 32],
    title: String,
    category: String,
    now: i64,
)
    requires
        ctx.staker.is_signer,
        byte_len(title@) > MAX_TITLE_LEN,
    ensures
        stake_ledger(l, ctx, content_hash, title, category, now) == Err::<LedgerView, SolSageError>(
            SolSageError::TitleTooLong,
        ),
{
}

/// In a well-formed ledger that holds an entry of a staker and a content
/// hash, staking that pair fails; where the attempt passes the checks, it
/// fails because the entry's address is taken.
pub proof fn lemma_staked_pair_blocks_stake(
    l: LedgerView,
    k: Seq<u8>,
    ctx: StakeKnowledge,
    content_hash: [u8; 32],
    title: String,
    category: String,
    now: i64,
)
    requires
        l.wf(),
        l.entries.contains_key(k),
        l.entries[k].staker@ == ctx.staker.key@,
        l.entries[k].content_hash@ == content_hash@,
    ensures
        stake_ledger(l, ctx, content_hash, title, category, now) is Err,
        stake_check_spec(l.program_id, ctx, content_hash@, title@, category@) is Ok ==> stake_ledger(
            l,
            ctx,
            content_hash,
            title,
            category,
            now,
        ) == Err::<LedgerView, SolSageError>(SolSageError::AlreadyInitialized),
{
}

/// In a well-formed ledger that holds an attribution of a query to an
/// entry, recording that attribution again fails; where the attempt passes
/// the checks, it fails because the attribution's address is taken.
pub proof fn lemma_recorded_pair_blocks_attribution(
    l: LedgerView,
    k: Seq<u8>,
    ctx: RecordAttribution,
    query_hash: [u8; 32],
    relevance_score: u8,
    now: i64,
)
    requires
        l.wf(),
        l.attributions.contains_key(k),
        l.attributions[k].query_hash@ == query_hash@,
        l.attributions[k].knowledge_entry@ == ctx.knowledge_entry@,
    ensures
        attribute_ledger(l, ctx, query_hash, relevance_score, now) is Err,
        attribution_check_spec(l.program_id, ctx, query_hash@, relevance_score) is Ok
            ==> attribute_ledger(l, ctx, query_hash, relevance_score, now) == Err::<
            (LedgerView, u64),
            SolSageError,
        >(SolSageError::AlreadyInitialized),
{
}

/// No instruction removes a record or changes the key it was stored under:
/// an entry keeps its staker and content hash, an attribution its query
/// hash and entry, and the registry its address.
pub open spec fn keeps_records(l: LedgerView, l2: LedgerView) -> bool {
    &&& l2.program_id == l.program_id
    &&& (l.protocol matches Some((pa, _)) ==> l2.protocol matches Some((pa2, _)) && pa2 == pa)
    &&& forall|k: Seq<u8>| #[trigger]
        l.entries.contains_key(k) ==> l2.entries.contains_key(k) && l2.entries[k].staker
            == l.entries[k].staker && l2.entries[k].content_hash == l.entries[k].content_hash
    &&& forall|k: Seq<u8>| #[trigger]
        l.attributions.contains_key(k) ==> l2.attributions.contains_key(k) && l2.attributions[k]
            == l.attributions[k]
}

proof fn lemma_process_keeps_records(
    l: LedgerView,
    accounts: Seq<AccountRef>,
    instruction: SolSageInstruction,
    now: i64,
)
    requires
        l.wf(),
    ensures
        process_spec(l, accounts, instruction, now) matches Ok((l2, _)) ==> keeps_records(l, l2),
{
    if let Ok((l2, _)) = process_spec(l, accounts, instruction, now) {
        assert forall|k: Seq<u8>| #[trigger] l.entries.contains_key(k) implies l2.entries.contains_key(
            k,
        ) && l2.entries[k].staker == l.entries[k].staker && l2.entries[k].content_hash
            == l.entries[k].content_hash by {
            if l2.entries.contains_key(k) && l2.entries[k] != l.entries[k] {
                assert(l2.entries[k].staker == l.entries[k].staker);
            }
        }
        assert forall|k: Seq<u8>| #[trigger]
            l.attributions.contains_key(k) implies l2.attributions.contains_key(k)
            && l2.attributions[k] == l.attributions[k] by {}
    }
}

/// Over any run of instructions, every record stays, under the same key.
/// With the two laws above, a staker stakes a content hash at most once,
/// and a query is attributed to an entry at most once, over the whole life
/// of a ledger.
pub proof fn lemma_run_keeps_records(l: LedgerView, steps: Seq<Step>)
    requires
        l.wf(),
    ensures
        keeps_records(l, run(l, steps)),
    decreases steps.len(),
{
    if steps.len() > 0 {
        lemma_run_keeps_records(l, steps.drop_last());
        lemma_counters_match_records(l, steps.drop_last());
        let (accounts, instruction, now) = steps.last();
        lemma_process_keeps_records(run(l, steps.drop_last()), accounts, instruction, now);
    }
}

/// One call of the record-level operations on the registry, with the
/// records it is handed.
pub enum RegistryStep {
    Stake {
        ctx: StakeKnowledge,
        content_hash: [u8; 32],
        title: String,
        category: String,
        now: i64,
    },
    Attribute {
        ctx: RecordAttribution,
        entry: KnowledgeEntry,
        query_hash: [u8; 32],
        relevance_score: u8,
        now: i64,
    },
    Claim { ctx: ClaimRewards, entry: KnowledgeEntry },
}

/// The registry after a run of calls of `stake_knowledge`,
/// `record_attribution` and `claim_rewards`, each on the registry the one
/// before left (a failed call leaves it as it was), with the numbers of
/// stakes and of attributions that succeeded.
pub open spec fn registry_run(program_id: Seq<u8>, p: Protocol, steps: Seq<RegistryStep>) -> (
    Protocol,
    nat,
    nat,
)
    decreases steps.len(),
{
    if steps.len() == 0 {
        (p, 0, 0)
    } else {
        let (q, stakes, attributions) = registry_run(program_id, p, steps.drop_last());
        match steps.last() {
            RegistryStep::Stake { ctx, content_hash, title, category, now } => match stake_spec(
                program_id,
                ctx,
                q,
                content_hash,
                title,
                category,
                now,
            ) {
                Ok((q2, _)) => (q2, stakes + 1, attributions),
                Err(_) => (q, stakes, attributions),
            },
            RegistryStep::Attribute { ctx, entry, query_hash, relevance_score, now } => match attribution_spec(
                program_id,
                ctx,
                q,
                entry,
                query_hash,
                relevance_score,
                now,
            ) {
                Ok((q2, _, _, _)) => (q2, stakes, attributions + 1),
                Err(_) => (q, stakes, attributions),
            },
            RegistryStep::Claim { ctx, entry } => (q, stakes, attributions),
        }
    }
}

/// Over any interleaved run of calls of the record-level operations, the
/// registry's counters grow by exactly the numbers of stakes and of
/// attributions that succeeded; from the registry that `initialize` writes,
/// with both counters at zero, they are those numbers.
pub proof fn lemma_registry_counts(program_id: Seq<u8>, p: Protocol, steps: Seq<RegistryStep>)
    ensures
        ({
            let (q, stakes, attributions) = registry_run(program_id, p, steps);
            &&& q.total_knowledge_entries == p.total_knowledge_entries + stakes
            &&& q.total_attributions == p.total_attributions + attributions
            &&& q.reward_per_attribution == p.reward_per_attribution
        }),
    decreases steps.len(),
{
    if steps.len() > 0 {
        lemma_registry_counts(program_id, p, steps.drop_last());
    }
}

/// One call of the record-level operations on a knowledge entry.
pub enum EntryStep {
    Attribute { ctx: RecordAttribution, query_hash: [u8; 32], relevance_score: u8, now: i64 },
    Claim { ctx: ClaimRewards },
}

/// The registry and the entry after a run of calls of `record_attribution`
/// and `claim_rewards` on them, each on the records the one before left (a
/// failed call leaves them as they were); with the number of attributions
/// that succeeded, the sum of their rewards, and whether some claim
/// succeeded.
pub open spec fn entry_run(
    program_id: Seq<u8>,
    p: Protocol,
    e: KnowledgeEntry,
    steps: Seq<EntryStep>,
) -> (Protocol, KnowledgeEntry, nat, int, bool)
    decreases steps.len(),
{
    if steps.len() == 0 {
        (p, e, 0, 0, false)
    } else {
        let (q, k, count, accrued, claimed) = entry_run(program_id, p, e, steps.drop_last());
        match steps.last() {
            EntryStep::Attribute { ctx, query_hash, relevance_score, now } => match attribution_spec(
                program_id,
                ctx,
                q,
                k,
                query_hash,
                relevance_score,
                now,
            ) {
                Ok((q2, k2, _, _)) => (
                    q2,
                    k2,
                    count + 1,
                    accrued + reward_of(q.reward_per_attribution, relevance_score),
                    claimed,
                ),
                Err(_) => (q, k, count, accrued, claimed),
            },
            EntryStep::Claim { ctx } => match claim_spec(ctx, k) {
                Ok((k2, _)) => (q, k2, count, accrued, true),
                Err(_) => (q, k, count, accrued, claimed),
            },
        }
    }
}

/// Over any run of attributions to an entry, with claims interleaved, the
/// entry's attribution count grows by the number of attributions that
/// succeeded (claims never lower it); where no claim succeeded, its pending
/// rewards grow by the sum of floor(rate * ri / 10) over those
/// attributions, at the registry's rate, which no call changes.
pub proof fn lemma_entry_accrues(
    program_id: Seq<u8>,
    p: Protocol,
    e: KnowledgeEntry,
    steps: Seq<EntryStep>,
)
    ensures
        ({
            let (q, k, count, accrued, claimed) = entry_run(program_id, p, e, steps);
            &&& q.reward_per_attribution == p.reward_per_attribution
            &&& k.total_attributions == e.total_attributions + count
            &&& q.total_attributions == p.total_attributions + count
            &&& !claimed ==> k.pending_rewards == e.pending_rewards + accrued
            &&& accrued >= 0
        }),
    decreases steps.len(),
{
    if steps.len() > 0 {
        lemma_entry_accrues(program_id, p, e, steps.drop_last());
        let (q, k, count, accrued, claimed) = entry_run(program_id, p, e, steps.drop_last());
        match steps.last() {
            EntryStep::Attribute { ctx, query_hash, relevance_score, now } => {
                assert(reward_of(q.reward_per_attribution, relevance_score) >= 0) by (nonlinear_arith);
            },
            EntryStep::Claim { ctx } => {},
        }
    }
}

} // verus!
