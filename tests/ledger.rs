use solsage::address::{attribution_address, knowledge_address, protocol_address, Address};
use solsage::ledger::{Effect, Ledger};
use solsage::processor::{
    claim_rewards, compute_reward, initialize, record_attribution, stake_knowledge,
};
use solsage::state::{
    AccountRef, ClaimRewards, Initialize, RecordAttribution, SolSageError, SolSageInstruction,
    StakeKnowledge,
};

const PROGRAM: Address = [7u8; 32];
const AUTHORITY: Address = [1u8; 32];
const STAKER: Address = [2u8; 32];
const OTHER: Address = [3u8; 32];

fn signer(key: Address) -> AccountRef {
    AccountRef { key, is_signer: true }
}

fn registry_key() -> Address {
    protocol_address(&PROGRAM).unwrap().0
}

fn entry_key(staker: &Address, hash: &[u8; 32]) -> Address {
    knowledge_address(&PROGRAM, staker, hash).unwrap().0
}

fn attribution_key(query: &[u8; 32], entry: &Address) -> Address {
    attribution_address(&PROGRAM, query, entry).unwrap().0
}

fn initialized() -> Ledger {
    let mut l = Ledger::new(PROGRAM);
    let ctx = Initialize { authority: signer(AUTHORITY), protocol: registry_key() };
    assert_eq!(l.process_initialize(&ctx), Ok(()));
    l
}

fn stake_ctx(staker: Address, hash: &[u8; 32]) -> StakeKnowledge {
    StakeKnowledge {
        staker: signer(staker),
        protocol: registry_key(),
        knowledge_entry: entry_key(&staker, hash),
    }
}

fn stake(l: &mut Ledger, staker: Address, hash: [u8; 32]) -> Result<(), SolSageError> {
    l.process_stake_knowledge(
        &stake_ctx(staker, &hash),
        hash,
        "Rust ownership".to_string(),
        "programming".to_string(),
        1_700_000_000,
    )
}

fn attribution_ctx(payer: Address, query: &[u8; 32], entry: &Address) -> RecordAttribution {
    RecordAttribution {
        payer: signer(payer),
        protocol: registry_key(),
        knowledge_entry: *entry,
        attribution: attribution_key(query, entry),
    }
}

fn attribute(l: &mut Ledger, query: [u8; 32], entry: &Address, score: u8) -> Result<u64, SolSageError> {
    l.process_record_attribution(&attribution_ctx(OTHER, &query, entry), query, score, 1_700_000_100)
}

#[test]
fn reward_examples() {
    assert_eq!(compute_reward(1_000_000, 100), Some(10_000_000));
    assert_eq!(compute_reward(1_000_000, 0), Some(0));
    assert_eq!(compute_reward(1_000_000, 50), Some(5_000_000));
    assert_eq!(compute_reward(1_000_000, 7), Some(700_000));
    assert_eq!(compute_reward(15, 3), Some(4));
    assert_eq!(compute_reward(u64::MAX, 2), None);
}

#[test]
fn derived_addresses_depend_on_seeds() {
    let hash = [9u8; 32];
    let a = entry_key(&STAKER, &hash);
    assert_ne!(a, STAKER);
    assert_ne!(a, hash);
    assert_ne!(a, PROGRAM);
    assert_eq!(a, entry_key(&STAKER, &hash));
    assert_ne!(a, entry_key(&OTHER, &hash));
    assert_ne!(a, entry_key(&STAKER, &[8u8; 32]));
    assert_ne!(registry_key(), PROGRAM);
    assert_ne!(attribution_key(&hash, &a), a);
    let other_program = protocol_address(&[8u8; 32]).unwrap().0;
    assert_ne!(registry_key(), other_program);
}

#[test]
fn initialize_creates_registry() {
    let l = initialized();
    let p = l.protocol().unwrap();
    assert!(p.is_initialized);
    assert_eq!(p.authority, AUTHORITY);
    assert_eq!(p.total_knowledge_entries, 0);
    assert_eq!(p.total_attributions, 0);
    assert_eq!(p.reward_per_attribution, 1_000_000);
    assert_eq!(p.bump, protocol_address(&PROGRAM).unwrap().1);
    assert_eq!(l.protocol_key(), Some(registry_key()));
    assert!(l.in_use(&registry_key()));
}

#[test]
fn initialize_twice_fails() {
    let mut l = initialized();
    let ctx = Initialize { authority: signer(OTHER), protocol: registry_key() };
    assert_eq!(l.process_initialize(&ctx), Err(SolSageError::AlreadyInitialized));
    assert_eq!(l.protocol().unwrap().authority, AUTHORITY);
}

#[test]
fn initialize_checks_signature_and_address() {
    let mut l = Ledger::new(PROGRAM);
    let unsigned = Initialize {
        authority: AccountRef { key: AUTHORITY, is_signer: false },
        protocol: registry_key(),
    };
    assert_eq!(l.process_initialize(&unsigned), Err(SolSageError::MissingSignature));
    let wrong = Initialize { authority: signer(AUTHORITY), protocol: [5u8; 32] };
    assert_eq!(l.process_initialize(&wrong), Err(SolSageError::InvalidAddress));
    assert!(l.protocol().is_none());
}

#[test]
fn stake_creates_entry() {
    let mut l = initialized();
    let hash = [9u8; 32];
    assert_eq!(stake(&mut l, STAKER, hash), Ok(()));
    let key = entry_key(&STAKER, &hash);
    let e = l.entry(&key).unwrap();
    assert!(e.is_initialized);
    assert_eq!(e.staker, STAKER);
    assert_eq!(e.content_hash, hash);
    assert_eq!(e.title, "Rust ownership");
    assert_eq!(e.category, "programming");
    assert_eq!(e.created_at, 1_700_000_000);
    assert_eq!(e.total_attributions, 0);
    assert_eq!(e.pending_rewards, 0);
    assert!(e.is_active);
    assert_eq!(e.bump, knowledge_address(&PROGRAM, &STAKER, &hash).unwrap().1);
    assert_eq!(l.protocol().unwrap().total_knowledge_entries, 1);
}

#[test]
fn stake_twice_fails_with_collision() {
    let mut l = initialized();
    let hash = [9u8; 32];
    assert_eq!(stake(&mut l, STAKER, hash), Ok(()));
    assert_eq!(stake(&mut l, STAKER, hash), Err(SolSageError::AlreadyInitialized));
    assert_eq!(l.protocol().unwrap().total_knowledge_entries, 1);
    // another staker may stake the same content
    assert_eq!(stake(&mut l, OTHER, hash), Ok(()));
    assert_eq!(l.protocol().unwrap().total_knowledge_entries, 2);
}

#[test]
fn stake_title_of_101_characters_fails() {
    let mut l = initialized();
    let hash = [9u8; 32];
    let r = l.process_stake_knowledge(&stake_ctx(STAKER, &hash), hash, "a".repeat(101), "c".to_string(), 5);
    assert_eq!(r, Err(SolSageError::TitleTooLong));
    assert!(l.entry(&entry_key(&STAKER, &hash)).is_none());
    assert_eq!(l.protocol().unwrap().total_knowledge_entries, 0);
}

#[test]
fn stake_title_limits_count_bytes() {
    let mut l = initialized();
    let hash = [9u8; 32];
    let ctx = stake_ctx(STAKER, &hash);
    // 51 characters of two bytes each
    let r = l.process_stake_knowledge(&ctx, hash, "é".repeat(51), "c".to_string(), 5);
    assert_eq!(r, Err(SolSageError::TitleTooLong));
    let r = l.process_stake_knowledge(&ctx, hash, "a".repeat(100), "c".repeat(50), 5);
    assert_eq!(r, Ok(()));
}

#[test]
fn stake_long_category_fails() {
    let mut l = initialized();
    let hash = [9u8; 32];
    let r = l.process_stake_knowledge(&stake_ctx(STAKER, &hash), hash, "t".to_string(), "c".repeat(51), 5);
    assert_eq!(r, Err(SolSageError::CategoryTooLong));
}

#[test]
fn stake_checks_signature_address_and_registry() {
    let mut l = initialized();
    let hash = [9u8; 32];
    let mut ctx = stake_ctx(STAKER, &hash);
    ctx.staker.is_signer = false;
    let r = l.process_stake_knowledge(&ctx, hash, "t".to_string(), "c".to_string(), 5);
    assert_eq!(r, Err(SolSageError::MissingSignature));
    let mut ctx = stake_ctx(STAKER, &hash);
    ctx.knowledge_entry = entry_key(&OTHER, &hash);
    let r = l.process_stake_knowledge(&ctx, hash, "t".to_string(), "c".to_string(), 5);
    assert_eq!(r, Err(SolSageError::InvalidAddress));
    let mut ctx = stake_ctx(STAKER, &hash);
    ctx.protocol = [5u8; 32];
    let r = l.process_stake_knowledge(&ctx, hash, "t".to_string(), "c".to_string(), 5);
    assert_eq!(r, Err(SolSageError::InvalidAddress));
    let mut empty = Ledger::new(PROGRAM);
    assert_eq!(stake(&mut empty, STAKER, hash), Err(SolSageError::AccountNotFound));
}

#[test]
fn attribution_accrues_reward() {
    let mut l = initialized();
    let hash = [9u8; 32];
    stake(&mut l, STAKER, hash).unwrap();
    let entry = entry_key(&STAKER, &hash);
    let query = [4u8; 32];
    assert_eq!(attribute(&mut l, query, &entry, 50), Ok(5_000_000));
    let e = l.entry(&entry).unwrap();
    assert_eq!(e.pending_rewards, 5_000_000);
    assert_eq!(e.total_attributions, 1);
    let a = l.attribution(&attribution_key(&query, &entry)).unwrap();
    assert!(a.is_initialized);
    assert_eq!(a.knowledge_entry, entry);
    assert_eq!(a.query_hash, query);
    assert_eq!(a.relevance_score, 50);
    assert_eq!(a.timestamp, 1_700_000_100);
    assert!(!a.reward_claimed);
    assert_eq!(l.protocol().unwrap().total_attributions, 1);
}

#[test]
fn rewards_sum_over_attributions() {
    let mut l = initialized();
    let hash = [9u8; 32];
    stake(&mut l, STAKER, hash).unwrap();
    let entry = entry_key(&STAKER, &hash);
    let scores = [100u8, 0, 50, 7, 33];
    for (i, s) in scores.iter().enumerate() {
        attribute(&mut l, [i as u8 + 10; 32], &entry, *s).unwrap();
    }
    let e = l.entry(&entry).unwrap();
    assert_eq!(e.pending_rewards, 10_000_000 + 0 + 5_000_000 + 700_000 + 3_300_000);
    assert_eq!(e.total_attributions, 5);
    assert_eq!(l.protocol().unwrap().total_attributions, 5);
}

#[test]
fn attribution_twice_fails() {
    let mut l = initialized();
    let hash = [9u8; 32];
    stake(&mut l, STAKER, hash).unwrap();
    let entry = entry_key(&STAKER, &hash);
    let query = [4u8; 32];
    assert_eq!(attribute(&mut l, query, &entry, 50), Ok(5_000_000));
    assert_eq!(attribute(&mut l, query, &entry, 90), Err(SolSageError::AlreadyInitialized));
    assert_eq!(l.entry(&entry).unwrap().pending_rewards, 5_000_000);
    assert_eq!(l.protocol().unwrap().total_attributions, 1);
}

#[test]
fn attribution_checks_inputs() {
    let mut l = initialized();
    let hash = [9u8; 32];
    stake(&mut l, STAKER, hash).unwrap();
    let entry = entry_key(&STAKER, &hash);
    let query = [4u8; 32];
    assert_eq!(attribute(&mut l, query, &entry, 101), Err(SolSageError::InvalidRelevanceScore));
    let mut ctx = attribution_ctx(OTHER, &query, &entry);
    ctx.payer.is_signer = false;
    assert_eq!(l.process_record_attribution(&ctx, query, 10, 0), Err(SolSageError::MissingSignature));
    let mut ctx = attribution_ctx(OTHER, &query, &entry);
    ctx.attribution = attribution_key(&[5u8; 32], &entry);
    assert_eq!(l.process_record_attribution(&ctx, query, 10, 0), Err(SolSageError::InvalidAddress));
    let missing = [6u8; 32];
    assert_eq!(attribute(&mut l, query, &missing, 10), Err(SolSageError::AccountNotFound));
    assert_eq!(l.protocol().unwrap().total_attributions, 0);
}

#[test]
fn claim_empties_pending_rewards() {
    let mut l = initialized();
    let hash = [9u8; 32];
    stake(&mut l, STAKER, hash).unwrap();
    let entry = entry_key(&STAKER, &hash);
    attribute(&mut l, [4u8; 32], &entry, 50).unwrap();
    let ctx = ClaimRewards { staker: signer(STAKER), knowledge_entry: entry };
    assert_eq!(l.process_claim_rewards(&ctx), Ok(5_000_000));
    assert_eq!(l.entry(&entry).unwrap().pending_rewards, 0);
    assert_eq!(l.process_claim_rewards(&ctx), Err(SolSageError::NoRewardsToClaim));
}

#[test]
fn claim_by_other_fails() {
    let mut l = initialized();
    let hash = [9u8; 32];
    stake(&mut l, STAKER, hash).unwrap();
    let entry = entry_key(&STAKER, &hash);
    let ctx = ClaimRewards { staker: signer(OTHER), knowledge_entry: entry };
    assert_eq!(l.process_claim_rewards(&ctx), Err(SolSageError::NotKnowledgeOwner));
    attribute(&mut l, [4u8; 32], &entry, 80).unwrap();
    assert_eq!(l.process_claim_rewards(&ctx), Err(SolSageError::NotKnowledgeOwner));
    assert_eq!(l.entry(&entry).unwrap().pending_rewards, 8_000_000);
}

#[test]
fn claim_checks_signature_and_entry() {
    let mut l = initialized();
    let hash = [9u8; 32];
    stake(&mut l, STAKER, hash).unwrap();
    let entry = entry_key(&STAKER, &hash);
    let ctx = ClaimRewards { staker: AccountRef { key: STAKER, is_signer: false }, knowledge_entry: entry };
    assert_eq!(l.process_claim_rewards(&ctx), Err(SolSageError::MissingSignature));
    let ctx = ClaimRewards { staker: signer(STAKER), knowledge_entry: [6u8; 32] };
    assert_eq!(l.process_claim_rewards(&ctx), Err(SolSageError::AccountNotFound));
}

#[test]
fn counters_follow_interleaved_operations() {
    let mut l = initialized();
    let h1 = [9u8; 32];
    let h2 = [8u8; 32];
    stake(&mut l, STAKER, h1).unwrap();
    let e1 = entry_key(&STAKER, &h1);
    attribute(&mut l, [1u8; 32], &e1, 10).unwrap();
    assert_eq!(stake(&mut l, STAKER, h1), Err(SolSageError::AlreadyInitialized));
    stake(&mut l, OTHER, h2).unwrap();
    let e2 = entry_key(&OTHER, &h2);
    attribute(&mut l, [1u8; 32], &e2, 20).unwrap();
    assert_eq!(attribute(&mut l, [1u8; 32], &e1, 30), Err(SolSageError::AlreadyInitialized));
    attribute(&mut l, [2u8; 32], &e1, 30).unwrap();
    l.process_claim_rewards(&ClaimRewards { staker: signer(STAKER), knowledge_entry: e1 }).unwrap();
    let p = l.protocol().unwrap();
    assert_eq!(p.total_knowledge_entries, 2);
    assert_eq!(p.total_attributions, 3);
    assert_eq!(l.entry(&e1).unwrap().total_attributions, 2);
    assert_eq!(l.entry(&e2).unwrap().total_attributions, 1);
}

#[test]
fn instructions_dispatch_with_accounts_in_order() {
    let mut l = Ledger::new(PROGRAM);
    let reg = AccountRef { key: registry_key(), is_signer: false };
    let r = l.process_instruction(&vec![signer(AUTHORITY)], SolSageInstruction::Initialize, 0);
    assert_eq!(r, Err(SolSageError::NotEnoughAccountKeys));
    let r = l.process_instruction(&vec![signer(AUTHORITY), reg], SolSageInstruction::Initialize, 0);
    assert_eq!(r, Ok(Effect::Initialized));
    let hash = [9u8; 32];
    let entry = AccountRef { key: entry_key(&STAKER, &hash), is_signer: false };
    let stake = SolSageInstruction::StakeKnowledge {
        content_hash: hash,
        title: "t".to_string(),
        category: "c".to_string(),
    };
    assert_eq!(l.process_instruction(&vec![signer(STAKER), reg, entry], stake, 3), Ok(Effect::Staked));
    let query = [4u8; 32];
    let att = AccountRef { key: attribution_key(&query, &entry.key), is_signer: false };
    let record = SolSageInstruction::RecordAttribution { query_hash: query, relevance_score: 100 };
    assert_eq!(
        l.process_instruction(&vec![signer(OTHER), reg, entry], record.clone(), 4),
        Err(SolSageError::NotEnoughAccountKeys)
    );
    assert_eq!(
        l.process_instruction(&vec![signer(OTHER), reg, entry, att], record, 4),
        Ok(Effect::Attributed(10_000_000))
    );
    assert_eq!(
        l.process_instruction(&vec![signer(STAKER), entry], SolSageInstruction::ClaimRewards, 5),
        Ok(Effect::Claimed(10_000_000))
    );
}

#[test]
fn unsigned_claim_on_missing_entry_fails_for_signature() {
    let mut l = initialized();
    let ctx = ClaimRewards { staker: AccountRef { key: STAKER, is_signer: false }, knowledge_entry: [6u8; 32] };
    assert_eq!(l.process_claim_rewards(&ctx), Err(SolSageError::MissingSignature));
}

#[test]
fn record_level_calls_keep_counts() {
    let mut p = initialize(&PROGRAM, &Initialize { authority: signer(AUTHORITY), protocol: registry_key() }).unwrap();
    let hash = [9u8; 32];
    let mut e = stake_knowledge(&PROGRAM, &stake_ctx(STAKER, &hash), &mut p, hash, "t".to_string(), "c".to_string(), 1).unwrap();
    let entry = entry_key(&STAKER, &hash);
    let claim = ClaimRewards { staker: signer(STAKER), knowledge_entry: entry };
    let (_, r1) = record_attribution(&PROGRAM, &attribution_ctx(OTHER, &[1u8; 32], &entry), &mut p, &mut e, [1u8; 32], 30, 2).unwrap();
    assert_eq!(r1, 3_000_000);
    assert_eq!(claim_rewards(&claim, &mut e), Ok(3_000_000));
    let bad = record_attribution(&PROGRAM, &attribution_ctx(OTHER, &[2u8; 32], &entry), &mut p, &mut e, [2u8; 32], 101, 3);
    assert_eq!(bad, Err(SolSageError::InvalidRelevanceScore));
    record_attribution(&PROGRAM, &attribution_ctx(OTHER, &[3u8; 32], &entry), &mut p, &mut e, [3u8; 32], 15, 4).unwrap();
    record_attribution(&PROGRAM, &attribution_ctx(OTHER, &[4u8; 32], &entry), &mut p, &mut e, [4u8; 32], 9, 5).unwrap();
    assert_eq!(e.total_attributions, 3);
    assert_eq!(e.pending_rewards, 1_500_000 + 900_000);
    assert_eq!(p.total_attributions, 3);
    assert_eq!(p.total_knowledge_entries, 1);
}
