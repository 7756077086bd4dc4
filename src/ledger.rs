//! The ledger: every record, stored at its derived address, and the four
//! operations applied to it as all-or-nothing steps.
use crate::address::{
    attribution_seeds, knowledge_seeds, program_address, protocol_seeds, same_address, Address,
};
use crate::processor::{
    accrue, accrue_spec, attribution_check_spec, check_attribution, check_stake, claim_rewards,
    claim_spec, count_entry, count_entry_spec, initialize, initialize_spec, new_attribution,
    new_entry, stake_check_spec,
};
use crate::state::{
    AccountRef, Attribution, ClaimRewards, Initialize, KnowledgeEntry, Protocol, RecordAttribution,
    SolSageError, SolSageInstruction, StakeKnowledge, REWARD_PER_ATTRIBUTION,
};
use crate::laws::{
    lemma_attribute_keeps_wf, lemma_claim_keeps_wf, lemma_initialize_keeps_wf, lemma_stake_keeps_wf,
};
use crate::store::{
    find, keys_distinct, lemma_map_of_contains, lemma_map_of_index,
    lemma_map_of_update, map_of,
};
use vstd::prelude::*;

verus! {

/// The ledger as maps from address to record.
pub struct LedgerView {
    pub program_id: Seq<u8>,
    /// The registry and its address, once created.
    pub protocol: Option<(Seq<u8>, Protocol)>,
    pub entries: Map<Seq<u8>, KnowledgeEntry>,
    pub attributions: Map<Seq<u8>, Attribution>,
}

impl LedgerView {
    /// Some record is stored at `a`.
    pub open spec fn in_use(self, a: Seq<u8>) -> bool {
        ||| (self.protocol matches Some((pa, _)) && pa == a)
        ||| self.entries.contains_key(a)
        ||| self.attributions.contains_key(a)
    }

    /// Each record stands at the address derived from its key under the
    /// ledger's program id; the registry's rate is the fixed one; and the
    /// registry's counters are the numbers of entries and of attributions
    /// stored, with none stored before the registry exists.
    pub open spec fn wf(self) -> bool {
        &&& self.entries.dom().finite()
        &&& self.attributions.dom().finite()
        &&& match self.protocol {
            Some((pa, p)) => {
                &&& program_address(protocol_seeds(), self.program_id) == Some((pa, p.bump))
                &&& p.reward_per_attribution == REWARD_PER_ATTRIBUTION
                &&& p.total_knowledge_entries == self.entries.dom().len()
                &&& p.total_attributions == self.attributions.dom().len()
            },
            None => self.entries.dom().len() == 0 && self.attributions.dom().len() == 0,
        }
        &&& forall|k: Seq<u8>| #[trigger]
            self.entries.contains_key(k) ==> program_address(
                knowledge_seeds(self.entries[k].staker@, self.entries[k].content_hash@),
                self.program_id,
            ) == Some((k, self.entries[k].bump))
        &&& forall|k: Seq<u8>| #[trigger]
            self.attributions.contains_key(k) ==> program_address(
                attribution_seeds(
                    self.attributions[k].query_hash@,
                    self.attributions[k].knowledge_entry@,
                ),
                self.program_id,
            ) == Some((k, self.attributions[k].bump))
    }
}

/// The ledger after Initialize.
pub open spec fn initialize_ledger(l: LedgerView, ctx: Initialize) -> Result<
    LedgerView,
    SolSageError,
> {
    match initialize_spec(l.program_id, ctx) {
        Err(e) => Err(e),
        Ok(p) => if l.in_use(ctx.protocol@) {
            Err(SolSageError::AlreadyInitialized)
        } else {
            Ok(LedgerView { protocol: Some((ctx.protocol@, p)), ..l })
        },
    }
}

/// The ledger after StakeKnowledge: the checks, then the entry's address
/// must be free, then the supplied registry must be the ledger's.
pub open spec fn stake_ledger(
    l: LedgerView,
    ctx: StakeKnowledge,
    content_hash: [u8; 32],
    title: String,
    category: String,
    now: i64,
) -> Result<LedgerView, SolSageError> {
    match stake_check_spec(l.program_id, ctx, content_hash@, title@, category@) {
        Err(e) => Err(e),
        Ok(bump) => if l.in_use(ctx.knowledge_entry@) {
            Err(SolSageError::AlreadyInitialized)
        } else {
            match l.protocol {
                None => Err(SolSageError::AccountNotFound),
                Some((pa, p)) => if pa != ctx.protocol@ {
                    Err(SolSageError::InvalidAddress)
                } else {
                    match count_entry_spec(p) {
                        Err(e) => Err(e),
                        Ok(counted) => Ok(
                            LedgerView {
                                protocol: Some((pa, counted)),
                                entries: l.entries.insert(
                                    ctx.knowledge_entry@,
                                    new_entry(ctx.staker.key, content_hash, title, category, now, bump),
                                ),
                                ..l
                            },
                        ),
                    }
                },
            }
        },
    }
}

/// The ledger after RecordAttribution, and the reward: the checks, then the
/// attribution's address must be free, the supplied registry must be the
/// ledger's, and an entry must be stored at the supplied entry address.
pub open spec fn attribute_ledger(
    l: LedgerView,
    ctx: RecordAttribution,
    query_hash: [u8; 32],
    relevance_score: u8,
    now: i64,
) -> Result<(LedgerView, u64), SolSageError> {
    match attribution_check_spec(l.program_id, ctx, query_hash@, relevance_score) {
        Err(e) => Err(e),
        Ok(bump) => if l.in_use(ctx.attribution@) {
            Err(SolSageError::AlreadyInitialized)
        } else {
            match l.protocol {
                None => Err(SolSageError::AccountNotFound),
                Some((pa, p)) => if pa != ctx.protocol@ {
                    Err(SolSageError::InvalidAddress)
                } else if !l.entries.contains_key(ctx.knowledge_entry@) {
                    Err(SolSageError::AccountNotFound)
                } else {
                    match accrue_spec(p, l.entries[ctx.knowledge_entry@], relevance_score) {
                        Err(e) => Err(e),
                        Ok((counted, accrued, reward)) => Ok(
                            (
                                LedgerView {
                                    protocol: Some((pa, counted)),
                                    entries: l.entries.insert(ctx.knowledge_entry@, accrued),
                                    attributions: l.attributions.insert(
                                        ctx.attribution@,
                                        new_attribution(
                                            ctx.knowledge_entry,
                                            query_hash,
                                            relevance_score,
                                            now,
                                            bump,
                                        ),
                                    ),
                                    ..l
                                },
                                reward,
                            ),
                        ),
                    }
                },
            }
        },
    }
}

/// The ledger after ClaimRewards, and the amount claimed: the staker must
/// sign, then an entry must be stored at the supplied address.
pub open spec fn claim_ledger(l: LedgerView, ctx: ClaimRewards) -> Result<
    (LedgerView, u64),
    SolSageError,
> {
    if !ctx.staker.is_signer {
        Err(SolSageError::MissingSignature)
    } else if !l.entries.contains_key(ctx.knowledge_entry@) {
        Err(SolSageError::AccountNotFound)
    } else {
        match claim_spec(ctx, l.entries[ctx.knowledge_entry@]) {
            Err(e) => Err(e),
            Ok((accrued, amount)) => Ok(
                (LedgerView { entries: l.entries.insert(ctx.knowledge_entry@, accrued), ..l }, amount),
            ),
        }
    }
}

/// The ledger of one program: the registry, the entries and the
/// attributions, each stored at its address.
pub struct Ledger {
    program_id: Address,
    protocol: Option<(Address, Protocol)>,
    entries: Vec<(Address, KnowledgeEntry)>,
    attributions: Vec<(Address, Attribution)>,
}

impl View for Ledger {
    type V = LedgerView;

    closed spec fn view(&self) -> LedgerView {
        LedgerView {
            program_id: self.program_id@,
            protocol: match self.protocol {
                Some((a, p)) => Some((a@, p)),
                None => None,
            },
            entries: map_of(self.entries@),
            attributions: map_of(self.attributions@),
        }
    }
}

impl Ledger {
    /// No address is stored twice, and the view is well formed.
    pub closed spec fn wf(&self) -> bool {
        &&& keys_distinct(self.entries@)
        &&& keys_distinct(self.attributions@)
        &&& self@.wf()
    }

    pub proof fn lemma_wf_view(&self)
        requires
            self.wf(),
        ensures
            self@.wf(),
    {
    }

    /// An empty ledger for the program `program_id`.
    pub fn new(program_id: Address) -> (r: Ledger)
        ensures
            r.wf(),
            r@.program_id == program_id@,
            r@.protocol is None,
            r@.entries == Map::<Seq<u8>, KnowledgeEntry>::empty(),
            r@.attributions == Map::<Seq<u8>, Attribution>::empty(),
    {
        let r = Ledger {
            program_id,
            protocol: None,
            entries: Vec::new(),
            attributions: Vec::new(),
        };
        assert(r@.entries.dom() =~= Set::<Seq<u8>>::empty());
        assert(r@.attributions.dom() =~= Set::<Seq<u8>>::empty());
        r
    }

    pub fn program_id(&self) -> (r: Address)
        ensures
            r@ == self@.program_id,
    {
        self.program_id
    }

    /// The registry, once created.
    pub fn protocol(&self) -> (r: Option<Protocol>)
        ensures
            match self@.protocol {
                Some((_, p)) => r == Some(p),
                None => r is None,
            },
    {
        match self.protocol {
            Some((_, p)) => Some(p),
            None => None,
        }
    }

    /// The registry's address, once created.
    pub fn protocol_key(&self) -> (r: Option<Address>)
        ensures
            match self@.protocol {
                Some((a, _)) => r matches Some(k) && k@ == a,
                None => r is None,
            },
    {
        match self.protocol {
            Some((a, _)) => Some(a),
            None => None,
        }
    }

    /// The entry stored at `key`, if any.
    pub fn entry(&self, key: &Address) -> (r: Option<&KnowledgeEntry>)
        requires
            self.wf(),
        ensures
            match r {
                Some(e) => self@.entries.contains_key(key@) && *e == self@.entries[key@],
                None => !self@.entries.contains_key(key@),
            },
    {
        proof {
            lemma_map_of_contains(self.entries@, key@);
        }
        match find(&self.entries, key) {
            Some(i) => {
                proof {
                    lemma_map_of_index(self.entries@, i as int);
                }
                Some(&self.entries[i].1)
            },
            None => None,
        }
    }

    /// The attribution stored at `key`, if any.
    pub fn attribution(&self, key: &Address) -> (r: Option<Attribution>)
        requires
            self.wf(),
        ensures
            match r {
                Some(a) => self@.attributions.contains_key(key@) && a == self@.attributions[key@],
                None => !self@.attributions.contains_key(key@),
            },
    {
        proof {
            lemma_map_of_contains(self.attributions@, key@);
        }
        match find(&self.attributions, key) {
            Some(i) => {
                proof {
                    lemma_map_of_index(self.attributions@, i as int);
                }
                Some(self.attributions[i].1)
            },
            None => None,
        }
    }

    /// Whether some record is stored at `key`.
    pub fn in_use(&self, key: &Address) -> (r: bool)
        ensures
            r == self@.in_use(key@),
    {
        proof {
            lemma_map_of_contains(self.entries@, key@);
            lemma_map_of_contains(self.attributions@, key@);
        }
        let in_protocol = match &self.protocol {
            Some((a, _)) => same_address(a, key),
            None => false,
        };
        if in_protocol {
            return true;
        }
        match find(&self.entries, key) {
            Some(_) => return true,
            None => {},
        }
        match find(&self.attributions, key) {
            Some(_) => true,
            None => false,
        }
    }

    /// Initialize: creates the registry at its derived address.
    pub fn process_initialize(&mut self, ctx: &Initialize) -> (r: Result<(), SolSageError>)
        requires
            old(self).wf(),
        ensures
            final(self).wf(),
            match initialize_ledger(old(self)@, *ctx) {
                Ok(l2) => r is Ok && final(self)@ == l2,
                Err(e) => r == Err::<(), SolSageError>(e) && final(self)@ == old(self)@,
            },
    {
        let p = match initialize(&self.program_id, ctx) {
            Ok(p) => p,
            Err(e) => return Err(e),
        };
        if self.in_use(&ctx.protocol) {
            return Err(SolSageError::AlreadyInitialized);
        }
        proof {
            lemma_initialize_keeps_wf(self@, *ctx);
        }
        self.protocol = Some((ctx.protocol, p));
        Ok(())
    }

    /// StakeKnowledge: creates the entry of the staker and the content hash
    /// at its derived address, and counts it in the registry.
    pub fn process_stake_knowledge(
        &mut self,
        ctx: &StakeKnowledge,
        content_hash: [u8; 32],
        title: String,
        category: String,
        now: i64,
    ) -> (r: Result<(), SolSageError>)
        requires
            old(self).wf(),
        ensures
            final(self).wf(),
            match stake_ledger(old(self)@, *ctx, content_hash, title, category, now) {
                Ok(l2) => r is Ok && final(self)@ == l2,
                Err(e) => r == Err::<(), SolSageError>(e) && final(self)@ == old(self)@,
            },
    {
        let bump = match check_stake(&self.program_id, ctx, &content_hash, &title, &category) {
            Ok(b) => b,
            Err(e) => return Err(e),
        };
        if self.in_use(&ctx.knowledge_entry) {
            return Err(SolSageError::AlreadyInitialized);
        }
        let (pa, mut p) = match self.protocol {
            Some((pa, p)) => (pa, p),
            None => return Err(SolSageError::AccountNotFound),
        };
        if !same_address(&pa, &ctx.protocol) {
            return Err(SolSageError::InvalidAddress);
        }
        match count_entry(&mut p) {
            Ok(()) => {},
            Err(e) => return Err(e),
        }
        proof {
            lemma_stake_keeps_wf(self@, *ctx, content_hash, title, category, now);
            lemma_map_of_contains(self.entries@, ctx.knowledge_entry@);
        }
        let ghost old_entries = self.entries@;
        let entry = KnowledgeEntry {
            is_initialized: true,
            staker: ctx.staker.key,
            content_hash,
            title,
            category,
            created_at: now,
            total_attributions: 0,
            pending_rewards: 0,
            is_active: true,
            bump,
        };
        self.protocol = Some((pa, p));
        self.entries.push((ctx.knowledge_entry, entry));
        proof {
            assert(self.entries@.drop_last() =~= old_entries);
            assert forall|j: int| 0 <= j < old_entries.len() implies #[trigger] old_entries[j].0@
                != ctx.knowledge_entry@ by {}
            assert(keys_distinct(self.entries@)) by {
                assert forall|a: int, b: int|
                    0 <= a < self.entries@.len() && 0 <= b < self.entries@.len() && a
                        != b implies #[trigger] self.entries@[a].0@
                    != #[trigger] self.entries@[b].0@ by {
                    if a < old_entries.len() {
                        assert(self.entries@[a] == old_entries[a]);
                    }
                    if b < old_entries.len() {
                        assert(self.entries@[b] == old_entries[b]);
                    }
                }
            }
        }
        Ok(())
    }

    /// RecordAttribution: creates the attribution of the query to the entry
    /// at its derived address, accrues the reward to the entry, and counts
    /// the attribution in the entry and the registry. Gives the reward.
    pub fn process_record_attribution(
        &mut self,
        ctx: &RecordAttribution,
        query_hash: [u8; 32],
        relevance_score: u8,
        now: i64,
    ) -> (r: Result<u64, SolSageError>)
        requires
            old(self).wf(),
        ensures
            final(self).wf(),
            match attribute_ledger(old(self)@, *ctx, query_hash, relevance_score, now) {
                Ok((l2, reward)) => r == Ok::<u64, SolSageError>(reward) && final(self)@ == l2,
                Err(e) => r == Err::<u64, SolSageError>(e) && final(self)@ == old(self)@,
            },
    {
        let bump = match check_attribution(&self.program_id, ctx, &query_hash, relevance_score) {
            Ok(b) => b,
            Err(e) => return Err(e),
        };
        if self.in_use(&ctx.attribution) {
            return Err(SolSageError::AlreadyInitialized);
        }
        let (pa, mut p) = match self.protocol {
            Some((pa, p)) => (pa, p),
            None => return Err(SolSageError::AccountNotFound),
        };
        if !same_address(&pa, &ctx.protocol) {
            return Err(SolSageError::InvalidAddress);
        }
        proof {
            lemma_map_of_contains(self.entries@, ctx.knowledge_entry@);
            lemma_map_of_contains(self.attributions@, ctx.attribution@);
        }
        let i = match find(&self.entries, &ctx.knowledge_entry) {
            Some(i) => i,
            None => return Err(SolSageError::AccountNotFound),
        };
        proof {
            lemma_map_of_index(self.entries@, i as int);
            lemma_attribute_keeps_wf(self@, *ctx, query_hash, relevance_score, now);
        }
        let ghost old_entries = self.entries@;
        let (key, mut entry) = self.entries.remove(i);
        let reward = match accrue(&mut p, &mut entry, relevance_score) {
            Ok(v) => v,
            Err(e) => {
                self.entries.insert(i, (key, entry));
                assert(self.entries@ =~= old_entries);
                return Err(e);
            },
        };
        self.entries.insert(i, (key, entry));
        proof {
            assert(self.entries@ =~= old_entries.update(i as int, (key, entry)));
            lemma_map_of_update(old_entries, i as int, entry);
        }
        self.protocol = Some((pa, p));
        let ghost old_attributions = self.attributions@;
        let attribution = Attribution {
            is_initialized: true,
            knowledge_entry: ctx.knowledge_entry,
            query_hash,
            relevance_score,
            timestamp: now,
            reward_claimed: false,
            bump,
        };
        self.attributions.push((ctx.attribution, attribution));
        proof {
            assert(self.attributions@.drop_last() =~= old_attributions);
            assert forall|j: int| 0 <= j < old_attributions.len() implies
                #[trigger] old_attributions[j].0@ != ctx.attribution@ by {}
            assert(keys_distinct(self.attributions@)) by {
                assert forall|a: int, b: int|
                    0 <= a < self.attributions@.len() && 0 <= b < self.attributions@.len() && a
                        != b implies #[trigger] self.attributions@[a].0@
                    != #[trigger] self.attributions@[b].0@ by {
                    if a < old_attributions.len() {
                        assert(self.attributions@[a] == old_attributions[a]);
                    }
                    if b < old_attributions.len() {
                        assert(self.attributions@[b] == old_attributions[b]);
                    }
                }
            }
        }
        Ok(reward)
    }

    /// ClaimRewards: empties the entry's pending rewards and gives the
    /// amount claimed.
    pub fn process_claim_rewards(&mut self, ctx: &ClaimRewards) -> (r: Result<u64, SolSageError>)
        requires
            old(self).wf(),
        ensures
            final(self).wf(),
            match claim_ledger(old(self)@, *ctx) {
                Ok((l2, amount)) => r == Ok::<u64, SolSageError>(amount) && final(self)@ == l2,
                Err(e) => r == Err::<u64, SolSageError>(e) && final(self)@ == old(self)@,
            },
    {
        if !ctx.staker.is_signer {
            return Err(SolSageError::MissingSignature);
        }
        proof {
            lemma_map_of_contains(self.entries@, ctx.knowledge_entry@);
        }
        let i = match find(&self.entries, &ctx.knowledge_entry) {
            Some(i) => i,
            None => return Err(SolSageError::AccountNotFound),
        };
        proof {
            lemma_map_of_index(self.entries@, i as int);
            lemma_claim_keeps_wf(self@, *ctx);
        }
        let ghost old_entries = self.entries@;
        let (key, mut entry) = self.entries.remove(i);
        let amount = match claim_rewards(ctx, &mut entry) {
            Ok(v) => v,
            Err(e) => {
                self.entries.insert(i, (key, entry));
                assert(self.entries@ =~= old_entries);
                return Err(e);
            },
        };
        self.entries.insert(i, (key, entry));
        proof {
            assert(self.entries@ =~= old_entries.update(i as int, (key, entry)));
            lemma_map_of_update(old_entries, i as int, entry);
        }
        Ok(amount)
    }

    /// Applies one instruction to the ledger, with the accounts in the order
    /// the instruction reads them: Initialize reads the authority and the
    /// registry; StakeKnowledge the staker, the registry and the entry;
    /// RecordAttribution the payer, the registry, the entry and the
    /// attribution; ClaimRewards the staker and the entry.
    pub fn process_instruction(
        &mut self,
        accounts: &Vec<AccountRef>,
        instruction: SolSageInstruction,
        now: i64,
    ) -> (r: Result<Effect, SolSageError>)
        requires
            old(self).wf(),
        ensures
            final(self).wf(),
            match process_spec(old(self)@, accounts@, instruction, now) {
                Ok((l2, effect)) => r == Ok::<Effect, SolSageError>(effect) && final(self)@ == l2,
                Err(e) => r == Err::<Effect, SolSageError>(e) && final(self)@ == old(self)@,
            },
    {
        match instruction {
            SolSageInstruction::Initialize => {
                if accounts.len() < 2 {
                    return Err(SolSageError::NotEnoughAccountKeys);
                }
                let ctx = Initialize { authority: accounts[0], protocol: accounts[1].key };
                match self.process_initialize(&ctx) {
                    Ok(()) => Ok(Effect::Initialized),
                    Err(e) => Err(e),
                }
            },
            SolSageInstruction::StakeKnowledge { content_hash, title, category } => {
                if accounts.len() < 3 {
                    return Err(SolSageError::NotEnoughAccountKeys);
                }
                let ctx = StakeKnowledge {
                    staker: accounts[0],
                    protocol: accounts[1].key,
                    knowledge_entry: accounts[2].key,
                };
                match self.process_stake_knowledge(&ctx, content_hash, title, category, now) {
                    Ok(()) => Ok(Effect::Staked),
                    Err(e) => Err(e),
                }
            },
            SolSageInstruction::RecordAttribution { query_hash, relevance_score } => {
                if accounts.len() < 4 {
                    return Err(SolSageError::NotEnoughAccountKeys);
                }
                let ctx = RecordAttribution {
                    payer: accounts[0],
                    protocol: accounts[1].key,
                    knowledge_entry: accounts[2].key,
                    attribution: accounts[3].key,
                };
                match self.process_record_attribution(&ctx, query_hash, relevance_score, now) {
                    Ok(reward) => Ok(Effect::Attributed(reward)),
                    Err(e) => Err(e),
                }
            },
            SolSageInstruction::ClaimRewards => {
                if accounts.len() < 2 {
                    return Err(SolSageError::NotEnoughAccountKeys);
                }
                let ctx = ClaimRewards { staker: accounts[0], knowledge_entry: accounts[1].key };
                match self.process_claim_rewards(&ctx) {
                    Ok(amount) => Ok(Effect::Claimed(amount)),
                    Err(e) => Err(e),
                }
            },
        }
    }
}

/// What a successful instruction did: for an attribution the reward it
/// accrued, for a claim the amount claimed.
#[derive(Clone, Copy, Debug, PartialEq, Eq, Structural)]
pub enum Effect {
    Initialized,
    Staked,
    Attributed(u64),
    Claimed(u64),
}

/// The ledger and the effect after one instruction with its accounts.
pub open spec fn process_spec(
    l: LedgerView,
    accounts: Seq<AccountRef>,
    instruction: SolSageInstruction,
    now: i64,
) -> Result<(LedgerView, Effect), SolSageError> {
    match instruction {
        SolSageInstruction::Initialize => if accounts.len() < 2 {
            Err(SolSageError::NotEnoughAccountKeys)
        } else {
            match initialize_ledger(
                l,
                Initialize { authority: accounts[0], protocol: accounts[1].key },
            ) {
                Ok(l2) => Ok((l2, Effect::Initialized)),
                Err(e) => Err(e),
            }
        },
        SolSageInstruction::StakeKnowledge { content_hash, title, category } => if accounts.len()
            < 3 {
            Err(SolSageError::NotEnoughAccountKeys)
        } else {
            match stake_ledger(
                l,
                StakeKnowledge {
                    staker: accounts[0],
                    protocol: accounts[1].key,
                    knowledge_entry: accounts[2].key,
                },
                content_hash,
                title,
                category,
                now,
            ) {
                Ok(l2) => Ok((l2, Effect::Staked)),
                Err(e) => Err(e),
            }
        },
        SolSageInstruction::RecordAttribution { query_hash, relevance_score } => if accounts.len()
            < 4 {
            Err(SolSageError::NotEnoughAccountKeys)
        } else {
            match attribute_ledger(
                l,
                RecordAttribution {
                    payer: accounts[0],
                    protocol: accounts[1].key,
                    knowledge_entry: accounts[2].key,
                    attribution: accounts[3].key,
                },
                query_hash,
                relevance_score,
                now,
            ) {
                Ok((l2, reward)) => Ok((l2, Effect::Attributed(reward))),
                Err(e) => Err(e),
            }
        },
        SolSageInstruction::ClaimRewards => if accounts.len() < 2 {
            Err(SolSageError::NotEnoughAccountKeys)
        } else {
            match claim_ledger(
                l,
                ClaimRewards { staker: accounts[0], knowledge_entry: accounts[1].key },
            ) {
                Ok((l2, amount)) => Ok((l2, Effect::Claimed(amount))),
                Err(e) => Err(e),
            }
        },
    }
}

} // verus!
