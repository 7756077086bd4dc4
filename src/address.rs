//! Derived addresses: where each kind of record is stored.
use solana_program::pubkey::Pubkey;
use vstd::prelude::*;

verus! {

/// A 32-byte account address (a public key or a program-derived address).
pub type Address = [u8; 32];

/// The address and bump seed that `Pubkey::try_find_program_address` finds for
/// `seeds` under `program_id`, or `None` when it finds none.
pub uninterp spec fn program_address(seeds: Seq<Seq<u8>>, program_id: Seq<u8>) -> Option<
    (Seq<u8>, u8),
>;

/// The view of a derived address and its bump seed.
pub open spec fn derived_view(r: Option<(Address, u8)>) -> Option<(Seq<u8>, u8)> {
    match r {
        Some((a, bump)) => Some((a@, bump)),
        None => None,
    }
}

/// Relies on `Pubkey::try_find_program_address` of solana_program: the
/// address and bump it finds depend on the seeds and the program id alone.
#[verifier::external_body]
fn try_find_program_address(seeds: &Vec<Vec<u8>>, program_id: &Address) -> (r: Option<
    (Address, u8),
>)
    ensures
        derived_view(r) == program_address(seeds.deep_view(), program_id@),
{
    let s: Vec<&[u8]> = seeds.iter().map(|v| v.as_slice()).collect();
    Pubkey::try_find_program_address(&s, &Pubkey::new_from_array(*program_id)).map(
        |(k, bump)| (k.to_bytes(), bump),
    )
}

/// The tag of the registry's address: the bytes of "protocol".
pub open spec fn protocol_tag() -> Seq<u8> {
    seq![112u8, 114, 111, 116, 111, 99, 111, 108]
}

/// The tag of a knowledge entry's address: the bytes of "knowledge".
pub open spec fn knowledge_tag() -> Seq<u8> {
    seq![107u8, 110, 111, 119, 108, 101, 100, 103, 101]
}

/// The tag of an attribution's address: the bytes of "attribution".
pub open spec fn attribution_tag() -> Seq<u8> {
    seq![97u8, 116, 116, 114, 105, 98, 117, 116, 105, 111, 110]
}

pub open spec fn protocol_seeds() -> Seq<Seq<u8>> {
    seq![protocol_tag()]
}

pub open spec fn knowledge_seeds(staker: Seq<u8>, content_hash: Seq<u8>) -> Seq<Seq<u8>> {
    seq![knowledge_tag(), staker, content_hash]
}

pub open spec fn attribution_seeds(query_hash: Seq<u8>, knowledge_entry: Seq<u8>) -> Seq<
    Seq<u8>,
> {
    seq![attribution_tag(), query_hash, knowledge_entry]
}

fn array_to_vec(a: &Address) -> (r: Vec<u8>)
    ensures
        r@ == a@,
        r.deep_view() == a@,
{
    let mut r: Vec<u8> = Vec::new();
    let mut i: usize = 0;
    while i < 32
        invariant
            i <= 32,
            r@ == a@.subrange(0, i as int),
        decreases 32 - i,
    {
        r.push(a[i]);
        i = i + 1;
    }
    assert(r@ =~= a@);
    assert(r.deep_view() =~= a@);
    r
}

/// Whether two addresses are the same.
pub fn same_address(a: &Address, b: &Address) -> (r: bool)
    ensures
        r == (a@ == b@),
{
    let mut i: usize = 0;
    while i < 32
        invariant
            i <= 32,
            forall|j: int| 0 <= j < i ==> a@[j] == b@[j],
        decreases 32 - i,
    {
        if a[i] != b[i] {
            return false;
        }
        i = i + 1;
    }
    assert(a@ =~= b@);
    true
}

/// The registry's address under `program_id`, with its bump seed.
pub fn protocol_address(program_id: &Address) -> (r: Option<(Address, u8)>)
    ensures
        derived_view(r) == program_address(protocol_seeds(), program_id@),
{
    let tag: Vec<u8> = vec![112u8, 114, 111, 116, 111, 99, 111, 108];
    assert(tag.deep_view() =~= protocol_tag());
    let mut seeds: Vec<Vec<u8>> = Vec::new();
    seeds.push(tag);
    assert(seeds.deep_view() =~= protocol_seeds());
    try_find_program_address(&seeds, program_id)
}

/// The address of the entry that `staker` stakes for `content_hash`, with its
/// bump seed.
pub fn knowledge_address(program_id: &Address, staker: &Address, content_hash: &[u8; 32]) -> (r:
    Option<(Address, u8)>)
    ensures
        derived_view(r) == program_address(knowledge_seeds(staker@, content_hash@), program_id@),
{
    let tag: Vec<u8> = vec![107u8, 110, 111, 119, 108, 101, 100, 103, 101];
    assert(tag.deep_view() =~= knowledge_tag());
    let mut seeds: Vec<Vec<u8>> = Vec::new();
    seeds.push(tag);
    seeds.push(array_to_vec(staker));
    seeds.push(array_to_vec(content_hash));
    assert(seeds.deep_view() =~= knowledge_seeds(staker@, content_hash@));
    try_find_program_address(&seeds, program_id)
}

/// The address of the attribution of `query_hash` to the entry at
/// `knowledge_entry`, with its bump seed.
pub fn attribution_address(program_id: &Address, query_hash: &[u8; 32], knowledge_entry: &Address) -> (r:
    Option<(Address, u8)>)
    ensures
        derived_view(r) == program_address(
            attribution_seeds(query_hash@, knowledge_entry@),
            program_id@,
        ),
{
    let tag: Vec<u8> = vec![97u8, 116, 116, 114, 105, 98, 117, 116, 105, 111, 110];
    assert(tag.deep_view() =~= attribution_tag());
    let mut seeds: Vec<Vec<u8>> = Vec::new();
    seeds.push(tag);
    seeds.push(array_to_vec(query_hash));
    seeds.push(array_to_vec(knowledge_entry));
    assert(seeds.deep_view() =~= attribution_seeds(query_hash@, knowledge_entry@));
    try_find_program_address(&seeds, program_id)
}

} // verus!
