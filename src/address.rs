//! Deterministic addresses: every record lives at an address derived from
//! seed material and the owning program's address.

use vstd::prelude::*;
use vstd::string::StringSliceAdditionalSpecFns;
use anchor_lang::solana_program::pubkey::Pubkey;

verus! {

/// A 32-byte account address.
#[derive(Clone, Copy, Debug)]
pub struct Address {
    pub bytes: [u8; 32],
}

impl View for Address {
    type V = Seq<u8>;

    open spec fn view(&self) -> Seq<u8> {
        self.bytes@
    }
}

impl Address {
    pub fn new(bytes: [u8; 32]) -> (r: Address)
        ensures
            r@ == bytes@,
    {
        Address { bytes }
    }

    pub fn to_vec(&self) -> (r: Vec<u8>)
        ensures
            r@ == self@,
    {
        vstd::slice::slice_to_vec(self.bytes.as_slice())
    }

    /// Byte-wise equality of two addresses.
    pub fn same(&self, other: &Address) -> (r: bool)
        ensures
            r == (self@ == other@),
    {
        let mut i: usize = 0;
        while i < 32
            invariant
                0 <= i <= 32,
                self@.len() == 32,
                other@.len() == 32,
                forall|j: int| 0 <= j < i ==> self@[j] == other@[j],
            decreases 32 - i,
        {
            if self.bytes[i] != other.bytes[i] {
                return false;
            }
            i = i + 1;
        }
        assert(self@ =~= other@);
        true
    }
}

/// The little-endian bytes of a 64-bit integer.
pub open spec fn le_bytes(n: u64) -> Seq<u8> {
    seq![
        ((n >> 0u64) & 0xff) as u8,
        ((n >> 8u64) & 0xff) as u8,
        ((n >> 16u64) & 0xff) as u8,
        ((n >> 24u64) & 0xff) as u8,
        ((n >> 32u64) & 0xff) as u8,
        ((n >> 40u64) & 0xff) as u8,
        ((n >> 48u64) & 0xff) as u8,
        ((n >> 56u64) & 0xff) as u8,
    ]
}

pub fn le_bytes_of(n: u64) -> (r: Vec<u8>)
    ensures
        r@ == le_bytes(n),
{
    let v: Vec<u8> = vec![
        ((n >> 0u64) & 0xff) as u8,
        ((n >> 8u64) & 0xff) as u8,
        ((n >> 16u64) & 0xff) as u8,
        ((n >> 24u64) & 0xff) as u8,
        ((n >> 32u64) & 0xff) as u8,
        ((n >> 40u64) & 0xff) as u8,
        ((n >> 48u64) & 0xff) as u8,
        ((n >> 56u64) & 0xff) as u8,
    ];
    assert(v@ =~= le_bytes(n));
    v
}

/// Two integers with the same little-endian bytes are equal.
pub proof fn lemma_le_bytes_injective(a: u64, b: u64)
    requires
        le_bytes(a) == le_bytes(b),
    ensures
        a == b,
{
    assert(le_bytes(a)[0] == le_bytes(b)[0]);
    assert(le_bytes(a)[1] == le_bytes(b)[1]);
    assert(le_bytes(a)[2] == le_bytes(b)[2]);
    assert(le_bytes(a)[3] == le_bytes(b)[3]);
    assert(le_bytes(a)[4] == le_bytes(b)[4]);
    assert(le_bytes(a)[5] == le_bytes(b)[5]);
    assert(le_bytes(a)[6] == le_bytes(b)[6]);
    assert(le_bytes(a)[7] == le_bytes(b)[7]);
    assert(a == b) by (bit_vector)
        requires
            ((a >> 0u64) & 0xff) as u8 == ((b >> 0u64) & 0xff) as u8,
            ((a >> 8u64) & 0xff) as u8 == ((b >> 8u64) & 0xff) as u8,
            ((a >> 16u64) & 0xff) as u8 == ((b >> 16u64) & 0xff) as u8,
            ((a >> 24u64) & 0xff) as u8 == ((b >> 24u64) & 0xff) as u8,
            ((a >> 32u64) & 0xff) as u8 == ((b >> 32u64) & 0xff) as u8,
            ((a >> 40u64) & 0xff) as u8 == ((b >> 40u64) & 0xff) as u8,
            ((a >> 48u64) & 0xff) as u8 == ((b >> 48u64) & 0xff) as u8,
            ((a >> 56u64) & 0xff) as u8 == ((b >> 56u64) & 0xff) as u8,
    ;
}

/// The byte sequences of a list of seeds.
pub open spec fn seeds_view(seeds: Seq<Vec<u8>>) -> Seq<Seq<u8>> {
    seeds.map_values(|s: Vec<u8>| s@)
}

/// What the runtime's program-address search returns for the given seeds
/// under the given program: the first address, trying bump seeds from 255
/// down, that lies off the ed25519 curve, together with that bump.
pub uninterp spec fn program_address(seeds: Seq<Seq<u8>>, program: Seq<u8>) -> Option<(Seq<u8>, u8)>;

/// The seed limits of the program-address search: fewer than 16 seeds (one
/// more is taken by the bump), each at most 32 bytes.
pub open spec fn seeds_within_limits(seeds: Seq<Seq<u8>>) -> bool {
    &&& seeds.len() < 16
    &&& forall|i: int| 0 <= i < seeds.len() ==> seeds[i].len() <= 32
}

/// The address part of a program-address search, if one was found.
pub open spec fn derived_address(seeds: Seq<Seq<u8>>, program: Seq<u8>) -> Option<Seq<u8>> {
    match program_address(seeds, program) {
        Some((a, _)) => Some(a),
        None => None,
    }
}

pub open spec fn address_view(a: Option<Address>) -> Option<Seq<u8>> {
    match a {
        Some(x) => Some(x@),
        None => None,
    }
}

/// Relies on `Pubkey::try_find_program_address` (solana-program): a function
/// of the seeds and program id alone, which returns `None` when there are 16
/// seeds or more, or a seed longer than 32 bytes.
#[verifier::external_body]
fn try_find_program_address(seeds: &Vec<Vec<u8>>, program: &Address) -> (r: Option<(Address, u8)>)
    ensures
        match r {
            Some((a, bump)) => program_address(seeds_view(seeds@), program@) == Some((a@, bump)),
            None => program_address(seeds_view(seeds@), program@) is None,
        },
        !seeds_within_limits(seeds_view(seeds@)) ==> r is None,
{
    let slices: Vec<&[u8]> = seeds.iter().map(|s| s.as_slice()).collect();
    let program_id = Pubkey::new_from_array(program.bytes);
    Pubkey::try_find_program_address(&slices, &program_id).map(
        |(key, bump)| (Address { bytes: key.to_bytes() }, bump),
    )
}

/// Derives the address of a record from its seeds; `None` when the seeds are
/// out of limits or no bump seed gives an address off the curve.
pub fn derive_address(program: &Address, seeds: &Vec<Vec<u8>>) -> (r: Option<Address>)
    ensures
        address_view(r) == derived_address(seeds_view(seeds@), program@),
{
    match try_find_program_address(seeds, program) {
        Some((a, _bump)) => Some(a),
        None => None,
    }
}

/// A fixed text label used as a seed.
pub open spec fn label_seed(label: &str) -> Seq<u8> {
    label.spec_bytes()
}

pub fn label_seed_of(label: &str) -> (r: Vec<u8>)
    ensures
        r@ == label_seed(label),
{
    vstd::slice::slice_to_vec(label.as_bytes())
}

/// The bytes a program-address search hashes before the bump seed: the
/// seeds, one after another.
pub open spec fn seed_bytes(seeds: Seq<Seq<u8>>) -> Seq<u8> {
    seeds.flatten()
}

/// Seeds of an identity record: the owner's address.
pub open spec fn user_seeds(owner: Seq<u8>) -> Seq<Seq<u8>> {
    seq![owner]
}

/// Seeds of an ask: the owner's address and the ask's ordinal.
pub open spec fn ask_seeds(owner: Seq<u8>, ordinal: u64) -> Seq<Seq<u8>> {
    seq![owner, le_bytes(ordinal)]
}

/// Seeds of the global claims counter.
pub open spec fn claims_counter_seeds() -> Seq<Seq<u8>> {
    seq![label_seed("treasury_claims_ordinal")]
}

/// Seeds of the claims authority, the signer of every claim mint.
pub open spec fn claims_authority_seeds() -> Seq<Seq<u8>> {
    seq![label_seed("treasury_claims_authority")]
}

/// Seeds of the mint of the claim with the given ordinal.
pub open spec fn claim_mint_seeds(ordinal: u64) -> Seq<Seq<u8>> {
    seq![label_seed("treasury_claim_"), le_bytes(ordinal)]
}

/// Seeds of the record that describes the claim with the given ordinal.
pub open spec fn claim_record_seeds(ordinal: u64) -> Seq<Seq<u8>> {
    seq![label_seed("treasury_claim_record"), le_bytes(ordinal)]
}

/// Seeds of the fungible token mint.
pub open spec fn token_mint_seeds() -> Seq<Seq<u8>> {
    seq![label_seed("token_mint")]
}

/// Seeds of the fungible token's mint authority.
pub open spec fn token_authority_seeds() -> Seq<Seq<u8>> {
    seq![label_seed("token_authority")]
}

/// Seeds of the organization counter.
pub open spec fn global_seeds() -> Seq<Seq<u8>> {
    seq![label_seed("global")]
}

/// Seeds of the organization with the given ordinal.
pub open spec fn organization_seeds(ordinal: u64) -> Seq<Seq<u8>> {
    seq![label_seed("organization"), le_bytes(ordinal)]
}

/// Seeds of a membership of `member` in the organization with the given ordinal.
pub open spec fn membership_seeds(ordinal: u64, member: Seq<u8>) -> Seq<Seq<u8>> {
    seq![label_seed("member"), le_bytes(ordinal), member]
}

pub fn user_address(program: &Address, owner: &Address) -> (r: Option<Address>)
    ensures
        address_view(r) == derived_address(user_seeds(owner@), program@),
{
    let seeds: Vec<Vec<u8>> = vec![owner.to_vec()];
    assert(seeds_view(seeds@) =~= user_seeds(owner@));
    derive_address(program, &seeds)
}

pub fn ask_address(program: &Address, owner: &Address, ordinal: u64) -> (r: Option<Address>)
    ensures
        address_view(r) == derived_address(ask_seeds(owner@, ordinal), program@),
{
    let seeds: Vec<Vec<u8>> = vec![owner.to_vec(), le_bytes_of(ordinal)];
    assert(seeds_view(seeds@) =~= ask_seeds(owner@, ordinal));
    derive_address(program, &seeds)
}

pub fn claims_counter_address(program: &Address) -> (r: Option<Address>)
    ensures
        address_view(r) == derived_address(claims_counter_seeds(), program@),
{
    let seeds: Vec<Vec<u8>> = vec![label_seed_of("treasury_claims_ordinal")];
    assert(seeds_view(seeds@) =~= claims_counter_seeds());
    derive_address(program, &seeds)
}

pub fn claims_authority_address(program: &Address) -> (r: Option<Address>)
    ensures
        address_view(r) == derived_address(claims_authority_seeds(), program@),
{
    let seeds: Vec<Vec<u8>> = vec![label_seed_of("treasury_claims_authority")];
    assert(seeds_view(seeds@) =~= claims_authority_seeds());
    derive_address(program, &seeds)
}

pub fn claim_mint_address(program: &Address, ordinal: u64) -> (r: Option<Address>)
    ensures
        address_view(r) == derived_address(claim_mint_seeds(ordinal), program@),
{
    let seeds: Vec<Vec<u8>> = vec![label_seed_of("treasury_claim_"), le_bytes_of(ordinal)];
    assert(seeds_view(seeds@) =~= claim_mint_seeds(ordinal));
    derive_address(program, &seeds)
}

pub fn claim_record_address(program: &Address, ordinal: u64) -> (r: Option<Address>)
    ensures
        address_view(r) == derived_address(claim_record_seeds(ordinal), program@),
{
    let seeds: Vec<Vec<u8>> = vec![label_seed_of("treasury_claim_record"), le_bytes_of(ordinal)];
    assert(seeds_view(seeds@) =~= claim_record_seeds(ordinal));
    derive_address(program, &seeds)
}

pub fn token_mint_address(program: &Address) -> (r: Option<Address>)
    ensures
        address_view(r) == derived_address(token_mint_seeds(), program@),
{
    let seeds: Vec<Vec<u8>> = vec![label_seed_of("token_mint")];
    assert(seeds_view(seeds@) =~= token_mint_seeds());
    derive_address(program, &seeds)
}

pub fn token_authority_address(program: &Address) -> (r: Option<Address>)
    ensures
        address_view(r) == derived_address(token_authority_seeds(), program@),
{
    let seeds: Vec<Vec<u8>> = vec![label_seed_of("token_authority")];
    assert(seeds_view(seeds@) =~= token_authority_seeds());
    derive_address(program, &seeds)
}

pub fn global_address(program: &Address) -> (r: Option<Address>)
    ensures
        address_view(r) == derived_address(global_seeds(), program@),
{
    let seeds: Vec<Vec<u8>> = vec![label_seed_of("global")];
    assert(seeds_view(seeds@) =~= global_seeds());
    derive_address(program, &seeds)
}

pub fn organization_address(program: &Address, ordinal: u64) -> (r: Option<Address>)
    ensures
        address_view(r) == derived_address(organization_seeds(ordinal), program@),
{
    let seeds: Vec<Vec<u8>> = vec![label_seed_of("organization"), le_bytes_of(ordinal)];
    assert(seeds_view(seeds@) =~= organization_seeds(ordinal));
    derive_address(program, &seeds)
}

pub fn membership_address(program: &Address, ordinal: u64, member: &Address) -> (r: Option<Address>)
    ensures
        address_view(r) == derived_address(membership_seeds(ordinal, member@), program@),
{
    let seeds: Vec<Vec<u8>> = vec![label_seed_of("member"), le_bytes_of(ordinal), member.to_vec()];
    assert(seeds_view(seeds@) =~= membership_seeds(ordinal, member@));
    derive_address(program, &seeds)
}

/// Seeds of the token holding of `owner` for `mint`, derived under the
/// associated-token program.
pub open spec fn holding_seeds(owner: Seq<u8>, token_program: Seq<u8>, mint: Seq<u8>) -> Seq<Seq<u8>> {
    seq![owner, token_program, mint]
}

pub fn holding_address(associated_program: &Address, owner: &Address, token_program: &Address, mint: &Address) -> (r: Option<Address>)
    ensures
        address_view(r) == derived_address(holding_seeds(owner@, token_program@, mint@), associated_program@),
{
    let seeds: Vec<Vec<u8>> = vec![owner.to_vec(), token_program.to_vec(), mint.to_vec()];
    assert(seeds_view(seeds@) =~= holding_seeds(owner@, token_program@, mint@));
    derive_address(associated_program, &seeds)
}

} // verus!
