use vstd::prelude::*;

use crate::codec::Pubkey;

verus! {

/// The derived address and bump that the host finds for a seed sequence under a
/// program identity, or nothing where no bump gives an address off the curve.
pub uninterp spec fn program_address_of(seeds: Seq<Seq<u8>>, program_id: Seq<u8>) -> Option<
    (Seq<u8>, u8),
>;

/// The view of a derivation result.
pub open spec fn derived_view(r: Option<(Pubkey, u8)>) -> Option<(Seq<u8>, u8)> {
    match r {
        Some((a, b)) => Some((a@, b)),
        None => None,
    }
}

/// Relies on pinocchio::pubkey::try_find_program_address: the address and bump that
/// the host derives from the seeds and the program identity, or `None`.
#[verifier::external_body]
fn try_find_program_address(seeds: &Vec<Vec<u8>>, program_id: &Pubkey) -> (r: Option<
    (Pubkey, u8),
>)
    ensures
        derived_view(r) == program_address_of(seeds.deep_view(), program_id@),
{
    let refs: Vec<&[u8]> = seeds.iter().map(|s| s.as_slice()).collect();
    pinocchio::pubkey::try_find_program_address(&refs, program_id)
}

/// Derives the address and bump of a program-owned record from its seeds.
pub fn derive_address(seeds: &Vec<Vec<u8>>, program_id: &Pubkey) -> (r: Option<(Pubkey, u8)>)
    ensures
        derived_view(r) == program_address_of(seeds.deep_view(), program_id@),
{
    try_find_program_address(seeds, program_id)
}

/// Derivation is a function of the seeds and the program identity: equal inputs
/// give the same address and bump, however often and by whom it is computed.
pub proof fn lemma_derivation_deterministic(
    seeds1: Seq<Seq<u8>>,
    program1: Seq<u8>,
    seeds2: Seq<Seq<u8>>,
    program2: Seq<u8>,
)
    requires
        seeds1 == seeds2,
        program1 == program2,
    ensures
        program_address_of(seeds1, program1) == program_address_of(seeds2, program2),
{
}

/// The signing seeds of a derived record: its seeds followed by its bump.
pub open spec fn signer_seeds_of(seeds: Seq<Seq<u8>>, bump: u8) -> Seq<Seq<u8>> {
    seeds.push(seq![bump])
}

/// Copies a seed sequence, in order, each seed as it came.
pub fn get_seeds(seeds: &Vec<Vec<u8>>) -> (r: Vec<Vec<u8>>)
    ensures
        r.deep_view() == seeds.deep_view(),
        r@.len() == seeds@.len(),
        forall|j: int| 0 <= j < r@.len() ==> (#[trigger] r@[j])@ == seeds@[j]@,
{
    let mut r: Vec<Vec<u8>> = Vec::new();
    let mut i: usize = 0;
    while i < seeds.len()
        invariant
            i <= seeds@.len(),
            r@.len() == i,
            forall|j: int| 0 <= j < i ==> (#[trigger] r@[j])@ == seeds@[j]@,
        decreases seeds@.len() - i,
    {
        let s = seeds[i].clone();
        r.push(s);
        i = i + 1;
    }
    assert forall|j: int| 0 <= j < r@.len() implies r.deep_view()[j] == seeds.deep_view()[j] by {
        assert(r@[j]@ == seeds@[j]@);
    }
    assert(r.deep_view() =~= seeds.deep_view());
    r
}

/// Builds the signing seeds of a derived record: its seeds followed by its bump.
pub fn signer_seeds(seeds: &Vec<Vec<u8>>, bump: u8) -> (r: Vec<Vec<u8>>)
    ensures
        r.deep_view() == signer_seeds_of(seeds.deep_view(), bump),
{
    let mut r = get_seeds(seeds);
    let mut b: Vec<u8> = Vec::new();
    b.push(bump);
    assert(b@ =~= seq![bump]);
    let ghost before = r@;
    r.push(b);
    assert forall|j: int| 0 <= j < r@.len() implies r.deep_view()[j] == signer_seeds_of(
        seeds.deep_view(),
        bump,
    )[j] by {
        if j < seeds@.len() {
            assert(r@[j] == before[j]);
        }
    }
    assert(r.deep_view() =~= signer_seeds_of(seeds.deep_view(), bump));
    r
}

} // verus!
