//! Deterministic storage-address derivation. The concrete primitive is the
//! host scheme's seeded, off-curve address search; everything this module
//! states of it is that it is a function of the seed list and the deriving
//! program's address alone, and that a derived address is 32 bytes. The three
//! seed shapes the catalog uses (product, counter, price entry) are defined
//! here once, so every caller derives the same way.

use vstd::prelude::*;

use crate::codec::{be64, u64_to_be_vec, copy_range};
use crate::state::{price_tag, price_tag_vec};

verus! {

/// The result of the host's seeded address derivation for a seed list and a
/// deriving program: `None` only when no disambiguation bump yields a valid
/// (off-curve) address. Named, never defined: the search is a cryptographic
/// computation, but one determined by these arguments alone.
pub uninterp spec fn spec_derive_address(seeds: Seq<Seq<u8>>, program_id: Seq<u8>) -> Option<
    (Seq<u8>, u8),
>;

/// Relies on `solana_program::pubkey::Pubkey::try_find_program_address`: a
/// deterministic bump-seed search over SHA-256 images of the seeds and the
/// program address, returning `None` only in the statistically improbable
/// case that no bump yields an off-curve point. Its result depends on its
/// arguments alone, and an address is always 32 bytes.
#[verifier::external_body]
fn try_derive_raw(seeds: &Vec<Vec<u8>>, program_id: &Vec<u8>) -> (r: Option<(Vec<u8>, u8)>)
    requires
        program_id@.len() == 32,
    ensures
        match r {
            Some(ab) => spec_derive_address(seeds.deep_view(), program_id@) == Some((ab.0@, ab.1))
                && ab.0@.len() == 32,
            None => spec_derive_address(seeds.deep_view(), program_id@) is None,
        },
{
    let pid = solana_program::pubkey::Pubkey::try_from(program_id.as_slice()).unwrap();
    let seed_refs: Vec<&[u8]> = seeds.iter().map(|s| s.as_slice()).collect();
    solana_program::pubkey::Pubkey::try_find_program_address(&seed_refs, &pid).map(
        |ab: (solana_program::pubkey::Pubkey, u8)| (ab.0.to_bytes().to_vec(), ab.1),
    )
}

/// Seeds of a product address: the owner identity, then the product id as
/// eight big-endian bytes.
pub open spec fn product_seeds(owner: Seq<u8>, id: u64) -> Seq<Seq<u8>> {
    seq![owner, be64(id)]
}

/// Seeds of a counter address: the product address, then the bytes "price".
pub open spec fn counter_seeds(product: Seq<u8>) -> Seq<Seq<u8>> {
    seq![product, price_tag()]
}

/// Seeds of a price-entry address: the product address, then the counter
/// value at creation time as eight big-endian bytes.
pub open spec fn entry_seeds(product: Seq<u8>, counter: u64) -> Seq<Seq<u8>> {
    seq![product, be64(counter)]
}

/// The canonical address of the product record of `(owner, id)`.
pub open spec fn spec_product_address(owner: Seq<u8>, id: u64, program_id: Seq<u8>) -> Option<
    (Seq<u8>, u8),
> {
    spec_derive_address(product_seeds(owner, id), program_id)
}

/// The canonical address of the price counter of the product at `product`.
pub open spec fn spec_counter_address(product: Seq<u8>, program_id: Seq<u8>) -> Option<
    (Seq<u8>, u8),
> {
    spec_derive_address(counter_seeds(product), program_id)
}

/// The canonical address of price entry number `counter` of the product at
/// `product`.
pub open spec fn spec_entry_address(product: Seq<u8>, counter: u64, program_id: Seq<u8>) -> Option<
    (Seq<u8>, u8),
> {
    spec_derive_address(entry_seeds(product, counter), program_id)
}

/// Derives the product address of `(owner, id)` with its bump.
pub fn derive_product_address(owner: &Vec<u8>, id: u64, program_id: &Vec<u8>) -> (r: Option<
    (Vec<u8>, u8),
>)
    requires
        program_id@.len() == 32,
    ensures
        match r {
            Some(ab) => spec_product_address(owner@, id, program_id@) == Some((ab.0@, ab.1))
                && ab.0@.len() == 32,
            None => spec_product_address(owner@, id, program_id@) is None,
        },
{
    let owner_copy: Vec<u8> = copy_range(owner, 0, owner.len());
    proof {
        assert(owner_copy@ =~= owner@);
    }
    let mut seeds: Vec<Vec<u8>> = Vec::new();
    seeds.push(owner_copy);
    seeds.push(u64_to_be_vec(id));
    proof {
        assert(seeds.deep_view() =~~= product_seeds(owner@, id));
    }
    try_derive_raw(&seeds, program_id)
}

/// Derives the counter address of the product at `product` with its bump.
pub fn derive_counter_address(product: &Vec<u8>, program_id: &Vec<u8>) -> (r: Option<
    (Vec<u8>, u8),
>)
    requires
        program_id@.len() == 32,
    ensures
        match r {
            Some(ab) => spec_counter_address(product@, program_id@) == Some((ab.0@, ab.1))
                && ab.0@.len() == 32,
            None => spec_counter_address(product@, program_id@) is None,
        },
{
    let product_copy: Vec<u8> = copy_range(product, 0, product.len());
    proof {
        assert(product_copy@ =~= product@);
    }
    let mut seeds: Vec<Vec<u8>> = Vec::new();
    seeds.push(product_copy);
    seeds.push(price_tag_vec());
    proof {
        assert(seeds.deep_view() =~~= counter_seeds(product@));
    }
    try_derive_raw(&seeds, program_id)
}

/// Derives the address of price entry number `counter` of the product at
/// `product`, with its bump.
pub fn derive_entry_address(product: &Vec<u8>, counter: u64, program_id: &Vec<u8>) -> (r: Option<
    (Vec<u8>, u8),
>)
    requires
        program_id@.len() == 32,
    ensures
        match r {
            Some(ab) => spec_entry_address(product@, counter, program_id@) == Some((ab.0@, ab.1))
                && ab.0@.len() == 32,
            None => spec_entry_address(product@, counter, program_id@) is None,
        },
{
    let product_copy: Vec<u8> = copy_range(product, 0, product.len());
    proof {
        assert(product_copy@ =~= product@);
    }
    let mut seeds: Vec<Vec<u8>> = Vec::new();
    seeds.push(product_copy);
    seeds.push(u64_to_be_vec(counter));
    proof {
        assert(seeds.deep_view() =~~= entry_seeds(product@, counter));
    }
    try_derive_raw(&seeds, program_id)
}

/// Derivation is deterministic: any two results the deriver's contract admits
/// for the same `(owner, id)` pair under the same program are identical.
pub proof fn lemma_product_address_deterministic(
    owner: Seq<u8>,
    id: u64,
    program_id: Seq<u8>,
    r1: Option<(Seq<u8>, u8)>,
    r2: Option<(Seq<u8>, u8)>,
)
    requires
        r1 == spec_product_address(owner, id, program_id),
        r2 == spec_product_address(owner, id, program_id),
    ensures
        r1 == r2,
{
}

} // verus!
