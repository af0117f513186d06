//! Deterministic address derivation.
//!
//! Every record lives at an address computed from a namespace tag and ordered
//! seed bytes.  The same seeds always yield the same address, and a derived
//! address provably has no externally known private key, so only this library
//! may authorize operations on its behalf.
use vstd::prelude::*;
use crate::ErrorCode;

verus! {

/// What `Pubkey::try_find_program_address` returns for given seed bytes and
/// program id: the derived address and its bump, or nothing when no bump in
/// the search space yields a valid address.
pub uninterp spec fn pda_of(seeds: Seq<Seq<u8>>, program_id: Seq<u8>) -> Option<(Seq<u8>, u8)>;

/// The byte contents of each vector in a sequence of byte vectors.
pub open spec fn seq_bytes_view(s: Seq<Vec<u8>>) -> Seq<Seq<u8>> {
    s.map_values(|v: Vec<u8>| v@)
}

/// Relies on `Pubkey::try_find_program_address` of solana-pubkey, reached
/// through anchor_lang: the result is a deterministic function of the seed
/// bytes and the 32-byte program id alone, and a returned address is 32 bytes.
#[verifier::external_body]
fn try_find_pda(seeds: &Vec<Vec<u8>>, program_id: &Vec<u8>) -> (r: Option<(Vec<u8>, u8)>)
    requires
        program_id@.len() == 32,
    ensures
        match r {
            Some(ab) => pda_of(seq_bytes_view(seeds@), program_id@) == Some((ab.0@, ab.1))
                && ab.0@.len() == 32,
            None => pda_of(seq_bytes_view(seeds@), program_id@) is None,
        },
{
    let refs: Vec<&[u8]> = seeds.iter().map(|s| s.as_slice()).collect();
    let pid_bytes: [u8; 32] = program_id.as_slice().try_into().unwrap();
    let pid = anchor_lang::prelude::Pubkey::new_from_array(pid_bytes);
    anchor_lang::prelude::Pubkey::try_find_program_address(&refs, &pid)
        .map(|(addr, bump)| (addr.to_bytes().to_vec(), bump))
}

/// The namespace tag of the reward mint: the bytes of `"mint"`.
pub open spec fn mint_tag() -> Seq<u8> {
    seq![109u8, 105u8, 110u8, 116u8]
}

/// The namespace tag of a comment counter: the bytes of `"counter"`.
pub open spec fn counter_tag() -> Seq<u8> {
    seq![99u8, 111u8, 117u8, 110u8, 116u8, 101u8, 114u8]
}

/// The seeds of a review record: its title and its owner's key.
pub open spec fn review_seeds(title: Seq<u8>, reviewer: Seq<u8>) -> Seq<Seq<u8>> {
    seq![title, reviewer]
}

/// The seeds of the comment counter paired with the review at `review_addr`.
pub open spec fn counter_seeds(review_addr: Seq<u8>) -> Seq<Seq<u8>> {
    seq![counter_tag(), review_addr]
}

/// The seeds of the comment with sequence number `count` under the review at
/// `review_addr`: the review address and the count in little-endian bytes.
pub open spec fn comment_seeds(review_addr: Seq<u8>, count: u64) -> Seq<Seq<u8>> {
    seq![review_addr, vstd::bytes::spec_u64_to_le_bytes(count)]
}

/// The seeds of the reward mint: the fixed namespace tag alone.
pub open spec fn mint_seeds() -> Seq<Seq<u8>> {
    seq![mint_tag()]
}

/// The derived address and bump of the review with the given title and owner key.
pub open spec fn review_pda(title: Seq<u8>, reviewer: Seq<u8>, program_id: Seq<u8>) -> Option<
    (Seq<u8>, u8),
> {
    pda_of(review_seeds(title, reviewer), program_id)
}

/// The derived address and bump of the comment counter of the review at `review_addr`.
pub open spec fn counter_pda(review_addr: Seq<u8>, program_id: Seq<u8>) -> Option<(Seq<u8>, u8)> {
    pda_of(counter_seeds(review_addr), program_id)
}

/// The derived address and bump of the comment numbered `count` under the
/// review at `review_addr`.
pub open spec fn comment_pda(review_addr: Seq<u8>, count: u64, program_id: Seq<u8>) -> Option<
    (Seq<u8>, u8),
> {
    pda_of(comment_seeds(review_addr, count), program_id)
}

/// The derived address and bump of the reward mint.
pub open spec fn mint_pda(program_id: Seq<u8>) -> Option<(Seq<u8>, u8)> {
    pda_of(mint_seeds(), program_id)
}

/// The `"mint"` namespace tag as bytes.
pub fn mint_tag_bytes() -> (r: Vec<u8>)
    ensures
        r@ == mint_tag(),
{
    let mut v: Vec<u8> = Vec::new();
    v.push(109u8);
    v.push(105u8);
    v.push(110u8);
    v.push(116u8);
    proof {
        assert(v@ =~= mint_tag());
    }
    v
}

/// The `"counter"` namespace tag as bytes.
pub fn counter_tag_bytes() -> (r: Vec<u8>)
    ensures
        r@ == counter_tag(),
{
    let mut v: Vec<u8> = Vec::new();
    v.push(99u8);
    v.push(111u8);
    v.push(117u8);
    v.push(110u8);
    v.push(116u8);
    v.push(101u8);
    v.push(114u8);
    proof {
        assert(v@ =~= counter_tag());
    }
    v
}

/// Derive the address of the review with the given title and owner key.
pub fn derive_review_address(title: &Vec<u8>, reviewer: &Vec<u8>, program_id: &Vec<u8>) -> (r:
    Result<(Vec<u8>, u8), ErrorCode>)
    requires
        program_id@.len() == 32,
    ensures
        match r {
            Ok(ab) => review_pda(title@, reviewer@, program_id@) == Some((ab.0@, ab.1))
                && ab.0@.len() == 32,
            Err(e) => e == ErrorCode::DerivationExhausted && review_pda(
                title@,
                reviewer@,
                program_id@,
            ) is None,
        },
{
    let mut seeds: Vec<Vec<u8>> = Vec::new();
    let t = title.clone();
    let w = reviewer.clone();
    proof {
        assert(t@ =~= title@);
        assert(w@ =~= reviewer@);
    }
    seeds.push(t);
    seeds.push(w);
    proof {
        assert(seq_bytes_view(seeds@) =~= review_seeds(title@, reviewer@));
    }
    match try_find_pda(&seeds, program_id) {
        Some(ab) => Ok(ab),
        None => Err(ErrorCode::DerivationExhausted),
    }
}

/// Derive the address of the comment counter of the review at `review_addr`.
pub fn derive_counter_address(review_addr: &Vec<u8>, program_id: &Vec<u8>) -> (r: Result<
    (Vec<u8>, u8),
    ErrorCode,
>)
    requires
        program_id@.len() == 32,
    ensures
        match r {
            Ok(ab) => counter_pda(review_addr@, program_id@) == Some((ab.0@, ab.1))
                && ab.0@.len() == 32,
            Err(e) => e == ErrorCode::DerivationExhausted && counter_pda(
                review_addr@,
                program_id@,
            ) is None,
        },
{
    let mut seeds: Vec<Vec<u8>> = Vec::new();
    let a = review_addr.clone();
    proof {
        assert(a@ =~= review_addr@);
    }
    seeds.push(counter_tag_bytes());
    seeds.push(a);
    proof {
        assert(seq_bytes_view(seeds@) =~= counter_seeds(review_addr@));
    }
    match try_find_pda(&seeds, program_id) {
        Some(ab) => Ok(ab),
        None => Err(ErrorCode::DerivationExhausted),
    }
}

/// Derive the address of the comment numbered `count` under the review at
/// `review_addr`.
pub fn derive_comment_address(review_addr: &Vec<u8>, count: u64, program_id: &Vec<u8>) -> (r:
    Result<(Vec<u8>, u8), ErrorCode>)
    requires
        program_id@.len() == 32,
    ensures
        match r {
            Ok(ab) => comment_pda(review_addr@, count, program_id@) == Some((ab.0@, ab.1))
                && ab.0@.len() == 32,
            Err(e) => e == ErrorCode::DerivationExhausted && comment_pda(
                review_addr@,
                count,
                program_id@,
            ) is None,
        },
{
    let mut seeds: Vec<Vec<u8>> = Vec::new();
    let a = review_addr.clone();
    proof {
        assert(a@ =~= review_addr@);
    }
    seeds.push(a);
    seeds.push(vstd::bytes::u64_to_le_bytes(count));
    proof {
        assert(seq_bytes_view(seeds@) =~= comment_seeds(review_addr@, count));
    }
    match try_find_pda(&seeds, program_id) {
        Some(ab) => Ok(ab),
        None => Err(ErrorCode::DerivationExhausted),
    }
}

/// Derive the address of the reward mint.
pub fn derive_mint_address(program_id: &Vec<u8>) -> (r: Result<(Vec<u8>, u8), ErrorCode>)
    requires
        program_id@.len() == 32,
    ensures
        match r {
            Ok(ab) => mint_pda(program_id@) == Some((ab.0@, ab.1)) && ab.0@.len() == 32,
            Err(e) => e == ErrorCode::DerivationExhausted && mint_pda(program_id@) is None,
        },
{
    let mut seeds: Vec<Vec<u8>> = Vec::new();
    seeds.push(mint_tag_bytes());
    proof {
        assert(seq_bytes_view(seeds@) =~= mint_seeds());
    }
    match try_find_pda(&seeds, program_id) {
        Some(ab) => Ok(ab),
        None => Err(ErrorCode::DerivationExhausted),
    }
}

} // verus!
