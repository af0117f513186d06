//! The persisted byte layout of records and the in-place resize step.
//!
//! Every record is stored as an 8-byte discriminator identifying its type,
//! followed by its fields, with each variable-length byte string written as a
//! 4-byte little-endian length prefix and the raw bytes.  A review's backing
//! storage is resized to the exact new length on every mutation that changes
//! a string length; the resize keeps the common prefix, zero-fills grown
//! space, and lets nothing of a shrunk-away suffix survive.
use vstd::prelude::*;
use vstd::bytes::{spec_u32_to_le_bytes, spec_u64_to_le_bytes, u32_to_le_bytes, u64_to_le_bytes};
use crate::state::{AccountState, AccountStateV, Comment, CommentCounter, CommentV};

verus! {

/// What sha-256 returns for given input bytes.
pub uninterp spec fn sha256_of(data: Seq<u8>) -> Seq<u8>;

/// Relies on `solana_program::hash::hash`, reached through anchor_lang: the
/// sha-256 digest depends on the input bytes alone and is 32 bytes long.
#[verifier::external_body]
fn sha256(data: &Vec<u8>) -> (r: Vec<u8>)
    ensures
        r@ == sha256_of(data@),
        r@.len() == 32,
{
    anchor_lang::solana_program::hash::hash(data.as_slice()).to_bytes().to_vec()
}

/// The bytes of `"account:"`, the prefix hashed into every discriminator.
pub open spec fn account_prefix() -> Seq<u8> {
    seq![97u8, 99u8, 99u8, 111u8, 117u8, 110u8, 116u8, 58u8]
}

/// The 8-byte discriminator of the record type named `name`: the first eight
/// bytes of the sha-256 digest of `"account:"` followed by the name.
pub open spec fn spec_discriminator(name: Seq<u8>) -> Seq<u8> {
    sha256_of(account_prefix() + name).take(8)
}

/// Compute the 8-byte discriminator of the record type named `name`.
pub fn account_discriminator(name: &Vec<u8>) -> (r: Vec<u8>)
    ensures
        r@ == spec_discriminator(name@),
        r@.len() == 8,
{
    let mut data: Vec<u8> = Vec::new();
    data.push(97u8);
    data.push(99u8);
    data.push(99u8);
    data.push(111u8);
    data.push(117u8);
    data.push(110u8);
    data.push(116u8);
    data.push(58u8);
    data.extend_from_slice(name.as_slice());
    proof {
        assert(data@ =~= account_prefix() + name@);
    }
    let mut r = sha256(&data);
    r.truncate(8);
    proof {
        assert(r@ =~= spec_discriminator(name@));
    }
    r
}

/// The exact byte size of a review record: discriminator, owner key, rating
/// byte, and the two length-prefixed strings.
pub open spec fn spec_review_space(a: AccountStateV) -> nat {
    8 + 32 + 1 + 4 + a.title.len() + 4 + a.description.len()
}

/// Compute the exact byte size of a review record.
pub fn review_space(a: &AccountState) -> (n: usize)
    requires
        spec_review_space(a@) <= usize::MAX,
    ensures
        n == spec_review_space(a@),
{
    8 + 32 + 1 + 4 + a.title.len() + 4 + a.description.len()
}

/// The persisted image of a review record under the discriminator `disc`.
pub open spec fn spec_review_bytes(disc: Seq<u8>, a: AccountStateV) -> Seq<u8> {
    disc + a.reviewer + seq![a.rating] + spec_u32_to_le_bytes(a.title.len() as u32) + a.title
        + spec_u32_to_le_bytes(a.description.len() as u32) + a.description
}

/// Encode a review record for storage under the discriminator `disc`.
pub fn encode_review(disc: &Vec<u8>, a: &AccountState) -> (r: Vec<u8>)
    requires
        a.title@.len() <= u32::MAX,
        a.description@.len() <= u32::MAX,
        spec_review_bytes(disc@, a@).len() <= usize::MAX,
    ensures
        r@ == spec_review_bytes(disc@, a@),
{
    let mut r: Vec<u8> = Vec::new();
    r.extend_from_slice(disc.as_slice());
    r.extend_from_slice(a.reviewer.as_slice());
    r.push(a.rating);
    let tl = u32_to_le_bytes(a.title.len() as u32);
    r.extend_from_slice(tl.as_slice());
    r.extend_from_slice(a.title.as_slice());
    let dl = u32_to_le_bytes(a.description.len() as u32);
    r.extend_from_slice(dl.as_slice());
    r.extend_from_slice(a.description.as_slice());
    proof {
        assert(r@ =~= spec_review_bytes(disc@, a@));
    }
    r
}

/// The persisted image of a comment counter under the discriminator `disc`.
pub open spec fn spec_counter_bytes(disc: Seq<u8>, counter: u64) -> Seq<u8> {
    disc + spec_u64_to_le_bytes(counter)
}

/// Encode a comment counter for storage under the discriminator `disc`.
pub fn encode_counter(disc: &Vec<u8>, c: &CommentCounter) -> (r: Vec<u8>)
    requires
        disc@.len() + 8 <= usize::MAX,
    ensures
        r@ == spec_counter_bytes(disc@, c.counter),
{
    let mut r: Vec<u8> = Vec::new();
    r.extend_from_slice(disc.as_slice());
    let cb = u64_to_le_bytes(c.counter);
    r.extend_from_slice(cb.as_slice());
    proof {
        assert(r@ =~= spec_counter_bytes(disc@, c.counter));
    }
    r
}

/// The persisted image of a comment record under the discriminator `disc`.
pub open spec fn spec_comment_bytes(disc: Seq<u8>, c: CommentV) -> Seq<u8> {
    disc + c.review + c.commenter + spec_u32_to_le_bytes(c.comment.len() as u32) + c.comment
        + spec_u64_to_le_bytes(c.count)
}

/// Encode a comment record for storage under the discriminator `disc`.
pub fn encode_comment(disc: &Vec<u8>, c: &Comment) -> (r: Vec<u8>)
    requires
        c.comment@.len() <= u32::MAX,
        spec_comment_bytes(disc@, c@).len() <= usize::MAX,
    ensures
        r@ == spec_comment_bytes(disc@, c@),
{
    let mut r: Vec<u8> = Vec::new();
    r.extend_from_slice(disc.as_slice());
    r.extend_from_slice(c.review.as_slice());
    r.extend_from_slice(c.commenter.as_slice());
    let cl = u32_to_le_bytes(c.comment.len() as u32);
    r.extend_from_slice(cl.as_slice());
    r.extend_from_slice(c.comment.as_slice());
    let nb = u64_to_le_bytes(c.count);
    r.extend_from_slice(nb.as_slice());
    proof {
        assert(r@ =~= spec_comment_bytes(disc@, c@));
    }
    r
}

/// Resize a record's backing bytes to an exact new length.  The common
/// prefix is kept; grown space is zero-filled; a shrunk-away suffix is gone
/// for good, so no stale field bytes can be reinterpreted after a later grow.
pub fn realloc_exact(buf: &Vec<u8>, new_len: usize) -> (r: Vec<u8>)
    ensures
        r@.len() == new_len,
        forall|i: int| 0 <= i < new_len && i < buf@.len() ==> r@[i] == buf@[i],
        forall|i: int| buf@.len() <= i < new_len ==> r@[i] == 0u8,
{
    let mut r: Vec<u8> = Vec::new();
    let mut i: usize = 0;
    while i < new_len
        invariant
            i <= new_len,
            r@.len() == i,
            forall|j: int| 0 <= j < i && j < buf@.len() ==> r@[j] == buf@[j],
            forall|j: int| buf@.len() <= j < i ==> r@[j] == 0u8,
        decreases new_len - i,
    {
        if i < buf.len() {
            r.push(buf[i]);
        } else {
            r.push(0u8);
        }
        i += 1;
    }
    r
}

} // verus!
