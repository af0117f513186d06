use solana_experience_credit::layout::{
    account_discriminator, encode_comment, encode_counter, encode_review, realloc_exact,
    review_space,
};
use solana_experience_credit::state::{AccountState, Comment, CommentCounter};

#[test]
fn discriminator_is_the_hash_prefix() {
    let d = account_discriminator(&b"AccountState".to_vec());
    assert_eq!(d.len(), 8);
    // Cross-check against the digest computed directly, so a wrapper that
    // handed back its input unchanged would fail here.
    let digest = anchor_lang::solana_program::hash::hash(b"account:AccountState").to_bytes();
    assert_eq!(d, digest[..8].to_vec());
    assert_ne!(d, b"AccountS".to_vec());

    let d2 = account_discriminator(&b"CommentCounter".to_vec());
    assert_ne!(d, d2);
}

#[test]
fn review_bytes_are_exact() {
    let a = AccountState {
        reviewer: vec![9u8; 32],
        rating: 5,
        title: b"ab".to_vec(),
        description: b"xyz".to_vec(),
    };
    let disc = vec![1u8, 2, 3, 4, 5, 6, 7, 8];
    let r = encode_review(&disc, &a);
    let mut expect = disc.clone();
    expect.extend_from_slice(&[9u8; 32]);
    expect.push(5);
    expect.extend_from_slice(&2u32.to_le_bytes());
    expect.extend_from_slice(b"ab");
    expect.extend_from_slice(&3u32.to_le_bytes());
    expect.extend_from_slice(b"xyz");
    assert_eq!(r, expect);
    assert_eq!(r.len(), review_space(&a));
    assert_eq!(review_space(&a), 8 + 32 + 1 + 4 + 2 + 4 + 3);
}

#[test]
fn counter_and_comment_bytes_are_exact() {
    let disc = vec![0u8; 8];
    let c = CommentCounter { counter: 258 };
    let r = encode_counter(&disc, &c);
    let mut expect = disc.clone();
    expect.extend_from_slice(&258u64.to_le_bytes());
    assert_eq!(r, expect);

    let com = Comment {
        review: vec![3u8; 32],
        commenter: vec![4u8; 32],
        comment: b"hi".to_vec(),
        count: 7,
    };
    let r = encode_comment(&disc, &com);
    let mut expect = disc.clone();
    expect.extend_from_slice(&[3u8; 32]);
    expect.extend_from_slice(&[4u8; 32]);
    expect.extend_from_slice(&2u32.to_le_bytes());
    expect.extend_from_slice(b"hi");
    expect.extend_from_slice(&7u64.to_le_bytes());
    assert_eq!(r, expect);
}

#[test]
fn realloc_grows_with_zeroes_and_shrinks_clean() {
    let buf = vec![1u8, 2, 3, 4];
    let grown = realloc_exact(&buf, 7);
    assert_eq!(grown, vec![1, 2, 3, 4, 0, 0, 0]);

    let shrunk = realloc_exact(&grown, 2);
    assert_eq!(shrunk, vec![1, 2]);

    // Growing again after a shrink exposes zeroes, never the old bytes.
    let regrown = realloc_exact(&shrunk, 5);
    assert_eq!(regrown, vec![1, 2, 0, 0, 0]);

    let same = realloc_exact(&buf, 4);
    assert_eq!(same, buf);
    let empty = realloc_exact(&buf, 0);
    assert_eq!(empty, Vec::<u8>::new());
}
