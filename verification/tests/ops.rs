use solana_experience_credit::derivation::{
    derive_comment_address, derive_counter_address, derive_mint_address, derive_review_address,
};
use solana_experience_credit::ledger::Ledger;
use solana_experience_credit::state::Record;
use solana_experience_credit::ErrorCode;

fn pid() -> Vec<u8> {
    vec![7u8; 32]
}

fn key(b: u8) -> Vec<u8> {
    vec![b; 32]
}

fn ready_ledger() -> Ledger {
    let mut l = Ledger::new(pid());
    let r = l.create_reward_mint(
        b"https://example.com/reward.json".to_vec(),
        b"Experience Credit".to_vec(),
        b"XPC".to_vec(),
        6,
    );
    assert_eq!(r, Ok(()));
    l
}

#[test]
fn scenario_review_then_comment() {
    let mut l = ready_ledger();
    let a = key(1);
    let b = key(2);

    let r = l.add_review(b"Great coffee".to_vec(), b"Loved it".to_vec(), 5, a.clone());
    assert_eq!(r, Ok(()));

    let (raddr, _) = derive_review_address(&b"Great coffee".to_vec(), &a, &pid()).unwrap();
    match l.record_at(&raddr) {
        Some(Record::Review(s)) => {
            assert_eq!(s.reviewer, a);
            assert_eq!(s.rating, 5);
            assert_eq!(s.title, b"Great coffee".to_vec());
            assert_eq!(s.description, b"Loved it".to_vec());
        },
        _ => panic!("review record missing"),
    }
    let (caddr, _) = derive_counter_address(&raddr, &pid()).unwrap();
    match l.record_at(&caddr) {
        Some(Record::Counter(c)) => assert_eq!(c.counter, 0),
        _ => panic!("counter record missing"),
    }
    assert_eq!(l.balance_of(&a), 10_000_000);

    let r = l.add_comment(&raddr, b"Agreed!".to_vec(), b.clone());
    assert_eq!(r, Ok(()));
    let (oaddr, _) = derive_comment_address(&raddr, 0, &pid()).unwrap();
    match l.record_at(&oaddr) {
        Some(Record::Comment(c)) => {
            assert_eq!(c.review, raddr);
            assert_eq!(c.commenter, b);
            assert_eq!(c.comment, b"Agreed!".to_vec());
            assert_eq!(c.count, 0);
        },
        _ => panic!("comment record missing"),
    }
    match l.record_at(&caddr) {
        Some(Record::Counter(c)) => assert_eq!(c.counter, 1),
        _ => panic!("counter record missing"),
    }
    assert_eq!(l.balance_of(&b), 5_000_000);
    assert_eq!(l.total_supply(), 15_000_000);
}

#[test]
fn invalid_rating_rejected_and_leaves_nothing() {
    let mut l = ready_ledger();
    let a = key(1);
    for bad in [0u8, 6, 7, 255] {
        let r = l.add_review(b"t".to_vec(), b"d".to_vec(), bad, a.clone());
        assert_eq!(r, Err(ErrorCode::InvalidRating));
    }
    let (raddr, _) = derive_review_address(&b"t".to_vec(), &a, &pid()).unwrap();
    assert!(l.record_at(&raddr).is_none());
    assert_eq!(l.balance_of(&a), 0);
    assert_eq!(l.total_supply(), 0);

    let r = l.add_review(b"t".to_vec(), b"d".to_vec(), 3, a.clone());
    assert_eq!(r, Ok(()));
    let r = l.update_review(&raddr, &b"t".to_vec(), b"d2".to_vec(), 0, &a);
    assert_eq!(r, Err(ErrorCode::InvalidRating));
    match l.record_at(&raddr) {
        Some(Record::Review(s)) => {
            assert_eq!(s.rating, 3);
            assert_eq!(s.description, b"d".to_vec());
        },
        _ => panic!("review record missing"),
    }
}

#[test]
fn derivation_is_deterministic_and_real() {
    let title = b"Great coffee".to_vec();
    let a = key(1);
    let one = derive_review_address(&title, &a, &pid()).unwrap();
    let two = derive_review_address(&title, &a, &pid()).unwrap();
    assert_eq!(one, two);

    // Cross-check against the derivation done directly, so a wrapper that
    // handed back its inputs unchanged would fail here.
    let pk = anchor_lang::prelude::Pubkey::new_from_array([7u8; 32]);
    let (expect, bump) = anchor_lang::prelude::Pubkey::find_program_address(
        &[title.as_slice(), a.as_slice()],
        &pk,
    );
    assert_eq!(one.0, expect.to_bytes().to_vec());
    assert_eq!(one.1, bump);
    assert_ne!(one.0, title);
    assert_ne!(one.0, a);

    let m = derive_mint_address(&pid()).unwrap();
    let (expect_m, bump_m) =
        anchor_lang::prelude::Pubkey::find_program_address(&[b"mint"], &pk);
    assert_eq!(m.0, expect_m.to_bytes().to_vec());
    assert_eq!(m.1, bump_m);

    let c = derive_comment_address(&one.0, 3, &pid()).unwrap();
    let (expect_c, _) = anchor_lang::prelude::Pubkey::find_program_address(
        &[one.0.as_slice(), 3u64.to_le_bytes().as_slice()],
        &pk,
    );
    assert_eq!(c.0, expect_c.to_bytes().to_vec());

    let k = derive_counter_address(&one.0, &pid()).unwrap();
    let (expect_k, _) = anchor_lang::prelude::Pubkey::find_program_address(
        &[b"counter", one.0.as_slice()],
        &pk,
    );
    assert_eq!(k.0, expect_k.to_bytes().to_vec());
}

#[test]
fn duplicate_create_fails_and_first_stays() {
    let mut l = ready_ledger();
    let a = key(1);
    assert_eq!(l.add_review(b"t".to_vec(), b"first".to_vec(), 4, a.clone()), Ok(()));
    let supply_before = l.total_supply();
    let r = l.add_review(b"t".to_vec(), b"second".to_vec(), 1, a.clone());
    assert_eq!(r, Err(ErrorCode::DuplicateRecord));
    let (raddr, _) = derive_review_address(&b"t".to_vec(), &a, &pid()).unwrap();
    match l.record_at(&raddr) {
        Some(Record::Review(s)) => {
            assert_eq!(s.description, b"first".to_vec());
            assert_eq!(s.rating, 4);
        },
        _ => panic!("review record missing"),
    }
    assert_eq!(l.total_supply(), supply_before);
    assert_eq!(l.balance_of(&a), 10_000_000);
}

#[test]
fn update_by_stranger_fails() {
    let mut l = ready_ledger();
    let a = key(1);
    let b = key(2);
    assert_eq!(l.add_review(b"t".to_vec(), b"mine".to_vec(), 5, a.clone()), Ok(()));
    let (raddr, _) = derive_review_address(&b"t".to_vec(), &a, &pid()).unwrap();
    let r = l.update_review(&raddr, &b"t".to_vec(), b"stolen".to_vec(), 1, &b);
    assert_eq!(r, Err(ErrorCode::OwnershipMismatch));
    match l.record_at(&raddr) {
        Some(Record::Review(s)) => {
            assert_eq!(s.description, b"mine".to_vec());
            assert_eq!(s.rating, 5);
            assert_eq!(s.reviewer, a);
        },
        _ => panic!("review record missing"),
    }

    let r = l.update_review(&raddr, &b"t".to_vec(), b"better".to_vec(), 2, &a);
    assert_eq!(r, Ok(()));
    match l.record_at(&raddr) {
        Some(Record::Review(s)) => {
            assert_eq!(s.description, b"better".to_vec());
            assert_eq!(s.rating, 2);
            assert_eq!(s.reviewer, a);
            assert_eq!(s.title, b"t".to_vec());
        },
        _ => panic!("review record missing"),
    }
}

#[test]
fn comments_count_up_without_gaps() {
    let mut l = ready_ledger();
    let a = key(1);
    assert_eq!(l.add_review(b"t".to_vec(), b"d".to_vec(), 5, a.clone()), Ok(()));
    let (raddr, _) = derive_review_address(&b"t".to_vec(), &a, &pid()).unwrap();
    let (caddr, _) = derive_counter_address(&raddr, &pid()).unwrap();

    let mut addrs: Vec<Vec<u8>> = Vec::new();
    for i in 0u64..3 {
        let who = key(10 + i as u8);
        assert_eq!(l.add_comment(&raddr, b"c".to_vec(), who), Ok(()));
        let (oaddr, _) = derive_comment_address(&raddr, i, &pid()).unwrap();
        match l.record_at(&oaddr) {
            Some(Record::Comment(c)) => assert_eq!(c.count, i),
            _ => panic!("comment record missing"),
        }
        addrs.push(oaddr);
        match l.record_at(&caddr) {
            Some(Record::Counter(c)) => assert_eq!(c.counter, i + 1),
            _ => panic!("counter record missing"),
        }
    }
    assert_ne!(addrs[0], addrs[1]);
    assert_ne!(addrs[0], addrs[2]);
    assert_ne!(addrs[1], addrs[2]);
}

#[test]
fn rewards_are_exact_and_failures_mint_nothing() {
    let mut l = ready_ledger();
    let a = key(1);
    let b = key(2);
    assert_eq!(l.balance_of(&a), 0);
    assert_eq!(l.add_review(b"t".to_vec(), b"d".to_vec(), 5, a.clone()), Ok(()));
    assert_eq!(l.balance_of(&a), 10_000_000);
    let (raddr, _) = derive_review_address(&b"t".to_vec(), &a, &pid()).unwrap();
    assert_eq!(l.add_comment(&raddr, b"c".to_vec(), b.clone()), Ok(()));
    assert_eq!(l.balance_of(&b), 5_000_000);
    assert_eq!(l.add_comment(&raddr, b"c2".to_vec(), b.clone()), Ok(()));
    assert_eq!(l.balance_of(&b), 10_000_000);

    // Failed calls move no balance.
    assert_eq!(
        l.add_review(b"t".to_vec(), b"again".to_vec(), 5, a.clone()),
        Err(ErrorCode::DuplicateRecord)
    );
    assert_eq!(
        l.add_review(b"u".to_vec(), b"bad".to_vec(), 9, a.clone()),
        Err(ErrorCode::InvalidRating)
    );
    assert_eq!(l.balance_of(&a), 10_000_000);
    assert_eq!(l.total_supply(), 20_000_000);
}

#[test]
fn mint_initializes_exactly_once() {
    let mut l = Ledger::new(pid());
    assert_eq!(
        l.create_reward_mint(b"u".to_vec(), b"n".to_vec(), b"s".to_vec(), 6),
        Ok(())
    );
    let (maddr, mbump) = derive_mint_address(&pid()).unwrap();
    {
        let m = l.mint_info().as_ref().unwrap();
        assert_eq!(m.address, maddr);
        assert_eq!(m.bump, mbump);
        assert_eq!(m.decimals, 6);
    }
    let r = l.create_reward_mint(b"u2".to_vec(), b"n2".to_vec(), b"s2".to_vec(), 9);
    assert_eq!(r, Err(ErrorCode::AlreadyInitialized));
    {
        let m = l.mint_info().as_ref().unwrap();
        assert_eq!(m.decimals, 6);
        assert_eq!(m.address, maddr);
    }
    let md = l.metadata_info().as_ref().unwrap();
    assert_eq!(md.name, b"n".to_vec());
    assert_eq!(md.symbol, b"s".to_vec());
    assert_eq!(md.uri, b"u".to_vec());
}

#[test]
fn minting_needs_the_initialized_mint() {
    let mut l = Ledger::new(pid());
    let a = key(1);
    let r = l.add_review(b"t".to_vec(), b"d".to_vec(), 5, a.clone());
    assert_eq!(r, Err(ErrorCode::MintAuthorizationFailed));
    let (raddr, _) = derive_review_address(&b"t".to_vec(), &a, &pid()).unwrap();
    assert!(l.record_at(&raddr).is_none());
    assert_eq!(l.balance_of(&a), 0);
}

#[test]
fn comment_on_missing_review_fails() {
    let mut l = ready_ledger();
    let ghost_review = key(9);
    let r = l.add_comment(&ghost_review, b"c".to_vec(), key(2));
    assert_eq!(r, Err(ErrorCode::RecordNotFound));
    let r = l.update_review(&key(9), &b"t".to_vec(), b"d".to_vec(), 3, &key(1));
    assert!(r == Err(ErrorCode::OwnershipMismatch) || r == Err(ErrorCode::RecordNotFound));
    let r = l.close(&ghost_review, &key(1));
    assert_eq!(r, Err(ErrorCode::RecordNotFound));
}

#[test]
fn overlong_seed_exhausts_derivation() {
    // A single seed may not exceed 32 bytes, so no bump can ever work.
    let mut l = ready_ledger();
    let long_title = vec![65u8; 64];
    let r = l.add_review(long_title, b"d".to_vec(), 5, key(1));
    assert_eq!(r, Err(ErrorCode::DerivationExhausted));
}

#[test]
fn close_retires_review_and_counter_for_good() {
    let mut l = ready_ledger();
    let a = key(1);
    let b = key(2);
    assert_eq!(l.add_review(b"t".to_vec(), b"d".to_vec(), 5, a.clone()), Ok(()));
    let (raddr, _) = derive_review_address(&b"t".to_vec(), &a, &pid()).unwrap();
    let (caddr, _) = derive_counter_address(&raddr, &pid()).unwrap();

    let r = l.close(&raddr, &b);
    assert_eq!(r, Err(ErrorCode::OwnershipMismatch));
    assert!(l.record_at(&raddr).is_some());

    let r = l.close(&raddr, &a);
    assert_eq!(r, Ok(()));
    assert!(l.record_at(&raddr).is_none());
    assert!(l.record_at(&caddr).is_none());

    // A closed review never becomes active again.
    let r = l.add_review(b"t".to_vec(), b"reborn".to_vec(), 5, a.clone());
    assert_eq!(r, Err(ErrorCode::DuplicateRecord));
    // Updating or commenting on it reports a missing record.
    let r = l.update_review(&raddr, &b"t".to_vec(), b"d".to_vec(), 3, &a);
    assert_eq!(r, Err(ErrorCode::RecordNotFound));
    let r = l.add_comment(&raddr, b"c".to_vec(), b.clone());
    assert_eq!(r, Err(ErrorCode::RecordNotFound));
}

#[test]
fn update_under_wrong_title_misses_the_record() {
    let mut l = ready_ledger();
    let a = key(1);
    assert_eq!(l.add_review(b"t".to_vec(), b"d".to_vec(), 5, a.clone()), Ok(()));
    let (raddr, _) = derive_review_address(&b"t".to_vec(), &a, &pid()).unwrap();
    // The supplied address does not re-derive from the supplied title.
    let r = l.update_review(&raddr, &b"other".to_vec(), b"d2".to_vec(), 3, &a);
    assert_eq!(r, Err(ErrorCode::OwnershipMismatch));
    match l.record_at(&raddr) {
        Some(Record::Review(s)) => assert_eq!(s.description, b"d".to_vec()),
        _ => panic!("review record missing"),
    }
}

#[test]
fn closing_one_review_leaves_others_alone() {
    let mut l = ready_ledger();
    let a = key(1);
    assert_eq!(l.add_review(b"t1".to_vec(), b"d1".to_vec(), 5, a.clone()), Ok(()));
    assert_eq!(l.add_review(b"t2".to_vec(), b"d2".to_vec(), 4, a.clone()), Ok(()));
    let (r1, _) = derive_review_address(&b"t1".to_vec(), &a, &pid()).unwrap();
    let (r2, _) = derive_review_address(&b"t2".to_vec(), &a, &pid()).unwrap();
    assert_eq!(l.close(&r1, &a), Ok(()));
    assert!(l.record_at(&r1).is_none());
    match l.record_at(&r2) {
        Some(Record::Review(s)) => assert_eq!(s.description, b"d2".to_vec()),
        _ => panic!("review record missing"),
    }
    // The other review still takes comments.
    assert_eq!(l.add_comment(&r2, b"c".to_vec(), key(2)), Ok(()));
}
