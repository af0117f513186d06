//! The laws of the store, each stated over the specification-level
//! transitions and proved once and for all.
use vstd::prelude::*;
use crate::{ErrorCode, REVIEW_REWARD, COMMENT_REWARD};
use crate::state::{AccountStateV, CommentV, RecordV};
use crate::derivation::{comment_pda, counter_pda, mint_pda, review_pda};
use crate::ledger::{
    bal_of, spec_add_comment, spec_add_review, spec_close, spec_create_reward_mint,
    spec_update_review, LedgerV,
};

verus! {

/// The value of the comment counter paired with the review at `review`, if
/// that counter record lives in the ledger.
pub open spec fn counter_value(l: LedgerV, review: Seq<u8>) -> Option<u64> {
    match counter_pda(review, l.program_id) {
        None => None,
        Some(cp) => if l.records.contains_key(cp.0) && l.records[cp.0] is Counter {
            Some(l.records[cp.0]->Counter_0)
        } else {
            None
        },
    }
}

/// Law: a rating outside `[1, 5]` is rejected with `InvalidRating`, by
/// creation and by update alike, and the ledger is left unchanged.
pub proof fn lemma_invalid_rating(
    l: LedgerV,
    review: Seq<u8>,
    title: Seq<u8>,
    description: Seq<u8>,
    rating: u8,
    who: Seq<u8>,
)
    requires
        rating < 1 || rating > 5,
    ensures
        spec_add_review(l, title, description, rating, who) == (
            l,
            Err::<(), ErrorCode>(ErrorCode::InvalidRating),
        ),
        spec_update_review(l, review, title, description, rating, who) == (
            l,
            Err::<(), ErrorCode>(ErrorCode::InvalidRating),
        ),
{
}

/// Law: every operation is atomic — whenever it reports an error, the ledger
/// is exactly what it was before the call; no record, balance or supply
/// change survives a failure.
pub proof fn lemma_atomic_failure(
    l: LedgerV,
    addr: Seq<u8>,
    text1: Seq<u8>,
    text2: Seq<u8>,
    text3: Seq<u8>,
    rating: u8,
    who: Seq<u8>,
    decimals: u8,
)
    ensures
        spec_add_review(l, text1, text2, rating, who).1 is Err ==> spec_add_review(
            l,
            text1,
            text2,
            rating,
            who,
        ).0 == l,
        spec_update_review(l, addr, text1, text2, rating, who).1 is Err
            ==> spec_update_review(l, addr, text1, text2, rating, who).0 == l,
        spec_close(l, addr, who).1 is Err ==> spec_close(l, addr, who).0 == l,
        spec_add_comment(l, addr, text1, who).1 is Err ==> spec_add_comment(
            l,
            addr,
            text1,
            who,
        ).0 == l,
        spec_create_reward_mint(l, text1, text2, text3, decimals).1 is Err
            ==> spec_create_reward_mint(l, text1, text2, text3, decimals).0 == l,
{
}

/// Law: the address of a review is a pure function of its title, its
/// owner key and the program id — deriving twice from identical inputs yields
/// identical results — and a successful creation stores the review exactly
/// there, at an address that held no record before, with its counter at zero.
pub proof fn lemma_review_addressing(
    l: LedgerV,
    title: Seq<u8>,
    description: Seq<u8>,
    rating: u8,
    reviewer: Seq<u8>,
)
    ensures
        review_pda(title, reviewer, l.program_id) == review_pda(title, reviewer, l.program_id),
        ({
            let (l1, res) = spec_add_review(l, title, description, rating, reviewer);
            res is Ok ==> {
                let rp = review_pda(title, reviewer, l.program_id);
                &&& rp is Some
                &&& !l.records.contains_key(rp->Some_0.0)
                &&& l1.records.contains_key(rp->Some_0.0)
                &&& l1.records[rp->Some_0.0] == RecordV::Review(
                    AccountStateV { reviewer, rating, title, description },
                )
                &&& counter_value(l1, rp->Some_0.0) == Some(0u64)
            }
        }),
{
}

/// Law: creation is once-only — after a successful creation, a second
/// creation with the same title and owner key fails and leaves the ledger,
/// and with it the first review's data, unchanged; when the second call's
/// rating is valid its error is `DuplicateRecord`.
pub proof fn lemma_create_once(
    l: LedgerV,
    title: Seq<u8>,
    description1: Seq<u8>,
    rating1: u8,
    description2: Seq<u8>,
    rating2: u8,
    reviewer: Seq<u8>,
)
    ensures
        ({
            let (l1, res1) = spec_add_review(l, title, description1, rating1, reviewer);
            let (l2, res2) = spec_add_review(l1, title, description2, rating2, reviewer);
            res1 is Ok ==> {
                &&& res2 is Err
                &&& l2 == l1
                &&& (1 <= rating2 <= 5 ==> res2 == Err::<(), ErrorCode>(
                    ErrorCode::DuplicateRecord,
                ))
            }
        }),
{
}

/// Law: only the owner mutates — an update attempt whose supplied address
/// does not re-derive from the supplied title and signer, or whose signer is
/// not the stored owner, fails with `OwnershipMismatch` and changes
/// nothing; and a successful update never changes the stored owner key or
/// title.  Closing is gated the same way by the stored owner key.
pub proof fn lemma_ownership_gate(
    l: LedgerV,
    review: Seq<u8>,
    title: Seq<u8>,
    description: Seq<u8>,
    rating: u8,
    signer: Seq<u8>,
)
    ensures
        ({
            let (l1, res) = spec_update_review(l, review, title, description, rating, signer);
            &&& (1 <= rating <= 5 && review_pda(title, signer, l.program_id) is Some
                && l.records.contains_key(review) && l.records[review] is Review
                && l.records[review]->Review_0.reviewer != signer) ==> res == Err::<
                (),
                ErrorCode,
            >(ErrorCode::OwnershipMismatch) && l1 == l
            &&& res is Ok ==> {
                &&& l1.records[review] is Review
                &&& l1.records[review]->Review_0.reviewer
                    == l.records[review]->Review_0.reviewer
                &&& l1.records[review]->Review_0.title == l.records[review]->Review_0.title
            }
        }),
        ({
            let (l1, res) = spec_close(l, review, signer);
            (l.records.contains_key(review) && l.records[review] is Review
                && l.records[review]->Review_0.reviewer != signer) ==> res == Err::<
                (),
                ErrorCode,
            >(ErrorCode::OwnershipMismatch) && l1 == l
        }),
{
    let dp = review_pda(title, signer, l.program_id);
    if 1 <= rating <= 5 && dp is Some && l.records.contains_key(review)
        && l.records[review] is Review && l.records[review]->Review_0.reviewer != signer {
        if review != dp->Some_0.0 {
        } else {
        }
    }
}

/// Law: comments are numbered by the counter — a successful comment is
/// stamped with the counter's value before the call, stored at the address
/// derived from that value, which held no record before, and the counter
/// increments by exactly one.
pub proof fn lemma_comment_stamp(l: LedgerV, review: Seq<u8>, comment: Seq<u8>, commenter: Seq<u8>)
    ensures
        ({
            let (l1, res) = spec_add_comment(l, review, comment, commenter);
            res is Ok ==> {
                let n = counter_value(l, review)->Some_0;
                let op = comment_pda(review, n, l.program_id);
                &&& counter_value(l, review) is Some
                &&& counter_value(l1, review) == Some((n + 1) as u64)
                &&& op is Some
                &&& !l.records.contains_key(op->Some_0.0)
                &&& l1.records.contains_key(op->Some_0.0)
                &&& l1.records[op->Some_0.0] == RecordV::Comment(
                    CommentV { review, commenter, comment, count: n },
                )
            }
        }),
{
}

/// Law: consecutive comments get consecutive numbers — two successful
/// comments in a row against the same review are stamped `n` and `n + 1`:
/// strictly increasing and gap-free.
pub proof fn lemma_comment_sequence(
    l: LedgerV,
    review: Seq<u8>,
    comment1: Seq<u8>,
    commenter1: Seq<u8>,
    comment2: Seq<u8>,
    commenter2: Seq<u8>,
)
    ensures
        ({
            let (l1, res1) = spec_add_comment(l, review, comment1, commenter1);
            let (l2, res2) = spec_add_comment(l1, review, comment2, commenter2);
            (res1 is Ok && res2 is Ok) ==> {
                let n = counter_value(l, review)->Some_0;
                &&& counter_value(l, review) is Some
                &&& comment_pda(review, n, l.program_id) is Some
                &&& comment_pda(review, (n + 1) as u64, l1.program_id) is Some
                &&& l2.records[comment_pda(review, n, l.program_id)->Some_0.0]
                    == RecordV::Comment(
                    CommentV { review, commenter: commenter1, comment: comment1, count: n },
                )
                &&& l2.records[comment_pda(review, (n + 1) as u64, l1.program_id)->Some_0.0]
                    == RecordV::Comment(
                    CommentV {
                        review,
                        commenter: commenter2,
                        comment: comment2,
                        count: (n + 1) as u64,
                    },
                )
            }
        }),
{
    let (l1, res1) = spec_add_comment(l, review, comment1, commenter1);
    let (l2, res2) = spec_add_comment(l1, review, comment2, commenter2);
    if res1 is Ok && res2 is Ok {
        lemma_comment_stamp(l, review, comment1, commenter1);
        lemma_comment_stamp(l1, review, comment2, commenter2);
        let n = counter_value(l, review)->Some_0;
        assert(counter_value(l1, review) == Some((n + 1) as u64));
        let a1 = comment_pda(review, n, l.program_id)->Some_0.0;
        let a2 = comment_pda(review, (n + 1) as u64, l1.program_id)->Some_0.0;
        assert(!l1.records.contains_key(a2));
        assert(l1.records.contains_key(a1));
        assert(a1 != a2);
    }
}

/// The comment record at `x` belongs to the counter at `ca`: its review's
/// counter derivation leads to `ca`.
pub open spec fn comment_leads_to(l: LedgerV, x: Seq<u8>, ca: Seq<u8>) -> bool {
    &&& l.records.contains_key(x)
    &&& l.records[x] is Comment
    &&& counter_pda(l.records[x]->Comment_0.review, l.program_id) is Some
    &&& counter_pda(l.records[x]->Comment_0.review, l.program_id)->Some_0.0 == ca
}

/// Every comment is counted and every count is taken: each comment's counter
/// address derives, and leads to a live counter or a retired one; a comment
/// under a live counter with value `n` is stamped below `n`; and for each
/// `k < n` some comment under that counter is stamped exactly `k` — the
/// stamped counts of a live counter are precisely `0, 1, ..., n - 1`.
pub open spec fn counters_consistent(l: LedgerV) -> bool {
    &&& (forall|x: Seq<u8>|
        (l.records.contains_key(x) && l.records[x] is Comment) ==> {
            let cp = counter_pda(#[trigger] l.records[x]->Comment_0.review, l.program_id);
            &&& cp is Some
            &&& ((l.records.contains_key(cp->Some_0.0) && l.records[cp->Some_0.0] is Counter)
                || l.closed.contains(cp->Some_0.0))
        })
    &&& (forall|x: Seq<u8>, ca: Seq<u8>|
        (#[trigger] comment_leads_to(l, x, ca) && l.records.contains_key(ca)
            && l.records[ca] is Counter) ==> l.records[x]->Comment_0.count
            < l.records[ca]->Counter_0)
    &&& (forall|ca: Seq<u8>, k: u64|
        (l.records.contains_key(ca) && l.records[ca] is Counter && k < l.records[ca]->Counter_0)
            ==> #[trigger] count_taken(l, ca, k))
}

/// Some comment under the counter at `ca` is stamped exactly `k`.
pub open spec fn count_taken(l: LedgerV, ca: Seq<u8>, k: u64) -> bool {
    exists|x: Seq<u8>| #[trigger] comment_leads_to(l, x, ca) && l.records[x]->Comment_0.count == k
}

/// Law: a fresh ledger is consistent — it has no counters and no comments.
pub proof fn lemma_consistency_init(program_id: Seq<u8>)
    ensures
        counters_consistent(crate::ledger::spec_init(program_id)),
{
}

/// Law: creating a review preserves counter consistency — the new counter
/// starts at zero with no comment under it.
pub proof fn lemma_add_review_preserves_consistency(
    l: LedgerV,
    title: Seq<u8>,
    description: Seq<u8>,
    rating: u8,
    who: Seq<u8>,
)
    ensures
        counters_consistent(l) ==> counters_consistent(
            spec_add_review(l, title, description, rating, who).0,
        ),
{
    let (l1, res) = spec_add_review(l, title, description, rating, who);
    if counters_consistent(l) && res is Ok {
        let rp = review_pda(title, who, l.program_id)->Some_0;
        let cp = counter_pda(rp.0, l.program_id)->Some_0;
        assert forall|x: Seq<u8>| l1.records.contains_key(x) && l1.records[x] is Comment implies {
            let q = counter_pda(l1.records[x]->Comment_0.review, l1.program_id);
            q is Some && ((l1.records.contains_key(q->Some_0.0) && l1.records[q->Some_0.0]
                is Counter) || l1.closed.contains(q->Some_0.0))
        } by {
            assert(l.records.contains_key(x) && l.records[x] == l1.records[x]);
        }
        assert forall|x: Seq<u8>, ca: Seq<u8>|
            comment_leads_to(l1, x, ca) && l1.records.contains_key(ca) && l1.records[ca]
                is Counter implies l1.records[x]->Comment_0.count < l1.records[ca]->Counter_0 by {
            assert(l.records.contains_key(x) && l.records[x] == l1.records[x]);
            if ca == cp.0 {
                assert(comment_leads_to(l, x, ca));
            } else {
                assert(comment_leads_to(l, x, ca));
            }
        }
        assert forall|ca: Seq<u8>, k: u64|
            l1.records.contains_key(ca) && l1.records[ca] is Counter && k < l1.records[ca]->Counter_0 implies count_taken(l1, ca, k) by {
            if ca != cp.0 && ca != rp.0 {
                assert(count_taken(l, ca, k));
                let x = choose|x: Seq<u8>|
                    comment_leads_to(l, x, ca) && l.records[x]->Comment_0.count == k;
                assert(comment_leads_to(l1, x, ca) && l1.records[x]->Comment_0.count == k);
            }
        }
    }
}

/// Law: updating a review preserves counter consistency — no counter and no
/// comment is touched.
pub proof fn lemma_update_preserves_consistency(
    l: LedgerV,
    review: Seq<u8>,
    title: Seq<u8>,
    description: Seq<u8>,
    rating: u8,
    signer: Seq<u8>,
)
    ensures
        counters_consistent(l) ==> counters_consistent(
            spec_update_review(l, review, title, description, rating, signer).0,
        ),
{
    let (l1, res) = spec_update_review(l, review, title, description, rating, signer);
    if counters_consistent(l) && res is Ok {
        assert forall|x: Seq<u8>| l1.records.contains_key(x) && l1.records[x] is Comment implies {
            let q = counter_pda(l1.records[x]->Comment_0.review, l1.program_id);
            q is Some && ((l1.records.contains_key(q->Some_0.0) && l1.records[q->Some_0.0]
                is Counter) || l1.closed.contains(q->Some_0.0))
        } by {
            assert(l.records.contains_key(x) && l.records[x] == l1.records[x]);
        }
        assert forall|x: Seq<u8>, ca: Seq<u8>|
            comment_leads_to(l1, x, ca) && l1.records.contains_key(ca) && l1.records[ca]
                is Counter implies l1.records[x]->Comment_0.count < l1.records[ca]->Counter_0 by {
            assert(l.records[x] == l1.records[x]);
            assert(comment_leads_to(l, x, ca));
        }
        assert forall|ca: Seq<u8>, k: u64|
            l1.records.contains_key(ca) && l1.records[ca] is Counter && k < l1.records[ca]->Counter_0 implies count_taken(l1, ca, k) by {
            assert(l.records.contains_key(ca) && l.records[ca] == l1.records[ca]);
            assert(count_taken(l, ca, k));
            let x = choose|x: Seq<u8>|
                comment_leads_to(l, x, ca) && l.records[x]->Comment_0.count == k;
            assert(comment_leads_to(l1, x, ca) && l1.records[x]->Comment_0.count == k);
        }
    }
}

/// Law: appending a comment preserves counter consistency — the new comment
/// takes exactly the one count that the bumped counter frees.
pub proof fn lemma_add_comment_preserves_consistency(
    l: LedgerV,
    review: Seq<u8>,
    comment: Seq<u8>,
    commenter: Seq<u8>,
)
    ensures
        counters_consistent(l) ==> counters_consistent(
            spec_add_comment(l, review, comment, commenter).0,
        ),
{
    let (l1, res) = spec_add_comment(l, review, comment, commenter);
    if counters_consistent(l) && res is Ok {
        let ca = counter_pda(review, l.program_id)->Some_0.0;
        let n = l.records[ca]->Counter_0;
        let oa = comment_pda(review, n, l.program_id)->Some_0.0;
        assert(!l.records.contains_key(oa));
        assert forall|x: Seq<u8>| l1.records.contains_key(x) && l1.records[x] is Comment implies {
            let q = counter_pda(l1.records[x]->Comment_0.review, l1.program_id);
            q is Some && ((l1.records.contains_key(q->Some_0.0) && l1.records[q->Some_0.0]
                is Counter) || l1.closed.contains(q->Some_0.0))
        } by {
            if x == oa {
                assert(l1.records[oa]->Comment_0.review == review);
                assert(l1.records.contains_key(ca) && l1.records[ca] is Counter);
            } else {
                assert(l.records.contains_key(x) && l.records[x] == l1.records[x]);
            }
        }
        assert forall|x: Seq<u8>, ca2: Seq<u8>|
            comment_leads_to(l1, x, ca2) && l1.records.contains_key(ca2) && l1.records[ca2]
                is Counter implies l1.records[x]->Comment_0.count < l1.records[ca2]->Counter_0 by {
            if x == oa {
                assert(ca2 == ca);
            } else {
                assert(l.records[x] == l1.records[x]);
                assert(comment_leads_to(l, x, ca2));
                if ca2 == ca {
                    assert(l.records[x]->Comment_0.count < n);
                } else {
                    assert(l.records[ca2] == l1.records[ca2]);
                }
            }
        }
        assert forall|ca2: Seq<u8>, k: u64|
            l1.records.contains_key(ca2) && l1.records[ca2] is Counter && k < l1.records[ca2]->Counter_0 implies count_taken(l1, ca2, k) by {
            if ca2 == ca {
                if k < n {
                    assert(count_taken(l, ca, k));
                    let x = choose|x: Seq<u8>|
                        comment_leads_to(l, x, ca) && l.records[x]->Comment_0.count == k;
                    assert(x != oa && x != ca);
                    assert(comment_leads_to(l1, x, ca) && l1.records[x]->Comment_0.count == k);
                } else {
                    assert(k == n);
                    assert(comment_leads_to(l1, oa, ca) && l1.records[oa]->Comment_0.count == n);
                }
            } else {
                assert(l.records.contains_key(ca2) && l.records[ca2] == l1.records[ca2]);
                assert(count_taken(l, ca2, k));
                let x = choose|x: Seq<u8>|
                    comment_leads_to(l, x, ca2) && l.records[x]->Comment_0.count == k;
                assert(x != oa && x != ca);
                assert(comment_leads_to(l1, x, ca2) && l1.records[x]->Comment_0.count == k);
            }
        }
    }
}

/// Law: closing a review preserves counter consistency — its counter retires
/// into the closed set and every other counter keeps its comments.
pub proof fn lemma_close_preserves_consistency(l: LedgerV, review: Seq<u8>, signer: Seq<u8>)
    ensures
        counters_consistent(l) ==> counters_consistent(spec_close(l, review, signer).0),
{
    let (l1, res) = spec_close(l, review, signer);
    if counters_consistent(l) && res is Ok {
        assert forall|x: Seq<u8>| l1.records.contains_key(x) && l1.records[x] is Comment implies {
            let q = counter_pda(l1.records[x]->Comment_0.review, l1.program_id);
            q is Some && ((l1.records.contains_key(q->Some_0.0) && l1.records[q->Some_0.0]
                is Counter) || l1.closed.contains(q->Some_0.0))
        } by {
            assert(l.records.contains_key(x) && l.records[x] == l1.records[x]);
            let q = counter_pda(l.records[x]->Comment_0.review, l.program_id)->Some_0.0;
            if l.records.contains_key(q) && l.records[q] is Counter {
                if !l1.records.contains_key(q) {
                    assert(l1.closed.contains(q));
                }
            } else {
                assert(l.closed.contains(q) && l1.closed.contains(q));
            }
        }
        assert forall|x: Seq<u8>, ca: Seq<u8>|
            comment_leads_to(l1, x, ca) && l1.records.contains_key(ca) && l1.records[ca]
                is Counter implies l1.records[x]->Comment_0.count < l1.records[ca]->Counter_0 by {
            assert(l.records[x] == l1.records[x]);
            assert(comment_leads_to(l, x, ca));
            assert(l.records[ca] == l1.records[ca]);
        }
        assert forall|ca: Seq<u8>, k: u64|
            l1.records.contains_key(ca) && l1.records[ca] is Counter && k < l1.records[ca]->Counter_0 implies count_taken(l1, ca, k) by {
            assert(l.records.contains_key(ca) && l.records[ca] == l1.records[ca]);
            assert(count_taken(l, ca, k));
            let x = choose|x: Seq<u8>|
                comment_leads_to(l, x, ca) && l.records[x]->Comment_0.count == k;
            assert(l.records[x] is Comment);
            assert(l1.records.contains_key(x));
            assert(comment_leads_to(l1, x, ca) && l1.records[x]->Comment_0.count == k);
        }
    }
}

/// Law: a comment counter never goes backward — whatever operation runs,
/// a counter that is live before and after it never decreases, and only
/// appending a comment to its review moves it, by exactly one.
pub proof fn lemma_counter_monotonic(
    l: LedgerV,
    review: Seq<u8>,
    addr: Seq<u8>,
    text1: Seq<u8>,
    text2: Seq<u8>,
    text3: Seq<u8>,
    rating: u8,
    who: Seq<u8>,
    decimals: u8,
)
    ensures
        ({
            let l1 = spec_add_review(l, text1, text2, rating, who).0;
            (counter_value(l, review) is Some && counter_value(l1, review) is Some)
                ==> counter_value(l1, review)->Some_0 >= counter_value(l, review)->Some_0
        }),
        ({
            let l1 = spec_update_review(l, addr, text1, text2, rating, who).0;
            (counter_value(l, review) is Some && counter_value(l1, review) is Some)
                ==> counter_value(l1, review)->Some_0 >= counter_value(l, review)->Some_0
        }),
        ({
            let l1 = spec_close(l, addr, who).0;
            (counter_value(l, review) is Some && counter_value(l1, review) is Some)
                ==> counter_value(l1, review)->Some_0 >= counter_value(l, review)->Some_0
        }),
        ({
            let l1 = spec_add_comment(l, addr, text1, who).0;
            (counter_value(l, review) is Some && counter_value(l1, review) is Some)
                ==> counter_value(l1, review)->Some_0 >= counter_value(l, review)->Some_0
        }),
        ({
            let l1 = spec_create_reward_mint(l, text1, text2, text3, decimals).0;
            (counter_value(l, review) is Some && counter_value(l1, review) is Some)
                ==> counter_value(l1, review)->Some_0 >= counter_value(l, review)->Some_0
        }),
{
}

/// Law: rewards are exact — a successful creation raises the creator's
/// balance and the total supply by exactly the fixed constant of its kind
/// and no other balance moves; reviews earn the review reward, comments the
/// comment reward.
pub proof fn lemma_reward_amounts(
    l: LedgerV,
    review: Seq<u8>,
    title: Seq<u8>,
    description: Seq<u8>,
    rating: u8,
    creator: Seq<u8>,
    other: Seq<u8>,
)
    ensures
        ({
            let (l1, res) = spec_add_review(l, title, description, rating, creator);
            res is Ok ==> {
                &&& bal_of(l1.balances, creator) == bal_of(l.balances, creator) + REVIEW_REWARD
                &&& l1.supply == l.supply + REVIEW_REWARD
                &&& (other != creator ==> bal_of(l1.balances, other) == bal_of(
                    l.balances,
                    other,
                ))
            }
        }),
        ({
            let (l1, res) = spec_add_comment(l, review, description, creator);
            res is Ok ==> {
                &&& bal_of(l1.balances, creator) == bal_of(l.balances, creator) + COMMENT_REWARD
                &&& l1.supply == l.supply + COMMENT_REWARD
                &&& (other != creator ==> bal_of(l1.balances, other) == bal_of(
                    l.balances,
                    other,
                ))
            }
        }),
{
}

/// Law: the reward mint is created exactly once — after a successful
/// initialization every further attempt fails with `AlreadyInitialized`, and
/// the mint's derived address, bump, decimals and metadata stay exactly as
/// the first call set them.
pub proof fn lemma_initialize_once(
    l: LedgerV,
    uri1: Seq<u8>,
    name1: Seq<u8>,
    symbol1: Seq<u8>,
    decimals1: u8,
    uri2: Seq<u8>,
    name2: Seq<u8>,
    symbol2: Seq<u8>,
    decimals2: u8,
)
    ensures
        ({
            let (l1, res1) = spec_create_reward_mint(l, uri1, name1, symbol1, decimals1);
            let (l2, res2) = spec_create_reward_mint(l1, uri2, name2, symbol2, decimals2);
            res1 is Ok ==> {
                &&& res2 == Err::<(), ErrorCode>(ErrorCode::AlreadyInitialized)
                &&& l2 == l1
                &&& mint_pda(l.program_id) is Some
                &&& l1.mint is Some
                &&& l1.mint->Some_0.address == mint_pda(l.program_id)->Some_0.0
                &&& l1.mint->Some_0.bump == mint_pda(l.program_id)->Some_0.1
                &&& l1.mint->Some_0.decimals == decimals1
                &&& l1.metadata == Some(
                    crate::state::TokenMetaDataV { name: name1, symbol: symbol1, uri: uri1 },
                )
            }
        }),
{
}

} // verus!
