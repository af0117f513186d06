//! The record store, its lifecycle rules, and the minting gate.
//!
//! A `Ledger` holds every record of one deployment together with the reward
//! mint, its metadata, and the reward balances.  Each operation runs as one
//! atomic unit: it either commits all its record and balance mutations or
//! leaves the ledger exactly as it was, and reports a specific error.  The
//! meaning of every operation is given by a specification-level transition
//! function over the ledger's view, and each executable operation is proved
//! to implement its transition exactly.
use vstd::prelude::*;
use crate::{ErrorCode, REVIEW_REWARD, COMMENT_REWARD};
use crate::state::{
    AccountState, AccountStateV, Comment, CommentCounter, CommentV, MintState, MintStateV,
    Record, RecordV, TokenMetaData, TokenMetaDataV,
};
use crate::table::Table;
use crate::derivation::{
    counter_pda, comment_pda, mint_pda, review_pda, derive_counter_address,
    derive_comment_address, derive_mint_address, derive_review_address,
};
use crate::bytesutil::bytes_eq;

verus! {

/// The view of a ledger: the records by address, the addresses of records
/// that once lived and were closed, the mint and metadata singletons, the
/// reward balances by owner key, and the total minted supply.
#[verifier::ext_equal]
pub struct LedgerV {
    pub program_id: Seq<u8>,
    pub records: Map<Seq<u8>, RecordV>,
    pub closed: Set<Seq<u8>>,
    pub mint: Option<MintStateV>,
    pub metadata: Option<TokenMetaDataV>,
    pub balances: Map<Seq<u8>, u64>,
    pub supply: u64,
}

/// The reward balance of `owner`: zero until the first mint to it.
pub open spec fn bal_of(balances: Map<Seq<u8>, u64>, owner: Seq<u8>) -> u64 {
    if balances.contains_key(owner) {
        balances[owner]
    } else {
        0
    }
}

/// No closed address holds a record.
pub open spec fn closed_ok(l: LedgerV) -> bool {
    forall|a: Seq<u8>| l.closed.contains(a) ==> !l.records.contains_key(a)
}

/// The empty ledger of a deployment identified by `program_id`.
pub open spec fn spec_init(program_id: Seq<u8>) -> LedgerV {
    LedgerV {
        program_id: program_id,
        records: Map::empty(),
        closed: Set::empty(),
        mint: None,
        metadata: None,
        balances: Map::empty(),
        supply: 0,
    }
}

/// The signing credential of the reward-mint authority: the mint's derived
/// address and bump, reconstructed fresh from the fixed namespace and checked
/// against the stored mint.  There is no credential before the mint exists or
/// if the stored mint does not match its derivation.
pub open spec fn spec_authority(l: LedgerV) -> Result<(Seq<u8>, u8), ErrorCode> {
    match l.mint {
        None => Err(ErrorCode::MintAuthorizationFailed),
        Some(m) => match mint_pda(l.program_id) {
            None => Err(ErrorCode::MintAuthorizationFailed),
            Some(ab) => if ab.0 == m.address && ab.1 == m.bump {
                Ok(ab)
            } else {
                Err(ErrorCode::MintAuthorizationFailed)
            },
        },
    }
}

/// Whether `amount` can be minted to `owner`: a valid authority credential
/// exists and neither the supply nor the owner's balance would overflow.
pub open spec fn mint_feasible(l: LedgerV, owner: Seq<u8>, amount: u64) -> bool {
    &&& spec_authority(l) is Ok
    &&& l.supply + amount <= u64::MAX
    &&& bal_of(l.balances, owner) + amount <= u64::MAX
}

/// The ledger after minting `amount` to `owner`.
pub open spec fn spec_minted(l: LedgerV, owner: Seq<u8>, amount: u64) -> LedgerV {
    LedgerV {
        program_id: l.program_id,
        records: l.records,
        closed: l.closed,
        mint: l.mint,
        metadata: l.metadata,
        balances: l.balances.insert(owner, (bal_of(l.balances, owner) + amount) as u64),
        supply: (l.supply + amount) as u64,
    }
}

/// Create a review and its comment counter, and mint the review reward to
/// the review's author.
pub open spec fn spec_add_review(
    l: LedgerV,
    title: Seq<u8>,
    description: Seq<u8>,
    rating: u8,
    reviewer: Seq<u8>,
) -> (LedgerV, Result<(), ErrorCode>) {
    if rating < 1 || rating > 5 {
        (l, Err(ErrorCode::InvalidRating))
    } else {
        match review_pda(title, reviewer, l.program_id) {
            None => (l, Err(ErrorCode::DerivationExhausted)),
            Some(rp) => match counter_pda(rp.0, l.program_id) {
                None => (l, Err(ErrorCode::DerivationExhausted)),
                Some(cp) => if l.records.contains_key(rp.0) || l.records.contains_key(cp.0)
                    || l.closed.contains(rp.0) || l.closed.contains(cp.0) || rp.0 == cp.0 {
                    (l, Err(ErrorCode::DuplicateRecord))
                } else if !mint_feasible(l, reviewer, REVIEW_REWARD) {
                    (l, Err(ErrorCode::MintAuthorizationFailed))
                } else {
                    let lm = spec_minted(l, reviewer, REVIEW_REWARD);
                    let rec = RecordV::Review(
                        AccountStateV { reviewer, rating, title, description },
                    );
                    (
                        LedgerV {
                            program_id: lm.program_id,
                            records: l.records.insert(rp.0, rec).insert(
                                cp.0,
                                RecordV::Counter(0),
                            ),
                            closed: lm.closed,
                            mint: lm.mint,
                            metadata: lm.metadata,
                            balances: lm.balances,
                            supply: lm.supply,
                        },
                        Ok(()),
                    )
                },
            },
        }
    }
}

/// Update the rating and description of the review owned by `signer` under
/// `title`.  The supplied address must re-derive from `(title, signer)`, and
/// the stored owner key must equal the signer.
pub open spec fn spec_update_review(
    l: LedgerV,
    review: Seq<u8>,
    title: Seq<u8>,
    description: Seq<u8>,
    rating: u8,
    signer: Seq<u8>,
) -> (LedgerV, Result<(), ErrorCode>) {
    if rating < 1 || rating > 5 {
        (l, Err(ErrorCode::InvalidRating))
    } else {
        match review_pda(title, signer, l.program_id) {
            None => (l, Err(ErrorCode::DerivationExhausted)),
            Some(dp) => if review != dp.0 {
                (l, Err(ErrorCode::OwnershipMismatch))
            } else if !l.records.contains_key(review) || !(l.records[review] is Review) {
                (l, Err(ErrorCode::RecordNotFound))
            } else {
                let a = l.records[review]->Review_0;
                if a.reviewer != signer {
                    (l, Err(ErrorCode::OwnershipMismatch))
                } else {
                    let rec = RecordV::Review(
                        AccountStateV {
                            reviewer: a.reviewer,
                            rating,
                            title: a.title,
                            description,
                        },
                    );
                    (
                        LedgerV {
                            program_id: l.program_id,
                            records: l.records.insert(review, rec),
                            closed: l.closed,
                            mint: l.mint,
                            metadata: l.metadata,
                            balances: l.balances,
                            supply: l.supply,
                        },
                        Ok(()),
                    )
                }
            },
        }
    }
}

/// Close the review at `review` and retire its comment counter with it.  The
/// stored owner key must equal the signer.  The address joins the closed set:
/// a closed review never becomes active again.
pub open spec fn spec_close(l: LedgerV, review: Seq<u8>, signer: Seq<u8>) -> (
    LedgerV,
    Result<(), ErrorCode>,
) {
    if !l.records.contains_key(review) || !(l.records[review] is Review) {
        (l, Err(ErrorCode::RecordNotFound))
    } else if l.records[review]->Review_0.reviewer != signer {
        (l, Err(ErrorCode::OwnershipMismatch))
    } else {
        let r1 = l.records.remove(review);
        let cpo = counter_pda(review, l.program_id);
        if cpo is Some && r1.contains_key(cpo->Some_0.0) && r1[cpo->Some_0.0] is Counter {
            (
                LedgerV {
                    program_id: l.program_id,
                    records: r1.remove(cpo->Some_0.0),
                    closed: l.closed.insert(review).insert(cpo->Some_0.0),
                    mint: l.mint,
                    metadata: l.metadata,
                    balances: l.balances,
                    supply: l.supply,
                },
                Ok(()),
            )
        } else {
            (
                LedgerV {
                    program_id: l.program_id,
                    records: r1,
                    closed: l.closed.insert(review),
                    mint: l.mint,
                    metadata: l.metadata,
                    balances: l.balances,
                    supply: l.supply,
                },
                Ok(()),
            )
        }
    }
}

/// Append a comment to the review at `review`: the comment is stamped with
/// the counter's current value, stored at the address derived from that
/// value, the counter increments by one, and the comment reward is minted to
/// the commenter.
pub open spec fn spec_add_comment(
    l: LedgerV,
    review: Seq<u8>,
    comment: Seq<u8>,
    commenter: Seq<u8>,
) -> (LedgerV, Result<(), ErrorCode>) {
    match counter_pda(review, l.program_id) {
        None => (l, Err(ErrorCode::DerivationExhausted)),
        Some(cp) => if !l.records.contains_key(review) || !(l.records[review] is Review)
            || !l.records.contains_key(cp.0) || !(l.records[cp.0] is Counter) {
            (l, Err(ErrorCode::RecordNotFound))
        } else {
            let n = l.records[cp.0]->Counter_0;
            if n == u64::MAX {
                (l, Err(ErrorCode::DerivationExhausted))
            } else {
                match comment_pda(review, n, l.program_id) {
                    None => (l, Err(ErrorCode::DerivationExhausted)),
                    Some(op) => if l.records.contains_key(op.0) || l.closed.contains(op.0) {
                        (l, Err(ErrorCode::DuplicateRecord))
                    } else if !mint_feasible(l, commenter, COMMENT_REWARD) {
                        (l, Err(ErrorCode::MintAuthorizationFailed))
                    } else {
                        let lm = spec_minted(l, commenter, COMMENT_REWARD);
                        let com = RecordV::Comment(
                            CommentV { review, commenter, comment, count: n },
                        );
                        (
                            LedgerV {
                                program_id: lm.program_id,
                                records: l.records.insert(op.0, com).insert(
                                    cp.0,
                                    RecordV::Counter((n + 1) as u64),
                                ),
                                closed: lm.closed,
                                mint: lm.mint,
                                metadata: lm.metadata,
                                balances: lm.balances,
                                supply: lm.supply,
                            },
                            Ok(()),
                        )
                    },
                }
            }
        },
    }
}

/// Create the reward mint at its derived address, its authority being itself,
/// and bind the metadata to it.  Both exist exactly once per deployment.
pub open spec fn spec_create_reward_mint(
    l: LedgerV,
    uri: Seq<u8>,
    name: Seq<u8>,
    symbol: Seq<u8>,
    decimals: u8,
) -> (LedgerV, Result<(), ErrorCode>) {
    if l.mint is Some || l.metadata is Some {
        (l, Err(ErrorCode::AlreadyInitialized))
    } else {
        match mint_pda(l.program_id) {
            None => (l, Err(ErrorCode::DerivationExhausted)),
            Some(mp) => (
                LedgerV {
                    program_id: l.program_id,
                    records: l.records,
                    closed: l.closed,
                    mint: Some(MintStateV { address: mp.0, bump: mp.1, decimals }),
                    metadata: Some(TokenMetaDataV { name, symbol, uri }),
                    balances: l.balances,
                    supply: l.supply,
                },
                Ok(()),
            ),
        }
    }
}

/// A signing credential for the reward-mint authority.  It can only be
/// constructed inside this module, from the fixed namespace and the verified
/// bump, and is never persisted.
pub struct AuthorityToken {
    address: Vec<u8>,
    bump: u8,
}

impl View for AuthorityToken {
    type V = (Seq<u8>, u8);

    closed spec fn view(&self) -> (Seq<u8>, u8) {
        (self.address@, self.bump)
    }
}

/// One deployment's record store, reward mint, metadata and balance book.
pub struct Ledger {
    program_id: Vec<u8>,
    records: Table<Record>,
    closed: Table<u64>,
    mint: Option<MintState>,
    metadata: Option<TokenMetaData>,
    balances: Table<u64>,
    supply: u64,
}

impl View for Ledger {
    type V = LedgerV;

    closed spec fn view(&self) -> LedgerV {
        LedgerV {
            program_id: self.program_id@,
            records: self.records@,
            closed: self.closed@.dom(),
            mint: match self.mint {
                Some(m) => Some(m@),
                None => None,
            },
            metadata: match self.metadata {
                Some(m) => Some(m@),
                None => None,
            },
            balances: self.balances@,
            supply: self.supply,
        }
    }
}

impl Ledger {
    /// The representation invariant: a 32-byte program id, distinct keys in
    /// every table, and no closed address holding a record.
    pub closed spec fn wf(&self) -> bool {
        &&& self.program_id@.len() == 32
        &&& self.records.wf()
        &&& self.closed.wf()
        &&& self.balances.wf()
        &&& closed_ok(self@)
    }

    /// An empty ledger for the deployment identified by `program_id`.
    pub fn new(program_id: Vec<u8>) -> (l: Ledger)
        requires
            program_id@.len() == 32,
        ensures
            l.wf(),
            l@ == spec_init(program_id@),
    {
        let l = Ledger {
            program_id,
            records: Table::new(),
            closed: Table::new(),
            mint: None,
            metadata: None,
            balances: Table::new(),
            supply: 0,
        };
        proof {
            assert(l@.closed =~= Set::<Seq<u8>>::empty());
            assert(l@ =~= spec_init(l.program_id@));
        }
        l
    }

    /// The record at `addr`, if one lives there.
    pub fn record_at(&self, addr: &Vec<u8>) -> (r: Option<&Record>)
        requires
            self.wf(),
        ensures
            match r {
                Some(rec) => self@.records.contains_key(addr@) && rec@ == self@.records[addr@],
                None => !self@.records.contains_key(addr@),
            },
    {
        self.records.get(addr)
    }

    /// The reward balance of `owner`.
    pub fn balance_of(&self, owner: &Vec<u8>) -> (b: u64)
        requires
            self.wf(),
        ensures
            b == bal_of(self@.balances, owner@),
    {
        match self.balances.get(owner) {
            Some(v) => *v,
            None => 0,
        }
    }

    /// The reward mint, once created.
    pub fn mint_info(&self) -> (m: &Option<MintState>)
        ensures
            match m {
                Some(s) => self@.mint == Some(s@),
                None => self@.mint is None,
            },
    {
        &self.mint
    }

    /// The mint metadata, once registered.
    pub fn metadata_info(&self) -> (m: &Option<TokenMetaData>)
        ensures
            match m {
                Some(s) => self@.metadata == Some(s@),
                None => self@.metadata is None,
            },
    {
        &self.metadata
    }

    /// The total minted supply of the reward token.
    pub fn total_supply(&self) -> (s: u64)
        ensures
            s == self@.supply,
    {
        self.supply
    }

    /// Reconstruct the authority credential from the fixed namespace and
    /// check it against the stored mint.
    fn authority_signer(&self) -> (r: Result<AuthorityToken, ErrorCode>)
        requires
            self.wf(),
        ensures
            match r {
                Ok(t) => spec_authority(self@) == Ok::<(Seq<u8>, u8), ErrorCode>(t@),
                Err(e) => spec_authority(self@) == Err::<(Seq<u8>, u8), ErrorCode>(e),
            },
    {
        let m = match &self.mint {
            Some(m) => m,
            None => {
                return Err(ErrorCode::MintAuthorizationFailed);
            },
        };
        let ab = match derive_mint_address(&self.program_id) {
            Ok(ab) => ab,
            Err(_) => {
                return Err(ErrorCode::MintAuthorizationFailed);
            },
        };
        if bytes_eq(&ab.0, &m.address) && ab.1 == m.bump {
            Ok(AuthorityToken { address: ab.0, bump: ab.1 })
        } else {
            Err(ErrorCode::MintAuthorizationFailed)
        }
    }

    /// Mint `amount` to `owner` under a valid authority credential.
    fn mint_to(&mut self, auth: &AuthorityToken, owner: &Vec<u8>, amount: u64)
        requires
            old(self).wf(),
            spec_authority(old(self)@) == Ok::<(Seq<u8>, u8), ErrorCode>(auth@),
            old(self)@.supply + amount <= u64::MAX,
            bal_of(old(self)@.balances, owner@) + amount <= u64::MAX,
        ensures
            final(self).wf(),
            final(self)@ == spec_minted(old(self)@, owner@, amount),
    {
        let bal = match self.balances.get(owner) {
            Some(v) => *v,
            None => 0,
        };
        let exists_already = self.balances.contains(owner);
        if exists_already {
            self.balances.set(owner, bal + amount);
        } else {
            let k = owner.clone();
            proof {
                assert(k@ =~= owner@);
            }
            self.balances.insert(k, bal + amount);
        }
        self.supply = self.supply + amount;
        proof {
            assert(self@ =~= spec_minted(old(self)@, owner@, amount));
        }
    }

    /// Create a review and its comment counter at their derived addresses and
    /// mint the review reward to the review's author.
    pub fn add_review(
        &mut self,
        title: Vec<u8>,
        description: Vec<u8>,
        rating: u8,
        reviewer: Vec<u8>,
    ) -> (r: Result<(), ErrorCode>)
        requires
            old(self).wf(),
        ensures
            final(self).wf(),
            final(self)@ == spec_add_review(old(self)@, title@, description@, rating, reviewer@).0,
            r == spec_add_review(old(self)@, title@, description@, rating, reviewer@).1,
    {
        if rating < 1 || rating > 5 {
            return Err(ErrorCode::InvalidRating);
        }
        let rab = match derive_review_address(&title, &reviewer, &self.program_id) {
            Ok(ab) => ab,
            Err(e) => {
                return Err(e);
            },
        };
        let raddr = rab.0;
        let cab = match derive_counter_address(&raddr, &self.program_id) {
            Ok(ab) => ab,
            Err(e) => {
                return Err(e);
            },
        };
        let caddr = cab.0;
        if self.records.contains(&raddr) || self.records.contains(&caddr)
            || self.closed.contains(&raddr) || self.closed.contains(&caddr)
            || bytes_eq(&raddr, &caddr) {
            return Err(ErrorCode::DuplicateRecord);
        }
        let auth = match self.authority_signer() {
            Ok(a) => a,
            Err(e) => {
                return Err(e);
            },
        };
        let bal = self.balance_of(&reviewer);
        if self.supply > u64::MAX - REVIEW_REWARD || bal > u64::MAX - REVIEW_REWARD {
            return Err(ErrorCode::MintAuthorizationFailed);
        }
        let rec = Record::Review(
            AccountState {
                reviewer: reviewer.clone(),
                rating,
                title: title.clone(),
                description,
            },
        );
        proof {
            assert(rec@ == RecordV::Review(
                AccountStateV { reviewer: reviewer@, rating, title: title@, description: description@ },
            ));
        }
        self.records.insert(raddr, rec);
        self.records.insert(caddr, Record::Counter(CommentCounter { counter: 0 }));
        self.mint_to(&auth, &reviewer, REVIEW_REWARD);
        proof {
            assert forall|a: Seq<u8>| self@.closed.contains(a) implies !self@.records.contains_key(
                a,
            ) by {
                assert(!old(self)@.records.contains_key(a));
            }
            assert(self@ =~= spec_add_review(
                old(self)@,
                title@,
                description@,
                rating,
                reviewer@,
            ).0);
        }
        Ok(())
    }

    /// Update the rating and description of the review at `review`, owned by
    /// `signer` under `title`.
    pub fn update_review(
        &mut self,
        review: &Vec<u8>,
        title: &Vec<u8>,
        description: Vec<u8>,
        rating: u8,
        signer: &Vec<u8>,
    ) -> (r: Result<(), ErrorCode>)
        requires
            old(self).wf(),
        ensures
            final(self).wf(),
            final(self)@ == spec_update_review(
                old(self)@,
                review@,
                title@,
                description@,
                rating,
                signer@,
            ).0,
            r == spec_update_review(
                old(self)@,
                review@,
                title@,
                description@,
                rating,
                signer@,
            ).1,
    {
        if rating < 1 || rating > 5 {
            return Err(ErrorCode::InvalidRating);
        }
        let dab = match derive_review_address(title, signer, &self.program_id) {
            Ok(ab) => ab,
            Err(e) => {
                return Err(e);
            },
        };
        if !bytes_eq(review, &dab.0) {
            return Err(ErrorCode::OwnershipMismatch);
        }
        let a = match self.records.get(review) {
            Some(Record::Review(a)) => a,
            _ => {
                return Err(ErrorCode::RecordNotFound);
            },
        };
        if !bytes_eq(&a.reviewer, signer) {
            return Err(ErrorCode::OwnershipMismatch);
        }
        let rec = Record::Review(
            AccountState {
                reviewer: a.reviewer.clone(),
                rating,
                title: a.title.clone(),
                description,
            },
        );
        self.records.set(review, rec);
        proof {
            assert forall|x: Seq<u8>| self@.closed.contains(x) implies !self@.records.contains_key(
                x,
            ) by {
                assert(!old(self)@.records.contains_key(x));
                assert(self@.records.dom() =~= old(self)@.records.dom());
            }
            assert(self@ =~= spec_update_review(
                old(self)@,
                review@,
                title@,
                description@,
                rating,
                signer@,
            ).0);
        }
        Ok(())
    }

    /// Close the review at `review` and retire its comment counter with it.
    pub fn close(&mut self, review: &Vec<u8>, signer: &Vec<u8>) -> (r: Result<(), ErrorCode>)
        requires
            old(self).wf(),
        ensures
            final(self).wf(),
            final(self)@ == spec_close(old(self)@, review@, signer@).0,
            r == spec_close(old(self)@, review@, signer@).1,
    {
        let owner_matches = match self.records.get(review) {
            Some(Record::Review(a)) => bytes_eq(&a.reviewer, signer),
            Some(_) => {
                return Err(ErrorCode::RecordNotFound);
            },
            None => {
                return Err(ErrorCode::RecordNotFound);
            },
        };
        if !owner_matches {
            return Err(ErrorCode::OwnershipMismatch);
        }
        self.records.remove(review);
        let rkey = review.clone();
        proof {
            assert(rkey@ =~= review@);
        }
        match derive_counter_address(review, &self.program_id) {
            Ok(cab) => {
                let counter_found = match self.records.get(&cab.0) {
                    Some(Record::Counter(_)) => true,
                    _ => false,
                };
                if counter_found {
                    self.records.remove(&cab.0);
                    self.closed.insert(rkey, 0);
                    self.closed.insert(cab.0, 0);
                } else {
                    self.closed.insert(rkey, 0);
                }
            },
            Err(_) => {
                self.closed.insert(rkey, 0);
            },
        }
        proof {
            assert forall|x: Seq<u8>| self@.closed.contains(x) implies !self@.records.contains_key(
                x,
            ) by {}
            assert(self@.closed =~= spec_close(old(self)@, review@, signer@).0.closed);
            assert(self@ =~= spec_close(old(self)@, review@, signer@).0);
        }
        Ok(())
    }

    /// Append a comment to the review at `review` and mint the comment reward
    /// to the commenter.
    pub fn add_comment(&mut self, review: &Vec<u8>, comment: Vec<u8>, commenter: Vec<u8>) -> (r:
        Result<(), ErrorCode>)
        requires
            old(self).wf(),
        ensures
            final(self).wf(),
            final(self)@ == spec_add_comment(old(self)@, review@, comment@, commenter@).0,
            r == spec_add_comment(old(self)@, review@, comment@, commenter@).1,
    {
        let cab = match derive_counter_address(review, &self.program_id) {
            Ok(ab) => ab,
            Err(e) => {
                return Err(e);
            },
        };
        let caddr = cab.0;
        let review_found = match self.records.get(review) {
            Some(Record::Review(_)) => true,
            _ => false,
        };
        if !review_found {
            return Err(ErrorCode::RecordNotFound);
        }
        let n = match self.records.get(&caddr) {
            Some(Record::Counter(c)) => c.counter,
            _ => {
                return Err(ErrorCode::RecordNotFound);
            },
        };
        if n == u64::MAX {
            return Err(ErrorCode::DerivationExhausted);
        }
        let oab = match derive_comment_address(review, n, &self.program_id) {
            Ok(ab) => ab,
            Err(e) => {
                return Err(e);
            },
        };
        let oaddr = oab.0;
        if self.records.contains(&oaddr) || self.closed.contains(&oaddr) {
            return Err(ErrorCode::DuplicateRecord);
        }
        let auth = match self.authority_signer() {
            Ok(a) => a,
            Err(e) => {
                return Err(e);
            },
        };
        let bal = self.balance_of(&commenter);
        if self.supply > u64::MAX - COMMENT_REWARD || bal > u64::MAX - COMMENT_REWARD {
            return Err(ErrorCode::MintAuthorizationFailed);
        }
        let com = Record::Comment(
            Comment {
                review: review.clone(),
                commenter: commenter.clone(),
                comment,
                count: n,
            },
        );
        proof {
            assert(com@ == RecordV::Comment(
                CommentV { review: review@, commenter: commenter@, comment: comment@, count: n },
            ));
        }
        self.records.insert(oaddr, com);
        self.records.set(&caddr, Record::Counter(CommentCounter { counter: n + 1 }));
        self.mint_to(&auth, &commenter, COMMENT_REWARD);
        proof {
            assert forall|x: Seq<u8>| self@.closed.contains(x) implies !self@.records.contains_key(
                x,
            ) by {
                assert(!old(self)@.records.contains_key(x));
            }
            assert(self@ =~= spec_add_comment(old(self)@, review@, comment@, commenter@).0);
        }
        Ok(())
    }

    /// Create the reward mint and bind its metadata, exactly once per
    /// deployment.
    pub fn create_reward_mint(
        &mut self,
        uri: Vec<u8>,
        name: Vec<u8>,
        symbol: Vec<u8>,
        decimals: u8,
    ) -> (r: Result<(), ErrorCode>)
        requires
            old(self).wf(),
        ensures
            final(self).wf(),
            final(self)@ == spec_create_reward_mint(
                old(self)@,
                uri@,
                name@,
                symbol@,
                decimals,
            ).0,
            r == spec_create_reward_mint(old(self)@, uri@, name@, symbol@, decimals).1,
    {
        let already = match &self.mint {
            Some(_) => true,
            None => match &self.metadata {
                Some(_) => true,
                None => false,
            },
        };
        if already {
            return Err(ErrorCode::AlreadyInitialized);
        }
        let mab = match derive_mint_address(&self.program_id) {
            Ok(ab) => ab,
            Err(e) => {
                return Err(e);
            },
        };
        self.mint = Some(MintState { address: mab.0, bump: mab.1, decimals });
        self.metadata = Some(TokenMetaData { name, symbol, uri });
        proof {
            assert(self@ =~= spec_create_reward_mint(
                old(self)@,
                uri@,
                name@,
                symbol@,
                decimals,
            ).0);
        }
        Ok(())
    }
}

} // verus!
