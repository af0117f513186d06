//! The records of the store and their mathematical views.
//!
//! Each record is a typed unit of state kept at a derived address: a review,
//! the comment counter paired with it, or a comment.  The reward mint and its
//! metadata are singletons kept beside the record table.
use vstd::prelude::*;

verus! {

/// A review record: its immutable owner, a rating in `[1, 5]`, and the
/// title and description text as bytes.
pub struct AccountState {
    pub reviewer: Vec<u8>,
    pub rating: u8,
    pub title: Vec<u8>,
    pub description: Vec<u8>,
}

/// The view of a review record.
#[verifier::ext_equal]
pub struct AccountStateV {
    pub reviewer: Seq<u8>,
    pub rating: u8,
    pub title: Seq<u8>,
    pub description: Seq<u8>,
}

impl View for AccountState {
    type V = AccountStateV;

    open spec fn view(&self) -> AccountStateV {
        AccountStateV {
            reviewer: self.reviewer@,
            rating: self.rating,
            title: self.title@,
            description: self.description@,
        }
    }
}

/// The monotonically increasing comment counter paired with one review.
pub struct CommentCounter {
    pub counter: u64,
}

impl View for CommentCounter {
    type V = u64;

    open spec fn view(&self) -> u64 {
        self.counter
    }
}

/// A comment record: the review it belongs to, its author, its text, and the
/// counter value it was stamped with at creation.
pub struct Comment {
    pub review: Vec<u8>,
    pub commenter: Vec<u8>,
    pub comment: Vec<u8>,
    pub count: u64,
}

/// The view of a comment record.
#[verifier::ext_equal]
pub struct CommentV {
    pub review: Seq<u8>,
    pub commenter: Seq<u8>,
    pub comment: Seq<u8>,
    pub count: u64,
}

impl View for Comment {
    type V = CommentV;

    open spec fn view(&self) -> CommentV {
        CommentV {
            review: self.review@,
            commenter: self.commenter@,
            comment: self.comment@,
            count: self.count,
        }
    }
}

/// Any record held in the store.
pub enum Record {
    Review(AccountState),
    Counter(CommentCounter),
    Comment(Comment),
}

/// The view of a record.
#[verifier::ext_equal]
pub enum RecordV {
    Review(AccountStateV),
    Counter(u64),
    Comment(CommentV),
}

impl View for Record {
    type V = RecordV;

    open spec fn view(&self) -> RecordV {
        match self {
            Record::Review(a) => RecordV::Review(a@),
            Record::Counter(c) => RecordV::Counter(c@),
            Record::Comment(c) => RecordV::Comment(c@),
        }
    }
}

/// The singleton reward mint: its derived address, the bump of that
/// derivation, and its decimals, all fixed at creation.  The mint is its own
/// authority.
pub struct MintState {
    pub address: Vec<u8>,
    pub bump: u8,
    pub decimals: u8,
}

/// The view of the reward mint.
#[verifier::ext_equal]
pub struct MintStateV {
    pub address: Seq<u8>,
    pub bump: u8,
    pub decimals: u8,
}

impl View for MintState {
    type V = MintStateV;

    open spec fn view(&self) -> MintStateV {
        MintStateV { address: self.address@, bump: self.bump, decimals: self.decimals }
    }
}

/// The human-readable metadata bound once to the reward mint.
pub struct TokenMetaData {
    pub name: Vec<u8>,
    pub symbol: Vec<u8>,
    pub uri: Vec<u8>,
}

/// The view of the mint metadata.
#[verifier::ext_equal]
pub struct TokenMetaDataV {
    pub name: Seq<u8>,
    pub symbol: Seq<u8>,
    pub uri: Seq<u8>,
}

impl View for TokenMetaData {
    type V = TokenMetaDataV;

    open spec fn view(&self) -> TokenMetaDataV {
        TokenMetaDataV { name: self.name@, symbol: self.symbol@, uri: self.uri@ }
    }
}

} // verus!
