//! Mint and transfer notifications in the NEP-171 event shape. The library
//! builds them; the host serialises and logs them.
use vstd::prelude::*;
use crate::ids::{decimal, decimal_string};

verus! {

/// A notification, tagged by the standard it follows.
#[derive(Debug)]
pub enum NearEvent {
    Nep171(Nep171Event),
}

/// A NEP-171 notification: its version and what happened.
#[derive(Debug)]
pub struct Nep171Event {
    pub version: String,
    pub event_kind: Nep171EventKind,
}

/// What a NEP-171 notification reports.
#[derive(Debug)]
pub enum Nep171EventKind {
    NftMint(Vec<NftMintData>),
    NftTransfer(Vec<NftTransferData>),
}

/// Copies minted to one owner.
#[derive(Debug)]
pub struct NftMintData {
    pub owner_id: String,
    pub token_ids: Vec<String>,
    pub memo: Option<String>,
}

/// Copies moved from one owner to another.
#[derive(Debug)]
pub struct NftTransferData {
    pub authorized_id: Option<String>,
    pub old_owner_id: String,
    pub new_owner_id: String,
    pub token_ids: Vec<String>,
    pub memo: Option<String>,
}

/// The version written into every notification.
pub open spec fn version_v1() -> Seq<char> {
    seq!['1', '.', '0', '.', '0']
}

/// The memo of a mint notification: the series price as a JSON object,
/// `{"price":"<decimal>"}`.
pub open spec fn price_memo_text(price: u128) -> Seq<char> {
    seq!['{', '"', 'p', 'r', 'i', 'c', 'e', '"', ':', '"'] + decimal(price as nat) + seq!['"', '}']
}

/// `e` reports that the copy `token_id` was minted to `owner`, with `memo`.
pub open spec fn is_mint_event(e: NearEvent, owner: Seq<char>, token_id: Seq<char>, memo: Seq<char>) -> bool {
    &&& e->Nep171_0.version@ == version_v1()
    &&& e->Nep171_0.event_kind is NftMint
    &&& e->Nep171_0.event_kind->NftMint_0@.len() == 1
    &&& e->Nep171_0.event_kind->NftMint_0@[0].owner_id@ == owner
    &&& e->Nep171_0.event_kind->NftMint_0@[0].token_ids@.len() == 1
    &&& e->Nep171_0.event_kind->NftMint_0@[0].token_ids@[0]@ == token_id
    &&& e->Nep171_0.event_kind->NftMint_0@[0].memo is Some
    &&& e->Nep171_0.event_kind->NftMint_0@[0].memo->0@ == memo
}

/// The memo of a mint notification for a series priced `price`.
pub fn price_memo(price: u128) -> (r: String)
    ensures
        r@ == price_memo_text(price),
{
    proof {
        reveal_strlit("{\"price\":\"");
        reveal_strlit("\"}");
    }
    let mut memo = String::from_str("{\"price\":\"");
    memo.append(decimal_string(price).as_str());
    memo.append("\"}");
    memo
}

impl NearEvent {
    pub fn new_171(version: String, event_kind: Nep171EventKind) -> (r: Self)
        ensures
            r == NearEvent::Nep171(Nep171Event { version, event_kind }),
    {
        NearEvent::Nep171(Nep171Event { version, event_kind })
    }

    pub fn new_171_v1(event_kind: Nep171EventKind) -> (r: Self)
        ensures
            r->Nep171_0.version@ == version_v1(),
            r->Nep171_0.event_kind == event_kind,
    {
        proof {
            reveal_strlit("1.0.0");
        }
        NearEvent::new_171(String::from_str("1.0.0"), event_kind)
    }

    pub fn nft_transfer(data: Vec<NftTransferData>) -> (r: Self)
        ensures
            r->Nep171_0.version@ == version_v1(),
            r->Nep171_0.event_kind == Nep171EventKind::NftTransfer(data),
    {
        NearEvent::new_171_v1(Nep171EventKind::NftTransfer(data))
    }

    pub fn nft_mint(data: Vec<NftMintData>) -> (r: Self)
        ensures
            r->Nep171_0.version@ == version_v1(),
            r->Nep171_0.event_kind == Nep171EventKind::NftMint(data),
    {
        NearEvent::new_171_v1(Nep171EventKind::NftMint(data))
    }

    /// The notification to log for copies minted to one owner.
    pub fn log_nft_mint(owner_id: String, token_ids: Vec<String>, memo: Option<String>) -> (r:
        Self)
        ensures
            r->Nep171_0.version@ == version_v1(),
            r->Nep171_0.event_kind is NftMint,
            r->Nep171_0.event_kind->NftMint_0@ == seq![NftMintData { owner_id, token_ids, memo }],
    {
        let r = NearEvent::log_nft_mints(vec![NftMintData { owner_id, token_ids, memo }]);
        r
    }

    /// The notification to log for a batch of mints.
    pub fn log_nft_mints(data: Vec<NftMintData>) -> (r: Self)
        ensures
            r->Nep171_0.version@ == version_v1(),
            r->Nep171_0.event_kind == Nep171EventKind::NftMint(data),
    {
        NearEvent::nft_mint(data)
    }

    /// The notification to log for copies moved from one owner to another.
    pub fn log_nft_transfer(
        old_owner_id: String,
        new_owner_id: String,
        token_ids: Vec<String>,
        memo: Option<String>,
        authorized_id: Option<String>,
    ) -> (r: Self)
        ensures
            r->Nep171_0.version@ == version_v1(),
            r->Nep171_0.event_kind is NftTransfer,
            r->Nep171_0.event_kind->NftTransfer_0@ == seq![
                NftTransferData { authorized_id, old_owner_id, new_owner_id, token_ids, memo },
            ],
    {
        NearEvent::log_nft_transfers(
            vec![NftTransferData { authorized_id, old_owner_id, new_owner_id, token_ids, memo }],
        )
    }

    /// The notification to log for a batch of transfers.
    pub fn log_nft_transfers(data: Vec<NftTransferData>) -> (r: Self)
        ensures
            r->Nep171_0.version@ == version_v1(),
            r->Nep171_0.event_kind == Nep171EventKind::NftTransfer(data),
    {
        NearEvent::nft_transfer(data)
    }
}

} // verus!
