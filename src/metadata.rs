//! The records of the ledger: series, copies and their display metadata.
use vstd::prelude::*;
use crate::ids::{get_id_and_copy, next_delim};

verus! {

/// Media shown for a copy whose series names none.
pub const DEFAULT_MEDIA: &'static str = "https://assets.website-files.com/6183638541c07be9ecbe4559/6221296e8a95113bac90ffdd_transparent%20background.png";

/// Title used for a copy whose metadata has none.
pub const UNDEFINED_TITLE: &'static str = "Undefined";

/// Amounts owed to accounts on a sale.
pub struct Payout {
    pub payout: std::collections::HashMap<String, u128>,
}

/// Metadata of the ledger itself.
#[derive(Clone, Debug)]
pub struct NFTContractMetadata {
    /// A version, such as "nft-1.0.0".
    pub spec: String,
    pub name: String,
    pub symbol: String,
    /// Data URL.
    pub icon: Option<String>,
    /// Gateway for the assets that `reference` or `media` URLs point to.
    pub base_uri: Option<String>,
    /// URL to a JSON file with more info.
    pub reference: Option<String>,
    /// Hash of the JSON at `reference`.
    pub reference_hash: Option<Vec<u8>>,
}

/// One resource of a series, with its own media.
#[derive(Clone, Debug)]
pub struct TrailResource {
    pub title: Option<String>,
    pub description: Option<String>,
    /// URL of the resource's media.
    pub media: String,
    pub extra: Option<String>,
    pub reference: Option<String>,
}

/// How many copies a series allows, and how many were minted.
#[derive(Clone, Copy, Debug, PartialEq, Eq)]
pub struct SeriesSupply {
    pub total: u64,
    pub circulating: u64,
}

/// What a creator describes when creating a series.
#[derive(Clone, Debug)]
pub struct TrailSeriesMetadata {
    pub title: String,
    pub description: String,
    /// Number of copies the series allows; at least one.
    pub tickets_amount: u64,
    pub media: Option<String>,
    pub data: Option<String>,
    /// At least one resource.
    pub resources: Vec<TrailResource>,
    /// Start of the validity window, Unix epoch in milliseconds.
    pub starts_at: Option<u64>,
    /// End of the validity window (excluded), Unix epoch in milliseconds.
    pub expires_at: Option<u64>,
    pub reference: Option<String>,
    /// Free-form external id.
    pub campground_id: String,
}

/// Display metadata of one copy.
#[derive(Clone, Debug)]
pub struct TokenMetadata {
    pub title: Option<String>,
    pub description: Option<String>,
    pub media: Option<String>,
    pub media_hash: Option<Vec<u8>>,
    pub copies: Option<u64>,
    pub issued_at: Option<u64>,
    pub expires_at: Option<u64>,
    pub starts_at: Option<u64>,
    pub updated_at: Option<u64>,
    pub extra: Option<String>,
    pub reference: Option<String>,
    pub reference_hash: Option<Vec<u8>>,
}

/// A series: the template that copies are minted from.
#[derive(Clone, Debug)]
pub struct TrailSeries {
    /// Cleared for good by the mint that exhausts the supply.
    pub is_mintable: bool,
    pub creator_id: String,
    /// When the series was created.
    pub issue_at: u64,
    pub metadata: TrailSeriesMetadata,
    pub supply: SeriesSupply,
    /// Base unit price.
    pub price: u128,
    /// Platform fee, fixed when the series was created.
    pub campground_fee_near: u128,
    /// Royalty hint for secondary sales.
    pub creator_royalty_near: Option<u128>,
}

/// One minted copy.
#[derive(Clone, Debug)]
pub struct TrailBusiness {
    /// Current holder.
    pub owner_id: String,
    /// Id of the series the copy was minted from.
    pub token_id: String,
    /// Display snapshot taken from the series when the copy was minted.
    pub partial_metadata: TokenMetadata,
}

/// A copy or a series, composed for display.
#[derive(Clone, Debug)]
pub struct JsonTrail {
    pub token_id: String,
    pub owner_id: String,
    pub series: TrailSeries,
    pub metadata: TokenMetadata,
}

/// The two series hold the same values, field by field.
pub open spec fn same_series(a: TrailSeries, b: TrailSeries) -> bool {
    &&& a.is_mintable == b.is_mintable
    &&& a.creator_id@ == b.creator_id@
    &&& a.issue_at == b.issue_at
    &&& same_series_metadata(a.metadata, b.metadata)
    &&& a.supply == b.supply
    &&& a.price == b.price
    &&& a.campground_fee_near == b.campground_fee_near
    &&& a.creator_royalty_near == b.creator_royalty_near
}

pub open spec fn same_series_metadata(a: TrailSeriesMetadata, b: TrailSeriesMetadata) -> bool {
    &&& a.title@ == b.title@
    &&& a.description@ == b.description@
    &&& a.tickets_amount == b.tickets_amount
    &&& a.media == b.media
    &&& a.data == b.data
    &&& a.resources@ == b.resources@
    &&& a.starts_at == b.starts_at
    &&& a.expires_at == b.expires_at
    &&& a.reference == b.reference
    &&& a.campground_id@ == b.campground_id@
}

/// The media a copy shows: its series' media, or the default one.
pub open spec fn media_or_default(media: Option<String>) -> Seq<char> {
    match media {
        Some(m) => m@,
        None => DEFAULT_MEDIA@,
    }
}

/// The title a copy shows: its own title, followed by `" #"` and the copy number.
pub open spec fn numbered_title(title: Option<String>, copy_number: Seq<char>) -> Seq<char> {
    let base = match title {
        Some(t) => t@,
        None => UNDEFINED_TITLE@,
    };
    base + seq![' ', '#'] + copy_number
}

/// `m` is the display snapshot of `series`: its title, description and media
/// (the default media where the series names none), nothing else.
pub open spec fn is_snapshot(m: TokenMetadata, series: TrailSeries) -> bool {
    &&& m.title is Some && m.title->0@ == series.metadata.title@
    &&& m.description is Some && m.description->0@ == series.metadata.description@
    &&& m.media is Some && m.media->0@ == media_or_default(series.metadata.media)
    &&& m.media_hash is None && m.copies is None && m.issued_at is None
    &&& m.expires_at is None && m.starts_at is None && m.updated_at is None
    &&& m.extra is None && m.reference is None && m.reference_hash is None
}

fn copy_string(s: &String) -> (r: String)
    ensures
        r == *s,
{
    s.clone()
}

fn copy_opt_string(s: &Option<String>) -> (r: Option<String>)
    ensures
        r == *s,
{
    match s {
        Some(v) => Some(copy_string(v)),
        None => None,
    }
}

fn copy_resource(r0: &TrailResource) -> (r: TrailResource)
    ensures
        r == *r0,
{
    TrailResource {
        title: copy_opt_string(&r0.title),
        description: copy_opt_string(&r0.description),
        media: copy_string(&r0.media),
        extra: copy_opt_string(&r0.extra),
        reference: copy_opt_string(&r0.reference),
    }
}

fn copy_resources(v: &Vec<TrailResource>) -> (r: Vec<TrailResource>)
    ensures
        r@ == v@,
{
    let mut out: Vec<TrailResource> = Vec::new();
    let mut i: usize = 0;
    while i < v.len()
        invariant
            i <= v@.len(),
            out@ == v@.subrange(0, i as int),
        decreases v.len() - i,
    {
        out.push(copy_resource(&v[i]));
        i += 1;
        assert(out@ =~= v@.subrange(0, i as int));
    }
    assert(out@ =~= v@);
    out
}

fn copy_series_metadata(m: &TrailSeriesMetadata) -> (r: TrailSeriesMetadata)
    ensures
        same_series_metadata(r, *m),
{
    TrailSeriesMetadata {
        title: copy_string(&m.title),
        description: copy_string(&m.description),
        tickets_amount: m.tickets_amount,
        media: copy_opt_string(&m.media),
        data: copy_opt_string(&m.data),
        resources: copy_resources(&m.resources),
        starts_at: m.starts_at,
        expires_at: m.expires_at,
        reference: copy_opt_string(&m.reference),
        campground_id: copy_string(&m.campground_id),
    }
}

/// The two snapshots hold the same values, field by field.
pub open spec fn same_token_metadata(a: TokenMetadata, b: TokenMetadata) -> bool {
    &&& a.title == b.title
    &&& a.description == b.description
    &&& a.media == b.media
    &&& opt_bytes(a.media_hash) == opt_bytes(b.media_hash)
    &&& a.copies == b.copies
    &&& a.issued_at == b.issued_at
    &&& a.expires_at == b.expires_at
    &&& a.starts_at == b.starts_at
    &&& a.updated_at == b.updated_at
    &&& a.extra == b.extra
    &&& a.reference == b.reference
    &&& opt_bytes(a.reference_hash) == opt_bytes(b.reference_hash)
}

pub open spec fn opt_bytes(b: Option<Vec<u8>>) -> Option<Seq<u8>> {
    match b {
        Some(v) => Some(v@),
        None => None,
    }
}

fn copy_opt_bytes(b: &Option<Vec<u8>>) -> (r: Option<Vec<u8>>)
    ensures
        opt_bytes(r) == opt_bytes(*b),
{
    match b {
        Some(v) => {
            let mut out: Vec<u8> = Vec::new();
            let mut i: usize = 0;
            while i < v.len()
                invariant
                    i <= v@.len(),
                    out@ == v@.subrange(0, i as int),
                decreases v.len() - i,
            {
                out.push(v[i]);
                i += 1;
                assert(out@ =~= v@.subrange(0, i as int));
            }
            assert(out@ =~= v@);
            Some(out)
        },
        None => None,
    }
}

/// The two copy records hold the same values, field by field.
pub open spec fn same_copy(a: TrailBusiness, b: TrailBusiness) -> bool {
    &&& a.owner_id@ == b.owner_id@
    &&& a.token_id@ == b.token_id@
    &&& same_token_metadata(a.partial_metadata, b.partial_metadata)
}

/// A copy of `b` holding the same values.
pub fn copy_business(b: &TrailBusiness) -> (r: TrailBusiness)
    ensures
        same_copy(r, *b),
{
    TrailBusiness {
        owner_id: copy_string(&b.owner_id),
        token_id: copy_string(&b.token_id),
        partial_metadata: copy_token_metadata(&b.partial_metadata),
    }
}

/// A copy of `m` holding the same values.
pub fn copy_token_metadata(m: &TokenMetadata) -> (r: TokenMetadata)
    ensures
        same_token_metadata(r, *m),
{
    TokenMetadata {
        title: copy_opt_string(&m.title),
        description: copy_opt_string(&m.description),
        media: copy_opt_string(&m.media),
        media_hash: copy_opt_bytes(&m.media_hash),
        copies: m.copies,
        issued_at: m.issued_at,
        expires_at: m.expires_at,
        starts_at: m.starts_at,
        updated_at: m.updated_at,
        extra: copy_opt_string(&m.extra),
        reference: copy_opt_string(&m.reference),
        reference_hash: copy_opt_bytes(&m.reference_hash),
    }
}

/// A copy of `s` holding the same values.
pub fn copy_series(s: &TrailSeries) -> (r: TrailSeries)
    ensures
        same_series(r, *s),
{
    TrailSeries {
        is_mintable: s.is_mintable,
        creator_id: copy_string(&s.creator_id),
        issue_at: s.issue_at,
        metadata: copy_series_metadata(&s.metadata),
        supply: s.supply,
        price: s.price,
        campground_fee_near: s.campground_fee_near,
        creator_royalty_near: s.creator_royalty_near,
    }
}

/// The display snapshot that a copy takes from its series: title,
/// description and media (the default media where the series names none).
pub fn partial_metadata_from_trail_series(trail_series: &TrailSeries) -> (r: TokenMetadata)
    ensures
        is_snapshot(r, *trail_series),
{
    let media = match &trail_series.metadata.media {
        Some(m) => m.clone(),
        None => String::from_str(DEFAULT_MEDIA),
    };
    TokenMetadata {
        title: Some(trail_series.metadata.title.clone()),
        description: Some(trail_series.metadata.description.clone()),
        media: Some(media),
        media_hash: None,
        copies: None,
        issued_at: None,
        expires_at: None,
        starts_at: None,
        updated_at: None,
        extra: None,
        reference: None,
        reference_hash: None,
    }
}

/// Composes the display view of a copy or a series. With `include_copy_number`
/// the title gets the copy number that `token_id` carries.
pub fn format_json_trail(
    token_id: String,
    owner_id: String,
    series: TrailSeries,
    metadata: TokenMetadata,
    include_copy_number: bool,
) -> (r: JsonTrail)
    requires
        include_copy_number ==> next_delim(token_id@, 0) < token_id@.len(),
    ensures
        r.token_id == token_id,
        r.owner_id == owner_id,
        r.series == series,
        r.metadata == (TokenMetadata { title: r.metadata.title, ..metadata }),
        include_copy_number ==> r.metadata.title is Some && r.metadata.title->0@ == numbered_title(
            metadata.title,
            token_id@.subrange(
                next_delim(token_id@, 0) + 1,
                next_delim(token_id@, next_delim(token_id@, 0) + 1),
            ),
        ),
        !include_copy_number ==> r.metadata.title == metadata.title,
{
    let mut metadata_copy = metadata;
    if include_copy_number {
        let (_id, copy_number) = get_id_and_copy(token_id.clone());
        let mut title = match &metadata_copy.title {
            Some(t) => t.clone(),
            None => String::from_str(UNDEFINED_TITLE),
        };
        proof {
            reveal_strlit(" #");
        }
        title.append(" #");
        title.append(copy_number.as_str());
        metadata_copy.title = Some(title);
    }
    JsonTrail { token_id, owner_id, series, metadata: metadata_copy }
}

} // verus!
