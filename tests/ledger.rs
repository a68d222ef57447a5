use ito_contract::error::CampgroundError;
use ito_contract::ledger::Contract;
use ito_contract::metadata::{JsonTrail, TrailResource, TrailSeriesMetadata};
use ito_contract::{BUY_STORAGE, MAX_PRICE, ONE_NEAR};

const STARTS_AT: u64 = 1647109675;
const EXPIRES_AT: u64 = 1647216000;
const NOW: u64 = 1647150000;

fn owner() -> String {
    "campground_owner.near".to_string()
}

fn alice() -> String {
    "alice".to_string()
}

fn bob() -> String {
    "bob".to_string()
}

fn carol() -> String {
    "carol".to_string()
}

fn treasury() -> String {
    "campground_treasury.near".to_string()
}

fn setup_contract() -> Contract {
    Contract::new_default_meta(owner(), treasury())
}

fn trail_metadata(title: &str, tickets: Option<u64>, resources: Option<Vec<TrailResource>>) -> TrailSeriesMetadata {
    TrailSeriesMetadata {
        title: title.to_string(),
        description: String::new(),
        tickets_amount: tickets.unwrap_or(100),
        media: None,
        data: None,
        resources: resources.unwrap_or(vec![TrailResource {
            title: Some(format!("{}-resource", title)),
            description: None,
            media: format!("{}.png", title),
            extra: None,
            reference: None,
        }]),
        starts_at: Some(STARTS_AT),
        expires_at: Some(EXPIRES_AT),
        reference: None,
        campground_id: "CMPGR123".to_string(),
    }
}

fn create_series(
    contract: &mut Contract,
    caller: &String,
    title: &str,
    price: Option<u128>,
    tickets: Option<u64>,
    resources: Option<Vec<TrailResource>>,
) -> Result<JsonTrail, CampgroundError> {
    contract.create_trail_series(caller, trail_metadata(title, tickets, resources), price, None, None, NOW)
}

#[test]
fn test_new() {
    let contract = setup_contract();
    assert_eq!(contract.get_owner(), &owner());
    assert_eq!(contract.campground_fee, 5);
}

#[test]
fn contract_should_be_initialized_with_default_values() {
    let contract = setup_contract();
    assert_eq!(contract.get_owner(), &owner());
    assert_eq!(contract.get_fee_percentage(), 5);
    assert_eq!(contract.get_current_fee(), ONE_NEAR / 10);
    assert_eq!(contract.get_treasury_address(), treasury());
    assert_eq!(contract.nft_metadata().spec, "nft-1.0.0");
    assert_eq!(contract.nft_metadata().symbol, "CMPGRND");
}

#[test]
fn create_trail_series() {
    let mut contract = setup_contract();
    let trail_series =
        create_series(&mut contract, &alice(), "CampgroundTest", Some(ONE_NEAR), None, None).unwrap();
    let trail_by_id = contract.get_trail_by_id(&"1".to_string()).unwrap();
    assert_eq!(trail_series.token_id, "1");
    assert_eq!(trail_series.series.creator_id, trail_by_id.creator_id);
    assert_eq!(trail_series.series.price, trail_by_id.price);
    assert_eq!(trail_series.series.metadata.expires_at, trail_by_id.metadata.expires_at);
    assert_eq!(trail_series.series.metadata.starts_at, trail_by_id.metadata.starts_at);
    assert_eq!(trail_by_id.metadata.resources.get(0).unwrap().media, "CampgroundTest.png");
    assert_eq!(trail_by_id.campground_fee_near, ONE_NEAR / 10);
    assert_eq!(trail_by_id.issue_at, NOW);
}

#[test]
fn series_ids_are_sequential() {
    let mut contract = setup_contract();
    let first = create_series(&mut contract, &alice(), "A", None, None, None).unwrap();
    let second = create_series(&mut contract, &bob(), "B", None, None, None).unwrap();
    assert_eq!(first.token_id, "1");
    assert_eq!(second.token_id, "2");
    assert!(contract.series_exists(&"2".to_string()));
    assert!(!contract.series_exists(&"3".to_string()));
    assert!(contract.is_creator(&"2".to_string(), &bob()));
    assert!(!contract.is_creator(&"2".to_string(), &alice()));
}

#[test]
fn creator_override_names_the_creator() {
    let mut contract = setup_contract();
    let series = contract
        .create_trail_series(&alice(), trail_metadata("A", None, None), None, Some(bob()), Some(7), NOW)
        .unwrap();
    assert_eq!(series.owner_id, bob());
    assert_eq!(series.series.creator_royalty_near, Some(7));
}

#[test]
fn create_trail_series_invalid_price() {
    let mut contract = setup_contract();
    let result = create_series(
        &mut contract,
        &alice(),
        "CampgroundTest",
        Some(1_000_000_001 * 10u128.pow(24)),
        None,
        None,
    );
    assert_eq!(result.unwrap_err(), CampgroundError::InvalidArgument);
    assert!(!contract.series_exists(&"1".to_string()));
}

#[test]
fn price_at_ceiling_is_refused() {
    let mut contract = setup_contract();
    let result = create_series(&mut contract, &alice(), "T", Some(MAX_PRICE), None, None);
    assert_eq!(result.unwrap_err(), CampgroundError::InvalidArgument);
    assert!(create_series(&mut contract, &alice(), "T", Some(MAX_PRICE - 1), None, None).is_ok());
}

#[test]
fn create_trail_series_invalid_ticket_amount() {
    let mut contract = setup_contract();
    let result = create_series(&mut contract, &alice(), "CampgroundTest", Some(ONE_NEAR), Some(0), None);
    assert_eq!(result.unwrap_err(), CampgroundError::InvalidArgument);
}

#[test]
fn create_trail_series_invalid_resources_amount() {
    let mut contract = setup_contract();
    let result =
        create_series(&mut contract, &alice(), "CampgroundTest", Some(ONE_NEAR), Some(1), Some(vec![]));
    assert_eq!(result.unwrap_err(), CampgroundError::InvalidArgument);
}

#[test]
fn fee_that_cannot_be_computed_is_refused() {
    let mut contract = setup_contract();
    contract.change_campground_fee(&owner(), u64::MAX).unwrap();
    let result = create_series(&mut contract, &alice(), "T", Some(MAX_PRICE - 1), None, None);
    assert_eq!(result.unwrap_err(), CampgroundError::InvalidArgument);
}

#[test]
fn test_minting() {
    let mut contract = setup_contract();
    create_series(&mut contract, &alice(), "CampgroundTest", Some(ONE_NEAR), Some(1), None).unwrap();
    assert!(contract.get_trail_by_id(&"1".to_string()).unwrap().is_mintable);
    let (copy_id, _) = contract.nft_mint(&alice(), &"1".to_string(), &bob()).unwrap();
    assert_eq!(copy_id, "1:1");
    assert_eq!(contract.get_all_trails_by_owner(&bob()).len(), 1);
    assert!(!contract.get_trail_by_id(&"1".to_string()).unwrap().is_mintable);
    let again = contract.nft_mint(&alice(), &"1".to_string(), &bob());
    assert_eq!(again.unwrap_err(), CampgroundError::NotMintable);
}

#[test]
fn only_creator_mints_directly() {
    let mut contract = setup_contract();
    create_series(&mut contract, &alice(), "T", Some(ONE_NEAR), None, None).unwrap();
    let result = contract.nft_mint(&bob(), &"1".to_string(), &bob());
    assert_eq!(result.unwrap_err(), CampgroundError::Unauthorized);
    let missing = contract.nft_mint(&alice(), &"2".to_string(), &bob());
    assert_eq!(missing.unwrap_err(), CampgroundError::NotFound);
}

#[test]
fn mint_event_carries_price() {
    let mut contract = setup_contract();
    create_series(&mut contract, &alice(), "T", Some(1000), None, None).unwrap();
    let (_, event) = contract.nft_mint(&alice(), &"1".to_string(), &bob()).unwrap();
    let ito_contract::event::NearEvent::Nep171(event) = event;
    match event.event_kind {
        ito_contract::event::Nep171EventKind::NftMint(data) => {
            assert_eq!(data[0].owner_id, bob());
            assert_eq!(data[0].token_ids, vec!["1:1".to_string()]);
            assert_eq!(data[0].memo, Some("{\"price\":\"1000\"}".to_string()));
        }
        ito_contract::event::Nep171EventKind::NftTransfer(_) => panic!("expected a mint event"),
    }
}

fn copies_and_buys() -> Contract {
    let mut contract = setup_contract();
    create_series(&mut contract, &alice(), "CampgroundTest", Some(1000), Some(10), None).unwrap();
    let (nft_mint_1, _) = contract.nft_mint(&alice(), &"1".to_string(), &bob()).unwrap();
    assert_eq!(nft_mint_1, "1:1");
    let fee = contract.get_trail_by_id(&"1".to_string()).unwrap().campground_fee_near;
    let sale = contract.nft_buy_series(&"1".to_string(), &carol(), fee, NOW).unwrap();
    assert_eq!(sale.token_id, "1:2");
    assert_eq!(contract.get_trail_business(&"1:1".to_string()).unwrap().token_id, "1");
    assert_eq!(contract.get_trail_business(&"1:2".to_string()).unwrap().token_id, "1");
    contract
}

#[test]
fn test_copies_and_buys() {
    copies_and_buys();
}

#[test]
fn copies_read_back_after_buying() {
    let contract = copies_and_buys();
    let token = contract.nft_token("1:1".to_string()).unwrap();
    assert_eq!(token.token_id, "1:1");
    assert_eq!(token.owner_id, bob());
    assert_eq!(token.series.creator_id, alice());
    assert_eq!(token.metadata.title, Some("CampgroundTest".to_string()));
    assert_eq!(contract.nft_tokens_for_owner(&bob()), vec!["1:1".to_string()]);
    assert_eq!(contract.nft_tokens_for_owner(&carol()), vec!["1:2".to_string()]);
}

#[test]
fn test_buy_invalid_amount() {
    let mut contract = setup_contract();
    create_series(&mut contract, &alice(), "CampgroundTest", Some(1000), Some(10), None).unwrap();
    let result = contract.nft_buy_series(&"1".to_string(), &carol(), 500, NOW);
    assert_eq!(result.unwrap_err(), CampgroundError::InsufficientPayment);
}

#[test]
fn test_buy_invalid_fee() {
    let mut contract = setup_contract();
    let min_fee = contract.campground_minimum_fee_yocto_near;
    create_series(&mut contract, &alice(), "CampgroundTest", Some(min_fee - 1), Some(10), None).unwrap();
    let result = contract.nft_buy_series(&"1".to_string(), &carol(), min_fee - 1, NOW);
    assert_eq!(result.unwrap_err(), CampgroundError::InsufficientPayment);
}

#[test]
fn test_buy_just_enough_fee() {
    let mut contract = setup_contract();
    let min_fee = contract.campground_minimum_fee_yocto_near;
    create_series(&mut contract, &alice(), "CampgroundTest", Some(min_fee), Some(10), None).unwrap();
    let sale = contract.nft_buy_series(&"1".to_string(), &carol(), min_fee, NOW).unwrap();
    assert_eq!(sale.transfers.len(), 1);
    assert_eq!(sale.transfers[0].receiver_id, treasury());
    assert_eq!(sale.transfers[0].amount, min_fee);
}

#[test]
fn test_buy_one_near() {
    let mut contract = setup_contract();
    create_series(&mut contract, &alice(), "CampgroundTest", Some(ONE_NEAR), Some(10), None).unwrap();
    contract.nft_buy_series(&"1".to_string(), &carol(), ONE_NEAR, NOW).unwrap();
    contract.nft_buy_series(&"1".to_string(), &carol(), ONE_NEAR, NOW).unwrap();

    assert_eq!(contract.nft_tokens_for_owner(&carol()), vec!["1:1".to_string(), "1:2".to_string()]);
    let trails_by_id = contract.get_trail_business(&"1:1".to_string()).unwrap();
    assert_eq!(trails_by_id.owner_id, carol());
    assert_eq!(trails_by_id.token_id, "1");

    assert!(contract.is_owner(&"1".to_string(), &carol()));
    assert!(!contract.is_owner(&"1".to_string(), &bob()));
    assert!(!contract.is_owner(&"2".to_string(), &carol()));

    let get_trails_by_owner = contract.get_all_trails_by_owner(&carol());
    assert_eq!(get_trails_by_owner.len(), 1);
    assert_eq!(get_trails_by_owner[0].creator_id, alice());
    let get_trails_by_owner = contract.get_all_trails_by_owner(&carol());
    assert_eq!(get_trails_by_owner.len(), 1);
    assert_eq!(BUY_STORAGE, 6920000000000000000000);
}

#[test]
fn trails_by_creator_lists_own_series() {
    let mut contract = setup_contract();
    create_series(&mut contract, &alice(), "A", None, None, None).unwrap();
    create_series(&mut contract, &bob(), "B", None, None, None).unwrap();
    create_series(&mut contract, &alice(), "C", None, None, None).unwrap();
    let mine = contract.get_all_trails_by_creator(&alice());
    assert_eq!(mine.len(), 2);
    assert_eq!(mine[0].metadata.title, "A");
    assert_eq!(mine[1].metadata.title, "C");
    assert!(contract.get_all_trails_by_creator(&carol()).is_empty());
}

#[test]
fn series_price_is_the_resolved_price() {
    let mut contract = setup_contract();
    create_series(&mut contract, &alice(), "A", Some(ONE_NEAR), None, None).unwrap();
    create_series(&mut contract, &alice(), "B", Some(5), None, None).unwrap();
    assert_eq!(contract.nft_get_series_price(&"1".to_string()), Ok(ONE_NEAR));
    assert_eq!(contract.nft_get_series_price(&"2".to_string()), Ok(ONE_NEAR / 10));
    assert_eq!(contract.nft_get_series_price(&"3".to_string()), Err(CampgroundError::NotFound));
}

#[test]
fn buying_outside_validity_window_fails() {
    let mut contract = setup_contract();
    create_series(&mut contract, &alice(), "T", Some(ONE_NEAR), None, None).unwrap();
    let early = contract.nft_buy_series(&"1".to_string(), &carol(), ONE_NEAR, STARTS_AT - 1);
    assert_eq!(early.unwrap_err(), CampgroundError::NotMintable);
    let late = contract.nft_buy_series(&"1".to_string(), &carol(), ONE_NEAR, EXPIRES_AT);
    assert_eq!(late.unwrap_err(), CampgroundError::NotMintable);
    assert!(contract.nft_buy_series(&"1".to_string(), &carol(), ONE_NEAR, STARTS_AT).is_ok());
}

#[test]
fn buying_missing_series_fails() {
    let mut contract = setup_contract();
    let result = contract.nft_buy_series(&"1".to_string(), &carol(), ONE_NEAR, NOW);
    assert_eq!(result.unwrap_err(), CampgroundError::NotFound);
}

#[test]
fn contract_should_return_nft_token_info() {
    let mut contract = setup_contract();
    let trail = create_series(&mut contract, &alice(), "CampgroundTest", Some(ONE_NEAR), Some(10), None).unwrap();
    let sale = contract.nft_buy_series(&trail.token_id, &carol(), ONE_NEAR, NOW).unwrap();
    let token = contract.nft_token(sale.token_id.clone()).unwrap();
    assert_eq!(token.token_id, sale.token_id);
    assert_eq!(token.owner_id, carol());
    assert!(contract.nft_token("1:2".to_string()).is_none());
}

#[test]
fn contract_should_transfer_nft_to_receiver() {
    let mut contract = setup_contract();
    let trail = create_series(&mut contract, &alice(), "CampgroundTest", Some(ONE_NEAR), Some(10), None).unwrap();
    let sale = contract.nft_buy_series(&trail.token_id, &bob(), ONE_NEAR, NOW).unwrap();
    assert!(contract.is_owner(&trail.token_id, &bob()));
    contract.nft_transfer(&bob(), &carol(), &sale.token_id, None).unwrap();
    assert!(contract.is_owner(&trail.token_id, &carol()));
    assert!(!contract.is_owner(&trail.token_id, &bob()));
    assert!(contract.nft_tokens_for_owner(&bob()).is_empty());
    assert!(contract.tokens_per_owner.iter().all(|entry| entry.account_id != bob()));
}

#[test]
fn transfer_to_self_is_refused() {
    let mut contract = setup_contract();
    create_series(&mut contract, &alice(), "T", Some(ONE_NEAR), None, None).unwrap();
    let sale = contract.nft_buy_series(&"1".to_string(), &bob(), ONE_NEAR, NOW).unwrap();
    let result = contract.nft_transfer(&bob(), &bob(), &sale.token_id, None);
    assert_eq!(result.unwrap_err(), CampgroundError::InvalidArgument);
}

#[test]
fn transfer_of_missing_copy_is_refused() {
    let mut contract = setup_contract();
    create_series(&mut contract, &alice(), "T", Some(ONE_NEAR), None, None).unwrap();
    let result = contract.nft_transfer(&bob(), &carol(), &"1:1".to_string(), None);
    assert_eq!(result.unwrap_err(), CampgroundError::NotFound);
}
