use ito_contract::error::CampgroundError;
use ito_contract::ledger::Contract;
use ito_contract::metadata::{JsonTrail, TrailResource, TrailSeriesMetadata};
use ito_contract::sub_admin::SUB_ADMIN_ADDRESS;
use ito_contract::ONE_NEAR;

const STARTS_AT: u64 = 1647109675;
const EXPIRES_AT: u64 = 1647216000;
const NOW: u64 = 1647109675;

fn owner() -> String {
    "campground_owner.near".to_string()
}

fn alice() -> String {
    "alice".to_string()
}

fn bob() -> String {
    "bob".to_string()
}

fn carol() -> String {
    "carol".to_string()
}

fn treasury() -> String {
    "campground_treasury.near".to_string()
}

fn new_treasury() -> String {
    "campground_new_treasury.near".to_string()
}

fn setup_contract() -> Contract {
    let mut contract = Contract::new_default_meta(owner(), treasury());
    contract.add_setting(&owner(), SUB_ADMIN_ADDRESS.to_string(), carol()).unwrap();
    contract
}

fn create_series(
    contract: &mut Contract,
    caller: &String,
    title: &str,
    price: Option<u128>,
    tickets: Option<u64>,
    resources: Option<Vec<TrailResource>>,
) -> Result<JsonTrail, CampgroundError> {
    contract.create_trail_series(
        caller,
        TrailSeriesMetadata {
            title: title.to_string(),
            description: String::new(),
            tickets_amount: tickets.unwrap_or(100),
            media: None,
            data: None,
            resources: resources.unwrap_or(vec![TrailResource {
                title: Some(format!("{}-resource", title)),
                description: None,
                media: format!("{}.png", title),
                extra: None,
                reference: None,
            }]),
            starts_at: Some(STARTS_AT),
            expires_at: Some(EXPIRES_AT),
            reference: None,
            campground_id: "CMPGR123".to_string(),
        },
        price,
        None,
        None,
        NOW,
    )
}

#[test]
fn contract_should_change_campground_fee() {
    let mut contract = setup_contract();
    assert_eq!(contract.campground_fee, 5);
    contract.change_campground_fee(&owner(), 10).unwrap();
    assert_eq!(contract.campground_fee, 10);
}

#[test]
fn contract_should_reject_non_owner_changing_campground_fee() {
    let mut contract = setup_contract();
    assert_eq!(contract.campground_fee, 5);
    assert_eq!(contract.change_campground_fee(&alice(), 10), Err(CampgroundError::Unauthorized));
}

#[test]
fn contract_should_change_campground_treasury_address() {
    let mut contract = setup_contract();
    contract.change_campground_treasury_address(&owner(), new_treasury()).unwrap();
    assert_eq!(contract.campground_treasury_address, new_treasury());
}

#[test]
fn contract_should_reject_when_non_owner_changing_campground_treasury_address() {
    let mut contract = setup_contract();
    let result = contract.change_campground_treasury_address(&alice(), new_treasury());
    assert_eq!(result, Err(CampgroundError::Unauthorized));
    assert_eq!(contract.campground_treasury_address, treasury());
}

#[test]
fn contract_should_change_campground_minimum_fee() {
    let mut contract = setup_contract();
    contract.change_campground_minimum_fee(&owner(), 50000000).unwrap();
    assert_eq!(contract.campground_minimum_fee_yocto_near, 50000000);
}

#[test]
fn contract_should_reject_when_non_owner_changing_campground_minimum_fee() {
    let mut contract = setup_contract();
    let result = contract.change_campground_minimum_fee(&alice(), 50000000);
    assert_eq!(result, Err(CampgroundError::Unauthorized));
}

#[test]
fn contract_should_allow_account_to_create_trail_series() {
    let mut contract = setup_contract();
    let trail_series = create_series(&mut contract, &alice(), "CampgroundTest", Some(ONE_NEAR), None, None).unwrap();
    let trail_by_id = contract.get_trail_by_id(&"1".to_string()).unwrap();
    assert_eq!(trail_series.series.creator_id, trail_by_id.creator_id);
    assert_eq!(trail_series.series.price, trail_by_id.price);
    assert_eq!(trail_series.series.metadata.expires_at, trail_by_id.metadata.expires_at);
    assert_eq!(trail_series.series.metadata.starts_at, trail_by_id.metadata.starts_at);
    assert_eq!(trail_by_id.metadata.resources.get(0).unwrap().media, "CampgroundTest.png");
}

#[test]
fn contract_should_reject_creating_trail_series_with_invalid_price() {
    let mut contract = setup_contract();
    let result = create_series(
        &mut contract,
        &alice(),
        "CampgroundTest",
        Some(1_000_000_001 * 10u128.pow(24)),
        None,
        None,
    );
    assert_eq!(result.unwrap_err(), CampgroundError::InvalidArgument);
}

#[test]
fn contract_should_reject_creating_trail_series_with_invalid_ticket_amount() {
    let mut contract = setup_contract();
    let result = create_series(&mut contract, &alice(), "CampgroundTest", Some(ONE_NEAR), Some(0), None);
    assert_eq!(result.unwrap_err(), CampgroundError::InvalidArgument);
}

#[test]
fn contract_should_reject_creating_trail_series_with_invalid_resources_amount() {
    let mut contract = setup_contract();
    let result =
        create_series(&mut contract, &alice(), "CampgroundTest", Some(ONE_NEAR), Some(1), Some(vec![]));
    assert_eq!(result.unwrap_err(), CampgroundError::InvalidArgument);
}

#[test]
fn contract_should_reject_minting_when_tickets_are_sold_out() {
    let mut contract = setup_contract();
    create_series(&mut contract, &alice(), "CampgroundTest", Some(ONE_NEAR), Some(1), None).unwrap();
    assert!(contract.get_trail_by_id(&"1".to_string()).unwrap().is_mintable);
    contract.nft_mint(&alice(), &"1".to_string(), &bob()).unwrap();
    assert_eq!(contract.nft_tokens_for_owner(&bob()).len(), 1);
    let result = contract.nft_mint(&alice(), &"1".to_string(), &bob());
    assert_eq!(result.unwrap_err(), CampgroundError::NotMintable);
}

#[test]
fn contract_should_allow_account_to_buy_and_mint() {
    let mut contract = setup_contract();
    create_series(&mut contract, &alice(), "CampgroundTest", Some(1000), Some(10), None).unwrap();
    let (first, _) = contract.nft_mint(&alice(), &"1".to_string(), &bob()).unwrap();
    assert_eq!(first, "1:1");
    let sale = contract.nft_buy_series(&"1".to_string(), &carol(), ONE_NEAR / 10, NOW).unwrap();
    assert_eq!(sale.token_id, "1:2");
    assert_eq!(contract.get_trail_business(&"1:1".to_string()).unwrap().token_id, "1");
    assert_eq!(contract.get_trail_business(&"1:2".to_string()).unwrap().token_id, "1");
}

#[test]
fn contract_should_reject_buying_with_invalid_amount() {
    let mut contract = setup_contract();
    create_series(&mut contract, &alice(), "CampgroundTest", Some(1000), Some(10), None).unwrap();
    let result = contract.nft_buy_series(&"1".to_string(), &carol(), 500, NOW);
    assert_eq!(result.unwrap_err(), CampgroundError::InsufficientPayment);
}

#[test]
fn contract_should_reject_when_buying_with_invalid_fee() {
    let mut contract = setup_contract();
    let min_fee = contract.campground_minimum_fee_yocto_near;
    create_series(&mut contract, &alice(), "CampgroundTest", Some(min_fee - 1), Some(10), None).unwrap();
    let result = contract.nft_buy_series(&"1".to_string(), &carol(), min_fee - 1, NOW);
    assert_eq!(result.unwrap_err(), CampgroundError::InsufficientPayment);
}

#[test]
fn contract_should_allow_account_to_buy_with_just_enough_fee() {
    let mut contract = setup_contract();
    let min_fee = contract.campground_minimum_fee_yocto_near;
    create_series(&mut contract, &alice(), "CampgroundTest", Some(min_fee), Some(10), None).unwrap();
    assert!(contract.nft_buy_series(&"1".to_string(), &carol(), min_fee, NOW).is_ok());
}

#[test]
fn contract_should_allow_account_to_buy_with_one_near() {
    let mut contract = setup_contract();
    create_series(&mut contract, &alice(), "CampgroundTest", Some(ONE_NEAR), Some(10), None).unwrap();
    contract.nft_buy_series(&"1".to_string(), &carol(), ONE_NEAR, NOW).unwrap();
    contract.nft_buy_series(&"1".to_string(), &carol(), ONE_NEAR, NOW).unwrap();

    let trails_as_vec = contract.nft_tokens_for_owner(&carol());
    assert_eq!(trails_as_vec.len(), 2);
    assert_eq!(trails_as_vec.get(0).unwrap(), &"1:1".to_string());
    assert_eq!(trails_as_vec.get(1).unwrap(), &"1:2".to_string());

    let trails_by_id = contract.get_trail_business(&"1:1".to_string()).unwrap();
    assert_eq!(trails_by_id.owner_id, carol());
    assert_eq!(trails_by_id.token_id, "1");

    assert!(contract.is_owner(&"1".to_string(), &carol()));
    assert!(!contract.is_owner(&"1".to_string(), &bob()));
    assert!(!contract.is_owner(&"2".to_string(), &carol()));

    let get_trails_by_owner = contract.get_all_trails_by_owner(&carol());
    assert_eq!(get_trails_by_owner.len(), 1);
    assert_eq!(get_trails_by_owner.get(0).unwrap().creator_id, alice());
    assert_eq!(contract.get_all_trails_by_owner(&carol()).len(), 1);
}

#[test]
fn contract_should_reject_when_buying_with_campground_fee_greater_than_100() {
    let mut contract = setup_contract();
    contract.change_campground_minimum_fee(&owner(), 0).unwrap();
    contract.change_campground_fee(&owner(), 120).unwrap();
    create_series(&mut contract, &alice(), "CampgroundTest", Some(ONE_NEAR), Some(10), None).unwrap();
    let result = contract.nft_buy_series(&"1".to_string(), &carol(), ONE_NEAR, NOW);
    assert_eq!(result.unwrap_err(), CampgroundError::InsufficientPayment);
}

#[test]
fn contract_should_reject_when_trail_is_not_mintable() {
    let mut contract = setup_contract();
    create_series(&mut contract, &owner(), "CampgroundTest", Some(ONE_NEAR), Some(10), None).unwrap();
    contract.insert_trail_from_nonmintable_list(&owner(), &"1".to_string()).unwrap();
    let result = contract.nft_buy_series(&"1".to_string(), &carol(), ONE_NEAR, NOW);
    assert_eq!(result.unwrap_err(), CampgroundError::NotMintable);
}
