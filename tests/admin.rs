use ito_contract::error::CampgroundError;
use ito_contract::ledger::Contract;
use ito_contract::metadata::{TrailResource, TrailSeriesMetadata};
use ito_contract::sub_admin::SUB_ADMIN_ADDRESS;
use ito_contract::ONE_NEAR;

fn owner() -> String {
    "campground_owner.near".to_string()
}

fn setup_contract() -> Contract {
    Contract::new_default_meta(owner(), "campground_treasury.near".to_string())
}

fn metadata() -> TrailSeriesMetadata {
    TrailSeriesMetadata {
        title: "CampgroundTest".to_string(),
        description: String::new(),
        tickets_amount: 10,
        media: None,
        data: None,
        resources: vec![TrailResource {
            title: None,
            description: None,
            media: "CampgroundTest.png".to_string(),
            extra: None,
            reference: None,
        }],
        starts_at: None,
        expires_at: None,
        reference: None,
        campground_id: String::new(),
    }
}

#[test]
fn test_change_capground_fee_valid() {
    let mut contract = setup_contract();
    assert_eq!(contract.campground_fee, 5);
    contract.change_campground_fee(&owner(), 10).unwrap();
    assert_eq!(contract.campground_fee, 10);
}

#[test]
fn test_change_campground_fee_invalid() {
    let mut contract = setup_contract();
    let result = contract.change_campground_fee(&"alice".to_string(), 10);
    assert_eq!(result, Err(CampgroundError::Unauthorized));
    assert_eq!(contract.campground_fee, 5);
}

#[test]
fn test_change_campground_treasury_address_valid() {
    let mut contract = setup_contract();
    contract.change_campground_treasury_address(&owner(), "new_treasury.near".to_string()).unwrap();
    assert_eq!(contract.get_treasury_address(), "new_treasury.near");
}

#[test]
fn test_change_campground_treasury_address_invalid() {
    let mut contract = setup_contract();
    let result = contract.change_campground_treasury_address(&"alice".to_string(), "x.near".to_string());
    assert_eq!(result, Err(CampgroundError::Unauthorized));
    assert_eq!(contract.get_treasury_address(), "campground_treasury.near");
}

#[test]
fn test_change_campground_minimum_fee_valid() {
    let mut contract = setup_contract();
    contract.change_campground_minimum_fee(&owner(), 50000000).unwrap();
    assert_eq!(contract.campground_minimum_fee_yocto_near, 50000000);
}

#[test]
fn test_change_campground_minimum_fee_invalid() {
    let mut contract = setup_contract();
    let result = contract.change_campground_minimum_fee(&"alice".to_string(), 50000000);
    assert_eq!(result, Err(CampgroundError::Unauthorized));
    assert_eq!(contract.campground_minimum_fee_yocto_near, ONE_NEAR / 10);
}

#[test]
fn fee_changes_apply_to_new_series_only() {
    let mut contract = setup_contract();
    let caller = "alice".to_string();
    contract.create_trail_series(&caller, metadata(), Some(ONE_NEAR), None, None, 0).unwrap();
    contract.change_campground_fee(&owner(), 50).unwrap();
    contract.create_trail_series(&caller, metadata(), Some(ONE_NEAR), None, None, 0).unwrap();
    assert_eq!(contract.get_trail_by_id(&"1".to_string()).unwrap().campground_fee_near, ONE_NEAR / 10);
    assert_eq!(contract.get_trail_by_id(&"2".to_string()).unwrap().campground_fee_near, ONE_NEAR / 2);
}

#[test]
fn settings_are_replaced_by_key() {
    let mut contract = setup_contract();
    contract.add_setting(&owner(), SUB_ADMIN_ADDRESS.to_string(), "alice".to_string()).unwrap();
    contract.add_setting(&owner(), SUB_ADMIN_ADDRESS.to_string(), "bob".to_string()).unwrap();
    assert_eq!(contract.settings.len(), 1);
    assert_eq!(contract.get_subadmin(), Some("bob".to_string()));
    let refused = contract.add_setting(&"alice".to_string(), "k".to_string(), "v".to_string());
    assert_eq!(refused, Err(CampgroundError::Unauthorized));
}

#[test]
fn malformed_sub_admin_is_ignored() {
    let mut contract = setup_contract();
    assert_eq!(contract.get_subadmin(), None);
    contract.add_setting(&owner(), SUB_ADMIN_ADDRESS.to_string(), "Not Valid".to_string()).unwrap();
    assert_eq!(contract.get_subadmin(), None);
    assert!(!contract.is_caller_subadmin(&"Not Valid".to_string()));
}

#[test]
fn sub_admin_should_be_able_to_remove_trail() {
    let mut contract = setup_contract();
    contract.add_setting(&owner(), SUB_ADMIN_ADDRESS.to_string(), "alice".to_string()).unwrap();
    contract.create_trail_series(&"bob".to_string(), metadata(), Some(ONE_NEAR), None, None, 0).unwrap();
    assert_eq!(contract.insert_trail_from_nonmintable_list(&"alice".to_string(), &"1".to_string()), Ok(true));
    assert!(!contract.is_trail_mintable(&"1".to_string()));
    assert_eq!(contract.remove_trail_from_nonmintable_list(&"alice".to_string(), &"1".to_string()), Ok(true));
    assert!(contract.is_trail_mintable(&"1".to_string()));
}

#[test]
fn any_user_cantremove_from_non_mintable_trail() {
    let mut contract = setup_contract();
    contract.add_setting(&owner(), SUB_ADMIN_ADDRESS.to_string(), "alice".to_string()).unwrap();
    contract.create_trail_series(&"bob".to_string(), metadata(), Some(ONE_NEAR), None, None, 0).unwrap();
    contract.insert_trail_from_nonmintable_list(&"bob".to_string(), &"1".to_string()).unwrap();
    let result = contract.remove_trail_from_nonmintable_list(&"carol".to_string(), &"1".to_string());
    assert_eq!(result, Err(CampgroundError::Unauthorized));
    assert!(!contract.is_trail_mintable(&"1".to_string()));
    let missing = contract.remove_trail_from_nonmintable_list(&"alice".to_string(), &"2".to_string());
    assert_eq!(missing, Err(CampgroundError::NotFound));
}

#[test]
fn toggle_for_all_needs_sub_admin() {
    let mut contract = setup_contract();
    contract.add_setting(&owner(), SUB_ADMIN_ADDRESS.to_string(), "alice".to_string()).unwrap();
    contract.create_trail_series(&"bob".to_string(), metadata(), None, None, None, 0).unwrap();
    contract.create_trail_series(&"bob".to_string(), metadata(), None, None, None, 0).unwrap();
    assert_eq!(contract.toggle_for_all(&"bob".to_string(), false), Err(CampgroundError::Unauthorized));
    contract.toggle_for_all(&"alice".to_string(), false).unwrap();
    assert!(!contract.is_trail_mintable(&"1".to_string()));
    assert!(!contract.is_trail_mintable(&"2".to_string()));
    contract.toggle_for_all(&"alice".to_string(), true).unwrap();
    assert!(contract.is_trail_mintable(&"1".to_string()));
    assert!(contract.is_trail_mintable(&"2".to_string()));
}
