use insurance::ServiceError;
use insurance::data::{ClaimStatus, ContractType};
use insurance::insurance::{create_contract_type, list_contract_types, set_active_contract_type};
use insurance::store::Store;

fn catalog_type(id: u128, shop_type: &str, active: bool) -> ContractType {
    ContractType {
        id,
        shop_type: shop_type.to_string(),
        formula_per_day: "base * 0.001".to_string(),
        max_sum_insured: 500_000,
        theft_insured: true,
        description: "coverage".to_string(),
        conditions: "none".to_string(),
        active,
        min_duration_days: 30,
        max_duration_days: 365,
    }
}

#[test]
fn claim_status_from_letter_codes() {
    assert_eq!(ClaimStatus::from_str("N"), ClaimStatus::New);
    assert_eq!(ClaimStatus::from_str("n"), ClaimStatus::New);
    assert_eq!(ClaimStatus::from_str("J"), ClaimStatus::Rejected);
    assert_eq!(ClaimStatus::from_str("j"), ClaimStatus::Rejected);
    assert_eq!(ClaimStatus::from_str("R"), ClaimStatus::Repair);
    assert_eq!(ClaimStatus::from_str("F"), ClaimStatus::Reimbursement);
    assert_eq!(ClaimStatus::from_str("P"), ClaimStatus::TheftConfirmed);
    assert_eq!(ClaimStatus::from_str("q"), ClaimStatus::Unknown);
    assert_eq!(ClaimStatus::from_str(""), ClaimStatus::Unknown);
    assert_eq!(ClaimStatus::from_str("NN"), ClaimStatus::Unknown);
}

#[test]
fn claim_status_to_letter_codes() {
    assert_eq!(ClaimStatus::New.to_str(), "N");
    assert_eq!(ClaimStatus::Rejected.to_str(), "J");
    assert_eq!(ClaimStatus::Repair.to_str(), "R");
    assert_eq!(ClaimStatus::Reimbursement.to_str(), "F");
    assert_eq!(ClaimStatus::TheftConfirmed.to_str(), "P");
    assert_eq!(ClaimStatus::Unknown.to_str(), "");
}

#[test]
fn create_contract_type_rejects_duplicate_id() {
    let mut store = Store::new();
    assert_eq!(create_contract_type(&mut store, catalog_type(1, "electronics", true)), Ok(()));
    assert_eq!(
        create_contract_type(&mut store, catalog_type(1, "bicycles", true)),
        Err(ServiceError::Conflict)
    );
    assert_eq!(store.contract_types.len(), 1);
}

#[test]
fn set_active_flips_flag_and_reports_unknown_id() {
    let mut store = Store::new();
    create_contract_type(&mut store, catalog_type(7, "jewelry", true)).unwrap();
    assert_eq!(set_active_contract_type(&mut store, 8, false), Err(ServiceError::NotFound));
    assert_eq!(set_active_contract_type(&mut store, 7, false), Ok(()));
    assert!(!store.contract_types[0].active);
    assert_eq!(set_active_contract_type(&mut store, 7, true), Ok(()));
    assert!(store.contract_types[0].active);
}

#[test]
fn unfiltered_listing_shows_inactive_types() {
    let mut store = Store::new();
    create_contract_type(&mut store, catalog_type(1, "electronics", true)).unwrap();
    create_contract_type(&mut store, catalog_type(2, "bicycles", false)).unwrap();
    let all = list_contract_types(&store, None);
    assert_eq!(all.len(), 2);
    assert_eq!(all[0].uuid, 1);
    assert_eq!(all[1].uuid, 2);
}

#[test]
fn filtered_listing_matches_category_case_insensitively() {
    let mut store = Store::new();
    create_contract_type(&mut store, catalog_type(1, "electronics", true)).unwrap();
    create_contract_type(&mut store, catalog_type(2, "bicycles", true)).unwrap();
    create_contract_type(&mut store, catalog_type(3, "Home Electronics", false)).unwrap();
    let filter = "ELEC".to_string();
    let hits = list_contract_types(&store, Some(&filter));
    // the inactive entry is hidden from filtered callers even though its
    // category matches
    assert_eq!(hits.len(), 1);
    assert_eq!(hits[0].uuid, 1);
    let lower = "tron".to_string();
    let hits = list_contract_types(&store, Some(&lower));
    assert_eq!(hits.len(), 1);
    assert_eq!(hits[0].contract_type.shop_type, "electronics");
}

#[test]
fn empty_filter_matches_every_active_type() {
    let mut store = Store::new();
    create_contract_type(&mut store, catalog_type(1, "electronics", true)).unwrap();
    create_contract_type(&mut store, catalog_type(2, "bicycles", false)).unwrap();
    let empty = String::new();
    let hits = list_contract_types(&store, Some(&empty));
    assert_eq!(hits.len(), 1);
    assert_eq!(hits[0].uuid, 1);
}
