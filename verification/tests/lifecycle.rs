use insurance::ServiceError;
use insurance::data::{ClaimStatus, ContractType, Item};
use insurance::insurance::{FileClaimDto, ProcessClaimDto, file_claim, list_claims, process_claim};
use insurance::police::{ProcessTheftClaimDto, list_theft_claims, process_theft_claim};
use insurance::repairs::{CompleteRepairOrderDto, complete_repair_order, list_repair_orders};
use insurance::shop::{CreateContractDto, create_contract};
use insurance::store::Store;

const TYPE_ID: u128 = 1;
const CONTRACT_ID: u128 = 100;

fn covered_item() -> Item {
    Item {
        id: 11,
        brand: "Nimbus".to_string(),
        model: "Cam X".to_string(),
        price: 80_000,
        description: "camera".to_string(),
        serial_no: "NCX-7".to_string(),
    }
}

/// One catalog type, one user, one contract.
fn provisioned_store() -> Store {
    let mut store = Store::new();
    insurance::insurance::create_contract_type(
        &mut store,
        ContractType {
            id: TYPE_ID,
            shop_type: "electronics".to_string(),
            formula_per_day: "base * 0.001".to_string(),
            max_sum_insured: 500_000,
            theft_insured: true,
            description: "coverage".to_string(),
            conditions: "none".to_string(),
            active: true,
            min_duration_days: 30,
            max_duration_days: 365,
        },
    )
    .unwrap();
    create_contract(
        &mut store,
        CreateContractDto {
            uuid: CONTRACT_ID,
            contract_type_uuid: TYPE_ID,
            username: "ada".to_string(),
            password: "pw".to_string(),
            first_name: "Ada".to_string(),
            last_name: "Byron".to_string(),
            item: covered_item(),
            start_date: 20_000,
            end_date: 20_090,
        },
    )
    .unwrap();
    store
}

fn claim_request(uuid: u128, contract_uuid: u128, is_theft: bool) -> FileClaimDto {
    FileClaimDto {
        uuid,
        contract_uuid,
        date: 20_010,
        description: "damaged in transit".to_string(),
        is_theft,
    }
}

fn decision(uuid: u128, status: ClaimStatus, reimbursable: u64) -> ProcessClaimDto {
    ProcessClaimDto { uuid, contract_uuid: CONTRACT_ID, status, reimbursable }
}

#[test]
fn filing_creates_a_new_claim_and_indexes_it() {
    let mut store = provisioned_store();
    assert_eq!(file_claim(&mut store, claim_request(500, CONTRACT_ID, false)), Ok(()));
    assert_eq!(store.claims.len(), 1);
    let k = &store.claims[0];
    assert_eq!(k.id, 500);
    assert_eq!(k.status, ClaimStatus::New);
    assert_eq!(k.reimbursable, 0);
    assert!(!k.repaired);
    assert_eq!(k.file_reference, "");
    assert_eq!(store.contracts[0].claim_index, vec![500]);
}

#[test]
fn filing_rejects_unknown_contract_and_duplicate_claim_id() {
    let mut store = provisioned_store();
    assert_eq!(
        file_claim(&mut store, claim_request(500, 999, false)),
        Err(ServiceError::NotFound)
    );
    file_claim(&mut store, claim_request(500, CONTRACT_ID, false)).unwrap();
    assert_eq!(
        file_claim(&mut store, claim_request(500, CONTRACT_ID, false)),
        Err(ServiceError::Conflict)
    );
}

#[test]
fn repair_path_locks_the_claim_against_further_progress() {
    let mut store = provisioned_store();
    file_claim(&mut store, claim_request(500, CONTRACT_ID, false)).unwrap();

    assert_eq!(process_claim(&mut store, decision(500, ClaimStatus::Repair, 0)), Ok(()));
    assert_eq!(store.claims[0].status, ClaimStatus::Repair);

    // a repair order for the contract's item now exists, not yet ready
    let pending = list_repair_orders(&store).unwrap();
    assert_eq!(pending.len(), 1);
    assert_eq!(pending[0].claim_uuid, 500);
    assert_eq!(pending[0].contract_uuid, CONTRACT_ID);
    assert_eq!(pending[0].item.serial_no, "NCX-7");
    assert!(!store.repair_orders[0].ready);

    // the decision is final: only a rejection would still be accepted
    assert_eq!(
        process_claim(&mut store, decision(500, ClaimStatus::Reimbursement, 300)),
        Err(ServiceError::InvalidTransition)
    );
    assert_eq!(
        process_claim(&mut store, decision(500, ClaimStatus::Repair, 0)),
        Err(ServiceError::InvalidTransition)
    );
    assert_eq!(process_claim(&mut store, decision(500, ClaimStatus::Rejected, 0)), Ok(()));
}

#[test]
fn reimbursing_a_fresh_non_theft_claim_sets_the_amount() {
    let mut store = provisioned_store();
    file_claim(&mut store, claim_request(500, CONTRACT_ID, false)).unwrap();
    assert_eq!(process_claim(&mut store, decision(500, ClaimStatus::Reimbursement, 250)), Ok(()));
    assert_eq!(store.claims[0].status, ClaimStatus::Reimbursement);
    assert_eq!(store.claims[0].reimbursable, 250);
    // a non-theft reimbursement does not void the contract
    assert!(!store.contracts[0].void);
}

#[test]
fn rejecting_clears_the_reimbursable_amount() {
    let mut store = provisioned_store();
    file_claim(&mut store, claim_request(500, CONTRACT_ID, false)).unwrap();
    process_claim(&mut store, decision(500, ClaimStatus::Reimbursement, 250)).unwrap();
    // a decided claim still accepts a rejection, which zeroes the amount
    assert_eq!(process_claim(&mut store, decision(500, ClaimStatus::Rejected, 0)), Ok(()));
    assert_eq!(store.claims[0].status, ClaimStatus::Rejected);
    assert_eq!(store.claims[0].reimbursable, 0);
}

#[test]
fn unknown_claims_and_unknown_targets_are_refused() {
    let mut store = provisioned_store();
    file_claim(&mut store, claim_request(500, CONTRACT_ID, false)).unwrap();
    assert_eq!(
        process_claim(&mut store, decision(999, ClaimStatus::Repair, 0)),
        Err(ServiceError::NotFound)
    );
    assert_eq!(
        process_claim(&mut store, decision(500, ClaimStatus::Unknown, 0)),
        Err(ServiceError::InvalidTransition)
    );
    assert_eq!(
        process_claim(&mut store, decision(500, ClaimStatus::New, 0)),
        Err(ServiceError::InvalidTransition)
    );
    assert_eq!(
        process_claim(&mut store, decision(500, ClaimStatus::TheftConfirmed, 0)),
        Err(ServiceError::InvalidTransition)
    );
}

#[test]
fn theft_claim_must_be_confirmed_before_reimbursement_and_voids_the_contract() {
    let mut store = provisioned_store();
    file_claim(&mut store, claim_request(600, CONTRACT_ID, true)).unwrap();

    // the insurer cannot move a fresh theft claim forward
    assert_eq!(
        process_claim(&mut store, decision(600, ClaimStatus::Reimbursement, 500)),
        Err(ServiceError::InvalidTransition)
    );
    // stolen items are never repaired
    assert_eq!(
        process_claim(&mut store, decision(600, ClaimStatus::Repair, 0)),
        Err(ServiceError::InvalidTransition)
    );

    // the police confirm the theft and record the report reference
    assert_eq!(
        process_theft_claim(
            &mut store,
            ProcessTheftClaimDto {
                uuid: 600,
                contract_uuid: CONTRACT_ID,
                is_theft: true,
                file_reference: "PR-1".to_string(),
            },
        ),
        Ok(())
    );
    assert_eq!(store.claims[0].status, ClaimStatus::TheftConfirmed);
    assert_eq!(store.claims[0].file_reference, "PR-1");

    // now the reimbursement goes through and the contract becomes void
    assert_eq!(process_claim(&mut store, decision(600, ClaimStatus::Reimbursement, 500)), Ok(()));
    assert_eq!(store.claims[0].reimbursable, 500);
    assert!(store.contracts[0].void);

    // a void contract rejects new claims
    assert_eq!(
        file_claim(&mut store, claim_request(601, CONTRACT_ID, false)),
        Err(ServiceError::Conflict)
    );
}

#[test]
fn police_verdicts_apply_only_to_fresh_theft_claims() {
    let mut store = provisioned_store();
    file_claim(&mut store, claim_request(500, CONTRACT_ID, false)).unwrap();
    file_claim(&mut store, claim_request(600, CONTRACT_ID, true)).unwrap();
    let verdict = |uuid: u128, confirmed: bool| ProcessTheftClaimDto {
        uuid,
        contract_uuid: CONTRACT_ID,
        is_theft: confirmed,
        file_reference: "PR-9".to_string(),
    };
    assert_eq!(
        process_theft_claim(&mut store, verdict(500, true)),
        Err(ServiceError::InvalidTransition)
    );
    assert_eq!(process_theft_claim(&mut store, verdict(999, true)), Err(ServiceError::NotFound));
    assert_eq!(process_theft_claim(&mut store, verdict(600, false)), Ok(()));
    assert_eq!(store.claims[1].status, ClaimStatus::Rejected);
    // the verdict is recorded once; a second one finds nothing pending
    assert_eq!(
        process_theft_claim(&mut store, verdict(600, true)),
        Err(ServiceError::InvalidTransition)
    );
}

#[test]
fn the_insurer_may_still_reject_a_fresh_theft_claim() {
    let mut store = provisioned_store();
    file_claim(&mut store, claim_request(600, CONTRACT_ID, true)).unwrap();
    // rejection is the one move the insurer keeps on a theft claim in `New`
    assert_eq!(process_claim(&mut store, decision(600, ClaimStatus::Rejected, 0)), Ok(()));
    assert_eq!(store.claims[0].status, ClaimStatus::Rejected);
    assert_eq!(store.claims[0].reimbursable, 0);
}

#[test]
fn pending_theft_listing_joins_item_and_owner_name() {
    let mut store = provisioned_store();
    file_claim(&mut store, claim_request(500, CONTRACT_ID, false)).unwrap();
    file_claim(&mut store, claim_request(600, CONTRACT_ID, true)).unwrap();
    let pending = list_theft_claims(&store).unwrap();
    assert_eq!(pending.len(), 1);
    assert_eq!(pending[0].uuid, 600);
    assert_eq!(pending[0].contract_uuid, CONTRACT_ID);
    assert_eq!(pending[0].item.serial_no, "NCX-7");
    assert_eq!(pending[0].name, "Ada Byron");

    // once confirmed, the claim leaves the pending listing
    process_theft_claim(
        &mut store,
        ProcessTheftClaimDto {
            uuid: 600,
            contract_uuid: CONTRACT_ID,
            is_theft: true,
            file_reference: "PR-1".to_string(),
        },
    )
    .unwrap();
    assert!(list_theft_claims(&store).unwrap().is_empty());
}

#[test]
fn completing_a_repair_order_marks_order_and_claim() {
    let mut store = provisioned_store();
    file_claim(&mut store, claim_request(500, CONTRACT_ID, false)).unwrap();
    process_claim(&mut store, decision(500, ClaimStatus::Repair, 0)).unwrap();

    assert_eq!(
        complete_repair_order(&mut store, CompleteRepairOrderDto { uuid: 999 }),
        Err(ServiceError::NotFound)
    );
    assert_eq!(complete_repair_order(&mut store, CompleteRepairOrderDto { uuid: 500 }), Ok(()));
    assert!(store.repair_orders[0].ready);
    assert!(store.claims[0].repaired);
    // repair completion does not advance the claim's status
    assert_eq!(store.claims[0].status, ClaimStatus::Repair);
    assert!(list_repair_orders(&store).unwrap().is_empty());
}

#[test]
fn claim_listing_filters_by_status() {
    let mut store = provisioned_store();
    file_claim(&mut store, claim_request(500, CONTRACT_ID, false)).unwrap();
    file_claim(&mut store, claim_request(501, CONTRACT_ID, false)).unwrap();
    process_claim(&mut store, decision(501, ClaimStatus::Rejected, 0)).unwrap();

    let all = list_claims(&store, None);
    assert_eq!(all.len(), 2);
    let wildcard = list_claims(&store, Some(ClaimStatus::Unknown));
    assert_eq!(wildcard.len(), 2);
    let fresh = list_claims(&store, Some(ClaimStatus::New));
    assert_eq!(fresh.len(), 1);
    assert_eq!(fresh[0].uuid, 500);
    let rejected = list_claims(&store, Some(ClaimStatus::Rejected));
    assert_eq!(rejected.len(), 1);
    assert_eq!(rejected[0].uuid, 501);
}

#[test]
fn owner_filtered_contract_listing_carries_the_claims() {
    let mut store = provisioned_store();
    file_claim(&mut store, claim_request(500, CONTRACT_ID, false)).unwrap();
    file_claim(&mut store, claim_request(501, CONTRACT_ID, true)).unwrap();
    let name = "ada".to_string();
    let mine = insurance::insurance::list_contracts(&store, Some(&name));
    assert_eq!(mine.len(), 1);
    let claims = mine[0].claims.as_ref().unwrap();
    assert_eq!(claims.len(), 2);
    assert_eq!(claims[0].id, 500);
    assert_eq!(claims[1].id, 501);
}

#[test]
fn record_accessors_follow_the_indices() {
    let mut store = provisioned_store();
    file_claim(&mut store, claim_request(500, CONTRACT_ID, false)).unwrap();

    let user = store.users[0].clone();
    let contracts = user.contracts(&store).unwrap();
    assert_eq!(contracts.len(), 1);
    assert_eq!(contracts[0].id, CONTRACT_ID);

    let contract = store.contracts[0].clone();
    let claims = contract.claims(&store).unwrap();
    assert_eq!(claims.len(), 1);
    assert_eq!(claims[0].id, 500);

    let owner = contract.user(&store).unwrap();
    assert_eq!(owner.username, "ada");

    let claim = store.claims[0].clone();
    let back = claim.contract(&store).unwrap();
    assert_eq!(back.id, CONTRACT_ID);
}
