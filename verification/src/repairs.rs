//! The repair shop role: listing outstanding repair orders and completing
//! them.

use vstd::prelude::*;

use crate::ServiceError;
use crate::data::{Claim, ClaimStatus, RepairOrder, eq_item};
use crate::store::{
    Store, claim_exists, contract_exists, find_claim, find_contract, find_repair_order,
    repair_order_exists, voids_preserved,
};

verus! {

/// An outstanding repair order joined with the item to repair.
#[derive(Debug, Clone, PartialEq)]
pub struct RepairOrderResult {
    pub uuid: u128,
    pub claim_uuid: u128,
    pub contract_uuid: u128,
    pub item: crate::data::Item,
}

/// Request to complete a repair order, by the identifier of its claim.
#[derive(Debug, Clone, Copy, PartialEq, Eq, Structural)]
pub struct CompleteRepairOrderDto {
    pub uuid: u128,
}

/// The repair orders still waiting to be completed, in store order.
pub open spec fn kept_repair_orders(ros: Seq<RepairOrder>) -> Seq<RepairOrder>
    decreases ros.len(),
{
    if ros.len() == 0 {
        Seq::empty()
    } else {
        let rest = kept_repair_orders(ros.drop_last());
        if !ros.last().ready {
            rest.push(ros.last())
        } else {
            rest
        }
    }
}

/// What one listing entry says of its order: the order's identifiers and the
/// item of the contract it refers to.
pub open spec fn repair_result_ok(t: RepairOrderResult, o: RepairOrder, s: Store) -> bool {
    &&& t.uuid == o.claim_uuid
    &&& t.claim_uuid == o.claim_uuid
    &&& t.contract_uuid == o.contract_id
    &&& exists|cj: int|
        0 <= cj < s.contracts@.len() && (#[trigger] s.contracts@[cj]).id == o.contract_id
            && eq_item(t.item, s.contracts@[cj].item)
}

/// Lists every repair order not yet completed, joined with the item it is
/// for.  In a well-formed store every reference resolves, so the listing
/// always succeeds.
pub fn list_repair_orders(store: &Store) -> (r: Result<Vec<RepairOrderResult>, ServiceError>)
    requires
        store.wf(),
    ensures
        match r {
            Ok(v) => {
                let kept = kept_repair_orders(store.repair_orders@);
                &&& v@.len() == kept.len()
                &&& forall|i: int|
                    0 <= i < v@.len() ==> repair_result_ok(#[trigger] v@[i], kept[i], *store)
            },
            Err(_) => false,
        },
{
    let mut r: Vec<RepairOrderResult> = Vec::new();
    let mut i: usize = 0;
    while i < store.repair_orders.len()
        invariant
            store.wf(),
            i <= store.repair_orders@.len(),
            ({
                let kept = kept_repair_orders(store.repair_orders@.subrange(0, i as int));
                &&& r@.len() == kept.len()
                &&& forall|j: int|
                    0 <= j < r@.len() ==> repair_result_ok(#[trigger] r@[j], kept[j], *store)
            }),
        decreases store.repair_orders@.len() - i,
    {
        let ghost prefix = store.repair_orders@.subrange(0, i as int);
        let o = store.repair_orders[i];
        if !o.ready {
            let cpos: usize = match find_contract(&store.contracts, o.contract_id) {
                None => {
                    proof {
                        let ro = store.repair_orders@[i as int];
                        assert(claim_exists(store.claims@, ro.claim_uuid, ro.contract_id));
                        let w = choose|q: int|
                            0 <= q < store.claims@.len() && store.claims@[q].id == ro.claim_uuid
                                && store.claims@[q].contract_uuid == ro.contract_id;
                        assert(contract_exists(
                            store.contracts@,
                            store.claims@[w].contract_uuid,
                        ));
                        assert(false);
                    }
                    return Err(ServiceError::NotFound);
                },
                Some(j) => j,
            };
            let entry = RepairOrderResult {
                uuid: o.claim_uuid,
                claim_uuid: o.claim_uuid,
                contract_uuid: o.contract_id,
                item: store.contracts[cpos].item.duplicate(),
            };
            r.push(entry);
        }
        proof {
            let x = store.repair_orders@[i as int];
            let ext = store.repair_orders@.subrange(0, i + 1);
            assert(ext =~= prefix.push(x));
            assert(ext.drop_last() =~= prefix);
            assert(ext.last() == x);
            if !x.ready {
                assert(kept_repair_orders(ext) == kept_repair_orders(prefix).push(x));
            } else {
                assert(kept_repair_orders(ext) == kept_repair_orders(prefix));
            }
        }
        i = i + 1;
    }
    proof {
        assert(store.repair_orders@.subrange(0, store.repair_orders@.len() as int)
            =~= store.repair_orders@);
    }
    Ok(r)
}

/// Completes a repair order: the order's `ready` flag goes up, one way, and
/// the originating claim is marked repaired.  Refused with `NotFound` when
/// no order carries that claim identifier.  The claim's status does not
/// advance: a repaired claim stays in `Repair`.
pub fn complete_repair_order(store: &mut Store, dto: CompleteRepairOrderDto) -> (r: Result<
    (),
    ServiceError,
>)
    requires
        old(store).wf(),
    ensures
        final(store).wf(),
        final(store).contract_types == old(store).contract_types,
        final(store).users == old(store).users,
        final(store).contracts == old(store).contracts,
        voids_preserved(old(store).contracts@, final(store).contracts@),
        final(store).claims@.len() == old(store).claims@.len(),
        final(store).repair_orders@.len() == old(store).repair_orders@.len(),
        match r {
            Ok(()) => {
                &&& repair_order_exists(old(store).repair_orders@, dto.uuid)
                &&& forall|i: int|
                    0 <= i < old(store).repair_orders@.len() && (#[trigger] old(
                        store,
                    ).repair_orders@[i]).claim_uuid == dto.uuid ==> final(store).repair_orders@[i]
                        == (RepairOrder { ready: true, ..old(store).repair_orders@[i] })
                &&& forall|i: int|
                    0 <= i < old(store).repair_orders@.len() && (#[trigger] old(
                        store,
                    ).repair_orders@[i]).claim_uuid != dto.uuid ==> final(store).repair_orders@[i]
                        == old(store).repair_orders@[i]
                &&& forall|p: int|
                    0 <= p < old(store).claims@.len() && (#[trigger] old(store).claims@[p]).id
                        == dto.uuid ==> final(store).claims@[p] == (Claim {
                        repaired: true,
                        ..old(store).claims@[p]
                    })
                &&& forall|p: int|
                    0 <= p < old(store).claims@.len() && (#[trigger] old(store).claims@[p]).id
                        != dto.uuid ==> final(store).claims@[p] == old(store).claims@[p]
            },
            Err(e) => {
                &&& final(store).claims == old(store).claims
                &&& final(store).repair_orders == old(store).repair_orders
                &&& e == ServiceError::NotFound
                &&& !repair_order_exists(old(store).repair_orders@, dto.uuid)
            },
        },
{
    let opos: usize = match find_repair_order(&store.repair_orders, dto.uuid) {
        None => {
            return Err(ServiceError::NotFound);
        },
        Some(i) => i,
    };
    let ghost oi = opos as int;
    proof {
        assert forall|i: int|
            0 <= i < store.repair_orders@.len() && (#[trigger] store.repair_orders@[i]).claim_uuid
                == dto.uuid implies i == oi by {
            if i != oi {
                assert(store.repair_orders@[i].claim_uuid == store.repair_orders@[oi].claim_uuid);
            }
        }
    }
    let contract_id: u128 = store.repair_orders[opos].contract_id;
    store.repair_orders[opos].ready = true;
    match find_claim(&store.claims, dto.uuid, contract_id) {
        None => {
            // A well-formed store backs every order with its claim.
            proof {
                assert(claim_exists(store.claims@, dto.uuid, contract_id));
                assert(false);
            }
        },
        Some(kpos) => {
            let ghost ki = kpos as int;
            store.claims[kpos].repaired = true;
            proof {
                assert(store.claims@ =~= old(store).claims@.update(ki, store.claims@[ki]));
                assert(old(store).claims@[ki].status != ClaimStatus::New);
                crate::store::lemma_claim_update_preserves_wf(
                    *old(store),
                    *store,
                    ki,
                    store.claims@[ki],
                    None,
                );
                assert forall|p: int|
                    0 <= p < old(store).claims@.len() && (#[trigger] old(store).claims@[p]).id
                        == dto.uuid implies p == ki by {
                    if p != ki {
                        assert(old(store).claims@[p].id == old(store).claims@[ki].id);
                    }
                }
            }
        },
    }
    Ok(())
}

} // verus!
