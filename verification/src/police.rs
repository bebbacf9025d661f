//! The police role: reviewing freshly filed theft claims and confirming or
//! rejecting them.

use vstd::prelude::*;

use crate::ServiceError;
use crate::data::{Claim, ClaimStatus, eq_item};
use crate::insurance::claim_matches;
use crate::store::{
    Store, claim_exists, contract_exists, find_claim, find_contract, find_user, user_exists,
    voids_preserved,
};

verus! {

/// A pending theft claim joined with the covered item and the owner's name.
#[derive(Debug, Clone, PartialEq)]
pub struct TheftClaimResult {
    pub uuid: u128,
    pub contract_uuid: u128,
    pub item: crate::data::Item,
    pub description: String,
    pub name: String,
}

/// The police's verdict on a theft claim: confirmed or not, with the police
/// report reference.
#[derive(Debug, Clone, PartialEq)]
pub struct ProcessTheftClaimDto {
    pub uuid: u128,
    pub contract_uuid: u128,
    pub is_theft: bool,
    pub file_reference: String,
}

/// A theft claim still awaiting the police's verdict.
pub open spec fn theft_pending(k: Claim) -> bool {
    k.is_theft && k.status == ClaimStatus::New
}

/// The theft claims awaiting a verdict, in store order.
pub open spec fn kept_theft_claims(ks: Seq<Claim>) -> Seq<Claim>
    decreases ks.len(),
{
    if ks.len() == 0 {
        Seq::empty()
    } else {
        let rest = kept_theft_claims(ks.drop_last());
        if theft_pending(ks.last()) {
            rest.push(ks.last())
        } else {
            rest
        }
    }
}

/// What one listing entry says of its claim: the claim's identifiers and
/// description, the covered item from the owning contract, and the contract
/// owner's full name.
pub open spec fn theft_result_ok(t: TheftClaimResult, k: Claim, s: Store) -> bool {
    &&& t.uuid == k.id
    &&& t.contract_uuid == k.contract_uuid
    &&& t.description@ == k.description@
    &&& exists|cj: int|
        0 <= cj < s.contracts@.len() && (#[trigger] s.contracts@[cj]).id == k.contract_uuid
            && eq_item(t.item, s.contracts@[cj].item) && exists|uj: int|
            0 <= uj < s.users@.len() && (#[trigger] s.users@[uj]).username@
                == s.contracts@[cj].username@ && t.name@ == s.users@[uj].first_name@ + " "@
                + s.users@[uj].last_name@
}

/// Lists every theft claim still in `New`, joined with its contract's item
/// and the owning user's full name.  In a well-formed store every reference
/// resolves, so the listing always succeeds; a dangling index would be
/// surfaced as `NotFound` rather than skipped.
pub fn list_theft_claims(store: &Store) -> (r: Result<Vec<TheftClaimResult>, ServiceError>)
    requires
        store.wf(),
    ensures
        match r {
            Ok(v) => {
                let kept = kept_theft_claims(store.claims@);
                &&& v@.len() == kept.len()
                &&& forall|i: int|
                    0 <= i < v@.len() ==> theft_result_ok(#[trigger] v@[i], kept[i], *store)
            },
            Err(_) => false,
        },
{
    let mut r: Vec<TheftClaimResult> = Vec::new();
    let mut i: usize = 0;
    while i < store.claims.len()
        invariant
            store.wf(),
            i <= store.claims@.len(),
            ({
                let kept = kept_theft_claims(store.claims@.subrange(0, i as int));
                &&& r@.len() == kept.len()
                &&& forall|j: int|
                    0 <= j < r@.len() ==> theft_result_ok(#[trigger] r@[j], kept[j], *store)
            }),
        decreases store.claims@.len() - i,
    {
        let ghost prefix = store.claims@.subrange(0, i as int);
        let k = &store.claims[i];
        let keep: bool = k.is_theft && k.status == ClaimStatus::New;
        if keep {
            let cpos: usize = match find_contract(&store.contracts, k.contract_uuid) {
                None => {
                    proof {
                        assert(contract_exists(store.contracts@, store.claims@[i as int].contract_uuid));
                        assert(false);
                    }
                    return Err(ServiceError::NotFound);
                },
                Some(j) => j,
            };
            let c = &store.contracts[cpos];
            let upos: usize = match find_user(&store.users, &c.username) {
                None => {
                    proof {
                        assert(user_exists(store.users@, store.contracts@[cpos as int].username@));
                        assert(false);
                    }
                    return Err(ServiceError::NotFound);
                },
                Some(j) => j,
            };
            let u = &store.users[upos];
            let name: String = u.first_name.clone().concat(" ").concat(u.last_name.as_str());
            let entry = TheftClaimResult {
                uuid: k.id,
                contract_uuid: k.contract_uuid,
                item: c.item.duplicate(),
                description: k.description.clone(),
                name,
            };
            r.push(entry);
        }
        proof {
            let x = store.claims@[i as int];
            let ext = store.claims@.subrange(0, i + 1);
            assert(ext =~= prefix.push(x));
            assert(ext.drop_last() =~= prefix);
            assert(ext.last() == x);
            assert(keep == theft_pending(x));
            if keep {
                assert(kept_theft_claims(ext) == kept_theft_claims(prefix).push(x));
            } else {
                assert(kept_theft_claims(ext) == kept_theft_claims(prefix));
            }
        }
        i = i + 1;
    }
    proof {
        assert(store.claims@.subrange(0, store.claims@.len() as int) =~= store.claims@);
    }
    Ok(r)
}

/// Records the police's verdict on a theft claim.  Refused with `NotFound`
/// when no claim matches the pair of identifiers, with `InvalidTransition`
/// when the claim is not a theft claim or has already left `New`.  On
/// success the claim moves to `TheftConfirmed` when confirmed and to
/// `Rejected` otherwise, and the police report reference is recorded either
/// way.
pub fn process_theft_claim(store: &mut Store, dto: ProcessTheftClaimDto) -> (r: Result<
    (),
    ServiceError,
>)
    requires
        old(store).wf(),
    ensures
        final(store).wf(),
        final(store).contract_types == old(store).contract_types,
        final(store).users == old(store).users,
        final(store).contracts == old(store).contracts,
        final(store).repair_orders == old(store).repair_orders,
        voids_preserved(old(store).contracts@, final(store).contracts@),
        match r {
            Ok(()) => {
                &&& claim_exists(old(store).claims@, dto.uuid, dto.contract_uuid)
                &&& final(store).claims@.len() == old(store).claims@.len()
                &&& forall|i: int|
                    0 <= i < old(store).claims@.len() && claim_matches(
                        #[trigger] old(store).claims@[i],
                        dto.uuid,
                        dto.contract_uuid,
                    ) ==> old(store).claims@[i].is_theft && old(store).claims@[i].status
                        == ClaimStatus::New && final(store).claims@[i] == (Claim {
                        status: if dto.is_theft {
                            ClaimStatus::TheftConfirmed
                        } else {
                            ClaimStatus::Rejected
                        },
                        file_reference: final(store).claims@[i].file_reference,
                        ..old(store).claims@[i]
                    }) && final(store).claims@[i].file_reference@ == dto.file_reference@
                &&& forall|i: int|
                    0 <= i < old(store).claims@.len() && !claim_matches(
                        #[trigger] old(store).claims@[i],
                        dto.uuid,
                        dto.contract_uuid,
                    ) ==> final(store).claims@[i] == old(store).claims@[i]
            },
            Err(e) => {
                &&& final(store).claims == old(store).claims
                &&& (e == ServiceError::NotFound || e == ServiceError::InvalidTransition)
                &&& ((e == ServiceError::NotFound) <==> !claim_exists(
                    old(store).claims@,
                    dto.uuid,
                    dto.contract_uuid,
                ))
                &&& ((e == ServiceError::InvalidTransition) <==> exists|i: int|
                    0 <= i < old(store).claims@.len() && claim_matches(
                        #[trigger] old(store).claims@[i],
                        dto.uuid,
                        dto.contract_uuid,
                    ) && !(old(store).claims@[i].is_theft && old(store).claims@[i].status
                        == ClaimStatus::New))
            },
        },
{
    let kpos: usize = match find_claim(&store.claims, dto.uuid, dto.contract_uuid) {
        None => {
            return Err(ServiceError::NotFound);
        },
        Some(i) => i,
    };
    let ghost ki = kpos as int;
    proof {
        assert forall|i: int|
            0 <= i < store.claims@.len() && claim_matches(
                #[trigger] store.claims@[i],
                dto.uuid,
                dto.contract_uuid,
            ) implies i == ki by {
            if i != ki {
                assert(store.claims@[i].id == store.claims@[ki].id);
            }
        }
    }
    if !(store.claims[kpos].is_theft && store.claims[kpos].status == ClaimStatus::New) {
        return Err(ServiceError::InvalidTransition);
    }
    store.claims[kpos].status = if dto.is_theft {
        ClaimStatus::TheftConfirmed
    } else {
        ClaimStatus::Rejected
    };
    store.claims[kpos].file_reference = dto.file_reference;
    proof {
        assert(store.claims@ =~= old(store).claims@.update(ki, store.claims@[ki]));
        crate::store::lemma_claim_update_preserves_wf(
            *old(store),
            *store,
            ki,
            store.claims@[ki],
            None,
        );
    }
    Ok(())
}

} // verus!
