//! The insurer's operations: the contract type catalog, claim listing and
//! filing, the claim status state machine, and the account helpers.

use vstd::prelude::*;

use crate::ServiceError;
use crate::credentials;
use crate::data::{
    Claim, ClaimStatus, Contract, ContractType, RepairOrder, User, eq_claim, eq_contract,
    eq_contract_type, process_allowed,
};
use crate::store::{
    Store, claim_exists, claim_id_exists, claim_index_ok, contract_exists, contract_index_ok,
    contract_type_exists, find_claim, find_claim_by_id, find_contract, find_contract_type,
    find_user, repair_order_claims_settled, unique_claim_ids, user_exists, voids_preserved,
};
use crate::text;

verus! {

/// A catalog entry, addressed by its identifier.
#[derive(Debug, Clone, PartialEq)]
pub struct ContractTypeResult {
    pub uuid: u128,
    pub contract_type: ContractType,
}

/// A contract together with the claims filed against it, when requested.
#[derive(Debug, Clone, PartialEq)]
pub struct ContractResult {
    pub uuid: u128,
    pub contract: Contract,
    pub claims: Option<Vec<Claim>>,
}

/// A claim, addressed by its identifier.
#[derive(Debug, Clone, PartialEq)]
pub struct ClaimResult {
    pub uuid: u128,
    pub claim: Claim,
}

/// Request to file a claim against a contract.
#[derive(Debug, Clone, PartialEq)]
pub struct FileClaimDto {
    pub uuid: u128,
    pub contract_uuid: u128,
    pub date: i64,
    pub description: String,
    pub is_theft: bool,
}

/// Request to move a claim to a new status.
#[derive(Debug, Clone, PartialEq)]
pub struct ProcessClaimDto {
    pub uuid: u128,
    pub contract_uuid: u128,
    pub status: ClaimStatus,
    pub reimbursable: u64,
}

/// A username with a password, for authentication and for handing fresh
/// credentials back.
#[derive(Debug, Clone, PartialEq)]
pub struct AuthUserDto {
    pub username: String,
    pub password: String,
}

/// Request to replace a user's password.
#[derive(Debug, Clone, PartialEq)]
pub struct UpdatePasswordDto {
    pub username: String,
    pub new_password: String,
}

/// Request naming a user alone.
#[derive(Debug, Clone, PartialEq)]
pub struct AuthMagicDto {
    pub username: String,
}

/// The public face of a user: everything but the credentials and the index.
#[derive(Debug, Clone, PartialEq)]
pub struct UserResponse {
    pub username: String,
    pub first_name: String,
    pub last_name: String,
}

/// Whether a catalog entry passes the shop-category filter: an active entry
/// whose uppercased category contains the uppercased filter.
pub open spec fn type_matches_filter(t: ContractType, filter: Seq<char>) -> bool {
    t.active && text::contains_sub(text::upper_of(t.shop_type@), text::upper_of(filter))
}

/// The catalog entries that pass the filter, in catalog order.
pub open spec fn kept_types(ts: Seq<ContractType>, filter: Seq<char>) -> Seq<ContractType>
    decreases ts.len(),
{
    if ts.len() == 0 {
        Seq::empty()
    } else {
        let rest = kept_types(ts.drop_last(), filter);
        if type_matches_filter(ts.last(), filter) {
            rest.push(ts.last())
        } else {
            rest
        }
    }
}

/// Lists the catalog.  An unfiltered call (the insurer's view) returns every
/// entry, inactive ones included; a filtered call (a shop's view) returns
/// the active entries whose category contains the filter, matched without
/// regard to case.
pub fn list_contract_types(store: &Store, filter: Option<&String>) -> (r: Vec<ContractTypeResult>)
    ensures
        match filter {
            None => {
                &&& r@.len() == store.contract_types@.len()
                &&& forall|i: int|
                    0 <= i < r@.len() ==> (#[trigger] r@[i]).uuid == store.contract_types@[i].id
                        && eq_contract_type(r@[i].contract_type, store.contract_types@[i])
            },
            Some(f) => {
                let kept = kept_types(store.contract_types@, f@);
                &&& r@.len() == kept.len()
                &&& forall|i: int|
                    0 <= i < r@.len() ==> (#[trigger] r@[i]).uuid == kept[i].id
                        && eq_contract_type(r@[i].contract_type, kept[i])
            },
        },
{
    let mut r: Vec<ContractTypeResult> = Vec::new();
    match filter {
        None => {
            let mut i: usize = 0;
            while i < store.contract_types.len()
                invariant
                    i <= store.contract_types@.len(),
                    r@.len() == i,
                    forall|j: int|
                        0 <= j < i ==> (#[trigger] r@[j]).uuid == store.contract_types@[j].id
                            && eq_contract_type(r@[j].contract_type, store.contract_types@[j]),
                decreases store.contract_types@.len() - i,
            {
                let t = store.contract_types[i].duplicate();
                r.push(ContractTypeResult { uuid: t.id, contract_type: t });
                i = i + 1;
            }
            r
        },
        Some(f) => {
            let upper_filter = text::to_upper(f.as_str());
            let mut i: usize = 0;
            while i < store.contract_types.len()
                invariant
                    i <= store.contract_types@.len(),
                    upper_filter@ == text::upper_of(f@),
                    ({
                        let kept = kept_types(store.contract_types@.subrange(0, i as int), f@);
                        &&& r@.len() == kept.len()
                        &&& forall|j: int|
                            0 <= j < r@.len() ==> (#[trigger] r@[j]).uuid == kept[j].id
                                && eq_contract_type(r@[j].contract_type, kept[j])
                    }),
                decreases store.contract_types@.len() - i,
            {
                let ghost prefix = store.contract_types@.subrange(0, i as int);
                let t = &store.contract_types[i];
                let mut keep: bool = false;
                if t.active {
                    let upper_type = text::to_upper(t.shop_type.as_str());
                    keep = text::contains_str(upper_type.as_str(), upper_filter.as_str());
                }
                if keep {
                    let c = t.duplicate();
                    r.push(ContractTypeResult { uuid: c.id, contract_type: c });
                }
                proof {
                    let x = store.contract_types@[i as int];
                    let ext = store.contract_types@.subrange(0, i + 1);
                    assert(ext =~= prefix.push(x));
                    assert(ext.drop_last() =~= prefix);
                    assert(ext.last() == x);
                    assert(keep == type_matches_filter(x, f@));
                    if keep {
                        assert(kept_types(ext, f@) == kept_types(prefix, f@).push(x));
                    } else {
                        assert(kept_types(ext, f@) == kept_types(prefix, f@));
                    }
                }
                i = i + 1;
            }
            proof {
                assert(store.contract_types@.subrange(0, store.contract_types@.len() as int)
                    =~= store.contract_types@);
            }
            r
        },
    }
}

/// Adds a catalog entry.  Refused with `Conflict` when the identifier is
/// already taken; nothing else about the store changes.
pub fn create_contract_type(store: &mut Store, ct: ContractType) -> (r: Result<(), ServiceError>)
    requires
        old(store).wf(),
    ensures
        final(store).wf(),
        final(store).users == old(store).users,
        final(store).contracts == old(store).contracts,
        final(store).claims == old(store).claims,
        final(store).repair_orders == old(store).repair_orders,
        match r {
            Ok(()) => {
                &&& !contract_type_exists(old(store).contract_types@, ct.id)
                &&& final(store).contract_types@ == old(store).contract_types@.push(ct)
            },
            Err(e) => {
                &&& e == ServiceError::Conflict
                &&& contract_type_exists(old(store).contract_types@, ct.id)
                &&& final(store).contract_types == old(store).contract_types
            },
        },
{
    match find_contract_type(&store.contract_types, ct.id) {
        Some(_) => Err(ServiceError::Conflict),
        None => {
            store.contract_types.push(ct);
            Ok(())
        },
    }
}

/// Flips a catalog entry's `active` flag.  Refused with `NotFound` when the
/// identifier is unknown; every other field and entry stays as it was.
pub fn set_active_contract_type(store: &mut Store, id: u128, active: bool) -> (r: Result<
    (),
    ServiceError,
>)
    requires
        old(store).wf(),
    ensures
        final(store).wf(),
        final(store).users == old(store).users,
        final(store).contracts == old(store).contracts,
        final(store).claims == old(store).claims,
        final(store).repair_orders == old(store).repair_orders,
        match r {
            Ok(()) => {
                &&& contract_type_exists(old(store).contract_types@, id)
                &&& final(store).contract_types@.len() == old(store).contract_types@.len()
                &&& forall|i: int|
                    0 <= i < old(store).contract_types@.len() && (
                    #[trigger] old(store).contract_types@[i]).id == id ==> final(store).contract_types@[i]
                        == (ContractType { active, ..old(store).contract_types@[i] })
                &&& forall|i: int|
                    0 <= i < old(store).contract_types@.len() && (
                    #[trigger] old(store).contract_types@[i]).id != id ==> final(store).contract_types@[i]
                        == old(store).contract_types@[i]
            },
            Err(e) => {
                &&& e == ServiceError::NotFound
                &&& !contract_type_exists(old(store).contract_types@, id)
                &&& final(store).contract_types == old(store).contract_types
            },
        },
{
    match find_contract_type(&store.contract_types, id) {
        None => Err(ServiceError::NotFound),
        Some(i) => {
            store.contract_types[i].active = active;
            Ok(())
        },
    }
}

/// The claim a filing request creates: freshly `New`, nothing reimbursable,
/// nothing repaired, no police reference yet.
pub open spec fn is_filed_claim(k: Claim, dto: FileClaimDto) -> bool {
    &&& k.id == dto.uuid
    &&& k.contract_uuid == dto.contract_uuid
    &&& k.date == dto.date
    &&& k.description@ == dto.description@
    &&& k.is_theft == dto.is_theft
    &&& k.status == ClaimStatus::New
    &&& k.reimbursable == 0
    &&& !k.repaired
    &&& k.file_reference@ == Seq::<char>::empty()
}

/// Some contract with this id is void.
pub open spec fn contract_is_void(cs: Seq<Contract>, id: u128) -> bool {
    exists|i: int| 0 <= i < cs.len() && cs[i].id == id && cs[i].void
}

/// Files a claim against a contract.  Refused with `NotFound` when the
/// contract is unknown, with `Conflict` when the contract is void or the
/// claim identifier is already taken.  On success the claim record and the
/// contract's index entry appear together, as one unit: the store is never
/// left with one and not the other.
pub fn file_claim(store: &mut Store, dto: FileClaimDto) -> (r: Result<(), ServiceError>)
    requires
        old(store).wf(),
    ensures
        final(store).wf(),
        final(store).contract_types == old(store).contract_types,
        final(store).users == old(store).users,
        final(store).repair_orders == old(store).repair_orders,
        voids_preserved(old(store).contracts@, final(store).contracts@),
        match r {
            Ok(()) => {
                &&& contract_exists(old(store).contracts@, dto.contract_uuid)
                &&& !claim_id_exists(old(store).claims@, dto.uuid)
                &&& forall|i: int|
                    0 <= i < old(store).contracts@.len() && (#[trigger] old(
                        store,
                    ).contracts@[i]).id == dto.contract_uuid ==> !old(store).contracts@[i].void
                &&& final(store).claims@.len() == old(store).claims@.len() + 1
                &&& forall|i: int|
                    0 <= i < old(store).claims@.len() ==> final(store).claims@[i] == old(
                        store,
                    ).claims@[i]
                &&& is_filed_claim(final(store).claims@[old(store).claims@.len() as int], dto)
                &&& final(store).contracts@.len() == old(store).contracts@.len()
                &&& forall|i: int|
                    0 <= i < old(store).contracts@.len() && (#[trigger] old(
                        store,
                    ).contracts@[i]).id != dto.contract_uuid ==> final(store).contracts@[i] == old(
                        store,
                    ).contracts@[i]
                &&& forall|i: int|
                    0 <= i < old(store).contracts@.len() && (#[trigger] old(
                        store,
                    ).contracts@[i]).id == dto.contract_uuid ==> final(store).contracts@[i] == (
                    Contract {
                        claim_index: final(store).contracts@[i].claim_index,
                        ..old(store).contracts@[i]
                    }) && final(store).contracts@[i].claim_index@ == old(
                        store,
                    ).contracts@[i].claim_index@.push(dto.uuid)
            },
            Err(e) => {
                &&& final(store).contracts == old(store).contracts
                &&& final(store).claims == old(store).claims
                &&& (e == ServiceError::NotFound || e == ServiceError::Conflict)
                &&& ((e == ServiceError::NotFound) <==> !contract_exists(
                    old(store).contracts@,
                    dto.contract_uuid,
                ))
                &&& ((e == ServiceError::Conflict) <==> contract_exists(
                    old(store).contracts@,
                    dto.contract_uuid,
                ) && (contract_is_void(old(store).contracts@, dto.contract_uuid)
                    || claim_id_exists(old(store).claims@, dto.uuid)))
            },
        },
{
    let cpos: usize = match find_contract(&store.contracts, dto.contract_uuid) {
        None => {
            return Err(ServiceError::NotFound);
        },
        Some(i) => i,
    };
    if store.contracts[cpos].void {
        return Err(ServiceError::Conflict);
    }
    if find_claim_by_id(&store.claims, dto.uuid).is_some() {
        return Err(ServiceError::Conflict);
    }
    let k = Claim {
        id: dto.uuid,
        contract_uuid: dto.contract_uuid,
        date: dto.date,
        description: dto.description,
        is_theft: dto.is_theft,
        status: ClaimStatus::New,
        reimbursable: 0,
        repaired: false,
        file_reference: String::new(),
    };
    let ghost gk = k;
    store.claims.push(k);
    store.contracts[cpos].claim_index.push(dto.uuid);
    proof {
        lemma_file_claim_preserves_wf(*old(store), *store, dto, gk, cpos as int);
    }
    Ok(())
}

/// Filing a claim keeps the store well formed: the new claim record and the
/// one new index entry agree, and nothing else moved.
proof fn lemma_file_claim_preserves_wf(
    pre: Store,
    post: Store,
    dto: FileClaimDto,
    k: Claim,
    ci: int,
)
    requires
        pre.wf(),
        0 <= ci < pre.contracts@.len(),
        pre.contracts@[ci].id == dto.contract_uuid,
        !claim_id_exists(pre.claims@, dto.uuid),
        is_filed_claim(k, dto),
        post.claims@ == pre.claims@.push(k),
        post.contracts@ == pre.contracts@.update(
            ci,
            Contract {
                claim_index: post.contracts@[ci].claim_index,
                ..pre.contracts@[ci]
            },
        ),
        post.contracts@[ci].claim_index@ == pre.contracts@[ci].claim_index@.push(dto.uuid),
        post.contract_types == pre.contract_types,
        post.users == pre.users,
        post.repair_orders == pre.repair_orders,
    ensures
        post.wf(),
{
    let oc = pre.contracts@;
    let nc = post.contracts@;
    let ok_ = pre.claims@;
    let nk = post.claims@;
    let kl = ok_.len() as int;
    assert(forall|i: int| 0 <= i < kl ==> nk[i] == ok_[i]);
    assert(nk[kl] == k);
    assert(forall|i: int| 0 <= i < oc.len() && i != ci ==> nc[i] == oc[i]);
    assert(forall|i: int| 0 <= i < oc.len() ==> (#[trigger] nc[i]).id == oc[i].id
        && nc[i].username@ == oc[i].username@);

    // Unique claim ids: the fresh id differs from every old one.
    assert(forall|i: int| 0 <= i < kl ==> (#[trigger] ok_[i]).id != dto.uuid);
    assert(unique_claim_ids(nk));

    // Claim existence is preserved, and the new claim is present.
    assert(forall|id: u128, cid: u128|
        claim_exists(ok_, id, cid) ==> claim_exists(nk, id, cid)) by {
        assert forall|id: u128, cid: u128|
            claim_exists(ok_, id, cid) implies claim_exists(nk, id, cid) by {
            let w = choose|i: int| 0 <= i < ok_.len() && ok_[i].id == id && ok_[i].contract_uuid
                == cid;
            assert(nk[w].id == id && nk[w].contract_uuid == cid);
        }
    }
    assert(claim_exists(nk, dto.uuid, dto.contract_uuid)) by {
        assert(nk[kl].id == dto.uuid && nk[kl].contract_uuid == dto.contract_uuid);
    }

    // Every contract's claim index still matches the claim records.
    assert forall|i: int| 0 <= i < nc.len() implies claim_index_ok(#[trigger] nc[i], nk) by {
        let c_old = oc[i];
        let c_new = nc[i];
        assert(claim_index_ok(c_old, ok_));
        if i == ci {
            let oidx = c_old.claim_index@;
            let nidx = c_new.claim_index@;
            assert(nidx == oidx.push(dto.uuid));
            assert(forall|j: int| 0 <= j < oidx.len() ==> nidx[j] == oidx[j]);
            assert(nidx[oidx.len() as int] == dto.uuid);
            // listed entries exist
            assert forall|j: int| 0 <= j < nidx.len() implies claim_exists(
                nk,
                #[trigger] nidx[j],
                c_new.id,
            ) by {
                if j < oidx.len() {
                    assert(claim_exists(ok_, oidx[j], c_old.id));
                } else {
                    assert(nidx[j] == dto.uuid);
                    assert(nk[kl].id == dto.uuid && nk[kl].contract_uuid == c_new.id);
                }
            }
            // claims of this contract are listed
            assert forall|p: int|
                0 <= p < nk.len() && (#[trigger] nk[p]).contract_uuid == c_new.id implies
                c_new.claim_index@.contains(nk[p].id) by {
                if p < kl {
                    assert(c_old.claim_index@.contains(ok_[p].id));
                    let w = choose|j: int| 0 <= j < oidx.len() && oidx[j] == ok_[p].id;
                    assert(nidx[w] == ok_[p].id);
                } else {
                    assert(nidx[oidx.len() as int] == nk[p].id);
                }
            }
            // no duplicate entries: every old entry is an old claim id, and
            // the fresh id is no old claim id
            assert forall|j1: int, j2: int| 0 <= j1 < j2 < nidx.len() implies nidx[j1] != nidx[j2]
                by {
                if j2 == oidx.len() {
                    assert(claim_exists(ok_, oidx[j1], c_old.id));
                    let w = choose|p: int| 0 <= p < ok_.len() && ok_[p].id == oidx[j1]
                        && ok_[p].contract_uuid == c_old.id;
                    assert(ok_[w].id != dto.uuid);
                }
            }
        } else {
            assert(c_new == c_old);
            assert forall|j: int| 0 <= j < c_new.claim_index@.len() implies claim_exists(
                nk,
                #[trigger] c_new.claim_index@[j],
                c_new.id,
            ) by {
                assert(claim_exists(ok_, c_old.claim_index@[j], c_old.id));
            }
            assert(c_old.id != oc[ci].id);
            assert forall|p: int|
                0 <= p < nk.len() && (#[trigger] nk[p]).contract_uuid == c_new.id implies
                c_new.claim_index@.contains(nk[p].id) by {
                if p < kl {
                    assert(c_old.claim_index@.contains(ok_[p].id));
                } else {
                    assert(nk[p].contract_uuid == dto.contract_uuid == oc[ci].id);
                }
            }
        }
    }

    // User contract indices: contract ids and owners did not move.
    assert forall|i: int| 0 <= i < post.users@.len() implies contract_index_ok(
        #[trigger] post.users@[i],
        nc,
    ) by {
        let u = pre.users@[i];
        assert(contract_index_ok(u, oc));
        crate::store::lemma_contract_index_ok_transfer(u, u, oc, nc);
    }

    // Referential integrity.
    assert forall|i: int| 0 <= i < nk.len() implies contract_exists(
        nc,
        (#[trigger] nk[i]).contract_uuid,
    ) by {
        if i < kl {
            let w = choose|p: int| 0 <= p < oc.len() && oc[p].id == ok_[i].contract_uuid;
            assert(nc[w].id == ok_[i].contract_uuid);
        } else {
            assert(nc[ci].id == dto.contract_uuid);
        }
    }
    assert forall|i: int| 0 <= i < nc.len() implies user_exists(
        post.users@,
        (#[trigger] nc[i]).username@,
    ) by {
        assert(user_exists(pre.users@, oc[i].username@));
    }
    assert forall|i: int| 0 <= i < post.repair_orders@.len() implies claim_exists(
        nk,
        (#[trigger] post.repair_orders@[i]).claim_uuid,
        post.repair_orders@[i].contract_id,
    ) by {
        assert(claim_exists(ok_, pre.repair_orders@[i].claim_uuid,
            pre.repair_orders@[i].contract_id));
    }

    // No repair order can refer to the fresh claim: its id was unused.
    assert forall|i: int, p: int|
        0 <= i < post.repair_orders@.len() && 0 <= p < nk.len() && (
        #[trigger] post.repair_orders@[i]).claim_uuid == (#[trigger] nk[p]).id implies !nk[p].is_theft
        && nk[p].status != ClaimStatus::New by {
        if p < kl {
            assert(repair_order_claims_settled(pre.repair_orders@, ok_));
        } else {
            assert(claim_exists(ok_, pre.repair_orders@[i].claim_uuid,
                pre.repair_orders@[i].contract_id));
            let w = choose|q: int|
                0 <= q < ok_.len() && ok_[q].id == pre.repair_orders@[i].claim_uuid
                    && ok_[q].contract_uuid == pre.repair_orders@[i].contract_id;
            assert(ok_[w].id == dto.uuid);
            assert(false);
        }
    }
}

/// What a claim matched by a `(claim, contract)` pair looks like.
pub open spec fn claim_matches(k: Claim, id: u128, contract_uuid: u128) -> bool {
    k.id == id && k.contract_uuid == contract_uuid
}

/// The reimbursable amount a processing decision leaves on the claim:
/// the requested amount on reimbursement, zero on rejection, untouched
/// otherwise.
pub open spec fn spec_new_reimbursable(k: Claim, dto: ProcessClaimDto) -> u64 {
    if dto.status == ClaimStatus::Reimbursement {
        dto.reimbursable
    } else if dto.status == ClaimStatus::Rejected {
        0
    } else {
        k.reimbursable
    }
}

/// The claim after a processing decision: new status, adjusted amount,
/// everything else untouched.
pub open spec fn is_processed_claim(k_new: Claim, k_old: Claim, dto: ProcessClaimDto) -> bool {
    k_new == (Claim {
        status: dto.status,
        reimbursable: spec_new_reimbursable(k_old, dto),
        ..k_old
    })
}

/// The decision reimburses a confirmed theft: the one case that voids the
/// owning contract.
pub open spec fn claim_theft_reimbursed(ks: Seq<Claim>, dto: ProcessClaimDto) -> bool {
    dto.status == ClaimStatus::Reimbursement && exists|i: int|
        0 <= i < ks.len() && claim_matches(#[trigger] ks[i], dto.uuid, dto.contract_uuid)
            && ks[i].is_theft
}

/// One status transition, driven by the insurer.  Refused with `NotFound`
/// when no claim matches the pair of identifiers, with `InvalidTransition`
/// when the state machine forbids the move (see `process_allowed`).  Moving
/// to `Repair` cuts exactly one repair order for the contract's item;
/// reimbursing a confirmed theft voids the owning contract; a rejection
/// clears the reimbursable amount.
pub fn process_claim(store: &mut Store, dto: ProcessClaimDto) -> (r: Result<(), ServiceError>)
    requires
        old(store).wf(),
    ensures
        final(store).wf(),
        final(store).contract_types == old(store).contract_types,
        final(store).users == old(store).users,
        final(store).contracts@.len() == old(store).contracts@.len(),
        voids_preserved(old(store).contracts@, final(store).contracts@),
        match r {
            Ok(()) => {
                &&& claim_exists(old(store).claims@, dto.uuid, dto.contract_uuid)
                &&& final(store).claims@.len() == old(store).claims@.len()
                &&& forall|i: int|
                    0 <= i < old(store).claims@.len() && claim_matches(
                        #[trigger] old(store).claims@[i],
                        dto.uuid,
                        dto.contract_uuid,
                    ) ==> process_allowed(old(store).claims@[i], dto.status)
                        && is_processed_claim(final(store).claims@[i], old(store).claims@[i], dto)
                &&& forall|i: int|
                    0 <= i < old(store).claims@.len() && !claim_matches(
                        #[trigger] old(store).claims@[i],
                        dto.uuid,
                        dto.contract_uuid,
                    ) ==> final(store).claims@[i] == old(store).claims@[i]
                &&& (claim_theft_reimbursed(old(store).claims@, dto) ==> forall|j: int|
                    0 <= j < old(store).contracts@.len() ==> if (#[trigger] old(
                        store,
                    ).contracts@[j]).id == dto.contract_uuid {
                        final(store).contracts@[j] == (Contract {
                            void: true,
                            ..old(store).contracts@[j]
                        })
                    } else {
                        final(store).contracts@[j] == old(store).contracts@[j]
                    })
                &&& (!claim_theft_reimbursed(old(store).claims@, dto) ==> final(store).contracts
                    == old(store).contracts)
                &&& (dto.status == ClaimStatus::Repair ==> {
                    &&& final(store).repair_orders@.len() == old(store).repair_orders@.len() + 1
                    &&& forall|i: int|
                        0 <= i < old(store).repair_orders@.len() ==> final(store).repair_orders@[i] == old(store).repair_orders@[i]
                    &&& forall|j: int|
                        0 <= j < old(store).contracts@.len() && (#[trigger] old(
                            store,
                        ).contracts@[j]).id == dto.contract_uuid ==> final(store).repair_orders@[old(store).repair_orders@.len() as int] == (RepairOrder {
                            claim_uuid: dto.uuid,
                            contract_id: dto.contract_uuid,
                            item_id: old(store).contracts@[j].item.id,
                            ready: false,
                        })
                })
                &&& (dto.status != ClaimStatus::Repair ==> final(store).repair_orders == old(
                    store,
                ).repair_orders)
            },
            Err(e) => {
                &&& final(store).contracts == old(store).contracts
                &&& final(store).claims == old(store).claims
                &&& final(store).repair_orders == old(store).repair_orders
                &&& (e == ServiceError::NotFound || e == ServiceError::InvalidTransition)
                &&& ((e == ServiceError::NotFound) <==> !claim_exists(
                    old(store).claims@,
                    dto.uuid,
                    dto.contract_uuid,
                ))
                &&& ((e == ServiceError::InvalidTransition) <==> exists|i: int|
                    0 <= i < old(store).claims@.len() && claim_matches(
                        #[trigger] old(store).claims@[i],
                        dto.uuid,
                        dto.contract_uuid,
                    ) && !process_allowed(old(store).claims@[i], dto.status))
            },
        },
{
    let kpos: usize = match find_claim(&store.claims, dto.uuid, dto.contract_uuid) {
        None => {
            return Err(ServiceError::NotFound);
        },
        Some(i) => i,
    };
    let ghost ki = kpos as int;
    proof {
        assert forall|i: int|
            0 <= i < store.claims@.len() && claim_matches(
                #[trigger] store.claims@[i],
                dto.uuid,
                dto.contract_uuid,
            ) implies i == ki by {
            if i != ki {
                assert(store.claims@[i].id == store.claims@[ki].id);
            }
        }
    }
    let is_theft: bool = store.claims[kpos].is_theft;
    let currently_new: bool = store.claims[kpos].status == ClaimStatus::New;
    if !is_theft && !currently_new && !(dto.status == ClaimStatus::Rejected) {
        return Err(ServiceError::InvalidTransition);
    }
    if is_theft && currently_new && !(dto.status == ClaimStatus::Rejected) {
        return Err(ServiceError::InvalidTransition);
    }
    match dto.status {
        ClaimStatus::Repair => {
            if is_theft {
                return Err(ServiceError::InvalidTransition);
            }
            let cpos: usize = match find_contract(&store.contracts, dto.contract_uuid) {
                None => {
                    proof {
                        assert(contract_exists(store.contracts@, store.claims@[ki].contract_uuid));
                        assert(false);
                    }
                    return Err(ServiceError::NotFound);
                },
                Some(j) => j,
            };
            let item_id: i32 = store.contracts[cpos].item.id;
            store.claims[kpos].status = ClaimStatus::Repair;
            let ro = RepairOrder {
                claim_uuid: dto.uuid,
                contract_id: dto.contract_uuid,
                item_id,
                ready: false,
            };
            store.repair_orders.push(ro);
            proof {
                assert(store.claims@ =~= old(store).claims@.update(ki, store.claims@[ki]));
                crate::store::lemma_claim_update_preserves_wf(
                    *old(store),
                    *store,
                    ki,
                    store.claims@[ki],
                    Some(ro),
                );
                assert forall|j: int|
                    0 <= j < old(store).contracts@.len() && (#[trigger] old(
                        store,
                    ).contracts@[j]).id == dto.contract_uuid implies store.repair_orders@[old(
                    store,
                ).repair_orders@.len() as int] == (RepairOrder {
                    claim_uuid: dto.uuid,
                    contract_id: dto.contract_uuid,
                    item_id: old(store).contracts@[j].item.id,
                    ready: false,
                }) by {
                    if j != cpos as int {
                        assert(old(store).contracts@[j].id == old(store).contracts@[cpos as int].id);
                    }
                }
            }
            Ok(())
        },
        ClaimStatus::Reimbursement => {
            store.claims[kpos].status = ClaimStatus::Reimbursement;
            store.claims[kpos].reimbursable = dto.reimbursable;
            if is_theft {
                let cpos: usize = match find_contract(&store.contracts, dto.contract_uuid) {
                    None => {
                        proof {
                            assert(contract_exists(
                                store.contracts@,
                                store.claims@[ki].contract_uuid,
                            ));
                            assert(false);
                        }
                        return Err(ServiceError::NotFound);
                    },
                    Some(j) => j,
                };
                store.contracts[cpos].void = true;
                proof {
                    assert(store.claims@ =~= old(store).claims@.update(ki, store.claims@[ki]));
                    crate::store::lemma_claim_update_preserves_wf(
                        *old(store),
                        *store,
                        ki,
                        store.claims@[ki],
                        None,
                    );
                    assert forall|j: int|
                        0 <= j < old(store).contracts@.len() && (#[trigger] old(
                            store,
                        ).contracts@[j]).id != dto.contract_uuid implies store.contracts@[j] == old(
                        store,
                    ).contracts@[j] by {
                        assert(j != cpos as int);
                    }
                }
            } else {
                proof {
                    assert(store.claims@ =~= old(store).claims@.update(ki, store.claims@[ki]));
                    crate::store::lemma_claim_update_preserves_wf(
                        *old(store),
                        *store,
                        ki,
                        store.claims@[ki],
                        None,
                    );
                }
            }
            Ok(())
        },
        ClaimStatus::Rejected => {
            store.claims[kpos].status = ClaimStatus::Rejected;
            store.claims[kpos].reimbursable = 0;
            proof {
                assert(store.claims@ =~= old(store).claims@.update(ki, store.claims@[ki]));
                crate::store::lemma_claim_update_preserves_wf(*old(store), *store, ki, store.claims@[ki], None);
            }
            Ok(())
        },
        _ => Err(ServiceError::InvalidTransition),
    }
}



/// Checks a password against a user's stored digest.  An unknown username
/// answers `false`, never an error; so does a mismatch.
pub fn auth_user(store: &Store, dto: &AuthUserDto) -> (r: bool)
    requires
        store.wf(),
    ensures
        r == (exists|i: int|
            0 <= i < store.users@.len() && (#[trigger] store.users@[i]).username@
                == dto.username@ && credentials::accepts(dto.password@, store.users@[i].password@)),
{
    match find_user(&store.users, &dto.username) {
        None => {
            proof {
                assert forall|i: int|
                    0 <= i < store.users@.len() implies !((#[trigger] store.users@[i]).username@
                    == dto.username@ && credentials::accepts(
                    dto.password@,
                    store.users@[i].password@,
                )) by {
                    assert(!user_exists(store.users@, dto.username@));
                }
            }
            false
        },
        Some(i) => {
            let ok = credentials::verify_password(&dto.password, &store.users[i].password);
            proof {
                if !ok {
                    assert forall|j: int|
                        0 <= j < store.users@.len() implies !((#[trigger] store.users@[j]).username@
                        == dto.username@ && credentials::accepts(
                        dto.password@,
                        store.users@[j].password@,
                    )) by {
                        if store.users@[j].username@ == dto.username@ && j != i as int {
                            assert(store.users@[j].username@ == store.users@[i as int].username@);
                        }
                    }
                }
            }
            ok
        },
    }
}

/// Answers whether the username itself verifies against the username as if
/// it were a digest — false for any real account, since a username is no
/// bcrypt hash.  An unknown username answers `false` as well.
pub fn auth_magic(store: &Store, dto: &AuthMagicDto) -> (r: bool)
    ensures
        r == (user_exists(store.users@, dto.username@) && credentials::accepts(
            dto.username@,
            dto.username@,
        )),
{
    match find_user(&store.users, &dto.username) {
        None => false,
        Some(i) => credentials::verify_password(&dto.username, &store.users[i].username),
    }
}

/// Replaces a user's password with a fresh digest of the new one.  Refused
/// with `NotFound` for an unknown username; reported as `InvalidInput` in
/// the rare case that no digest could be produced, with the store untouched.
pub fn update_password(store: &mut Store, dto: &UpdatePasswordDto) -> (r: Result<(), ServiceError>)
    requires
        old(store).wf(),
    ensures
        final(store).wf(),
        final(store).contract_types == old(store).contract_types,
        final(store).contracts == old(store).contracts,
        final(store).claims == old(store).claims,
        final(store).repair_orders == old(store).repair_orders,
        final(store).users@.len() == old(store).users@.len(),
        forall|i: int|
            0 <= i < old(store).users@.len() && (#[trigger] old(store).users@[i]).username@
                != dto.username@ ==> final(store).users@[i] == old(store).users@[i],
        match r {
            Ok(()) => {
                &&& user_exists(old(store).users@, dto.username@)
                &&& forall|i: int|
                    0 <= i < old(store).users@.len() && (#[trigger] old(store).users@[i]).username@
                        == dto.username@ ==> final(store).users@[i] == (User {
                        password: final(store).users@[i].password,
                        ..old(store).users@[i]
                    }) && credentials::accepts(
                        dto.new_password@,
                        final(store).users@[i].password@,
                    )
            },
            Err(e) => {
                &&& final(store).users == old(store).users
                &&& (e == ServiceError::NotFound || e == ServiceError::InvalidInput)
                &&& ((e == ServiceError::NotFound) <==> !user_exists(
                    old(store).users@,
                    dto.username@,
                ))
            },
        },
{
    let upos: usize = match find_user(&store.users, &dto.username) {
        None => {
            return Err(ServiceError::NotFound);
        },
        Some(i) => i,
    };
    let digest: String = match credentials::hash_password(&dto.new_password) {
        None => {
            return Err(ServiceError::InvalidInput);
        },
        Some(d) => d,
    };
    store.users[upos].password = digest;
    proof {
        lemma_password_update_preserves_wf(*old(store), *store, upos as int);
    }
    Ok(())
}

/// Replacing one user's digest moves nothing the invariants watch.
proof fn lemma_password_update_preserves_wf(pre: Store, post: Store, ui: int)
    requires
        pre.wf(),
        0 <= ui < pre.users@.len(),
        post.users@ == pre.users@.update(
            ui,
            User { password: post.users@[ui].password, ..pre.users@[ui] },
        ),
        post.contracts == pre.contracts,
        post.claims == pre.claims,
        post.contract_types == pre.contract_types,
        post.repair_orders == pre.repair_orders,
    ensures
        post.wf(),
{
    assert(forall|i: int| 0 <= i < pre.users@.len() ==> (#[trigger] post.users@[i]).username@
        == pre.users@[i].username@ && post.users@[i].contract_index == pre.users@[i].contract_index);
    let nc = post.contracts@;
    assert forall|ux: int| 0 <= ux < post.users@.len() implies contract_index_ok(
        #[trigger] post.users@[ux],
        nc,
    ) by {
        let u_old = pre.users@[ux];
        let u_new = post.users@[ux];
        assert(contract_index_ok(u_old, pre.contracts@));
        assert(u_new.contract_index@ == u_old.contract_index@);
        assert(u_new.username@ == u_old.username@);
        crate::store::lemma_contract_index_ok_transfer(u_old, u_new, pre.contracts@, nc);
    }
    assert forall|j: int| 0 <= j < post.contracts@.len() implies user_exists(
        post.users@,
        (#[trigger] post.contracts@[j]).username@,
    ) by {
        assert(user_exists(pre.users@, pre.contracts@[j].username@));
        let w = choose|q: int|
            0 <= q < pre.users@.len() && pre.users@[q].username@ == pre.contracts@[j].username@;
        assert(post.users@[w].username@ == pre.contracts@[j].username@);
    }
}

/// Reads a user's public details.  An unknown username yields nothing.
pub fn get_user(store: &Store, username: &String) -> (r: Option<UserResponse>)
    ensures
        match r {
            Some(u) => exists|i: int|
                0 <= i < store.users@.len() && (#[trigger] store.users@[i]).username@ == username@
                    && u.username@ == store.users@[i].username@ && u.first_name@
                    == store.users@[i].first_name@ && u.last_name@ == store.users@[i].last_name@,
            None => !user_exists(store.users@, username@),
        },
{
    match find_user(&store.users, username) {
        None => None,
        Some(i) => {
            let u = &store.users[i];
            Some(
                UserResponse {
                    username: u.username.clone(),
                    first_name: u.first_name.clone(),
                    last_name: u.last_name.clone(),
                },
            )
        },
    }
}

/// Lists claims, newest last, optionally narrowed to one status.  An absent
/// filter — or the `Unknown` status, which no claim carries — returns every
/// claim.
pub fn list_claims(store: &Store, status_filter: Option<ClaimStatus>) -> (r: Vec<ClaimResult>)
    ensures
        ({
            let kept = kept_claims(store.claims@, status_filter);
            &&& r@.len() == kept.len()
            &&& forall|i: int|
                0 <= i < r@.len() ==> (#[trigger] r@[i]).uuid == kept[i].id && eq_claim(
                    r@[i].claim,
                    kept[i],
                )
        }),
{
    let mut r: Vec<ClaimResult> = Vec::new();
    let mut i: usize = 0;
    while i < store.claims.len()
        invariant
            i <= store.claims@.len(),
            ({
                let kept = kept_claims(store.claims@.subrange(0, i as int), status_filter);
                &&& r@.len() == kept.len()
                &&& forall|j: int|
                    0 <= j < r@.len() ==> (#[trigger] r@[j]).uuid == kept[j].id && eq_claim(
                        r@[j].claim,
                        kept[j],
                    )
            }),
        decreases store.claims@.len() - i,
    {
        let ghost prefix = store.claims@.subrange(0, i as int);
        let k = &store.claims[i];
        let keep: bool = match status_filter {
            None => true,
            Some(f) => f == ClaimStatus::Unknown || k.status == f,
        };
        if keep {
            let c = k.duplicate();
            r.push(ClaimResult { uuid: c.id, claim: c });
        }
        proof {
            let x = store.claims@[i as int];
            let ext = store.claims@.subrange(0, i + 1);
            assert(ext =~= prefix.push(x));
            assert(ext.drop_last() =~= prefix);
            assert(ext.last() == x);
            assert(keep == claim_passes_filter(x, status_filter));
            if keep {
                assert(kept_claims(ext, status_filter) == kept_claims(prefix, status_filter).push(
                    x,
                ));
            } else {
                assert(kept_claims(ext, status_filter) == kept_claims(prefix, status_filter));
            }
        }
        i = i + 1;
    }
    proof {
        assert(store.claims@.subrange(0, store.claims@.len() as int) =~= store.claims@);
    }
    r
}

/// The claims filed against one contract, in store order.
pub open spec fn claims_of(ks: Seq<Claim>, contract_uuid: u128) -> Seq<Claim>
    decreases ks.len(),
{
    if ks.len() == 0 {
        Seq::empty()
    } else {
        let rest = claims_of(ks.drop_last(), contract_uuid);
        if ks.last().contract_uuid == contract_uuid {
            rest.push(ks.last())
        } else {
            rest
        }
    }
}

/// The contracts issued to one user, in store order.
pub open spec fn kept_contracts(cs: Seq<Contract>, name: Seq<char>) -> Seq<Contract>
    decreases cs.len(),
{
    if cs.len() == 0 {
        Seq::empty()
    } else {
        let rest = kept_contracts(cs.drop_last(), name);
        if cs.last().username@ == name {
            rest.push(cs.last())
        } else {
            rest
        }
    }
}

/// An attached claim listing holds copies of exactly these claims, in order.
pub open spec fn claims_payload_ok(o: Option<Vec<Claim>>, expected: Seq<Claim>) -> bool {
    match o {
        None => false,
        Some(v) => v@.len() == expected.len() && forall|i: int|
            #![trigger v@[i]]
            0 <= i < v@.len() ==> eq_claim(v@[i], expected[i]),
    }
}

/// Copies of every claim filed against the contract, in store order.
fn collect_claims_of(ks: &Vec<Claim>, contract_uuid: u128) -> (v: Vec<Claim>)
    ensures
        v@.len() == claims_of(ks@, contract_uuid).len(),
        forall|i: int|
            #![trigger v@[i]]
            0 <= i < v@.len() ==> eq_claim(v@[i], claims_of(ks@, contract_uuid)[i]),
{
    let mut v: Vec<Claim> = Vec::new();
    let mut i: usize = 0;
    while i < ks.len()
        invariant
            i <= ks@.len(),
            ({
                let kept = claims_of(ks@.subrange(0, i as int), contract_uuid);
                &&& v@.len() == kept.len()
                &&& forall|j: int|
                    #![trigger v@[j]]
                    0 <= j < v@.len() ==> eq_claim(v@[j], kept[j])
            }),
        decreases ks@.len() - i,
    {
        let ghost prefix = ks@.subrange(0, i as int);
        let k = &ks[i];
        if k.contract_uuid == contract_uuid {
            v.push(k.duplicate());
        }
        proof {
            let x = ks@[i as int];
            let ext = ks@.subrange(0, i + 1);
            assert(ext =~= prefix.push(x));
            assert(ext.drop_last() =~= prefix);
            assert(ext.last() == x);
            if x.contract_uuid == contract_uuid {
                assert(claims_of(ext, contract_uuid) == claims_of(prefix, contract_uuid).push(x));
            } else {
                assert(claims_of(ext, contract_uuid) == claims_of(prefix, contract_uuid));
            }
        }
        i = i + 1;
    }
    proof {
        assert(ks@.subrange(0, ks@.len() as int) =~= ks@);
    }
    v
}

/// Lists contracts.  Unfiltered, every contract is returned, each with an
/// empty claim listing.  Filtered by username, the user's contracts are
/// returned, each joined with the claims filed against it.
pub fn list_contracts(store: &Store, filter_username: Option<&String>) -> (r: Vec<ContractResult>)
    ensures
        match filter_username {
            None => {
                &&& r@.len() == store.contracts@.len()
                &&& forall|i: int|
                    #![trigger r@[i]]
                    0 <= i < r@.len() ==> r@[i].uuid == store.contracts@[i].id && eq_contract(
                        r@[i].contract,
                        store.contracts@[i],
                    ) && claims_payload_ok(r@[i].claims, Seq::<Claim>::empty())
            },
            Some(name) => {
                let kept = kept_contracts(store.contracts@, name@);
                &&& r@.len() == kept.len()
                &&& forall|i: int|
                    #![trigger r@[i]]
                    0 <= i < r@.len() ==> r@[i].uuid == kept[i].id && eq_contract(
                        r@[i].contract,
                        kept[i],
                    ) && claims_payload_ok(r@[i].claims, claims_of(store.claims@, kept[i].id))
            },
        },
{
    let mut r: Vec<ContractResult> = Vec::new();
    match filter_username {
        None => {
            let mut i: usize = 0;
            while i < store.contracts.len()
                invariant
                    i <= store.contracts@.len(),
                    r@.len() == i,
                    forall|j: int|
                        #![trigger r@[j]]
                        0 <= j < i ==> r@[j].uuid == store.contracts@[j].id && eq_contract(
                            r@[j].contract,
                            store.contracts@[j],
                        ) && claims_payload_ok(r@[j].claims, Seq::<Claim>::empty()),
                decreases store.contracts@.len() - i,
            {
                let c = store.contracts[i].duplicate();
                r.push(ContractResult { uuid: c.id, contract: c, claims: Some(Vec::new()) });
                i = i + 1;
            }
            r
        },
        Some(name) => {
            let mut i: usize = 0;
            while i < store.contracts.len()
                invariant
                    i <= store.contracts@.len(),
                    ({
                        let kept = kept_contracts(store.contracts@.subrange(0, i as int), name@);
                        &&& r@.len() == kept.len()
                        &&& forall|j: int|
                            #![trigger r@[j]]
                            0 <= j < r@.len() ==> r@[j].uuid == kept[j].id && eq_contract(
                                r@[j].contract,
                                kept[j],
                            ) && claims_payload_ok(r@[j].claims, claims_of(store.claims@, kept[j].id))
                    }),
                decreases store.contracts@.len() - i,
            {
                let ghost prefix = store.contracts@.subrange(0, i as int);
                let c = &store.contracts[i];
                if c.username.eq(name) {
                    let claims = collect_claims_of(&store.claims, c.id);
                    let copy = c.duplicate();
                    r.push(ContractResult { uuid: copy.id, contract: copy, claims: Some(claims) });
                }
                proof {
                    let x = store.contracts@[i as int];
                    let ext = store.contracts@.subrange(0, i + 1);
                    assert(ext =~= prefix.push(x));
                    assert(ext.drop_last() =~= prefix);
                    assert(ext.last() == x);
                    if x.username@ == name@ {
                        assert(kept_contracts(ext, name@) == kept_contracts(prefix, name@).push(x));
                    } else {
                        assert(kept_contracts(ext, name@) == kept_contracts(prefix, name@));
                    }
                }
                i = i + 1;
            }
            proof {
                assert(store.contracts@.subrange(0, store.contracts@.len() as int)
                    =~= store.contracts@);
            }
            r
        },
    }
}

/// Whether a claim passes the status filter: no filter, the `Unknown`
/// wildcard, or the claim's own status.
pub open spec fn claim_passes_filter(k: Claim, filter: Option<ClaimStatus>) -> bool {
    match filter {
        None => true,
        Some(f) => f == ClaimStatus::Unknown || k.status == f,
    }
}

/// The claims that pass the status filter, in store order.
pub open spec fn kept_claims(ks: Seq<Claim>, filter: Option<ClaimStatus>) -> Seq<Claim>
    decreases ks.len(),
{
    if ks.len() == 0 {
        Seq::empty()
    } else {
        let rest = kept_claims(ks.drop_last(), filter);
        if claim_passes_filter(ks.last(), filter) {
            rest.push(ks.last())
        } else {
            rest
        }
    }
}

} // verus!
