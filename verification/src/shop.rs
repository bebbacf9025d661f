//! The issuing shop's operation: provisioning a contract, and with it, when
//! the username is new, the user account itself.

use vstd::prelude::*;

use crate::ServiceError;
use crate::credentials;
use crate::data::{Contract, ContractType, Item, User, eq_item};
use crate::insurance::AuthUserDto;
use crate::store::{
    Store, claim_index_ok, contract_exists, contract_index_ok, contract_type_exists,
    find_contract, find_contract_type, find_user, lemma_claim_index_ok_transfer,
    lemma_contract_index_ok_transfer, owned_contract_exists, repair_order_claims_settled,
    unique_contract_ids, unique_usernames, user_exists, voids_preserved,
};

verus! {

/// Request to create a contract: the covered item, the coverage window, the
/// contract type, and the owner's credentials and profile.
#[derive(Debug, Clone, PartialEq)]
pub struct CreateContractDto {
    pub uuid: u128,
    pub contract_type_uuid: u128,
    pub username: String,
    pub password: String,
    pub first_name: String,
    pub last_name: String,
    pub item: Item,
    pub start_date: i64,
    pub end_date: i64,
}

/// The coverage window is in order and its length in days lies within the
/// contract type's bounds.
pub open spec fn duration_ok(start: i64, end: i64, ct: ContractType) -> bool {
    &&& end >= start
    &&& ct.min_duration_days <= end - start
    &&& end - start <= ct.max_duration_days
}

/// The requester's credentials are acceptable: either the username is free,
/// or the password verifies against the stored digest.
pub open spec fn auth_ok(us: Seq<User>, dto: CreateContractDto) -> bool {
    forall|i: int|
        0 <= i < us.len() && (#[trigger] us[i]).username@ == dto.username@
            ==> credentials::accepts(dto.password@, us[i].password@)
}

/// The contract a creation request yields: not void, no claims yet.
pub open spec fn is_created_contract(c: Contract, dto: CreateContractDto) -> bool {
    &&& c.id == dto.uuid
    &&& c.username@ == dto.username@
    &&& eq_item(c.item, dto.item)
    &&& c.start_date == dto.start_date
    &&& c.end_date == dto.end_date
    &&& !c.void
    &&& c.contract_type_uuid == dto.contract_type_uuid
    &&& c.claim_index@ == Seq::<u128>::empty()
}

/// Creates a contract, and the owning user when the username is new.
///
/// The checks run in this order: the credentials (`Unauthorized` on a
/// mismatch with an existing user), the contract type (`NotFound` when
/// unknown), the coverage window against the type's duration bounds
/// (`InvalidInput`), and the contract identifier (`Conflict` when taken).
/// For a new user the password is hashed and only the digest stored; the
/// response hands the plaintext back exactly once, so the caller can deliver
/// the credentials, and `None` says the user already existed.  The contract
/// insert and the index append on the owner are one unit.  When no digest
/// could be produced the request fails as `InvalidInput` with the store
/// untouched; with an existing user nothing outside the store decides, and
/// a valid request is guaranteed to succeed.
pub fn create_contract(store: &mut Store, dto: CreateContractDto) -> (r: Result<
    Option<AuthUserDto>,
    ServiceError,
>)
    requires
        old(store).wf(),
    ensures
        final(store).wf(),
        final(store).contract_types == old(store).contract_types,
        final(store).claims == old(store).claims,
        final(store).repair_orders == old(store).repair_orders,
        voids_preserved(old(store).contracts@, final(store).contracts@),
        match r {
            Ok(res) => {
                &&& auth_ok(old(store).users@, dto)
                &&& contract_type_exists(old(store).contract_types@, dto.contract_type_uuid)
                &&& forall|i: int|
                    0 <= i < old(store).contract_types@.len() && (#[trigger] old(
                        store,
                    ).contract_types@[i]).id == dto.contract_type_uuid ==> duration_ok(
                        dto.start_date,
                        dto.end_date,
                        old(store).contract_types@[i],
                    )
                &&& !contract_exists(old(store).contracts@, dto.uuid)
                &&& final(store).contracts@.len() == old(store).contracts@.len() + 1
                &&& forall|i: int|
                    0 <= i < old(store).contracts@.len() ==> final(store).contracts@[i] == old(
                        store,
                    ).contracts@[i]
                &&& is_created_contract(
                    final(store).contracts@[old(store).contracts@.len() as int],
                    dto,
                )
                &&& match res {
                    None => {
                        &&& user_exists(old(store).users@, dto.username@)
                        &&& final(store).users@.len() == old(store).users@.len()
                        &&& forall|i: int|
                            0 <= i < old(store).users@.len() && (#[trigger] old(
                                store,
                            ).users@[i]).username@ != dto.username@ ==> final(store).users@[i]
                                == old(store).users@[i]
                        &&& forall|i: int|
                            0 <= i < old(store).users@.len() && (#[trigger] old(
                                store,
                            ).users@[i]).username@ == dto.username@ ==> final(store).users@[i] == (
                            User {
                                contract_index: final(store).users@[i].contract_index,
                                ..old(store).users@[i]
                            }) && final(store).users@[i].contract_index@ == old(
                                store,
                            ).users@[i].contract_index@.push(dto.uuid)
                    },
                    Some(creds) => {
                        &&& !user_exists(old(store).users@, dto.username@)
                        &&& creds.username@ == dto.username@
                        &&& creds.password@ == dto.password@
                        &&& final(store).users@.len() == old(store).users@.len() + 1
                        &&& forall|i: int|
                            0 <= i < old(store).users@.len() ==> final(store).users@[i] == old(
                                store,
                            ).users@[i]
                        &&& ({
                            let u = final(store).users@[old(store).users@.len() as int];
                            &&& u.username@ == dto.username@
                            &&& u.first_name@ == dto.first_name@
                            &&& u.last_name@ == dto.last_name@
                            &&& u.contract_index@ == seq![dto.uuid]
                            &&& credentials::accepts(dto.password@, u.password@)
                        })
                    },
                }
            },
            Err(e) => {
                &&& final(store).users == old(store).users
                &&& final(store).contracts == old(store).contracts
                &&& (e == ServiceError::Unauthorized || e == ServiceError::NotFound || e
                    == ServiceError::InvalidInput || e == ServiceError::Conflict)
                &&& ((e == ServiceError::Unauthorized) <==> !auth_ok(old(store).users@, dto))
                &&& ((e == ServiceError::NotFound) <==> auth_ok(old(store).users@, dto)
                    && !contract_type_exists(old(store).contract_types@, dto.contract_type_uuid))
                &&& ((e == ServiceError::Conflict) <==> auth_ok(old(store).users@, dto)
                    && contract_type_exists(old(store).contract_types@, dto.contract_type_uuid)
                    && (forall|i: int|
                    0 <= i < old(store).contract_types@.len() && (#[trigger] old(
                        store,
                    ).contract_types@[i]).id == dto.contract_type_uuid ==> duration_ok(
                        dto.start_date,
                        dto.end_date,
                        old(store).contract_types@[i],
                    )) && contract_exists(old(store).contracts@, dto.uuid))
                &&& (e == ServiceError::InvalidInput ==> auth_ok(old(store).users@, dto)
                    && contract_type_exists(old(store).contract_types@, dto.contract_type_uuid)
                    && ((exists|i: int|
                    0 <= i < old(store).contract_types@.len() && (#[trigger] old(
                        store,
                    ).contract_types@[i]).id == dto.contract_type_uuid && !duration_ok(
                        dto.start_date,
                        dto.end_date,
                        old(store).contract_types@[i],
                    )) || !contract_exists(old(store).contracts@, dto.uuid)))
                &&& (user_exists(old(store).users@, dto.username@) ==> e
                    != ServiceError::InvalidInput || exists|i: int|
                    0 <= i < old(store).contract_types@.len() && (#[trigger] old(
                        store,
                    ).contract_types@[i]).id == dto.contract_type_uuid && !duration_ok(
                        dto.start_date,
                        dto.end_date,
                        old(store).contract_types@[i],
                    ))
            },
        },
{
    let existing: Option<usize> = find_user(&store.users, &dto.username);
    proof {
        if let Some(i) = existing {
            assert forall|j: int|
                0 <= j < store.users@.len() && (#[trigger] store.users@[j]).username@
                    == dto.username@ implies j == i as int by {
                if j != i as int {
                    assert(store.users@[j].username@ == store.users@[i as int].username@);
                }
            }
        }
    }
    if let Some(upos) = existing {
        if !credentials::verify_password(&dto.password, &store.users[upos].password) {
            return Err(ServiceError::Unauthorized);
        }
    }
    let tpos: usize = match find_contract_type(&store.contract_types, dto.contract_type_uuid) {
        None => {
            return Err(ServiceError::NotFound);
        },
        Some(i) => i,
    };
    proof {
        assert forall|j: int|
            0 <= j < store.contract_types@.len() && (#[trigger] store.contract_types@[j]).id
                == dto.contract_type_uuid implies j == tpos as int by {
            if j != tpos as int {
                assert(store.contract_types@[j].id == store.contract_types@[tpos as int].id);
            }
        }
    }
    let ct = &store.contract_types[tpos];
    let span_ok: bool = dto.end_date >= dto.start_date && (dto.end_date as i128 - dto.start_date
        as i128) >= ct.min_duration_days as i128 && (dto.end_date as i128 - dto.start_date as i128)
        <= ct.max_duration_days as i128;
    if !span_ok {
        return Err(ServiceError::InvalidInput);
    }
    if find_contract(&store.contracts, dto.uuid).is_some() {
        return Err(ServiceError::Conflict);
    }
    let mut created: Option<AuthUserDto> = None;
    let upos: usize = match existing {
        Some(i) => i,
        None => {
            let digest: String = match credentials::hash_password(&dto.password) {
                None => {
                    return Err(ServiceError::InvalidInput);
                },
                Some(d) => d,
            };
            let user = User {
                username: dto.username.clone(),
                password: digest,
                first_name: dto.first_name.clone(),
                last_name: dto.last_name.clone(),
                contract_index: Vec::new(),
            };
            let at: usize = store.users.len();
            store.users.push(user);
            created = Some(AuthUserDto { username: dto.username.clone(), password: dto.password.clone() });
            at
        },
    };
    let contract = Contract {
        id: dto.uuid,
        username: dto.username.clone(),
        item: dto.item,
        start_date: dto.start_date,
        end_date: dto.end_date,
        void: false,
        contract_type_uuid: dto.contract_type_uuid,
        claim_index: Vec::new(),
    };
    store.contracts.push(contract);
    store.users[upos].contract_index.push(dto.uuid);
    proof {
        lemma_create_contract_preserves_wf(*old(store), *store, dto, upos as int);
    }
    Ok(created)
}

/// Creating a contract — appending the record, appending its id to the
/// owner's index, and possibly appending the owner — keeps the store well
/// formed.
proof fn lemma_create_contract_preserves_wf(pre: Store, post: Store, dto: CreateContractDto, ui: int)
    requires
        pre.wf(),
        !contract_exists(pre.contracts@, dto.uuid),
        post.contracts@.len() == pre.contracts@.len() + 1,
        forall|i: int| 0 <= i < pre.contracts@.len() ==> post.contracts@[i] == pre.contracts@[i],
        is_created_contract(post.contracts@[pre.contracts@.len() as int], dto),
        // the owner stands at `ui`: either an old user, kept whole but for
        // the appended index entry, or a fresh user appended with that one
        // entry
        0 <= ui < post.users@.len(),
        ui <= pre.users@.len(),
        post.users@[ui].username@ == dto.username@,
        forall|i: int|
            0 <= i < post.users@.len() && i != ui ==> 0 <= i < pre.users@.len()
                && #[trigger] post.users@[i] == pre.users@[i],
        ui < pre.users@.len() ==> post.users@.len() == pre.users@.len() && post.users@[ui] == (User {
            contract_index: post.users@[ui].contract_index,
            ..pre.users@[ui]
        }) && post.users@[ui].contract_index@ == pre.users@[ui].contract_index@.push(dto.uuid),
        ui == pre.users@.len() ==> post.users@.len() == pre.users@.len() + 1 && !user_exists(
            pre.users@,
            dto.username@,
        ) && post.users@[ui].contract_index@ == seq![dto.uuid],
        post.claims == pre.claims,
        post.contract_types == pre.contract_types,
        post.repair_orders == pre.repair_orders,
    ensures
        post.wf(),
{
    let oc = pre.contracts@;
    let nc = post.contracts@;
    let cl = oc.len() as int;
    let newc = nc[cl];

    assert(unique_contract_ids(nc)) by {
        assert forall|i: int, j: int| 0 <= i < j < nc.len() implies nc[i].id != nc[j].id by {
            if j == cl {
                assert(nc[i] == oc[i]);
                if oc[i].id == dto.uuid {
                    assert(contract_exists(oc, dto.uuid));
                }
            }
        }
    }
    assert(unique_usernames(post.users@)) by {
        assert forall|i: int, j: int|
            0 <= i < j < post.users@.len() implies post.users@[i].username@
            != post.users@[j].username@ by {
            if ui == pre.users@.len() {
                if j == ui {
                    assert(post.users@[i] == pre.users@[i]);
                    if post.users@[i].username@ == dto.username@ {
                        assert(user_exists(pre.users@, pre.users@[i].username@));
                    }
                } else {
                    assert(post.users@[i] == pre.users@[i]);
                    assert(post.users@[j] == pre.users@[j]);
                }
            } else {
                assert(post.users@[i].username@ == pre.users@[i].username@);
                assert(post.users@[j].username@ == pre.users@[j].username@);
            }
        }
    }

    // Claim indices: old contracts carry old indices over unchanged claims;
    // the new contract has no claims and an empty index.
    assert forall|i: int| 0 <= i < nc.len() implies claim_index_ok(#[trigger] nc[i], post.claims@)
        by {
        if i < cl {
            assert(claim_index_ok(oc[i], pre.claims@));
            lemma_claim_index_ok_transfer(oc[i], nc[i], pre.claims@, post.claims@);
        } else {
            assert forall|p: int|
                0 <= p < post.claims@.len() && (#[trigger] post.claims@[p]).contract_uuid
                    == newc.id implies newc.claim_index@.contains(post.claims@[p].id) by {
                assert(contract_exists(oc, pre.claims@[p].contract_uuid));
                assert(false);
            }
        }
    }

    // User contract indices.
    assert forall|i: int| 0 <= i < post.users@.len() implies contract_index_ok(
        #[trigger] post.users@[i],
        nc,
    ) by {
        let u_new = post.users@[i];
        if i != ui {
            let u_old = pre.users@[i];
            assert(contract_index_ok(u_old, oc));
            assert(u_new == u_old);
            assert(u_new.username@ != dto.username@) by {
                if ui < pre.users@.len() {
                    if u_new.username@ == dto.username@ {
                        assert(pre.users@[i].username@ == pre.users@[ui].username@);
                    }
                } else {
                    if u_new.username@ == dto.username@ {
                        assert(user_exists(pre.users@, dto.username@));
                    }
                }
            }
            assert forall|j: int| 0 <= j < u_new.contract_index@.len() implies
                owned_contract_exists(nc, #[trigger] u_new.contract_index@[j], u_new.username@) by {
                assert(owned_contract_exists(oc, u_old.contract_index@[j], u_old.username@));
                let w = choose|q: int|
                    0 <= q < oc.len() && oc[q].id == u_old.contract_index@[j] && oc[q].username@
                        == u_old.username@;
                assert(nc[w].id == u_new.contract_index@[j] && nc[w].username@ == u_new.username@);
            }
            assert forall|p: int|
                0 <= p < nc.len() && (#[trigger] nc[p]).username@ == u_new.username@ implies
                u_new.contract_index@.contains(nc[p].id) by {
                assert(p != cl);
                assert(oc[p].username@ == u_old.username@);
                assert(u_old.contract_index@.contains(oc[p].id));
            }
        } else {
            let oidx_len: int = u_new.contract_index@.len() as int - 1;
            assert forall|j: int| 0 <= j < u_new.contract_index@.len() implies
                owned_contract_exists(nc, #[trigger] u_new.contract_index@[j], u_new.username@) by {
                if j == oidx_len {
                    assert(u_new.contract_index@[j] == dto.uuid);
                    assert(nc[cl].id == dto.uuid && nc[cl].username@ == u_new.username@);
                } else {
                    assert(ui < pre.users@.len());
                    let u_old = pre.users@[ui];
                    assert(contract_index_ok(u_old, oc));
                    assert(u_new.contract_index@[j] == u_old.contract_index@[j]);
                    assert(u_old.username@ == post.users@[ui].username@);
                    assert(owned_contract_exists(oc, u_old.contract_index@[j], u_old.username@));
                    let w = choose|q: int|
                        0 <= q < oc.len() && oc[q].id == u_old.contract_index@[j] && oc[q].username@
                            == u_old.username@;
                    assert(nc[w].id == u_new.contract_index@[j] && nc[w].username@
                        == u_new.username@);
                }
            }
            assert forall|p: int|
                0 <= p < nc.len() && (#[trigger] nc[p]).username@ == u_new.username@ implies
                u_new.contract_index@.contains(nc[p].id) by {
                if p == cl {
                    assert(u_new.contract_index@[oidx_len] == dto.uuid);
                } else {
                    assert(ui < pre.users@.len()) by {
                        if ui == pre.users@.len() {
                            assert(oc[p].username@ == dto.username@);
                            assert(user_exists(pre.users@, oc[p].username@));
                        }
                    }
                    let u_old = pre.users@[ui];
                    assert(oc[p].username@ == u_old.username@);
                    assert(u_old.contract_index@.contains(oc[p].id));
                    let w = choose|q: int|
                        0 <= q < u_old.contract_index@.len() && u_old.contract_index@[q]
                            == oc[p].id;
                    assert(u_new.contract_index@[w] == oc[p].id);
                }
            }
            assert forall|j1: int, j2: int|
                0 <= j1 < j2 < u_new.contract_index@.len() implies u_new.contract_index@[j1]
                != u_new.contract_index@[j2] by {
                if j2 == oidx_len {
                    assert(ui < pre.users@.len());
                    let u_old = pre.users@[ui];
                    assert(contract_index_ok(u_old, oc));
                    assert(owned_contract_exists(oc, u_old.contract_index@[j1], u_old.username@));
                    let w = choose|q: int|
                        0 <= q < oc.len() && oc[q].id == u_old.contract_index@[j1] && oc[q].username@
                            == u_old.username@;
                    if u_new.contract_index@[j1] == dto.uuid {
                        assert(contract_exists(oc, dto.uuid));
                    }
                } else {
                    assert(ui < pre.users@.len());
                    let u_old = pre.users@[ui];
                    assert(u_old.contract_index@[j1] != u_old.contract_index@[j2]);
                }
            }
        }
    }

    // Referential integrity.
    assert forall|i: int| 0 <= i < post.claims@.len() implies contract_exists(
        nc,
        (#[trigger] post.claims@[i]).contract_uuid,
    ) by {
        assert(contract_exists(oc, pre.claims@[i].contract_uuid));
        let w = choose|q: int| 0 <= q < oc.len() && oc[q].id == pre.claims@[i].contract_uuid;
        assert(nc[w].id == pre.claims@[i].contract_uuid);
    }
    assert forall|i: int| 0 <= i < nc.len() implies user_exists(
        post.users@,
        (#[trigger] nc[i]).username@,
    ) by {
        if i == cl {
            assert(post.users@[ui].username@ == nc[i].username@);
        } else {
            assert(user_exists(pre.users@, oc[i].username@));
            let w = choose|q: int| 0 <= q < pre.users@.len() && pre.users@[q].username@
                == oc[i].username@;
            assert(post.users@[w].username@ == oc[i].username@);
        }
    }
}

} // verus!
