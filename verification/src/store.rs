//! The entity store the engine runs against: arenas of records addressed by
//! identifier, together with the consistency obligations between an entity
//! and the denormalized indices that reference it.
//!
//! Every operation takes the store whole and performs its reads and writes as
//! one unit, so the pair of writes behind claim filing and contract creation
//! (the child insert and the parent index append) can never be observed half
//! done.

use vstd::prelude::*;
use vstd::string::StrSliceExecFns;

use crate::ServiceError;
use crate::data::{
    Claim, ClaimStatus, Contract, ContractType, RepairOrder, User, eq_claim, eq_contract, eq_user,
};

verus! {

/// The shared state all roles operate on.
pub struct Store {
    pub contract_types: Vec<ContractType>,
    pub users: Vec<User>,
    pub contracts: Vec<Contract>,
    pub claims: Vec<Claim>,
    pub repair_orders: Vec<RepairOrder>,
}

// Uniqueness of the natural keys.

pub open spec fn unique_contract_type_ids(ts: Seq<ContractType>) -> bool {
    forall|i: int, j: int| 0 <= i < j < ts.len() ==> ts[i].id != ts[j].id
}

pub open spec fn unique_usernames(us: Seq<User>) -> bool {
    forall|i: int, j: int| 0 <= i < j < us.len() ==> us[i].username@ != us[j].username@
}

pub open spec fn unique_contract_ids(cs: Seq<Contract>) -> bool {
    forall|i: int, j: int| 0 <= i < j < cs.len() ==> cs[i].id != cs[j].id
}

pub open spec fn unique_claim_ids(ks: Seq<Claim>) -> bool {
    forall|i: int, j: int| 0 <= i < j < ks.len() ==> ks[i].id != ks[j].id
}

pub open spec fn unique_repair_order_claims(ros: Seq<RepairOrder>) -> bool {
    forall|i: int, j: int| 0 <= i < j < ros.len() ==> ros[i].claim_uuid != ros[j].claim_uuid
}

// Existence of a record under a key.

pub open spec fn contract_type_exists(ts: Seq<ContractType>, id: u128) -> bool {
    exists|i: int| 0 <= i < ts.len() && ts[i].id == id
}

pub open spec fn user_exists(us: Seq<User>, name: Seq<char>) -> bool {
    exists|i: int| 0 <= i < us.len() && us[i].username@ == name
}

pub open spec fn contract_exists(cs: Seq<Contract>, id: u128) -> bool {
    exists|i: int| 0 <= i < cs.len() && cs[i].id == id
}

pub open spec fn claim_id_exists(ks: Seq<Claim>, id: u128) -> bool {
    exists|i: int| 0 <= i < ks.len() && ks[i].id == id
}

pub open spec fn claim_exists(ks: Seq<Claim>, id: u128, contract_uuid: u128) -> bool {
    exists|i: int| 0 <= i < ks.len() && ks[i].id == id && ks[i].contract_uuid == contract_uuid
}

pub open spec fn repair_order_exists(ros: Seq<RepairOrder>, claim_uuid: u128) -> bool {
    exists|i: int| 0 <= i < ros.len() && ros[i].claim_uuid == claim_uuid
}

/// Some contract has this id and this owner.
pub open spec fn owned_contract_exists(cs: Seq<Contract>, id: u128, owner: Seq<char>) -> bool {
    exists|i: int| 0 <= i < cs.len() && cs[i].id == id && cs[i].username@ == owner
}

/// A contract's claim index holds exactly the identifiers of the claims
/// filed against it, each once.
pub open spec fn claim_index_ok(c: Contract, ks: Seq<Claim>) -> bool {
    &&& forall|j: int|
        0 <= j < c.claim_index@.len() ==> claim_exists(ks, #[trigger] c.claim_index@[j], c.id)
    &&& forall|i: int|
        0 <= i < ks.len() && (#[trigger] ks[i]).contract_uuid == c.id ==> c.claim_index@.contains(
            ks[i].id,
        )
    &&& forall|j1: int, j2: int|
        0 <= j1 < j2 < c.claim_index@.len() ==> c.claim_index@[j1] != c.claim_index@[j2]
}

/// A repair order only ever refers to a non-theft claim that has already
/// left `New`: orders are cut exactly when a claim enters `Repair`, and no
/// claim returns to `New`.
pub open spec fn repair_order_claims_settled(ros: Seq<RepairOrder>, ks: Seq<Claim>) -> bool {
    forall|i: int, p: int|
        0 <= i < ros.len() && 0 <= p < ks.len() && (#[trigger] ros[i]).claim_uuid == (
        #[trigger] ks[p]).id ==> !ks[p].is_theft && ks[p].status != ClaimStatus::New
}

/// A user's contract index holds exactly the identifiers of the contracts
/// issued to them, each once.
pub open spec fn contract_index_ok(u: User, cs: Seq<Contract>) -> bool {
    &&& forall|j: int|
        0 <= j < u.contract_index@.len() ==> owned_contract_exists(
            cs,
            #[trigger] u.contract_index@[j],
            u.username@,
        )
    &&& forall|i: int|
        0 <= i < cs.len() && (#[trigger] cs[i]).username@ == u.username@
            ==> u.contract_index@.contains(cs[i].id)
    &&& forall|j1: int, j2: int|
        0 <= j1 < j2 < u.contract_index@.len() ==> u.contract_index@[j1] != u.contract_index@[j2]
}

impl Store {
    /// Well-formedness: unique keys, indices consistent with the records
    /// that back them, and no dangling cross-reference.
    pub open spec fn wf(self) -> bool {
        &&& unique_contract_type_ids(self.contract_types@)
        &&& unique_usernames(self.users@)
        &&& unique_contract_ids(self.contracts@)
        &&& unique_claim_ids(self.claims@)
        &&& unique_repair_order_claims(self.repair_orders@)
        &&& forall|i: int|
            0 <= i < self.contracts.len() ==> claim_index_ok(
                #[trigger] self.contracts@[i],
                self.claims@,
            )
        &&& forall|i: int|
            0 <= i < self.users.len() ==> contract_index_ok(
                #[trigger] self.users@[i],
                self.contracts@,
            )
        &&& forall|i: int|
            0 <= i < self.claims.len() ==> contract_exists(
                self.contracts@,
                (#[trigger] self.claims@[i]).contract_uuid,
            )
        &&& forall|i: int|
            0 <= i < self.contracts.len() ==> user_exists(
                self.users@,
                (#[trigger] self.contracts@[i]).username@,
            )
        &&& forall|i: int|
            0 <= i < self.repair_orders.len() ==> claim_exists(
                self.claims@,
                (#[trigger] self.repair_orders@[i]).claim_uuid,
                self.repair_orders@[i].contract_id,
            )
        &&& repair_order_claims_settled(self.repair_orders@, self.claims@)
    }

    /// An empty store, trivially well formed.
    pub fn new() -> (r: Store)
        ensures
            r.wf(),
            r.contract_types@.len() == 0,
            r.users@.len() == 0,
            r.contracts@.len() == 0,
            r.claims@.len() == 0,
            r.repair_orders@.len() == 0,
    {
        Store {
            contract_types: Vec::new(),
            users: Vec::new(),
            contracts: Vec::new(),
            claims: Vec::new(),
            repair_orders: Vec::new(),
        }
    }
}

/// In a well-formed store, a contract's claim index equals the set of
/// identifiers of the claims filed against it — every operation of the
/// engine keeps the store well formed, so this holds after any sequence of
/// filings and decisions.
pub proof fn lemma_claim_index_exact(s: Store, i: int)
    requires
        s.wf(),
        0 <= i < s.contracts@.len(),
    ensures
        claim_index_ok(s.contracts@[i], s.claims@),
{
}

/// In a well-formed store, a user's contract index equals the set of
/// identifiers of the contracts issued to them.
pub proof fn lemma_contract_index_exact(s: Store, i: int)
    requires
        s.wf(),
        0 <= i < s.users@.len(),
    ensures
        contract_index_ok(s.users@[i], s.contracts@),
{
}

/// Position of the contract type with the given id.
pub fn find_contract_type(ts: &Vec<ContractType>, id: u128) -> (r: Option<usize>)
    ensures
        match r {
            Some(i) => i < ts@.len() && ts@[i as int].id == id,
            None => !contract_type_exists(ts@, id),
        },
{
    let mut i: usize = 0;
    while i < ts.len()
        invariant
            i <= ts@.len(),
            forall|j: int| 0 <= j < i ==> ts@[j].id != id,
        decreases ts@.len() - i,
    {
        if ts[i].id == id {
            return Some(i);
        }
        i = i + 1;
    }
    None
}

/// Position of the user with the given username.
pub fn find_user(us: &Vec<User>, name: &String) -> (r: Option<usize>)
    ensures
        match r {
            Some(i) => i < us@.len() && us@[i as int].username@ == name@,
            None => !user_exists(us@, name@),
        },
{
    let mut i: usize = 0;
    while i < us.len()
        invariant
            i <= us@.len(),
            forall|j: int| 0 <= j < i ==> us@[j].username@ != name@,
        decreases us@.len() - i,
    {
        if us[i].username.eq(name) {
            return Some(i);
        }
        i = i + 1;
    }
    None
}

/// Position of the contract with the given id.
pub fn find_contract(cs: &Vec<Contract>, id: u128) -> (r: Option<usize>)
    ensures
        match r {
            Some(i) => i < cs@.len() && cs@[i as int].id == id,
            None => !contract_exists(cs@, id),
        },
{
    let mut i: usize = 0;
    while i < cs.len()
        invariant
            i <= cs@.len(),
            forall|j: int| 0 <= j < i ==> cs@[j].id != id,
        decreases cs@.len() - i,
    {
        if cs[i].id == id {
            return Some(i);
        }
        i = i + 1;
    }
    None
}

/// Position of the claim with the given id, regardless of contract.
pub fn find_claim_by_id(ks: &Vec<Claim>, id: u128) -> (r: Option<usize>)
    ensures
        match r {
            Some(i) => i < ks@.len() && ks@[i as int].id == id,
            None => !claim_id_exists(ks@, id),
        },
{
    let mut i: usize = 0;
    while i < ks.len()
        invariant
            i <= ks@.len(),
            forall|j: int| 0 <= j < i ==> ks@[j].id != id,
        decreases ks@.len() - i,
    {
        if ks[i].id == id {
            return Some(i);
        }
        i = i + 1;
    }
    None
}

/// Position of the claim matching both the claim and the contract id.
pub fn find_claim(ks: &Vec<Claim>, id: u128, contract_uuid: u128) -> (r: Option<usize>)
    ensures
        match r {
            Some(i) => i < ks@.len() && ks@[i as int].id == id && ks@[i as int].contract_uuid
                == contract_uuid,
            None => !claim_exists(ks@, id, contract_uuid),
        },
{
    let mut i: usize = 0;
    while i < ks.len()
        invariant
            i <= ks@.len(),
            forall|j: int| 0 <= j < i ==> !(ks@[j].id == id && ks@[j].contract_uuid == contract_uuid),
        decreases ks@.len() - i,
    {
        if ks[i].id == id && ks[i].contract_uuid == contract_uuid {
            return Some(i);
        }
        i = i + 1;
    }
    None
}

/// Position of the repair order for the given claim.
pub fn find_repair_order(ros: &Vec<RepairOrder>, claim_uuid: u128) -> (r: Option<usize>)
    ensures
        match r {
            Some(i) => i < ros@.len() && ros@[i as int].claim_uuid == claim_uuid,
            None => !repair_order_exists(ros@, claim_uuid),
        },
{
    let mut i: usize = 0;
    while i < ros.len()
        invariant
            i <= ros@.len(),
            forall|j: int| 0 <= j < i ==> ros@[j].claim_uuid != claim_uuid,
        decreases ros@.len() - i,
    {
        if ros[i].claim_uuid == claim_uuid {
            return Some(i);
        }
        i = i + 1;
    }
    None
}

/// Some record in the arena carries exactly these contents.
pub open spec fn contract_copy_in(c: Contract, cs: Seq<Contract>) -> bool {
    exists|q: int| 0 <= q < cs.len() && eq_contract(c, cs[q])
}

/// Some record in the arena carries exactly these contents.
pub open spec fn claim_copy_in(k: Claim, ks: Seq<Claim>) -> bool {
    exists|q: int| 0 <= q < ks.len() && eq_claim(k, ks[q])
}

impl User {
    /// The contracts this user's index refers to, in index order.  A
    /// well-formed store resolves every entry; an entry with no backing
    /// record is index corruption and is reported as `NotFound`, never
    /// skipped.
    pub fn contracts(&self, store: &Store) -> (r: Result<Vec<Contract>, ServiceError>)
        ensures
            match r {
                Ok(v) => {
                    &&& forall|j: int|
                        0 <= j < self.contract_index@.len() ==> contract_exists(
                            store.contracts@,
                            #[trigger] self.contract_index@[j],
                        )
                    &&& v@.len() == self.contract_index@.len()
                    &&& forall|j: int|
                        #![trigger v@[j]]
                        0 <= j < v@.len() ==> v@[j].id == self.contract_index@[j]
                            && contract_copy_in(v@[j], store.contracts@)
                },
                Err(e) => {
                    &&& e == ServiceError::NotFound
                    &&& exists|j: int|
                        0 <= j < self.contract_index@.len() && !contract_exists(
                            store.contracts@,
                            #[trigger] self.contract_index@[j],
                        )
                },
            },
    {
        let mut v: Vec<Contract> = Vec::new();
        let mut i: usize = 0;
        while i < self.contract_index.len()
            invariant
                i <= self.contract_index@.len(),
                v@.len() == i,
                forall|j: int|
                    0 <= j < i ==> contract_exists(
                        store.contracts@,
                        #[trigger] self.contract_index@[j],
                    ),
                forall|j: int|
                    #![trigger v@[j]]
                    0 <= j < i ==> v@[j].id == self.contract_index@[j] && contract_copy_in(
                        v@[j],
                        store.contracts@,
                    ),
            decreases self.contract_index@.len() - i,
        {
            match find_contract(&store.contracts, self.contract_index[i]) {
                None => {
                    return Err(ServiceError::NotFound);
                },
                Some(q) => {
                    v.push(store.contracts[q].duplicate());
                    proof {
                        assert(eq_contract(v@[i as int], store.contracts@[q as int]));
                    }
                },
            }
            i = i + 1;
        }
        Ok(v)
    }
}

impl Contract {
    /// The claims this contract's index refers to, in index order.  As with
    /// a user's contracts, a dangling entry is reported as `NotFound`.
    pub fn claims(&self, store: &Store) -> (r: Result<Vec<Claim>, ServiceError>)
        ensures
            match r {
                Ok(v) => {
                    &&& forall|j: int|
                        0 <= j < self.claim_index@.len() ==> claim_id_exists(
                            store.claims@,
                            #[trigger] self.claim_index@[j],
                        )
                    &&& v@.len() == self.claim_index@.len()
                    &&& forall|j: int|
                        #![trigger v@[j]]
                        0 <= j < v@.len() ==> v@[j].id == self.claim_index@[j] && claim_copy_in(
                            v@[j],
                            store.claims@,
                        )
                },
                Err(e) => {
                    &&& e == ServiceError::NotFound
                    &&& exists|j: int|
                        0 <= j < self.claim_index@.len() && !claim_id_exists(
                            store.claims@,
                            #[trigger] self.claim_index@[j],
                        )
                },
            },
    {
        let mut v: Vec<Claim> = Vec::new();
        let mut i: usize = 0;
        while i < self.claim_index.len()
            invariant
                i <= self.claim_index@.len(),
                v@.len() == i,
                forall|j: int|
                    0 <= j < i ==> claim_id_exists(store.claims@, #[trigger] self.claim_index@[j]),
                forall|j: int|
                    #![trigger v@[j]]
                    0 <= j < i ==> v@[j].id == self.claim_index@[j] && claim_copy_in(
                        v@[j],
                        store.claims@,
                    ),
            decreases self.claim_index@.len() - i,
        {
            match find_claim_by_id(&store.claims, self.claim_index[i]) {
                None => {
                    return Err(ServiceError::NotFound);
                },
                Some(q) => {
                    v.push(store.claims[q].duplicate());
                    proof {
                        assert(eq_claim(v@[i as int], store.claims@[q as int]));
                    }
                },
            }
            i = i + 1;
        }
        Ok(v)
    }

    /// The user this contract is issued to.  An empty owner name is invalid
    /// data and refused outright; an unknown owner is `NotFound`.
    pub fn user(&self, store: &Store) -> (r: Result<User, ServiceError>)
        ensures
            match r {
                Ok(u) => self.username@.len() > 0 && exists|q: int|
                    0 <= q < store.users@.len() && (#[trigger] store.users@[q]).username@
                        == self.username@ && eq_user(u, store.users@[q]),
                Err(e) => {
                    &&& (e == ServiceError::InvalidInput <==> self.username@.len() == 0)
                    &&& (e == ServiceError::NotFound <==> self.username@.len() > 0 && !user_exists(
                        store.users@,
                        self.username@,
                    ))
                    &&& (e == ServiceError::InvalidInput || e == ServiceError::NotFound)
                },
            },
    {
        if self.username.as_str().unicode_len() == 0 {
            return Err(ServiceError::InvalidInput);
        }
        match find_user(&store.users, &self.username) {
            None => Err(ServiceError::NotFound),
            Some(q) => Ok(store.users[q].duplicate()),
        }
    }
}

impl Claim {
    /// The contract this claim was filed against, if the reference is set
    /// and resolves.  The all-zero identifier stands for no reference.
    pub fn contract(&self, store: &Store) -> (r: Option<Contract>)
        ensures
            match r {
                Some(c) => self.contract_uuid != 0 && exists|q: int|
                    0 <= q < store.contracts@.len() && (#[trigger] store.contracts@[q]).id
                        == self.contract_uuid && eq_contract(c, store.contracts@[q]),
                None => self.contract_uuid == 0 || !contract_exists(
                    store.contracts@,
                    self.contract_uuid,
                ),
            },
    {
        if self.contract_uuid == 0 {
            return None;
        }
        match find_contract(&store.contracts, self.contract_uuid) {
            None => None,
            Some(q) => Some(store.contracts[q].duplicate()),
        }
    }
}

/// A user's contract index stays consistent under any change that keeps the
/// user's name and index, every contract's identifier and owner, and the
/// number of contracts.
pub proof fn lemma_contract_index_ok_transfer(
    u1: User,
    u2: User,
    cs1: Seq<Contract>,
    cs2: Seq<Contract>,
)
    requires
        contract_index_ok(u1, cs1),
        u2.username@ == u1.username@,
        u2.contract_index@ == u1.contract_index@,
        cs2.len() == cs1.len(),
        forall|i: int|
            0 <= i < cs1.len() ==> (#[trigger] cs2[i]).id == cs1[i].id && cs2[i].username@
                == cs1[i].username@,
    ensures
        contract_index_ok(u2, cs2),
{
    assert forall|j: int| 0 <= j < u2.contract_index@.len() implies owned_contract_exists(
        cs2,
        #[trigger] u2.contract_index@[j],
        u2.username@,
    ) by {
        assert(u2.contract_index@[j] == u1.contract_index@[j]);
        assert(owned_contract_exists(cs1, u1.contract_index@[j], u1.username@));
        let w = choose|q: int|
            0 <= q < cs1.len() && cs1[q].id == u1.contract_index@[j] && cs1[q].username@
                == u1.username@;
        assert(cs2[w].id == u2.contract_index@[j] && cs2[w].username@ == u2.username@);
    }
    assert forall|p: int|
        0 <= p < cs2.len() && (#[trigger] cs2[p]).username@ == u2.username@ implies
        u2.contract_index@.contains(cs2[p].id) by {
        assert(cs1[p].username@ == u1.username@);
        assert(u1.contract_index@.contains(cs1[p].id));
    }
    assert forall|j1: int, j2: int|
        0 <= j1 < j2 < u2.contract_index@.len() implies u2.contract_index@[j1]
        != u2.contract_index@[j2] by {
        assert(u1.contract_index@[j1] != u1.contract_index@[j2]);
    }
}

/// A contract's claim index stays consistent under any change that keeps the
/// contract's identifier and index, every claim's identifier and contract,
/// and the number of claims.
pub proof fn lemma_claim_index_ok_transfer(
    c1: Contract,
    c2: Contract,
    ks1: Seq<Claim>,
    ks2: Seq<Claim>,
)
    requires
        claim_index_ok(c1, ks1),
        c2.id == c1.id,
        c2.claim_index@ == c1.claim_index@,
        ks2.len() == ks1.len(),
        forall|i: int|
            0 <= i < ks1.len() ==> (#[trigger] ks2[i]).id == ks1[i].id && ks2[i].contract_uuid
                == ks1[i].contract_uuid,
    ensures
        claim_index_ok(c2, ks2),
{
    assert forall|j: int| 0 <= j < c2.claim_index@.len() implies claim_exists(
        ks2,
        #[trigger] c2.claim_index@[j],
        c2.id,
    ) by {
        assert(c2.claim_index@[j] == c1.claim_index@[j]);
        assert(claim_exists(ks1, c1.claim_index@[j], c1.id));
        let w = choose|q: int|
            0 <= q < ks1.len() && ks1[q].id == c1.claim_index@[j] && ks1[q].contract_uuid == c1.id;
        assert(ks2[w].id == c2.claim_index@[j] && ks2[w].contract_uuid == c2.id);
    }
    assert forall|p: int|
        0 <= p < ks2.len() && (#[trigger] ks2[p]).contract_uuid == c2.id implies
        c2.claim_index@.contains(ks2[p].id) by {
        assert(ks1[p].contract_uuid == c1.id);
        assert(c1.claim_index@.contains(ks1[p].id));
    }
    assert forall|j1: int, j2: int|
        0 <= j1 < j2 < c2.claim_index@.len() implies c2.claim_index@[j1] != c2.claim_index@[j2] by {
        assert(c1.claim_index@[j1] != c1.claim_index@[j2]);
    }
}

/// No contract loses its `void` mark: voiding is monotonic across every
/// operation of the engine.
pub open spec fn voids_preserved(before: Seq<Contract>, after: Seq<Contract>) -> bool {
    &&& after.len() >= before.len()
    &&& forall|i: int| 0 <= i < before.len() && (#[trigger] before[i]).void ==> after[i].void
}

/// Updating one claim in place — keeping its identity and theft flag, and
/// not returning it to `New` — preserves well-formedness, whether or not
/// one contract is voided alongside and whether or not a repair order for
/// exactly that claim is cut.
pub(crate) proof fn lemma_claim_update_preserves_wf(
    pre: Store,
    post: Store,
    ki: int,
    k_new: Claim,
    ro: Option<RepairOrder>,
)
    requires
        pre.wf(),
        0 <= ki < pre.claims@.len(),
        post.claims@ == pre.claims@.update(ki, k_new),
        k_new.id == pre.claims@[ki].id,
        k_new.contract_uuid == pre.claims@[ki].contract_uuid,
        k_new.is_theft == pre.claims@[ki].is_theft,
        k_new.status != ClaimStatus::New,
        post.contracts@.len() == pre.contracts@.len(),
        forall|j: int|
            0 <= j < pre.contracts@.len() ==> #[trigger] post.contracts@[j] == pre.contracts@[j]
                || post.contracts@[j] == (Contract { void: true, ..pre.contracts@[j] }),
        post.users == pre.users,
        post.contract_types == pre.contract_types,
        match ro {
            None => post.repair_orders@.len() == pre.repair_orders@.len() && forall|i: int|
                0 <= i < pre.repair_orders@.len() ==> (#[trigger] post.repair_orders@[i]).claim_uuid
                    == pre.repair_orders@[i].claim_uuid && post.repair_orders@[i].contract_id
                    == pre.repair_orders@[i].contract_id,
            Some(o) => {
                &&& post.repair_orders@ == pre.repair_orders@.push(o)
                &&& o.claim_uuid == k_new.id
                &&& o.contract_id == k_new.contract_uuid
                &&& pre.claims@[ki].status == ClaimStatus::New
                &&& !k_new.is_theft
            },
        },
    ensures
        post.wf(),
{
    let oc = pre.contracts@;
    let nc = post.contracts@;
    let ok_ = pre.claims@;
    let nk = post.claims@;
    assert(forall|i: int| 0 <= i < ok_.len() && i != ki ==> nk[i] == ok_[i]);
    assert(forall|i: int| 0 <= i < ok_.len() ==> (#[trigger] nk[i]).id == ok_[i].id
        && nk[i].contract_uuid == ok_[i].contract_uuid && nk[i].is_theft == ok_[i].is_theft);
    assert(forall|j: int| 0 <= j < oc.len() ==> (#[trigger] nc[j]).id == oc[j].id
        && nc[j].username@ == oc[j].username@ && nc[j].claim_index == oc[j].claim_index);

    assert(unique_claim_ids(nk));
    assert(unique_contract_ids(nc));

    assert forall|j: int| 0 <= j < nc.len() implies claim_index_ok(#[trigger] nc[j], nk) by {
        let c_old = oc[j];
        let c_new = nc[j];
        assert(claim_index_ok(c_old, ok_));
        lemma_claim_index_ok_transfer(c_old, c_new, ok_, nk);
    }

    assert forall|j: int| 0 <= j < post.users@.len() implies contract_index_ok(
        #[trigger] post.users@[j],
        nc,
    ) by {
        let u = pre.users@[j];
        assert(contract_index_ok(u, oc));
        lemma_contract_index_ok_transfer(u, u, oc, nc);
    }

    assert forall|i: int| 0 <= i < nk.len() implies contract_exists(
        nc,
        (#[trigger] nk[i]).contract_uuid,
    ) by {
        assert(contract_exists(oc, ok_[i].contract_uuid));
        let w = choose|q: int| 0 <= q < oc.len() && oc[q].id == ok_[i].contract_uuid;
        assert(nc[w].id == ok_[i].contract_uuid);
    }
    assert forall|j: int| 0 <= j < nc.len() implies user_exists(
        post.users@,
        (#[trigger] nc[j]).username@,
    ) by {
        assert(user_exists(pre.users@, oc[j].username@));
    }

    let orol = pre.repair_orders@.len() as int;
    assert forall|i: int| 0 <= i < post.repair_orders@.len() implies claim_exists(
        nk,
        (#[trigger] post.repair_orders@[i]).claim_uuid,
        post.repair_orders@[i].contract_id,
    ) by {
        if i < orol {
            assert(claim_exists(ok_, pre.repair_orders@[i].claim_uuid,
                pre.repair_orders@[i].contract_id));
            let w = choose|q: int|
                0 <= q < ok_.len() && ok_[q].id == pre.repair_orders@[i].claim_uuid
                    && ok_[q].contract_uuid == pre.repair_orders@[i].contract_id;
            assert(nk[w].id == pre.repair_orders@[i].claim_uuid && nk[w].contract_uuid
                == pre.repair_orders@[i].contract_id);
        } else {
            assert(nk[ki].id == post.repair_orders@[i].claim_uuid);
        }
    }

    assert forall|i: int, p: int|
        0 <= i < post.repair_orders@.len() && 0 <= p < nk.len() && (
        #[trigger] post.repair_orders@[i]).claim_uuid == (#[trigger] nk[p]).id implies
        !nk[p].is_theft && nk[p].status != ClaimStatus::New by {
        if i < orol {
            assert(repair_order_claims_settled(pre.repair_orders@, ok_));
            assert(pre.repair_orders@[i].claim_uuid == ok_[p].id);
            if p == ki {
                // An old order already referenced this claim, so it had left
                // `New` before the update, and the update keeps it out.
            }
        } else {
            if p != ki {
                assert(nk[p].id == ok_[p].id && ok_[ki].id == nk[ki].id);
                assert(false);
            }
        }
    }
    assert forall|i: int, j: int|
        0 <= i < j < post.repair_orders@.len() implies post.repair_orders@[i].claim_uuid
        != post.repair_orders@[j].claim_uuid by {
        if j < orol {
            assert(pre.repair_orders@[i].claim_uuid != pre.repair_orders@[j].claim_uuid);
        } else {
            assert(repair_order_claims_settled(pre.repair_orders@, ok_));
            if pre.repair_orders@[i].claim_uuid == ok_[ki].id {
                assert(ok_[ki].status != ClaimStatus::New);
            }
        }
    }
}

} // verus!
