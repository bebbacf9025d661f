//! The entities the engine works on.
//!
//! Every entity is addressed by a 128-bit identifier; users are addressed by
//! their username.  Dates are day numbers, monetary amounts are integral
//! (smallest currency unit), so every field the engine reasons about is a
//! plain value.

use vstd::prelude::*;
use vstd::string::StrSliceExecFns;

verus! {

/// A reusable coverage template a contract is issued against.
#[derive(Debug, Clone, PartialEq)]
pub struct ContractType {
    pub id: u128,
    pub shop_type: String,
    /// Premium formula, evaluated per day by a component outside the engine;
    /// the engine carries it as opaque text.
    pub formula_per_day: String,
    pub max_sum_insured: u64,
    pub theft_insured: bool,
    pub description: String,
    pub conditions: String,
    pub active: bool,
    pub min_duration_days: i32,
    pub max_duration_days: i32,
}

/// The merchandise item a contract covers; a value object embedded in the
/// contract, with no identity of its own beyond the serial number.
#[derive(Debug, Clone, PartialEq)]
pub struct Item {
    pub id: i32,
    pub brand: String,
    pub model: String,
    pub price: u64,
    pub description: String,
    pub serial_no: String,
}

/// An insurance contract: an item covered for a user over a date range.
#[derive(Debug, Clone, PartialEq)]
pub struct Contract {
    pub id: u128,
    pub username: String,
    pub item: Item,
    /// First covered day, as a day number.
    pub start_date: i64,
    /// Last covered day, as a day number; never before `start_date`.
    pub end_date: i64,
    /// Set once a theft-confirmed claim on this contract is reimbursed;
    /// monotonic, never reset.
    pub void: bool,
    pub contract_type_uuid: u128,
    /// Identifiers of every claim filed against this contract, in filing
    /// order; kept consistent with the claim records themselves.
    pub claim_index: Vec<u128>,
}

/// Where a claim stands in its lifecycle.
#[derive(Debug, Clone, Copy, PartialEq, Eq, Structural)]
pub enum ClaimStatus {
    Unknown,
    New,
    Rejected,
    Repair,
    Reimbursement,
    TheftConfirmed,
}

/// A claim filed against a contract.
#[derive(Debug, Clone, PartialEq)]
pub struct Claim {
    pub id: u128,
    pub contract_uuid: u128,
    /// Filing date, as a day number.
    pub date: i64,
    pub description: String,
    /// Immutable after filing.
    pub is_theft: bool,
    pub status: ClaimStatus,
    /// Meaningful only once the claim reaches `Reimbursement`; zero otherwise.
    pub reimbursable: u64,
    /// Set only through a completed repair order.
    pub repaired: bool,
    /// Police report reference; populated only on the theft path.
    pub file_reference: String,
}

/// An account a contract is issued to.
#[derive(Debug, Clone, PartialEq)]
pub struct User {
    pub username: String,
    /// Password digest, never the plaintext.
    pub password: String,
    pub first_name: String,
    pub last_name: String,
    /// Identifiers of every contract issued to this user, in creation order;
    /// append-only.
    pub contract_index: Vec<u128>,
}

/// The repair of a non-theft claim's item; created exactly once, when the
/// claim enters `Repair`, and addressed by the claim's identifier.
#[derive(Debug, Clone, Copy, PartialEq, Eq, Structural)]
pub struct RepairOrder {
    pub claim_uuid: u128,
    pub contract_id: u128,
    pub item_id: i32,
    pub ready: bool,
}

// Value equality of two entity records, field by field, with text compared by
// contents.  The operation contracts are stated over these.

pub open spec fn eq_contract_type(a: ContractType, b: ContractType) -> bool {
    &&& a.id == b.id
    &&& a.shop_type@ == b.shop_type@
    &&& a.formula_per_day@ == b.formula_per_day@
    &&& a.max_sum_insured == b.max_sum_insured
    &&& a.theft_insured == b.theft_insured
    &&& a.description@ == b.description@
    &&& a.conditions@ == b.conditions@
    &&& a.active == b.active
    &&& a.min_duration_days == b.min_duration_days
    &&& a.max_duration_days == b.max_duration_days
}

pub open spec fn eq_item(a: Item, b: Item) -> bool {
    &&& a.id == b.id
    &&& a.brand@ == b.brand@
    &&& a.model@ == b.model@
    &&& a.price == b.price
    &&& a.description@ == b.description@
    &&& a.serial_no@ == b.serial_no@
}

pub open spec fn eq_contract(a: Contract, b: Contract) -> bool {
    &&& a.id == b.id
    &&& a.username@ == b.username@
    &&& eq_item(a.item, b.item)
    &&& a.start_date == b.start_date
    &&& a.end_date == b.end_date
    &&& a.void == b.void
    &&& a.contract_type_uuid == b.contract_type_uuid
    &&& a.claim_index@ == b.claim_index@
}

pub open spec fn eq_claim(a: Claim, b: Claim) -> bool {
    &&& a.id == b.id
    &&& a.contract_uuid == b.contract_uuid
    &&& a.date == b.date
    &&& a.description@ == b.description@
    &&& a.is_theft == b.is_theft
    &&& a.status == b.status
    &&& a.reimbursable == b.reimbursable
    &&& a.repaired == b.repaired
    &&& a.file_reference@ == b.file_reference@
}

pub open spec fn eq_user(a: User, b: User) -> bool {
    &&& a.username@ == b.username@
    &&& a.password@ == b.password@
    &&& a.first_name@ == b.first_name@
    &&& a.last_name@ == b.last_name@
    &&& a.contract_index@ == b.contract_index@
}

impl ContractType {
    /// An owned copy with the same contents.
    pub fn duplicate(&self) -> (r: ContractType)
        ensures
            eq_contract_type(r, *self),
    {
        ContractType {
            id: self.id,
            shop_type: self.shop_type.clone(),
            formula_per_day: self.formula_per_day.clone(),
            max_sum_insured: self.max_sum_insured,
            theft_insured: self.theft_insured,
            description: self.description.clone(),
            conditions: self.conditions.clone(),
            active: self.active,
            min_duration_days: self.min_duration_days,
            max_duration_days: self.max_duration_days,
        }
    }
}

impl Item {
    /// An owned copy with the same contents.
    pub fn duplicate(&self) -> (r: Item)
        ensures
            eq_item(r, *self),
    {
        Item {
            id: self.id,
            brand: self.brand.clone(),
            model: self.model.clone(),
            price: self.price,
            description: self.description.clone(),
            serial_no: self.serial_no.clone(),
        }
    }
}

impl Contract {
    /// An owned copy with the same contents.
    pub fn duplicate(&self) -> (r: Contract)
        ensures
            eq_contract(r, *self),
    {
        let claim_index = self.claim_index.clone();
        proof {
            assert(claim_index@ =~= self.claim_index@);
        }
        Contract {
            id: self.id,
            username: self.username.clone(),
            item: self.item.duplicate(),
            start_date: self.start_date,
            end_date: self.end_date,
            void: self.void,
            contract_type_uuid: self.contract_type_uuid,
            claim_index,
        }
    }
}

impl User {
    /// An owned copy with the same contents.
    pub fn duplicate(&self) -> (r: User)
        ensures
            eq_user(r, *self),
    {
        let contract_index = self.contract_index.clone();
        proof {
            assert(contract_index@ =~= self.contract_index@);
        }
        User {
            username: self.username.clone(),
            password: self.password.clone(),
            first_name: self.first_name.clone(),
            last_name: self.last_name.clone(),
            contract_index,
        }
    }
}

impl Claim {
    /// An owned copy with the same contents.
    pub fn duplicate(&self) -> (r: Claim)
        ensures
            eq_claim(r, *self),
    {
        Claim {
            id: self.id,
            contract_uuid: self.contract_uuid,
            date: self.date,
            description: self.description.clone(),
            is_theft: self.is_theft,
            status: self.status,
            reimbursable: self.reimbursable,
            repaired: self.repaired,
            file_reference: self.file_reference.clone(),
        }
    }
}

impl ClaimStatus {
    /// The status a one-letter code denotes, `Unknown` for anything else.
    pub open spec fn spec_from_code(s: Seq<char>) -> ClaimStatus {
        if s.len() == 1 {
            if s[0] == 'N' || s[0] == 'n' {
                ClaimStatus::New
            } else if s[0] == 'J' || s[0] == 'j' {
                ClaimStatus::Rejected
            } else if s[0] == 'R' || s[0] == 'r' {
                ClaimStatus::Repair
            } else if s[0] == 'F' || s[0] == 'f' {
                ClaimStatus::Reimbursement
            } else if s[0] == 'P' || s[0] == 'p' {
                ClaimStatus::TheftConfirmed
            } else {
                ClaimStatus::Unknown
            }
        } else {
            ClaimStatus::Unknown
        }
    }

    /// The one-letter code of a status, empty for `Unknown`.
    pub open spec fn spec_code(self) -> Seq<char> {
        match self {
            ClaimStatus::Unknown => Seq::<char>::empty(),
            ClaimStatus::New => seq!['N'],
            ClaimStatus::Rejected => seq!['J'],
            ClaimStatus::Repair => seq!['R'],
            ClaimStatus::Reimbursement => seq!['F'],
            ClaimStatus::TheftConfirmed => seq!['P'],
        }
    }

    /// Reads a status from its one-letter code, either case; any other text
    /// gives `Unknown`.
    pub fn from_str(value: &str) -> (r: Self)
        ensures
            r == Self::spec_from_code(value@),
    {
        let n: usize = value.unicode_len();
        if n != 1 {
            return ClaimStatus::Unknown;
        }
        let c: char = value.get_char(0);
        match c {
            'N' | 'n' => ClaimStatus::New,
            'J' | 'j' => ClaimStatus::Rejected,
            'R' | 'r' => ClaimStatus::Repair,
            'F' | 'f' => ClaimStatus::Reimbursement,
            'P' | 'p' => ClaimStatus::TheftConfirmed,
            _ => ClaimStatus::Unknown,
        }
    }

    /// Writes the one-letter code of a status, upper case; `Unknown` has none.
    pub fn to_str(&self) -> (r: &str)
        ensures
            r@ == self.spec_code(),
    {
        proof {
            reveal_strlit("");
            reveal_strlit("N");
            reveal_strlit("J");
            reveal_strlit("R");
            reveal_strlit("F");
            reveal_strlit("P");
        }
        match self {
            ClaimStatus::Unknown => "",
            ClaimStatus::New => "N",
            ClaimStatus::Rejected => "J",
            ClaimStatus::Repair => "R",
            ClaimStatus::Reimbursement => "F",
            ClaimStatus::TheftConfirmed => "P",
        }
    }
}

/// A status other than `Unknown` survives the round trip through its
/// one-letter code; `Unknown` has no code of its own and reads back as
/// itself only by falling through.
pub proof fn lemma_status_code_round_trip(s: ClaimStatus)
    ensures
        ClaimStatus::spec_from_code(s.spec_code()) == s,
{
}

/// Whether the insurer may move a claim to `target`.
///
/// A non-theft claim that has left `New` accepts nothing but `Rejected`; a
/// theft claim still in `New` accepts nothing but `Rejected`, every other
/// move out of `New` belongs to the police; no theft claim ever moves to
/// `Repair`; and the insurer can request only `Repair`, `Reimbursement` or
/// `Rejected`.
pub open spec fn process_allowed(k: Claim, target: ClaimStatus) -> bool {
    &&& !(!k.is_theft && k.status != ClaimStatus::New && target != ClaimStatus::Rejected)
    &&& !(k.is_theft && k.status == ClaimStatus::New && target != ClaimStatus::Rejected)
    &&& !(target == ClaimStatus::Repair && k.is_theft)
    &&& (target == ClaimStatus::Repair || target == ClaimStatus::Reimbursement || target
        == ClaimStatus::Rejected)
}

/// A non-theft claim reaches `Repair` or `Reimbursement` only from `New`.
pub proof fn lemma_non_theft_progress_needs_new(k: Claim, target: ClaimStatus)
    requires
        !k.is_theft,
        target == ClaimStatus::Repair || target == ClaimStatus::Reimbursement,
        process_allowed(k, target),
    ensures
        k.status == ClaimStatus::New,
{
}

/// Once a non-theft claim has been decided, the insurer can only reject it:
/// every other request is refused.
pub proof fn lemma_decided_non_theft_only_rejected(k: Claim, target: ClaimStatus)
    requires
        !k.is_theft,
        k.status != ClaimStatus::New,
        target != ClaimStatus::Rejected,
    ensures
        !process_allowed(k, target),
{
}

/// The insurer cannot move a theft claim out of `New`, except to reject it;
/// confirming a theft is the police's transition.
pub proof fn lemma_theft_new_locked_to_insurer(k: Claim, target: ClaimStatus)
    requires
        k.is_theft,
        k.status == ClaimStatus::New,
        target != ClaimStatus::Rejected,
    ensures
        !process_allowed(k, target),
{
}

/// Stolen items are never repaired: no theft claim is ever moved to `Repair`.
pub proof fn lemma_theft_never_repaired(k: Claim)
    requires
        k.is_theft,
    ensures
        !process_allowed(k, ClaimStatus::Repair),
{
}

} // verus!
