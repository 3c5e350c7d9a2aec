//! The rows this layer reads and writes: the two entity kinds and the
//! ownership relation binding each entity to its owning party.

use vstd::prelude::*;

verus! {

/// A consumer-facing account record. The surrogate key is assigned by the
/// store on insert; the natural identifier is kept only as a salted hash.
pub struct CustomerRow {
    pub id: i64,
    pub ssn_hash: String,
    pub first_name: String,
    pub last_name: String,
    pub email: String,
    pub conditions: Vec<bool>,
    pub pending_documents: i16,
}

/// An internal user record. The surrogate key is derived deterministically
/// from the external identifier, so it is recomputable from that identifier.
pub struct UserRow {
    pub id: String,
    pub first_name: String,
    pub last_name: String,
    pub email: String,
    pub conditions: Vec<bool>,
}

/// The projection of a user row that lookups return.
pub struct UserProfile {
    pub first_name: String,
    pub last_name: String,
    pub conditions: Vec<bool>,
}

/// Ownership relation for customers: the owning partner may access the
/// customer row it is paired with.
pub struct PartnerCustomer {
    pub partner_id: String,
    pub customer_id: i64,
}

/// Ownership relation for users: the owning customer may access the user row
/// it is paired with.
pub struct CustomerUser {
    pub customer_id: String,
    pub user_id: String,
}

/// Two customer rows carry the same data.
pub open spec fn customer_eqv(a: CustomerRow, b: CustomerRow) -> bool {
    &&& a.id == b.id
    &&& a.ssn_hash@ == b.ssn_hash@
    &&& a.first_name@ == b.first_name@
    &&& a.last_name@ == b.last_name@
    &&& a.email@ == b.email@
    &&& a.conditions@ == b.conditions@
    &&& a.pending_documents == b.pending_documents
}

/// Two customer row sequences carry the same data, element by element.
pub open spec fn customer_rows_eqv(a: Seq<CustomerRow>, b: Seq<CustomerRow>) -> bool {
    a.len() == b.len() && forall|i: int| 0 <= i < a.len() ==> customer_eqv(a[i], b[i])
}

/// Two user rows carry the same data.
pub open spec fn user_eqv(a: UserRow, b: UserRow) -> bool {
    &&& a.id@ == b.id@
    &&& a.first_name@ == b.first_name@
    &&& a.last_name@ == b.last_name@
    &&& a.email@ == b.email@
    &&& a.conditions@ == b.conditions@
}

/// Two user row sequences carry the same data, element by element.
pub open spec fn user_rows_eqv(a: Seq<UserRow>, b: Seq<UserRow>) -> bool {
    a.len() == b.len() && forall|i: int| 0 <= i < a.len() ==> user_eqv(a[i], b[i])
}

/// The profile a user row projects to.
pub open spec fn profile_of(r: UserRow, p: UserProfile) -> bool {
    &&& p.first_name@ == r.first_name@
    &&& p.last_name@ == r.last_name@
    &&& p.conditions@ == r.conditions@
}

/// An element-wise clone of booleans is the same sequence.
pub proof fn lemma_cloned_bools(a: Seq<bool>, b: Seq<bool>)
    requires
        a.len() == b.len(),
        forall|i: int| #![all_triggers] 0 <= i < a.len() ==> cloned::<bool>(a[i], b[i]),
    ensures
        a == b,
{
    assert forall|i: int| 0 <= i < a.len() implies a[i] == b[i] by {
        assert(cloned::<bool>(a[i], b[i]));
    }
    assert(a =~= b);
}

impl Clone for CustomerRow {
    fn clone(&self) -> (r: Self)
        ensures
            customer_eqv(r, *self),
    {
        let conditions = self.conditions.clone();
        proof {
            lemma_cloned_bools(self.conditions@, conditions@);
        }
        CustomerRow {
            id: self.id,
            ssn_hash: self.ssn_hash.clone(),
            first_name: self.first_name.clone(),
            last_name: self.last_name.clone(),
            email: self.email.clone(),
            conditions,
            pending_documents: self.pending_documents,
        }
    }
}

impl Clone for UserRow {
    fn clone(&self) -> (r: Self)
        ensures
            user_eqv(r, *self),
    {
        let conditions = self.conditions.clone();
        proof {
            lemma_cloned_bools(self.conditions@, conditions@);
        }
        UserRow {
            id: self.id.clone(),
            first_name: self.first_name.clone(),
            last_name: self.last_name.clone(),
            email: self.email.clone(),
            conditions,
        }
    }
}

impl Clone for PartnerCustomer {
    fn clone(&self) -> (r: Self)
        ensures
            r == *self,
    {
        PartnerCustomer { partner_id: self.partner_id.clone(), customer_id: self.customer_id }
    }
}

impl Clone for CustomerUser {
    fn clone(&self) -> (r: Self)
        ensures
            r == *self,
    {
        CustomerUser { customer_id: self.customer_id.clone(), user_id: self.user_id.clone() }
    }
}

} // verus!
