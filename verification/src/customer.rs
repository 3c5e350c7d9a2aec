//! The customer side: an executable model of the store the handler mutates,
//! the repository operations over it, and the request dispatcher with its
//! response mapping.
//!
//! Ownership policy for this entity kind: a customer row is exclusively
//! owned, so a delete removes the entity row unconditionally once the
//! relation row is gone.

use vstd::prelude::*;
use vstd::string::*;
use crate::hashing::{hash_ssn, identity_hash_spec};
use crate::parse_num::{parse_i64_or_zero, parse_i64_or_zero_spec};
use crate::records::{customer_eqv, customer_rows_eqv, CustomerRow, PartnerCustomer};
use crate::request::{CustomerPost, HttpMethod, ParsedBody};
use crate::response::{
    is_empty_object, is_message, message_response, ApiResponse, Body, STATUS_METHOD_NOT_ALLOWED,
    STATUS_OK, STATUS_STORE_FAILURE, STATUS_UNAUTHORIZED,
};
use crate::text::str_eq;
use crate::update_sql::{build_update, EntityKind, FieldUpdates};

verus! {

/// The customer table, its ownership relation, and the id the store would
/// assign to the next inserted row.
pub struct CustomerStore {
    pub customers: Vec<CustomerRow>,
    pub relations: Vec<PartnerCustomer>,
    pub next_id: i64,
}

/// An ownership-relation row pairs this owner with this customer id.
pub open spec fn has_relation(rels: Seq<PartnerCustomer>, owner: Seq<char>, id: i64) -> bool {
    exists|j: int|
        0 <= j < rels.len() && rels[j].partner_id@ == owner && rels[j].customer_id == id
}

/// The rows carrying this id, in store order.
pub open spec fn rows_with_id(rows: Seq<CustomerRow>, id: i64) -> Seq<CustomerRow>
    decreases rows.len(),
{
    if rows.len() == 0 {
        Seq::empty()
    } else {
        rows_with_id(rows.drop_last(), id) + (if rows.last().id == id {
            seq![rows.last()]
        } else {
            Seq::empty()
        })
    }
}

/// The rows not carrying this id, in store order.
pub open spec fn rows_without_id(rows: Seq<CustomerRow>, id: i64) -> Seq<CustomerRow>
    decreases rows.len(),
{
    if rows.len() == 0 {
        Seq::empty()
    } else {
        rows_without_id(rows.drop_last(), id) + (if rows.last().id != id {
            seq![rows.last()]
        } else {
            Seq::empty()
        })
    }
}

/// What a lookup scoped to an owner yields: the rows with the id when the
/// ownership relation holds, nothing otherwise.
pub open spec fn owner_rows(s: CustomerStore, owner: Seq<char>, id: i64) -> Seq<CustomerRow> {
    if has_relation(s.relations@, owner, id) {
        rows_with_id(s.customers@, id)
    } else {
        Seq::empty()
    }
}

/// A row matches the natural-key claim: hashed identifier and the two
/// corroborating name fields, all exact, and the row must be reachable
/// through the acting owner's relation.
pub open spec fn claim_row_matches(
    r: CustomerRow,
    rels: Seq<PartnerCustomer>,
    owner: Seq<char>,
    ssn_hash: Seq<char>,
    first: Seq<char>,
    last: Seq<char>,
) -> bool {
    &&& r.ssn_hash@ == ssn_hash
    &&& r.first_name@ == first
    &&& r.last_name@ == last
    &&& has_relation(rels, owner, r.id)
}

/// The rows matching the natural-key claim, in store order.
pub open spec fn claim_rows(
    rows: Seq<CustomerRow>,
    rels: Seq<PartnerCustomer>,
    owner: Seq<char>,
    ssn_hash: Seq<char>,
    first: Seq<char>,
    last: Seq<char>,
) -> Seq<CustomerRow>
    decreases rows.len(),
{
    if rows.len() == 0 {
        Seq::empty()
    } else {
        claim_rows(rows.drop_last(), rels, owner, ssn_hash, first, last) + (if claim_row_matches(
            rows.last(),
            rels,
            owner,
            ssn_hash,
            first,
            last,
        ) {
            seq![rows.last()]
        } else {
            Seq::empty()
        })
    }
}

/// Some row already carries this hashed natural identifier.
pub open spec fn ssn_present(rows: Seq<CustomerRow>, ssn_hash: Seq<char>) -> bool {
    exists|i: int| 0 <= i < rows.len() && rows[i].ssn_hash@ == ssn_hash
}

/// The relation rows that survive deleting the pair (owner, id).
pub open spec fn relations_without(
    rels: Seq<PartnerCustomer>,
    owner: Seq<char>,
    id: i64,
) -> Seq<PartnerCustomer>
    decreases rels.len(),
{
    if rels.len() == 0 {
        Seq::empty()
    } else {
        relations_without(rels.drop_last(), owner, id) + (if !(rels.last().partner_id@ == owner
            && rels.last().customer_id == id) {
            seq![rels.last()]
        } else {
            Seq::empty()
        })
    }
}

impl CustomerStore {
    /// The store invariant the relational constraints would enforce: ids are
    /// assigned from a positive counter and never repeat, and the hashed
    /// natural identifier is unique across rows.
    pub open spec fn wf(self) -> bool {
        &&& 1 <= self.next_id
        &&& forall|i: int|
            0 <= i < self.customers@.len() ==> 1 <= #[trigger] self.customers@[i].id
                < self.next_id
        &&& forall|i: int, j: int|
            0 <= i < j < self.customers@.len() ==> self.customers@[i].id
                != self.customers@[j].id
        &&& forall|i: int, j: int|
            0 <= i < j < self.customers@.len() ==> self.customers@[i].ssn_hash@
                != self.customers@[j].ssn_hash@
    }

    /// An empty store, counting ids from one.
    pub fn new() -> (s: CustomerStore)
        ensures
            s.wf(),
            s.customers@.len() == 0,
            s.relations@.len() == 0,
            s.next_id == 1,
    {
        CustomerStore { customers: Vec::new(), relations: Vec::new(), next_id: 1 }
    }

    /// Fetch every row carrying this id, unscoped: the resolution step of an
    /// add that references an existing row.
    pub fn get_by_id(&self, id: i64) -> (r: Vec<CustomerRow>)
        ensures
            customer_rows_eqv(r@, rows_with_id(self.customers@, id)),
    {
        let mut out: Vec<CustomerRow> = Vec::new();
        let n = self.customers.len();
        let mut i: usize = 0;
        proof {
            assert(self.customers@.subrange(0, 0) =~= Seq::<CustomerRow>::empty());
        }
        while i < n
            invariant
                i <= n,
                n == self.customers@.len(),
                customer_rows_eqv(out@, rows_with_id(self.customers@.subrange(0, i as int), id)),
            decreases n - i,
        {
            proof {
                let sub1 = self.customers@.subrange(0, i + 1);
                assert(sub1.drop_last() =~= self.customers@.subrange(0, i as int));
                assert(sub1.last() == self.customers@[i as int]);
            }
            if self.customers[i].id == id {
                out.push(self.customers[i].clone());
            }
            i = i + 1;
        }
        proof {
            assert(self.customers@.subrange(0, n as int) =~= self.customers@);
        }
        out
    }

    /// The ownership relation holds for this owner and id.
    pub fn owns(&self, owner: &str, id: i64) -> (b: bool)
        ensures
            b == has_relation(self.relations@, owner@, id),
    {
        let n = self.relations.len();
        let mut i: usize = 0;
        while i < n
            invariant
                i <= n,
                n == self.relations@.len(),
                forall|j: int|
                    0 <= j < i ==> !(self.relations@[j].partner_id@ == owner@
                        && self.relations@[j].customer_id == id),
            decreases n - i,
        {
            if self.relations[i].customer_id == id && str_eq(
                self.relations[i].partner_id.as_str(),
                owner,
            ) {
                return true;
            }
            i = i + 1;
        }
        false
    }

    /// Fetch the rows with this id that the acting owner may see: the join
    /// against the ownership relation.
    pub fn get_for_owner(&self, owner: &str, id: i64) -> (r: Vec<CustomerRow>)
        ensures
            customer_rows_eqv(r@, owner_rows(*self, owner@, id)),
    {
        if self.owns(owner, id) {
            self.get_by_id(id)
        } else {
            Vec::new()
        }
    }

    /// Some row already carries this hashed natural identifier.
    pub fn ssn_exists(&self, ssn_hash: &str) -> (b: bool)
        ensures
            b == ssn_present(self.customers@, ssn_hash@),
    {
        let n = self.customers.len();
        let mut i: usize = 0;
        while i < n
            invariant
                i <= n,
                n == self.customers@.len(),
                forall|j: int| 0 <= j < i ==> self.customers@[j].ssn_hash@ != ssn_hash@,
            decreases n - i,
        {
            if str_eq(self.customers[i].ssn_hash.as_str(), ssn_hash) {
                return true;
            }
            i = i + 1;
        }
        false
    }

    /// Fetch the rows matching the natural-key claim for this owner.
    pub fn get_by_claim(&self, owner: &str, ssn_hash: &str, first: &str, last: &str) -> (r: Vec<
        CustomerRow,
    >)
        ensures
            customer_rows_eqv(
                r@,
                claim_rows(self.customers@, self.relations@, owner@, ssn_hash@, first@, last@),
            ),
    {
        let mut out: Vec<CustomerRow> = Vec::new();
        let n = self.customers.len();
        let mut i: usize = 0;
        proof {
            assert(self.customers@.subrange(0, 0) =~= Seq::<CustomerRow>::empty());
        }
        while i < n
            invariant
                i <= n,
                n == self.customers@.len(),
                customer_rows_eqv(
                    out@,
                    claim_rows(
                        self.customers@.subrange(0, i as int),
                        self.relations@,
                        owner@,
                        ssn_hash@,
                        first@,
                        last@,
                    ),
                ),
            decreases n - i,
        {
            proof {
                let sub1 = self.customers@.subrange(0, i + 1);
                assert(sub1.drop_last() =~= self.customers@.subrange(0, i as int));
                assert(sub1.last() == self.customers@[i as int]);
            }
            let row = &self.customers[i];
            if str_eq(row.ssn_hash.as_str(), ssn_hash) && str_eq(row.first_name.as_str(), first)
                && str_eq(row.last_name.as_str(), last) && self.owns(owner, row.id) {
                out.push(self.customers[i].clone());
            }
            i = i + 1;
        }
        proof {
            assert(self.customers@.subrange(0, n as int) =~= self.customers@);
        }
        out
    }

    /// Insert a row keyed by the hashed natural identifier, with conflict
    /// semantics: when some row already carries the hash, nothing is written
    /// and nothing is returned, and the caller must treat that as a failed
    /// creation. Otherwise the row is stored under the next id, with no
    /// acknowledged conditions and no pending documents, and handed back.
    pub fn insert(
        &mut self,
        ssn_hash: String,
        first_name: String,
        last_name: String,
        email: String,
    ) -> (r: Option<CustomerRow>)
        requires
            old(self).wf(),
            old(self).next_id < i64::MAX,
        ensures
            final(self).wf(),
            final(self).relations@ == old(self).relations@,
            ssn_present(old(self).customers@, ssn_hash@) ==> {
                &&& r is None
                &&& final(self).customers@ == old(self).customers@
                &&& final(self).next_id == old(self).next_id
            },
            !ssn_present(old(self).customers@, ssn_hash@) ==> {
                &&& final(self).customers@.len() == old(self).customers@.len() + 1
                &&& final(self).customers@.subrange(0, old(self).customers@.len() as int) == old(
                    self,
                ).customers@
                &&& new_customer_fields(
                    final(self).customers@.last(),
                    old(self).next_id,
                    ssn_hash@,
                    first_name@,
                    last_name@,
                    email@,
                )
                &&& final(self).next_id == old(self).next_id + 1
                &&& (r matches Option::Some(c) && customer_eqv(c, final(self).customers@.last()))
            },
    {
        if self.ssn_exists(ssn_hash.as_str()) {
            return Option::None;
        }
        let row = CustomerRow {
            id: self.next_id,
            ssn_hash,
            first_name,
            last_name,
            email,
            conditions: Vec::new(),
            pending_documents: 0,
        };
        let copy = row.clone();
        proof {
            assert(forall|i: int|
                0 <= i < self.customers@.len() ==> self.customers@[i].ssn_hash@ != row.ssn_hash@);
        }
        self.customers.push(row);
        self.next_id = self.next_id + 1;
        Option::Some(copy)
    }

    /// Record that this owner may access this customer id.
    pub fn add_relation(&mut self, owner: &str, id: i64)
        ensures
            final(self).customers@ == old(self).customers@,
            final(self).next_id == old(self).next_id,
            final(self).relations@.len() == old(self).relations@.len() + 1,
            final(self).relations@.subrange(0, old(self).relations@.len() as int) == old(
                self,
            ).relations@,
            final(self).relations@.last().partner_id@ == owner@,
            final(self).relations@.last().customer_id == id,
            old(self).wf() ==> final(self).wf(),
    {
        let rel = PartnerCustomer { partner_id: String::from_str(owner), customer_id: id };
        self.relations.push(rel);
    }

    /// Remove every relation row pairing this owner with this customer id.
    pub fn delete_relation(&mut self, owner: &str, id: i64)
        ensures
            final(self).customers@ == old(self).customers@,
            final(self).next_id == old(self).next_id,
            final(self).relations@ == relations_without(old(self).relations@, owner@, id),
            old(self).wf() ==> final(self).wf(),
    {
        let ghost orig = self.relations@;
        let ghost cust0 = self.customers@;
        let ghost nid0 = self.next_id;
        let mut kept: Vec<PartnerCustomer> = Vec::new();
        while self.relations.len() > 0
            invariant
                self.customers@ == cust0,
                self.next_id == nid0,
                relations_without(orig, owner@, id) =~= relations_without(
                    self.relations@,
                    owner@,
                    id,
                ) + kept@.reverse(),
            decreases self.relations@.len(),
        {
            let ghost before = self.relations@;
            let rel = self.relations.pop().unwrap();
            proof {
                assert(before.drop_last() =~= self.relations@);
                assert(before.last() == rel);
            }
            if rel.customer_id == id && str_eq(rel.partner_id.as_str(), owner) {
                proof {
                    assert(relations_without(before, owner@, id) =~= relations_without(
                        self.relations@,
                        owner@,
                        id,
                    ));
                }
            } else {
                let ghost kept_before = kept@;
                kept.push(rel);
                proof {
                    assert(kept@.reverse() =~= seq![rel] + kept_before.reverse());
                    assert(relations_without(before, owner@, id) =~= relations_without(
                        self.relations@,
                        owner@,
                        id,
                    ) + seq![rel]);
                    assert(relations_without(self.relations@, owner@, id) + seq![rel]
                        + kept_before.reverse() =~= relations_without(self.relations@, owner@, id)
                        + kept@.reverse());
                }
            }
        }
        while kept.len() > 0
            invariant
                self.customers@ == cust0,
                self.next_id == nid0,
                relations_without(orig, owner@, id) =~= self.relations@ + kept@.reverse(),
            decreases kept@.len(),
        {
            let ghost kept_before = kept@;
            let rel = kept.pop().unwrap();
            proof {
                assert(kept_before.reverse()[0] == rel);
                assert(kept@.reverse() =~= kept_before.reverse().drop_first());
                assert(self.relations@.push(rel) + kept@.reverse() =~= self.relations@
                    + kept_before.reverse());
            }
            self.relations.push(rel);
        }
        proof {
            assert(relations_without(orig, owner@, id) =~= self.relations@);
        }
    }

    /// Remove every customer row carrying this id, unconditionally: under the
    /// exclusive-ownership policy no other owner can still reference it.
    pub fn delete_customer(&mut self, id: i64)
        requires
            old(self).wf(),
        ensures
            final(self).wf(),
            final(self).relations@ == old(self).relations@,
            final(self).next_id == old(self).next_id,
            final(self).customers@ == rows_without_id(old(self).customers@, id),
    {
        let ghost orig = self.customers@;
        let ghost rels0 = self.relations@;
        let ghost nid0 = self.next_id;
        let mut kept: Vec<CustomerRow> = Vec::new();
        while self.customers.len() > 0
            invariant
                self.relations@ == rels0,
                self.next_id == nid0,
                rows_without_id(orig, id) =~= rows_without_id(self.customers@, id)
                    + kept@.reverse(),
            decreases self.customers@.len(),
        {
            let ghost before = self.customers@;
            let row = self.customers.pop().unwrap();
            proof {
                assert(before.drop_last() =~= self.customers@);
                assert(before.last() == row);
            }
            if row.id == id {
                proof {
                    assert(rows_without_id(before, id) =~= rows_without_id(self.customers@, id));
                }
            } else {
                let ghost kept_before = kept@;
                kept.push(row);
                proof {
                    assert(kept@.reverse() =~= seq![row] + kept_before.reverse());
                    assert(rows_without_id(before, id) =~= rows_without_id(self.customers@, id)
                        + seq![row]);
                    assert(rows_without_id(self.customers@, id) + seq![row]
                        + kept_before.reverse() =~= rows_without_id(self.customers@, id)
                        + kept@.reverse());
                }
            }
        }
        while kept.len() > 0
            invariant
                self.relations@ == rels0,
                self.next_id == nid0,
                rows_without_id(orig, id) =~= self.customers@ + kept@.reverse(),
            decreases kept@.len(),
        {
            let ghost kept_before = kept@;
            let row = kept.pop().unwrap();
            proof {
                assert(kept_before.reverse()[0] == row);
                assert(kept@.reverse() =~= kept_before.reverse().drop_first());
                assert(self.customers@.push(row) + kept@.reverse() =~= self.customers@
                    + kept_before.reverse());
            }
            self.customers.push(row);
        }
        proof {
            assert(rows_without_id(orig, id) =~= self.customers@);
            lemma_rows_without_id_props(orig, id);
        }
    }

    /// Apply the partial update to every row the statement would touch: the
    /// rows with this id, provided the acting owner's relation exists.
    pub fn apply_update(&mut self, id: i64, owner: &str, u: &FieldUpdates)
        requires
            old(self).wf(),
        ensures
            final(self).wf(),
            final(self).relations@ == old(self).relations@,
            final(self).next_id == old(self).next_id,
            final(self).customers@.len() == old(self).customers@.len(),
            forall|i: int|
                0 <= i < old(self).customers@.len() ==> if (old(self).customers@[i].id == id
                    && has_relation(old(self).relations@, owner@, id)) {
                    applied_update(final(self).customers@[i], old(self).customers@[i], *u)
                } else {
                    final(self).customers@[i] == old(self).customers@[i]
                },
    {
        if !self.owns(owner, id) {
            return;
        }
        let ghost orig = self.customers@;
        let n = self.customers.len();
        let mut i: usize = 0;
        while i < n
            invariant
                i <= n,
                n == orig.len(),
                self.customers@.len() == orig.len(),
                self.relations@ == old(self).relations@,
                self.next_id == old(self).next_id,
                orig == old(self).customers@,
                has_relation(old(self).relations@, owner@, id),
                forall|j: int|
                    0 <= j < i ==> if orig[j].id == id {
                        applied_update(self.customers@[j], orig[j], *u)
                    } else {
                        self.customers@[j] == orig[j]
                    },
                forall|j: int| i <= j < n ==> self.customers@[j] == orig[j],
            decreases n - i,
        {
            if self.customers[i].id == id {
                let row = &self.customers[i];
                let updated = CustomerRow {
                    id: row.id,
                    ssn_hash: row.ssn_hash.clone(),
                    first_name: match &u.first_name {
                        Option::Some(s) => s.clone(),
                        Option::None => row.first_name.clone(),
                    },
                    last_name: match &u.last_name {
                        Option::Some(s) => s.clone(),
                        Option::None => row.last_name.clone(),
                    },
                    email: match &u.email {
                        Option::Some(s) => s.clone(),
                        Option::None => row.email.clone(),
                    },
                    conditions: clone_conditions(&row.conditions),
                    pending_documents: row.pending_documents,
                };
                self.customers.set(i, updated);
            }
            i = i + 1;
        }
        proof {
            assert forall|a: int, b: int|
                0 <= a < b < self.customers@.len() implies self.customers@[a].id
                != self.customers@[b].id && self.customers@[a].ssn_hash@
                != self.customers@[b].ssn_hash@ by {
                assert(self.customers@[a].id == orig[a].id);
                assert(self.customers@[b].id == orig[b].id);
                assert(self.customers@[a].ssn_hash@ == orig[a].ssn_hash@);
                assert(self.customers@[b].ssn_hash@ == orig[b].ssn_hash@);
            }
            assert forall|a: int| 0 <= a < self.customers@.len() implies 1
                <= #[trigger] self.customers@[a].id < self.next_id by {
                assert(self.customers@[a].id == orig[a].id);
            }
        }
    }
}

/// The fields a freshly inserted customer row carries.
pub open spec fn new_customer_fields(
    r: CustomerRow,
    id: i64,
    ssn_hash: Seq<char>,
    first: Seq<char>,
    last: Seq<char>,
    email: Seq<char>,
) -> bool {
    &&& r.id == id
    &&& r.ssn_hash@ == ssn_hash
    &&& r.first_name@ == first
    &&& r.last_name@ == last
    &&& r.email@ == email
    &&& r.conditions@ == Seq::<bool>::empty()
    &&& r.pending_documents == 0
}

/// How an updated row relates to the row it replaces: the supplied fields
/// take their new values, everything else is untouched.
pub open spec fn applied_update(new: CustomerRow, prev: CustomerRow, u: FieldUpdates) -> bool {
    &&& new.id == prev.id
    &&& new.ssn_hash@ == prev.ssn_hash@
    &&& new.first_name@ == (match u.first_name {
        Option::Some(s) => s@,
        Option::None => prev.first_name@,
    })
    &&& new.last_name@ == (match u.last_name {
        Option::Some(s) => s@,
        Option::None => prev.last_name@,
    })
    &&& new.email@ == (match u.email {
        Option::Some(s) => s@,
        Option::None => prev.email@,
    })
    &&& new.conditions@ == prev.conditions@
    &&& new.pending_documents == prev.pending_documents
}

/// Clone the acknowledgement flags of a row.
fn clone_conditions(v: &Vec<bool>) -> (r: Vec<bool>)
    ensures
        r@ == v@,
{
    let r = v.clone();
    proof {
        crate::records::lemma_cloned_bools(v@, r@);
    }
    r
}

/// Neither the rows nor the relations nor the id counter moved.
pub open spec fn store_unchanged(s0: CustomerStore, s1: CustomerStore) -> bool {
    &&& s1.customers@ == s0.customers@
    &&& s1.relations@ == s0.relations@
    &&& s1.next_id == s0.next_id
}

/// Exactly one relation row was appended, pairing this owner with this id.
pub open spec fn relation_appended(
    r0: Seq<PartnerCustomer>,
    r1: Seq<PartnerCustomer>,
    owner: Seq<char>,
    id: i64,
) -> bool {
    &&& r1.len() == r0.len() + 1
    &&& r1.subrange(0, r0.len() as int) == r0
    &&& r1.last().partner_id@ == owner
    &&& r1.last().customer_id == id
}

/// How a unique-key lookup's rows map to a response: the empty object for no
/// match, the row itself for exactly one, and an authorization failure for
/// the impossible multi-match, which can only mean corrupted data.
pub open spec fn lookup_response_matches(rows: Seq<CustomerRow>, r: ApiResponse) -> bool {
    if rows.len() == 0 {
        is_empty_object(r, STATUS_OK)
    } else if rows.len() == 1 {
        r.status == STATUS_OK && (r.body matches Body::Customer(c) && customer_eqv(c, rows[0]))
    } else {
        is_message(r, STATUS_UNAUTHORIZED, "Unauthorized request"@)
    }
}

/// Map fetched rows to the response a unique-key lookup owes.
pub fn lookup_response(rows: &Vec<CustomerRow>) -> (r: ApiResponse)
    ensures
        lookup_response_matches(rows@, r),
{
    if rows.len() == 0 {
        ApiResponse { status: STATUS_OK, body: Body::Empty }
    } else if rows.len() == 1 {
        ApiResponse { status: STATUS_OK, body: Body::Customer(rows[0].clone()) }
    } else {
        message_response(STATUS_UNAUTHORIZED, "Unauthorized request")
    }
}

/// The id the delete and update operations act on: the id field of the
/// body, or zero — an id no stored row carries — when it is absent.
pub open spec fn post_id_or_zero(post: CustomerPost) -> i64 {
    match post.id {
        Option::Some(v) => v,
        Option::None => 0,
    }
}

/// The body supplies none of the mutable fields.
pub open spec fn no_update_fields(post: CustomerPost) -> bool {
    post.first_name is None && post.last_name is None && post.email is None
}

/// How an updated row relates to the row it replaces, in terms of the body
/// the caller supplied.
pub open spec fn applied_post_update(new: CustomerRow, prev: CustomerRow, post: CustomerPost) -> bool {
    &&& new.id == prev.id
    &&& new.ssn_hash@ == prev.ssn_hash@
    &&& new.first_name@ == (match post.first_name {
        Option::Some(s) => s@,
        Option::None => prev.first_name@,
    })
    &&& new.last_name@ == (match post.last_name {
        Option::Some(s) => s@,
        Option::None => prev.last_name@,
    })
    &&& new.email@ == (match post.email {
        Option::Some(s) => s@,
        Option::None => prev.email@,
    })
    &&& new.conditions@ == prev.conditions@
    &&& new.pending_documents == prev.pending_documents
}

/// What an add does to the store and what it answers. Referencing an
/// existing row resolves it and binds it to the owner; otherwise the row is
/// inserted under the hashed natural identifier, and a conflict there is a
/// failed creation, never a silent success.
pub open spec fn add_effect(
    s0: CustomerStore,
    s1: CustomerStore,
    owner: Seq<char>,
    salt: Seq<char>,
    post: CustomerPost,
    r: ApiResponse,
) -> bool {
    match post.id {
        Option::Some(pid) => {
            let found = rows_with_id(s0.customers@, pid);
            if found.len() == 0 {
                is_message(r, STATUS_STORE_FAILURE, "Could not create customer"@)
                    && store_unchanged(s0, s1)
            } else if found.len() == 1 {
                &&& r.status == STATUS_OK
                &&& (r.body matches Body::Customer(c) && customer_eqv(c, found[0]))
                &&& s1.customers@ == s0.customers@
                &&& s1.next_id == s0.next_id
                &&& relation_appended(s0.relations@, s1.relations@, owner, pid)
            } else {
                is_message(r, STATUS_UNAUTHORIZED, "Unauthorized request"@) && store_unchanged(
                    s0,
                    s1,
                )
            }
        },
        Option::None => {
            let h = identity_hash_spec(post.ssn->0@, salt);
            if ssn_present(s0.customers@, h) {
                is_message(r, STATUS_STORE_FAILURE, "Could not create customer"@)
                    && store_unchanged(s0, s1)
            } else {
                &&& r.status == STATUS_OK
                &&& (r.body matches Body::Customer(c) && customer_eqv(c, s1.customers@.last()))
                &&& s1.customers@.len() == s0.customers@.len() + 1
                &&& s1.customers@.subrange(0, s0.customers@.len() as int) == s0.customers@
                &&& new_customer_fields(
                    s1.customers@.last(),
                    s0.next_id,
                    h,
                    post.first_name->0@,
                    post.last_name->0@,
                    post.email->0@,
                )
                &&& s1.next_id == s0.next_id + 1
                &&& relation_appended(s0.relations@, s1.relations@, owner, s0.next_id)
            }
        },
    }
}

/// What a partial update does to the store and what it answers: success
/// either way, with the supplied fields rewritten on the rows the statement
/// touches, and no write at all when nothing was supplied.
pub open spec fn update_effect(
    s0: CustomerStore,
    s1: CustomerStore,
    owner: Seq<char>,
    post: CustomerPost,
    r: ApiResponse,
) -> bool {
    &&& is_message(r, STATUS_OK, "Success"@)
    &&& s1.relations@ == s0.relations@
    &&& s1.next_id == s0.next_id
    &&& no_update_fields(post) ==> s1.customers@ == s0.customers@
    &&& s1.customers@.len() == s0.customers@.len()
    &&& forall|i: int|
        0 <= i < s0.customers@.len() ==> if (!no_update_fields(post) && s0.customers@[i].id
            == post_id_or_zero(post) && has_relation(
            s0.relations@,
            owner,
            post_id_or_zero(post),
        )) {
            applied_post_update(s1.customers@[i], s0.customers@[i], post)
        } else {
            s1.customers@[i] == s0.customers@[i]
        }
}

/// What a delete does to the store and what it answers: the owner's relation
/// rows for the id go first, then — exclusively-owned policy — the entity
/// rows go unconditionally.
pub open spec fn delete_effect(
    s0: CustomerStore,
    s1: CustomerStore,
    owner: Seq<char>,
    post: CustomerPost,
    r: ApiResponse,
) -> bool {
    &&& is_message(r, STATUS_OK, "Success"@)
    &&& s1.next_id == s0.next_id
    &&& s1.relations@ == relations_without(s0.relations@, owner, post_id_or_zero(post))
    &&& s1.customers@ == rows_without_id(s0.customers@, post_id_or_zero(post))
}

/// Filtering rows by id keeps every surviving row an element of the
/// original sequence, and preserves the uniqueness of ids and of hashed
/// natural identifiers.
proof fn lemma_rows_without_id_props(rows: Seq<CustomerRow>, id: i64)
    ensures
        ({
            let res = rows_without_id(rows, id);
            &&& forall|k: int| 0 <= k < res.len() ==> rows.contains(#[trigger] res[k])
            &&& (forall|a: int, b: int|
                0 <= a < b < rows.len() ==> rows[a].id != rows[b].id) ==> (forall|a: int, b: int|
                0 <= a < b < res.len() ==> res[a].id != res[b].id)
            &&& (forall|a: int, b: int|
                0 <= a < b < rows.len() ==> rows[a].ssn_hash@ != rows[b].ssn_hash@) ==> (forall|
                a: int,
                b: int,
            |
                0 <= a < b < res.len() ==> res[a].ssn_hash@ != res[b].ssn_hash@)
        }),
    decreases rows.len(),
{
    if rows.len() > 0 {
        let prefix = rows.drop_last();
        lemma_rows_without_id_props(prefix, id);
        let res_prefix = rows_without_id(prefix, id);
        let res = rows_without_id(rows, id);
        assert forall|k: int| 0 <= k < res_prefix.len() implies rows.contains(
            #[trigger] res_prefix[k],
        ) by {
            assert(prefix.contains(res_prefix[k]));
            let w = choose|w: int| 0 <= w < prefix.len() && prefix[w] == res_prefix[k];
            assert(rows[w] == res_prefix[k]);
        }
        if rows.last().id != id {
            assert(res == res_prefix + seq![rows.last()]);
            assert(rows.contains(rows.last())) by {
                assert(rows[rows.len() - 1] == rows.last());
            }
            if forall|a: int, b: int| 0 <= a < b < rows.len() ==> rows[a].id != rows[b].id {
                assert forall|a: int, b: int| 0 <= a < b < res.len() implies res[a].id
                    != res[b].id by {
                    if b == res.len() - 1 {
                        assert(res[b] == rows.last());
                        assert(prefix.contains(res[a]));
                        let w = choose|w: int| 0 <= w < prefix.len() && prefix[w] == res[a];
                        assert(rows[w].id != rows[rows.len() - 1].id);
                    }
                }
            }
            if forall|a: int, b: int|
                0 <= a < b < rows.len() ==> rows[a].ssn_hash@ != rows[b].ssn_hash@ {
                assert forall|a: int, b: int| 0 <= a < b < res.len() implies res[a].ssn_hash@
                    != res[b].ssn_hash@ by {
                    if b == res.len() - 1 {
                        assert(res[b] == rows.last());
                        assert(prefix.contains(res[a]));
                        let w = choose|w: int| 0 <= w < prefix.len() && prefix[w] == res[a];
                        assert(rows[w].ssn_hash@ != rows[rows.len() - 1].ssn_hash@);
                    }
                }
            }
        } else {
            assert(res =~= res_prefix);
        }
    }
}

proof fn lemma_rows_with_id_membership(rows: Seq<CustomerRow>, id: i64)
    ensures
        forall|k: int|
            0 <= k < rows_with_id(rows, id).len() ==> rows.contains(
                #[trigger] rows_with_id(rows, id)[k],
            ) && rows_with_id(rows, id)[k].id == id,
    decreases rows.len(),
{
    if rows.len() > 0 {
        let prefix = rows.drop_last();
        lemma_rows_with_id_membership(prefix, id);
        let res_prefix = rows_with_id(prefix, id);
        let res = rows_with_id(rows, id);
        assert forall|k: int| 0 <= k < res.len() implies rows.contains(#[trigger] res[k])
            && res[k].id == id by {
            if k < res_prefix.len() {
                assert(res[k] == res_prefix[k]);
                assert(prefix.contains(res_prefix[k]));
                let w = choose|w: int| 0 <= w < prefix.len() && prefix[w] == res_prefix[k];
                assert(rows[w] == res_prefix[k]);
            } else {
                assert(res[k] == rows.last());
                assert(rows[rows.len() - 1] == rows.last());
            }
        }
    }
}

proof fn lemma_claim_rows_membership(
    rows: Seq<CustomerRow>,
    rels: Seq<PartnerCustomer>,
    owner: Seq<char>,
    ssn_hash: Seq<char>,
    first: Seq<char>,
    last: Seq<char>,
)
    ensures
        forall|k: int|
            0 <= k < claim_rows(rows, rels, owner, ssn_hash, first, last).len() ==> rows.contains(
                #[trigger] claim_rows(rows, rels, owner, ssn_hash, first, last)[k],
            ) && claim_rows(rows, rels, owner, ssn_hash, first, last)[k].ssn_hash@ == ssn_hash,
    decreases rows.len(),
{
    if rows.len() > 0 {
        let prefix = rows.drop_last();
        lemma_claim_rows_membership(prefix, rels, owner, ssn_hash, first, last);
        let res_prefix = claim_rows(prefix, rels, owner, ssn_hash, first, last);
        let res = claim_rows(rows, rels, owner, ssn_hash, first, last);
        assert forall|k: int| 0 <= k < res.len() implies rows.contains(#[trigger] res[k])
            && res[k].ssn_hash@ == ssn_hash by {
            if k < res_prefix.len() {
                assert(res[k] == res_prefix[k]);
                assert(prefix.contains(res_prefix[k]));
                let w = choose|w: int| 0 <= w < prefix.len() && prefix[w] == res_prefix[k];
                assert(rows[w] == res_prefix[k]);
            } else {
                assert(res[k] == rows.last());
                assert(rows[rows.len() - 1] == rows.last());
            }
        }
    }
}

/// In a well-formed store a lookup by id matches at most one row: the
/// multi-row branch of the response mapping — the authorization failure —
/// is reachable only from corrupted data.
pub proof fn lemma_id_lookup_at_most_one(s: CustomerStore, owner: Seq<char>, id: i64)
    requires
        s.wf(),
    ensures
        owner_rows(s, owner, id).len() <= 1,
{
    lemma_rows_with_id_membership(s.customers@, id);
    let res = rows_with_id(s.customers@, id);
    if res.len() > 1 {
        let w0 = choose|w: int| 0 <= w < s.customers@.len() && s.customers@[w] == res[0];
        let w1 = choose|w: int| 0 <= w < s.customers@.len() && s.customers@[w] == res[1];
        assert(s.customers@[w0].id == id && s.customers@[w1].id == id);
        assert(false) by {
            lemma_rows_with_id_distinct_positions(s.customers@, id);
        }
    }
}

/// The filtered rows sit at strictly increasing positions of the original
/// sequence, so two distinct result entries come from two distinct rows.
proof fn lemma_rows_with_id_distinct_positions(rows: Seq<CustomerRow>, id: i64)
    requires
        forall|a: int, b: int| 0 <= a < b < rows.len() ==> rows[a].id != rows[b].id,
    ensures
        rows_with_id(rows, id).len() <= 1,
    decreases rows.len(),
{
    if rows.len() > 0 {
        let prefix = rows.drop_last();
        lemma_rows_with_id_distinct_positions(prefix, id);
        let res_prefix = rows_with_id(prefix, id);
        if rows.last().id == id && res_prefix.len() > 0 {
            lemma_rows_with_id_membership(prefix, id);
            assert(prefix.contains(res_prefix[0]));
            let w = choose|w: int| 0 <= w < prefix.len() && prefix[w] == res_prefix[0];
            assert(rows[w].id == rows[rows.len() - 1].id);
        }
    }
}

/// In a well-formed store the natural-key claim matches at most one row:
/// the hashed identifier is unique, so here too the multi-row branch is
/// reachable only from corrupted data.
pub proof fn lemma_claim_lookup_at_most_one(
    s: CustomerStore,
    owner: Seq<char>,
    ssn_hash: Seq<char>,
    first: Seq<char>,
    last: Seq<char>,
)
    requires
        s.wf(),
    ensures
        claim_rows(s.customers@, s.relations@, owner, ssn_hash, first, last).len() <= 1,
{
    lemma_claim_rows_at_most_one(s.customers@, s.relations@, owner, ssn_hash, first, last);
}

proof fn lemma_claim_rows_at_most_one(
    rows: Seq<CustomerRow>,
    rels: Seq<PartnerCustomer>,
    owner: Seq<char>,
    ssn_hash: Seq<char>,
    first: Seq<char>,
    last: Seq<char>,
)
    requires
        forall|a: int, b: int| 0 <= a < b < rows.len() ==> rows[a].ssn_hash@ != rows[b].ssn_hash@,
    ensures
        claim_rows(rows, rels, owner, ssn_hash, first, last).len() <= 1,
    decreases rows.len(),
{
    if rows.len() > 0 {
        let prefix = rows.drop_last();
        lemma_claim_rows_at_most_one(prefix, rels, owner, ssn_hash, first, last);
        let res_prefix = claim_rows(prefix, rels, owner, ssn_hash, first, last);
        if claim_row_matches(rows.last(), rels, owner, ssn_hash, first, last) && res_prefix.len()
            > 0 {
            lemma_claim_rows_membership(prefix, rels, owner, ssn_hash, first, last);
            assert(prefix.contains(res_prefix[0]));
            let w = choose|w: int| 0 <= w < prefix.len() && prefix[w] == res_prefix[0];
            assert(rows[w].ssn_hash@ == rows[rows.len() - 1].ssn_hash@);
        }
    }
}

/// Handle a GET: a single-entity lookup by the id query parameter, scoped to
/// the caller's ownership. A missing or malformed parameter reads as id
/// zero, which matches no stored row.
pub fn customer_get(store: &CustomerStore, owner: &str, id_param: &str) -> (r: ApiResponse)
    ensures
        lookup_response_matches(
            owner_rows(*store, owner@, parse_i64_or_zero_spec(id_param@) as i64),
            r,
        ),
{
    let uid = parse_i64_or_zero(id_param);
    let rows = store.get_for_owner(owner, uid);
    lookup_response(&rows)
}

/// Handle the natural-key claim lookup: hashed identifier plus the two
/// corroborating name fields, scoped to the caller's ownership.
pub fn customer_claim(store: &CustomerStore, owner: &str, salt: &str, post: &CustomerPost) -> (r:
    ApiResponse)
    requires
        post.ssn is Some,
        post.first_name is Some,
        post.last_name is Some,
    ensures
        lookup_response_matches(
            claim_rows(
                store.customers@,
                store.relations@,
                owner@,
                identity_hash_spec(post.ssn->0@, salt@),
                post.first_name->0@,
                post.last_name->0@,
            ),
            r,
        ),
{
    let h = hash_ssn(post.ssn.as_ref().unwrap().as_str(), salt);
    let rows = store.get_by_claim(
        owner,
        h.as_str(),
        post.first_name.as_ref().unwrap().as_str(),
        post.last_name.as_ref().unwrap().as_str(),
    );
    lookup_response(&rows)
}

/// Handle an add: resolve or insert the entity row, then bind it to the
/// acting owner. Both writes belong to one transaction boundary, so the
/// model applies them together or not at all.
pub fn customer_add(store: &mut CustomerStore, owner: &str, salt: &str, post: &CustomerPost) -> (r:
    ApiResponse)
    requires
        old(store).wf(),
        old(store).next_id < i64::MAX,
        post.id is None ==> post.ssn is Some && post.first_name is Some && post.last_name is Some
            && post.email is Some,
    ensures
        final(store).wf(),
        add_effect(*old(store), *final(store), owner@, salt@, *post, r),
{
    match &post.id {
        Option::Some(pid) => {
            let found = store.get_by_id(*pid);
            if found.len() == 0 {
                message_response(STATUS_STORE_FAILURE, "Could not create customer")
            } else if found.len() == 1 {
                let row = found[0].clone();
                store.add_relation(owner, *pid);
                ApiResponse { status: STATUS_OK, body: Body::Customer(row) }
            } else {
                message_response(STATUS_UNAUTHORIZED, "Unauthorized request")
            }
        },
        Option::None => {
            let h = hash_ssn(post.ssn.as_ref().unwrap().as_str(), salt);
            let inserted = store.insert(
                h,
                post.first_name.as_ref().unwrap().clone(),
                post.last_name.as_ref().unwrap().clone(),
                post.email.as_ref().unwrap().clone(),
            );
            match inserted {
                Option::Some(c) => {
                    let id = c.id;
                    store.add_relation(owner, id);
                    ApiResponse { status: STATUS_OK, body: Body::Customer(c) }
                },
                Option::None => message_response(
                    STATUS_STORE_FAILURE,
                    "Could not create customer",
                ),
            }
        },
    }
}

/// Handle a partial update: build the statement for the supplied fields and
/// apply it, or short-circuit to success when nothing was supplied.
pub fn customer_update(store: &mut CustomerStore, owner: &str, post: &CustomerPost) -> (r:
    ApiResponse)
    requires
        old(store).wf(),
    ensures
        final(store).wf(),
        update_effect(*old(store), *final(store), owner@, *post, r),
{
    let u = FieldUpdates {
        first_name: match &post.first_name {
            Option::Some(s) => Option::Some(s.clone()),
            Option::None => Option::None,
        },
        last_name: match &post.last_name {
            Option::Some(s) => Option::Some(s.clone()),
            Option::None => Option::None,
        },
        email: match &post.email {
            Option::Some(s) => Option::Some(s.clone()),
            Option::None => Option::None,
        },
    };
    let statement = build_update(EntityKind::Customer, &u);
    match statement {
        Option::None => message_response(STATUS_OK, "Success"),
        Option::Some(_) => {
            let id = match &post.id {
                Option::Some(v) => *v,
                Option::None => 0,
            };
            store.apply_update(id, owner, &u);
            message_response(STATUS_OK, "Success")
        },
    }
}

/// Handle a delete: remove the owner's relation rows for the id, then —
/// exclusively-owned policy — the entity rows, unconditionally.
pub fn customer_delete(store: &mut CustomerStore, owner: &str, post: &CustomerPost) -> (r:
    ApiResponse)
    requires
        old(store).wf(),
    ensures
        final(store).wf(),
        delete_effect(*old(store), *final(store), owner@, *post, r),
{
    let id = match &post.id {
        Option::Some(v) => *v,
        Option::None => 0,
    };
    store.delete_relation(owner, id);
    store.delete_customer(id);
    message_response(STATUS_OK, "Success")
}

/// What a POST does, by the operation name in its body. A missing or
/// undecodable body, and an operation whose required fields are absent, are
/// client errors that touch nothing; an unknown operation name is
/// unsupported.
pub open spec fn post_effect(
    s0: CustomerStore,
    s1: CustomerStore,
    owner: Seq<char>,
    salt: Seq<char>,
    body: ParsedBody<CustomerPost>,
    r: ApiResponse,
) -> bool {
    match body {
        ParsedBody::Missing => is_message(r, STATUS_UNAUTHORIZED, "No data supplied"@)
            && store_unchanged(s0, s1),
        ParsedBody::Malformed => is_message(r, STATUS_UNAUTHORIZED, "Invalid data"@)
            && store_unchanged(s0, s1),
        ParsedBody::Valid(post) => {
            if post.method@ == "get"@ {
                if post.ssn is Some && post.first_name is Some && post.last_name is Some {
                    store_unchanged(s0, s1) && lookup_response_matches(
                        claim_rows(
                            s0.customers@,
                            s0.relations@,
                            owner,
                            identity_hash_spec(post.ssn->0@, salt),
                            post.first_name->0@,
                            post.last_name->0@,
                        ),
                        r,
                    )
                } else {
                    is_message(r, STATUS_UNAUTHORIZED, "Invalid data"@) && store_unchanged(s0, s1)
                }
            } else if post.method@ == "add"@ {
                if post.id is Some || (post.ssn is Some && post.first_name is Some
                    && post.last_name is Some && post.email is Some) {
                    add_effect(s0, s1, owner, salt, post, r)
                } else {
                    is_message(r, STATUS_UNAUTHORIZED, "Invalid data"@) && store_unchanged(s0, s1)
                }
            } else if post.method@ == "update"@ {
                update_effect(s0, s1, owner, post, r)
            } else if post.method@ == "delete"@ {
                delete_effect(s0, s1, owner, post, r)
            } else {
                is_message(r, STATUS_METHOD_NOT_ALLOWED, "Unsupported method"@) && store_unchanged(
                    s0,
                    s1,
                )
            }
        },
    }
}

/// Dispatch a POST by the operation name in its body.
pub fn customer_post(
    store: &mut CustomerStore,
    owner: &str,
    salt: &str,
    body: &ParsedBody<CustomerPost>,
) -> (r: ApiResponse)
    requires
        old(store).wf(),
        old(store).next_id < i64::MAX,
    ensures
        final(store).wf(),
        post_effect(*old(store), *final(store), owner@, salt@, *body, r),
{
    match body {
        ParsedBody::Missing => message_response(STATUS_UNAUTHORIZED, "No data supplied"),
        ParsedBody::Malformed => message_response(STATUS_UNAUTHORIZED, "Invalid data"),
        ParsedBody::Valid(post) => {
            if str_eq(post.method.as_str(), "get") {
                if post.ssn.is_some() && post.first_name.is_some() && post.last_name.is_some() {
                    customer_claim(store, owner, salt, post)
                } else {
                    message_response(STATUS_UNAUTHORIZED, "Invalid data")
                }
            } else if str_eq(post.method.as_str(), "add") {
                if post.id.is_some() || (post.ssn.is_some() && post.first_name.is_some()
                    && post.last_name.is_some() && post.email.is_some()) {
                    customer_add(store, owner, salt, post)
                } else {
                    message_response(STATUS_UNAUTHORIZED, "Invalid data")
                }
            } else if str_eq(post.method.as_str(), "update") {
                customer_update(store, owner, post)
            } else if str_eq(post.method.as_str(), "delete") {
                customer_delete(store, owner, post)
            } else {
                message_response(STATUS_METHOD_NOT_ALLOWED, "Unsupported method")
            }
        },
    }
}

/// What a whole request does: GET reads, POST dispatches by operation name,
/// anything else is not allowed and touches nothing.
pub open spec fn request_effect(
    s0: CustomerStore,
    s1: CustomerStore,
    method: HttpMethod,
    owner: Seq<char>,
    salt: Seq<char>,
    id_param: Seq<char>,
    body: ParsedBody<CustomerPost>,
    r: ApiResponse,
) -> bool {
    match method {
        HttpMethod::Get => store_unchanged(s0, s1) && lookup_response_matches(
            owner_rows(s0, owner, parse_i64_or_zero_spec(id_param) as i64),
            r,
        ),
        HttpMethod::Post => post_effect(s0, s1, owner, salt, body, r),
        HttpMethod::Other => is_message(r, STATUS_METHOD_NOT_ALLOWED, "Method not allowed"@)
            && store_unchanged(s0, s1),
    }
}

/// Handle one inbound request against the store.
pub fn handle_customer_request(
    store: &mut CustomerStore,
    method: HttpMethod,
    owner: &str,
    salt: &str,
    id_param: &str,
    body: &ParsedBody<CustomerPost>,
) -> (r: ApiResponse)
    requires
        old(store).wf(),
        old(store).next_id < i64::MAX,
    ensures
        final(store).wf(),
        request_effect(
            *old(store),
            *final(store),
            method,
            owner@,
            salt@,
            id_param@,
            *body,
            r,
        ),
{
    match method {
        HttpMethod::Get => customer_get(store, owner, id_param),
        HttpMethod::Post => customer_post(store, owner, salt, body),
        HttpMethod::Other => message_response(STATUS_METHOD_NOT_ALLOWED, "Method not allowed"),
    }
}

} // verus!
