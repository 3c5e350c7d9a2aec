//! The user side: an executable model of the store the handler mutates, the
//! repository operations over it, and the request dispatcher with its
//! response mapping.
//!
//! Ownership policy for this entity kind: a user row may be shared between
//! owners, so a delete removes the entity row only when no ownership
//! relation still references it.

use vstd::prelude::*;
use vstd::string::*;
use crate::hashing::{gen_user_id, identity_hash_spec};
use crate::records::{profile_of, user_rows_eqv, CustomerUser, UserProfile, UserRow};
use crate::request::{HttpMethod, ParsedBody, UserPost};
use crate::response::{
    is_message, message_response, ApiResponse, Body, STATUS_METHOD_NOT_ALLOWED, STATUS_OK,
    STATUS_UNAUTHORIZED,
};
use crate::text::str_eq;
use crate::update_sql::{build_update, EntityKind, FieldUpdates};

verus! {

/// The user table and its ownership relation.
pub struct UserStore {
    pub users: Vec<UserRow>,
    pub relations: Vec<CustomerUser>,
}

/// An ownership-relation row pairs this owner with this user id.
pub open spec fn has_user_relation(
    rels: Seq<CustomerUser>,
    owner: Seq<char>,
    uid: Seq<char>,
) -> bool {
    exists|j: int|
        0 <= j < rels.len() && rels[j].customer_id@ == owner && rels[j].user_id@ == uid
}

/// Some ownership-relation row, whoever the owner, references this user id.
pub open spec fn any_user_relation(rels: Seq<CustomerUser>, uid: Seq<char>) -> bool {
    exists|j: int| 0 <= j < rels.len() && rels[j].user_id@ == uid
}

/// The rows carrying this id, in store order.
pub open spec fn rows_with_uid(rows: Seq<UserRow>, uid: Seq<char>) -> Seq<UserRow>
    decreases rows.len(),
{
    if rows.len() == 0 {
        Seq::empty()
    } else {
        rows_with_uid(rows.drop_last(), uid) + (if rows.last().id@ == uid {
            seq![rows.last()]
        } else {
            Seq::empty()
        })
    }
}

/// The rows not carrying this id, in store order.
pub open spec fn rows_without_uid(rows: Seq<UserRow>, uid: Seq<char>) -> Seq<UserRow>
    decreases rows.len(),
{
    if rows.len() == 0 {
        Seq::empty()
    } else {
        rows_without_uid(rows.drop_last(), uid) + (if rows.last().id@ != uid {
            seq![rows.last()]
        } else {
            Seq::empty()
        })
    }
}

/// The relation rows that survive deleting the pair (owner, uid).
pub open spec fn user_relations_without(
    rels: Seq<CustomerUser>,
    owner: Seq<char>,
    uid: Seq<char>,
) -> Seq<CustomerUser>
    decreases rels.len(),
{
    if rels.len() == 0 {
        Seq::empty()
    } else {
        user_relations_without(rels.drop_last(), owner, uid) + (if !(rels.last().customer_id@
            == owner && rels.last().user_id@ == uid) {
            seq![rels.last()]
        } else {
            Seq::empty()
        })
    }
}

/// What a lookup scoped to an owner yields: the rows with the id when the
/// ownership relation holds, nothing otherwise.
pub open spec fn owner_user_rows(s: UserStore, owner: Seq<char>, uid: Seq<char>) -> Seq<UserRow> {
    if has_user_relation(s.relations@, owner, uid) {
        rows_with_uid(s.users@, uid)
    } else {
        Seq::empty()
    }
}

/// Some row already carries this id.
pub open spec fn user_id_present(rows: Seq<UserRow>, uid: Seq<char>) -> bool {
    exists|i: int| 0 <= i < rows.len() && rows[i].id@ == uid
}

impl UserStore {
    /// The store invariant the relational constraints would enforce: the
    /// derived id is unique across rows.
    pub open spec fn wf(self) -> bool {
        forall|i: int, j: int|
            0 <= i < j < self.users@.len() ==> self.users@[i].id@ != self.users@[j].id@
    }

    /// An empty store.
    pub fn new() -> (s: UserStore)
        ensures
            s.wf(),
            s.users@.len() == 0,
            s.relations@.len() == 0,
    {
        UserStore { users: Vec::new(), relations: Vec::new() }
    }

    /// The ownership relation holds for this owner and id.
    pub fn owns(&self, owner: &str, uid: &str) -> (b: bool)
        ensures
            b == has_user_relation(self.relations@, owner@, uid@),
    {
        let n = self.relations.len();
        let mut i: usize = 0;
        while i < n
            invariant
                i <= n,
                n == self.relations@.len(),
                forall|j: int|
                    0 <= j < i ==> !(self.relations@[j].customer_id@ == owner@
                        && self.relations@[j].user_id@ == uid@),
            decreases n - i,
        {
            if str_eq(self.relations[i].customer_id.as_str(), owner) && str_eq(
                self.relations[i].user_id.as_str(),
                uid,
            ) {
                return true;
            }
            i = i + 1;
        }
        false
    }

    /// Some ownership-relation row still references this user id.
    pub fn any_owner_left(&self, uid: &str) -> (b: bool)
        ensures
            b == any_user_relation(self.relations@, uid@),
    {
        let n = self.relations.len();
        let mut i: usize = 0;
        while i < n
            invariant
                i <= n,
                n == self.relations@.len(),
                forall|j: int| 0 <= j < i ==> self.relations@[j].user_id@ != uid@,
            decreases n - i,
        {
            if str_eq(self.relations[i].user_id.as_str(), uid) {
                return true;
            }
            i = i + 1;
        }
        false
    }

    /// Some row already carries this id.
    pub fn id_exists(&self, uid: &str) -> (b: bool)
        ensures
            b == user_id_present(self.users@, uid@),
    {
        let n = self.users.len();
        let mut i: usize = 0;
        while i < n
            invariant
                i <= n,
                n == self.users@.len(),
                forall|j: int| 0 <= j < i ==> self.users@[j].id@ != uid@,
            decreases n - i,
        {
            if str_eq(self.users[i].id.as_str(), uid) {
                return true;
            }
            i = i + 1;
        }
        false
    }

    /// Fetch the rows with this id that the acting owner may see: the join
    /// against the ownership relation.
    pub fn get_for_owner(&self, owner: &str, uid: &str) -> (r: Vec<UserRow>)
        ensures
            user_rows_eqv(r@, owner_user_rows(*self, owner@, uid@)),
    {
        if !self.owns(owner, uid) {
            return Vec::new();
        }
        let mut out: Vec<UserRow> = Vec::new();
        let n = self.users.len();
        let mut i: usize = 0;
        proof {
            assert(self.users@.subrange(0, 0) =~= Seq::<UserRow>::empty());
        }
        while i < n
            invariant
                i <= n,
                n == self.users@.len(),
                user_rows_eqv(out@, rows_with_uid(self.users@.subrange(0, i as int), uid@)),
            decreases n - i,
        {
            proof {
                let sub1 = self.users@.subrange(0, i + 1);
                assert(sub1.drop_last() =~= self.users@.subrange(0, i as int));
                assert(sub1.last() == self.users@[i as int]);
            }
            if str_eq(self.users[i].id.as_str(), uid) {
                out.push(self.users[i].clone());
            }
            i = i + 1;
        }
        proof {
            assert(self.users@.subrange(0, n as int) =~= self.users@);
        }
        out
    }

    /// Insert a row under its derived id, with conflict semantics: when some
    /// row already carries the id, nothing is written and the insert still
    /// counts as done.
    pub fn insert(&mut self, uid: String, first_name: String, last_name: String, email: String)
        requires
            old(self).wf(),
        ensures
            final(self).wf(),
            final(self).relations@ == old(self).relations@,
            user_id_present(old(self).users@, uid@) ==> final(self).users@ == old(self).users@,
            !user_id_present(old(self).users@, uid@) ==> {
                &&& final(self).users@.len() == old(self).users@.len() + 1
                &&& final(self).users@.subrange(0, old(self).users@.len() as int) == old(
                    self,
                ).users@
                &&& new_user_fields(final(self).users@.last(), uid@, first_name@, last_name@, email@)
            },
    {
        if self.id_exists(uid.as_str()) {
            return ;
        }
        let row = UserRow { id: uid, first_name, last_name, email, conditions: Vec::new() };
        proof {
            assert(forall|i: int|
                0 <= i < self.users@.len() ==> self.users@[i].id@ != row.id@);
        }
        self.users.push(row);
    }

    /// Record that this owner may access this user id.
    pub fn add_relation(&mut self, owner: &str, uid: &str)
        ensures
            final(self).users@ == old(self).users@,
            final(self).relations@.len() == old(self).relations@.len() + 1,
            final(self).relations@.subrange(0, old(self).relations@.len() as int) == old(
                self,
            ).relations@,
            final(self).relations@.last().customer_id@ == owner@,
            final(self).relations@.last().user_id@ == uid@,
            old(self).wf() ==> final(self).wf(),
    {
        let rel = CustomerUser {
            customer_id: String::from_str(owner),
            user_id: String::from_str(uid),
        };
        self.relations.push(rel);
    }

    /// Remove every relation row pairing this owner with this user id.
    pub fn delete_relation(&mut self, owner: &str, uid: &str)
        ensures
            final(self).users@ == old(self).users@,
            final(self).relations@ == user_relations_without(old(self).relations@, owner@, uid@),
            old(self).wf() ==> final(self).wf(),
    {
        let ghost orig = self.relations@;
        let ghost users0 = self.users@;
        let mut kept: Vec<CustomerUser> = Vec::new();
        while self.relations.len() > 0
            invariant
                self.users@ == users0,
                user_relations_without(orig, owner@, uid@) =~= user_relations_without(
                    self.relations@,
                    owner@,
                    uid@,
                ) + kept@.reverse(),
            decreases self.relations@.len(),
        {
            let ghost before = self.relations@;
            let rel = self.relations.pop().unwrap();
            proof {
                assert(before.drop_last() =~= self.relations@);
                assert(before.last() == rel);
            }
            if str_eq(rel.customer_id.as_str(), owner) && str_eq(rel.user_id.as_str(), uid) {
                proof {
                    assert(user_relations_without(before, owner@, uid@)
                        =~= user_relations_without(self.relations@, owner@, uid@));
                }
            } else {
                let ghost kept_before = kept@;
                kept.push(rel);
                proof {
                    assert(kept@.reverse() =~= seq![rel] + kept_before.reverse());
                    assert(user_relations_without(before, owner@, uid@)
                        =~= user_relations_without(self.relations@, owner@, uid@) + seq![rel]);
                    assert(user_relations_without(self.relations@, owner@, uid@) + seq![rel]
                        + kept_before.reverse() =~= user_relations_without(
                        self.relations@,
                        owner@,
                        uid@,
                    ) + kept@.reverse());
                }
            }
        }
        while kept.len() > 0
            invariant
                self.users@ == users0,
                user_relations_without(orig, owner@, uid@) =~= self.relations@ + kept@.reverse(),
            decreases kept@.len(),
        {
            let ghost kept_before = kept@;
            let rel = kept.pop().unwrap();
            proof {
                assert(kept_before.reverse()[0] == rel);
                assert(kept@.reverse() =~= kept_before.reverse().drop_first());
                assert(self.relations@.push(rel) + kept@.reverse() =~= self.relations@
                    + kept_before.reverse());
            }
            self.relations.push(rel);
        }
        proof {
            assert(user_relations_without(orig, owner@, uid@) =~= self.relations@);
        }
    }

    /// Remove every user row carrying this id, but only when no ownership
    /// relation still references it: shared entities survive as long as one
    /// owner remains.
    pub fn delete_user_if_orphaned(&mut self, uid: &str)
        requires
            old(self).wf(),
        ensures
            final(self).wf(),
            final(self).relations@ == old(self).relations@,
            any_user_relation(old(self).relations@, uid@) ==> final(self).users@ == old(
                self,
            ).users@,
            !any_user_relation(old(self).relations@, uid@) ==> final(self).users@
                == rows_without_uid(old(self).users@, uid@),
    {
        if self.any_owner_left(uid) {
            return ;
        }
        let ghost orig = self.users@;
        let ghost rels0 = self.relations@;
        let mut kept: Vec<UserRow> = Vec::new();
        while self.users.len() > 0
            invariant
                self.relations@ == rels0,
                rows_without_uid(orig, uid@) =~= rows_without_uid(self.users@, uid@)
                    + kept@.reverse(),
            decreases self.users@.len(),
        {
            let ghost before = self.users@;
            let row = self.users.pop().unwrap();
            proof {
                assert(before.drop_last() =~= self.users@);
                assert(before.last() == row);
            }
            if str_eq(row.id.as_str(), uid) {
                proof {
                    assert(rows_without_uid(before, uid@) =~= rows_without_uid(self.users@, uid@));
                }
            } else {
                let ghost kept_before = kept@;
                kept.push(row);
                proof {
                    assert(kept@.reverse() =~= seq![row] + kept_before.reverse());
                    assert(rows_without_uid(before, uid@) =~= rows_without_uid(self.users@, uid@)
                        + seq![row]);
                    assert(rows_without_uid(self.users@, uid@) + seq![row]
                        + kept_before.reverse() =~= rows_without_uid(self.users@, uid@)
                        + kept@.reverse());
                }
            }
        }
        while kept.len() > 0
            invariant
                self.relations@ == rels0,
                rows_without_uid(orig, uid@) =~= self.users@ + kept@.reverse(),
            decreases kept@.len(),
        {
            let ghost kept_before = kept@;
            let row = kept.pop().unwrap();
            proof {
                assert(kept_before.reverse()[0] == row);
                assert(kept@.reverse() =~= kept_before.reverse().drop_first());
                assert(self.users@.push(row) + kept@.reverse() =~= self.users@
                    + kept_before.reverse());
            }
            self.users.push(row);
        }
        proof {
            assert(rows_without_uid(orig, uid@) =~= self.users@);
            lemma_rows_without_uid_props(orig, uid@);
        }
    }

    /// Apply the partial update to every row the statement would touch: the
    /// rows with this id, provided the acting owner's relation exists.
    pub fn apply_update(&mut self, uid: &str, owner: &str, u: &FieldUpdates)
        requires
            old(self).wf(),
        ensures
            final(self).wf(),
            final(self).relations@ == old(self).relations@,
            final(self).users@.len() == old(self).users@.len(),
            forall|i: int|
                0 <= i < old(self).users@.len() ==> if (old(self).users@[i].id@ == uid@
                    && has_user_relation(old(self).relations@, owner@, uid@)) {
                    applied_user_update(final(self).users@[i], old(self).users@[i], *u)
                } else {
                    final(self).users@[i] == old(self).users@[i]
                },
    {
        if !self.owns(owner, uid) {
            return ;
        }
        let ghost orig = self.users@;
        let n = self.users.len();
        let mut i: usize = 0;
        while i < n
            invariant
                i <= n,
                n == orig.len(),
                self.users@.len() == orig.len(),
                self.relations@ == old(self).relations@,
                orig == old(self).users@,
                has_user_relation(old(self).relations@, owner@, uid@),
                forall|j: int|
                    0 <= j < i ==> if orig[j].id@ == uid@ {
                        applied_user_update(self.users@[j], orig[j], *u)
                    } else {
                        self.users@[j] == orig[j]
                    },
                forall|j: int| i <= j < n ==> self.users@[j] == orig[j],
            decreases n - i,
        {
            if str_eq(self.users[i].id.as_str(), uid) {
                let row = &self.users[i];
                let updated = UserRow {
                    id: row.id.clone(),
                    first_name: match &u.first_name {
                        Option::Some(s) => s.clone(),
                        Option::None => row.first_name.clone(),
                    },
                    last_name: match &u.last_name {
                        Option::Some(s) => s.clone(),
                        Option::None => row.last_name.clone(),
                    },
                    email: match &u.email {
                        Option::Some(s) => s.clone(),
                        Option::None => row.email.clone(),
                    },
                    conditions: clone_flags(&row.conditions),
                };
                self.users.set(i, updated);
            }
            i = i + 1;
        }
        proof {
            assert forall|a: int, b: int|
                0 <= a < b < self.users@.len() implies self.users@[a].id@
                != self.users@[b].id@ by {
                assert(self.users@[a].id@ == orig[a].id@);
                assert(self.users@[b].id@ == orig[b].id@);
            }
        }
    }
}

/// The fields a freshly inserted user row carries.
pub open spec fn new_user_fields(
    r: UserRow,
    uid: Seq<char>,
    first: Seq<char>,
    last: Seq<char>,
    email: Seq<char>,
) -> bool {
    &&& r.id@ == uid
    &&& r.first_name@ == first
    &&& r.last_name@ == last
    &&& r.email@ == email
    &&& r.conditions@ == Seq::<bool>::empty()
}

/// How an updated row relates to the row it replaces: the supplied fields
/// take their new values, everything else is untouched.
pub open spec fn applied_user_update(new: UserRow, prev: UserRow, u: FieldUpdates) -> bool {
    &&& new.id@ == prev.id@
    &&& new.first_name@ == (match u.first_name {
        Option::Some(s) => s@,
        Option::None => prev.first_name@,
    })
    &&& new.last_name@ == (match u.last_name {
        Option::Some(s) => s@,
        Option::None => prev.last_name@,
    })
    &&& new.email@ == (match u.email {
        Option::Some(s) => s@,
        Option::None => prev.email@,
    })
    &&& new.conditions@ == prev.conditions@
}

/// Clone the acknowledgement flags of a row.
fn clone_flags(v: &Vec<bool>) -> (r: Vec<bool>)
    ensures
        r@ == v@,
{
    let r = v.clone();
    proof {
        crate::records::lemma_cloned_bools(v@, r@);
    }
    r
}

/// Filtering rows by id keeps every surviving row an element of the
/// original sequence, and preserves the uniqueness of ids.
proof fn lemma_rows_without_uid_props(rows: Seq<UserRow>, uid: Seq<char>)
    ensures
        ({
            let res = rows_without_uid(rows, uid);
            &&& forall|k: int| 0 <= k < res.len() ==> rows.contains(#[trigger] res[k])
            &&& (forall|a: int, b: int|
                0 <= a < b < rows.len() ==> rows[a].id@ != rows[b].id@) ==> (forall|a: int, b: int|
                0 <= a < b < res.len() ==> res[a].id@ != res[b].id@)
        }),
    decreases rows.len(),
{
    if rows.len() > 0 {
        let prefix = rows.drop_last();
        lemma_rows_without_uid_props(prefix, uid);
        let res_prefix = rows_without_uid(prefix, uid);
        let res = rows_without_uid(rows, uid);
        assert forall|k: int| 0 <= k < res_prefix.len() implies rows.contains(
            #[trigger] res_prefix[k],
        ) by {
            assert(prefix.contains(res_prefix[k]));
            let w = choose|w: int| 0 <= w < prefix.len() && prefix[w] == res_prefix[k];
            assert(rows[w] == res_prefix[k]);
        }
        if rows.last().id@ != uid {
            assert(res == res_prefix + seq![rows.last()]);
            assert(rows.contains(rows.last())) by {
                assert(rows[rows.len() - 1] == rows.last());
            }
            if forall|a: int, b: int| 0 <= a < b < rows.len() ==> rows[a].id@ != rows[b].id@ {
                assert forall|a: int, b: int| 0 <= a < b < res.len() implies res[a].id@
                    != res[b].id@ by {
                    if b == res.len() - 1 {
                        assert(res[b] == rows.last());
                        assert(prefix.contains(res[a]));
                        let w = choose|w: int| 0 <= w < prefix.len() && prefix[w] == res[a];
                        assert(rows[w].id@ != rows[rows.len() - 1].id@);
                    }
                }
            }
        } else {
            assert(res =~= res_prefix);
        }
    }
}

/// A sequence none of whose rows carries the id filters to nothing.
proof fn lemma_rows_with_uid_absent(rows: Seq<UserRow>, uid: Seq<char>)
    requires
        forall|i: int| 0 <= i < rows.len() ==> rows[i].id@ != uid,
    ensures
        rows_with_uid(rows, uid) == Seq::<UserRow>::empty(),
    decreases rows.len(),
{
    if rows.len() > 0 {
        lemma_rows_with_uid_absent(rows.drop_last(), uid);
        assert(rows_with_uid(rows, uid) =~= Seq::<UserRow>::empty());
    }
}

/// No row that survives filtering by an id still carries that id.
proof fn lemma_rows_without_uid_no_match(rows: Seq<UserRow>, uid: Seq<char>)
    ensures
        forall|k: int|
            0 <= k < rows_without_uid(rows, uid).len() ==> #[trigger] rows_without_uid(
                rows,
                uid,
            )[k].id@ != uid,
    decreases rows.len(),
{
    if rows.len() > 0 {
        lemma_rows_without_uid_no_match(rows.drop_last(), uid);
        let res_prefix = rows_without_uid(rows.drop_last(), uid);
        let res = rows_without_uid(rows, uid);
        assert forall|k: int| 0 <= k < res.len() implies #[trigger] res[k].id@ != uid by {
            if k < res_prefix.len() {
                assert(res[k] == res_prefix[k]);
            } else {
                assert(res[k] == rows.last());
            }
        }
    }
}

/// What deleting a relation pair keeps: exactly the rows that do not match
/// the pair — every survivor comes from the original sequence and misses
/// the pair, and every original row that misses the pair survives.
proof fn lemma_user_relations_without_props(rels: Seq<CustomerUser>, owner: Seq<char>, uid: Seq<char>)
    ensures
        ({
            let res = user_relations_without(rels, owner, uid);
            &&& forall|k: int|
                0 <= k < res.len() ==> rels.contains(#[trigger] res[k]) && !(res[k].customer_id@
                    == owner && res[k].user_id@ == uid)
            &&& forall|j: int|
                (0 <= j < rels.len() && !(rels[j].customer_id@ == owner && rels[j].user_id@
                    == uid)) ==> res.contains(#[trigger] rels[j])
        }),
    decreases rels.len(),
{
    if rels.len() > 0 {
        let prefix = rels.drop_last();
        lemma_user_relations_without_props(prefix, owner, uid);
        let res_prefix = user_relations_without(prefix, owner, uid);
        let res = user_relations_without(rels, owner, uid);
        assert forall|k: int| 0 <= k < res_prefix.len() implies rels.contains(
            #[trigger] res_prefix[k],
        ) by {
            assert(prefix.contains(res_prefix[k]));
            let w = choose|w: int| 0 <= w < prefix.len() && prefix[w] == res_prefix[k];
            assert(rels[w] == res_prefix[k]);
        }
        assert forall|j: int|
            (0 <= j < rels.len() && !(rels[j].customer_id@ == owner && rels[j].user_id@
                == uid)) implies res.contains(#[trigger] rels[j]) by {
            if j < rels.len() - 1 {
                assert(prefix[j] == rels[j]);
                assert(res_prefix.contains(rels[j]));
                let w = choose|w: int| 0 <= w < res_prefix.len() && res_prefix[w] == rels[j];
                assert(res[w] == rels[j]);
            } else {
                assert(rels[j] == rels.last());
                assert(res == res_prefix + seq![rels.last()]);
                assert(res[res.len() - 1] == rels[j]);
            }
        }
    }
}

proof fn lemma_rows_with_uid_membership(rows: Seq<UserRow>, uid: Seq<char>)
    ensures
        forall|k: int|
            0 <= k < rows_with_uid(rows, uid).len() ==> rows.contains(
                #[trigger] rows_with_uid(rows, uid)[k],
            ) && rows_with_uid(rows, uid)[k].id@ == uid,
    decreases rows.len(),
{
    if rows.len() > 0 {
        let prefix = rows.drop_last();
        lemma_rows_with_uid_membership(prefix, uid);
        let res_prefix = rows_with_uid(prefix, uid);
        let res = rows_with_uid(rows, uid);
        assert forall|k: int| 0 <= k < res.len() implies rows.contains(#[trigger] res[k])
            && res[k].id@ == uid by {
            if k < res_prefix.len() {
                assert(res[k] == res_prefix[k]);
                assert(prefix.contains(res_prefix[k]));
                let w = choose|w: int| 0 <= w < prefix.len() && prefix[w] == res_prefix[k];
                assert(rows[w] == res_prefix[k]);
            } else {
                assert(res[k] == rows.last());
                assert(rows[rows.len() - 1] == rows.last());
            }
        }
    }
}

proof fn lemma_rows_with_uid_at_most_one(rows: Seq<UserRow>, uid: Seq<char>)
    requires
        forall|a: int, b: int| 0 <= a < b < rows.len() ==> rows[a].id@ != rows[b].id@,
    ensures
        rows_with_uid(rows, uid).len() <= 1,
    decreases rows.len(),
{
    if rows.len() > 0 {
        let prefix = rows.drop_last();
        lemma_rows_with_uid_at_most_one(prefix, uid);
        let res_prefix = rows_with_uid(prefix, uid);
        if rows.last().id@ == uid && res_prefix.len() > 0 {
            lemma_rows_with_uid_membership(prefix, uid);
            assert(prefix.contains(res_prefix[0]));
            let w = choose|w: int| 0 <= w < prefix.len() && prefix[w] == res_prefix[0];
            assert(rows[w].id@ == rows[rows.len() - 1].id@);
        }
    }
}

/// In a well-formed store a lookup by the derived id matches at most one
/// row: the multi-row branch of the response mapping — the authorization
/// failure — is reachable only from corrupted data.
pub proof fn lemma_uid_lookup_at_most_one(s: UserStore, owner: Seq<char>, uid: Seq<char>)
    requires
        s.wf(),
    ensures
        owner_user_rows(s, owner, uid).len() <= 1,
{
    lemma_rows_with_uid_at_most_one(s.users@, uid);
}

/// Adding a user and then fetching it through the owner's relation returns
/// exactly the fields that were written, provided the derived id was fresh:
/// the lookup finds the one new row, bound to the acting owner.
pub proof fn lemma_add_then_get(
    s0: UserStore,
    s1: UserStore,
    owner: Seq<char>,
    salt: Seq<char>,
    post: UserPost,
    r: ApiResponse,
)
    requires
        s0.wf(),
        post.first_name is Some,
        post.last_name is Some,
        post.email is Some,
        !user_id_present(s0.users@, identity_hash_spec(post.id@, salt)),
        user_add_effect(s0, s1, owner, salt, post, r),
    ensures
        ({
            let uid = identity_hash_spec(post.id@, salt);
            let rows = owner_user_rows(s1, owner, uid);
            &&& rows.len() == 1
            &&& rows[0].first_name@ == post.first_name->0@
            &&& rows[0].last_name@ == post.last_name->0@
            &&& rows[0].email@ == post.email->0@
            &&& rows[0].conditions@ == Seq::<bool>::empty()
        }),
{
    let uid = identity_hash_spec(post.id@, salt);
    assert(has_user_relation(s1.relations@, owner, uid)) by {
        assert(s1.relations@[s1.relations@.len() - 1].customer_id@ == owner);
        assert(s1.relations@[s1.relations@.len() - 1].user_id@ == uid);
    }
    assert(s1.users@.drop_last() =~= s0.users@);
    assert(forall|i: int| 0 <= i < s0.users@.len() ==> s0.users@[i].id@ != uid);
    lemma_rows_with_uid_absent(s0.users@, uid);
    assert(rows_with_uid(s1.users@, uid) =~= seq![s1.users@.last()]);
}

/// Deleting the only owner's relation for a user removes the row itself:
/// when no relation for another owner references the id, the row is gone
/// from every subsequent lookup, whoever asks.
pub proof fn lemma_delete_sole_owner_removes_row(
    s0: UserStore,
    s1: UserStore,
    owner: Seq<char>,
    salt: Seq<char>,
    post: UserPost,
    r: ApiResponse,
)
    requires
        s0.wf(),
        user_delete_effect(s0, s1, owner, salt, post, r),
        forall|j: int|
            (0 <= j < s0.relations@.len() && #[trigger] s0.relations@[j].user_id@
                == identity_hash_spec(post.id@, salt)) ==> s0.relations@[j].customer_id@ == owner,
    ensures
        ({
            let uid = identity_hash_spec(post.id@, salt);
            &&& rows_with_uid(s1.users@, uid) == Seq::<UserRow>::empty()
            &&& forall|o: Seq<char>|
                #[trigger] owner_user_rows(s1, o, uid) == Seq::<UserRow>::empty()
        }),
{
    let uid = identity_hash_spec(post.id@, salt);
    let rels1 = user_relations_without(s0.relations@, owner, uid);
    lemma_user_relations_without_props(s0.relations@, owner, uid);
    assert(!any_user_relation(rels1, uid)) by {
        if any_user_relation(rels1, uid) {
            let j = choose|j: int| 0 <= j < rels1.len() && rels1[j].user_id@ == uid;
            assert(s0.relations@.contains(rels1[j]));
            let w = choose|w: int|
                0 <= w < s0.relations@.len() && s0.relations@[w] == rels1[j];
            assert(s0.relations@[w].customer_id@ == owner);
            assert(!(rels1[j].customer_id@ == owner && rels1[j].user_id@ == uid));
        }
    }
    assert(s1.users@ == rows_without_uid(s0.users@, uid));
    lemma_rows_without_uid_no_match(s0.users@, uid);
    lemma_rows_with_uid_absent(s1.users@, uid);
    assert forall|o: Seq<char>| #[trigger] owner_user_rows(s1, o, uid) == Seq::<
        UserRow,
    >::empty() by {
        if has_user_relation(s1.relations@, o, uid) {
            assert(owner_user_rows(s1, o, uid) == rows_with_uid(s1.users@, uid));
        }
    }
}

/// Deleting one owner's relation for a shared user keeps the row: as long
/// as a relation for another owner still references the id, that owner's
/// lookups still see exactly what they saw before.
pub proof fn lemma_delete_other_owner_keeps_row(
    s0: UserStore,
    s1: UserStore,
    owner: Seq<char>,
    salt: Seq<char>,
    post: UserPost,
    r: ApiResponse,
    other: Seq<char>,
)
    requires
        s0.wf(),
        user_delete_effect(s0, s1, owner, salt, post, r),
        has_user_relation(s0.relations@, other, identity_hash_spec(post.id@, salt)),
        other != owner,
    ensures
        ({
            let uid = identity_hash_spec(post.id@, salt);
            &&& s1.users@ == s0.users@
            &&& owner_user_rows(s1, other, uid) == rows_with_uid(s0.users@, uid)
        }),
{
    let uid = identity_hash_spec(post.id@, salt);
    let rels1 = user_relations_without(s0.relations@, owner, uid);
    lemma_user_relations_without_props(s0.relations@, owner, uid);
    let j = choose|j: int|
        0 <= j < s0.relations@.len() && s0.relations@[j].customer_id@ == other
            && s0.relations@[j].user_id@ == uid;
    assert(rels1.contains(s0.relations@[j]));
    let w = choose|w: int| 0 <= w < rels1.len() && rels1[w] == s0.relations@[j];
    assert(any_user_relation(rels1, uid));
    assert(has_user_relation(rels1, other, uid));
}

/// Neither the rows nor the relations moved.
pub open spec fn user_store_unchanged(s0: UserStore, s1: UserStore) -> bool {
    s1.users@ == s0.users@ && s1.relations@ == s0.relations@
}

/// Exactly one relation row was appended, pairing this owner with this id.
pub open spec fn user_relation_appended(
    r0: Seq<CustomerUser>,
    r1: Seq<CustomerUser>,
    owner: Seq<char>,
    uid: Seq<char>,
) -> bool {
    &&& r1.len() == r0.len() + 1
    &&& r1.subrange(0, r0.len() as int) == r0
    &&& r1.last().customer_id@ == owner
    &&& r1.last().user_id@ == uid
}

/// How a unique-key lookup's rows map to a response: an empty user envelope
/// for no match, the profile for exactly one, and an authorization failure
/// for the impossible multi-match.
pub open spec fn user_lookup_matches(rows: Seq<UserRow>, r: ApiResponse) -> bool {
    if rows.len() == 0 {
        r.status == STATUS_OK && (r.body matches Body::UserEnvelope(p) && p is None)
    } else if rows.len() == 1 {
        r.status == STATUS_OK && (r.body matches Body::UserEnvelope(p) && (p
            matches Option::Some(prof) && profile_of(rows[0], prof)))
    } else {
        is_message(r, STATUS_UNAUTHORIZED, "Unauthorized request"@)
    }
}

/// Map fetched rows to the response a unique-key lookup owes.
pub fn user_lookup_response(rows: &Vec<UserRow>) -> (r: ApiResponse)
    ensures
        user_lookup_matches(rows@, r),
{
    if rows.len() == 0 {
        ApiResponse { status: STATUS_OK, body: Body::UserEnvelope(Option::None) }
    } else if rows.len() == 1 {
        let prof = UserProfile {
            first_name: rows[0].first_name.clone(),
            last_name: rows[0].last_name.clone(),
            conditions: clone_flags(&rows[0].conditions),
        };
        ApiResponse { status: STATUS_OK, body: Body::UserEnvelope(Option::Some(prof)) }
    } else {
        message_response(STATUS_UNAUTHORIZED, "Unauthorized request")
    }
}

/// How a unique-key lookup's already-projected profiles map to a response:
/// the same mapping as for rows, for callers that fetch the projection
/// directly from the store.
pub open spec fn profile_lookup_matches(profiles: Seq<UserProfile>, r: ApiResponse) -> bool {
    if profiles.len() == 0 {
        r.status == STATUS_OK && (r.body matches Body::UserEnvelope(p) && p is None)
    } else if profiles.len() == 1 {
        r.status == STATUS_OK && (r.body matches Body::UserEnvelope(p) && (p
            matches Option::Some(prof) && prof.first_name@ == profiles[0].first_name@
            && prof.last_name@ == profiles[0].last_name@ && prof.conditions@
            == profiles[0].conditions@))
    } else {
        is_message(r, STATUS_UNAUTHORIZED, "Unauthorized request"@)
    }
}

/// Map fetched profiles to the response a unique-key lookup owes.
pub fn profile_lookup_response(profiles: &Vec<UserProfile>) -> (r: ApiResponse)
    ensures
        profile_lookup_matches(profiles@, r),
{
    if profiles.len() == 0 {
        ApiResponse { status: STATUS_OK, body: Body::UserEnvelope(Option::None) }
    } else if profiles.len() == 1 {
        let prof = UserProfile {
            first_name: profiles[0].first_name.clone(),
            last_name: profiles[0].last_name.clone(),
            conditions: clone_flags(&profiles[0].conditions),
        };
        ApiResponse { status: STATUS_OK, body: Body::UserEnvelope(Option::Some(prof)) }
    } else {
        message_response(STATUS_UNAUTHORIZED, "Unauthorized request")
    }
}

/// Handle a GET: a lookup by the already-derived user id, scoped to the
/// caller's ownership.
pub fn user_get(store: &UserStore, owner: &str, uid: &str) -> (r: ApiResponse)
    ensures
        user_lookup_matches(owner_user_rows(*store, owner@, uid@), r),
{
    let rows = store.get_for_owner(owner, uid);
    user_lookup_response(&rows)
}

/// The body supplies none of the mutable fields.
pub open spec fn no_user_update_fields(post: UserPost) -> bool {
    post.first_name is None && post.last_name is None && post.email is None
}

/// How an updated row relates to the row it replaces, in terms of the body
/// the caller supplied.
pub open spec fn applied_post_user_update(new: UserRow, prev: UserRow, post: UserPost) -> bool {
    &&& new.id@ == prev.id@
    &&& new.first_name@ == (match post.first_name {
        Option::Some(s) => s@,
        Option::None => prev.first_name@,
    })
    &&& new.last_name@ == (match post.last_name {
        Option::Some(s) => s@,
        Option::None => prev.last_name@,
    })
    &&& new.email@ == (match post.email {
        Option::Some(s) => s@,
        Option::None => prev.email@,
    })
    &&& new.conditions@ == prev.conditions@
}

/// What an add does to the store and what it answers: the row is written
/// under its derived id — or already sits there, which the conflict rule
/// tolerates — and the relation row is appended, both inside one
/// transaction boundary.
pub open spec fn user_add_effect(
    s0: UserStore,
    s1: UserStore,
    owner: Seq<char>,
    salt: Seq<char>,
    post: UserPost,
    r: ApiResponse,
) -> bool {
    let uid = identity_hash_spec(post.id@, salt);
    &&& is_message(r, STATUS_OK, "Success"@)
    &&& user_relation_appended(s0.relations@, s1.relations@, owner, uid)
    &&& user_id_present(s0.users@, uid) ==> s1.users@ == s0.users@
    &&& !user_id_present(s0.users@, uid) ==> {
        &&& s1.users@.len() == s0.users@.len() + 1
        &&& s1.users@.subrange(0, s0.users@.len() as int) == s0.users@
        &&& new_user_fields(
            s1.users@.last(),
            uid,
            post.first_name->0@,
            post.last_name->0@,
            post.email->0@,
        )
    }
}

/// What a delete does to the store and what it answers: the owner's
/// relation rows for the id go first, and then — shared-ownership policy —
/// the entity rows go only when no other relation still references the id.
pub open spec fn user_delete_effect(
    s0: UserStore,
    s1: UserStore,
    owner: Seq<char>,
    salt: Seq<char>,
    post: UserPost,
    r: ApiResponse,
) -> bool {
    let uid = identity_hash_spec(post.id@, salt);
    let rels1 = user_relations_without(s0.relations@, owner, uid);
    &&& is_message(r, STATUS_OK, "Success"@)
    &&& s1.relations@ == rels1
    &&& any_user_relation(rels1, uid) ==> s1.users@ == s0.users@
    &&& !any_user_relation(rels1, uid) ==> s1.users@ == rows_without_uid(s0.users@, uid)
}

/// What a partial update does to the store and what it answers.
pub open spec fn user_update_effect(
    s0: UserStore,
    s1: UserStore,
    owner: Seq<char>,
    salt: Seq<char>,
    post: UserPost,
    r: ApiResponse,
) -> bool {
    let uid = identity_hash_spec(post.id@, salt);
    &&& is_message(r, STATUS_OK, "Success"@)
    &&& s1.relations@ == s0.relations@
    &&& no_user_update_fields(post) ==> s1.users@ == s0.users@
    &&& s1.users@.len() == s0.users@.len()
    &&& forall|i: int|
        0 <= i < s0.users@.len() ==> if (!no_user_update_fields(post) && s0.users@[i].id@ == uid
            && has_user_relation(s0.relations@, owner, uid)) {
            applied_post_user_update(s1.users@[i], s0.users@[i], post)
        } else {
            s1.users@[i] == s0.users@[i]
        }
}

/// Handle an add: write the user row under its derived id and bind it to
/// the acting owner, inside one transaction boundary.
pub fn user_add(store: &mut UserStore, owner: &str, salt: &str, post: &UserPost) -> (r: ApiResponse)
    requires
        old(store).wf(),
        post.first_name is Some,
        post.last_name is Some,
        post.email is Some,
    ensures
        final(store).wf(),
        user_add_effect(*old(store), *final(store), owner@, salt@, *post, r),
{
    let uid = gen_user_id(post.id.as_str(), salt);
    store.insert(
        uid.clone(),
        post.first_name.as_ref().unwrap().clone(),
        post.last_name.as_ref().unwrap().clone(),
        post.email.as_ref().unwrap().clone(),
    );
    store.add_relation(owner, uid.as_str());
    message_response(STATUS_OK, "Success")
}

/// Handle a delete: unbind the user from the acting owner, then remove the
/// row itself only when no other owner still references it.
pub fn user_delete(store: &mut UserStore, owner: &str, salt: &str, post: &UserPost) -> (r:
    ApiResponse)
    requires
        old(store).wf(),
    ensures
        final(store).wf(),
        user_delete_effect(*old(store), *final(store), owner@, salt@, *post, r),
{
    let uid = gen_user_id(post.id.as_str(), salt);
    store.delete_relation(owner, uid.as_str());
    store.delete_user_if_orphaned(uid.as_str());
    message_response(STATUS_OK, "Success")
}

/// Handle a partial update: build the statement for the supplied fields and
/// apply it, or short-circuit to success when nothing was supplied.
pub fn user_update(store: &mut UserStore, owner: &str, salt: &str, post: &UserPost) -> (r:
    ApiResponse)
    requires
        old(store).wf(),
    ensures
        final(store).wf(),
        user_update_effect(*old(store), *final(store), owner@, salt@, *post, r),
{
    let uid = gen_user_id(post.id.as_str(), salt);
    let u = FieldUpdates {
        first_name: match &post.first_name {
            Option::Some(s) => Option::Some(s.clone()),
            Option::None => Option::None,
        },
        last_name: match &post.last_name {
            Option::Some(s) => Option::Some(s.clone()),
            Option::None => Option::None,
        },
        email: match &post.email {
            Option::Some(s) => Option::Some(s.clone()),
            Option::None => Option::None,
        },
    };
    let statement = build_update(EntityKind::User, &u);
    match statement {
        Option::None => message_response(STATUS_OK, "Success"),
        Option::Some(_) => {
            store.apply_update(uid.as_str(), owner, &u);
            message_response(STATUS_OK, "Success")
        },
    }
}

/// What a POST does, by the operation name in its body.
pub open spec fn user_post_effect(
    s0: UserStore,
    s1: UserStore,
    owner: Seq<char>,
    salt: Seq<char>,
    body: ParsedBody<UserPost>,
    r: ApiResponse,
) -> bool {
    match body {
        ParsedBody::Missing => is_message(r, STATUS_UNAUTHORIZED, "No data supplied"@)
            && user_store_unchanged(s0, s1),
        ParsedBody::Malformed => is_message(r, STATUS_UNAUTHORIZED, "Invalid data"@)
            && user_store_unchanged(s0, s1),
        ParsedBody::Valid(post) => {
            if post.method@ == "add"@ {
                if post.first_name is Some && post.last_name is Some && post.email is Some {
                    user_add_effect(s0, s1, owner, salt, post, r)
                } else {
                    is_message(r, STATUS_UNAUTHORIZED, "Invalid data"@) && user_store_unchanged(
                        s0,
                        s1,
                    )
                }
            } else if post.method@ == "update"@ {
                user_update_effect(s0, s1, owner, salt, post, r)
            } else if post.method@ == "delete"@ {
                user_delete_effect(s0, s1, owner, salt, post, r)
            } else {
                is_message(r, STATUS_METHOD_NOT_ALLOWED, "Unsupported method"@)
                    && user_store_unchanged(s0, s1)
            }
        },
    }
}

/// Dispatch a POST by the operation name in its body.
pub fn user_post(store: &mut UserStore, owner: &str, salt: &str, body: &ParsedBody<UserPost>) -> (r:
    ApiResponse)
    requires
        old(store).wf(),
    ensures
        final(store).wf(),
        user_post_effect(*old(store), *final(store), owner@, salt@, *body, r),
{
    match body {
        ParsedBody::Missing => message_response(STATUS_UNAUTHORIZED, "No data supplied"),
        ParsedBody::Malformed => message_response(STATUS_UNAUTHORIZED, "Invalid data"),
        ParsedBody::Valid(post) => {
            if str_eq(post.method.as_str(), "add") {
                if post.first_name.is_some() && post.last_name.is_some()
                    && post.email.is_some() {
                    user_add(store, owner, salt, post)
                } else {
                    message_response(STATUS_UNAUTHORIZED, "Invalid data")
                }
            } else if str_eq(post.method.as_str(), "update") {
                user_update(store, owner, salt, post)
            } else if str_eq(post.method.as_str(), "delete") {
                user_delete(store, owner, salt, post)
            } else {
                message_response(STATUS_METHOD_NOT_ALLOWED, "Unsupported method")
            }
        },
    }
}

/// What a whole request does: GET looks the derived id up, POST dispatches
/// by operation name, anything else is not allowed and touches nothing.
pub open spec fn user_request_effect(
    s0: UserStore,
    s1: UserStore,
    method: HttpMethod,
    owner: Seq<char>,
    salt: Seq<char>,
    id_param: Seq<char>,
    body: ParsedBody<UserPost>,
    r: ApiResponse,
) -> bool {
    match method {
        HttpMethod::Get => user_store_unchanged(s0, s1) && user_lookup_matches(
            owner_user_rows(s0, owner, identity_hash_spec(id_param, salt)),
            r,
        ),
        HttpMethod::Post => user_post_effect(s0, s1, owner, salt, body, r),
        HttpMethod::Other => is_message(r, STATUS_METHOD_NOT_ALLOWED, "Method not allowed"@)
            && user_store_unchanged(s0, s1),
    }
}

/// Handle one inbound request against the store. The GET path derives the
/// user id from the id query parameter — the hash of the empty string when
/// the parameter is absent — before looking it up.
pub fn handle_user_request(
    store: &mut UserStore,
    method: HttpMethod,
    owner: &str,
    salt: &str,
    id_param: &str,
    body: &ParsedBody<UserPost>,
) -> (r: ApiResponse)
    requires
        old(store).wf(),
    ensures
        final(store).wf(),
        user_request_effect(
            *old(store),
            *final(store),
            method,
            owner@,
            salt@,
            id_param@,
            *body,
            r,
        ),
{
    match method {
        HttpMethod::Get => {
            let uid = gen_user_id(id_param, salt);
            user_get(store, owner, uid.as_str())
        },
        HttpMethod::Post => user_post(store, owner, salt, body),
        HttpMethod::Other => message_response(STATUS_METHOD_NOT_ALLOWED, "Method not allowed"),
    }
}

} // verus!
