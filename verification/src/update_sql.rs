//! The dynamic partial-update statement builder. Given the entity kind and
//! the subset of mutable fields the caller supplied, it produces a
//! parameterized UPDATE whose SET clause lists exactly the supplied fields,
//! in a fixed order, with placeholder indices that leave room for the two
//! leading fixed placeholders (entity id, then acting owner). Field names
//! come from a closed allow-list; field values are only ever bound as
//! parameters, never written into the statement text.

use vstd::prelude::*;
use vstd::string::*;

verus! {

/// The entity kind a statement is built for; it fixes the table names.
#[derive(Clone, Copy)]
pub enum EntityKind {
    Customer,
    User,
}

/// The closed allow-list of fields a partial update may touch.
#[derive(Clone, Copy)]
pub enum UpdateField {
    FirstName,
    LastName,
    Email,
}

/// The subset of mutable fields the caller supplied, with their new values.
pub struct FieldUpdates {
    pub first_name: Option<String>,
    pub last_name: Option<String>,
    pub email: Option<String>,
}

/// A built statement: the SQL text and the values to bind, in order, after
/// the two leading fixed placeholders.
pub struct UpdateStatement {
    pub sql: String,
    pub params: Vec<String>,
}

/// The fixed head of the statement for each entity kind.
pub open spec fn update_prefix(kind: EntityKind) -> Seq<char> {
    match kind {
        EntityKind::Customer => "UPDATE \"Customers\" SET\n"@,
        EntityKind::User => "UPDATE \"Users\" SET\n"@,
    }
}

/// The fixed tail of the statement: the row must match the entity id, and an
/// ownership-relation row for the acting owner must exist — an update can
/// only affect a row the caller owns.
pub open spec fn where_suffix(kind: EntityKind) -> Seq<char> {
    match kind {
        EntityKind::Customer => "WHERE id = $1\nAND EXISTS (SELECT 1 FROM \"PartnerCustomers\" WHERE customer_id = $1 AND partner_id = $2)"@,
        EntityKind::User => "WHERE id = $1\nAND EXISTS (SELECT 1 FROM \"CustomerUsers\" WHERE user_id = $1 AND id = $2)"@,
    }
}

/// The column name of an allowed field.
pub open spec fn field_sql_name(f: UpdateField) -> Seq<char> {
    match f {
        UpdateField::FirstName => "first_name"@,
        UpdateField::LastName => "last_name"@,
        UpdateField::Email => "email"@,
    }
}

/// The placeholder for the field at position `i` among the supplied fields:
/// positions start at three, past the entity id and the acting owner.
pub open spec fn placeholder(i: int) -> Seq<char> {
    if i == 0 {
        "$3"@
    } else if i == 1 {
        "$4"@
    } else {
        "$5"@
    }
}

/// The SET clauses for the supplied fields from position `i` on: one clause
/// per field, a comma between clauses and none after the last.
pub open spec fn set_clauses_from(fs: Seq<UpdateField>, i: int) -> Seq<char>
    decreases fs.len() - i when 0 <= i <= fs.len()
{
    if i >= fs.len() {
        Seq::empty()
    } else {
        field_sql_name(fs[i]) + " = "@ + placeholder(i) + (if i == fs.len() - 1 {
            "\n"@
        } else {
            ",\n"@
        }) + set_clauses_from(fs, i + 1)
    }
}

/// The whole statement text for the supplied fields.
pub open spec fn update_sql_spec(kind: EntityKind, fs: Seq<UpdateField>) -> Seq<char> {
    update_prefix(kind) + set_clauses_from(fs, 0) + where_suffix(kind)
}

/// Which allowed fields the caller supplied, in the fixed order.
pub open spec fn present_fields(u: FieldUpdates) -> Seq<UpdateField> {
    (match u.first_name {
        Option::Some(_) => seq![UpdateField::FirstName],
        Option::None => Seq::empty(),
    }) + (match u.last_name {
        Option::Some(_) => seq![UpdateField::LastName],
        Option::None => Seq::empty(),
    }) + (match u.email {
        Option::Some(_) => seq![UpdateField::Email],
        Option::None => Seq::empty(),
    })
}

/// The supplied values, in the same fixed order as the fields.
pub open spec fn present_values(u: FieldUpdates) -> Seq<Seq<char>> {
    (match u.first_name {
        Option::Some(s) => seq![s@],
        Option::None => Seq::empty(),
    }) + (match u.last_name {
        Option::Some(s) => seq![s@],
        Option::None => Seq::empty(),
    }) + (match u.email {
        Option::Some(s) => seq![s@],
        Option::None => Seq::empty(),
    })
}

fn update_prefix_text(kind: EntityKind) -> (r: &'static str)
    ensures
        r@ == update_prefix(kind),
{
    match kind {
        EntityKind::Customer => "UPDATE \"Customers\" SET\n",
        EntityKind::User => "UPDATE \"Users\" SET\n",
    }
}

fn where_suffix_text(kind: EntityKind) -> (r: &'static str)
    ensures
        r@ == where_suffix(kind),
{
    match kind {
        EntityKind::Customer => "WHERE id = $1\nAND EXISTS (SELECT 1 FROM \"PartnerCustomers\" WHERE customer_id = $1 AND partner_id = $2)",
        EntityKind::User => "WHERE id = $1\nAND EXISTS (SELECT 1 FROM \"CustomerUsers\" WHERE user_id = $1 AND id = $2)",
    }
}

fn field_sql_name_text(f: UpdateField) -> (r: &'static str)
    ensures
        r@ == field_sql_name(f),
{
    match f {
        UpdateField::FirstName => "first_name",
        UpdateField::LastName => "last_name",
        UpdateField::Email => "email",
    }
}

fn placeholder_text(i: usize) -> (r: &'static str)
    requires
        i < 3,
    ensures
        r@ == placeholder(i as int),
{
    if i == 0 {
        "$3"
    } else if i == 1 {
        "$4"
    } else {
        "$5"
    }
}

/// Build the partial-update statement for the supplied fields, or nothing
/// when no field was supplied: an update with nothing to change is not an
/// error but needs no statement at all.
pub fn build_update(kind: EntityKind, u: &FieldUpdates) -> (r: Option<UpdateStatement>)
    ensures
        match r {
            Option::None => present_fields(*u).len() == 0,
            Option::Some(st) => {
                &&& present_fields(*u).len() > 0
                &&& st.sql@ == update_sql_spec(kind, present_fields(*u))
                &&& st.params@.len() == present_values(*u).len()
                &&& forall|i: int|
                    0 <= i < st.params@.len() ==> st.params@[i]@ == present_values(*u)[i]
            },
        },
{
    let mut fields: Vec<UpdateField> = Vec::new();
    let mut values: Vec<String> = Vec::new();
    if let Option::Some(s) = &u.first_name {
        fields.push(UpdateField::FirstName);
        values.push(s.clone());
    }
    if let Option::Some(s) = &u.last_name {
        fields.push(UpdateField::LastName);
        values.push(s.clone());
    }
    if let Option::Some(s) = &u.email {
        fields.push(UpdateField::Email);
        values.push(s.clone());
    }
    proof {
        assert(fields@ =~= present_fields(*u));
        assert(values@.len() == present_values(*u).len());
        assert(forall|i: int| 0 <= i < values@.len() ==> values@[i]@ == present_values(*u)[i]);
    }
    let n = fields.len();
    if n == 0 {
        return Option::None;
    }

    let ghost fs = fields@;
    let mut sql = String::from_str(update_prefix_text(kind));
    let mut i: usize = 0;
    while i < n
        invariant
            n == fs.len(),
            fields@ == fs,
            i <= n,
            n <= 3,
            sql@ + set_clauses_from(fs, i as int) == update_prefix(kind) + set_clauses_from(
                fs,
                0,
            ),
        decreases n - i,
    {
        let ghost sql_before = sql@;
        let f = fields[i];
        sql.append(field_sql_name_text(f));
        sql.append(" = ");
        sql.append(placeholder_text(i));
        if i + 1 < n {
            sql.append(",\n");
        } else {
            sql.append("\n");
        }
        proof {
            let sep: Seq<char> = if i as int == fs.len() - 1 {
                "\n"@
            } else {
                ",\n"@
            };
            assert(sql@ =~= sql_before + (field_sql_name(fs[i as int]) + " = "@ + placeholder(
                i as int,
            ) + sep));
            assert(set_clauses_from(fs, i as int) == field_sql_name(fs[i as int]) + " = "@
                + placeholder(i as int) + sep + set_clauses_from(fs, i + 1));
            assert(sql@ + set_clauses_from(fs, i + 1) =~= sql_before + set_clauses_from(
                fs,
                i as int,
            ));
        }
        i = i + 1;
    }
    proof {
        assert(set_clauses_from(fs, n as int) == Seq::<char>::empty());
        assert(sql@ + set_clauses_from(fs, n as int) =~= sql@);
        assert(sql@ == update_prefix(kind) + set_clauses_from(fs, 0));
    }
    sql.append(where_suffix_text(kind));
    proof {
        assert(sql@ =~= update_sql_spec(kind, fs));
    }
    Option::Some(UpdateStatement { sql, params: values })
}

/// The statement text depends only on which fields were supplied, never on
/// their values: two callers that supply the same subset of fields get the
/// identical SQL text, whatever the new values are.
pub proof fn lemma_update_text_value_independent(
    kind: EntityKind,
    u1: FieldUpdates,
    u2: FieldUpdates,
)
    requires
        u1.first_name is Some <==> u2.first_name is Some,
        u1.last_name is Some <==> u2.last_name is Some,
        u1.email is Some <==> u2.email is Some,
    ensures
        update_sql_spec(kind, present_fields(u1)) == update_sql_spec(kind, present_fields(u2)),
{
    assert(present_fields(u1) =~= present_fields(u2));
}

} // verus!
