use entity_crud::update_sql::{build_update, EntityKind, FieldUpdates};

fn updates(
    first_name: Option<&str>,
    last_name: Option<&str>,
    email: Option<&str>,
) -> FieldUpdates {
    FieldUpdates {
        first_name: first_name.map(|s| s.to_string()),
        last_name: last_name.map(|s| s.to_string()),
        email: email.map(|s| s.to_string()),
    }
}

#[test]
fn empty_field_mapping_builds_no_statement() {
    assert!(build_update(EntityKind::Customer, &updates(None, None, None)).is_none());
    assert!(build_update(EntityKind::User, &updates(None, None, None)).is_none());
}

#[test]
fn all_three_fields_customer() {
    let st = build_update(EntityKind::Customer, &updates(Some("A"), Some("B"), Some("a@x.com")))
        .unwrap();
    assert_eq!(
        st.sql,
        "UPDATE \"Customers\" SET\n\
         first_name = $3,\n\
         last_name = $4,\n\
         email = $5\n\
         WHERE id = $1\n\
         AND EXISTS (SELECT 1 FROM \"PartnerCustomers\" WHERE customer_id = $1 AND partner_id = $2)"
    );
    assert_eq!(st.params, vec!["A".to_string(), "B".to_string(), "a@x.com".to_string()]);
}

#[test]
fn single_field_user() {
    let st = build_update(EntityKind::User, &updates(None, None, Some("new@x.com"))).unwrap();
    assert_eq!(
        st.sql,
        "UPDATE \"Users\" SET\n\
         email = $3\n\
         WHERE id = $1\n\
         AND EXISTS (SELECT 1 FROM \"CustomerUsers\" WHERE user_id = $1 AND id = $2)"
    );
    assert_eq!(st.params, vec!["new@x.com".to_string()]);
}

#[test]
fn two_fields_renumber_placeholders_without_trailing_comma() {
    let st = build_update(EntityKind::Customer, &updates(Some("A"), None, Some("a@x.com")))
        .unwrap();
    assert_eq!(
        st.sql,
        "UPDATE \"Customers\" SET\n\
         first_name = $3,\n\
         email = $4\n\
         WHERE id = $1\n\
         AND EXISTS (SELECT 1 FROM \"PartnerCustomers\" WHERE customer_id = $1 AND partner_id = $2)"
    );
    assert_eq!(st.params, vec!["A".to_string(), "a@x.com".to_string()]);
}

#[test]
fn statement_text_is_independent_of_values() {
    let a = build_update(EntityKind::User, &updates(Some("x"), Some("y"), None)).unwrap();
    let b = build_update(
        EntityKind::User,
        &updates(Some("= $9; DROP TABLE \"Users\"; --"), Some(""), None),
    )
    .unwrap();
    assert_eq!(a.sql, b.sql);
    assert_eq!(b.params[0], "= $9; DROP TABLE \"Users\"; --");
}
