use entity_crud::customer::{
    customer_add, customer_delete, customer_get, customer_update, handle_customer_request,
    CustomerStore,
};
use entity_crud::hashing::hash_ssn;
use entity_crud::records::{CustomerRow, PartnerCustomer};
use entity_crud::request::{CustomerPost, HttpMethod, ParsedBody};
use entity_crud::response::{ApiResponse, Body};

const SALT: &str = "unit-salt";

fn add_post(ssn: &str, first: &str, last: &str, email: &str) -> CustomerPost {
    CustomerPost {
        method: "add".to_string(),
        id: None,
        ssn: Some(ssn.to_string()),
        first_name: Some(first.to_string()),
        last_name: Some(last.to_string()),
        email: Some(email.to_string()),
    }
}

fn message_of(r: &ApiResponse) -> &str {
    match &r.body {
        Body::Message(m) => m.as_str(),
        _ => panic!("expected a message body"),
    }
}

#[test]
fn add_new_natural_key_then_repeat() {
    let mut store = CustomerStore::new();
    let post = add_post("123-45-6789", "A", "B", "a@x.com");

    let r = customer_add(&mut store, "partner-1", SALT, &post);
    assert_eq!(r.status, 200);
    match &r.body {
        Body::Customer(c) => {
            assert_eq!(c.id, 1);
            assert_eq!(c.first_name, "A");
            assert_eq!(c.last_name, "B");
            assert_eq!(c.email, "a@x.com");
            assert_eq!(c.pending_documents, 0);
            assert!(c.conditions.is_empty());
        },
        _ => panic!("expected the created row"),
    }

    // The identical call again: the insert conflicts, no row comes back.
    let r2 = customer_add(&mut store, "partner-1", SALT, &post);
    assert_eq!(r2.status, 503);
    assert_eq!(message_of(&r2), "Could not create customer");
    assert_eq!(store.customers.len(), 1);
}

#[test]
fn get_scoped_to_ownership() {
    let mut store = CustomerStore::new();
    let r = customer_add(&mut store, "partner-1", SALT, &add_post("1", "A", "B", "a@x.com"));
    assert_eq!(r.status, 200);

    // The owning partner sees the row.
    let r = customer_get(&store, "partner-1", "1");
    assert_eq!(r.status, 200);
    match &r.body {
        Body::Customer(c) => assert_eq!(c.first_name, "A"),
        _ => panic!("expected the row"),
    }

    // Another partner sees nothing, as a success with an empty object.
    let r = customer_get(&store, "partner-2", "1");
    assert_eq!(r.status, 200);
    assert!(matches!(r.body, Body::Empty));
}

#[test]
fn get_without_id_parameter_reads_as_id_zero() {
    let mut store = CustomerStore::new();
    customer_add(&mut store, "partner-1", SALT, &add_post("1", "A", "B", "a@x.com"));
    let r = handle_customer_request(
        &mut store,
        HttpMethod::Get,
        "partner-1",
        SALT,
        "",
        &ParsedBody::Missing,
    );
    assert_eq!(r.status, 200);
    assert!(matches!(r.body, Body::Empty));
}

#[test]
fn claim_lookup_empty_and_corrupted() {
    let mut store = CustomerStore::new();
    // Zero matches: the empty object, not an error.
    let r = handle_customer_request(
        &mut store,
        HttpMethod::Post,
        "partner-1",
        SALT,
        "",
        &ParsedBody::Valid(claim_post()),
    );
    assert_eq!(r.status, 200);
    assert!(matches!(r.body, Body::Empty));

    // A deliberately corrupted store: two rows under the same natural key.
    let h = hash_ssn("123-45-6789", SALT);
    let row = |id: i64| CustomerRow {
        id,
        ssn_hash: h.clone(),
        first_name: "A".to_string(),
        last_name: "B".to_string(),
        email: "a@x.com".to_string(),
        conditions: vec![],
        pending_documents: 0,
    };
    let mut corrupted = CustomerStore {
        customers: vec![row(1), row(2)],
        relations: vec![
            PartnerCustomer { partner_id: "partner-1".to_string(), customer_id: 1 },
            PartnerCustomer { partner_id: "partner-1".to_string(), customer_id: 2 },
        ],
        next_id: 3,
    };
    let r = handle_customer_request(
        &mut corrupted,
        HttpMethod::Post,
        "partner-1",
        SALT,
        "",
        &ParsedBody::Valid(claim_post()),
    );
    assert_eq!(r.status, 401);
    assert_eq!(message_of(&r), "Unauthorized request");
}

fn claim_post() -> CustomerPost {
    CustomerPost {
        method: "get".to_string(),
        id: None,
        ssn: Some("123-45-6789".to_string()),
        first_name: Some("A".to_string()),
        last_name: Some("B".to_string()),
        email: None,
    }
}

#[test]
fn update_rewrites_only_supplied_fields() {
    let mut store = CustomerStore::new();
    customer_add(&mut store, "partner-1", SALT, &add_post("1", "A", "B", "a@x.com"));

    let upd = CustomerPost {
        method: "update".to_string(),
        id: Some(1),
        ssn: None,
        first_name: Some("Anna".to_string()),
        last_name: None,
        email: None,
    };
    let r = customer_update(&mut store, "partner-1", &upd);
    assert_eq!(r.status, 200);
    assert_eq!(message_of(&r), "Success");
    assert_eq!(store.customers[0].first_name, "Anna");
    assert_eq!(store.customers[0].last_name, "B");
    assert_eq!(store.customers[0].email, "a@x.com");
}

#[test]
fn update_with_no_fields_is_a_no_op_success() {
    let mut store = CustomerStore::new();
    customer_add(&mut store, "partner-1", SALT, &add_post("1", "A", "B", "a@x.com"));
    let before_first = store.customers[0].first_name.clone();

    let upd = CustomerPost {
        method: "update".to_string(),
        id: Some(1),
        ssn: None,
        first_name: None,
        last_name: None,
        email: None,
    };
    let r = customer_update(&mut store, "partner-1", &upd);
    assert_eq!(r.status, 200);
    assert_eq!(message_of(&r), "Success");
    assert_eq!(store.customers[0].first_name, before_first);
}

#[test]
fn update_by_a_non_owner_touches_nothing() {
    let mut store = CustomerStore::new();
    customer_add(&mut store, "partner-1", SALT, &add_post("1", "A", "B", "a@x.com"));
    let upd = CustomerPost {
        method: "update".to_string(),
        id: Some(1),
        ssn: None,
        first_name: Some("Mallory".to_string()),
        last_name: None,
        email: None,
    };
    let r = customer_update(&mut store, "partner-2", &upd);
    assert_eq!(r.status, 200);
    assert_eq!(store.customers[0].first_name, "A");
}

#[test]
fn delete_removes_relation_and_row() {
    let mut store = CustomerStore::new();
    customer_add(&mut store, "partner-1", SALT, &add_post("1", "A", "B", "a@x.com"));
    let del = CustomerPost {
        method: "delete".to_string(),
        id: Some(1),
        ssn: None,
        first_name: None,
        last_name: None,
        email: None,
    };
    let r = customer_delete(&mut store, "partner-1", &del);
    assert_eq!(r.status, 200);
    assert_eq!(message_of(&r), "Success");
    assert!(store.customers.is_empty());
    assert!(store.relations.is_empty());

    let r = customer_get(&store, "partner-1", "1");
    assert_eq!(r.status, 200);
    assert!(matches!(r.body, Body::Empty));
}

#[test]
fn dispatcher_client_errors() {
    let mut store = CustomerStore::new();

    let r = handle_customer_request(
        &mut store,
        HttpMethod::Post,
        "partner-1",
        SALT,
        "",
        &ParsedBody::Missing,
    );
    assert_eq!(r.status, 401);
    assert_eq!(message_of(&r), "No data supplied");

    let r = handle_customer_request(
        &mut store,
        HttpMethod::Post,
        "partner-1",
        SALT,
        "",
        &ParsedBody::Malformed,
    );
    assert_eq!(r.status, 401);
    assert_eq!(message_of(&r), "Invalid data");

    let unknown = CustomerPost {
        method: "frobnicate".to_string(),
        id: None,
        ssn: None,
        first_name: None,
        last_name: None,
        email: None,
    };
    let r = handle_customer_request(
        &mut store,
        HttpMethod::Post,
        "partner-1",
        SALT,
        "",
        &ParsedBody::Valid(unknown),
    );
    assert_eq!(r.status, 405);
    assert_eq!(message_of(&r), "Unsupported method");

    // An add that supplies neither an id nor the full field set.
    let incomplete = CustomerPost {
        method: "add".to_string(),
        id: None,
        ssn: Some("1".to_string()),
        first_name: None,
        last_name: None,
        email: None,
    };
    let r = handle_customer_request(
        &mut store,
        HttpMethod::Post,
        "partner-1",
        SALT,
        "",
        &ParsedBody::Valid(incomplete),
    );
    assert_eq!(r.status, 401);
    assert_eq!(message_of(&r), "Invalid data");

    let r = handle_customer_request(
        &mut store,
        HttpMethod::Other,
        "partner-1",
        SALT,
        "",
        &ParsedBody::Missing,
    );
    assert_eq!(r.status, 405);
    assert_eq!(message_of(&r), "Method not allowed");
}

#[test]
fn add_referencing_an_existing_row() {
    let mut store = CustomerStore::new();
    customer_add(&mut store, "partner-1", SALT, &add_post("1", "A", "B", "a@x.com"));

    // A second partner claims the same row by id.
    let by_id = CustomerPost {
        method: "add".to_string(),
        id: Some(1),
        ssn: None,
        first_name: None,
        last_name: None,
        email: None,
    };
    let r = customer_add(&mut store, "partner-2", SALT, &by_id);
    assert_eq!(r.status, 200);
    match &r.body {
        Body::Customer(c) => assert_eq!(c.id, 1),
        _ => panic!("expected the resolved row"),
    }
    assert_eq!(store.customers.len(), 1);
    assert_eq!(store.relations.len(), 2);

    // Referencing a row that does not exist is a failed creation.
    let missing = CustomerPost { id: Some(77), ..by_id_clone(&by_id) };
    let r = customer_add(&mut store, "partner-2", SALT, &missing);
    assert_eq!(r.status, 503);
    assert_eq!(message_of(&r), "Could not create customer");
}

fn by_id_clone(p: &CustomerPost) -> CustomerPost {
    CustomerPost {
        method: p.method.clone(),
        id: p.id,
        ssn: p.ssn.clone(),
        first_name: p.first_name.clone(),
        last_name: p.last_name.clone(),
        email: p.email.clone(),
    }
}
