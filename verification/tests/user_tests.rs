use entity_crud::hashing::gen_user_id;
use entity_crud::records::{CustomerUser, UserRow};
use entity_crud::request::{HttpMethod, ParsedBody, UserPost};
use entity_crud::response::{ApiResponse, Body};
use entity_crud::user::{handle_user_request, user_add, user_delete, user_update, UserStore};

const SALT: &str = "unit-salt";

fn post(method: &str, id: &str, first: Option<&str>, last: Option<&str>, email: Option<&str>) -> UserPost {
    UserPost {
        id: id.to_string(),
        method: method.to_string(),
        first_name: first.map(|s| s.to_string()),
        last_name: last.map(|s| s.to_string()),
        email: email.map(|s| s.to_string()),
        documents: None,
    }
}

fn message_of(r: &ApiResponse) -> &str {
    match &r.body {
        Body::Message(m) => m.as_str(),
        _ => panic!("expected a message body"),
    }
}

fn get(store: &mut UserStore, owner: &str, id_param: &str) -> ApiResponse {
    handle_user_request(store, HttpMethod::Get, owner, SALT, id_param, &ParsedBody::Missing)
}

#[test]
fn add_then_get_returns_the_fields_last_written() {
    let mut store = UserStore::new();
    let r = user_add(
        &mut store,
        "customer-1",
        SALT,
        &post("add", "U1", Some("A"), Some("B"), Some("u@x.com")),
    );
    assert_eq!(r.status, 200);
    assert_eq!(message_of(&r), "Success");

    let r = get(&mut store, "customer-1", "U1");
    assert_eq!(r.status, 200);
    match &r.body {
        Body::UserEnvelope(Some(p)) => {
            assert_eq!(p.first_name, "A");
            assert_eq!(p.last_name, "B");
            assert!(p.conditions.is_empty());
        },
        _ => panic!("expected the stored profile"),
    }

    // An owner without a relation sees the empty envelope.
    let r = get(&mut store, "customer-2", "U1");
    assert_eq!(r.status, 200);
    assert!(matches!(r.body, Body::UserEnvelope(None)));
}

#[test]
fn delete_respects_remaining_owners() {
    let mut store = UserStore::new();
    user_add(&mut store, "customer-1", SALT, &post("add", "U1", Some("A"), Some("B"), Some("u@x.com")));
    user_add(&mut store, "customer-2", SALT, &post("add", "U1", Some("A"), Some("B"), Some("u@x.com")));
    assert_eq!(store.users.len(), 1);
    assert_eq!(store.relations.len(), 2);

    // The first owner lets go: the shared row survives for the second.
    let r = user_delete(&mut store, "customer-1", SALT, &post("delete", "U1", None, None, None));
    assert_eq!(r.status, 200);
    assert_eq!(store.users.len(), 1);
    let r = get(&mut store, "customer-2", "U1");
    assert!(matches!(r.body, Body::UserEnvelope(Some(_))));
    let r = get(&mut store, "customer-1", "U1");
    assert!(matches!(r.body, Body::UserEnvelope(None)));

    // The last owner lets go: the row itself is gone.
    let r = user_delete(&mut store, "customer-2", SALT, &post("delete", "U1", None, None, None));
    assert_eq!(r.status, 200);
    assert!(store.users.is_empty());
    assert!(store.relations.is_empty());
    let r = get(&mut store, "customer-2", "U1");
    assert!(matches!(r.body, Body::UserEnvelope(None)));
}

#[test]
fn add_conflicting_id_keeps_the_first_row() {
    let mut store = UserStore::new();
    user_add(&mut store, "customer-1", SALT, &post("add", "U1", Some("A"), Some("B"), Some("e")));
    // The same derived id again: the insert is silently skipped, the
    // relation row is still appended.
    let r = user_add(
        &mut store,
        "customer-2",
        SALT,
        &post("add", "U1", Some("X"), Some("Y"), Some("f")),
    );
    assert_eq!(r.status, 200);
    assert_eq!(store.users.len(), 1);
    assert_eq!(store.users[0].first_name, "A");
    assert_eq!(store.relations.len(), 2);
}

#[test]
fn get_without_id_parameter_uses_the_hash_of_the_empty_string() {
    let mut store = UserStore::new();
    user_add(&mut store, "customer-1", SALT, &post("add", "U1", Some("A"), Some("B"), Some("e")));
    let r = get(&mut store, "customer-1", "");
    assert_eq!(r.status, 200);
    assert!(matches!(r.body, Body::UserEnvelope(None)));

    // A user whose external id is the empty string is reachable that way.
    user_add(&mut store, "customer-1", SALT, &post("add", "", Some("N"), Some("N"), Some("n")));
    let r = get(&mut store, "customer-1", "");
    match &r.body {
        Body::UserEnvelope(Some(p)) => assert_eq!(p.first_name, "N"),
        _ => panic!("expected the profile stored under the empty id"),
    }
}

#[test]
fn user_update_rewrites_only_supplied_fields() {
    let mut store = UserStore::new();
    user_add(&mut store, "customer-1", SALT, &post("add", "U1", Some("A"), Some("B"), Some("e")));

    let r = user_update(
        &mut store,
        "customer-1",
        SALT,
        &post("update", "U1", None, Some("Brown"), None),
    );
    assert_eq!(r.status, 200);
    assert_eq!(message_of(&r), "Success");
    assert_eq!(store.users[0].first_name, "A");
    assert_eq!(store.users[0].last_name, "Brown");
    assert_eq!(store.users[0].email, "e");

    // A non-owner's update is a success that touches nothing.
    let r = user_update(
        &mut store,
        "customer-2",
        SALT,
        &post("update", "U1", Some("Mallory"), None, None),
    );
    assert_eq!(r.status, 200);
    assert_eq!(store.users[0].first_name, "A");
}

#[test]
fn multi_row_match_is_an_authorization_failure() {
    let uid = gen_user_id("U1", SALT);
    let row = |first: &str| UserRow {
        id: uid.clone(),
        first_name: first.to_string(),
        last_name: "B".to_string(),
        email: "e".to_string(),
        conditions: vec![],
    };
    // A deliberately corrupted store: the unique id appears twice.
    let mut corrupted = UserStore {
        users: vec![row("A"), row("A2")],
        relations: vec![CustomerUser {
            customer_id: "customer-1".to_string(),
            user_id: uid.clone(),
        }],
    };
    let r = get(&mut corrupted, "customer-1", "U1");
    assert_eq!(r.status, 401);
    assert_eq!(message_of(&r), "Unauthorized request");
}

#[test]
fn user_dispatcher_client_errors() {
    let mut store = UserStore::new();

    let r = handle_user_request(
        &mut store,
        HttpMethod::Post,
        "customer-1",
        SALT,
        "",
        &ParsedBody::Missing,
    );
    assert_eq!(r.status, 401);
    assert_eq!(message_of(&r), "No data supplied");

    let r = handle_user_request(
        &mut store,
        HttpMethod::Post,
        "customer-1",
        SALT,
        "",
        &ParsedBody::Malformed,
    );
    assert_eq!(r.status, 401);
    assert_eq!(message_of(&r), "Invalid data");

    let r = handle_user_request(
        &mut store,
        HttpMethod::Post,
        "customer-1",
        SALT,
        "",
        &ParsedBody::Valid(post("get", "U1", None, None, None)),
    );
    assert_eq!(r.status, 405);
    assert_eq!(message_of(&r), "Unsupported method");

    let r = handle_user_request(
        &mut store,
        HttpMethod::Post,
        "customer-1",
        SALT,
        "",
        &ParsedBody::Valid(post("add", "U1", Some("A"), None, None)),
    );
    assert_eq!(r.status, 401);
    assert_eq!(message_of(&r), "Invalid data");

    let r = handle_user_request(
        &mut store,
        HttpMethod::Other,
        "customer-1",
        SALT,
        "",
        &ParsedBody::Missing,
    );
    assert_eq!(r.status, 405);
    assert_eq!(message_of(&r), "Method not allowed");
}
