use entity_crud::protocol::{
    advance, customer_add_failure_response, customer_delete_failure_response, rollback_on_failure,
    run_mutation, update_failure_response, user_add_failure_response,
    user_delete_failure_response, TxPhase, TxStep,
};
use entity_crud::response::{ApiResponse, Body};

fn message_of(r: &ApiResponse) -> &str {
    match &r.body {
        Body::Message(m) => m.as_str(),
        _ => panic!("expected a message body"),
    }
}

#[test]
fn mutation_commits_only_when_every_step_succeeds() {
    assert_eq!(run_mutation(true, true, true), TxPhase::Committed);
    assert_eq!(run_mutation(false, true, true), TxPhase::Aborted);
    assert_eq!(run_mutation(true, false, true), TxPhase::Aborted);
    assert_eq!(run_mutation(true, true, false), TxPhase::Aborted);
    assert_eq!(run_mutation(false, false, false), TxPhase::Aborted);
}

#[test]
fn any_failure_aborts_from_any_phase() {
    assert_eq!(advance(TxPhase::Start, false), TxPhase::Aborted);
    assert_eq!(advance(TxPhase::FirstDone, false), TxPhase::Aborted);
    assert_eq!(advance(TxPhase::SecondDone, false), TxPhase::Aborted);
    assert_eq!(advance(TxPhase::Start, true), TxPhase::FirstDone);
    assert_eq!(advance(TxPhase::FirstDone, true), TxPhase::SecondDone);
    assert_eq!(advance(TxPhase::SecondDone, true), TxPhase::Committed);
}

#[test]
fn rollback_is_owed_only_inside_the_open_transaction() {
    assert!(!rollback_on_failure(TxStep::Begin));
    assert!(rollback_on_failure(TxStep::First));
    assert!(rollback_on_failure(TxStep::Second));
    assert!(!rollback_on_failure(TxStep::Commit));
}

#[test]
fn failure_responses_name_the_failed_step() {
    let r = user_add_failure_response(TxStep::Begin);
    assert_eq!(r.status, 503);
    assert_eq!(message_of(&r), "Database is busy.");
    assert_eq!(message_of(&user_add_failure_response(TxStep::First)), "Could not add user.");
    assert_eq!(
        message_of(&user_add_failure_response(TxStep::Second)),
        "Could not bind user to customer."
    );
    assert_eq!(
        message_of(&user_add_failure_response(TxStep::Commit)),
        "Could not commit transaction."
    );

    assert_eq!(message_of(&user_delete_failure_response(TxStep::First)), "Could not unbind user.");
    assert_eq!(message_of(&user_delete_failure_response(TxStep::Second)), "Could not delete user.");

    assert_eq!(
        message_of(&customer_add_failure_response(TxStep::First)),
        "Could not create customer"
    );
    assert_eq!(
        message_of(&customer_add_failure_response(TxStep::Second)),
        "Could not add customer"
    );
    assert_eq!(
        message_of(&customer_delete_failure_response(TxStep::First)),
        "Could not remove user."
    );
    assert_eq!(
        message_of(&customer_delete_failure_response(TxStep::Second)),
        "Could not remove user."
    );

    let r = update_failure_response();
    assert_eq!(r.status, 503);
    assert_eq!(message_of(&r), "Could not update user.");
}
