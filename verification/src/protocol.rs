//! The relationship-mutation protocol: every mutating add or delete touches
//! an entity row and its ownership-relation row as one two-statement
//! transaction. The phase machine below fixes its shape — either both
//! statements land and the transaction commits, or the first failure aborts
//! the whole mutation and nothing stays visible — and the response mappers
//! fix what each failure point answers.

use vstd::prelude::*;
use crate::response::{is_message, message_response, ApiResponse, STATUS_STORE_FAILURE};

verus! {

/// Where a two-statement mutation stands.
#[derive(Clone, Copy, Debug, PartialEq, Eq, Structural)]
pub enum TxPhase {
    /// The transaction is open, nothing applied yet.
    Start,
    /// The first statement has been applied inside the transaction.
    FirstDone,
    /// Both statements have been applied inside the transaction.
    SecondDone,
    /// The transaction committed: both effects are visible.
    Committed,
    /// The transaction was rolled back: no effect is visible.
    Aborted,
}

/// The step a mutation is at when something goes wrong.
#[derive(Clone, Copy, Debug, PartialEq, Eq, Structural)]
pub enum TxStep {
    /// Opening the transaction.
    Begin,
    /// The first statement of the pair.
    First,
    /// The second statement of the pair.
    Second,
    /// Committing the transaction.
    Commit,
}

/// The phase is neither committed nor aborted.
pub open spec fn in_progress(p: TxPhase) -> bool {
    p == TxPhase::Start || p == TxPhase::FirstDone || p == TxPhase::SecondDone
}

/// Advance the phase machine by one statement outcome: success moves one
/// step toward the commit, any failure aborts at once.
pub fn advance(p: TxPhase, ok: bool) -> (q: TxPhase)
    requires
        in_progress(p),
    ensures
        !ok ==> q == TxPhase::Aborted,
        ok && p == TxPhase::Start ==> q == TxPhase::FirstDone,
        ok && p == TxPhase::FirstDone ==> q == TxPhase::SecondDone,
        ok && p == TxPhase::SecondDone ==> q == TxPhase::Committed,
{
    if !ok {
        TxPhase::Aborted
    } else {
        match p {
            TxPhase::Start => TxPhase::FirstDone,
            TxPhase::FirstDone => TxPhase::SecondDone,
            TxPhase::SecondDone => TxPhase::Committed,
            _ => TxPhase::Aborted,
        }
    }
}

/// Run a whole two-statement mutation through the phase machine. The
/// mutation commits exactly when every step succeeded; on the first failure
/// it aborts, and there is no third outcome — no phase in which one effect
/// is visible without the other.
pub fn run_mutation(first_ok: bool, second_ok: bool, commit_ok: bool) -> (p: TxPhase)
    ensures
        p == TxPhase::Committed <==> (first_ok && second_ok && commit_ok),
        p == TxPhase::Committed || p == TxPhase::Aborted,
{
    let mut p = advance(TxPhase::Start, first_ok);
    if p == TxPhase::Aborted {
        return p;
    }
    p = advance(p, second_ok);
    if p == TxPhase::Aborted {
        return p;
    }
    advance(p, commit_ok)
}

/// A rollback is owed exactly when a statement failed inside the open
/// transaction: a failure to open needs nothing, and a failed commit is
/// already the end of the transaction.
pub fn rollback_on_failure(step: TxStep) -> (b: bool)
    ensures
        b == (step == TxStep::First || step == TxStep::Second),
{
    match step {
        TxStep::First => true,
        TxStep::Second => true,
        _ => false,
    }
}

/// What a failed user add answers, by the step that failed.
pub fn user_add_failure_response(step: TxStep) -> (r: ApiResponse)
    ensures
        step == TxStep::Begin ==> is_message(r, STATUS_STORE_FAILURE, "Database is busy."@),
        step == TxStep::First ==> is_message(r, STATUS_STORE_FAILURE, "Could not add user."@),
        step == TxStep::Second ==> is_message(
            r,
            STATUS_STORE_FAILURE,
            "Could not bind user to customer."@,
        ),
        step == TxStep::Commit ==> is_message(
            r,
            STATUS_STORE_FAILURE,
            "Could not commit transaction."@,
        ),
{
    match step {
        TxStep::Begin => message_response(STATUS_STORE_FAILURE, "Database is busy."),
        TxStep::First => message_response(STATUS_STORE_FAILURE, "Could not add user."),
        TxStep::Second => message_response(
            STATUS_STORE_FAILURE,
            "Could not bind user to customer.",
        ),
        TxStep::Commit => message_response(STATUS_STORE_FAILURE, "Could not commit transaction."),
    }
}

/// What a failed user delete answers, by the step that failed.
pub fn user_delete_failure_response(step: TxStep) -> (r: ApiResponse)
    ensures
        step == TxStep::Begin ==> is_message(r, STATUS_STORE_FAILURE, "Database is busy."@),
        step == TxStep::First ==> is_message(r, STATUS_STORE_FAILURE, "Could not unbind user."@),
        step == TxStep::Second ==> is_message(r, STATUS_STORE_FAILURE, "Could not delete user."@),
        step == TxStep::Commit ==> is_message(
            r,
            STATUS_STORE_FAILURE,
            "Could not commit transaction."@,
        ),
{
    match step {
        TxStep::Begin => message_response(STATUS_STORE_FAILURE, "Database is busy."),
        TxStep::First => message_response(STATUS_STORE_FAILURE, "Could not unbind user."),
        TxStep::Second => message_response(STATUS_STORE_FAILURE, "Could not delete user."),
        TxStep::Commit => message_response(STATUS_STORE_FAILURE, "Could not commit transaction."),
    }
}

/// What a failed customer add answers, by the step that failed.
pub fn customer_add_failure_response(step: TxStep) -> (r: ApiResponse)
    ensures
        step == TxStep::Begin ==> is_message(r, STATUS_STORE_FAILURE, "Database is busy."@),
        step == TxStep::First ==> is_message(
            r,
            STATUS_STORE_FAILURE,
            "Could not create customer"@,
        ),
        step == TxStep::Second ==> is_message(r, STATUS_STORE_FAILURE, "Could not add customer"@),
        step == TxStep::Commit ==> is_message(
            r,
            STATUS_STORE_FAILURE,
            "Could not commit transaction."@,
        ),
{
    match step {
        TxStep::Begin => message_response(STATUS_STORE_FAILURE, "Database is busy."),
        TxStep::First => message_response(STATUS_STORE_FAILURE, "Could not create customer"),
        TxStep::Second => message_response(STATUS_STORE_FAILURE, "Could not add customer"),
        TxStep::Commit => message_response(STATUS_STORE_FAILURE, "Could not commit transaction."),
    }
}

/// What a failed customer delete answers, by the step that failed.
pub fn customer_delete_failure_response(step: TxStep) -> (r: ApiResponse)
    ensures
        step == TxStep::Begin ==> is_message(r, STATUS_STORE_FAILURE, "Database is busy."@),
        step == TxStep::First || step == TxStep::Second ==> is_message(
            r,
            STATUS_STORE_FAILURE,
            "Could not remove user."@,
        ),
        step == TxStep::Commit ==> is_message(
            r,
            STATUS_STORE_FAILURE,
            "Could not commit transaction."@,
        ),
{
    match step {
        TxStep::Begin => message_response(STATUS_STORE_FAILURE, "Database is busy."),
        TxStep::First => message_response(STATUS_STORE_FAILURE, "Could not remove user."),
        TxStep::Second => message_response(STATUS_STORE_FAILURE, "Could not remove user."),
        TxStep::Commit => message_response(STATUS_STORE_FAILURE, "Could not commit transaction."),
    }
}

/// What a failed partial update answers, for either entity kind.
pub fn update_failure_response() -> (r: ApiResponse)
    ensures
        is_message(r, STATUS_STORE_FAILURE, "Could not update user."@),
{
    message_response(STATUS_STORE_FAILURE, "Could not update user.")
}

} // verus!
