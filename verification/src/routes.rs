//! Request and response payloads for the habit and user endpoints, and the
//! handlers that compute a response from a request against the store. The
//! surrounding transport (routing, JSON, status codes) is a collaborator;
//! these handlers are the part of a request that decides something.

use vstd::prelude::*;

use crate::error::Error;
use crate::habit::{mark_transition, unmark_transition, Habit};
use crate::store::{Store, StoreView};
use crate::user::{user_delete_transition, user_resolve_transition, User, UserView};

verus! {

/// The request payload when manipulating habits.
#[derive(Debug, Clone)]
pub struct HabitRequest {
    /// The name of the habit the request is about.
    pub name: String,
    /// Whether to mark (`true`) or unmark (`false`) the habit.
    pub should_mark: bool,
}

impl HabitRequest {
    /// Build a habit request from its parts.
    pub fn new(name: String, should_mark: bool) -> (r: HabitRequest)
        ensures
            r.name@ == name@,
            r.should_mark == should_mark,
    {
        HabitRequest { name, should_mark }
    }
}

/// The response payload for the habit endpoint: whether the transition
/// happened, plus optional metadata.
///
/// A `false` here is not an error: it is the documented "no-op, already in
/// that state" outcome.
#[derive(Debug, Clone)]
pub struct HabitResponse {
    /// Whether the requested transition was performed.
    pub succeded: bool,
    /// Additional metadata, when there is any.
    pub metadata: Option<String>,
}

impl HabitResponse {
    /// Build a habit response from its parts.
    pub fn new(succeded: bool, metadata: Option<String>) -> (r: HabitResponse)
        ensures
            r.succeded == succeded,
            r.metadata == metadata,
    {
        HabitResponse { succeded, metadata }
    }
}

/// What to do with the named user.
#[derive(Debug, Clone, PartialEq, Eq, Structural)]
#[allow(non_camel_case_types)]
pub enum UserAction {
    /// Create the user.
    CREATE,
    /// Delete the user.
    DELETE,
}

/// The request payload when manipulating users by username.
#[derive(Debug, Clone)]
pub struct UserRequests {
    /// The username the action applies to.
    pub username: String,
    /// The action to apply.
    pub action: UserAction,
}

/// A store error on its way out to the transport layer, which renders it as
/// a failure response.
#[derive(Debug, Clone, Copy, PartialEq, Eq, Structural)]
pub struct ResponseError(pub Error);

/// What handling a user request does to the store: the user is resolved or
/// created by username, and on `DELETE` the resolved row is then deleted.
pub open spec fn user_request_transition(
    s: StoreView,
    username: Seq<char>,
    action: UserAction,
) -> (StoreView, Result<bool, Error>) {
    let (s1, r1) = user_resolve_transition(s, username, username);
    match r1 {
        Err(e) => (s1, Err(e)),
        Ok(u) => match action {
            UserAction::CREATE => (s1, Ok(true)),
            UserAction::DELETE => {
                let (s2, r2) = user_delete_transition(s1, u);
                match r2 {
                    Err(e) => (s2, Err(e)),
                    Ok(_) => (s2, Ok(true)),
                }
            },
        },
    }
}

/// The logic to mark a habit at the current clock time: the habit named in
/// the request is marked, and the outcome becomes the response's success
/// flag, with no metadata.
pub fn handle_mark_habit(habit_name: String, store: &mut Store) -> (r: Result<
    HabitResponse,
    Error,
>)
    requires
        old(store)@.inv(),
    ensures
        final(store)@.inv(),
        exists|now: int|
            #![trigger mark_transition(old(store)@, habit_name@, now)]
            ({
                let (s2, out) = mark_transition(old(store)@, habit_name@, now);
                final(store)@ == s2 && (match (r, out) {
                    (Ok(resp), Ok(b)) => resp.succeded == b && resp.metadata is None,
                    (Err(e1), Err(e2)) => e1 == e2,
                    _ => false,
                })
            }),
{
    let habit = Habit { name: habit_name };
    match habit.mark_habit(store) {
        Ok(succeeded) => Ok(HabitResponse::new(succeeded, None)),
        Err(e) => Err(e),
    }
}

/// The logic to unmark a habit at the current clock time, the mirror image
/// of [`handle_mark_habit`].
pub fn handle_unmark_habit(habit_name: String, store: &mut Store) -> (r: Result<
    HabitResponse,
    Error,
>)
    requires
        old(store)@.inv(),
    ensures
        final(store)@.inv(),
        exists|now: int|
            #![trigger unmark_transition(old(store)@, habit_name@, now)]
            ({
                let (s2, out) = unmark_transition(old(store)@, habit_name@, now);
                final(store)@ == s2 && (match (r, out) {
                    (Ok(resp), Ok(b)) => resp.succeded == b && resp.metadata is None,
                    (Err(e1), Err(e2)) => e1 == e2,
                    _ => false,
                })
            }),
{
    let habit = Habit { name: habit_name };
    match habit.unmark_habit(store) {
        Ok(succeeded) => Ok(HabitResponse::new(succeeded, None)),
        Err(e) => Err(e),
    }
}

/// Dispatch a habit request: mark when `should_mark` is set, unmark
/// otherwise.
pub fn handle_habit_request(request: HabitRequest, store: &mut Store) -> (r: Result<
    HabitResponse,
    Error,
>)
    requires
        old(store)@.inv(),
    ensures
        final(store)@.inv(),
        request.should_mark ==> exists|now: int|
            #![trigger mark_transition(old(store)@, request.name@, now)]
            ({
                let (s2, out) = mark_transition(old(store)@, request.name@, now);
                final(store)@ == s2 && (match (r, out) {
                    (Ok(resp), Ok(b)) => resp.succeded == b && resp.metadata is None,
                    (Err(e1), Err(e2)) => e1 == e2,
                    _ => false,
                })
            }),
        !request.should_mark ==> exists|now: int|
            #![trigger unmark_transition(old(store)@, request.name@, now)]
            ({
                let (s2, out) = unmark_transition(old(store)@, request.name@, now);
                final(store)@ == s2 && (match (r, out) {
                    (Ok(resp), Ok(b)) => resp.succeded == b && resp.metadata is None,
                    (Err(e1), Err(e2)) => e1 == e2,
                    _ => false,
                })
            }),
{
    if request.should_mark {
        handle_mark_habit(request.name, store)
    } else {
        handle_unmark_habit(request.name, store)
    }
}

/// Handle a user request, per [`user_request_transition`]: resolve or
/// create the user by username, then delete the row when asked to.
pub fn handle_user_request(request: UserRequests, store: &mut Store) -> (r: Result<bool, Error>)
    requires
        old(store)@.inv(),
    ensures
        final(store)@.inv(),
        ({
            let (s2, out) = user_request_transition(old(store)@, request.username@, request.action);
            &&& final(store)@ == s2
            &&& r == out
        }),
{
    let user = match User::resolve_or_create(&request.username, &request.username, store) {
        Ok(user) => user,
        Err(e) => {
            return Err(e);
        },
    };
    match request.action {
        UserAction::CREATE => Ok(true),
        UserAction::DELETE => {
            match user.delete(store) {
                Ok(_) => Ok(true),
                Err(e) => Err(e),
            }
        },
    }
}

} // verus!
