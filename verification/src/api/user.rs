//! The tagged user endpoint: explicit create, delete by identifier, and
//! full-row update.

use vstd::prelude::*;

use crate::error::Error;
use crate::store::Store;
use crate::user::{
    user_delete_transition, user_insert_transition, user_retrieve_result, user_update_transition,
    User,
};

verus! {

/// The actions a request can apply to a user.
#[derive(Debug)]
pub enum Request {
    /// Create a user.
    Create { username: String, name: String },
    /// Delete a user by identifier.
    Delete { id: i64 },
    /// Overwrite a user's mutable fields.
    Update { user: User },
}

/// The response matching each request.
#[derive(Debug)]
pub enum Response {
    /// The created user, with its assigned identifier.
    Create { user: User },
    /// The user was deleted.
    Delete,
    /// The user as written.
    Update { user: User },
}

/// Handle a tagged user request: `Create` inserts (a duplicate username is
/// an error), `Delete` retrieves by identifier and removes the row, and
/// `Update` overwrites by identifier, each per the named transition.
pub fn user(request: Request, store: &mut Store) -> (r: Result<Response, Error>)
    requires
        old(store)@.inv(),
    ensures
        final(store)@.inv(),
        ({
            match request {
                Request::Create { username, name } => {
                    let (s2, out) = user_insert_transition(old(store)@, username@, name@);
                    &&& final(store)@ == s2
                    &&& match (r, out) {
                        (Ok(Response::Create { user }), Ok(uv)) => user@ == uv,
                        (Err(e1), Err(e2)) => e1 == e2,
                        _ => false,
                    }
                },
                Request::Delete { id } => {
                    match user_retrieve_result(old(store)@, id as int) {
                        Err(e) => {
                            &&& final(store)@ == old(store)@
                            &&& match r {
                                Err(e1) => e1 == e,
                                _ => false,
                            }
                        },
                        Ok(uv) => {
                            let (s2, out) = user_delete_transition(old(store)@, uv);
                            &&& final(store)@ == s2
                            &&& match (r, out) {
                                (Ok(Response::Delete), Ok(_)) => true,
                                (Err(e1), Err(e2)) => e1 == e2,
                                _ => false,
                            }
                        },
                    }
                },
                Request::Update { user } => {
                    let (s2, out) = user_update_transition(old(store)@, user@);
                    &&& final(store)@ == s2
                    &&& match (r, out) {
                        (Ok(Response::Update { user: written }), Ok(_)) => written@ == user@,
                        (Err(e1), Err(e2)) => e1 == e2,
                        _ => false,
                    }
                },
            }
        }),
{
    match request {
        Request::Create { username, name } => {
            match User::insert(username.as_str(), name.as_str(), store) {
                Ok(user) => Ok(Response::Create { user }),
                Err(e) => Err(e),
            }
        },
        Request::Delete { id } => {
            let user = match User::retrieve(id, store) {
                Ok(user) => user,
                Err(e) => {
                    return Err(e);
                },
            };
            match user.delete(store) {
                Ok(_) => Ok(Response::Delete),
                Err(e) => Err(e),
            }
        },
        Request::Update { user } => {
            match user.update(store) {
                Ok(_) => Ok(Response::Update { user }),
                Err(e) => Err(e),
            }
        },
    }
}

} // verus!
