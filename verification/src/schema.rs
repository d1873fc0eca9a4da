//! Request and response shapes exchanged with the routing layer.

use vstd::prelude::*;

verus! {

/// The stored credential pair: a normalized username and the opaque password
/// hash. The hash is never logged or returned to a caller.
#[derive(Debug)]
pub struct User {
    pub username: String,
    pub password_hash: String,
}

impl View for User {
    type V = (Seq<char>, Seq<char>);

    open spec fn view(&self) -> (Seq<char>, Seq<char>) {
        (self.username@, self.password_hash@)
    }
}

impl Clone for User {
    fn clone(&self) -> (r: Self)
        ensures
            r@ == self@,
    {
        User { username: self.username.clone(), password_hash: self.password_hash.clone() }
    }
}

#[derive(Debug)]
pub struct RegisterRequest {
    pub user: String,
    pub password: String,
}

#[derive(Debug)]
pub struct LoginRequest {
    pub user: String,
    pub password: String,
}

#[derive(Debug)]
pub struct ImpersonateRequest {
    pub action: String,
    pub user: String,
}

#[derive(Debug)]
pub struct LoginResponse {
    pub token: String,
}

/// Marker for a successful registration; it maps to a created status (201),
/// the canonical choice for this library.
#[derive(Debug)]
pub struct Created;

} // verus!
