//! Authentication state.

use crate::text::str_eq;
use vstd::prelude::*;

verus! {

/// Authentication information: the access token and the user it belongs
/// to.
#[derive(Debug, Clone)]
pub struct AuthInfo {
    /// Access token.
    pub token: String,
    /// User ID.
    pub uid: String,
}

impl AuthInfo {
    /// Whether the pair looks usable: a token and a user that is not `0`.
    pub open spec fn looks_valid(&self) -> bool {
        self.token@.len() > 0 && self.uid@.len() > 0 && self.uid@ != "0"@
    }

    /// Create new auth info.
    pub fn new(token: &str, uid: &str) -> (r: Self)
        ensures
            r.token@ == token@,
            r.uid@ == uid@,
    {
        AuthInfo { token: token.to_owned(), uid: uid.to_owned() }
    }

    /// Check if auth looks valid.
    pub fn is_valid(&self) -> (r: bool)
        ensures
            r == self.looks_valid(),
    {
        !self.token.as_str().is_empty() && !self.uid.as_str().is_empty() && !str_eq(
            self.uid.as_str(),
            "0",
        )
    }

    /// Copies the pair.
    pub fn duplicate(&self) -> (r: Self)
        ensures
            r.token@ == self.token@,
            r.uid@ == self.uid@,
    {
        AuthInfo { token: self.token.clone(), uid: self.uid.clone() }
    }
}

} // verus!
