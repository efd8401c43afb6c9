//! Users and sessions, as the service layer records them.

use vstd::prelude::*;

verus! {

/// The identifier of a user.
#[derive(Clone, Copy, Debug, PartialEq, Eq, Structural, Hash)]
pub struct UserId {
    pub id: u128,
}

/// The identifier of a session.
#[derive(Clone, Copy, Debug, PartialEq, Eq, Structural, Hash)]
pub struct SessionId {
    pub id: u128,
}

/// What the service knows about a user.
#[derive(Clone, Debug)]
pub struct UserInfo {
    pub id: UserId,
    pub email: Option<String>,
    pub real_name: Option<String>,
}

impl UserInfo {
    /// An anonymous user: an identifier without mail address or name.
    pub fn anonymous(id: UserId) -> (r: UserInfo)
        ensures
            r.id == id,
            r.email is None,
            r.real_name is None,
    {
        UserInfo { id, email: None, real_name: None }
    }
}

} // verus!
