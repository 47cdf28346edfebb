use vstd::prelude::*;
use crate::models::users::{PublicUser, Username};

verus! {

/// Users found by a name search.
pub struct SearchUsersResponse(pub Vec<PublicUser>);

/// A name search.
pub struct SearchUsersQuery {
    pub username: Username,
}

} // verus!
