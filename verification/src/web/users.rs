//! Users checked against the password table.

use vstd::prelude::*;

verus! {

/// A user whose password matched, who may be an administrator.
#[derive(Debug)]
pub struct User {
    pub username: String,
    pub is_admin: bool,
}

} // verus!
