//! Users registered with the chat server.

use vstd::prelude::*;

verus! {

/// A registered user name.
#[derive(Debug)]
pub struct User {
    pub username: String,
}

} // verus!
