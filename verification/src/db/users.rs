//! A row of the users table.

use vstd::prelude::*;

verus! {

/// A user of the web interface and API.
#[derive(Debug, Clone)]
pub struct Model {
    /// The user's UUID, as its 128 bits
    pub id: u128,
    pub displayname: String,
    pub username: String,
    pub email: String,
    pub disabled: bool,
    pub authref: Option<String>,
    pub admin: bool,
}

} // verus!
