//! The rows the database hands over, and the checks made on them before they are served.

pub mod ownership;
pub mod records;
pub mod records_merged;
pub mod userauthtoken;
pub mod users;

use crate::db::users::Model as UserModel;
use vstd::prelude::*;

verus! {

/// A user auth token found together with its user.
#[derive(Debug)]
pub struct TokenSearchRow {
    pub tokenhash: String,
    pub user: UserModel,
    pub tokenkey: String,
}

/// A zone, as the zones table lists it.
#[derive(Debug, Clone)]
pub struct Zone {
    pub id: i32,
    pub name: String,
}

/// A zone about to be added to the zones table.
#[derive(Debug, Clone, Copy)]
pub struct NewZone<'a> {
    pub name: &'a str,
}

/// Which user owns which zone.
#[derive(Debug, Clone, Copy, PartialEq, Eq)]
pub struct ZoneOwnership {
    /// The row's ID, once it has been saved
    pub id: Option<i64>,
    pub userid: i64,
    pub zoneid: i64,
}

impl ZoneOwnership {
    /// The ownership a stored row describes: the row's ID, user and zone.
    pub fn from_row(id: i64, userid: i64, zoneid: i64) -> (r: ZoneOwnership)
        ensures
            r == (ZoneOwnership { id: Some(id), userid, zoneid }),
    {
        ZoneOwnership { id: Some(id), zoneid, userid }
    }

    /// The same ownership under the ID the database gave it when it was saved.
    pub fn with_id(&self, id: i64) -> (r: ZoneOwnership)
        ensures
            r == (ZoneOwnership { id: Some(id), ..*self }),
    {
        ZoneOwnership { id: Some(id), ..*self }
    }
}

} // verus!
