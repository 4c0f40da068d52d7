//! The backing store: user rows with their profiles, and markers.

use vstd::prelude::*;
use crate::markers::FullMarkerOwned;
use crate::users::UserRecord;

verus! {

/// Why a store operation failed.
#[derive(PartialEq, Eq, Structural, Clone, Copy, Debug)]
pub enum StoreError {
    /// No such user or marker (for a marker: none with that id and owner).
    NotFound,
    /// Another user already has this email.
    EmailTaken,
    /// Another user already has this display name.
    NameTaken,
    /// Anything else: no identifier left, a malformed stored hash.
    Internal,
}

/// Users (each with its profile) and markers. Identifiers are handed out
/// from counters that start at 1, so 0 never names a row.
#[derive(Debug)]
pub struct Store {
    pub users: Vec<UserRecord>,
    pub markers: Vec<FullMarkerOwned>,
    pub next_user_id: u32,
    pub next_marker_id: u32,
}

pub open spec fn email_taken(users: Seq<UserRecord>, email: Seq<char>) -> bool {
    exists|i: int| 0 <= i < users.len() && #[trigger] users[i].email@ == email
}

pub open spec fn name_taken(users: Seq<UserRecord>, name: Seq<char>) -> bool {
    exists|i: int| 0 <= i < users.len() && #[trigger] users[i].username@ == name
}

pub open spec fn user_exists(users: Seq<UserRecord>, id: u32) -> bool {
    exists|i: int| 0 <= i < users.len() && #[trigger] users[i].id == id
}

impl Store {
    /// Identifiers are positive, below their counter and unique; emails and
    /// display names are unique.
    pub open spec fn wf(&self) -> bool {
        &&& 1 <= self.next_user_id
        &&& 1 <= self.next_marker_id
        &&& forall|i: int|
            0 <= i < self.users@.len() ==> 1 <= #[trigger] self.users@[i].id < self.next_user_id
        &&& forall|i: int, j: int|
            0 <= i < self.users@.len() && 0 <= j < self.users@.len() && i != j ==> {
                &&& #[trigger] self.users@[i].id != #[trigger] self.users@[j].id
                &&& self.users@[i].email@ != self.users@[j].email@
                &&& self.users@[i].username@ != self.users@[j].username@
            }
        &&& forall|i: int|
            0 <= i < self.markers@.len() ==> 1 <= #[trigger] self.markers@[i].id
                < self.next_marker_id
        &&& forall|i: int, j: int|
            0 <= i < self.markers@.len() && 0 <= j < self.markers@.len() && i != j
                ==> #[trigger] self.markers@[i].id != #[trigger] self.markers@[j].id
    }

    /// An empty store.
    pub fn new() -> (r: Self)
        ensures
            r.wf(),
            r.users@.len() == 0,
            r.markers@.len() == 0,
            r.next_user_id == 1,
            r.next_marker_id == 1,
    {
        Store { users: Vec::new(), markers: Vec::new(), next_user_id: 1, next_marker_id: 1 }
    }
}

} // verus!
