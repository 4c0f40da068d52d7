//! Authenticated geospatial marker store: users register and log in, publish
//! geotagged event markers, and browse them by owner, by city or by distance.

pub mod credentials;
pub mod markers;
pub mod routes;
pub mod session;
pub mod store;
pub mod users;

use vstd::prelude::*;

verus! {

/// The uniform response envelope: a payload, or a list of error messages.
pub enum SomsiadStatus<T> {
    Success(T),
    Failure(Vec<String>),
}

impl<T> SomsiadStatus<T> {
    /// An error envelope that carries every message given.
    pub fn errors(errors: Vec<String>) -> (r: Self)
        ensures
            r matches SomsiadStatus::Failure(v) && v@ == errors@,
    {
        SomsiadStatus::Failure(errors)
    }

    /// An error envelope with a single message.
    pub fn error(error: &str) -> (r: Self)
        ensures
            r matches SomsiadStatus::Failure(v) && v@.len() == 1 && v@[0]@ == error@,
    {
        let mut v: Vec<String> = Vec::new();
        v.push(error.to_string());
        SomsiadStatus::Failure(v)
    }

    /// A success envelope around `obj`.
    pub fn ok(obj: T) -> (r: Self)
        ensures
            r == SomsiadStatus::Success(obj),
    {
        SomsiadStatus::Success(obj)
    }

    pub open spec fn is_error_with(&self, msg: Seq<char>) -> bool {
        self matches SomsiadStatus::Failure(v) && v@.len() == 1 && v@[0]@ == msg
    }
}

/// The identity of an authenticated user.
#[derive(PartialEq, Eq, Structural, Clone, Copy, Debug)]
pub struct UserID(pub u32);

impl From<u32> for UserID {
    fn from(val: u32) -> (r: Self)
        ensures
            r.0 == val,
    {
        UserID(val)
    }
}

impl vstd::std_specs::convert::FromSpecImpl<u32> for UserID {
    open spec fn obeys_from_spec() -> bool {
        true
    }

    open spec fn from_spec(v: u32) -> UserID {
        UserID(v)
    }
}

/// The cross-origin headers added to every response.
pub struct CORS;

impl CORS {
    /// The headers, by name and value: the allowed origin is the local
    /// front end in a debug build and the public site otherwise.
    pub fn headers(&self, debug: bool) -> (r: Vec<(String, String)>)
        ensures
            r@.len() == 4,
            r@[0].0@ == "Access-Control-Allow-Origin"@,
            r@[0].1@ == (if debug {
                "http://localhost:5173"@
            } else {
                "https://cosiedzieje.mikut.dev"@
            }),
            r@[1].0@ == "Access-Control-Allow-Methods"@,
            r@[1].1@ == "POST, GET, DELETE, OPTIONS, PUT"@,
            r@[2].0@ == "Access-Control-Allow-Headers"@,
            r@[2].1@ == "Accept, Content-Type"@,
            r@[3].0@ == "Access-Control-Allow-Credentials"@,
            r@[3].1@ == "true"@,
    {
        let origin = if debug {
            "http://localhost:5173"
        } else {
            "https://cosiedzieje.mikut.dev"
        };
        let mut v: Vec<(String, String)> = Vec::new();
        v.push(("Access-Control-Allow-Origin".to_owned(), origin.to_owned()));
        v.push(
            ("Access-Control-Allow-Methods".to_owned(), "POST, GET, DELETE, OPTIONS, PUT".to_owned()),
        );
        v.push(("Access-Control-Allow-Headers".to_owned(), "Accept, Content-Type".to_owned()));
        v.push(("Access-Control-Allow-Credentials".to_owned(), "true".to_owned()));
        v
    }
}

} // verus!
