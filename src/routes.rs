//! What each endpoint answers: the operation it runs on the store and the
//! envelope it returns. The web layer parses requests, handles the session
//! cookie and sends these envelopes.

use vstd::prelude::*;
use vstd::string::StringExecFns;
use crate::credentials::email_is_valid;
use crate::markers::{
    FullMarker, FullMarkerOwned, FullMarkerOwnedWithDist, delete_marker, in_city, nearest,
    owned_by, ranked_nearest, show_markers, show_markers_by_city, show_user_markers,
    stored_marker,
};
use crate::session::{decimal_of, session_value};
use crate::store::{Store, StoreError, email_taken, name_taken, user_exists};
use crate::users::{
    UserLogin, UserPrivateInfo, UserPublicInfo, UserRegister, login_outcome, private_info_of,
    public_info_of, registration_outcome,
};
use crate::{SomsiadStatus, UserID};

verus! {

pub const NOT_LOGGED_IN: &'static str = "Nie jesteś zalogowany";

pub const LOGGED_IN: &'static str = "Jesteś zalogowany";

pub const UNEXPECTED_ERROR: &'static str = "Nieoczekiwany błąd";

pub const EMAIL_TAKEN: &'static str = "Podany e-mail jest zajęty";

pub const NAME_TAKEN: &'static str = "Podany nick jest zajęty";

pub const BAD_CREDENTIALS: &'static str = "Email lub hasło podane przez ciebie nie są poprawne";

pub const LOGIN_FAILED: &'static str = "Nieoczekiwany błąd podczas logowania";

pub const PROFILE_ERROR: &'static str = "Wewnętrzny błąd";

/// The answer to a request without a valid session.
pub fn unauthorized_catcher() -> (r: SomsiadStatus<String>)
    ensures
        r.is_error_with(NOT_LOGGED_IN@),
{
    SomsiadStatus::error(NOT_LOGGED_IN)
}

/// The answer for a path that matches no route: success with an empty payload
/// for an `OPTIONS` request (a CORS preflight), else a "path does not exist"
/// error naming the path.
pub fn options_catcher(is_options: bool, uri: &str) -> (r: SomsiadStatus<String>)
    ensures
        is_options ==> (r matches SomsiadStatus::Success(s) && s@.len() == 0),
        !is_options ==> r.is_error_with("Ścieżka "@ + uri@ + " nie istnieje!"@),
{
    if is_options {
        SomsiadStatus::ok(String::new())
    } else {
        let mut msg = String::from_str("Ścieżka ");
        msg.append(uri);
        msg.append(" nie istnieje!");
        let mut v: Vec<String> = Vec::new();
        v.push(msg);
        SomsiadStatus::errors(v)
    }
}

/// The answer to a liveness check by an authenticated user.
pub fn is_logged(_user: UserID) -> (r: SomsiadStatus<String>)
    ensures
        r matches SomsiadStatus::Success(s) && s@ == LOGGED_IN@,
{
    SomsiadStatus::ok(LOGGED_IN.to_owned())
}

/// Validates and stores a registration.
pub fn register(db: &mut Store, user: &UserRegister) -> (r: SomsiadStatus<()>)
    requires
        old(db).wf(),
    ensures
        final(db).wf(),
        !email_is_valid(user.login.email@) ==> *final(db) == *old(db) && (r matches SomsiadStatus::Failure(v)
            && v@.len() == 1 && v@[0]@ == seq!['e', 'm', 'a', 'i', 'l']),
        email_is_valid(user.login.email@) ==> {
            if email_taken(old(db).users@, user.login.email@) {
                r.is_error_with(EMAIL_TAKEN@) && *final(db) == *old(db)
            } else if name_taken(old(db).users@, user.username@) {
                r.is_error_with(NAME_TAKEN@) && *final(db) == *old(db)
            } else if old(db).next_user_id == u32::MAX {
                r.is_error_with(UNEXPECTED_ERROR@) && *final(db) == *old(db)
            } else {
                r == SomsiadStatus::Success(()) && final(db).markers@ == old(db).markers@
                    && registration_outcome(*old(db), *user, *final(db), Ok(true))
            }
        },
{
    match user.validate() {
        Err(fields) => SomsiadStatus::errors(fields),
        Ok(()) => match user.add_to_db(db) {
            Ok(true) => SomsiadStatus::ok(()),
            Ok(false) => SomsiadStatus::error(UNEXPECTED_ERROR),
            Err(StoreError::EmailTaken) => SomsiadStatus::error(EMAIL_TAKEN),
            Err(StoreError::NameTaken) => SomsiadStatus::error(NAME_TAKEN),
            Err(_) => SomsiadStatus::error(UNEXPECTED_ERROR),
        },
    }
}

/// Checks credentials. On success, the second part is the payload of the
/// session token to issue; a wrong password and an unknown email get the same
/// answer.
pub fn login(db: &Store, user: &UserLogin) -> (r: (SomsiadStatus<()>, Option<String>))
    requires
        db.wf(),
    ensures
        match login_outcome(db.users@, user.email@, user.password@) {
            Ok((true, id)) => r.0 == SomsiadStatus::<()>::Success(()) && (r.1 matches Some(t)
                && t@ == decimal_of(id as nat)),
            Ok((false, _)) => r.0.is_error_with(BAD_CREDENTIALS@) && r.1 is None,
            Err(_) => r.0.is_error_with(LOGIN_FAILED@) && r.1 is None,
        },
{
    match user.login(db) {
        Err(_) => (SomsiadStatus::error(LOGIN_FAILED), None),
        Ok((false, _)) => (SomsiadStatus::error(BAD_CREDENTIALS), None),
        Ok((true, id)) => (SomsiadStatus::ok(()), Some(session_value(UserID(id)))),
    }
}

/// The answer to a logout; the caller discards the session token.
pub fn logout() -> (r: SomsiadStatus<()>)
    ensures
        r == SomsiadStatus::<()>::Success(()),
{
    SomsiadStatus::ok(())
}

/// The authenticated user's own profile.
pub fn user_data(db: &Store, user_id: UserID) -> (r: SomsiadStatus<UserPrivateInfo>)
    ensures
        !user_exists(db.users@, user_id.0) ==> r.is_error_with(PROFILE_ERROR@),
        user_exists(db.users@, user_id.0) ==> (r matches SomsiadStatus::Success(info) && exists|i: int|
            0 <= i < db.users@.len() && #[trigger] db.users@[i].id == user_id.0 && private_info_of(
                db.users@[i],
                info,
            )),
{
    match UserPrivateInfo::from_id(db, user_id.0) {
        Ok(info) => SomsiadStatus::ok(info),
        Err(_) => SomsiadStatus::error(PROFILE_ERROR),
    }
}

/// Anybody's public profile.
pub fn get_user_data(db: &Store, id: u32) -> (r: SomsiadStatus<UserPublicInfo>)
    ensures
        !user_exists(db.users@, id) ==> r.is_error_with(PROFILE_ERROR@),
        user_exists(db.users@, id) ==> (r matches SomsiadStatus::Success(info) && exists|i: int|
            0 <= i < db.users@.len() && #[trigger] db.users@[i].id == id && public_info_of(db.users@[i], info)),
{
    match UserPublicInfo::from_id(db, id) {
        Ok(info) => SomsiadStatus::ok(info),
        Err(_) => SomsiadStatus::error(PROFILE_ERROR),
    }
}

/// Every marker.
pub fn get_markers(db: &Store) -> (r: SomsiadStatus<Vec<FullMarkerOwned>>)
    ensures
        r matches SomsiadStatus::Success(v) && v@ == db.markers@,
{
    SomsiadStatus::ok(show_markers(db))
}

/// The markers in `city`.
pub fn get_markers_by_city(db: &Store, city: &str) -> (r: SomsiadStatus<Vec<FullMarkerOwned>>)
    ensures
        r matches SomsiadStatus::Success(v) && v@ == db.markers@.filter(in_city(city@)),
{
    SomsiadStatus::ok(show_markers_by_city(db, city))
}

/// The authenticated user's own markers.
pub fn get_user_markers(db: &Store, user_id: UserID) -> (r: SomsiadStatus<Vec<FullMarkerOwned>>)
    ensures
        r matches SomsiadStatus::Success(v) && v@ == db.markers@.filter(owned_by(user_id.0)),
{
    SomsiadStatus::ok(show_user_markers(db, user_id.0))
}

/// The answer to a proximity search, given the markers inside the search box
/// with their exact distances: the nearest of them, nearest first.
pub fn get_markers_by_dist(cands: Vec<FullMarkerOwnedWithDist>) -> (r: SomsiadStatus<
    Vec<FullMarkerOwnedWithDist>,
>)
    ensures
        r matches SomsiadStatus::Success(v) && ranked_nearest(cands@, v@),
{
    SomsiadStatus::ok(nearest(cands))
}

/// Publishes a marker for the authenticated user.
pub fn add_marker(db: &mut Store, marker: &FullMarker, user_id: UserID) -> (r: SomsiadStatus<()>)
    requires
        old(db).wf(),
    ensures
        final(db).wf(),
        final(db).users@ == old(db).users@,
        old(db).next_marker_id < u32::MAX ==> r == SomsiadStatus::<()>::Success(()) && exists|t: i64|
            final(db).markers@ == old(db).markers@.push(
                #[trigger] stored_marker(*marker, old(db).next_marker_id, user_id.0, t),
            ),
        old(db).next_marker_id == u32::MAX ==> r.is_error_with(UNEXPECTED_ERROR@) && *final(db) == *old(db),
{
    if marker.add_marker(db, user_id.0) {
        SomsiadStatus::ok(())
    } else {
        SomsiadStatus::error(UNEXPECTED_ERROR)
    }
}

/// Deletes one of the authenticated user's markers, answering with it.
pub fn remove_marker(db: &mut Store, user_id: UserID, marker_id: u32) -> (r: SomsiadStatus<FullMarkerOwned>)
    requires
        old(db).wf(),
    ensures
        final(db).wf(),
        final(db).users@ == old(db).users@,
        r is Failure <==> !exists|i: int|
            0 <= i < old(db).markers@.len() && #[trigger] old(db).markers@[i].id == marker_id
                && old(db).markers@[i].user_id == user_id.0,
        r is Failure ==> r.is_error_with(UNEXPECTED_ERROR@) && *final(db) == *old(db),
        r matches SomsiadStatus::Success(m) ==> exists|i: int|
            0 <= i < old(db).markers@.len() && #[trigger] old(db).markers@[i] == m && m.id == marker_id
                && m.user_id == user_id.0 && final(db).markers@ == old(db).markers@.remove(i),
{
    match delete_marker(db, user_id.0, marker_id) {
        Ok(m) => SomsiadStatus::ok(m),
        Err(_) => SomsiadStatus::error(UNEXPECTED_ERROR),
    }
}

} // verus!
