use somsiad_api::markers::{
    delete_marker, nearest, show_markers, show_markers_by_city, show_markers_by_dist,
    show_user_markers, BoundingBox, ContactInfo, ContactMethod, EventType, FullMarker,
    FullMarkerOwnedWithDist, NEAREST_LIMIT,
};
use somsiad_api::routes;
use somsiad_api::session::{parse_session, session_value};
use somsiad_api::store::{Store, StoreError};
use somsiad_api::users::{Address, Sex, UserLogin, UserPrivateInfo, UserPublicInfo, UserRegister};
use somsiad_api::{SomsiadStatus, UserID, CORS};

fn address(city: &str) -> Address {
    Address { street: "Main".to_string(), number: "1".to_string(), city: city.to_string() }
}

fn registration(email: &str, username: &str, password: &str) -> UserRegister {
    UserRegister {
        login: UserLogin { email: email.to_string(), password: password.to_string() },
        username: username.to_string(),
        name: "Jan".to_string(),
        surname: "Kowalski".to_string(),
        sex: Sex::Male,
        address: address("Warszawa"),
        reputation: 0,
    }
}

fn marker(lat: i64, lon: i64, city: &str) -> FullMarker {
    FullMarker {
        latitude: lat,
        longitude: lon,
        title: "Pomoc".to_string(),
        description: "Zakupy dla sasiada".to_string(),
        event_type: EventType::NeighborHelp,
        add_time: 7,
        start_time: Some(1_700_000_000),
        end_time: None,
        address: address(city),
        contact_info: ContactInfo {
            name: "Anna".to_string(),
            surname: "Nowak".to_string(),
            address: address(city),
            method: ContactMethod::PhoneNumber("123456789".to_string()),
        },
    }
}

/// A store with users inserted under a fixed hash, for tests that never log in.
fn store_with_users(names: &[&str]) -> (Store, Vec<u32>) {
    let mut db = Store::new();
    let mut ids = Vec::new();
    for n in names {
        let reg = registration(&format!("{n}@example.com"), n, "secret");
        ids.push(db.insert_user(&reg, "hash".to_string()).unwrap());
    }
    (db, ids)
}

fn error_text<T>(s: &SomsiadStatus<T>) -> Vec<String> {
    match s {
        SomsiadStatus::Failure(v) => v.clone(),
        SomsiadStatus::Success(_) => vec![],
    }
}

#[test]
fn register_stores_user_and_profile() {
    let mut db = Store::new();
    let reg = registration("a@example.com", "alice", "pass1234");
    assert_eq!(reg.add_to_db(&mut db), Ok(true));
    assert_eq!(db.users.len(), 1);
    let id = db.users[0].id;
    assert_eq!(id, 1);
    assert!(db.users[0].password.starts_with("$2y$12$"));
    assert_ne!(db.users[0].password, "pass1234");
    let public = UserPublicInfo::from_id(&db, id).unwrap();
    assert_eq!(public.username, "alice");
    assert_eq!(public.name, "Jan");
    assert_eq!(public.surname, "Kowalski");
    assert_eq!(public.sex, Sex::Male);
    assert_eq!(public.reputation, 0);
    let private = UserPrivateInfo::from_id(&db, id).unwrap();
    assert_eq!(private.email, "a@example.com");
    assert_eq!(private.address.city, "Warszawa");
}

#[test]
fn duplicate_email_and_name_are_rejected() {
    let (mut db, _) = store_with_users(&["alice"]);
    let same_email = registration("alice@example.com", "bob", "x");
    assert_eq!(db.insert_user(&same_email, "h".to_string()), Err(StoreError::EmailTaken));
    let same_name = registration("bob@example.com", "alice", "x");
    assert_eq!(db.insert_user(&same_name, "h".to_string()), Err(StoreError::NameTaken));
    assert_eq!(db.users.len(), 1);
    let status = routes::register(&mut db, &registration("alice@example.com", "carol", "x"));
    assert_eq!(error_text(&status), vec![routes::EMAIL_TAKEN.to_string()]);
    let status = routes::register(&mut db, &registration("carol@example.com", "alice", "x"));
    assert_eq!(error_text(&status), vec![routes::NAME_TAKEN.to_string()]);
    assert_eq!(db.users.len(), 1);
}

#[test]
fn login_checks_password_and_email() {
    let mut db = Store::new();
    assert_eq!(registration("a@example.com", "alice", "pass1234").add_to_db(&mut db), Ok(true));
    let good = UserLogin { email: "a@example.com".to_string(), password: "pass1234".to_string() };
    assert_eq!(good.login(&db), Ok((true, 1)));
    let bad = UserLogin { email: "a@example.com".to_string(), password: "wrong".to_string() };
    assert_eq!(bad.login(&db).map(|r| r.0), Ok(false));
    let unknown = UserLogin { email: "x@example.com".to_string(), password: "pass1234".to_string() };
    assert_eq!(unknown.login(&db), Ok((false, 0)));
    let (s1, t1) = routes::login(&db, &bad);
    let (s2, t2) = routes::login(&db, &unknown);
    assert!(t1.is_none() && t2.is_none());
    assert_eq!(error_text(&s1), error_text(&s2));
    assert_eq!(error_text(&s1), vec![routes::BAD_CREDENTIALS.to_string()]);
}

#[test]
fn malformed_stored_hash_is_an_internal_error() {
    let (db, _) = store_with_users(&["alice"]);
    let l = UserLogin { email: "alice@example.com".to_string(), password: "secret".to_string() };
    assert_eq!(l.login(&db), Err(StoreError::Internal));
    let (status, token) = routes::login(&db, &l);
    assert!(token.is_none());
    assert_eq!(error_text(&status), vec![routes::LOGIN_FAILED.to_string()]);
}

#[test]
fn invalid_email_is_reported_by_field_name() {
    let mut db = Store::new();
    let reg = registration("not-an-email", "alice", "x");
    assert_eq!(reg.validate(), Err(vec!["email".to_string()]));
    let status = routes::register(&mut db, &reg);
    assert_eq!(error_text(&status), vec!["email".to_string()]);
    assert!(db.users.is_empty());
    assert_eq!(registration("a@example.com", "a", "x").validate(), Ok(()));
}

#[test]
fn session_payload_round_trips() {
    for id in [0u32, 1, 9, 10, 42, 1234567, u32::MAX] {
        let v = session_value(UserID(id));
        assert_eq!(v, id.to_string());
        assert_eq!(parse_session(&v), Some(UserID(id)));
    }
    assert_eq!(parse_session("+17"), Some(UserID(17)));
    assert_eq!(parse_session(""), None);
    assert_eq!(parse_session("+"), None);
    assert_eq!(parse_session("1x"), None);
    assert_eq!(parse_session("4294967296"), None);
    assert_eq!(parse_session("-1"), None);
}

#[test]
fn tampered_session_payload_does_not_name_the_user() {
    let v = session_value(UserID(42));
    let mut bytes = v.into_bytes();
    bytes[0] ^= 0x40;
    let tampered = String::from_utf8(bytes).unwrap();
    assert_ne!(parse_session(&tampered), Some(UserID(42)));
}

#[test]
fn delete_requires_ownership() {
    let (mut db, ids) = store_with_users(&["alice", "bob"]);
    assert!(marker(52_200_000, 21_000_000, "X").add_marker(&mut db, ids[0]));
    let mid = db.markers[0].id;
    assert_eq!(delete_marker(&mut db, ids[1], mid).err(), Some(StoreError::NotFound));
    assert_eq!(db.markers.len(), 1);
    let status = routes::remove_marker(&mut db, UserID(ids[1]), mid);
    assert_eq!(error_text(&status), vec![routes::UNEXPECTED_ERROR.to_string()]);
    let removed = delete_marker(&mut db, ids[0], mid).unwrap();
    assert_eq!(removed.id, mid);
    assert_eq!(removed.user_id, ids[0]);
    assert_eq!(removed.title, "Pomoc");
    assert!(db.markers.is_empty());
    assert_eq!(delete_marker(&mut db, ids[0], mid).err(), Some(StoreError::NotFound));
}

#[test]
fn add_time_is_set_by_the_store() {
    let (mut db, ids) = store_with_users(&["alice"]);
    let m = marker(1, 2, "X");
    assert!(m.add_marker(&mut db, ids[0]));
    let stored = &db.markers[0];
    assert_ne!(stored.add_time, 7);
    assert!(stored.add_time > 1_600_000_000);
    assert_eq!(stored.start_time, Some(1_700_000_000));
    assert_eq!(stored.end_time, None);
    db.insert_marker(&m, ids[0], 99);
    assert_eq!(db.markers[1].add_time, 99);
    assert_eq!(db.markers[1].id, 2);
}

#[test]
fn markers_by_city_round_trip() {
    let (mut db, ids) = store_with_users(&["alice"]);
    db.insert_marker(&marker(0, 0, "X"), ids[0], 5);
    db.insert_marker(&marker(0, 0, "Y"), ids[0], 5);
    let x = show_markers_by_city(&db, "X");
    assert_eq!(x.len(), 1);
    assert_eq!(x[0].address.street, "Main");
    assert_eq!(x[0].address.number, "1");
    assert_eq!(x[0].address.city, "X");
    assert!(show_markers_by_city(&db, "Z").is_empty());
    assert_eq!(show_markers_by_city(&db, "Y")[0].id, 2);
    assert_eq!(show_markers(&db).len(), 2);
}

#[test]
fn bounding_box_margins() {
    let b = BoundingBox::around(52_200_000, 21_000_000, 5, 1_000_000);
    // 5 km / 111.045 km per degree = 0.0450268... degrees, rounded up.
    assert_eq!(b.min_lat, 52_200_000 - 45_027);
    assert_eq!(b.max_lat, 52_200_000 + 45_027);
    assert_eq!(b.min_lon, 21_000_000 - 45_027);
    let b = BoundingBox::around(60_000_000, 0, 111, 500_000);
    // 111 / (111.045 * 0.5) = 1.99918997... degrees of longitude.
    assert_eq!(b.max_lat, 60_000_000 + 999_595);
    assert_eq!(b.max_lon, 1_999_190);
    assert_eq!(b.min_lon, -1_999_190);
}

#[test]
fn proximity_includes_query_point_and_excludes_outside_box() {
    let (mut db, ids) = store_with_users(&["alice"]);
    let b = BoundingBox::around(52_200_000, 21_000_000, 5, 613_000);
    db.insert_marker(&marker(52_200_000, 21_000_000, "X"), ids[0], 1);
    db.insert_marker(&marker(b.max_lat as i64 + 1, 21_000_000, "X"), ids[0], 1);
    db.insert_marker(&marker(52_200_000, b.min_lon as i64 - 1, "X"), ids[0], 1);
    db.insert_marker(&marker(b.max_lat as i64, b.max_lon as i64, "X"), ids[0], 1);
    let found = show_markers_by_dist(&db, &b);
    let found_ids: Vec<u32> = found.iter().map(|m| m.id).collect();
    assert_eq!(found_ids, vec![1, 4]);
}

#[test]
fn nearest_sorts_and_caps() {
    let (mut db, ids) = store_with_users(&["alice"]);
    for _ in 0..20 {
        db.insert_marker(&marker(0, 0, "X"), ids[0], 1);
    }
    let dists = [500u64, 3, 70, 0, 9, 12, 4000, 1, 1, 80, 15, 16, 900, 2, 33, 44, 55, 66, 77, 88];
    let cands: Vec<FullMarkerOwnedWithDist> = show_markers(&db)
        .into_iter()
        .zip(dists.iter())
        .map(|(m, d)| FullMarkerOwnedWithDist { marker: m, distance_m: *d })
        .collect();
    let r = nearest(cands);
    assert_eq!(r.len(), NEAREST_LIMIT);
    let got: Vec<u64> = r.iter().map(|m| m.distance_m).collect();
    assert_eq!(got, vec![0, 1, 1, 2, 3, 9, 12, 15, 16, 33, 44, 55, 66, 70, 77]);
    assert_eq!(r[0].marker.id, 4);
    let few = nearest(vec![]);
    assert!(few.is_empty());
}

#[test]
fn end_to_end_scenario() {
    let mut db = Store::new();
    let reg = registration("a@example.com", "alice", "pass1234");
    assert!(matches!(routes::register(&mut db, &reg), SomsiadStatus::Success(())));
    let (status, token) = routes::login(&db, &reg.login);
    assert!(matches!(status, SomsiadStatus::Success(())));
    let me = parse_session(&token.unwrap()).unwrap();
    assert_eq!(me, UserID(1));
    assert!(matches!(routes::add_marker(&mut db, &marker(52_200_100, 21_000_100, "X"), me), SomsiadStatus::Success(())));
    let mine = show_user_markers(&db, me.0);
    assert_eq!(mine.len(), 1);
    let mid = mine[0].id;
    let b = BoundingBox::around(52_200_000, 21_000_000, 5, 612_907);
    let near: Vec<FullMarkerOwnedWithDist> = show_markers_by_dist(&db, &b)
        .into_iter()
        .map(|m| FullMarkerOwnedWithDist { marker: m, distance_m: 13 })
        .collect();
    let ranked = nearest(near);
    assert_eq!(ranked.len(), 1);
    assert_eq!(ranked[0].marker.id, mid);
    match routes::remove_marker(&mut db, me, mid) {
        SomsiadStatus::Success(m) => assert_eq!(m.id, mid),
        SomsiadStatus::Failure(e) => panic!("{e:?}"),
    }
    assert!(show_user_markers(&db, me.0).is_empty());
}

#[test]
fn profiles_of_unknown_users_are_not_found() {
    let (db, _) = store_with_users(&["alice"]);
    assert_eq!(UserPublicInfo::from_id(&db, 7).err(), Some(StoreError::NotFound));
    assert_eq!(UserPrivateInfo::from_id(&db, 0).err(), Some(StoreError::NotFound));
    assert_eq!(error_text(&routes::get_user_data(&db, 7)), vec![routes::PROFILE_ERROR.to_string()]);
    assert!(matches!(routes::user_data(&db, UserID(1)), SomsiadStatus::Success(_)));
}

#[test]
fn catchers_and_headers() {
    assert_eq!(error_text(&routes::unauthorized_catcher()), vec![routes::NOT_LOGGED_IN.to_string()]);
    assert!(matches!(routes::options_catcher(true, "/x"), SomsiadStatus::Success(s) if s.is_empty()));
    assert_eq!(
        error_text(&routes::options_catcher(false, "/api/x")),
        vec!["Ścieżka /api/x nie istnieje!".to_string()]
    );
    let h = CORS.headers(false);
    assert_eq!(h[0], ("Access-Control-Allow-Origin".to_string(), "https://cosiedzieje.mikut.dev".to_string()));
    assert_eq!(CORS.headers(true)[0].1, "http://localhost:5173");
    assert_eq!(h[3].1, "true");
    assert_eq!(UserID::from(5u32), UserID(5));
}

/// Great-circle distance in kilometres, at 111.045 km per degree of arc.
fn distance_km(lat1: f64, lon1: f64, lat2: f64, lon2: f64) -> f64 {
    let (phi_a, phi_b) = (lat1.to_radians(), lat2.to_radians());
    let c = phi_a.cos() * phi_b.cos() * (lon1.to_radians() - lon2.to_radians()).cos() + phi_a.sin() * phi_b.sin();
    111.045 * c.min(1.0).acos().to_degrees()
}

#[test]
fn proximity_search_ranks_by_exact_distance() {
    let (mut db, ids) = store_with_users(&["alice"]);
    let (lat, lon) = (52.2f64, 21.0f64);
    let points: [(f64, f64); 5] = [(52.21, 21.0), (52.2, 21.0), (52.2, 21.05), (52.3, 21.0), (52.19, 20.99)];
    for (a, b) in points {
        db.insert_marker(&marker((a * 1e6).round() as i64, (b * 1e6).round() as i64, "X"), ids[0], 1);
    }
    let cos_e6 = (lat.to_radians().cos() * 1e6).round() as u32;
    let area = BoundingBox::around(52_200_000, 21_000_000, 5, cos_e6);
    let inside = show_markers_by_dist(&db, &area);
    let inside_ids: Vec<u32> = inside.iter().map(|m| m.id).collect();
    assert_eq!(inside_ids, vec![1, 2, 3, 5]);
    let cands: Vec<FullMarkerOwnedWithDist> = inside
        .into_iter()
        .map(|m| {
            let km = distance_km(lat, lon, m.latitude as f64 / 1e6, m.longitude as f64 / 1e6);
            FullMarkerOwnedWithDist { marker: m, distance_m: (km * 1000.0).round() as u64 }
        })
        .collect();
    match routes::get_markers_by_dist(cands) {
        SomsiadStatus::Success(r) => {
            let got: Vec<(u32, u64)> = r.iter().map(|m| (m.marker.id, m.distance_m)).collect();
            assert_eq!(got[0], (2, 0));
            assert_eq!(got.iter().map(|g| g.0).collect::<Vec<_>>(), vec![2, 1, 5, 3]);
            assert_eq!(got[1].1, 1110);
            assert!(got.windows(2).all(|w| w[0].1 <= w[1].1));
        }
        SomsiadStatus::Failure(e) => panic!("{e:?}"),
    }
}
