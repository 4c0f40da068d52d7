//! Markers: published geotagged events, and the queries over them.

use vstd::prelude::*;
use crate::store::{Store, StoreError};
use crate::users::{Address, AddressOwned};

verus! {

/// The kind of event a marker announces.
#[derive(PartialEq, Eq, Structural, Clone, Copy, Debug)]
pub enum EventType {
    NeighborHelp,
    Happening,
    Charity,
    MassEvent,
}

/// How to reach the person behind a marker.
#[derive(Debug)]
pub enum ContactMethod {
    Email(String),
    PhoneNumber(String),
}

impl ContactMethod {
    pub fn clone_record(&self) -> (r: Self)
        ensures
            r == *self,
    {
        match self {
            ContactMethod::Email(s) => ContactMethod::Email(s.clone()),
            ContactMethod::PhoneNumber(s) => ContactMethod::PhoneNumber(s.clone()),
        }
    }
}

/// Contact details attached to a marker.
#[derive(Debug)]
pub struct ContactInfo {
    pub name: String,
    pub surname: String,
    pub address: AddressOwned,
    pub method: ContactMethod,
}

impl ContactInfo {
    pub fn clone_record(&self) -> (r: Self)
        ensures
            r == *self,
    {
        ContactInfo {
            name: self.name.clone(),
            surname: self.surname.clone(),
            address: self.address.clone_record(),
            method: self.method.clone_record(),
        }
    }
}

/// A marker as submitted by its author. Coordinates are in millionths of a
/// degree, times in seconds since the Unix epoch.
#[derive(Debug)]
pub struct FullMarker {
    pub latitude: i64,
    pub longitude: i64,
    pub title: String,
    pub description: String,
    pub event_type: EventType,
    /// Ignored: the store sets the creation time itself.
    pub add_time: i64,
    pub start_time: Option<i64>,
    pub end_time: Option<i64>,
    pub address: Address,
    pub contact_info: ContactInfo,
}

/// A stored marker.
#[derive(Debug)]
pub struct FullMarkerOwned {
    pub id: u32,
    pub latitude: i64,
    pub longitude: i64,
    pub title: String,
    pub description: String,
    pub event_type: EventType,
    pub add_time: i64,
    pub start_time: Option<i64>,
    pub end_time: Option<i64>,
    pub address: AddressOwned,
    pub contact_info: ContactInfo,
    pub user_id: u32,
}

impl FullMarkerOwned {
    pub fn clone_record(&self) -> (r: Self)
        ensures
            r == *self,
    {
        FullMarkerOwned {
            id: self.id,
            latitude: self.latitude,
            longitude: self.longitude,
            title: self.title.clone(),
            description: self.description.clone(),
            event_type: self.event_type,
            add_time: self.add_time,
            start_time: self.start_time,
            end_time: self.end_time,
            address: self.address.clone_record(),
            contact_info: self.contact_info.clone_record(),
            user_id: self.user_id,
        }
    }
}

/// A stored marker with its distance from a query point, in metres.
#[derive(Debug)]
pub struct FullMarkerOwnedWithDist {
    pub marker: FullMarkerOwned,
    pub distance_m: u64,
}

/// Relies on chrono's `Utc::now` and `DateTime::timestamp`: the current time, in
/// whole seconds since the Unix epoch. Nothing is promised of its value.
#[verifier::external_body]
fn now_seconds() -> (r: i64) {
    chrono::Utc::now().timestamp()
}

pub open spec fn owned_by(user_id: u32) -> spec_fn(FullMarkerOwned) -> bool {
    |m: FullMarkerOwned| m.user_id == user_id
}

pub open spec fn in_city(city: Seq<char>) -> spec_fn(FullMarkerOwned) -> bool {
    |m: FullMarkerOwned| m.address.city@ == city
}

/// The row that inserting `m` for `user_id` under `id` at `add_time` stores:
/// the submitted creation time is replaced.
pub open spec fn stored_marker(m: FullMarker, id: u32, user_id: u32, add_time: i64) -> FullMarkerOwned {
    FullMarkerOwned {
        id,
        latitude: m.latitude,
        longitude: m.longitude,
        title: m.title,
        description: m.description,
        event_type: m.event_type,
        add_time,
        start_time: m.start_time,
        end_time: m.end_time,
        address: m.address,
        contact_info: m.contact_info,
        user_id,
    }
}

impl Store {
    /// Inserts `marker` for `user_id` with creation time `add_time`; false,
    /// with nothing changed, only when no marker identifier is left.
    pub fn insert_marker(&mut self, marker: &FullMarker, user_id: u32, add_time: i64) -> (r: bool)
        requires
            old(self).wf(),
        ensures
            final(self).wf(),
            final(self).users@ == old(self).users@,
            r == (old(self).next_marker_id < u32::MAX),
            r ==> final(self).markers@ == old(self).markers@.push(
                stored_marker(*marker, old(self).next_marker_id, user_id, add_time),
            ),
            !r ==> *final(self) == *old(self),
    {
        if self.next_marker_id == u32::MAX {
            return false;
        }
        let id = self.next_marker_id;
        let row = FullMarkerOwned {
            id,
            latitude: marker.latitude,
            longitude: marker.longitude,
            title: marker.title.clone(),
            description: marker.description.clone(),
            event_type: marker.event_type,
            add_time,
            start_time: marker.start_time,
            end_time: marker.end_time,
            address: marker.address.clone_record(),
            contact_info: marker.contact_info.clone_record(),
            user_id,
        };
        self.markers.push(row);
        self.next_marker_id = id + 1;
        proof {
            assert(self.markers@.last().id == id);
        }
        true
    }
}

impl FullMarker {
    /// Stores this marker for `user_id`, stamped with the current time; false
    /// only when no marker identifier is left.
    pub fn add_marker(&self, db: &mut Store, user_id: u32) -> (r: bool)
        requires
            old(db).wf(),
        ensures
            final(db).wf(),
            final(db).users@ == old(db).users@,
            r == (old(db).next_marker_id < u32::MAX),
            r ==> exists|t: i64| final(db).markers@ == old(db).markers@.push(
                #[trigger] stored_marker(*self, old(db).next_marker_id, user_id, t),
            ),
            !r ==> *final(db) == *old(db),
    {
        let now = now_seconds();
        let r = db.insert_marker(self, user_id, now);
        proof {
            if r {
                assert(final(db).markers@ == old(db).markers@.push(
                    stored_marker(*self, old(db).next_marker_id, user_id, now)));
            }
        }
        r
    }
}

/// Every marker.
pub fn show_markers(db: &Store) -> (r: Vec<FullMarkerOwned>)
    ensures
        r@ == db.markers@,
{
    let mut out: Vec<FullMarkerOwned> = Vec::new();
    let mut i: usize = 0;
    while i < db.markers.len()
        invariant
            i <= db.markers@.len(),
            out@ == db.markers@.subrange(0, i as int),
        decreases db.markers@.len() - i,
    {
        out.push(db.markers[i].clone_record());
        i += 1;
        proof {
            assert(out@ =~= db.markers@.subrange(0, i as int));
        }
    }
    proof {
        assert(db.markers@.subrange(0, i as int) =~= db.markers@);
    }
    out
}

/// The markers whose address lies in `city` (exact match), in store order.
pub fn show_markers_by_city(db: &Store, city: &str) -> (r: Vec<FullMarkerOwned>)
    ensures
        r@ == db.markers@.filter(in_city(city@)),
{
    let wanted: String = city.to_owned();
    let mut out: Vec<FullMarkerOwned> = Vec::new();
    let mut i: usize = 0;
    while i < db.markers.len()
        invariant
            wanted@ == city@,
            i <= db.markers@.len(),
            out@ == db.markers@.subrange(0, i as int).filter(in_city(city@)),
        decreases db.markers@.len() - i,
    {
        proof {
            let s1 = db.markers@.subrange(0, i + 1);
            assert(s1.drop_last() =~= db.markers@.subrange(0, i as int));
            assert(s1.last() == db.markers@[i as int]);
            assert(s1.drop_last().push(s1.last()) =~= s1);
            s1.drop_last().lemma_filter_push(s1.last(), in_city(city@));
            assert(s1.filter(in_city(city@)) == (if (in_city(city@))(s1.last()) {
                s1.drop_last().filter(in_city(city@)).push(s1.last())
            } else {
                s1.drop_last().filter(in_city(city@))
            }));
        }
        let m = &db.markers[i];
        if m.address.city == wanted {
            out.push(m.clone_record());
        }
        i += 1;
    }
    proof {
        assert(db.markers@.subrange(0, i as int) =~= db.markers@);
    }
    out
}

/// The markers owned by `user_id`, in store order.
pub fn show_user_markers(db: &Store, user_id: u32) -> (r: Vec<FullMarkerOwned>)
    ensures
        r@ == db.markers@.filter(owned_by(user_id)),
{
    let mut out: Vec<FullMarkerOwned> = Vec::new();
    let mut i: usize = 0;
    while i < db.markers.len()
        invariant
            i <= db.markers@.len(),
            out@ == db.markers@.subrange(0, i as int).filter(owned_by(user_id)),
        decreases db.markers@.len() - i,
    {
        proof {
            let s1 = db.markers@.subrange(0, i + 1);
            assert(s1.drop_last() =~= db.markers@.subrange(0, i as int));
            assert(s1.last() == db.markers@[i as int]);
            assert(s1.drop_last().push(s1.last()) =~= s1);
            s1.drop_last().lemma_filter_push(s1.last(), owned_by(user_id));
            assert(s1.filter(owned_by(user_id)) == (if (owned_by(user_id))(s1.last()) {
                s1.drop_last().filter(owned_by(user_id)).push(s1.last())
            } else {
                s1.drop_last().filter(owned_by(user_id))
            }));
        }
        let m = &db.markers[i];
        if m.user_id == user_id {
            out.push(m.clone_record());
        }
        i += 1;
    }
    proof {
        assert(db.markers@.subrange(0, i as int) =~= db.markers@);
    }
    out
}

/// Removes and returns the marker `marker_id` if `user_id` owns it; otherwise
/// fails with `NotFound` and changes nothing.
pub fn delete_marker(db: &mut Store, user_id: u32, marker_id: u32) -> (r: Result<
    FullMarkerOwned,
    StoreError,
>)
    requires
        old(db).wf(),
    ensures
        final(db).wf(),
        final(db).users@ == old(db).users@,
        final(db).next_user_id == old(db).next_user_id,
        final(db).next_marker_id == old(db).next_marker_id,
        r is Err <==> !exists|i: int|
            0 <= i < old(db).markers@.len() && #[trigger] old(db).markers@[i].id == marker_id
                && old(db).markers@[i].user_id == user_id,
        r is Err ==> r == Err::<FullMarkerOwned, StoreError>(StoreError::NotFound) && *final(db)
            == *old(db),
        r matches Ok(m) ==> exists|i: int|
            0 <= i < old(db).markers@.len() && #[trigger] old(db).markers@[i] == m && m.id
                == marker_id && m.user_id == user_id && final(db).markers@ == old(
                db,
            ).markers@.remove(i),
{
    let mut i: usize = 0;
    while i < db.markers.len()
        invariant
            *db == *old(db),
            db.wf(),
            i <= db.markers@.len(),
            forall|k: int|
                0 <= k < i ==> !(#[trigger] db.markers@[k].id == marker_id && db.markers@[k].user_id
                    == user_id),
        decreases db.markers@.len() - i,
    {
        if db.markers[i].id == marker_id && db.markers[i].user_id == user_id {
            let ghost before = db.markers@;
            let m = db.markers.remove(i);
            proof {
                assert forall|a: int, b: int|
                    0 <= a < db.markers@.len() && 0 <= b < db.markers@.len() && a != b
                        implies #[trigger] db.markers@[a].id != #[trigger] db.markers@[b].id by {
                    let a0 = if a < i { a } else { a + 1 };
                    let b0 = if b < i { b } else { b + 1 };
                    assert(db.markers@[a] == before[a0]);
                    assert(db.markers@[b] == before[b0]);
                }
                assert forall|a: int| 0 <= a < db.markers@.len() implies 1 <= #[trigger] db.markers@[a].id
                    < db.next_marker_id by {
                    let a0 = if a < i { a } else { a + 1 };
                    assert(db.markers@[a] == before[a0]);
                }
            }
            return Ok(m);
        }
        i += 1;
    }
    Err(StoreError::NotFound)
}

/// Kilometres per degree of latitude, in metres: 111.045 km.
pub const METRES_PER_DEGREE: u64 = 111_045;

/// The most markers a proximity search returns.
pub const NEAREST_LIMIT: usize = 15;

/// A latitude/longitude rectangle, bounds included, in millionths of a degree.
#[derive(PartialEq, Eq, Structural, Clone, Copy, Debug)]
pub struct BoundingBox {
    pub min_lat: i128,
    pub max_lat: i128,
    pub min_lon: i128,
    pub max_lon: i128,
}

/// Half the height of the box around a point for `radius_km`, in millionths
/// of a degree: the radius over 111.045 km per degree, rounded up.
pub open spec fn lat_margin(radius_km: u32) -> int {
    (radius_km * 1_000_000_000int + 111_044) / 111_045
}

/// Half the width of the box for `radius_km` at a latitude whose cosine is
/// `cos_e6` millionths: a degree of longitude there spans 111.045 km times the
/// cosine. Rounded up.
pub open spec fn lon_margin(radius_km: u32, cos_e6: u32) -> int {
    (radius_km * 1_000_000_000_000_000int + 111_045 * cos_e6 - 1) / (111_045 * cos_e6)
}

pub open spec fn in_box(b: BoundingBox) -> spec_fn(FullMarkerOwned) -> bool {
    |m: FullMarkerOwned|
        b.min_lat <= m.latitude <= b.max_lat && b.min_lon <= m.longitude <= b.max_lon
}

impl BoundingBox {
    /// The box of `radius_km` around (`latitude`, `longitude`), where
    /// `cos_lat_e6` is the cosine of the latitude in millionths.
    pub fn around(latitude: i64, longitude: i64, radius_km: u32, cos_lat_e6: u32) -> (r: Self)
        requires
            0 < cos_lat_e6 <= 1_000_000,
        ensures
            r.min_lat == latitude - lat_margin(radius_km),
            r.max_lat == latitude + lat_margin(radius_km),
            r.min_lon == longitude - lon_margin(radius_km, cos_lat_e6),
            r.max_lon == longitude + lon_margin(radius_km, cos_lat_e6),
    {
        let rad = radius_km as u128;
        let cos = cos_lat_e6 as u128;
        assert(rad * 1_000_000_000_000_000 <= 4_294_967_295u128 * 1_000_000_000_000_000)
            by (nonlinear_arith)
            requires
                rad <= 4_294_967_295u128,
        ;
        assert(111_045 * cos <= 111_045 * 1_000_000u128) by (nonlinear_arith)
            requires
                cos <= 1_000_000u128,
        ;
        let dlat = (rad * 1_000_000_000 + 111_044) / 111_045;
        let unit = 111_045 * cos;
        let dlon = (rad * 1_000_000_000_000_000 + unit - 1) / unit;
        assert(dlon <= rad * 1_000_000_000_000_000 + unit) by (nonlinear_arith)
            requires
                unit >= 1,
                dlon as int == (rad * 1_000_000_000_000_000 + unit - 1) as int / unit as int,
        ;
        let dlat = dlat as i128;
        let dlon = dlon as i128;
        BoundingBox {
            min_lat: latitude as i128 - dlat,
            max_lat: latitude as i128 + dlat,
            min_lon: longitude as i128 - dlon,
            max_lon: longitude as i128 + dlon,
        }
    }
}

/// The markers inside `b`, in store order: the cheap first stage of a
/// proximity search, before exact distances are computed.
pub fn show_markers_by_dist(db: &Store, b: &BoundingBox) -> (r: Vec<FullMarkerOwned>)
    ensures
        r@ == db.markers@.filter(in_box(*b)),
{
    let mut out: Vec<FullMarkerOwned> = Vec::new();
    let mut i: usize = 0;
    while i < db.markers.len()
        invariant
            i <= db.markers@.len(),
            out@ == db.markers@.subrange(0, i as int).filter(in_box(*b)),
        decreases db.markers@.len() - i,
    {
        proof {
            let s1 = db.markers@.subrange(0, i + 1);
            assert(s1.drop_last() =~= db.markers@.subrange(0, i as int));
            assert(s1.last() == db.markers@[i as int]);
            assert(s1.drop_last().push(s1.last()) =~= s1);
            s1.drop_last().lemma_filter_push(s1.last(), in_box(*b));
        }
        let m = &db.markers[i];
        if b.min_lat <= m.latitude as i128 && m.latitude as i128 <= b.max_lat && b.min_lon
            <= m.longitude as i128 && m.longitude as i128 <= b.max_lon {
            out.push(m.clone_record());
        }
        i += 1;
    }
    proof {
        assert(db.markers@.subrange(0, i as int) =~= db.markers@);
    }
    out
}

pub open spec fn sorted_by_distance(s: Seq<FullMarkerOwnedWithDist>) -> bool {
    forall|i: int, j: int| 0 <= i < j < s.len() ==> s[i].distance_m <= s[j].distance_m
}

/// `kept` is what ranking `cands` keeps: the nearest of them, at most
/// `NEAREST_LIMIT`, nearest first; every candidate left out is no nearer than
/// any kept one.
pub open spec fn ranked_nearest(
    cands: Seq<FullMarkerOwnedWithDist>,
    kept: Seq<FullMarkerOwnedWithDist>,
) -> bool {
    &&& kept.len() == if cands.len() < NEAREST_LIMIT { cands.len() } else { NEAREST_LIMIT as nat }
    &&& sorted_by_distance(kept)
    &&& exists|rest: Seq<FullMarkerOwnedWithDist>|
        #[trigger] kept.to_multiset().add(rest.to_multiset()) == cands.to_multiset() && forall|
            i: int,
            j: int,
        | 0 <= i < kept.len() && 0 <= j < rest.len() ==> kept[i].distance_m <= rest[j].distance_m
}

/// The second stage of a proximity search: orders candidates by distance,
/// nearest first, and keeps at most `NEAREST_LIMIT`.
pub fn nearest(cands: Vec<FullMarkerOwnedWithDist>) -> (r: Vec<FullMarkerOwnedWithDist>)
    ensures
        ranked_nearest(cands@, r@),
{
    broadcast use vstd::seq_lib::group_to_multiset_ensures;

    let ghost all = cands@;
    let mut rest = cands;
    let mut out: Vec<FullMarkerOwnedWithDist> = Vec::new();
    while out.len() < NEAREST_LIMIT && rest.len() > 0
        invariant
            out@.len() <= NEAREST_LIMIT,
            out@.len() + rest@.len() == all.len(),
            sorted_by_distance(out@),
            out@.to_multiset().add(rest@.to_multiset()) == all.to_multiset(),
            forall|i: int, j: int|
                0 <= i < out@.len() && 0 <= j < rest@.len() ==> out@[i].distance_m
                    <= rest@[j].distance_m,
        decreases rest@.len(),
    {
        let mut k: usize = 0;
        let mut j: usize = 1;
        while j < rest.len()
            invariant
                k < j <= rest@.len(),
                forall|t: int| 0 <= t < j ==> rest@[k as int].distance_m <= #[trigger] rest@[t].distance_m,
            decreases rest@.len() - j,
        {
            if rest[j].distance_m < rest[k].distance_m {
                k = j;
            }
            j += 1;
        }
        let ghost before = rest@;
        let ghost out_before = out@;
        let x = rest.remove(k);
        out.push(x);
        proof {
            assert(out@ == out_before.push(x));
            assert(rest@ == before.remove(k as int));
            vstd::seq_lib::to_multiset_build(out_before, x);
            vstd::seq_lib::to_multiset_remove(before, k as int);
            assert(out@.to_multiset() == out_before.to_multiset().insert(x));
            assert(rest@.to_multiset() == before.to_multiset().remove(x));
            assert(before.contains(x)) by {
                assert(before[k as int] == x);
            }
            vstd::seq_lib::to_multiset_contains(before, x);
            assert(before.to_multiset().contains(x));
            assert(out@.to_multiset().add(rest@.to_multiset()) =~= all.to_multiset());
            assert forall|a: int, b: int|
                0 <= a < out@.len() && 0 <= b < rest@.len() implies out@[a].distance_m
                <= rest@[b].distance_m by {
                let b0 = if b < k { b } else { b + 1 };
                assert(rest@[b] == before[b0]);
            }
        }
    }
    proof {
        assert(out@.to_multiset().add(rest@.to_multiset()) == all.to_multiset());
    }
    out
}

/// The query point lies inside the box built around it, so a marker standing
/// exactly there is never filtered out.
pub proof fn lemma_query_point_in_box(
    latitude: i64,
    longitude: i64,
    radius_km: u32,
    cos_lat_e6: u32,
    b: BoundingBox,
    m: FullMarkerOwned,
)
    requires
        0 < cos_lat_e6 <= 1_000_000,
        b.min_lat == latitude - lat_margin(radius_km),
        b.max_lat == latitude + lat_margin(radius_km),
        b.min_lon == longitude - lon_margin(radius_km, cos_lat_e6),
        b.max_lon == longitude + lon_margin(radius_km, cos_lat_e6),
        m.latitude == latitude,
        m.longitude == longitude,
    ensures
        (in_box(b))(m),
{
    assert(lon_margin(radius_km, cos_lat_e6) >= 0) by (nonlinear_arith)
        requires
            0 < cos_lat_e6,
    ;
}

/// The first marker a ranking keeps is at least as near as every candidate.
pub proof fn lemma_nearest_first_is_closest(
    cands: Seq<FullMarkerOwnedWithDist>,
    kept: Seq<FullMarkerOwnedWithDist>,
)
    requires
        ranked_nearest(cands, kept),
        cands.len() > 0,
    ensures
        forall|j: int| 0 <= j < cands.len() ==> kept[0].distance_m <= #[trigger] cands[j].distance_m,
{
    broadcast use vstd::seq_lib::group_to_multiset_ensures;

    let rest = choose|rest: Seq<FullMarkerOwnedWithDist>|
        #[trigger] kept.to_multiset().add(rest.to_multiset()) == cands.to_multiset() && forall|
            i: int,
            j: int,
        | 0 <= i < kept.len() && 0 <= j < rest.len() ==> kept[i].distance_m <= rest[j].distance_m;
    assert forall|j: int| 0 <= j < cands.len() implies kept[0].distance_m
        <= #[trigger] cands[j].distance_m by {
        let x = cands[j];
        assert(cands.contains(x));
        assert(cands.to_multiset().count(x) > 0);
        if kept.to_multiset().count(x) > 0 {
            assert(kept.contains(x));
            let a = choose|a: int| 0 <= a < kept.len() && kept[a] == x;
            assert(a == 0 || kept[0].distance_m <= kept[a].distance_m);
        } else {
            assert(rest.to_multiset().count(x) > 0);
            assert(rest.contains(x));
            let b = choose|b: int| 0 <= b < rest.len() && rest[b] == x;
            assert(kept[0].distance_m <= rest[b].distance_m);
        }
    }
}

/// A marker just added with address city `city` is listed for `city`, and
/// the listing for any other city is as it was.
pub proof fn lemma_city_round_trip(
    before: Seq<FullMarkerOwned>,
    m: FullMarkerOwned,
    city: Seq<char>,
    other: Seq<char>,
)
    requires
        m.address.city@ == city,
        other != city,
    ensures
        before.push(m).filter(in_city(city)).contains(m),
        before.push(m).filter(in_city(other)) == before.filter(in_city(other)),
{
    before.lemma_filter_push(m, in_city(city));
    before.lemma_filter_push(m, in_city(other));
    let f = before.filter(in_city(city)).push(m);
    assert(f[f.len() - 1] == m);
}

proof fn lemma_ceil_div_covers(a: int, b: int)
    requires
        a >= 0,
        b > 0,
    ensures
        ((a + b - 1) / b) * b >= a,
{
    let x = a + b - 1;
    let q = x / b;
    vstd::arithmetic::div_mod::lemma_fundamental_div_mod(x, b);
    vstd::arithmetic::div_mod::lemma_mod_bound(x, b);
    assert(q * b == b * q) by (nonlinear_arith);
    assert(q * b == x - x % b);
}

/// The box never cuts a radius short along either axis: its half-height, at
/// 111.045 km per degree, spans at least `radius_km`, and so does its
/// half-width at 111.045 km times the latitude's cosine per degree.
pub proof fn lemma_box_covers_radius(radius_km: u32, cos_e6: u32)
    requires
        0 < cos_e6 <= 1_000_000,
    ensures
        lat_margin(radius_km) * 111_045 >= radius_km * 1_000_000_000int,
        lon_margin(radius_km, cos_e6) * (111_045 * cos_e6) >= radius_km * 1_000_000_000_000_000int,
{
    lemma_ceil_div_covers(radius_km * 1_000_000_000int, 111_045);
    lemma_ceil_div_covers(radius_km * 1_000_000_000_000_000int, 111_045 * cos_e6);
}

} // verus!
