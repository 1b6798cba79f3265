//! Trips under way: where each was last seen, and when its vehicle has stopped.

use crate::double::{number, Double};
use crate::names::NameMap;
use crate::stats::PositionRecord;
use crate::text::{copy_text, join, same_text, signed_text};
use std::collections::HashMap;
use vstd::prelude::*;

verus! {

broadcast use vstd::std_specs::hash::group_hash_axioms;

/// Whether a user is under way.
#[derive(Debug, Clone, Copy, PartialEq, Eq, Structural)]
pub enum UserStatus {
    Moving,
    Stationary,
}

/// A trip as the database keeps it.
#[derive(Debug, Clone, PartialEq)]
pub struct TripRecord {
    pub id: i64,
    pub username: String,
    pub started_at: i64,
    pub ended_at: Option<i64>,
}

/// Where a trip was last seen to move, and for how long it has stayed there.
#[derive(Debug, Clone, Copy, PartialEq, Eq, Structural)]
pub struct CoordState {
    pub lat: Double,
    pub lon: Double,
    /// How many samples in a row were taken at this place, counted up to
    /// `STOP_THRESHOLD_SAMPLES`.
    pub n: u32,
    /// Whether the stop at this place has been recorded.
    pub inserted: bool,
}

/// After this many samples in a row at one place, the next one there is a stop.
pub const STOP_THRESHOLD_SAMPLES: u32 = 6;

/// The pattern of five: two places at most this many metres apart count as one.
pub const MOVEMENT_EPS_METERS: u64 = 0x4014_0000_0000_0000;

/// What the database gets of a sample.
#[derive(Debug, Clone, Copy, PartialEq, Eq, Structural)]
pub enum InsertAction {
    Insert { stopped: bool },
    Skip,
}

/// What a sample does to the status of its user.
#[derive(Debug, Clone, Copy, PartialEq, Eq, Structural)]
pub enum StatusTransition {
    ToMoving,
    ToStationary,
    Unchanged,
}

/// What is told of a trip that cannot be closed or followed.
pub const NO_OPEN_TRIP: &'static str = "viaggio inesistente, non tuo o già chiuso";

/// A place that has just been reached.
pub open spec fn reached(lat: Double, lon: Double) -> CoordState {
    CoordState { lat, lon, n: 1, inserted: false }
}

/// A distance so small that its ends count as one place.
pub open spec fn near(distance: Double) -> bool {
    distance.le(number(MOVEMENT_EPS_METERS))
}

/// Whether two places that are `distance` metres apart count as one.
pub fn coords_equal(distance: Double) -> (b: bool)
    ensures
        b == near(distance),
{
    distance.at_most(number(MOVEMENT_EPS_METERS))
}

/// The distance that separates one place from two is five metres.
pub proof fn law_movement_threshold()
    ensures
        number(MOVEMENT_EPS_METERS).value() == crate::double::units(5),
        !number(MOVEMENT_EPS_METERS).is_nan(),
        forall|d: Double| #[trigger]
            near(d) <==> !d.is_nan() && d.value() <= crate::double::units(5),
{
    crate::double::lemma_five(MOVEMENT_EPS_METERS);
}

/// The rule for a sample taken `distance` metres from where the trip was last
/// seen to move.
pub open spec fn sample(c: CoordState, lat: Double, lon: Double, distance: Double) -> (
    CoordState,
    InsertAction,
    StatusTransition,
) {
    if !near(distance) {
        (reached(lat, lon), InsertAction::Insert { stopped: false }, StatusTransition::ToMoving)
    } else if c.n < STOP_THRESHOLD_SAMPLES {
        (
            CoordState { n: (c.n + 1) as u32, ..c },
            InsertAction::Insert { stopped: false },
            StatusTransition::Unchanged,
        )
    } else if !c.inserted {
        (
            CoordState { inserted: true, ..c },
            InsertAction::Insert { stopped: true },
            StatusTransition::ToStationary,
        )
    } else {
        (c, InsertAction::Skip, StatusTransition::Unchanged)
    }
}

/// Applies the rule for a sample.
pub fn take_sample(c: CoordState, lat: Double, lon: Double, distance: Double) -> (r: (
    CoordState,
    InsertAction,
    StatusTransition,
))
    ensures
        r == sample(c, lat, lon, distance),
{
    if !coords_equal(distance) {
        (
            CoordState { lat, lon, n: 1, inserted: false },
            InsertAction::Insert { stopped: false },
            StatusTransition::ToMoving,
        )
    } else if c.n < STOP_THRESHOLD_SAMPLES {
        (
            CoordState { n: c.n + 1, lat: c.lat, lon: c.lon, inserted: c.inserted },
            InsertAction::Insert { stopped: false },
            StatusTransition::Unchanged,
        )
    } else if !c.inserted {
        (
            CoordState { inserted: true, lat: c.lat, lon: c.lon, n: c.n },
            InsertAction::Insert { stopped: true },
            StatusTransition::ToStationary,
        )
    } else {
        (c, InsertAction::Skip, StatusTransition::Unchanged)
    }
}

/// One sample of a trip: where it was taken, and how far that is from where the
/// trip was last seen to move.
pub struct Reading {
    pub lat: Double,
    pub lon: Double,
    pub distance: Double,
}

/// Where a trip stands after a run of samples.
pub open spec fn after_samples(c: CoordState, run: Seq<Reading>) -> CoordState
    decreases run.len(),
{
    if run.len() == 0 {
        c
    } else {
        let r = run.last();
        sample(after_samples(c, run.drop_last()), r.lat, r.lon, r.distance).0
    }
}

/// Of the samples that follow in one place after it was reached, the first five
/// are recorded as movement, the sixth is recorded as the stop and makes the
/// user stationary, and those after it leave no trace. The place stays the one
/// that was reached.
pub proof fn law_stop_is_recorded_once(lat: Double, lon: Double, run: Seq<Reading>, next: Reading)
    requires
        forall|i: int| 0 <= i < run.len() ==> near(#[trigger] run[i].distance),
        near(next.distance),
    ensures
        ({
            let c = after_samples(reached(lat, lon), run);
            let (d, action, transition) = sample(c, next.lat, next.lon, next.distance);
            &&& c.lat == lat && c.lon == lon
            &&& d.lat == lat && d.lon == lon
            &&& c.n == (if run.len() < 5 {
                1 + run.len()
            } else {
                6
            })
            &&& c.inserted == (run.len() >= 6)
            &&& action == (if run.len() < 5 {
                InsertAction::Insert { stopped: false }
            } else if run.len() == 5 {
                InsertAction::Insert { stopped: true }
            } else {
                InsertAction::Skip
            })
            &&& transition == (if run.len() == 5 {
                StatusTransition::ToStationary
            } else {
                StatusTransition::Unchanged
            })
        }),
    decreases run.len(),
{
    if run.len() > 0 {
        law_stop_is_recorded_once(lat, lon, run.drop_last(), run.last());
    }
}

/// A sample elsewhere starts the count anew, whatever went before: it is
/// recorded as movement and makes the user moving.
pub proof fn law_movement_starts_anew(c: CoordState, lat: Double, lon: Double, distance: Double)
    requires
        !near(distance),
    ensures
        sample(c, lat, lon, distance) == (
            reached(lat, lon),
            InsertAction::Insert { stopped: false },
            StatusTransition::ToMoving,
        ),
{
}

/// The trips under way, each with where it was last seen to move.
pub struct TripsStore {
    last_coordinates: HashMap<i64, CoordState>,
}

impl TripsStore {
    pub closed spec fn view(&self) -> Map<i64, CoordState> {
        self.last_coordinates@
    }

    /// A store with no trip.
    pub fn new() -> (store: Self)
        ensures
            store@ == Map::<i64, CoordState>::empty(),
    {
        TripsStore { last_coordinates: HashMap::new() }
    }

    /// Where a trip was last seen to move.
    pub fn last_seen(&self, trip_id: i64) -> (c: Option<CoordState>)
        ensures
            match c {
                Some(x) => self@.dom().contains(trip_id) && x == self@[trip_id],
                None => !self@.dom().contains(trip_id),
            },
    {
        match self.last_coordinates.get(&trip_id) {
            Some(c) => Some(*c),
            None => None,
        }
    }
}

impl Default for TripsStore {
    fn default() -> (store: Self)
        ensures
            store@ == Map::<i64, CoordState>::empty(),
    {
        TripsStore::new()
    }
}

/// Whether a trip is under way.
pub fn is_tracked(store: &TripsStore, trip_id: i64) -> (b: bool)
    ensures
        b == store@.dom().contains(trip_id),
{
    store.last_seen(trip_id).is_some()
}

/// Forgets a trip.
pub fn drop_trip(store: &mut TripsStore, trip_id: i64)
    ensures
        final(store)@ == old(store)@.remove(trip_id),
{
    let _ = store.last_coordinates.remove(&trip_id);
}

/// What is told when a trip could not be opened.
pub open spec fn start_failure(e: Seq<char>) -> Seq<char> {
    "Failed to start trip: "@ + e
}

/// What is told when a trip could not be closed.
pub open spec fn end_failure(e: Seq<char>) -> Seq<char> {
    "Failed to end trip: "@ + e
}

/// What is told when a sample could not be recorded.
pub open spec fn insert_failure(e: Seq<char>) -> Seq<char> {
    "Failed to insert position: "@ + e
}

/// What is told of a sample of a trip that is not under way.
pub open spec fn untracked(trip_id: i64) -> Seq<char> {
    "Trip ID "@ + crate::text::signed_decimal(trip_id as int) + " not found in store"@
}

/// Follows a trip that the database has opened (or not): it stands where it
/// starts, and its user is stationary.
pub fn initialize_trips(
    store: &mut TripsStore,
    status: &mut NameMap<UserStatus>,
    user: &str,
    lat: Double,
    lon: Double,
    opened: Result<i64, String>,
) -> (r: Result<i64, String>)
    requires
        old(status).wf(),
    ensures
        final(status).wf(),
        match (opened, r) {
            (Ok(id), Ok(trip_id)) => {
                &&& trip_id == id
                &&& final(store)@ == old(store)@.insert(id, reached(lat, lon))
                &&& final(status)@ == old(status)@.insert(user@, UserStatus::Stationary)
            },
            (Err(e), Err(t)) => {
                &&& t@ == start_failure(e@)
                &&& final(store)@ == old(store)@
                &&& final(status)@ == old(status)@
            },
            _ => false,
        },
{
    match opened {
        Ok(trip_id) => {
            let _ = store.last_coordinates.insert(
                trip_id,
                CoordState { lat, lon, n: 1, inserted: false },
            );
            status.insert(user, UserStatus::Stationary);
            Ok(trip_id)
        },
        Err(e) => Err(join("Failed to start trip: ", e.as_str())),
    }
}

/// Forgets a trip that the database has closed; one that it has not stays.
pub fn terminate_trip(store: &mut TripsStore, trip_id: i64, closed: Result<(), String>) -> (r:
    Result<(), String>)
    ensures
        match (closed, r) {
            (Ok(_), Ok(_)) => final(store)@ == old(store)@.remove(trip_id),
            (Err(e), Err(t)) => t@ == end_failure(e@) && final(store)@ == old(store)@,
            _ => false,
        },
{
    match closed {
        Ok(_) => {
            drop_trip(store, trip_id);
            Ok(())
        },
        Err(e) => Err(join("Failed to end trip: ", e.as_str())),
    }
}

/// `trip` is trip `trip_id`, belongs to `username`, and has not been closed.
pub open spec fn open_for(trip: TripRecord, trip_id: i64, username: Seq<char>) -> bool {
    trip.id == trip_id && trip.username@ == username && trip.ended_at is None
}

/// What the database keeps of a trip that starts: the trip, open, and its first
/// sample.
pub fn start_trip(id: i64, username: &str, lat: Double, lon: Double, ts: i64) -> (r: (
    TripRecord,
    PositionRecord,
))
    ensures
        r.0.id == id,
        r.0.username@ == username@,
        r.0.started_at == ts,
        r.0.ended_at is None,
        r.1 == (PositionRecord { trip_id: id, ts, lat, lon, stopped: false }),
{
    (
        TripRecord { id, username: copy_text(username), started_at: ts, ended_at: None },
        PositionRecord { trip_id: id, ts, lat, lon, stopped: false },
    )
}

/// Whether what the database has of a trip, if it has anything, is open and
/// belongs to a user.
pub fn trip_open_for(trip: &Option<TripRecord>, trip_id: i64, username: &str) -> (b: bool)
    ensures
        b == (*trip matches Some(t) && open_for(t, trip_id, username@)),
{
    match trip {
        None => false,
        Some(t) => t.id == trip_id && t.ended_at.is_none() && same_text(
            t.username.as_str(),
            username,
        ),
    }
}

/// Closes what the database has of a trip: refused unless the trip is there,
/// belongs to the user and is still open.
pub fn end_trip(trip: Option<TripRecord>, trip_id: i64, username: &str, ts: i64) -> (r: Result<
    TripRecord,
    String,
>)
    ensures
        match r {
            Ok(ended) => trip matches Some(t) && open_for(t, trip_id, username@) && ended == (
            TripRecord { ended_at: Some(ts), ..t }),
            Err(e) => !(trip matches Some(t) && open_for(t, trip_id, username@)) && e@
                == NO_OPEN_TRIP@,
        },
{
    if !trip_open_for(&trip, trip_id, username) {
        return Err(copy_text(NO_OPEN_TRIP));
    }
    match trip {
        None => Err(copy_text(NO_OPEN_TRIP)),
        Some(t) => Ok(
            TripRecord {
                id: t.id,
                username: t.username,
                started_at: t.started_at,
                ended_at: Some(ts),
            },
        ),
    }
}

/// The numbers of those trips that are open and belong to `username`.
pub open spec fn open_ids(trips: Seq<TripRecord>, username: Seq<char>) -> Seq<i64>
    decreases trips.len(),
{
    if trips.len() == 0 {
        Seq::empty()
    } else {
        let before = open_ids(trips.drop_last(), username);
        if open_for(trips.last(), trips.last().id, username) {
            before.push(trips.last().id)
        } else {
            before
        }
    }
}

/// The numbers of a user's open trips, out of what the database has.
pub fn open_trip_ids_for(trips: &[TripRecord], username: &str) -> (ids: Vec<i64>)
    ensures
        ids@ == open_ids(trips@, username@),
{
    let n: usize = trips.len();
    let mut ids: Vec<i64> = Vec::new();
    let mut i: usize = 0;
    while i < n
        invariant
            n == trips@.len(),
            i <= n,
            ids@ == open_ids(trips@.take(i as int), username@),
        decreases n - i,
    {
        let t: &TripRecord = &trips[i];
        assert(trips@.take(i + 1).drop_last() =~= trips@.take(i as int));
        if t.ended_at.is_none() && same_text(t.username.as_str(), username) {
            ids.push(t.id);
        }
        i = i + 1;
    }
    assert(trips@.take(n as int) =~= trips@);
    ids
}

/// A trip that has started is open for its user and for nobody else. Once it is
/// closed it is open for nobody, so that it cannot be closed again; nor can
/// anybody else close it.
pub proof fn law_trip_lifecycle(
    started: TripRecord,
    ended: TripRecord,
    ts: i64,
    other_id: i64,
    other: Seq<char>,
)
    requires
        started.ended_at is None,
        ended == (TripRecord { ended_at: Some(ts), ..started }),
    ensures
        open_for(started, started.id, started.username@),
        other != started.username@ ==> !open_for(started, other_id, other),
        !open_for(ended, other_id, other),
{
}

/// Applies the rule for a sample to a trip under way, and tells what is to be
/// recorded of it.
pub fn update_trip(
    store: &mut TripsStore,
    trip_id: i64,
    lat: Double,
    lon: Double,
    distance: Double,
) -> (r: Result<(InsertAction, StatusTransition), String>)
    ensures
        match r {
            Ok((action, transition)) => {
                &&& old(store)@.dom().contains(trip_id)
                &&& ({
                    let s = sample(old(store)@[trip_id], lat, lon, distance);
                    &&& final(store)@ == old(store)@.insert(trip_id, s.0)
                    &&& action == s.1
                    &&& transition == s.2
                })
            },
            Err(e) => {
                &&& !old(store)@.dom().contains(trip_id)
                &&& final(store)@ == old(store)@
                &&& e@ == untracked(trip_id)
            },
        },
{
    match store.last_seen(trip_id) {
        Some(c) => {
            let (after, action, transition) = take_sample(c, lat, lon, distance);
            let _ = store.last_coordinates.insert(trip_id, after);
            Ok((action, transition))
        },
        None => {
            let mut e = join("Trip ID ", signed_text(trip_id).as_str());
            e.append(" not found in store");
            Err(e)
        },
    }
}

/// The statuses after a sample of `user`.
pub open spec fn status_after(
    m: Map<Seq<char>, UserStatus>,
    user: Seq<char>,
    t: StatusTransition,
) -> Map<Seq<char>, UserStatus> {
    match t {
        StatusTransition::ToMoving => m.insert(user, UserStatus::Moving),
        StatusTransition::ToStationary => m.insert(user, UserStatus::Stationary),
        StatusTransition::Unchanged => m,
    }
}

/// Changes the status of a user as a sample asks.
pub fn apply_transition(status: &mut NameMap<UserStatus>, user: &str, t: StatusTransition)
    requires
        old(status).wf(),
    ensures
        final(status).wf(),
        final(status)@ == status_after(old(status)@, user@, t),
{
    match t {
        StatusTransition::ToMoving => {
            status.insert(user, UserStatus::Moving);
        },
        StatusTransition::ToStationary => {
            status.insert(user, UserStatus::Stationary);
        },
        StatusTransition::Unchanged => {},
    }
}

/// A sample makes its user moving, stationary, or neither, and leaves every
/// other user's status alone.
pub proof fn law_status_follows_the_sample(
    m: Map<Seq<char>, UserStatus>,
    user: Seq<char>,
    other: Seq<char>,
)
    ensures
        status_after(m, user, StatusTransition::ToMoving) == m.insert(user, UserStatus::Moving),
        status_after(m, user, StatusTransition::ToStationary) == m.insert(
            user,
            UserStatus::Stationary,
        ),
        status_after(m, user, StatusTransition::Unchanged) == m,
{
}

/// A trip is open for a user exactly when it is that trip, the user's own, and
/// has no end.
pub proof fn law_open_for(t: TripRecord, trip_id: i64, username: Seq<char>)
    ensures
        open_for(t, trip_id, username) <==> t.id == trip_id && t.username@ == username && t.ended_at
            == None::<i64>,
{
}

/// The open trips of a user are the numbers of those of the trips that belong to
/// the user and have no end, in the order in which they came.
pub proof fn law_open_ids(trips: Seq<TripRecord>, username: Seq<char>)
    ensures
        open_ids(trips, username) == trips.filter(
            |t: TripRecord| t.username@ == username && t.ended_at == None::<i64>,
        ).map_values(|t: TripRecord| t.id),
    decreases trips.len(),
{
    reveal(Seq::filter);
    let open = |t: TripRecord| t.username@ == username && t.ended_at == None::<i64>;
    let id = |t: TripRecord| t.id;
    if trips.len() > 0 {
        law_open_ids(trips.drop_last(), username);
        assert(trips.filter(open).map_values(id) =~= open_ids(trips, username));
    } else {
        assert(trips.filter(open).map_values(id) =~= Seq::<i64>::empty());
    }
}

/// What is told of a trip that cannot be opened, closed, recorded or found.
pub proof fn law_trip_failures(e: Seq<char>, trip_id: i64)
    ensures
        start_failure(e) == "Failed to start trip: "@ + e,
        end_failure(e) == "Failed to end trip: "@ + e,
        insert_failure(e) == "Failed to insert position: "@ + e,
        untracked(trip_id) == "Trip ID "@ + crate::text::signed_decimal(trip_id as int)
            + " not found in store"@,
        NO_OPEN_TRIP@ == "viaggio inesistente, non tuo o già chiuso"@,
{
}

/// One sample, by itself: how far it is decides whether the trip is seen to move,
/// and if not, the count decides whether it stops.
pub proof fn law_one_sample(c: CoordState, lat: Double, lon: Double, distance: Double)
    ensures
        ({
            let (after, action, transition) = sample(c, lat, lon, distance);
            let here = !distance.is_nan() && distance.value() <= crate::double::units(5);
            if !here {
                &&& after == (CoordState { lat, lon, n: 1, inserted: false })
                &&& action == (InsertAction::Insert { stopped: false })
                &&& transition == StatusTransition::ToMoving
            } else if c.n < 6 {
                &&& after.n == c.n + 1
                &&& after.lat == c.lat && after.lon == c.lon && after.inserted == c.inserted
                &&& action == (InsertAction::Insert { stopped: false })
                &&& transition == StatusTransition::Unchanged
            } else if !c.inserted {
                &&& after == (CoordState { lat: c.lat, lon: c.lon, n: c.n, inserted: true })
                &&& action == (InsertAction::Insert { stopped: true })
                &&& transition == StatusTransition::ToStationary
            } else {
                &&& after == c
                &&& action == InsertAction::Skip
                &&& transition == StatusTransition::Unchanged
            }
        }),
{
    law_movement_threshold();
}

}
