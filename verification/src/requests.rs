//! What becomes of each request, from the frame that brings it to the answer.
//! Between two events the hub may have been changed on behalf of others, so each
//! step is taken on a hub of its own.

use crate::double::Double;
use crate::exchange::{ActionView, EventView, FrameView, LeaveView, PhaseView};
use crate::hub::HubView;
use crate::protocol::MessageView;
use crate::rules::{ConnView, Outcome};
use crate::stats::PositionRecord;
use crate::trips::{CoordState, UserStatus};
use vstd::prelude::*;

verus! {

/// The connection `c` has sent `m` on hub `h` and will read on.
pub open spec fn answered(c: ConnView, h: HubView, m: MessageView, o: Outcome) -> bool {
    &&& o.0.id == c.id
    &&& o.0.user == c.user
    &&& o.0.phase == (PhaseView::Replying { farewell: false })
    &&& o.1 == h
    &&& o.2 == ActionView::Send(m)
}

/// The connection `c` was refused something on hub `h`, and will read on.
pub open spec fn refused(
    c: ConnView,
    h: HubView,
    code: Seq<char>,
    message: Seq<char>,
    o: Outcome,
) -> bool {
    answered(c, h, MessageView::Error { code, message }, o)
}

/// The connection `c` asks for `a` and changes nothing on hub `h`.
pub open spec fn asks_for(c: ConnView, h: HubView, a: ActionView, o: Outcome) -> bool {
    o.0.id == c.id && o.0.user == c.user && o.1 == h && o.2 == a
}

/// `token` is in force for `user`, who is logged in on the connection.
pub open spec fn holds_token(c: ConnView, h: HubView, token: Seq<char>, user: Seq<char>) -> bool {
    &&& h.sessions.dom().contains(token)
    &&& h.sessions[token] == user
    &&& c.user == Some(user)
}

/// A latitude from -90 to 90 and a longitude from -180 to 180 degrees.
pub open spec fn on_earth(lat: Double, lon: Double) -> bool {
    &&& !lat.is_nan() && !lon.is_nan()
    &&& -90 * crate::double::units(1) <= lat.value() <= 90 * crate::double::units(1)
    &&& -180 * crate::double::units(1) <= lon.value() <= 180 * crate::double::units(1)
}

proof fn lemma_on_earth(lat: Double, lon: Double)
    ensures
        crate::double::on_globe(lat, lon) <==> on_earth(lat, lon),
{
    assert(crate::double::units(90) == 90 * crate::double::units(1)) by (nonlinear_arith);
    assert(crate::double::units(180) == 180 * crate::double::units(1)) by (nonlinear_arith);
}

/// A frame with a text has that very text parsed, character for character, be
/// it a text frame or a binary one that holds the text in UTF-8. Bytes that are
/// no text are refused.
pub proof fn law_text_is_parsed_as_it_came(c: ConnView, h: HubView, text: Seq<char>, bytes: Seq<u8>)
    requires
        c.phase is Receiving,
        text.len() > 0,
    ensures
        ({
            let o = crate::rules::step(c, h, EventView::Frame(FrameView::Text(text)));
            asks_for(c, h, ActionView::Decode(text), o) && o.0.phase is Decoding
        }),
        ({
            let o = crate::rules::step(
                c,
                h,
                EventView::Frame(FrameView::Binary(vstd::utf8::encode_utf8(text))),
            );
            asks_for(c, h, ActionView::Decode(text), o) && o.0.phase is Decoding
        }),
        !vstd::utf8::valid_utf8(bytes) ==> refused(
            c,
            h,
            "BAD_REQUEST"@,
            "payload binario non UTF-8"@,
            crate::rules::step(c, h, EventView::Frame(FrameView::Binary(bytes))),
        ),
{
    vstd::utf8::encode_utf8_valid_utf8(text);
    vstd::utf8::encode_utf8_decode_utf8(text);
}

/// Frames without a text change nothing: the next frame is read.
pub proof fn law_frames_without_text_are_passed_over(c: ConnView, h: HubView, frame: FrameView)
    requires
        c.phase is Receiving,
        frame is Ping || frame is Pong || frame == FrameView::Text(Seq::empty()) || frame
            == FrameView::Binary(Seq::empty()),
    ensures
        crate::rules::step(c, h, EventView::Frame(frame)) == (c, h, ActionView::Receive),
{
}

/// A text that is no message is refused.
pub proof fn law_no_message_is_refused(c: ConnView, h: HubView)
    requires
        c.phase is Decoding,
    ensures
        refused(
            c,
            h,
            "BAD_REQUEST"@,
            "messaggio non valido"@,
            crate::rules::step(c, h, EventView::Decoded(None)),
        ),
{
}

/// Once an answer is sent, the next frame is read; after a farewell, the socket
/// is closed.
pub proof fn law_after_an_answer(c: ConnView, h: HubView)
    ensures
        c.phase == (PhaseView::Replying { farewell: false }) ==> crate::rules::step(
            c,
            h,
            EventView::Sent(true),
        ) == (
            ConnView { id: c.id, user: c.user, phase: PhaseView::Receiving },
            h,
            ActionView::Receive,
        ),
        c.phase == (PhaseView::Replying { farewell: true }) ==> crate::rules::step(
            c,
            h,
            EventView::Sent(true),
        ) == (
            ConnView { id: c.id, user: c.user, phase: PhaseView::ClosingSocket },
            h,
            ActionView::CloseSocket,
        ),
{
}

/// The event is one that a connection in this phase can take.
pub open spec fn in_turn(phase: PhaseView, e: EventView) -> bool {
    ||| phase is Receiving && (e is Frame || e is ReadFailed || e is StreamEnded)
    ||| phase is Decoding && e is Decoded
    ||| phase is LoggingIn && e is CredentialsChecked
    ||| phase is Registering && e is UserSaved
    ||| phase is OpeningTrip && e is TripOpened
    ||| phase is CheckingOpen && e is OpenChecked
    ||| phase is ClosingOrphan && e is OrphanClosed
    ||| phase is Measuring && e is Measured
    ||| phase is Storing && e is PositionStored
    ||| phase is ClosingTrip && e is TripClosed
    ||| phase is Loading && e is RowsLoaded
    ||| phase is Pacing && e is Paced
    ||| phase is SummingUp && e is SummedUp
    ||| phase is CheckingChat && e is ChatChecked
    ||| phase is Showing && e is ChatShown
    ||| phase is Listing && e is OpenTripsListed
    ||| phase is Leaving && e is LeftTripClosed
    ||| phase is Replying && e is Sent
    ||| phase is ClosingSocket && e is SocketClosed
}

/// No event changes the number of a connection. One that comes out of turn makes
/// the connection give up and changes nothing else; one that comes in turn never
/// does.
pub proof fn law_events_out_of_turn(c: ConnView, h: HubView, e: EventView)
    ensures
        crate::rules::step(c, h, e).0.id == c.id,
        !in_turn(c.phase, e) ==> crate::rules::step(c, h, e) == (
            ConnView { id: c.id, user: c.user, phase: PhaseView::Aborted },
            h,
            ActionView::Abort,
        ),
        in_turn(c.phase, e) ==> !(crate::rules::step(c, h, e).2 is Abort),
{
}

/// A request whose token is not in force, or not that of the connection's user,
/// is refused and changes nothing.
pub proof fn law_bad_token_is_refused(
    c: ConnView,
    h: HubView,
    token: Seq<char>,
    lat: Double,
    lon: Double,
    trip_id: i64,
    ts: i64,
    to_ts: i64,
    text: Seq<char>,
    m: MessageView,
)
    requires
        c.phase is Decoding,
        !h.sessions.dom().contains(token) || c.user != Some(h.sessions[token]),
        m == (MessageView::StartTrip { token, lat, lon, ts }) || m == (MessageView::Position {
            token,
            trip_id,
            lat,
            lon,
            ts,
        }) || m == (MessageView::EndTrip { token, trip_id, ts }) || m == (MessageView::Stats {
            token,
            from_ts: ts,
            to_ts,
        }) || m == (MessageView::ChatToServer { token, text }),
    ensures
        refused(
            c,
            h,
            "UNAUTHORIZED"@,
            "token non valido"@,
            crate::rules::step(c, h, EventView::Decoded(Some(m))),
        ),
{
}

/// The sessions once `token` was given to `username` on a connection that `was`
/// logged in before: the token stands for that user, those of the user who was
/// logged in are gone, and all others are as they were.
pub open spec fn session_given(
    before: Map<Seq<char>, Seq<char>>,
    after: Map<Seq<char>, Seq<char>>,
    was: Option<Seq<char>>,
    username: Seq<char>,
    token: Seq<char>,
) -> bool {
    forall|t: Seq<char>|
        #![trigger after.dom().contains(t)]
        {
            &&& t == token ==> after.dom().contains(t) && after[t] == username
            &&& t != token ==> {
                &&& after.dom().contains(t) <==> before.dom().contains(t) && Some(before[t]) != was
                    && before[t] != username
                &&& after.dom().contains(t) ==> after[t] == before[t]
            }
        }
}

/// A table without the entry of the user who was logged in, and with `value` for
/// the one who is now.
pub open spec fn entry_given<V>(
    before: Map<Seq<char>, V>,
    was: Option<Seq<char>>,
    username: Seq<char>,
    value: V,
) -> Map<Seq<char>, V> {
    match was {
        None => before.insert(username, value),
        Some(u) => before.remove(u).insert(username, value),
    }
}

/// A login is checked with the username and password that came. If they are
/// wrong, it is refused and nothing changes. If they are right and the user has
/// a session, it is refused too. Otherwise the user is logged in on this
/// connection with the fresh token, is stationary, and is reached here; whoever
/// was logged in here before is logged out; and no trip is touched.
pub proof fn law_login(
    c: ConnView,
    h1: HubView,
    h2: HubView,
    username: Seq<char>,
    password: Seq<char>,
    why: Seq<char>,
    token: Seq<char>,
)
    requires
        c.phase is Decoding,
        c.user != Some(username),
    ensures
        ({
            let m = MessageView::Login { username, password };
            let o1 = crate::rules::step(c, h1, EventView::Decoded(Some(m)));
            let bad = crate::rules::step(
                o1.0,
                h2,
                EventView::CredentialsChecked { verdict: Err(why), token },
            );
            let good = crate::rules::step(
                o1.0,
                h2,
                EventView::CredentialsChecked { verdict: Ok(()), token },
            );
            &&& asks_for(c, h1, ActionView::CheckCredentials(m), o1)
            &&& refused(c, h2, "AUTH_FAILED"@, why, bad)
            &&& if exists|t: Seq<char>| #[trigger]
                h2.sessions.dom().contains(t) && h2.sessions[t] == username {
                refused(c, h2, "AUTH_FAILED"@, "utente già loggato da altra sessione"@, good)
            } else {
                &&& good.0 == (ConnView {
                    id: c.id,
                    user: Some(username),
                    phase: PhaseView::Replying { farewell: false },
                })
                &&& good.2 == ActionView::Send(MessageView::AuthOk { token })
                &&& session_given(h2.sessions, good.1.sessions, c.user, username, token)
                &&& good.1.status == entry_given(
                    h2.status,
                    c.user,
                    username,
                    UserStatus::Stationary,
                )
                &&& good.1.online == entry_given(h2.online, c.user, username, c.id)
                &&& good.1.trips == h2.trips
            }
        }),
{
}

/// A login as the user of the connection is refused at once.
pub proof fn law_login_again(c: ConnView, h: HubView, username: Seq<char>, password: Seq<char>)
    requires
        c.phase is Decoding,
        c.user == Some(username),
    ensures
        refused(
            c,
            h,
            "AUTH_FAILED"@,
            "già autenticato come "@ + username,
            crate::rules::step(
                c,
                h,
                EventView::Decoded(Some(MessageView::Login { username, password })),
            ),
        ),
{
}

/// A registration is stored with the username and password that came. If that
/// fails, it is refused and nothing changes. Otherwise the new user is logged in
/// on this connection as by a login.
pub proof fn law_registration(
    c: ConnView,
    h1: HubView,
    h2: HubView,
    username: Seq<char>,
    password: Seq<char>,
    why: Seq<char>,
    token: Seq<char>,
)
    requires
        c.phase is Decoding,
        c.user != Some(username),
    ensures
        ({
            let m = MessageView::Register { username, password };
            let o1 = crate::rules::step(c, h1, EventView::Decoded(Some(m)));
            let bad = crate::rules::step(
                o1.0,
                h2,
                EventView::UserSaved { outcome: Err(why), token },
            );
            let good = crate::rules::step(
                o1.0,
                h2,
                EventView::UserSaved { outcome: Ok(()), token },
            );
            &&& asks_for(c, h1, ActionView::SaveUser(m), o1)
            &&& refused(c, h2, "REGISTER_FAILED"@, why, bad)
            &&& good.0 == (ConnView {
                id: c.id,
                user: Some(username),
                phase: PhaseView::Replying { farewell: false },
            })
            &&& good.2 == ActionView::Send(MessageView::AuthOk { token })
            &&& session_given(h2.sessions, good.1.sessions, c.user, username, token)
            &&& good.1.status == entry_given(h2.status, c.user, username, UserStatus::Stationary)
            &&& good.1.online == entry_given(h2.online, c.user, username, c.id)
            &&& good.1.trips == h2.trips
        }),
{
}

/// A registration under the name of the connection's own user, should it ever be
/// stored, logs that user out of every session and on to none: the token that is
/// handed out is not in force.
pub proof fn law_registration_as_oneself(
    c: ConnView,
    h: HubView,
    username: Seq<char>,
    token: Seq<char>,
)
    requires
        c.phase == (PhaseView::Registering { username }),
        c.user == Some(username),
    ensures
        ({
            let o = crate::rules::step(c, h, EventView::UserSaved { outcome: Ok(()), token });
            &&& o.0 == (ConnView {
                id: c.id,
                user: Some(username),
                phase: PhaseView::Replying { farewell: false },
            })
            &&& o.2 == ActionView::Send(MessageView::AuthOk { token })
            &&& forall|t: Seq<char>|
                #![trigger o.1.sessions.dom().contains(t)]
                {
                    &&& o.1.sessions.dom().contains(t) <==> t != token && h.sessions.dom().contains(
                        t,
                    ) && h.sessions[t] != username
                    &&& o.1.sessions.dom().contains(t) ==> o.1.sessions[t] == h.sessions[t]
                }
            &&& o.1.status == h.status.insert(username, UserStatus::Stationary)
            &&& o.1.online == h.online.insert(username, c.id)
            &&& o.1.trips == h.trips
        }),
{
    let o = crate::rules::step(c, h, EventView::UserSaved { outcome: Ok(()), token });
    assert(o.1.status =~= h.status.insert(username, UserStatus::Stationary));
    assert(o.1.online =~= h.online.insert(username, c.id));
}

/// A place or time that cannot be is refused before anything is asked of the
/// database: the place first, then the time.
pub proof fn law_bad_place_or_time_is_refused(
    c: ConnView,
    h: HubView,
    token: Seq<char>,
    user: Seq<char>,
    trip_id: i64,
    lat: Double,
    lon: Double,
    ts: i64,
    m: MessageView,
)
    requires
        c.phase is Decoding,
        holds_token(c, h, token, user),
        m == (MessageView::StartTrip { token, lat, lon, ts }) || m == (MessageView::Position {
            token,
            trip_id,
            lat,
            lon,
            ts,
        }),
    ensures
        ({
            let o = crate::rules::step(c, h, EventView::Decoded(Some(m)));
            &&& !on_earth(lat, lon) ==> refused(
                c,
                h,
                "BAD_REQUEST"@,
                "coordinate fuori range"@,
                o,
            )
            &&& on_earth(lat, lon) && ts <= 0 ==> refused(
                c,
                h,
                "BAD_REQUEST"@,
                "timestamp non valido"@,
                o,
            )
            &&& o.2 is Send <==> !on_earth(lat, lon) || ts <= 0
        }),
{
    lemma_on_earth(lat, lon);
}

/// A trip is opened in the database for the user, with the very place and time of
/// the request. If that fails, the request is refused. Otherwise the client is
/// told the number of the trip with that place and time, the hub follows the
/// trip from that place, as one that has been seen there once, and the user is
/// stationary.
pub proof fn law_trip_starts_where_the_request_says(
    c: ConnView,
    h1: HubView,
    h2: HubView,
    token: Seq<char>,
    user: Seq<char>,
    lat: Double,
    lon: Double,
    ts: i64,
    trip_id: i64,
    why: Seq<char>,
)
    requires
        c.phase is Decoding,
        holds_token(c, h1, token, user),
        on_earth(lat, lon),
        ts > 0,
    ensures
        ({
            let m = MessageView::StartTrip { token, lat, lon, ts };
            let o1 = crate::rules::step(c, h1, EventView::Decoded(Some(m)));
            let bad = crate::rules::step(o1.0, h2, EventView::TripOpened(Err(why)));
            let good = crate::rules::step(o1.0, h2, EventView::TripOpened(Ok(trip_id)));
            &&& asks_for(c, h1, ActionView::OpenTrip { user, lat, lon, ts }, o1)
            &&& refused(c, h2, "START_TRIP_FAILED"@, "Failed to start trip: "@ + why, bad)
            &&& answered(
                c,
                HubView {
                    sessions: h2.sessions,
                    online: h2.online,
                    trips: h2.trips.insert(
                        trip_id,
                        CoordState { lat, lon, n: 1, inserted: false },
                    ),
                    status: h2.status.insert(user, UserStatus::Stationary),
                },
                MessageView::TripStarted { trip_id, lat, lon, ts },
                good,
            )
        }),
{
    lemma_on_earth(lat, lon);
}

/// A sample is first held against the database: whether the trip is open and the
/// user's own. If it is not, or cannot be told, the sample is refused. If it is,
/// but the hub does not follow the trip, the trip is closed as of the sample's
/// time, and the client is told to open another.
pub proof fn law_sample_is_held_against_the_database(
    c: ConnView,
    h1: HubView,
    h2: HubView,
    h3: HubView,
    token: Seq<char>,
    user: Seq<char>,
    trip_id: i64,
    lat: Double,
    lon: Double,
    ts: i64,
    why: Seq<char>,
)
    requires
        c.phase is Decoding,
        holds_token(c, h1, token, user),
        on_earth(lat, lon),
        ts > 0,
    ensures
        ({
            let m = MessageView::Position { token, trip_id, lat, lon, ts };
            let o1 = crate::rules::step(c, h1, EventView::Decoded(Some(m)));
            let failed = crate::rules::step(o1.0, h2, EventView::OpenChecked(Err(why)));
            let closed = crate::rules::step(o1.0, h2, EventView::OpenChecked(Ok(false)));
            let open = crate::rules::step(o1.0, h2, EventView::OpenChecked(Ok(true)));
            &&& asks_for(c, h1, ActionView::CheckOpen { trip_id, user }, o1)
            &&& refused(c, h2, "BAD_REQUEST"@, why, failed)
            &&& refused(
                c,
                h2,
                "BAD_REQUEST"@,
                "viaggio inesistente, non tuo o già chiuso"@,
                closed,
            )
            &&& !h2.trips.dom().contains(trip_id) ==> {
                &&& asks_for(c, h2, ActionView::CloseOrphan { trip_id, user, ts }, open)
                &&& refused(
                    c,
                    h3,
                    "TRIP_TERMINATED"@,
                    "viaggio chiuso dal server (stato perso): apri un nuovo viaggio"@,
                    crate::rules::step(open.0, h3, EventView::OrphanClosed),
                )
            }
        }),
{
    lemma_on_earth(lat, lon);
}

/// A sample of a trip that is open and followed is measured: from the latitude
/// and longitude where the trip was last seen to move to those of the sample.
/// Meanwhile the connection keeps the user, trip, place and time of the sample.
pub proof fn law_sample_is_measured_from_where_the_trip_was(
    c: ConnView,
    h1: HubView,
    h2: HubView,
    token: Seq<char>,
    user: Seq<char>,
    trip_id: i64,
    lat: Double,
    lon: Double,
    ts: i64,
)
    requires
        c.phase is Decoding,
        holds_token(c, h1, token, user),
        on_earth(lat, lon),
        ts > 0,
        h2.trips.dom().contains(trip_id),
    ensures
        ({
            let m = MessageView::Position { token, trip_id, lat, lon, ts };
            let o1 = crate::rules::step(c, h1, EventView::Decoded(Some(m)));
            let o2 = crate::rules::step(o1.0, h2, EventView::OpenChecked(Ok(true)));
            &&& asks_for(
                c,
                h2,
                ActionView::Measure {
                    from_lat: h2.trips[trip_id].lat,
                    from_lon: h2.trips[trip_id].lon,
                    to_lat: lat,
                    to_lon: lon,
                },
                o2,
            )
            &&& o2.0.phase == (PhaseView::Measuring { user, trip_id, lat, lon, ts })
        }),
{
    lemma_on_earth(lat, lon);
}

/// The hub `h` with `seen` for a trip.
pub open spec fn with_trip(h: HubView, trip_id: i64, seen: CoordState) -> HubView {
    HubView {
        sessions: h.sessions,
        online: h.online,
        status: h.status,
        trips: h.trips.insert(trip_id, seen),
    }
}

/// The hub `h` with `status` for a user.
pub open spec fn with_status(h: HubView, user: Seq<char>, status: UserStatus) -> HubView {
    HubView {
        sessions: h.sessions,
        online: h.online,
        trips: h.trips,
        status: h.status.insert(user, status),
    }
}

/// At most five metres.
pub open spec fn within_five_metres(distance: Double) -> bool {
    !distance.is_nan() && distance.value() <= 5 * crate::double::units(1)
}

proof fn lemma_five_metres(distance: Double)
    ensures
        crate::trips::near(distance) <==> within_five_metres(distance),
{
    crate::trips::law_movement_threshold();
    assert(crate::double::units(5) == 5 * crate::double::units(1)) by (nonlinear_arith);
}

/// A sample more than five metres from where the trip was last seen to move, or
/// at no distance that is a number: the trip has been seen at the sample's place
/// once, the sample is recorded as one in motion, and once it is, the user is
/// moving and the client told so.
pub proof fn law_sample_elsewhere(
    c: ConnView,
    h1: HubView,
    h2: HubView,
    user: Seq<char>,
    trip_id: i64,
    lat: Double,
    lon: Double,
    ts: i64,
    distance: Double,
    why: Seq<char>,
)
    requires
        c.phase == (PhaseView::Measuring { user, trip_id, lat, lon, ts }),
        h1.trips.dom().contains(trip_id),
        !within_five_metres(distance),
    ensures
        ({
            let o1 = crate::rules::step(c, h1, EventView::Measured(distance));
            let stored = crate::rules::step(o1.0, h2, EventView::PositionStored(Ok(())));
            let failed = crate::rules::step(o1.0, h2, EventView::PositionStored(Err(why)));
            &&& asks_for(
                c,
                with_trip(h1, trip_id, CoordState { lat, lon, n: 1, inserted: false }),
                ActionView::StorePosition { trip_id, lat, lon, ts, stopped: false },
                o1,
            )
            &&& answered(c, with_status(h2, user, UserStatus::Moving), MessageView::Ack, stored)
            &&& refused(
                c,
                h2,
                "UPDATE_TRIP_FAILED"@,
                "Failed to insert position: "@ + why,
                failed,
            )
        }),
{
    lemma_five_metres(distance);
}

/// A sample within five metres of where the trip was last seen to move, while
/// fewer than six in a row were: one more was, the sample is recorded as one in
/// motion, and the user's status stays.
pub proof fn law_sample_in_place(
    c: ConnView,
    h1: HubView,
    h2: HubView,
    user: Seq<char>,
    trip_id: i64,
    lat: Double,
    lon: Double,
    ts: i64,
    distance: Double,
    why: Seq<char>,
)
    requires
        c.phase == (PhaseView::Measuring { user, trip_id, lat, lon, ts }),
        h1.trips.dom().contains(trip_id),
        within_five_metres(distance),
        h1.trips[trip_id].n < 6,
    ensures
        ({
            let was = h1.trips[trip_id];
            let o1 = crate::rules::step(c, h1, EventView::Measured(distance));
            let stored = crate::rules::step(o1.0, h2, EventView::PositionStored(Ok(())));
            let failed = crate::rules::step(o1.0, h2, EventView::PositionStored(Err(why)));
            &&& asks_for(
                c,
                with_trip(
                    h1,
                    trip_id,
                    CoordState {
                        lat: was.lat,
                        lon: was.lon,
                        n: (was.n + 1) as u32,
                        inserted: was.inserted,
                    },
                ),
                ActionView::StorePosition { trip_id, lat, lon, ts, stopped: false },
                o1,
            )
            &&& answered(c, h2, MessageView::Ack, stored)
            &&& refused(
                c,
                h2,
                "UPDATE_TRIP_FAILED"@,
                "Failed to insert position: "@ + why,
                failed,
            )
        }),
{
    lemma_five_metres(distance);
}

/// A sample within five metres of where the trip was last seen to move, after
/// six in a row: the first of them is recorded as a stop and makes the user
/// stationary; those after it change nothing and are recorded nowhere.
pub proof fn law_sample_of_a_stop(
    c: ConnView,
    h1: HubView,
    h2: HubView,
    user: Seq<char>,
    trip_id: i64,
    lat: Double,
    lon: Double,
    ts: i64,
    distance: Double,
    why: Seq<char>,
)
    requires
        c.phase == (PhaseView::Measuring { user, trip_id, lat, lon, ts }),
        h1.trips.dom().contains(trip_id),
        within_five_metres(distance),
        h1.trips[trip_id].n >= 6,
    ensures
        ({
            let was = h1.trips[trip_id];
            let o1 = crate::rules::step(c, h1, EventView::Measured(distance));
            let stored = crate::rules::step(o1.0, h2, EventView::PositionStored(Ok(())));
            let failed = crate::rules::step(o1.0, h2, EventView::PositionStored(Err(why)));
            if was.inserted {
                answered(c, with_trip(h1, trip_id, was), MessageView::Ack, o1)
            } else {
                &&& asks_for(
                    c,
                    with_trip(
                        h1,
                        trip_id,
                        CoordState { lat: was.lat, lon: was.lon, n: was.n, inserted: true },
                    ),
                    ActionView::StorePosition { trip_id, lat, lon, ts, stopped: true },
                    o1,
                )
                &&& answered(
                    c,
                    with_status(h2, user, UserStatus::Stationary),
                    MessageView::Ack,
                    stored,
                )
                &&& refused(
                    c,
                    h2,
                    "UPDATE_TRIP_FAILED"@,
                    "Failed to insert position: "@ + why,
                    failed,
                )
            }
        }),
{
    lemma_five_metres(distance);
}

/// A sample of a trip that was forgotten while it was measured is refused.
pub proof fn law_sample_of_a_forgotten_trip(
    c: ConnView,
    h: HubView,
    user: Seq<char>,
    trip_id: i64,
    lat: Double,
    lon: Double,
    ts: i64,
    distance: Double,
)
    requires
        c.phase == (PhaseView::Measuring { user, trip_id, lat, lon, ts }),
        !h.trips.dom().contains(trip_id),
    ensures
        refused(
            c,
            h,
            "UPDATE_TRIP_FAILED"@,
            "Trip ID "@ + crate::text::signed_decimal(trip_id as int) + " not found in store"@,
            crate::rules::step(c, h, EventView::Measured(distance)),
        ),
{
}

/// The trip that is to end is closed in the database for the user, as of the
/// time of the request. Once it is, the hub forgets it, and it alone.
pub proof fn law_trip_ends_when_the_request_says(
    c: ConnView,
    h1: HubView,
    h2: HubView,
    token: Seq<char>,
    user: Seq<char>,
    trip_id: i64,
    ts: i64,
    why: Seq<char>,
)
    requires
        c.phase is Decoding,
        holds_token(c, h1, token, user),
    ensures
        ({
            let m = MessageView::EndTrip { token, trip_id, ts };
            let o1 = crate::rules::step(c, h1, EventView::Decoded(Some(m)));
            let bad = crate::rules::step(o1.0, h2, EventView::TripClosed(Err(why)));
            let good = crate::rules::step(o1.0, h2, EventView::TripClosed(Ok(())));
            &&& asks_for(c, h1, ActionView::CloseTrip { trip_id, user, ts }, o1)
            &&& refused(c, h2, "BAD_REQUEST"@, "Failed to end trip: "@ + why, bad)
            &&& answered(
                c,
                HubView {
                    sessions: h2.sessions,
                    online: h2.online,
                    status: h2.status,
                    trips: h2.trips.remove(trip_id),
                },
                MessageView::Ack,
                good,
            )
        }),
{
}

/// A request for statistics over an interval that ends before it begins is
/// refused. Otherwise the samples of that user over that interval are read; the
/// failure to read them is told.
pub proof fn law_statistics_are_asked_for(
    c: ConnView,
    h1: HubView,
    h2: HubView,
    token: Seq<char>,
    user: Seq<char>,
    from_ts: i64,
    to_ts: i64,
    why: Seq<char>,
)
    requires
        c.phase is Decoding,
        holds_token(c, h1, token, user),
    ensures
        ({
            let m = MessageView::Stats { token, from_ts, to_ts };
            let o1 = crate::rules::step(c, h1, EventView::Decoded(Some(m)));
            let failed = crate::rules::step(o1.0, h2, EventView::RowsLoaded(Err(why)));
            if from_ts > to_ts {
                refused(c, h1, "BAD_REQUEST"@, "intervallo temporale non valido"@, o1)
            } else {
                &&& asks_for(c, h1, ActionView::LoadRows { user, from_ts, to_ts }, o1)
                &&& refused(c, h2, "BAD_REQUEST"@, why, failed)
            }
        }),
{
}

/// The statistics that a client gets, from the request to the answer. The
/// samples of the interval are measured in their order. The lengths of the
/// stretches in motion are to be added up, and the average speed is their sum
/// over the seconds in motion, when there are any. The answer names the user and
/// the interval of the request, and carries the counted seconds, the number of
/// samples, and the sum and speeds as they came.
pub proof fn law_statistics_answer_the_request(
    c: ConnView,
    h1: HubView,
    h2: HubView,
    h3: HubView,
    h4: HubView,
    token: Seq<char>,
    user: Seq<char>,
    from_ts: i64,
    to_ts: i64,
    rows: Seq<PositionRecord>,
    distances: Seq<Double>,
    distance_m: Double,
    avg_speed_mps: Double,
    avg_speed_kmh: Double,
)
    requires
        c.phase is Decoding,
        holds_token(c, h1, token, user),
        from_ts <= to_ts,
        crate::stats::fits(crate::stats::trajectory(rows, from_ts, to_ts)),
        crate::stats::trajectory(rows, from_ts, to_ts).len() <= distances.len() + 1,
    ensures
        ({
            let points = crate::stats::trajectory(rows, from_ts, to_ts);
            let n = if points.len() == 0 {
                0
            } else {
                (points.len() - 1) as nat
            };
            let moving = crate::stats::moving_of(points, distances, n);
            let secs = crate::stats::movement_of(points, distances, n);
            let m = MessageView::Stats { token, from_ts, to_ts };
            let o1 = crate::rules::step(c, h1, EventView::Decoded(Some(m)));
            let o2 = crate::rules::step(o1.0, h2, EventView::RowsLoaded(Ok(rows)));
            let o3 = crate::rules::step(o2.0, h3, EventView::Paced(distances));
            let o4 = crate::rules::step(
                o3.0,
                h4,
                EventView::SummedUp { distance_m, avg_speed_mps, avg_speed_kmh },
            );
            &&& asks_for(c, h2, ActionView::Pace(points), o2)
            &&& asks_for(
                c,
                h3,
                ActionView::SumUp {
                    lengths: Seq::new(moving.len(), |k: int| distances[moving[k] as int]),
                    divisor: if secs > 0 {
                        Some(secs as i64)
                    } else {
                        None
                    },
                },
                o3,
            )
            &&& answered(
                c,
                h4,
                MessageView::StatsResult {
                    username: user,
                    from_ts,
                    to_ts,
                    distance_m,
                    movement_secs: secs as i64,
                    pause_secs: crate::stats::pause_of(points, distances, n) as i64,
                    total_secs: crate::stats::total_of(points, n) as i64,
                    avg_speed_mps,
                    avg_speed_kmh,
                    points: points.len() as i64,
                },
                o4,
            )
        }),
{
}

/// Samples whose seconds do not fit, or that come without all of their
/// distances, end the connection as a lost stream does.
pub proof fn law_uncountable_samples_end_the_connection(
    c: ConnView,
    h: HubView,
    user: Seq<char>,
    from_ts: i64,
    to_ts: i64,
    points: Seq<PositionRecord>,
    distances: Seq<Double>,
)
    requires
        c.phase == (PhaseView::Pacing { user, from_ts, to_ts, points }),
        !crate::stats::fits(points) || points.len() > distances.len() + 1,
    ensures
        ({
            let o = crate::rules::step(c, h, EventView::Paced(distances));
            asks_for(
                c,
                h,
                match c.user {
                    Some(u) => ActionView::ListOpenTrips { user: u },
                    None => ActionView::Finish,
                },
                o,
            )
        }),
{
}

/// A chat text is checked as it came. One that is not acceptable is refused;
/// another is shown to the operator as it came, under the user's name, and
/// acknowledged. Nothing changes on the hub.
pub proof fn law_chat_is_shown_as_it_came(
    c: ConnView,
    h1: HubView,
    h2: HubView,
    h3: HubView,
    token: Seq<char>,
    user: Seq<char>,
    text: Seq<char>,
    why: Seq<char>,
)
    requires
        c.phase is Decoding,
        holds_token(c, h1, token, user),
    ensures
        ({
            let m = MessageView::ChatToServer { token, text };
            let o1 = crate::rules::step(c, h1, EventView::Decoded(Some(m)));
            let bad = crate::rules::step(o1.0, h2, EventView::ChatChecked(Err(why)));
            let good = crate::rules::step(o1.0, h2, EventView::ChatChecked(Ok(())));
            let shown = crate::rules::step(good.0, h3, EventView::ChatShown);
            &&& asks_for(c, h1, ActionView::CheckChat(text), o1)
            &&& refused(c, h2, "BAD_REQUEST"@, why, bad)
            &&& asks_for(c, h2, ActionView::ShowChat { user, text }, good)
            &&& answered(c, h3, MessageView::Ack, shown)
        }),
{
}

/// A message that only the server sends is refused.
pub proof fn law_message_of_the_server_is_refused(
    c: ConnView,
    h: HubView,
    trip_id: i64,
    lat: Double,
    lon: Double,
    ts: i64,
    x: Seq<char>,
    y: Seq<char>,
    from: Option<Seq<char>>,
    m: MessageView,
)
    requires
        c.phase is Decoding,
        m == (MessageView::TripStarted { trip_id, lat, lon, ts }) || m == (MessageView::AuthOk {
            token: x,
        }) || m == MessageView::Ack || m == (MessageView::Error { code: x, message: y })
            || m is StatsResult || m == (MessageView::ChatFromServer { from, text: x }),
    ensures
        refused(
            c,
            h,
            "BAD_REQUEST"@,
            "tipo messaggio non valido dal client"@,
            crate::rules::step(c, h, EventView::Decoded(Some(m))),
        ),
{
}

/// The hub without the sessions, the status and the connection of a user: every
/// other token, status and connection is as it was, and so are the trips.
pub open spec fn logged_out(before: HubView, after: HubView, user: Seq<char>) -> bool {
    &&& forall|t: Seq<char>|
        #![trigger after.sessions.dom().contains(t)]
        {
            &&& after.sessions.dom().contains(t) <==> before.sessions.dom().contains(t)
                && before.sessions[t] != user
            &&& after.sessions.dom().contains(t) ==> after.sessions[t] == before.sessions[t]
        }
    &&& after.status == before.status.remove(user)
    &&& after.online == before.online.remove(user)
    &&& after.trips == before.trips
}

/// A client that says farewell with its own token has its open trips listed.
/// When they are closed, the token is out of force, the user has no status and no
/// connection, the connection is nobody's, and the farewell is acknowledged.
pub proof fn law_farewell_with_ones_own_token(
    c: ConnView,
    h1: HubView,
    h2: HubView,
    token: Seq<char>,
    user: Seq<char>,
    now: i64,
)
    requires
        c.phase is Decoding,
        holds_token(c, h1, token, user),
    ensures
        ({
            let m = MessageView::Disconnect { token };
            let o1 = crate::rules::step(c, h1, EventView::Decoded(Some(m)));
            let none = crate::rules::step(
                o1.0,
                h2,
                EventView::OpenTripsListed { ids: Some(Seq::empty()), now },
            );
            let failed = crate::rules::step(
                o1.0,
                h2,
                EventView::OpenTripsListed { ids: None, now },
            );
            &&& asks_for(c, h1, ActionView::ListOpenTrips { user }, o1)
            &&& none == failed
            &&& none.0 == (ConnView {
                id: c.id,
                user: None,
                phase: PhaseView::Replying { farewell: true },
            })
            &&& none.1 == (HubView {
                sessions: h2.sessions.remove(token),
                status: h2.status.remove(user),
                online: h2.online.remove(user),
                trips: h2.trips,
            })
            &&& none.2 == ActionView::Send(MessageView::Ack)
        }),
{
}

/// A farewell with any other token is acknowledged, and changes nothing.
pub proof fn law_farewell_with_another_token(c: ConnView, h: HubView, token: Seq<char>)
    requires
        c.phase is Decoding,
        !h.sessions.dom().contains(token) || c.user != Some(h.sessions[token]),
    ensures
        crate::rules::step(
            c,
            h,
            EventView::Decoded(Some(MessageView::Disconnect { token })),
        ) == (
            ConnView { id: c.id, user: c.user, phase: PhaseView::Replying { farewell: true } },
            h,
            ActionView::Send(MessageView::Ack),
        ),
{
}

/// When the stream of a connection is lost, the open trips of its user are
/// listed. Without any, or when they cannot be listed, the user is logged out and
/// the connection is over.
pub proof fn law_lost_user_is_logged_out(
    c: ConnView,
    h1: HubView,
    h2: HubView,
    user: Seq<char>,
    e: EventView,
    now: i64,
)
    requires
        c.user == Some(user),
        (c.phase is Receiving && (e is ReadFailed || e is StreamEnded || e == EventView::Frame(
            FrameView::Close,
        ))) || (c.phase is Replying && e == EventView::Sent(false)) || (c.phase is ClosingSocket
            && e is SocketClosed),
    ensures
        ({
            let o1 = crate::rules::step(c, h1, e);
            let none = crate::rules::step(
                o1.0,
                h2,
                EventView::OpenTripsListed { ids: Some(Seq::empty()), now },
            );
            let failed = crate::rules::step(
                o1.0,
                h2,
                EventView::OpenTripsListed { ids: None, now },
            );
            &&& asks_for(c, h1, ActionView::ListOpenTrips { user }, o1)
            &&& none == failed
            &&& none.2 == ActionView::Finish
            &&& logged_out(h2, none.1, user)
        }),
{
}

/// The first of the trips that a user leaves open is closed as of the moment of
/// leaving. An answer has the hub forget that trip, and the next one closed; the
/// answer on the last does what no open trip would have done.
pub proof fn law_left_trips_are_closed_in_turn(
    c: ConnView,
    h1: HubView,
    h2: HubView,
    user: Seq<char>,
    leave: LeaveView,
    left: Seq<i64>,
    next: nat,
    ts: i64,
    now: i64,
)
    requires
        next < left.len(),
    ensures
        ({
            let listing = ConnView {
                id: c.id,
                user: c.user,
                phase: PhaseView::Listing { user, leave },
            };
            let leaving = ConnView {
                id: c.id,
                user: c.user,
                phase: PhaseView::Leaving { user, leave, left, next, ts },
            };
            let o1 = crate::rules::step(
                listing,
                h1,
                EventView::OpenTripsListed { ids: Some(left), now },
            );
            let o2 = crate::rules::step(leaving, h2, EventView::LeftTripClosed);
            let forgot = HubView {
                sessions: h2.sessions,
                status: h2.status,
                online: h2.online,
                trips: h2.trips.remove(left[next as int]),
            };
            &&& asks_for(
                c,
                h1,
                ActionView::CloseLeftTrip { trip_id: left[0], user, ts: now },
                o1,
            )
            &&& o1.0.phase == (PhaseView::Leaving { user, leave, left, next: 0, ts: now })
            &&& if next + 1 < left.len() {
                &&& asks_for(
                    c,
                    forgot,
                    ActionView::CloseLeftTrip { trip_id: left[next as int + 1], user, ts },
                    o2,
                )
                &&& o2.0.phase == (PhaseView::Leaving { user, leave, left, next: next + 1, ts })
            } else {
                o2 == crate::rules::step(
                    listing,
                    forgot,
                    EventView::OpenTripsListed { ids: Some(Seq::empty()), now },
                )
            }
        }),
{
}

}
