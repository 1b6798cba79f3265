//! What holds of every connection, whatever happens on it.

use crate::exchange::{ActionView, EventView, FrameView, LeaveView, PhaseView};
use crate::hub::HubView;
use crate::protocol::MessageView;
use crate::rules::{ConnView, Outcome};
use crate::trips::UserStatus;
use vstd::prelude::*;

verus! {

/// The token that a request carries, where it is refused without a valid one.
pub open spec fn token_of(m: MessageView) -> Option<Seq<char>> {
    match m {
        MessageView::StartTrip { token, .. } => Some(token),
        MessageView::Position { token, .. } => Some(token),
        MessageView::EndTrip { token, .. } => Some(token),
        MessageView::Stats { token, .. } => Some(token),
        MessageView::ChatToServer { token, .. } => Some(token),
        _ => None,
    }
}

/// A request with a token that is not valid, or not that of the connection's
/// user, is answered `UNAUTHORIZED`, and nothing else comes of it.
pub proof fn law_unauthorized_changes_nothing(
    c: ConnView,
    h: HubView,
    m: MessageView,
    token: Seq<char>,
)
    requires
        c.phase is Decoding,
        token_of(m) == Some(token),
        crate::sessions::authorised(h.sessions, c.user, token) is None,
    ensures
        ({
            let (c2, h2, a) = crate::rules::step(c, h, EventView::Decoded(Some(m)));
            &&& c2.user == c.user
            &&& h2 == h
            &&& a == ActionView::Send(
                crate::protocol::refusal("UNAUTHORIZED"@, "token non valido"@),
            )
        }),
{
}

/// On a connection that nobody is logged in on, no token is good.
pub proof fn law_anonymous_is_unauthorized(h: HubView, token: Seq<char>)
    ensures
        crate::sessions::authorised(h.sessions, None, token) is None,
{
}

/// A login or a registration that fails leaves everybody as they were, above
/// all the user who is logged in on the connection.
pub proof fn law_failed_login_keeps_the_session(
    c: ConnView,
    h: HubView,
    e: Seq<char>,
    token: Seq<char>,
)
    requires
        c.phase is LoggingIn || c.phase is Registering,
    ensures
        ({
            let event = if c.phase is LoggingIn {
                EventView::CredentialsChecked { verdict: Err(e), token }
            } else {
                EventView::UserSaved { outcome: Err(e), token }
            };
            let code = if c.phase is LoggingIn {
                "AUTH_FAILED"@
            } else {
                "REGISTER_FAILED"@
            };
            let (c2, h2, a) = crate::rules::step(c, h, event);
            &&& c2.user == c.user
            &&& h2 == h
            &&& a == ActionView::Send(crate::protocol::refusal(code, e))
        }),
{
}

/// Logging in again as the user of the connection is refused without a look at
/// the password, and no new token is given.
pub proof fn law_no_second_login_on_a_connection(
    c: ConnView,
    h: HubView,
    username: Seq<char>,
    password: Seq<char>,
)
    requires
        c.phase is Decoding,
        c.user == Some(username),
    ensures
        ({
            let (c2, h2, a) = crate::rules::step(
                c,
                h,
                EventView::Decoded(Some(MessageView::Login { username, password })),
            );
            &&& c2.user == c.user
            &&& h2 == h
            &&& a == ActionView::Send(
                crate::protocol::refusal("AUTH_FAILED"@, crate::rules::already(username)),
            )
        }),
{
}

/// A user who has an active session is refused a second one on any other
/// connection, even with the right password.
pub proof fn law_one_session_per_user(
    c: ConnView,
    h: HubView,
    username: Seq<char>,
    token: Seq<char>,
)
    requires
        c.phase == (PhaseView::LoggingIn { username }),
        crate::sessions::logged_in(h.sessions, username),
    ensures
        ({
            let (c2, h2, a) = crate::rules::step(
                c,
                h,
                EventView::CredentialsChecked { verdict: Ok(()), token },
            );
            &&& c2.user == c.user
            &&& h2 == h
            &&& a == ActionView::Send(
                crate::protocol::refusal("AUTH_FAILED"@, crate::sessions::ALREADY_LOGGED_IN@),
            )
        }),
{
}

/// A login that succeeds gives a token that is good on this connection, and
/// makes its user stationary and reachable here. Whoever was logged in here
/// before is signed out.
pub proof fn law_login_opens_a_session(
    c: ConnView,
    h: HubView,
    username: Seq<char>,
    token: Seq<char>,
)
    requires
        c.phase == (PhaseView::LoggingIn { username }),
        !crate::sessions::logged_in(h.sessions, username),
        c.user != Some(username),
    ensures
        entered(
            c,
            username,
            token,
            crate::rules::step(c, h, EventView::CredentialsChecked { verdict: Ok(()), token }),
        ),
{
}

/// A registration that succeeds does what a login does.
pub proof fn law_registration_opens_a_session(
    c: ConnView,
    h: HubView,
    username: Seq<char>,
    token: Seq<char>,
)
    requires
        c.phase == (PhaseView::Registering { username }),
        c.user != Some(username),
    ensures
        entered(
            c,
            username,
            token,
            crate::rules::step(c, h, EventView::UserSaved { outcome: Ok(()), token }),
        ),
{
}

/// The connection `c` has become that of `username`, with `token`.
pub open spec fn entered(c: ConnView, username: Seq<char>, token: Seq<char>, o: Outcome) -> bool {
    let (c2, h2, a) = o;
    &&& c2.user == Some(username)
    &&& a == ActionView::Send(MessageView::AuthOk { token })
    &&& crate::sessions::authorised(h2.sessions, c2.user, token) == Some(username)
    &&& h2.status.dom().contains(username) && h2.status[username] == UserStatus::Stationary
    &&& h2.online.dom().contains(username) && h2.online[username] == c.id
    &&& c.user matches Some(before) ==> gone(h2, before)
}

/// Nothing is left of a user: no session, no status, no connection.
pub open spec fn gone(h: HubView, user: Seq<char>) -> bool {
    &&& !crate::sessions::logged_in(h.sessions, user)
    &&& !h.status.dom().contains(user)
    &&& !h.online.dom().contains(user)
}

/// No event gives any user a second session.
pub proof fn law_step_keeps_single_sessions(c: ConnView, h: HubView, e: EventView)
    requires
        crate::sessions::single_session(h.sessions),
    ensures
        crate::sessions::single_session(crate::rules::step(c, h, e).1.sessions),
{
}

/// The user that a connection acts for while it waits.
pub open spec fn acting_for(phase: PhaseView) -> Option<Seq<char>> {
    match phase {
        PhaseView::OpeningTrip { user, .. } => Some(user),
        PhaseView::CheckingOpen { user, .. } => Some(user),
        PhaseView::Measuring { user, .. } => Some(user),
        PhaseView::Storing { user, .. } => Some(user),
        PhaseView::Loading { user, .. } => Some(user),
        PhaseView::Pacing { user, .. } => Some(user),
        PhaseView::SummingUp(t) => Some(t.username),
        PhaseView::CheckingChat { user, .. } => Some(user),
        PhaseView::Listing { user, .. } => Some(user),
        PhaseView::Leaving { user, .. } => Some(user),
        _ => None,
    }
}

/// The sample that a connection is about to take in, if it waits with one, is a
/// place on the globe at a positive time.
pub open spec fn sample_ok(phase: PhaseView) -> bool {
    match phase {
        PhaseView::OpeningTrip { lat, lon, ts, .. } => crate::rules::bad_sample(lat, lon, ts)
            is None,
        PhaseView::CheckingOpen { lat, lon, ts, .. } => crate::rules::bad_sample(lat, lon, ts)
            is None,
        PhaseView::Measuring { lat, lon, ts, .. } => crate::rules::bad_sample(lat, lon, ts)
            is None,
        _ => true,
    }
}

/// A connection acts for the user it is logged in as, and holds no bad sample.
pub open spec fn conn_ok(c: ConnView) -> bool {
    &&& acting_for(c.phase) matches Some(u) ==> c.user == Some(u)
    &&& c.phase matches PhaseView::LoggingIn { username } ==> c.user != Some(username)
    &&& sample_ok(c.phase)
}

/// What an action asks of the database, it asks for `user` alone, and a sample
/// that it records is a place on the globe at a positive time.
pub open spec fn action_ok(user: Option<Seq<char>>, a: ActionView) -> bool {
    match a {
        ActionView::OpenTrip { user: u, lat, lon, ts } => user == Some(u)
            && crate::rules::bad_sample(lat, lon, ts) is None,
        ActionView::CheckOpen { user: u, .. } => user == Some(u),
        ActionView::CloseOrphan { user: u, .. } => user == Some(u),
        ActionView::CloseTrip { user: u, .. } => user == Some(u),
        ActionView::LoadRows { user: u, from_ts, to_ts } => user == Some(u) && from_ts
            <= to_ts,
        ActionView::ShowChat { user: u, .. } => user == Some(u),
        ActionView::ListOpenTrips { user: u } => user == Some(u),
        ActionView::CloseLeftTrip { user: u, .. } => user == Some(u),
        ActionView::StorePosition { lat, lon, ts, .. } => user is Some
            && crate::rules::bad_sample(lat, lon, ts) is None,
        _ => true,
    }
}

/// A fresh connection is in order, every event keeps it so, and whatever is
/// then done for it is done for its own user and with good samples only.
pub proof fn law_connection_acts_for_its_user(c: ConnView, h: HubView, e: EventView)
    requires
        conn_ok(c),
    ensures
        conn_ok(crate::rules::step(c, h, e).0),
        action_ok(c.user, crate::rules::step(c, h, e).2),
        forall|id: u64|
            #![auto]
            conn_ok(ConnView { id, user: None, phase: PhaseView::Receiving }),
{
}

/// A token that an event or a waiting connection brings along.
pub open spec fn brings(c: ConnView, e: EventView, token: Seq<char>) -> bool {
    ||| e matches EventView::CredentialsChecked { token: t, .. } && t == token
    ||| e matches EventView::UserSaved { token: t, .. } && t == token
    ||| c.phase matches PhaseView::Listing { leave: LeaveView::Disconnecting { token: t }, .. }
        && t == token
    ||| c.phase matches PhaseView::Leaving { leave: LeaveView::Disconnecting { token: t }, .. }
        && t == token
}

/// The connection does something to `user`.
pub open spec fn concerns(c: ConnView, user: Seq<char>) -> bool {
    ||| c.user == Some(user)
    ||| acting_for(c.phase) == Some(user)
    ||| c.phase == (PhaseView::LoggingIn { username: user })
    ||| c.phase == (PhaseView::Registering { username: user })
}

/// The connection waits with trip `id`, or the event brings it.
pub open spec fn names_trip(c: ConnView, e: EventView, id: i64) -> bool {
    ||| e == EventView::TripOpened(Ok(id))
    ||| c.phase matches PhaseView::Measuring { trip_id, .. } && trip_id == id
    ||| c.phase == (PhaseView::ClosingTrip { trip_id: id })
    ||| c.phase matches PhaseView::Leaving { left, next, .. } && next < left.len()
        && left[next as int] == id
}

/// What happens on a connection leaves every trip alone but the one that it is
/// about.
pub proof fn law_other_trips_are_left_alone(c: ConnView, h: HubView, e: EventView, trip: i64)
    requires
        !names_trip(c, e, trip),
    ensures
        ({
            let h2 = crate::rules::step(c, h, e).1;
            &&& h2.trips.dom().contains(trip) == h.trips.dom().contains(trip)
            &&& h.trips.dom().contains(trip) ==> h2.trips[trip] == h.trips[trip]
        }),
{
}

/// What happens on a connection leaves the sessions, the status and the
/// connection of every other user alone.
pub proof fn law_others_are_left_alone(c: ConnView, h: HubView, e: EventView, other: Seq<char>)
    requires
        !concerns(c, other),
    ensures
        ({
            let h2 = crate::rules::step(c, h, e).1;
            &&& forall|t: Seq<char>|
                #![trigger crate::sessions::user_of(h2.sessions, t)]
                crate::sessions::user_of(h.sessions, t) == Some(other) && !brings(c, e, t)
                    ==> crate::sessions::user_of(h2.sessions, t) == Some(other)
            &&& h2.status.dom().contains(other) == h.status.dom().contains(other)
            &&& h.status.dom().contains(other) ==> h2.status[other] == h.status[other]
            &&& h2.online.dom().contains(other) == h.online.dom().contains(other)
            &&& h.online.dom().contains(other) ==> h2.online[other] == h.online[other]
        }),
{
}

/// A connection whose user it had to log out finishes only once nothing is left
/// of that user.
pub proof fn law_finish_leaves_nothing_behind(c: ConnView, h: HubView, e: EventView)
    requires
        conn_ok(c),
        crate::rules::step(c, h, e).2 is Finish,
    ensures
        c.user matches Some(user) ==> gone(crate::rules::step(c, h, e).1, user),
{
}

/// The connection is ridding `user`, who asked to be disconnected with `token`,
/// of the trips that were left open.
pub open spec fn disconnecting(phase: PhaseView, user: Seq<char>, token: Seq<char>) -> bool {
    ||| phase == (PhaseView::Listing { user, leave: LeaveView::Disconnecting { token } })
    ||| phase matches PhaseView::Leaving { user: u, leave, .. } && u == user && leave == (
        LeaveView::Disconnecting { token })
}

/// After a disconnection with one's own token the connection is nobody's, and
/// nothing is left of the user who was logged in on it, whatever became of the
/// trips.
pub proof fn law_disconnect_ends_the_session(
    c: ConnView,
    h: HubView,
    user: Seq<char>,
    token: Seq<char>,
    e: EventView,
)
    requires
        crate::sessions::single_session(h.sessions),
        crate::sessions::user_of(h.sessions, token) == Some(user),
        disconnecting(c.phase, user, token),
        if c.phase is Listing {
            e is OpenTripsListed
        } else {
            e is LeftTripClosed
        },
    ensures
        ({
            let (c2, h2, a) = crate::rules::step(c, h, e);
            ||| a is CloseLeftTrip && disconnecting(c2.phase, user, token) && h2.sessions
                == h.sessions
            ||| {
                &&& c2.user is None
                &&& gone(h2, user)
                &&& a == ActionView::Send(MessageView::Ack)
            }
        }),
{
}

/// A disconnection with a token that is not one's own is acknowledged and
/// changes nothing on the hub.
pub proof fn law_foreign_token_disconnects_nobody(c: ConnView, h: HubView, token: Seq<char>)
    requires
        c.phase is Decoding,
        crate::sessions::authorised(h.sessions, c.user, token) is None,
    ensures
        ({
            let (c2, h2, a) = crate::rules::step(
                c,
                h,
                EventView::Decoded(Some(MessageView::Disconnect { token })),
            );
            &&& c2.user == c.user
            &&& h2 == h
            &&& a == ActionView::Send(MessageView::Ack)
        }),
{
}

/// What comes of `n` answers in a row that a trip left open was closed.
pub open spec fn after_closing(c: ConnView, h: HubView, n: nat) -> Outcome
    decreases n,
{
    let o = crate::rules::step(c, h, EventView::LeftTripClosed);
    if n <= 1 {
        o
    } else {
        after_closing(o.0, o.1, (n - 1) as nat)
    }
}

/// The trips of a user who leaves are all forgotten, and then the user goes:
/// the database is asked for each of them once, and no other trip is touched.
pub proof fn law_left_trips_are_forgotten(
    c: ConnView,
    h: HubView,
    user: Seq<char>,
    leave: LeaveView,
    left: Seq<i64>,
    next: nat,
    ts: i64,
)
    requires
        c.phase == (PhaseView::Leaving { user, leave, left, next, ts }),
        next < left.len(),
    ensures
        after_closing(c, h, (left.len() - next) as nat) == crate::rules::settle(
            c,
            HubView {
                trips: h.trips.remove_keys(left.skip(next as int).to_set()),
                ..h
            },
            user,
            leave,
        ),
    decreases left.len() - next,
{
    let o = crate::rules::step(c, h, EventView::LeftTripClosed);
    let rest = left.skip(next as int);
    assert(rest[0] == left[next as int]);
    let all = HubView { trips: h.trips.remove_keys(rest.to_set()), ..h };
    if next + 1 < left.len() {
        law_left_trips_are_forgotten(o.0, o.1, user, leave, left, next + 1, ts);
        let later = left.skip((next + 1) as int);
        assert(rest.to_set() =~= later.to_set().insert(left[next as int])) by {
            assert forall|x: i64|
                rest.to_set().contains(x) == later.to_set().insert(left[next as int]).contains(
                    x,
                ) by {
                if rest.contains(x) {
                    let i = choose|i: int| 0 <= i < rest.len() && rest[i] == x;
                    if i > 0 {
                        assert(later[i - 1] == x);
                    }
                }
                if later.contains(x) {
                    let i = choose|i: int| 0 <= i < later.len() && later[i] == x;
                    assert(rest[i + 1] == x);
                }
            }
        }
        assert(o.1.trips.remove_keys(later.to_set()) =~= all.trips);
    } else {
        assert(rest =~= seq![left[next as int]]);
        assert(rest.to_set() =~= Set::empty().insert(left[next as int])) by {
            assert forall|x: i64|
                rest.to_set().contains(x) == Set::empty().insert(
                    left[next as int],
                ).contains(x) by {
                if x == left[next as int] {
                    assert(rest[0] == x);
                }
            }
        }
        assert(o.1.trips =~= all.trips);
    }
}

/// The trips of a user who leaves are closed one after the other, in the order
/// in which they were listed, and all as of one moment.
pub proof fn law_left_trips_end_at_one_moment(
    c: ConnView,
    h: HubView,
    user: Seq<char>,
    leave: LeaveView,
    left: Seq<i64>,
    next: nat,
    ts: i64,
    n: nat,
)
    requires
        c.phase == (PhaseView::Leaving { user, leave, left, next, ts }),
        1 <= n,
        next + n < left.len(),
    ensures
        after_closing(c, h, n).2 == (ActionView::CloseLeftTrip {
            trip_id: left[(next + n) as int],
            user,
            ts,
        }),
    decreases n,
{
    if n > 1 {
        let o = crate::rules::step(c, h, EventView::LeftTripClosed);
        law_left_trips_end_at_one_moment(
            o.0,
            o.1,
            user,
            leave,
            left,
            next + 1,
            ts,
            (n - 1) as nat,
        );
    }
}

/// The stream of a connection is lost: the client closed it, it ended, it could
/// not be read, a message could not be sent, or a farewell is over.
pub open spec fn lost(c: ConnView, e: EventView) -> bool {
    ||| c.phase is Receiving && (e is ReadFailed || e is StreamEnded || e == EventView::Frame(
        FrameView::Close,
    ))
    ||| c.phase is Replying && e == EventView::Sent(false)
    ||| c.phase is ClosingSocket && e is SocketClosed
}

/// What comes of a list of open trips, once each of them was closed.
pub open spec fn after_leaving(c: ConnView, h: HubView, left: Seq<i64>, now: i64) -> Outcome {
    let o = crate::rules::step(c, h, EventView::OpenTripsListed { ids: Some(left), now });
    if left.len() == 0 {
        o
    } else {
        after_closing(o.0, o.1, left.len())
    }
}

/// However the stream of a connection is lost, the user who is logged in on it
/// is cleaned up after: the open trips are asked for, the first of them is
/// closed as of that moment, and when all are, they are forgotten, nothing is
/// left of the user, and nothing else has changed. Where the trips cannot be
/// listed, the user goes all the same. A connection without a user is over at
/// once.
pub proof fn law_lost_connection_is_cleaned_up(
    c: ConnView,
    h: HubView,
    e: EventView,
    left: Seq<i64>,
    now: i64,
)
    requires
        lost(c, e),
    ensures
        ({
            let o = crate::rules::step(c, h, e);
            &&& o.1 == h
            &&& match c.user {
                None => o.2 is Finish,
                Some(user) => {
                    let listed = crate::rules::step(
                        o.0,
                        o.1,
                        EventView::OpenTripsListed { ids: Some(left), now },
                    );
                    let unlisted = crate::rules::step(
                        o.0,
                        o.1,
                        EventView::OpenTripsListed { ids: None, now },
                    );
                    let end = after_leaving(o.0, o.1, left, now);
                    let rid = HubView { trips: h.trips.remove_keys(left.to_set()), ..h };
                    &&& o.2 == (ActionView::ListOpenTrips { user })
                    &&& left.len() > 0 ==> listed.2 == (ActionView::CloseLeftTrip {
                        trip_id: left[0],
                        user,
                        ts: now,
                    })
                    &&& end.2 is Finish
                    &&& end.1 == crate::rules::signed_out(rid, user)
                    &&& gone(end.1, user)
                    &&& unlisted.2 is Finish
                    &&& unlisted.1 == crate::rules::signed_out(h, user)
                    &&& gone(unlisted.1, user)
                },
            }
        }),
{
    if let Some(user) = c.user {
        let o = crate::rules::step(c, h, e);
        let listed = crate::rules::step(
            o.0,
            o.1,
            EventView::OpenTripsListed { ids: Some(left), now },
        );
        if left.len() > 0 {
            law_left_trips_are_forgotten(
                listed.0,
                listed.1,
                user,
                LeaveView::CleaningUp,
                left,
                0,
                now,
            );
            assert(left.skip(0) =~= left);
        } else {
            assert(h.trips.remove_keys(left.to_set()) =~= h.trips);
        }
    }
}

/// A trip that has just been opened is followed from where it starts, and its
/// user is stationary until the first change of place.
pub proof fn law_opened_trip_is_followed(
    c: ConnView,
    h: HubView,
    user: Seq<char>,
    lat: crate::double::Double,
    lon: crate::double::Double,
    ts: i64,
    trip_id: i64,
)
    requires
        c.phase == (PhaseView::OpeningTrip { user, lat, lon, ts }),
    ensures
        ({
            let (c2, h2, a) = crate::rules::step(c, h, EventView::TripOpened(Ok(trip_id)));
            &&& h2.trips == h.trips.insert(trip_id, crate::trips::reached(lat, lon))
            &&& h2.status == h.status.insert(user, UserStatus::Stationary)
            &&& h2.sessions == h.sessions
            &&& h2.online == h.online
            &&& a == ActionView::Send(MessageView::TripStarted { trip_id, lat, lon, ts })
        }),
{
}

/// A sample of a trip that is not open, or not the user's, is refused and
/// changes nothing. One of a trip that is open but not followed closes it.
pub proof fn law_sample_needs_an_open_trip(
    c: ConnView,
    h: HubView,
    user: Seq<char>,
    trip_id: i64,
    lat: crate::double::Double,
    lon: crate::double::Double,
    ts: i64,
)
    requires
        c.phase == (PhaseView::CheckingOpen { user, trip_id, lat, lon, ts }),
    ensures
        ({
            let (c2, h2, a) = crate::rules::step(c, h, EventView::OpenChecked(Ok(false)));
            &&& h2 == h
            &&& a == ActionView::Send(
                crate::protocol::refusal("BAD_REQUEST"@, crate::trips::NO_OPEN_TRIP@),
            )
        }),
        !h.trips.dom().contains(trip_id) ==> ({
            let (c2, h2, a) = crate::rules::step(c, h, EventView::OpenChecked(Ok(true)));
            let (c3, h3, b) = crate::rules::step(c2, h2, EventView::OrphanClosed);
            &&& h2 == h
            &&& a == (ActionView::CloseOrphan { trip_id, user, ts })
            &&& h3 == h
            &&& b == ActionView::Send(
                crate::protocol::refusal(
                    "TRIP_TERMINATED"@,
                    "viaggio chiuso dal server (stato perso): apri un nuovo viaggio"@,
                ),
            )
        }),
{
}

/// An acceptable chat text of a client is shown to the operator, under the name
/// of its user, and acknowledged; nobody else gets it. One that is not
/// acceptable is refused and shown to nobody.
pub proof fn law_chat_reaches_the_operator_alone(
    c: ConnView,
    h: HubView,
    user: Seq<char>,
    text: Seq<char>,
    why: Seq<char>,
)
    requires
        c.phase == (PhaseView::CheckingChat { user, text }),
    ensures
        ({
            let (c2, h2, a) = crate::rules::step(c, h, EventView::ChatChecked(Ok(())));
            let (c3, h3, b) = crate::rules::step(c2, h2, EventView::ChatShown);
            &&& h2 == h
            &&& a == (ActionView::ShowChat { user, text })
            &&& h3 == h
            &&& b == ActionView::Send(MessageView::Ack)
        }),
        ({
            let (c2, h2, a) = crate::rules::step(c, h, EventView::ChatChecked(Err(why)));
            &&& h2 == h
            &&& a == ActionView::Send(crate::protocol::refusal("BAD_REQUEST"@, why))
        }),
{
}

/// A message that only the server sends.
pub open spec fn server_only(m: MessageView) -> bool {
    ||| m is TripStarted
    ||| m is AuthOk
    ||| m is Ack
    ||| m is Error
    ||| m is StatsResult
    ||| m is ChatFromServer
}

/// A message that only the server sends is refused and changes nothing.
pub proof fn law_server_messages_are_refused(c: ConnView, h: HubView, m: MessageView)
    requires
        c.phase is Decoding,
        server_only(m),
    ensures
        ({
            let (c2, h2, a) = crate::rules::step(c, h, EventView::Decoded(Some(m)));
            &&& c2.user == c.user
            &&& h2 == h
            &&& a == ActionView::Send(
                crate::protocol::refusal("BAD_REQUEST"@, "tipo messaggio non valido dal client"@),
            )
        }),
{
}

/// `e` is what can come of `a`.
pub open spec fn comes_of(a: ActionView, e: EventView) -> bool {
    match a {
        ActionView::Receive => e is Frame || e is ReadFailed || e is StreamEnded,
        ActionView::Decode(_) => e is Decoded,
        ActionView::CheckCredentials(_) => e is CredentialsChecked,
        ActionView::SaveUser(_) => e is UserSaved,
        ActionView::OpenTrip { .. } => e is TripOpened,
        ActionView::CheckOpen { .. } => e is OpenChecked,
        ActionView::CloseOrphan { .. } => e is OrphanClosed,
        ActionView::Measure { .. } => e is Measured,
        ActionView::StorePosition { .. } => e is PositionStored,
        ActionView::CloseTrip { .. } => e is TripClosed,
        ActionView::LoadRows { .. } => e is RowsLoaded,
        ActionView::Pace(points) => e matches EventView::Paced(d)
            && crate::stats::stretches(points) <= d.len(),
        ActionView::SumUp { .. } => e is SummedUp,
        ActionView::CheckChat(_) => e is ChatChecked,
        ActionView::ShowChat { .. } => e is ChatShown,
        ActionView::ListOpenTrips { .. } => e is OpenTripsListed,
        ActionView::CloseLeftTrip { .. } => e is LeftTripClosed,
        ActionView::Send(_) => e is Sent,
        ActionView::CloseSocket => e is SocketClosed,
        ActionView::Finish => false,
        ActionView::Abort => false,
    }
}

/// The connection waits for what comes of `a`.
pub open spec fn waits_for(phase: PhaseView, a: ActionView) -> bool {
    match (phase, a) {
        (PhaseView::Receiving, ActionView::Receive) => true,
        (PhaseView::Decoding, ActionView::Decode(_)) => true,
        (PhaseView::LoggingIn { .. }, ActionView::CheckCredentials(_)) => true,
        (PhaseView::Registering { .. }, ActionView::SaveUser(_)) => true,
        (PhaseView::OpeningTrip { .. }, ActionView::OpenTrip { .. }) => true,
        (PhaseView::CheckingOpen { .. }, ActionView::CheckOpen { .. }) => true,
        (PhaseView::ClosingOrphan, ActionView::CloseOrphan { .. }) => true,
        (PhaseView::Measuring { .. }, ActionView::Measure { .. }) => true,
        (PhaseView::Storing { .. }, ActionView::StorePosition { .. }) => true,
        (PhaseView::ClosingTrip { .. }, ActionView::CloseTrip { .. }) => true,
        (PhaseView::Loading { .. }, ActionView::LoadRows { .. }) => true,
        (PhaseView::Pacing { points, .. }, ActionView::Pace(p)) => points == p,
        (PhaseView::SummingUp(_), ActionView::SumUp { .. }) => true,
        (PhaseView::CheckingChat { .. }, ActionView::CheckChat(_)) => true,
        (PhaseView::Showing, ActionView::ShowChat { .. }) => true,
        (PhaseView::Listing { .. }, ActionView::ListOpenTrips { .. }) => true,
        (PhaseView::Leaving { .. }, ActionView::CloseLeftTrip { .. }) => true,
        (PhaseView::Replying { .. }, ActionView::Send(_)) => true,
        (PhaseView::ClosingSocket, ActionView::CloseSocket) => true,
        (PhaseView::Finished, ActionView::Finish) => true,
        (PhaseView::Aborted, ActionView::Abort) => true,
        _ => false,
    }
}

/// How many more events a request can need before it is answered, at most.
pub open spec fn until_answered(phase: PhaseView) -> nat {
    match phase {
        PhaseView::Decoding => 6,
        PhaseView::Loading { .. } => 5,
        PhaseView::CheckingOpen { .. } => 4,
        PhaseView::Pacing { .. } => 4,
        PhaseView::Measuring { .. } => 3,
        PhaseView::SummingUp(_) => 3,
        PhaseView::CheckingChat { .. } => 3,
        PhaseView::Receiving => 0,
        PhaseView::Replying { .. } => 0,
        _ => 2,
    }
}

/// A connection always waits for what comes of the action that was named last,
/// and gives up on nothing that comes of it.
pub proof fn law_connection_takes_what_it_waits_for(
    c: ConnView,
    h: HubView,
    a: ActionView,
    e: EventView,
)
    requires
        waits_for(c.phase, a),
        comes_of(a, e),
    ensures
        ({
            let (c2, h2, b) = crate::rules::step(c, h, e);
            &&& waits_for(c2.phase, b)
            &&& !(b is Abort)
        }),
{
}

/// A request is answered: whatever comes of the actions that it leads to, each
/// step either sends a message, or ends the connection, or brings the answer
/// closer. A user who leaves is first rid of the trips that were left open.
pub proof fn law_requests_are_answered(
    c: ConnView,
    h: HubView,
    a: ActionView,
    e: EventView,
)
    requires
        waits_for(c.phase, a),
        comes_of(a, e),
        until_answered(c.phase) > 0,
        !(c.phase is ClosingSocket),
    ensures
        ({
            let (c2, h2, b) = crate::rules::step(c, h, e);
            ||| b is Send
            ||| b is Finish
            ||| c2.phase is Listing && c.phase is Decoding
            ||| c2.phase is Leaving && c.phase is Listing
            ||| {
                &&& c.phase matches PhaseView::Leaving { left, next, .. }
                &&& c2.phase matches PhaseView::Leaving { left: left2, next: next2, .. }
                &&& left2 == left
                &&& next < next2 < left.len()
            }
            ||| until_answered(c2.phase) < until_answered(c.phase)
        }),
{
}

/// The statistics that a user gets are those of the user's samples in the
/// interval, in order.
pub proof fn law_statistics_are_of_the_interval(
    c: ConnView,
    h: HubView,
    user: Seq<char>,
    from_ts: i64,
    to_ts: i64,
    rows: Seq<crate::stats::PositionRecord>,
    distances: Seq<crate::double::Double>,
    distance_m: crate::double::Double,
    avg_speed_mps: crate::double::Double,
    avg_speed_kmh: crate::double::Double,
)
    requires
        c.phase == (PhaseView::Loading { user, from_ts, to_ts }),
        from_ts <= to_ts,
        crate::stats::fits(crate::stats::trajectory(rows, from_ts, to_ts)),
        crate::stats::stretches(crate::stats::trajectory(rows, from_ts, to_ts)) <= distances.len(),
    ensures
        ({
            let points = crate::stats::trajectory(rows, from_ts, to_ts);
            let n = crate::stats::stretches(points);
            let o1 = crate::rules::step(c, h, EventView::RowsLoaded(Ok(rows)));
            let o2 = crate::rules::step(o1.0, o1.1, EventView::Paced(distances));
            let o3 = crate::rules::step(
                o2.0,
                o2.1,
                EventView::SummedUp { distance_m, avg_speed_mps, avg_speed_kmh },
            );
            &&& o3.1 == h
            &&& o1.2 == ActionView::Pace(points)
            &&& o2.2 matches ActionView::SumUp { lengths, .. } && lengths == crate::rules::lengths(
                distances,
                crate::stats::moving_of(points, distances, n),
            )
            &&& o3.2 == ActionView::Send(
                MessageView::StatsResult {
                    username: user,
                    from_ts,
                    to_ts,
                    distance_m,
                    movement_secs: crate::stats::movement_of(points, distances, n) as i64,
                    pause_secs: crate::stats::pause_of(points, distances, n) as i64,
                    total_secs: crate::stats::total_of(points, n) as i64,
                    avg_speed_mps,
                    avg_speed_kmh,
                    points: points.len() as i64,
                },
            )
        }),
{
}

}
