//! The rules that a connection follows: for every event, what becomes of the
//! connection and of the shared state, and what is done next.

use crate::double::Double;
use crate::exchange::{ActionView, EventView, FrameView, LeaveView, PhaseView};
use crate::hub::HubView;
use crate::protocol::MessageView;
use crate::stats::{PositionRecord, TallyView};
use crate::trips::{InsertAction, StatusTransition, UserStatus};
use vstd::prelude::*;

verus! {

/// What a connection is: its number, the user it is logged in as, and what it
/// waits for.
pub struct ConnView {
    pub id: u64,
    pub user: Option<Seq<char>>,
    pub phase: PhaseView,
}

/// What becomes of a connection and of the hub, and what is done next.
pub type Outcome = (ConnView, HubView, ActionView);

/// Wait for `phase` while `action` is under way.
pub open spec fn pending(c: ConnView, h: HubView, phase: PhaseView, action: ActionView) -> Outcome {
    (ConnView { phase, ..c }, h, action)
}

/// Read the next frame.
pub open spec fn listen(c: ConnView, h: HubView) -> Outcome {
    pending(c, h, PhaseView::Receiving, ActionView::Receive)
}

/// Answer, and then go on.
pub open spec fn answer(c: ConnView, h: HubView, m: MessageView) -> Outcome {
    pending(c, h, PhaseView::Replying { farewell: false }, ActionView::Send(m))
}

/// Answer with a refusal, and then go on.
pub open spec fn refuse(c: ConnView, h: HubView, code: Seq<char>, text: Seq<char>) -> Outcome {
    answer(c, h, crate::protocol::refusal(code, text))
}

/// Acknowledge a farewell.
pub open spec fn farewell(c: ConnView, h: HubView) -> Outcome {
    pending(c, h, PhaseView::Replying { farewell: true }, ActionView::Send(MessageView::Ack))
}

/// Give the connection up.
pub open spec fn abort(c: ConnView, h: HubView) -> Outcome {
    pending(c, h, PhaseView::Aborted, ActionView::Abort)
}

/// The connection is over: a user who is logged in on it is logged out, after
/// the trips that were left open.
pub open spec fn over(c: ConnView, h: HubView) -> Outcome {
    match c.user {
        None => pending(c, h, PhaseView::Finished, ActionView::Finish),
        Some(user) => pending(
            c,
            h,
            PhaseView::Listing { user, leave: LeaveView::CleaningUp },
            ActionView::ListOpenTrips { user },
        ),
    }
}

/// A text is parsed, unless it is empty.
pub open spec fn on_text(c: ConnView, h: HubView, text: Seq<char>) -> Outcome {
    if text.len() == 0 {
        listen(c, h)
    } else {
        pending(c, h, PhaseView::Decoding, ActionView::Decode(text))
    }
}

/// A frame was read.
pub open spec fn on_frame(c: ConnView, h: HubView, frame: FrameView) -> Outcome {
    match frame {
        FrameView::Text(text) => on_text(c, h, text),
        FrameView::Binary(bytes) => if vstd::utf8::valid_utf8(bytes) {
            on_text(c, h, vstd::utf8::decode_utf8(bytes))
        } else {
            refuse(c, h, "BAD_REQUEST"@, "payload binario non UTF-8"@)
        },
        FrameView::Ping => listen(c, h),
        FrameView::Pong => listen(c, h),
        FrameView::Close => over(c, h),
    }
}

/// A request that carries a token is refused unless the token is valid and
/// stands for the user of the connection.
pub open spec fn unauthorized(c: ConnView, h: HubView) -> Outcome {
    refuse(c, h, "UNAUTHORIZED"@, "token non valido"@)
}

/// Why a place and a time are refused, if they are.
pub open spec fn bad_sample(lat: Double, lon: Double, ts: i64) -> Option<Seq<char>> {
    if !crate::double::on_globe(lat, lon) {
        Some("coordinate fuori range"@)
    } else if ts <= 0 {
        Some("timestamp non valido"@)
    } else {
        None
    }
}

/// What is told to a user who logs in again on the same connection.
pub open spec fn already(username: Seq<char>) -> Seq<char> {
    "già autenticato come "@ + username
}

/// A login, unless the connection is logged in as that user already.
pub open spec fn on_login(
    c: ConnView,
    h: HubView,
    username: Seq<char>,
    password: Seq<char>,
) -> Outcome {
    if c.user == Some(username) {
        refuse(c, h, "AUTH_FAILED"@, already(username))
    } else {
        pending(
            c,
            h,
            PhaseView::LoggingIn { username },
            ActionView::CheckCredentials(MessageView::Login { username, password }),
        )
    }
}

/// A trip is to be opened.
pub open spec fn on_start_trip(
    c: ConnView,
    h: HubView,
    token: Seq<char>,
    lat: Double,
    lon: Double,
    ts: i64,
) -> Outcome {
    match crate::sessions::authorised(h.sessions, c.user, token) {
        None => unauthorized(c, h),
        Some(user) => match bad_sample(lat, lon, ts) {
            Some(why) => refuse(c, h, "BAD_REQUEST"@, why),
            None => pending(
                c,
                h,
                PhaseView::OpeningTrip { user, lat, lon, ts },
                ActionView::OpenTrip { user, lat, lon, ts },
            ),
        },
    }
}

/// A sample of a trip has come in.
pub open spec fn on_position(
    c: ConnView,
    h: HubView,
    token: Seq<char>,
    trip_id: i64,
    lat: Double,
    lon: Double,
    ts: i64,
) -> Outcome {
    match crate::sessions::authorised(h.sessions, c.user, token) {
        None => unauthorized(c, h),
        Some(user) => match bad_sample(lat, lon, ts) {
            Some(why) => refuse(c, h, "BAD_REQUEST"@, why),
            None => pending(
                c,
                h,
                PhaseView::CheckingOpen { user, trip_id, lat, lon, ts },
                ActionView::CheckOpen { trip_id, user },
            ),
        },
    }
}

/// A trip is to be closed.
pub open spec fn on_end_trip(
    c: ConnView,
    h: HubView,
    token: Seq<char>,
    trip_id: i64,
    ts: i64,
) -> Outcome {
    match crate::sessions::authorised(h.sessions, c.user, token) {
        None => unauthorized(c, h),
        Some(user) => pending(
            c,
            h,
            PhaseView::ClosingTrip { trip_id },
            ActionView::CloseTrip { trip_id, user, ts },
        ),
    }
}

/// Statistics are asked for.
pub open spec fn on_stats(
    c: ConnView,
    h: HubView,
    token: Seq<char>,
    from_ts: i64,
    to_ts: i64,
) -> Outcome {
    match crate::sessions::authorised(h.sessions, c.user, token) {
        None => unauthorized(c, h),
        Some(user) => if from_ts > to_ts {
            refuse(c, h, "BAD_REQUEST"@, crate::stats::BAD_INTERVAL@)
        } else {
            pending(
                c,
                h,
                PhaseView::Loading { user, from_ts, to_ts },
                ActionView::LoadRows { user, from_ts, to_ts },
            )
        },
    }
}

/// A client writes to the operator.
pub open spec fn on_chat(c: ConnView, h: HubView, token: Seq<char>, text: Seq<char>) -> Outcome {
    match crate::sessions::authorised(h.sessions, c.user, token) {
        None => unauthorized(c, h),
        Some(user) => pending(
            c,
            h,
            PhaseView::CheckingChat { user, text },
            ActionView::CheckChat(text),
        ),
    }
}

/// A client asks to be disconnected. A token that is not its own changes
/// nothing for anybody.
pub open spec fn on_disconnect(c: ConnView, h: HubView, token: Seq<char>) -> Outcome {
    match crate::sessions::authorised(h.sessions, c.user, token) {
        None => farewell(c, h),
        Some(user) => pending(
            c,
            h,
            PhaseView::Listing { user, leave: LeaveView::Disconnecting { token } },
            ActionView::ListOpenTrips { user },
        ),
    }
}

/// A message was parsed. Those that only the server sends are refused.
pub open spec fn on_message(c: ConnView, h: HubView, m: MessageView) -> Outcome {
    match m {
        MessageView::Login { username, password } => on_login(c, h, username, password),
        MessageView::Register { username, password } => pending(
            c,
            h,
            PhaseView::Registering { username },
            ActionView::SaveUser(m),
        ),
        MessageView::StartTrip { token, lat, lon, ts } => on_start_trip(c, h, token, lat, lon, ts),
        MessageView::Position { token, trip_id, lat, lon, ts } => on_position(
            c,
            h,
            token,
            trip_id,
            lat,
            lon,
            ts,
        ),
        MessageView::EndTrip { token, trip_id, ts } => on_end_trip(c, h, token, trip_id, ts),
        MessageView::Stats { token, from_ts, to_ts } => on_stats(c, h, token, from_ts, to_ts),
        MessageView::ChatToServer { token, text } => on_chat(c, h, token, text),
        MessageView::Disconnect { token } => on_disconnect(c, h, token),
        _ => refuse(c, h, "BAD_REQUEST"@, "tipo messaggio non valido dal client"@),
    }
}

/// The hub without `user`: no session, no status, no connection.
pub open spec fn signed_out(h: HubView, user: Seq<char>) -> HubView {
    HubView {
        sessions: crate::sessions::without_user(h.sessions, user),
        status: h.status.remove(user),
        online: h.online.remove(user),
        ..h
    }
}

/// The connection becomes that of `username`, whose session has just been
/// entered in the hub: the user it was logged in as, if any, is signed out.
pub open spec fn enter(
    c: ConnView,
    h: HubView,
    username: Seq<char>,
    token: Seq<char>,
) -> Outcome {
    let left = match c.user {
        Some(u) => signed_out(h, u),
        None => h,
    };
    let entered = HubView {
        status: left.status.insert(username, UserStatus::Stationary),
        online: left.online.insert(username, c.id),
        ..left
    };
    answer(ConnView { user: Some(username), ..c }, entered, MessageView::AuthOk { token })
}

/// The credentials of a login were checked. A user with an active session is
/// refused a second one.
pub open spec fn on_credentials(
    c: ConnView,
    h: HubView,
    username: Seq<char>,
    verdict: Result<(), Seq<char>>,
    token: Seq<char>,
) -> Outcome {
    match verdict {
        Err(e) => refuse(c, h, "AUTH_FAILED"@, e),
        Ok(_) => if crate::sessions::logged_in(h.sessions, username) {
            refuse(c, h, "AUTH_FAILED"@, crate::sessions::ALREADY_LOGGED_IN@)
        } else {
            enter(
                c,
                HubView { sessions: h.sessions.insert(token, username), ..h },
                username,
                token,
            )
        },
    }
}

/// The user of a registration was stored, or was not.
pub open spec fn on_saved(
    c: ConnView,
    h: HubView,
    username: Seq<char>,
    outcome: Result<(), Seq<char>>,
    token: Seq<char>,
) -> Outcome {
    match outcome {
        Err(e) => refuse(c, h, "REGISTER_FAILED"@, e),
        Ok(_) => enter(
            c,
            HubView {
                sessions: crate::sessions::without_user(h.sessions, username).insert(
                    token,
                    username,
                ),
                ..h
            },
            username,
            token,
        ),
    }
}

/// The database opened a trip, or failed.
pub open spec fn on_trip_opened(
    c: ConnView,
    h: HubView,
    user: Seq<char>,
    lat: Double,
    lon: Double,
    ts: i64,
    opened: Result<i64, Seq<char>>,
) -> Outcome {
    match opened {
        Err(e) => refuse(c, h, "START_TRIP_FAILED"@, crate::trips::start_failure(e)),
        Ok(trip_id) => answer(
            c,
            HubView {
                trips: h.trips.insert(trip_id, crate::trips::reached(lat, lon)),
                status: h.status.insert(user, UserStatus::Stationary),
                ..h
            },
            MessageView::TripStarted { trip_id, lat, lon, ts },
        ),
    }
}

/// The database told whether a trip is open. One that is open but not under way
/// has lost its state, and is closed.
pub open spec fn on_open_checked(
    c: ConnView,
    h: HubView,
    user: Seq<char>,
    trip_id: i64,
    lat: Double,
    lon: Double,
    ts: i64,
    open: Result<bool, Seq<char>>,
) -> Outcome {
    match open {
        Err(e) => refuse(c, h, "BAD_REQUEST"@, e),
        Ok(false) => refuse(c, h, "BAD_REQUEST"@, crate::trips::NO_OPEN_TRIP@),
        Ok(true) => if h.trips.dom().contains(trip_id) {
            let last = h.trips[trip_id];
            pending(
                c,
                h,
                PhaseView::Measuring { user, trip_id, lat, lon, ts },
                ActionView::Measure {
                    from_lat: last.lat,
                    from_lon: last.lon,
                    to_lat: lat,
                    to_lon: lon,
                },
            )
        } else {
            pending(
                c,
                h,
                PhaseView::ClosingOrphan,
                ActionView::CloseOrphan { trip_id, user, ts },
            )
        },
    }
}

/// A sample was measured against where its trip was last seen to move.
pub open spec fn on_measured(
    c: ConnView,
    h: HubView,
    user: Seq<char>,
    trip_id: i64,
    lat: Double,
    lon: Double,
    ts: i64,
    distance: Double,
) -> Outcome {
    if !h.trips.dom().contains(trip_id) {
        refuse(c, h, "UPDATE_TRIP_FAILED"@, crate::trips::untracked(trip_id))
    } else {
        let (after, action, transition) = crate::trips::sample(
            h.trips[trip_id],
            lat,
            lon,
            distance,
        );
        let h2 = HubView { trips: h.trips.insert(trip_id, after), ..h };
        match action {
            InsertAction::Insert { stopped } => pending(
                c,
                h2,
                PhaseView::Storing { user, transition },
                ActionView::StorePosition { trip_id, lat, lon, ts, stopped },
            ),
            InsertAction::Skip => answer(
                c,
                HubView { status: crate::trips::status_after(h.status, user, transition), ..h2 },
                MessageView::Ack,
            ),
        }
    }
}

/// The database recorded a sample, or failed.
pub open spec fn on_stored(
    c: ConnView,
    h: HubView,
    user: Seq<char>,
    transition: StatusTransition,
    stored: Result<(), Seq<char>>,
) -> Outcome {
    match stored {
        Err(e) => refuse(c, h, "UPDATE_TRIP_FAILED"@, crate::trips::insert_failure(e)),
        Ok(_) => answer(
            c,
            HubView { status: crate::trips::status_after(h.status, user, transition), ..h },
            MessageView::Ack,
        ),
    }
}

/// The database closed a trip, or did not.
pub open spec fn on_trip_closed(
    c: ConnView,
    h: HubView,
    trip_id: i64,
    closed: Result<(), Seq<char>>,
) -> Outcome {
    match closed {
        Err(e) => refuse(c, h, "BAD_REQUEST"@, crate::trips::end_failure(e)),
        Ok(_) => answer(
            c,
            HubView { trips: h.trips.remove(trip_id), ..h },
            MessageView::Ack,
        ),
    }
}

/// The lengths of the stretches in motion.
pub open spec fn lengths(distances: Seq<Double>, moving: Seq<usize>) -> Seq<Double> {
    Seq::new(moving.len(), |k: int| distances[moving[k] as int])
}

/// The samples of a user were read, or could not be: those of the interval are
/// measured in their order.
pub open spec fn on_rows(
    c: ConnView,
    h: HubView,
    user: Seq<char>,
    from_ts: i64,
    to_ts: i64,
    loaded: Result<Seq<PositionRecord>, Seq<char>>,
) -> Outcome {
    match loaded {
        Err(e) => refuse(c, h, "BAD_REQUEST"@, e),
        Ok(rows) => if from_ts > to_ts {
            refuse(c, h, "BAD_REQUEST"@, crate::stats::BAD_INTERVAL@)
        } else {
            let points = crate::stats::trajectory(rows, from_ts, to_ts);
            pending(
                c,
                h,
                PhaseView::Pacing { user, from_ts, to_ts, points },
                ActionView::Pace(points),
            )
        },
    }
}

/// The samples of a user were measured. Samples whose seconds cannot be
/// counted, or that come without their distances, end the connection as a lost
/// stream does.
pub open spec fn on_paced(
    c: ConnView,
    h: HubView,
    user: Seq<char>,
    from_ts: i64,
    to_ts: i64,
    points: Seq<PositionRecord>,
    distances: Seq<Double>,
) -> Outcome {
    if crate::stats::fits(points) && crate::stats::stretches(points) <= distances.len() {
        let tally = crate::stats::tally(user, from_ts, to_ts, points, distances);
        pending(
            c,
            h,
            PhaseView::SummingUp(tally),
            ActionView::SumUp {
                lengths: lengths(distances, tally.moving),
                divisor: if tally.movement_secs > 0 {
                    Some(tally.movement_secs as i64)
                } else {
                    None
                },
            },
        )
    } else {
        over(c, h)
    }
}

/// The statistics are complete.
pub open spec fn on_summed_up(
    c: ConnView,
    h: HubView,
    t: TallyView,
    distance_m: Double,
    avg_speed_mps: Double,
    avg_speed_kmh: Double,
) -> Outcome {
    answer(
        c,
        h,
        MessageView::StatsResult {
            username: t.username,
            from_ts: t.from_ts,
            to_ts: t.to_ts,
            distance_m,
            movement_secs: t.movement_secs as i64,
            pause_secs: t.pause_secs as i64,
            total_secs: t.total_secs as i64,
            avg_speed_mps,
            avg_speed_kmh,
            points: t.points as i64,
        },
    )
}

/// A chat text was found acceptable, or was not.
pub open spec fn on_chat_checked(
    c: ConnView,
    h: HubView,
    user: Seq<char>,
    text: Seq<char>,
    checked: Result<(), Seq<char>>,
) -> Outcome {
    match checked {
        Err(e) => refuse(c, h, "BAD_REQUEST"@, e),
        Ok(_) => pending(c, h, PhaseView::Showing, ActionView::ShowChat { user, text }),
    }
}

/// The trips of a user who leaves are closed: the user goes. Who asked to be
/// disconnected loses that token and is answered.
pub open spec fn settle(c: ConnView, h: HubView, user: Seq<char>, leave: LeaveView) -> Outcome {
    match leave {
        LeaveView::Disconnecting { token } => farewell(
            ConnView { user: None, ..c },
            HubView {
                sessions: h.sessions.remove(token),
                status: h.status.remove(user),
                online: h.online.remove(user),
                ..h
            },
        ),
        LeaveView::CleaningUp => pending(
            c,
            signed_out(h, user),
            PhaseView::Finished,
            ActionView::Finish,
        ),
    }
}

/// The trips from the `next`-th on are still to be closed, all of them as of
/// `ts`.
pub open spec fn close_left(
    c: ConnView,
    h: HubView,
    user: Seq<char>,
    leave: LeaveView,
    left: Seq<i64>,
    next: nat,
    ts: i64,
) -> Outcome {
    if next < left.len() {
        pending(
            c,
            h,
            PhaseView::Leaving { user, leave, left, next, ts },
            ActionView::CloseLeftTrip { trip_id: left[next as int], user, ts },
        )
    } else {
        settle(c, h, user, leave)
    }
}

/// The open trips of a user who leaves were listed, or could not be.
pub open spec fn on_listed(
    c: ConnView,
    h: HubView,
    user: Seq<char>,
    leave: LeaveView,
    ids: Option<Seq<i64>>,
    now: i64,
) -> Outcome {
    match ids {
        None => settle(c, h, user, leave),
        Some(left) => close_left(c, h, user, leave, left, 0, now),
    }
}

/// A trip of a user who leaves was closed, or could not be: it is forgotten.
pub open spec fn on_left_closed(
    c: ConnView,
    h: HubView,
    user: Seq<char>,
    leave: LeaveView,
    left: Seq<i64>,
    next: nat,
    ts: i64,
) -> Outcome {
    let h2 = if next < left.len() {
        HubView { trips: h.trips.remove(left[next as int]), ..h }
    } else {
        h
    };
    close_left(c, h2, user, leave, left, next + 1, ts)
}

/// The rule for every event. A message that cannot be sent ends the connection
/// as a lost stream does. An event that the connection does not wait for is
/// nobody's to make sense of.
pub open spec fn step(c: ConnView, h: HubView, e: EventView) -> Outcome {
    match (c.phase, e) {
        (PhaseView::Receiving, EventView::Frame(frame)) => on_frame(c, h, frame),
        (PhaseView::Receiving, EventView::ReadFailed) => over(c, h),
        (PhaseView::Receiving, EventView::StreamEnded) => over(c, h),
        (PhaseView::Decoding, EventView::Decoded(Some(m))) => on_message(c, h, m),
        (PhaseView::Decoding, EventView::Decoded(None)) => refuse(
            c,
            h,
            "BAD_REQUEST"@,
            "messaggio non valido"@,
        ),
        (
            PhaseView::LoggingIn { username },
            EventView::CredentialsChecked { verdict, token },
        ) => on_credentials(c, h, username, verdict, token),
        (PhaseView::Registering { username }, EventView::UserSaved { outcome, token }) => on_saved(
            c,
            h,
            username,
            outcome,
            token,
        ),
        (PhaseView::OpeningTrip { user, lat, lon, ts }, EventView::TripOpened(r)) => on_trip_opened(
            c,
            h,
            user,
            lat,
            lon,
            ts,
            r,
        ),
        (
            PhaseView::CheckingOpen { user, trip_id, lat, lon, ts },
            EventView::OpenChecked(r),
        ) => on_open_checked(c, h, user, trip_id, lat, lon, ts, r),
        (PhaseView::ClosingOrphan, EventView::OrphanClosed) => refuse(
            c,
            h,
            "TRIP_TERMINATED"@,
            "viaggio chiuso dal server (stato perso): apri un nuovo viaggio"@,
        ),
        (
            PhaseView::Measuring { user, trip_id, lat, lon, ts },
            EventView::Measured(d),
        ) => on_measured(c, h, user, trip_id, lat, lon, ts, d),
        (PhaseView::Storing { user, transition }, EventView::PositionStored(r)) => on_stored(
            c,
            h,
            user,
            transition,
            r,
        ),
        (PhaseView::ClosingTrip { trip_id }, EventView::TripClosed(r)) => on_trip_closed(
            c,
            h,
            trip_id,
            r,
        ),
        (PhaseView::Loading { user, from_ts, to_ts }, EventView::RowsLoaded(r)) => on_rows(
            c,
            h,
            user,
            from_ts,
            to_ts,
            r,
        ),
        (PhaseView::Pacing { user, from_ts, to_ts, points }, EventView::Paced(d)) => on_paced(
            c,
            h,
            user,
            from_ts,
            to_ts,
            points,
            d,
        ),
        (
            PhaseView::SummingUp(t),
            EventView::SummedUp { distance_m, avg_speed_mps, avg_speed_kmh },
        ) => on_summed_up(c, h, t, distance_m, avg_speed_mps, avg_speed_kmh),
        (PhaseView::CheckingChat { user, text }, EventView::ChatChecked(r)) => on_chat_checked(
            c,
            h,
            user,
            text,
            r,
        ),
        (PhaseView::Showing, EventView::ChatShown) => answer(c, h, MessageView::Ack),
        (PhaseView::Listing { user, leave }, EventView::OpenTripsListed { ids, now }) => on_listed(
            c,
            h,
            user,
            leave,
            ids,
            now,
        ),
        (
            PhaseView::Leaving { user, leave, left, next, ts },
            EventView::LeftTripClosed,
        ) => on_left_closed(c, h, user, leave, left, next, ts),
        (PhaseView::Replying { farewell }, EventView::Sent(sent)) => if !sent {
            over(c, h)
        } else if farewell {
            pending(c, h, PhaseView::ClosingSocket, ActionView::CloseSocket)
        } else {
            listen(c, h)
        },
        (PhaseView::ClosingSocket, EventView::SocketClosed) => over(c, h),
        _ => abort(c, h),
    }
}

}
