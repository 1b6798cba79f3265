//! One connection, driven by events: a frame was read, the database answered, a
//! message was sent. Each event changes the connection and the hub as the rules
//! say, and names what is to be done next.

use crate::double::{is_on_globe, Double};
use crate::exchange::{Action, Event, Frame, Leave, Phase};
use crate::hub::Hub;
use crate::protocol::{error_message, Message};
use crate::rules::ConnView;
use crate::sessions::{
    insert_token, invalidate_token, invalidate_user_sessions, try_insert_token, validate_token,
};
use crate::stats::{
    complete_stats, compute_movement_stats, speed_divisor, stats_message, trajectory_fits,
    trajectory_for_user, MovementTally, PositionRecord, BAD_INTERVAL,
};
use crate::text::{copy_text, join, same_text, utf8_text};
use crate::trips::{
    apply_transition, drop_trip, initialize_trips, terminate_trip, update_trip, InsertAction,
    StatusTransition, UserStatus, NO_OPEN_TRIP,
};
use vstd::prelude::*;

verus! {

/// A connection: its number, the user it is logged in as, and what it waits
/// for.
#[derive(Debug)]
pub struct Connection {
    id: u64,
    user: Option<String>,
    phase: Phase,
}

impl View for Connection {
    type V = ConnView;

    closed spec fn view(&self) -> ConnView {
        ConnView {
            id: self.id,
            user: crate::text::text_view(self.user),
            phase: self.phase@,
        }
    }
}

impl Connection {
    /// A connection that nobody has logged in on. Its first action is to read.
    pub fn new(id: u64) -> (c: Self)
        ensures
            c@ == (ConnView { id, user: None, phase: crate::exchange::PhaseView::Receiving }),
    {
        Connection { id, user: None, phase: Phase::Receiving }
    }

    /// The user that the connection is logged in as.
    pub fn user(&self) -> (u: Option<String>)
        ensures
            crate::text::text_view(u) == self@.user,
    {
        match &self.user {
            Some(u) => Some(copy_text(u.as_str())),
            None => None,
        }
    }

    fn listen(&mut self, hub: &Hub) -> (a: Action)
        ensures
            (final(self)@, hub@, a@) == crate::rules::listen(old(self)@, hub@),
    {
        self.phase = Phase::Receiving;
        Action::Receive
    }

    fn answer(&mut self, hub: &Hub, m: Message) -> (a: Action)
        ensures
            (final(self)@, hub@, a@) == crate::rules::answer(old(self)@, hub@, m@),
    {
        self.phase = Phase::Replying { farewell: false };
        Action::Send(m)
    }

    fn refuse(&mut self, hub: &Hub, code: &str, text: &str) -> (a: Action)
        ensures
            (final(self)@, hub@, a@) == crate::rules::refuse(old(self)@, hub@, code@, text@),
    {
        self.answer(hub, error_message(code, text))
    }

    fn unauthorized(&mut self, hub: &Hub) -> (a: Action)
        ensures
            (final(self)@, hub@, a@) == crate::rules::unauthorized(old(self)@, hub@),
    {
        self.refuse(hub, "UNAUTHORIZED", "token non valido")
    }

    fn farewell(&mut self, hub: &Hub) -> (a: Action)
        ensures
            (final(self)@, hub@, a@) == crate::rules::farewell(old(self)@, hub@),
    {
        self.phase = Phase::Replying { farewell: true };
        Action::Send(Message::Ack)
    }

    fn abort(&mut self, hub: &Hub) -> (a: Action)
        ensures
            (final(self)@, hub@, a@) == crate::rules::abort(old(self)@, hub@),
    {
        self.phase = Phase::Aborted;
        Action::Abort
    }

    fn over(&mut self, hub: &Hub) -> (a: Action)
        ensures
            (final(self)@, hub@, a@) == crate::rules::over(old(self)@, hub@),
    {
        match self.user() {
            None => {
                self.phase = Phase::Finished;
                Action::Finish
            },
            Some(user) => {
                self.phase = Phase::Listing {
                    user: copy_text(user.as_str()),
                    leave: Leave::CleaningUp,
                };
                Action::ListOpenTrips { user }
            },
        }
    }

    fn on_text(&mut self, hub: &Hub, text: String) -> (a: Action)
        ensures
            (final(self)@, hub@, a@) == crate::rules::on_text(old(self)@, hub@, text@),
    {
        if text.as_str().is_empty() {
            self.listen(hub)
        } else {
            self.phase = Phase::Decoding;
            Action::Decode(text)
        }
    }

    fn on_frame(&mut self, hub: &Hub, frame: Frame) -> (a: Action)
        ensures
            (final(self)@, hub@, a@) == crate::rules::on_frame(old(self)@, hub@, frame@),
    {
        match frame {
            Frame::Text(text) => self.on_text(hub, text),
            Frame::Binary(bytes) => match utf8_text(bytes) {
                Some(text) => self.on_text(hub, text),
                None => self.refuse(hub, "BAD_REQUEST", "payload binario non UTF-8"),
            },
            Frame::Ping => self.listen(hub),
            Frame::Pong => self.listen(hub),
            Frame::Close => self.over(hub),
        }
    }

    fn on_login(&mut self, hub: &Hub, username: String, password: String) -> (a: Action)
        ensures
            (final(self)@, hub@, a@) == crate::rules::on_login(
                old(self)@,
                hub@,
                username@,
                password@,
            ),
    {
        let again: bool = match &self.user {
            Some(u) => same_text(u.as_str(), username.as_str()),
            None => false,
        };
        if again {
            let text = join("già autenticato come ", username.as_str());
            self.refuse(hub, "AUTH_FAILED", text.as_str())
        } else {
            self.phase = Phase::LoggingIn { username: copy_text(username.as_str()) };
            Action::CheckCredentials(Message::Login { username, password })
        }
    }

    fn on_start_trip(
        &mut self,
        hub: &Hub,
        token: String,
        lat: Double,
        lon: Double,
        ts: i64,
    ) -> (a: Action)
        requires
            hub.wf(),
        ensures
            (final(self)@, hub@, a@) == crate::rules::on_start_trip(
                old(self)@,
                hub@,
                token@,
                lat,
                lon,
                ts,
            ),
    {
        match validate_token(&hub.auth, token.as_str(), &self.user) {
            None => self.unauthorized(hub),
            Some(user) => {
                if !is_on_globe(lat, lon) {
                    self.refuse(hub, "BAD_REQUEST", "coordinate fuori range")
                } else if ts <= 0 {
                    self.refuse(hub, "BAD_REQUEST", "timestamp non valido")
                } else {
                    self.phase = Phase::OpeningTrip {
                        user: copy_text(user.as_str()),
                        lat,
                        lon,
                        ts,
                    };
                    Action::OpenTrip { user, lat, lon, ts }
                }
            },
        }
    }

    fn on_position(
        &mut self,
        hub: &Hub,
        token: String,
        trip_id: i64,
        lat: Double,
        lon: Double,
        ts: i64,
    ) -> (a: Action)
        requires
            hub.wf(),
        ensures
            (final(self)@, hub@, a@) == crate::rules::on_position(
                old(self)@,
                hub@,
                token@,
                trip_id,
                lat,
                lon,
                ts,
            ),
    {
        match validate_token(&hub.auth, token.as_str(), &self.user) {
            None => self.unauthorized(hub),
            Some(user) => {
                if !is_on_globe(lat, lon) {
                    self.refuse(hub, "BAD_REQUEST", "coordinate fuori range")
                } else if ts <= 0 {
                    self.refuse(hub, "BAD_REQUEST", "timestamp non valido")
                } else {
                    self.phase = Phase::CheckingOpen {
                        user: copy_text(user.as_str()),
                        trip_id,
                        lat,
                        lon,
                        ts,
                    };
                    Action::CheckOpen { trip_id, user }
                }
            },
        }
    }

    fn on_end_trip(&mut self, hub: &Hub, token: String, trip_id: i64, ts: i64) -> (a: Action)
        requires
            hub.wf(),
        ensures
            (final(self)@, hub@, a@) == crate::rules::on_end_trip(
                old(self)@,
                hub@,
                token@,
                trip_id,
                ts,
            ),
    {
        match validate_token(&hub.auth, token.as_str(), &self.user) {
            None => self.unauthorized(hub),
            Some(user) => {
                self.phase = Phase::ClosingTrip { trip_id };
                Action::CloseTrip { trip_id, user, ts }
            },
        }
    }

    fn on_stats(&mut self, hub: &Hub, token: String, from_ts: i64, to_ts: i64) -> (a: Action)
        requires
            hub.wf(),
        ensures
            (final(self)@, hub@, a@) == crate::rules::on_stats(
                old(self)@,
                hub@,
                token@,
                from_ts,
                to_ts,
            ),
    {
        match validate_token(&hub.auth, token.as_str(), &self.user) {
            None => self.unauthorized(hub),
            Some(user) => {
                if from_ts > to_ts {
                    self.refuse(hub, "BAD_REQUEST", BAD_INTERVAL)
                } else {
                    self.phase = Phase::Loading { user: copy_text(user.as_str()), from_ts, to_ts };
                    Action::LoadRows { user, from_ts, to_ts }
                }
            },
        }
    }

    fn on_chat(&mut self, hub: &Hub, token: String, text: String) -> (a: Action)
        requires
            hub.wf(),
        ensures
            (final(self)@, hub@, a@) == crate::rules::on_chat(old(self)@, hub@, token@, text@),
    {
        match validate_token(&hub.auth, token.as_str(), &self.user) {
            None => self.unauthorized(hub),
            Some(user) => {
                self.phase = Phase::CheckingChat { user, text: copy_text(text.as_str()) };
                Action::CheckChat(text)
            },
        }
    }

    fn on_disconnect(&mut self, hub: &Hub, token: String) -> (a: Action)
        requires
            hub.wf(),
        ensures
            (final(self)@, hub@, a@) == crate::rules::on_disconnect(old(self)@, hub@, token@),
    {
        match validate_token(&hub.auth, token.as_str(), &self.user) {
            None => self.farewell(hub),
            Some(user) => {
                self.phase = Phase::Listing {
                    user: copy_text(user.as_str()),
                    leave: Leave::Disconnecting { token },
                };
                Action::ListOpenTrips { user }
            },
        }
    }

    fn on_message(&mut self, hub: &Hub, m: Message) -> (a: Action)
        requires
            hub.wf(),
        ensures
            (final(self)@, hub@, a@) == crate::rules::on_message(old(self)@, hub@, m@),
    {
        match m {
            Message::Login { username, password } => self.on_login(hub, username, password),
            Message::Register { username, password } => {
                self.phase = Phase::Registering { username: copy_text(username.as_str()) };
                Action::SaveUser(Message::Register { username, password })
            },
            Message::StartTrip { token, lat, lon, ts } => self.on_start_trip(
                hub,
                token,
                lat,
                lon,
                ts,
            ),
            Message::Position { token, trip_id, lat, lon, ts } => self.on_position(
                hub,
                token,
                trip_id,
                lat,
                lon,
                ts,
            ),
            Message::EndTrip { token, trip_id, ts } => self.on_end_trip(hub, token, trip_id, ts),
            Message::Stats { token, from_ts, to_ts } => self.on_stats(hub, token, from_ts, to_ts),
            Message::ChatToServer { token, text } => self.on_chat(hub, token, text),
            Message::Disconnect { token } => self.on_disconnect(hub, token),
            _ => self.refuse(hub, "BAD_REQUEST", "tipo messaggio non valido dal client"),
        }
    }

    fn enter(&mut self, hub: &mut Hub, username: String, token: String) -> (a: Action)
        requires
            old(hub).wf(),
        ensures
            final(hub).wf(),
            (final(self)@, final(hub)@, a@) == crate::rules::enter(
                old(self)@,
                old(hub)@,
                username@,
                token@,
            ),
    {
        match self.user() {
            Some(u) => {
                sign_out(hub, u.as_str());
            },
            None => {},
        }
        hub.status.insert(username.as_str(), UserStatus::Stationary);
        hub.online.insert(username.as_str(), self.id);
        self.user = Some(username);
        self.answer(hub, Message::AuthOk { token })
    }

    fn on_credentials(
        &mut self,
        hub: &mut Hub,
        username: String,
        verdict: Result<(), String>,
        token: String,
    ) -> (a: Action)
        requires
            old(hub).wf(),
        ensures
            final(hub).wf(),
            (final(self)@, final(hub)@, a@) == crate::rules::on_credentials(
                old(self)@,
                old(hub)@,
                username@,
                crate::text::result_view(verdict),
                token@,
            ),
    {
        match verdict {
            Err(e) => self.refuse(hub, "AUTH_FAILED", e.as_str()),
            Ok(_) => match try_insert_token(&mut hub.auth, username.as_str(), token.as_str()) {
                Err(e) => self.refuse(hub, "AUTH_FAILED", e.as_str()),
                Ok(_) => self.enter(hub, username, token),
            },
        }
    }

    fn on_saved(
        &mut self,
        hub: &mut Hub,
        username: String,
        outcome: Result<(), String>,
        token: String,
    ) -> (a: Action)
        requires
            old(hub).wf(),
        ensures
            final(hub).wf(),
            (final(self)@, final(hub)@, a@) == crate::rules::on_saved(
                old(self)@,
                old(hub)@,
                username@,
                crate::text::result_view(outcome),
                token@,
            ),
    {
        match outcome {
            Err(e) => self.refuse(hub, "REGISTER_FAILED", e.as_str()),
            Ok(_) => {
                insert_token(&mut hub.auth, username.as_str(), token.as_str());
                self.enter(hub, username, token)
            },
        }
    }

    fn on_trip_opened(
        &mut self,
        hub: &mut Hub,
        user: String,
        lat: Double,
        lon: Double,
        ts: i64,
        opened: Result<i64, String>,
    ) -> (a: Action)
        requires
            old(hub).wf(),
        ensures
            final(hub).wf(),
            (final(self)@, final(hub)@, a@) == crate::rules::on_trip_opened(
                old(self)@,
                old(hub)@,
                user@,
                lat,
                lon,
                ts,
                crate::text::result_view(opened),
            ),
    {
        match initialize_trips(
            &mut hub.trips,
            &mut hub.status,
            user.as_str(),
            lat,
            lon,
            opened,
        ) {
            Ok(trip_id) => self.answer(hub, Message::TripStarted { trip_id, lat, lon, ts }),
            Err(e) => self.refuse(hub, "START_TRIP_FAILED", e.as_str()),
        }
    }

    fn on_open_checked(
        &mut self,
        hub: &Hub,
        user: String,
        trip_id: i64,
        lat: Double,
        lon: Double,
        ts: i64,
        open: Result<bool, String>,
    ) -> (a: Action)
        ensures
            (final(self)@, hub@, a@) == crate::rules::on_open_checked(
                old(self)@,
                hub@,
                user@,
                trip_id,
                lat,
                lon,
                ts,
                crate::text::result_view(open),
            ),
    {
        match open {
            Err(e) => self.refuse(hub, "BAD_REQUEST", e.as_str()),
            Ok(false) => self.refuse(hub, "BAD_REQUEST", NO_OPEN_TRIP),
            Ok(true) => match hub.trips.last_seen(trip_id) {
                Some(last) => {
                    self.phase = Phase::Measuring { user, trip_id, lat, lon, ts };
                    Action::Measure {
                        from_lat: last.lat,
                        from_lon: last.lon,
                        to_lat: lat,
                        to_lon: lon,
                    }
                },
                None => {
                    self.phase = Phase::ClosingOrphan;
                    Action::CloseOrphan { trip_id, user, ts }
                },
            },
        }
    }

    fn on_measured(
        &mut self,
        hub: &mut Hub,
        user: String,
        trip_id: i64,
        lat: Double,
        lon: Double,
        ts: i64,
        distance: Double,
    ) -> (a: Action)
        requires
            old(hub).wf(),
        ensures
            final(hub).wf(),
            (final(self)@, final(hub)@, a@) == crate::rules::on_measured(
                old(self)@,
                old(hub)@,
                user@,
                trip_id,
                lat,
                lon,
                ts,
                distance,
            ),
    {
        match update_trip(&mut hub.trips, trip_id, lat, lon, distance) {
            Err(e) => self.refuse(hub, "UPDATE_TRIP_FAILED", e.as_str()),
            Ok((action, transition)) => match action {
                InsertAction::Insert { stopped } => {
                    self.phase = Phase::Storing { user, transition };
                    Action::StorePosition { trip_id, lat, lon, ts, stopped }
                },
                InsertAction::Skip => {
                    apply_transition(&mut hub.status, user.as_str(), transition);
                    self.answer(hub, Message::Ack)
                },
            },
        }
    }

    fn on_stored(
        &mut self,
        hub: &mut Hub,
        user: String,
        transition: StatusTransition,
        stored: Result<(), String>,
    ) -> (a: Action)
        requires
            old(hub).wf(),
        ensures
            final(hub).wf(),
            (final(self)@, final(hub)@, a@) == crate::rules::on_stored(
                old(self)@,
                old(hub)@,
                user@,
                transition,
                crate::text::result_view(stored),
            ),
    {
        match stored {
            Err(e) => {
                let text = join("Failed to insert position: ", e.as_str());
                self.refuse(hub, "UPDATE_TRIP_FAILED", text.as_str())
            },
            Ok(_) => {
                apply_transition(&mut hub.status, user.as_str(), transition);
                self.answer(hub, Message::Ack)
            },
        }
    }

    fn on_trip_closed(
        &mut self,
        hub: &mut Hub,
        trip_id: i64,
        closed: Result<(), String>,
    ) -> (a: Action)
        requires
            old(hub).wf(),
        ensures
            final(hub).wf(),
            (final(self)@, final(hub)@, a@) == crate::rules::on_trip_closed(
                old(self)@,
                old(hub)@,
                trip_id,
                crate::text::result_view(closed),
            ),
    {
        match terminate_trip(&mut hub.trips, trip_id, closed) {
            Err(e) => self.refuse(hub, "BAD_REQUEST", e.as_str()),
            Ok(_) => self.answer(hub, Message::Ack),
        }
    }

    fn on_rows(
        &mut self,
        hub: &Hub,
        user: String,
        from_ts: i64,
        to_ts: i64,
        loaded: Result<Vec<PositionRecord>, String>,
    ) -> (a: Action)
        ensures
            (final(self)@, hub@, a@) == crate::rules::on_rows(
                old(self)@,
                hub@,
                user@,
                from_ts,
                to_ts,
                crate::exchange::rows_view(loaded),
            ),
    {
        match loaded {
            Err(e) => self.refuse(hub, "BAD_REQUEST", e.as_str()),
            Ok(rows) => match trajectory_for_user(rows.as_slice(), from_ts, to_ts) {
                Err(e) => self.refuse(hub, "BAD_REQUEST", e.as_str()),
                Ok(points) => {
                    let copy = points.clone();
                    assert(copy@ =~= points@);
                    self.phase = Phase::Pacing { user, from_ts, to_ts, points };
                    Action::Pace(copy)
                },
            },
        }
    }

    fn on_paced(
        &mut self,
        hub: &Hub,
        user: String,
        from_ts: i64,
        to_ts: i64,
        points: Vec<PositionRecord>,
        distances: Vec<Double>,
    ) -> (a: Action)
        ensures
            (final(self)@, hub@, a@) == crate::rules::on_paced(
                old(self)@,
                hub@,
                user@,
                from_ts,
                to_ts,
                points@,
                distances@,
            ),
    {
        let n: usize = points.len();
        if !trajectory_fits(points.as_slice()) || (n > 0 && n - 1 > distances.len()) {
            self.over(hub)
        } else {
            let tally = compute_movement_stats(
                user.as_str(),
                from_ts,
                to_ts,
                points.as_slice(),
                distances.as_slice(),
            );
            let lengths = moving_lengths(points.as_slice(), &distances, &tally);
            let divisor = speed_divisor(&tally);
            self.phase = Phase::SummingUp(tally);
            Action::SumUp { lengths, divisor }
        }
    }

    fn on_summed_up(
        &mut self,
        hub: &Hub,
        tally: MovementTally,
        distance_m: Double,
        avg_speed_mps: Double,
        avg_speed_kmh: Double,
    ) -> (a: Action)
        ensures
            (final(self)@, hub@, a@) == crate::rules::on_summed_up(
                old(self)@,
                hub@,
                tally@,
                distance_m,
                avg_speed_mps,
                avg_speed_kmh,
            ),
    {
        let stats = complete_stats(tally, distance_m, avg_speed_mps, avg_speed_kmh);
        self.answer(hub, stats_message(stats))
    }

    fn on_chat_checked(
        &mut self,
        hub: &Hub,
        user: String,
        text: String,
        checked: Result<(), String>,
    ) -> (a: Action)
        ensures
            (final(self)@, hub@, a@) == crate::rules::on_chat_checked(
                old(self)@,
                hub@,
                user@,
                text@,
                crate::text::result_view(checked),
            ),
    {
        match checked {
            Err(e) => self.refuse(hub, "BAD_REQUEST", e.as_str()),
            Ok(_) => {
                self.phase = Phase::Showing;
                Action::ShowChat { user, text }
            },
        }
    }

    fn settle(&mut self, hub: &mut Hub, user: String, leave: Leave) -> (a: Action)
        requires
            old(hub).wf(),
        ensures
            final(hub).wf(),
            (final(self)@, final(hub)@, a@) == crate::rules::settle(
                old(self)@,
                old(hub)@,
                user@,
                leave@,
            ),
    {
        match leave {
            Leave::Disconnecting { token } => {
                hub.status.remove(user.as_str());
                hub.online.remove(user.as_str());
                invalidate_token(&mut hub.auth, token.as_str());
                self.user = None;
                self.farewell(hub)
            },
            Leave::CleaningUp => {
                sign_out(hub, user.as_str());
                self.phase = Phase::Finished;
                Action::Finish
            },
        }
    }

    fn close_left(
        &mut self,
        hub: &mut Hub,
        user: String,
        leave: Leave,
        left: Vec<i64>,
        next: usize,
        ts: i64,
    ) -> (a: Action)
        requires
            old(hub).wf(),
        ensures
            final(hub).wf(),
            (final(self)@, final(hub)@, a@) == crate::rules::close_left(
                old(self)@,
                old(hub)@,
                user@,
                leave@,
                left@,
                next as nat,
                ts,
            ),
    {
        if next < left.len() {
            let trip_id: i64 = left[next];
            self.phase = Phase::Leaving { user: copy_text(user.as_str()), leave, left, next, ts };
            Action::CloseLeftTrip { trip_id, user, ts }
        } else {
            self.settle(hub, user, leave)
        }
    }

    fn on_left_closed(
        &mut self,
        hub: &mut Hub,
        user: String,
        leave: Leave,
        left: Vec<i64>,
        next: usize,
        ts: i64,
    ) -> (a: Action)
        requires
            old(hub).wf(),
        ensures
            final(hub).wf(),
            (final(self)@, final(hub)@, a@) == crate::rules::on_left_closed(
                old(self)@,
                old(hub)@,
                user@,
                leave@,
                left@,
                next as nat,
                ts,
            ),
    {
        if next < left.len() {
            drop_trip(&mut hub.trips, left[next]);
            self.close_left(hub, user, leave, left, next + 1, ts)
        } else {
            self.settle(hub, user, leave)
        }
    }

    /// Takes an event in: the connection and the hub become what the rules say,
    /// and the action that they name is to be done next. What comes of that
    /// action is the next event.
    pub fn step(&mut self, hub: &mut Hub, event: Event) -> (a: Action)
        requires
            old(hub).wf(),
        ensures
            final(hub).wf(),
            (final(self)@, final(hub)@, a@) == crate::rules::step(
                old(self)@,
                old(hub)@,
                event@,
            ),
    {
        let mut phase = Phase::Receiving;
        core::mem::swap(&mut phase, &mut self.phase);
        match (phase, event) {
            (Phase::Receiving, Event::Frame(frame)) => self.on_frame(hub, frame),
            (Phase::Receiving, Event::ReadFailed) => self.over(hub),
            (Phase::Receiving, Event::StreamEnded) => self.over(hub),
            (Phase::Decoding, Event::Decoded(Some(m))) => self.on_message(hub, m),
            (Phase::Decoding, Event::Decoded(None)) => self.refuse(
                hub,
                "BAD_REQUEST",
                "messaggio non valido",
            ),
            (Phase::LoggingIn { username }, Event::CredentialsChecked { verdict, token }) => {
                self.on_credentials(hub, username, verdict, token)
            },
            (Phase::Registering { username }, Event::UserSaved { outcome, token }) => {
                self.on_saved(hub, username, outcome, token)
            },
            (Phase::OpeningTrip { user, lat, lon, ts }, Event::TripOpened(r)) => {
                self.on_trip_opened(hub, user, lat, lon, ts, r)
            },
            (Phase::CheckingOpen { user, trip_id, lat, lon, ts }, Event::OpenChecked(r)) => {
                self.on_open_checked(hub, user, trip_id, lat, lon, ts, r)
            },
            (Phase::ClosingOrphan, Event::OrphanClosed) => self.refuse(
                hub,
                "TRIP_TERMINATED",
                "viaggio chiuso dal server (stato perso): apri un nuovo viaggio",
            ),
            (Phase::Measuring { user, trip_id, lat, lon, ts }, Event::Measured(d)) => {
                self.on_measured(hub, user, trip_id, lat, lon, ts, d)
            },
            (Phase::Storing { user, transition }, Event::PositionStored(r)) => {
                self.on_stored(hub, user, transition, r)
            },
            (Phase::ClosingTrip { trip_id }, Event::TripClosed(r)) => {
                self.on_trip_closed(hub, trip_id, r)
            },
            (Phase::Loading { user, from_ts, to_ts }, Event::RowsLoaded(r)) => {
                self.on_rows(hub, user, from_ts, to_ts, r)
            },
            (Phase::Pacing { user, from_ts, to_ts, points }, Event::Paced(d)) => {
                self.on_paced(hub, user, from_ts, to_ts, points, d)
            },
            (
                Phase::SummingUp(tally),
                Event::SummedUp { distance_m, avg_speed_mps, avg_speed_kmh },
            ) => self.on_summed_up(hub, tally, distance_m, avg_speed_mps, avg_speed_kmh),
            (Phase::CheckingChat { user, text }, Event::ChatChecked(r)) => {
                self.on_chat_checked(hub, user, text, r)
            },
            (Phase::Showing, Event::ChatShown) => self.answer(hub, Message::Ack),
            (Phase::Listing { user, leave }, Event::OpenTripsListed { ids: Some(left), now }) => {
                self.close_left(hub, user, leave, left, 0, now)
            },
            (Phase::Listing { user, leave }, Event::OpenTripsListed { ids: None, now: _ }) => {
                self.settle(hub, user, leave)
            },
            (Phase::Leaving { user, leave, left, next, ts }, Event::LeftTripClosed) => {
                self.on_left_closed(hub, user, leave, left, next, ts)
            },
            (Phase::Replying { farewell }, Event::Sent(sent)) => {
                if !sent {
                    self.over(hub)
                } else if farewell {
                    self.phase = Phase::ClosingSocket;
                    Action::CloseSocket
                } else {
                    self.listen(hub)
                }
            },
            (Phase::ClosingSocket, Event::SocketClosed) => self.over(hub),
            _ => self.abort(hub),
        }
    }
}

/// Takes a user off the hub: no session, no status, no connection.
fn sign_out(hub: &mut Hub, user: &str)
    requires
        old(hub).wf(),
    ensures
        final(hub).wf(),
        final(hub)@ == crate::rules::signed_out(old(hub)@, user@),
{
    let _ = invalidate_user_sessions(&mut hub.auth, user);
    hub.status.remove(user);
    hub.online.remove(user);
}

/// The lengths of the stretches in motion.
fn moving_lengths(
    points: &[PositionRecord],
    distances: &Vec<Double>,
    tally: &MovementTally,
) -> (lengths: Vec<Double>)
    requires
        crate::stats::stretches(points@) <= distances@.len(),
        points@.len() <= usize::MAX,
        tally.moving@ == crate::stats::moving_of(
            points@,
            distances@,
            crate::stats::stretches(points@),
        ),
    ensures
        lengths@ == crate::rules::lengths(distances@, tally.moving@),
{
    proof {
        crate::stats::law_moving_lists_the_motion(
            points@,
            distances@,
            crate::stats::stretches(points@),
        );
    }
    let n: usize = tally.moving.len();
    let mut lengths: Vec<Double> = Vec::new();
    let mut k: usize = 0;
    while k < n
        invariant
            n == tally.moving@.len(),
            k <= n,
            forall|j: int| 0 <= j < n ==> #[trigger] tally.moving@[j] < distances@.len(),
            lengths@ == crate::rules::lengths(distances@, tally.moving@).take(k as int),
        decreases n - k,
    {
        lengths.push(distances[tally.moving[k]]);
        k = k + 1;
    }
    lengths
}

}
