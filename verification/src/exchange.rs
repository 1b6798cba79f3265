//! What happens on a connection, what is to be done for it, and what it waits
//! for in between.

use crate::double::Double;
use crate::protocol::{Message, MessageView};
use crate::stats::{MovementTally, PositionRecord, TallyView};
use crate::trips::StatusTransition;
use vstd::prelude::*;

verus! {

/// The samples that were read, or why there are none.
pub open spec fn rows_view(r: Result<Vec<PositionRecord>, String>) -> Result<
    Seq<PositionRecord>,
    Seq<char>,
> {
    match r {
        Ok(rows) => Ok(rows@),
        Err(e) => Err(e@),
    }
}

/// What a message says, if there is one.
pub open spec fn message_view(m: Option<Message>) -> Option<MessageView> {
    match m {
        Some(x) => Some(x@),
        None => None,
    }
}

/// A list of trips, if there is one.
pub open spec fn ids_view(ids: Option<Vec<i64>>) -> Option<Seq<i64>> {
    match ids {
        Some(v) => Some(v@),
        None => None,
    }
}

/// One frame of a web socket.
#[derive(Debug)]
pub enum Frame {
    Text(String),
    Binary(Vec<u8>),
    Ping,
    Pong,
    Close,
}

/// The same, with its texts as sequences of characters.
pub enum FrameView {
    Text(Seq<char>),
    Binary(Seq<u8>),
    Ping,
    Pong,
    Close,
}

impl View for Frame {
    type V = FrameView;

    open spec fn view(&self) -> FrameView {
        match self {
            Frame::Text(x) => FrameView::Text(x@),
            Frame::Binary(x) => FrameView::Binary(x@),
            Frame::Ping => FrameView::Ping,
            Frame::Pong => FrameView::Pong,
            Frame::Close => FrameView::Close,
        }
    }
}

/// What has happened on a connection.
#[derive(Debug)]
pub enum Event {
    /// A frame was read.
    Frame(Frame),
    /// Reading failed.
    ReadFailed,
    /// The stream is over.
    StreamEnded,
    /// A text was parsed, or could not be.
    Decoded(Option<Message>),
    /// The credentials of a login were checked; `token` is fresh.
    CredentialsChecked { verdict: Result<(), String>, token: String },
    /// The user of a registration was stored, or was not; `token` is fresh.
    UserSaved { outcome: Result<(), String>, token: String },
    /// The database opened a trip and gave its number, or failed.
    TripOpened(Result<i64, String>),
    /// The database told whether a trip is open and belongs to its user.
    OpenChecked(Result<bool, String>),
    /// The database was asked to close a trip that had lost its state.
    OrphanClosed,
    /// The distance that was asked for, in metres.
    Measured(Double),
    /// The database recorded a sample, or failed.
    PositionStored(Result<(), String>),
    /// The database closed a trip, or did not.
    TripClosed(Result<(), String>),
    /// The samples that the database has of the user, or the failure to read them.
    RowsLoaded(Result<Vec<PositionRecord>, String>),
    /// The distances in metres from each sample to the next.
    Paced(Vec<Double>),
    /// The distance and the average speeds that were asked for.
    SummedUp { distance_m: Double, avg_speed_mps: Double, avg_speed_kmh: Double },
    /// A chat text was found acceptable, or why it was not.
    ChatChecked(Result<(), String>),
    /// A chat text was shown to the operator.
    ChatShown,
    /// The open trips of the user, unless the database failed; `now` is the
    /// time at which the user began to leave.
    OpenTripsListed { ids: Option<Vec<i64>>, now: i64 },
    /// The database was asked to close a trip that was left open.
    LeftTripClosed,
    /// A message was sent, or could not be.
    Sent(bool),
    /// The socket was told to close.
    SocketClosed,
}

/// The same, with its texts as sequences of characters.
pub enum EventView {
    Frame(FrameView),
    ReadFailed,
    StreamEnded,
    Decoded(Option<MessageView>),
    CredentialsChecked { verdict: Result<(), Seq<char>>, token: Seq<char> },
    UserSaved { outcome: Result<(), Seq<char>>, token: Seq<char> },
    TripOpened(Result<i64, Seq<char>>),
    OpenChecked(Result<bool, Seq<char>>),
    OrphanClosed,
    Measured(Double),
    PositionStored(Result<(), Seq<char>>),
    TripClosed(Result<(), Seq<char>>),
    RowsLoaded(Result<Seq<PositionRecord>, Seq<char>>),
    Paced(Seq<Double>),
    SummedUp { distance_m: Double, avg_speed_mps: Double, avg_speed_kmh: Double },
    ChatChecked(Result<(), Seq<char>>),
    ChatShown,
    OpenTripsListed { ids: Option<Seq<i64>>, now: i64 },
    LeftTripClosed,
    Sent(bool),
    SocketClosed,
}

impl View for Event {
    type V = EventView;

    open spec fn view(&self) -> EventView {
        match self {
            Event::Frame(x) => EventView::Frame(x@),
            Event::ReadFailed => EventView::ReadFailed,
            Event::StreamEnded => EventView::StreamEnded,
            Event::Decoded(x) => EventView::Decoded(message_view(*x)),
            Event::CredentialsChecked { verdict, token } => EventView::CredentialsChecked {
                verdict: crate::text::result_view(*verdict),
                token: token@,
            },
            Event::UserSaved { outcome, token } => EventView::UserSaved {
                outcome: crate::text::result_view(*outcome),
                token: token@,
            },
            Event::TripOpened(x) => EventView::TripOpened(crate::text::result_view(*x)),
            Event::OpenChecked(x) => EventView::OpenChecked(crate::text::result_view(*x)),
            Event::OrphanClosed => EventView::OrphanClosed,
            Event::Measured(x) => EventView::Measured(*x),
            Event::PositionStored(x) => EventView::PositionStored(crate::text::result_view(*x)),
            Event::TripClosed(x) => EventView::TripClosed(crate::text::result_view(*x)),
            Event::RowsLoaded(x) => EventView::RowsLoaded(rows_view(*x)),
            Event::Paced(x) => EventView::Paced(x@),
            Event::SummedUp { distance_m, avg_speed_mps, avg_speed_kmh } => EventView::SummedUp {
                distance_m: *distance_m,
                avg_speed_mps: *avg_speed_mps,
                avg_speed_kmh: *avg_speed_kmh,
            },
            Event::ChatChecked(x) => EventView::ChatChecked(crate::text::result_view(*x)),
            Event::ChatShown => EventView::ChatShown,
            Event::OpenTripsListed { ids, now } => EventView::OpenTripsListed {
                ids: ids_view(*ids),
                now: *now,
            },
            Event::LeftTripClosed => EventView::LeftTripClosed,
            Event::Sent(x) => EventView::Sent(*x),
            Event::SocketClosed => EventView::SocketClosed,
        }
    }
}

/// What is to be done next for a connection.
#[derive(Debug)]
pub enum Action {
    /// Read the next frame.
    Receive,
    /// Parse a text.
    Decode(String),
    /// Check the credentials of a login.
    CheckCredentials(Message),
    /// Store the user of a registration.
    SaveUser(Message),
    /// Open a trip in the database, with its first sample.
    OpenTrip { user: String, lat: Double, lon: Double, ts: i64 },
    /// Ask the database whether a trip is open and belongs to a user.
    CheckOpen { trip_id: i64, user: String },
    /// Close a trip that has lost its state.
    CloseOrphan { trip_id: i64, user: String, ts: i64 },
    /// Measure the distance between two places.
    Measure { from_lat: Double, from_lon: Double, to_lat: Double, to_lon: Double },
    /// Record a sample.
    StorePosition { trip_id: i64, lat: Double, lon: Double, ts: i64, stopped: bool },
    /// Close a trip.
    CloseTrip { trip_id: i64, user: String, ts: i64 },
    /// Read the samples of a user over an interval.
    LoadRows { user: String, from_ts: i64, to_ts: i64 },
    /// Measure the distance from each sample to the next.
    Pace(Vec<PositionRecord>),
    /// Add up lengths; the average speed is the sum divided by `divisor`, or zero without one.
    SumUp { lengths: Vec<Double>, divisor: Option<i64> },
    /// Check a chat text.
    CheckChat(String),
    /// Show a chat text to the operator.
    ShowChat { user: String, text: String },
    /// List the open trips of a user.
    ListOpenTrips { user: String },
    /// Close a trip that was left open.
    CloseLeftTrip { trip_id: i64, user: String, ts: i64 },
    /// Send a message.
    Send(Message),
    /// Tell the socket to close.
    CloseSocket,
    /// The connection is over, and has left nothing behind.
    Finish,
    /// The connection was told of something that it does not wait for.
    Abort,
}

/// The same, with its texts as sequences of characters.
pub enum ActionView {
    Receive,
    Decode(Seq<char>),
    CheckCredentials(MessageView),
    SaveUser(MessageView),
    OpenTrip { user: Seq<char>, lat: Double, lon: Double, ts: i64 },
    CheckOpen { trip_id: i64, user: Seq<char> },
    CloseOrphan { trip_id: i64, user: Seq<char>, ts: i64 },
    Measure { from_lat: Double, from_lon: Double, to_lat: Double, to_lon: Double },
    StorePosition { trip_id: i64, lat: Double, lon: Double, ts: i64, stopped: bool },
    CloseTrip { trip_id: i64, user: Seq<char>, ts: i64 },
    LoadRows { user: Seq<char>, from_ts: i64, to_ts: i64 },
    Pace(Seq<PositionRecord>),
    SumUp { lengths: Seq<Double>, divisor: Option<i64> },
    CheckChat(Seq<char>),
    ShowChat { user: Seq<char>, text: Seq<char> },
    ListOpenTrips { user: Seq<char> },
    CloseLeftTrip { trip_id: i64, user: Seq<char>, ts: i64 },
    Send(MessageView),
    CloseSocket,
    Finish,
    Abort,
}

impl View for Action {
    type V = ActionView;

    open spec fn view(&self) -> ActionView {
        match self {
            Action::Receive => ActionView::Receive,
            Action::Decode(x) => ActionView::Decode(x@),
            Action::CheckCredentials(x) => ActionView::CheckCredentials(x@),
            Action::SaveUser(x) => ActionView::SaveUser(x@),
            Action::OpenTrip { user, lat, lon, ts } => ActionView::OpenTrip {
                user: user@,
                lat: *lat,
                lon: *lon,
                ts: *ts,
            },
            Action::CheckOpen { trip_id, user } => ActionView::CheckOpen {
                trip_id: *trip_id,
                user: user@,
            },
            Action::CloseOrphan { trip_id, user, ts } => ActionView::CloseOrphan {
                trip_id: *trip_id,
                user: user@,
                ts: *ts,
            },
            Action::Measure { from_lat, from_lon, to_lat, to_lon } => ActionView::Measure {
                from_lat: *from_lat,
                from_lon: *from_lon,
                to_lat: *to_lat,
                to_lon: *to_lon,
            },
            Action::StorePosition { trip_id, lat, lon, ts, stopped } => ActionView::StorePosition {
                trip_id: *trip_id,
                lat: *lat,
                lon: *lon,
                ts: *ts,
                stopped: *stopped,
            },
            Action::CloseTrip { trip_id, user, ts } => ActionView::CloseTrip {
                trip_id: *trip_id,
                user: user@,
                ts: *ts,
            },
            Action::LoadRows { user, from_ts, to_ts } => ActionView::LoadRows {
                user: user@,
                from_ts: *from_ts,
                to_ts: *to_ts,
            },
            Action::Pace(x) => ActionView::Pace(x@),
            Action::SumUp { lengths, divisor } => ActionView::SumUp {
                lengths: lengths@,
                divisor: *divisor,
            },
            Action::CheckChat(x) => ActionView::CheckChat(x@),
            Action::ShowChat { user, text } => ActionView::ShowChat {
                user: user@,
                text: text@,
            },
            Action::ListOpenTrips { user } => ActionView::ListOpenTrips {
                user: user@,
            },
            Action::CloseLeftTrip { trip_id, user, ts } => ActionView::CloseLeftTrip {
                trip_id: *trip_id,
                user: user@,
                ts: *ts,
            },
            Action::Send(x) => ActionView::Send(x@),
            Action::CloseSocket => ActionView::CloseSocket,
            Action::Finish => ActionView::Finish,
            Action::Abort => ActionView::Abort,
        }
    }
}

/// Why a user leaves.
#[derive(Debug)]
pub enum Leave {
    /// The client asked to be disconnected.
    Disconnecting { token: String },
    /// The connection is over.
    CleaningUp,
}

/// The same, with its texts as sequences of characters.
pub enum LeaveView {
    Disconnecting { token: Seq<char> },
    CleaningUp,
}

impl View for Leave {
    type V = LeaveView;

    open spec fn view(&self) -> LeaveView {
        match self {
            Leave::Disconnecting { token } => LeaveView::Disconnecting {
                token: token@,
            },
            Leave::CleaningUp => LeaveView::CleaningUp,
        }
    }
}

/// What a connection is waiting for.
#[derive(Debug)]
pub enum Phase {
    Receiving,
    Decoding,
    LoggingIn { username: String },
    Registering { username: String },
    OpeningTrip { user: String, lat: Double, lon: Double, ts: i64 },
    CheckingOpen { user: String, trip_id: i64, lat: Double, lon: Double, ts: i64 },
    ClosingOrphan,
    Measuring { user: String, trip_id: i64, lat: Double, lon: Double, ts: i64 },
    Storing { user: String, transition: StatusTransition },
    ClosingTrip { trip_id: i64 },
    Loading { user: String, from_ts: i64, to_ts: i64 },
    Pacing { user: String, from_ts: i64, to_ts: i64, points: Vec<PositionRecord> },
    SummingUp(MovementTally),
    CheckingChat { user: String, text: String },
    Showing,
    Listing { user: String, leave: Leave },
    Leaving { user: String, leave: Leave, left: Vec<i64>, next: usize, ts: i64 },
    Replying { farewell: bool },
    ClosingSocket,
    Finished,
    Aborted,
}

/// The same, with its texts as sequences of characters.
pub enum PhaseView {
    Receiving,
    Decoding,
    LoggingIn { username: Seq<char> },
    Registering { username: Seq<char> },
    OpeningTrip { user: Seq<char>, lat: Double, lon: Double, ts: i64 },
    CheckingOpen { user: Seq<char>, trip_id: i64, lat: Double, lon: Double, ts: i64 },
    ClosingOrphan,
    Measuring { user: Seq<char>, trip_id: i64, lat: Double, lon: Double, ts: i64 },
    Storing { user: Seq<char>, transition: StatusTransition },
    ClosingTrip { trip_id: i64 },
    Loading { user: Seq<char>, from_ts: i64, to_ts: i64 },
    Pacing { user: Seq<char>, from_ts: i64, to_ts: i64, points: Seq<PositionRecord> },
    SummingUp(TallyView),
    CheckingChat { user: Seq<char>, text: Seq<char> },
    Showing,
    Listing { user: Seq<char>, leave: LeaveView },
    Leaving { user: Seq<char>, leave: LeaveView, left: Seq<i64>, next: nat, ts: i64 },
    Replying { farewell: bool },
    ClosingSocket,
    Finished,
    Aborted,
}

impl View for Phase {
    type V = PhaseView;

    open spec fn view(&self) -> PhaseView {
        match self {
            Phase::Receiving => PhaseView::Receiving,
            Phase::Decoding => PhaseView::Decoding,
            Phase::LoggingIn { username } => PhaseView::LoggingIn {
                username: username@,
            },
            Phase::Registering { username } => PhaseView::Registering {
                username: username@,
            },
            Phase::OpeningTrip { user, lat, lon, ts } => PhaseView::OpeningTrip {
                user: user@,
                lat: *lat,
                lon: *lon,
                ts: *ts,
            },
            Phase::CheckingOpen { user, trip_id, lat, lon, ts } => PhaseView::CheckingOpen {
                user: user@,
                trip_id: *trip_id,
                lat: *lat,
                lon: *lon,
                ts: *ts,
            },
            Phase::ClosingOrphan => PhaseView::ClosingOrphan,
            Phase::Measuring { user, trip_id, lat, lon, ts } => PhaseView::Measuring {
                user: user@,
                trip_id: *trip_id,
                lat: *lat,
                lon: *lon,
                ts: *ts,
            },
            Phase::Storing { user, transition } => PhaseView::Storing {
                user: user@,
                transition: *transition,
            },
            Phase::ClosingTrip { trip_id } => PhaseView::ClosingTrip {
                trip_id: *trip_id,
            },
            Phase::Loading { user, from_ts, to_ts } => PhaseView::Loading {
                user: user@,
                from_ts: *from_ts,
                to_ts: *to_ts,
            },
            Phase::Pacing { user, from_ts, to_ts, points } => PhaseView::Pacing {
                user: user@,
                from_ts: *from_ts,
                to_ts: *to_ts,
                points: points@,
            },
            Phase::SummingUp(x) => PhaseView::SummingUp(x@),
            Phase::CheckingChat { user, text } => PhaseView::CheckingChat {
                user: user@,
                text: text@,
            },
            Phase::Showing => PhaseView::Showing,
            Phase::Listing { user, leave } => PhaseView::Listing {
                user: user@,
                leave: leave@,
            },
            Phase::Leaving { user, leave, left, next, ts } => PhaseView::Leaving {
                user: user@,
                leave: leave@,
                left: left@,
                next: *next as nat,
                ts: *ts,
            },
            Phase::Replying { farewell } => PhaseView::Replying {
                farewell: *farewell,
            },
            Phase::ClosingSocket => PhaseView::ClosingSocket,
            Phase::Finished => PhaseView::Finished,
            Phase::Aborted => PhaseView::Aborted,
        }
    }
}

/// The view of a frame is the frame.
pub proof fn law_frame_view(
    text: String,
    bytes: Vec<u8>,
)
    ensures
        Frame::Text(text)@ == FrameView::Text(text@),
        Frame::Binary(bytes)@ == FrameView::Binary(bytes@),
        Frame::Ping@ == FrameView::Ping,
        Frame::Pong@ == FrameView::Pong,
        Frame::Close@ == FrameView::Close,
{
}

/// The view of an event is the event: each kind with its own fields.
pub proof fn law_event_view(
    frame: Frame,
    parsed: Option<Message>,
    verdict: Result<(), String>,
    token: String,
    outcome: Result<(), String>,
    opened: Result<i64, String>,
    checked: Result<bool, String>,
    number: Double,
    done: Result<(), String>,
    rows: Result<Vec<PositionRecord>, String>,
    doubles: Vec<Double>,
    distance_m: Double,
    avg_speed_mps: Double,
    avg_speed_kmh: Double,
    ids: Option<Vec<i64>>,
    now: i64,
    flag: bool,
)
    ensures
        Event::Frame(frame)@ == EventView::Frame(frame@),
        Event::ReadFailed@ == EventView::ReadFailed,
        Event::StreamEnded@ == EventView::StreamEnded,
        Event::Decoded(parsed)@ == EventView::Decoded(
            match parsed {
                Some(t) => Some(t@),
                None => None,
            },
        ),
        (Event::CredentialsChecked {
            verdict,
            token,
        })@ == (EventView::CredentialsChecked {
            verdict: match verdict { Ok(t) => Ok(t), Err(e) => Err(e@) },
            token: token@,
        }),
        (Event::UserSaved {
            outcome,
            token,
        })@ == (EventView::UserSaved {
            outcome: match outcome { Ok(t) => Ok(t), Err(e) => Err(e@) },
            token: token@,
        }),
        Event::TripOpened(opened)@ == EventView::TripOpened(
            match opened {
                Ok(t) => Ok(t),
                Err(e) => Err(e@),
            },
        ),
        Event::OpenChecked(checked)@ == EventView::OpenChecked(
            match checked {
                Ok(t) => Ok(t),
                Err(e) => Err(e@),
            },
        ),
        Event::OrphanClosed@ == EventView::OrphanClosed,
        Event::Measured(number)@ == EventView::Measured(number),
        Event::PositionStored(done)@ == EventView::PositionStored(
            match done {
                Ok(t) => Ok(t),
                Err(e) => Err(e@),
            },
        ),
        Event::TripClosed(done)@ == EventView::TripClosed(
            match done {
                Ok(t) => Ok(t),
                Err(e) => Err(e@),
            },
        ),
        Event::RowsLoaded(rows)@ == EventView::RowsLoaded(
            match rows {
                Ok(t) => Ok(t@),
                Err(e) => Err(e@),
            },
        ),
        Event::Paced(doubles)@ == EventView::Paced(doubles@),
        (Event::SummedUp {
            distance_m,
            avg_speed_mps,
            avg_speed_kmh,
        })@ == (EventView::SummedUp {
            distance_m,
            avg_speed_mps,
            avg_speed_kmh,
        }),
        Event::ChatChecked(done)@ == EventView::ChatChecked(
            match done {
                Ok(t) => Ok(t),
                Err(e) => Err(e@),
            },
        ),
        Event::ChatShown@ == EventView::ChatShown,
        (Event::OpenTripsListed {
            ids,
            now,
        })@ == (EventView::OpenTripsListed {
            ids: match ids { Some(t) => Some(t@), None => None },
            now,
        }),
        Event::LeftTripClosed@ == EventView::LeftTripClosed,
        Event::Sent(flag)@ == EventView::Sent(flag),
        Event::SocketClosed@ == EventView::SocketClosed,
{
}

/// The view of an action is the action: each kind with its own fields.
pub proof fn law_action_view(
    text: String,
    message: Message,
    user: String,
    lat: Double,
    lon: Double,
    ts: i64,
    trip_id: i64,
    from_lat: Double,
    from_lon: Double,
    to_lat: Double,
    to_lon: Double,
    stopped: bool,
    from_ts: i64,
    to_ts: i64,
    points: Vec<PositionRecord>,
    lengths: Vec<Double>,
    divisor: Option<i64>,
)
    ensures
        Action::Receive@ == ActionView::Receive,
        Action::Decode(text)@ == ActionView::Decode(text@),
        Action::CheckCredentials(message)@ == ActionView::CheckCredentials(message@),
        Action::SaveUser(message)@ == ActionView::SaveUser(message@),
        (Action::OpenTrip {
            user,
            lat,
            lon,
            ts,
        })@ == (ActionView::OpenTrip {
            user: user@,
            lat,
            lon,
            ts,
        }),
        (Action::CheckOpen { trip_id, user })@ == (ActionView::CheckOpen { trip_id, user: user@ }),
        (Action::CloseOrphan {
            trip_id,
            user,
            ts,
        })@ == (ActionView::CloseOrphan {
            trip_id,
            user: user@,
            ts,
        }),
        (Action::Measure {
            from_lat,
            from_lon,
            to_lat,
            to_lon,
        })@ == (ActionView::Measure {
            from_lat,
            from_lon,
            to_lat,
            to_lon,
        }),
        (Action::StorePosition {
            trip_id,
            lat,
            lon,
            ts,
            stopped,
        })@ == (ActionView::StorePosition {
            trip_id,
            lat,
            lon,
            ts,
            stopped,
        }),
        (Action::CloseTrip {
            trip_id,
            user,
            ts,
        })@ == (ActionView::CloseTrip {
            trip_id,
            user: user@,
            ts,
        }),
        (Action::LoadRows {
            user,
            from_ts,
            to_ts,
        })@ == (ActionView::LoadRows {
            user: user@,
            from_ts,
            to_ts,
        }),
        Action::Pace(points)@ == ActionView::Pace(points@),
        (Action::SumUp { lengths, divisor })@ == (ActionView::SumUp { lengths: lengths@, divisor }),
        Action::CheckChat(text)@ == ActionView::CheckChat(text@),
        (Action::ShowChat { user, text })@ == (ActionView::ShowChat { user: user@, text: text@ }),
        (Action::ListOpenTrips { user })@ == (ActionView::ListOpenTrips { user: user@ }),
        (Action::CloseLeftTrip {
            trip_id,
            user,
            ts,
        })@ == (ActionView::CloseLeftTrip {
            trip_id,
            user: user@,
            ts,
        }),
        Action::Send(message)@ == ActionView::Send(message@),
        Action::CloseSocket@ == ActionView::CloseSocket,
        Action::Finish@ == ActionView::Finish,
        Action::Abort@ == ActionView::Abort,
{
}

/// The view of a reason to leave is that reason.
pub proof fn law_leave_view(
    token: String,
)
    ensures
        (Leave::Disconnecting { token })@ == (LeaveView::Disconnecting { token: token@ }),
        Leave::CleaningUp@ == LeaveView::CleaningUp,
{
}

/// The view of a phase is the phase: each kind with its own fields.
pub proof fn law_phase_view(
    username: String,
    user: String,
    lat: Double,
    lon: Double,
    ts: i64,
    trip_id: i64,
    transition: StatusTransition,
    from_ts: i64,
    to_ts: i64,
    points: Vec<PositionRecord>,
    tally: MovementTally,
    text: String,
    leave: Leave,
    left: Vec<i64>,
    next: usize,
    farewell: bool,
)
    ensures
        Phase::Receiving@ == PhaseView::Receiving,
        Phase::Decoding@ == PhaseView::Decoding,
        (Phase::LoggingIn { username })@ == (PhaseView::LoggingIn { username: username@ }),
        (Phase::Registering { username })@ == (PhaseView::Registering { username: username@ }),
        (Phase::OpeningTrip {
            user,
            lat,
            lon,
            ts,
        })@ == (PhaseView::OpeningTrip {
            user: user@,
            lat,
            lon,
            ts,
        }),
        (Phase::CheckingOpen {
            user,
            trip_id,
            lat,
            lon,
            ts,
        })@ == (PhaseView::CheckingOpen {
            user: user@,
            trip_id,
            lat,
            lon,
            ts,
        }),
        Phase::ClosingOrphan@ == PhaseView::ClosingOrphan,
        (Phase::Measuring {
            user,
            trip_id,
            lat,
            lon,
            ts,
        })@ == (PhaseView::Measuring {
            user: user@,
            trip_id,
            lat,
            lon,
            ts,
        }),
        (Phase::Storing { user, transition })@ == (PhaseView::Storing { user: user@, transition }),
        (Phase::ClosingTrip { trip_id })@ == (PhaseView::ClosingTrip { trip_id }),
        (Phase::Loading {
            user,
            from_ts,
            to_ts,
        })@ == (PhaseView::Loading {
            user: user@,
            from_ts,
            to_ts,
        }),
        (Phase::Pacing {
            user,
            from_ts,
            to_ts,
            points,
        })@ == (PhaseView::Pacing {
            user: user@,
            from_ts,
            to_ts,
            points: points@,
        }),
        Phase::SummingUp(tally)@ == PhaseView::SummingUp(tally@),
        (Phase::CheckingChat {
            user,
            text,
        })@ == (PhaseView::CheckingChat {
            user: user@,
            text: text@,
        }),
        Phase::Showing@ == PhaseView::Showing,
        (Phase::Listing { user, leave })@ == (PhaseView::Listing { user: user@, leave: leave@ }),
        (Phase::Leaving {
            user,
            leave,
            left,
            next,
            ts,
        })@ == (PhaseView::Leaving {
            user: user@,
            leave: leave@,
            left: left@,
            next: next as nat,
            ts,
        }),
        (Phase::Replying { farewell })@ == (PhaseView::Replying { farewell }),
        Phase::ClosingSocket@ == PhaseView::ClosingSocket,
        Phase::Finished@ == PhaseView::Finished,
        Phase::Aborted@ == PhaseView::Aborted,
{
}

}
