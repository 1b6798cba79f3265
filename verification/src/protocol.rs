//! The messages that travel between the server and its clients.

use crate::double::Double;
use vstd::prelude::*;

verus! {

/// One message, in either direction.
#[derive(Debug, Clone)]
pub enum Message {
    /// A client asks for a new account.
    Register { username: String, password: String },
    /// A client asks for a session.
    Login { username: String, password: String },
    /// The session token, after a login or a registration.
    AuthOk { token: String },
    /// A client opens a trip at a place.
    StartTrip { token: String, lat: Double, lon: Double, ts: i64 },
    /// The trip that was opened.
    TripStarted { trip_id: i64, lat: Double, lon: Double, ts: i64 },
    /// A client reports where it is.
    Position { token: String, trip_id: i64, lat: Double, lon: Double, ts: i64 },
    /// A client closes a trip.
    EndTrip { token: String, trip_id: i64, ts: i64 },
    /// A client asks for its statistics over an interval.
    Stats { token: String, from_ts: i64, to_ts: i64 },
    /// The statistics over an interval.
    StatsResult {
        username: String,
        from_ts: i64,
        to_ts: i64,
        distance_m: Double,
        movement_secs: i64,
        pause_secs: i64,
        total_secs: i64,
        avg_speed_mps: Double,
        avg_speed_kmh: Double,
        points: i64,
    },
    /// A client writes to the operator.
    ChatToServer { token: String, text: String },
    /// The operator writes to a client.
    ChatFromServer { from: Option<String>, text: String },
    /// The request was carried out.
    Ack,
    /// The request was refused.
    Error { code: String, message: String },
    /// A client ends its session.
    Disconnect { token: String },
}

/// What a message says, with its texts as sequences of characters.
pub enum MessageView {
    Register { username: Seq<char>, password: Seq<char> },
    Login { username: Seq<char>, password: Seq<char> },
    AuthOk { token: Seq<char> },
    StartTrip { token: Seq<char>, lat: Double, lon: Double, ts: i64 },
    TripStarted { trip_id: i64, lat: Double, lon: Double, ts: i64 },
    Position { token: Seq<char>, trip_id: i64, lat: Double, lon: Double, ts: i64 },
    EndTrip { token: Seq<char>, trip_id: i64, ts: i64 },
    Stats { token: Seq<char>, from_ts: i64, to_ts: i64 },
    StatsResult {
        username: Seq<char>,
        from_ts: i64,
        to_ts: i64,
        distance_m: Double,
        movement_secs: i64,
        pause_secs: i64,
        total_secs: i64,
        avg_speed_mps: Double,
        avg_speed_kmh: Double,
        points: i64,
    },
    ChatToServer { token: Seq<char>, text: Seq<char> },
    ChatFromServer { from: Option<Seq<char>>, text: Seq<char> },
    Ack,
    Error { code: Seq<char>, message: Seq<char> },
    Disconnect { token: Seq<char> },
}

impl View for Message {
    type V = MessageView;

    open spec fn view(&self) -> MessageView {
        match self {
            Message::Register { username, password } => MessageView::Register {
                username: username@,
                password: password@,
            },
            Message::Login { username, password } => MessageView::Login {
                username: username@,
                password: password@,
            },
            Message::AuthOk { token } => MessageView::AuthOk { token: token@ },
            Message::StartTrip { token, lat, lon, ts } => MessageView::StartTrip {
                token: token@,
                lat: *lat,
                lon: *lon,
                ts: *ts,
            },
            Message::TripStarted { trip_id, lat, lon, ts } => MessageView::TripStarted {
                trip_id: *trip_id,
                lat: *lat,
                lon: *lon,
                ts: *ts,
            },
            Message::Position { token, trip_id, lat, lon, ts } => MessageView::Position {
                token: token@,
                trip_id: *trip_id,
                lat: *lat,
                lon: *lon,
                ts: *ts,
            },
            Message::EndTrip { token, trip_id, ts } => MessageView::EndTrip {
                token: token@,
                trip_id: *trip_id,
                ts: *ts,
            },
            Message::Stats { token, from_ts, to_ts } => MessageView::Stats {
                token: token@,
                from_ts: *from_ts,
                to_ts: *to_ts,
            },
            Message::StatsResult {
                username,
                from_ts,
                to_ts,
                distance_m,
                movement_secs,
                pause_secs,
                total_secs,
                avg_speed_mps,
                avg_speed_kmh,
                points,
            } => MessageView::StatsResult {
                username: username@,
                from_ts: *from_ts,
                to_ts: *to_ts,
                distance_m: *distance_m,
                movement_secs: *movement_secs,
                pause_secs: *pause_secs,
                total_secs: *total_secs,
                avg_speed_mps: *avg_speed_mps,
                avg_speed_kmh: *avg_speed_kmh,
                points: *points,
            },
            Message::ChatToServer { token, text } => MessageView::ChatToServer {
                token: token@,
                text: text@,
            },
            Message::ChatFromServer { from, text } => MessageView::ChatFromServer {
                from: crate::text::text_view(*from),
                text: text@,
            },
            Message::Ack => MessageView::Ack,
            Message::Error { code, message } => MessageView::Error {
                code: code@,
                message: message@,
            },
            Message::Disconnect { token } => MessageView::Disconnect { token: token@ },
        }
    }
}

/// The refusal with a given code and explanation.
pub open spec fn refusal(code: Seq<char>, message: Seq<char>) -> MessageView {
    MessageView::Error { code, message }
}

/// What is told of a chat text that is too long.
pub const CHAT_TOO_LONG: &'static str = "messaggio troppo lungo";

/// Accepts a chat text of at most `limit` characters.
pub fn validate_chat(text: &str, limit: usize) -> (r: Result<(), String>)
    ensures
        match r {
            Ok(_) => text@.len() <= limit,
            Err(e) => text@.len() > limit && e@ == CHAT_TOO_LONG@,
        },
{
    if text.unicode_len() <= limit {
        Ok(())
    } else {
        Err(crate::text::copy_text(CHAT_TOO_LONG))
    }
}

/// A refusal with a given code and explanation.
pub fn error_message(code: &str, message: &str) -> (m: Message)
    ensures
        m@ == refusal(code@, message@),
{
    Message::Error {
        code: crate::text::copy_text(code),
        message: crate::text::copy_text(message),
    }
}

/// The view of a message is the message: each kind with its own fields.
pub proof fn law_message_view(
    username: String,
    password: String,
    token: String,
    lat: Double,
    lon: Double,
    ts: i64,
    trip_id: i64,
    from_ts: i64,
    to_ts: i64,
    distance_m: Double,
    movement_secs: i64,
    pause_secs: i64,
    total_secs: i64,
    avg_speed_mps: Double,
    avg_speed_kmh: Double,
    points: i64,
    text: String,
    from: Option<String>,
    code: String,
    message: String,
)
    ensures
        (Message::Register {
            username,
            password,
        })@ == (MessageView::Register {
            username: username@,
            password: password@,
        }),
        (Message::Login {
            username,
            password,
        })@ == (MessageView::Login {
            username: username@,
            password: password@,
        }),
        (Message::AuthOk { token })@ == (MessageView::AuthOk { token: token@ }),
        (Message::StartTrip {
            token,
            lat,
            lon,
            ts,
        })@ == (MessageView::StartTrip {
            token: token@,
            lat,
            lon,
            ts,
        }),
        (Message::TripStarted {
            trip_id,
            lat,
            lon,
            ts,
        })@ == (MessageView::TripStarted {
            trip_id,
            lat,
            lon,
            ts,
        }),
        (Message::Position {
            token,
            trip_id,
            lat,
            lon,
            ts,
        })@ == (MessageView::Position {
            token: token@,
            trip_id,
            lat,
            lon,
            ts,
        }),
        (Message::EndTrip {
            token,
            trip_id,
            ts,
        })@ == (MessageView::EndTrip {
            token: token@,
            trip_id,
            ts,
        }),
        (Message::Stats {
            token,
            from_ts,
            to_ts,
        })@ == (MessageView::Stats {
            token: token@,
            from_ts,
            to_ts,
        }),
        (Message::StatsResult {
            username,
            from_ts,
            to_ts,
            distance_m,
            movement_secs,
            pause_secs,
            total_secs,
            avg_speed_mps,
            avg_speed_kmh,
            points,
        })@ == (MessageView::StatsResult {
            username: username@,
            from_ts,
            to_ts,
            distance_m,
            movement_secs,
            pause_secs,
            total_secs,
            avg_speed_mps,
            avg_speed_kmh,
            points,
        }),
        (Message::ChatToServer {
            token,
            text,
        })@ == (MessageView::ChatToServer {
            token: token@,
            text: text@,
        }),
        (Message::ChatFromServer {
            from,
            text,
        })@ == (MessageView::ChatFromServer {
            from: match from { Some(t) => Some(t@), None => None },
            text: text@,
        }),
        Message::Ack@ == MessageView::Ack,
        (Message::Error {
            code,
            message,
        })@ == (MessageView::Error {
            code: code@,
            message: message@,
        }),
        (Message::Disconnect { token })@ == (MessageView::Disconnect { token: token@ }),
{
}

/// A refusal is an error with its code and explanation.
pub proof fn law_refusal(code: Seq<char>, message: Seq<char>)
    ensures
        refusal(code, message) == (MessageView::Error { code, message }),
{
}

}
