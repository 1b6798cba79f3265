use georuggine::connection::Connection;
use georuggine::credentials::{
    check_credentials, credentials_of, registration_verdict, save_register, StoreOutcome,
};
use georuggine::double::Double;
use georuggine::exchange::{Action, Event, Frame};
use georuggine::hub::Hub;
use georuggine::protocol::{validate_chat, Message};
use georuggine::stats::PositionRecord;
use georuggine::trips::{
    end_trip, open_trip_ids_for, start_trip, trip_open_for, TripRecord, UserStatus,
};

fn d(x: f64) -> Double {
    Double { bits: x.to_bits() }
}

fn f(x: Double) -> f64 {
    f64::from_bits(x.bits)
}

// Close enough to the ground for tests: a degree is 111 km.
fn apart(a: (Double, Double), b: (Double, Double)) -> Double {
    let (x, y) = (f(a.0) - f(b.0), f(a.1) - f(b.1));
    d((x * x + y * y).sqrt() * 111_000.0)
}

// The world around the connections: users, trips and samples in memory.
struct World {
    hub: Hub,
    users: Vec<(String, String)>,
    trips: Vec<TripRecord>,
    samples: Vec<PositionRecord>,
    tokens: u32,
    shown: Vec<String>,
    broken: bool,
    // Whether nothing can be sent any more.
    mute: bool,
    clock: i64,
}

enum End {
    Waiting,
    Finished,
    Aborted,
}

impl World {
    fn new() -> World {
        World {
            hub: Hub::new(),
            users: vec![],
            trips: vec![],
            samples: vec![],
            tokens: 0,
            shown: vec![],
            broken: false,
            mute: false,
            clock: 999,
        }
    }

    fn token(&mut self) -> String {
        self.tokens += 1;
        format!("token-{}", self.tokens)
    }

    fn trip(&self, id: i64) -> Option<TripRecord> {
        self.trips.iter().find(|t| t.id == id).cloned()
    }

    fn close(&mut self, id: i64, user: &str, ts: i64) -> Result<(), String> {
        let ended = end_trip(self.trip(id), id, user, ts)?;
        for t in self.trips.iter_mut() {
            if t.id == id {
                *t = ended.clone();
            }
        }
        Ok(())
    }

    // Hands an event to a connection and does what follows until it waits for
    // a frame again. Gives the messages that were sent.
    fn run(&mut self, c: &mut Connection, event: Event, message: &mut Option<Message>) -> (Vec<Message>, End) {
        let mut sent = vec![];
        let mut action = c.step(&mut self.hub, event);
        loop {
            let event = match action {
                Action::Receive => return (sent, End::Waiting),
                Action::Finish => return (sent, End::Finished),
                Action::Abort => return (sent, End::Aborted),
                Action::Decode(_) => Event::Decoded(message.take()),
                Action::CheckCredentials(m) => {
                    let (name, _) = credentials_of(&m).unwrap();
                    let stored = self.users.iter().find(|u| u.0 == name).map(|u| u.1.as_str());
                    let verdict = check_credentials(&m, stored).map_err(|e| e.explain());
                    Event::CredentialsChecked { verdict, token: self.token() }
                }
                Action::SaveUser(m) => {
                    let user = save_register(&m).unwrap();
                    let outcome = if self.users.iter().any(|u| u.0 == user.username) {
                        StoreOutcome::Duplicate
                    } else {
                        self.users.push((user.username, user.password_hash));
                        StoreOutcome::Stored
                    };
                    let outcome = registration_verdict(outcome).map_err(|e| e.explain());
                    Event::UserSaved { outcome, token: self.token() }
                }
                Action::OpenTrip { user, lat, lon, ts } => Event::TripOpened(if self.broken {
                    Err("disk".into())
                } else {
                    let id = self.trips.len() as i64 + 1;
                    let (trip, first) = start_trip(id, &user, lat, lon, ts);
                    self.trips.push(trip);
                    self.samples.push(first);
                    Ok(id)
                }),
                Action::CheckOpen { trip_id, user } => Event::OpenChecked(if self.broken {
                    Err("disk".into())
                } else {
                    Ok(trip_open_for(&self.trip(trip_id), trip_id, &user))
                }),
                Action::CloseOrphan { trip_id, user, ts } => {
                    self.close(trip_id, &user, ts).unwrap();
                    Event::OrphanClosed
                }
                Action::Measure { from_lat, from_lon, to_lat, to_lon } => {
                    Event::Measured(apart((from_lat, from_lon), (to_lat, to_lon)))
                }
                Action::StorePosition { trip_id, lat, lon, ts, stopped } => {
                    Event::PositionStored(if f(lat) == 89.0 {
                        Err("full".into())
                    } else {
                        self.samples.push(PositionRecord { trip_id, ts, lat, lon, stopped });
                        Ok(())
                    })
                }
                Action::CloseTrip { trip_id, user, ts } => {
                    Event::TripClosed(self.close(trip_id, &user, ts))
                }
                Action::LoadRows { user, .. } => Event::RowsLoaded(if self.broken {
                    Err("disk".into())
                } else {
                    let mine: Vec<i64> =
                        self.trips.iter().filter(|t| t.username == user).map(|t| t.id).collect();
                    Ok(self.samples.iter().filter(|s| mine.contains(&s.trip_id)).copied().collect())
                }),
                Action::Pace(points) => Event::Paced(
                    points.windows(2).map(|w| apart((w[0].lat, w[0].lon), (w[1].lat, w[1].lon))).collect(),
                ),
                Action::SumUp { lengths, divisor } => {
                    let sum: f64 = lengths.iter().map(|x| f(*x)).sum();
                    let mps = divisor.map(|n| sum / n as f64).unwrap_or(0.0);
                    Event::SummedUp {
                        distance_m: d(sum),
                        avg_speed_mps: d(mps),
                        avg_speed_kmh: d(mps * 3.6),
                    }
                }
                Action::CheckChat(text) => Event::ChatChecked(validate_chat(&text, 20)),
                Action::ShowChat { user, text } => {
                    self.shown.push(format!("[chat] {user}: {text}"));
                    Event::ChatShown
                }
                Action::ListOpenTrips { user } => Event::OpenTripsListed {
                    ids: if self.broken {
                        None
                    } else {
                        Some(open_trip_ids_for(&self.trips, &user))
                    },
                    now: self.clock,
                },
                Action::CloseLeftTrip { trip_id, user, ts } => {
                    self.clock += 1;
                    let _ = self.close(trip_id, &user, ts);
                    Event::LeftTripClosed
                }
                Action::Send(_) if self.mute => Event::Sent(false),
                Action::Send(m) => {
                    sent.push(m);
                    Event::Sent(true)
                }
                Action::CloseSocket => Event::SocketClosed,
            };
            action = c.step(&mut self.hub, event);
        }
    }

    fn ask(&mut self, c: &mut Connection, m: Message) -> Message {
        let (mut sent, _) = self.run(c, Event::Frame(Frame::Text("{}".into())), &mut Some(m));
        assert_eq!(sent.len(), 1);
        sent.pop().unwrap()
    }

    fn leave(&mut self, c: &mut Connection) {
        let (sent, end) = self.run(c, Event::StreamEnded, &mut None);
        assert!(sent.is_empty());
        assert!(matches!(end, End::Finished));
    }
}

fn register(username: &str, password: &str) -> Message {
    Message::Register { username: username.into(), password: password.into() }
}

fn login(username: &str, password: &str) -> Message {
    Message::Login { username: username.into(), password: password.into() }
}

fn token(m: Message) -> String {
    match m {
        Message::AuthOk { token } => token,
        other => panic!("risposta inattesa: {other:?}"),
    }
}

fn error(m: Message) -> (String, String) {
    match m {
        Message::Error { code, message } => (code, message),
        other => panic!("risposta inattesa: {other:?}"),
    }
}

fn refusal(code: &str, message: &str) -> (String, String) {
    (code.to_string(), message.to_string())
}

fn start(token: &str, lat: f64, lon: f64, ts: i64) -> Message {
    Message::StartTrip { token: token.into(), lat: d(lat), lon: d(lon), ts }
}

fn position(token: &str, trip_id: i64, lat: f64, lon: f64, ts: i64) -> Message {
    Message::Position { token: token.into(), trip_id, lat: d(lat), lon: d(lon), ts }
}

fn trip_id(m: Message) -> i64 {
    match m {
        Message::TripStarted { trip_id, .. } => trip_id,
        other => panic!("atteso TripStarted, ricevuto {other:?}"),
    }
}

#[test]
fn register_risponde_con_auth_ok() {
    let mut w = World::new();
    let mut c = Connection::new(1);
    assert!(!token(w.ask(&mut c, register("mario", "secret"))).is_empty());
}

#[test]
fn login_dopo_register_risponde_con_auth_ok() {
    let mut w = World::new();
    let mut c = Connection::new(1);
    w.ask(&mut c, register("luigi", "pass123"));
    w.leave(&mut c);
    let mut c = Connection::new(2);
    assert!(!token(w.ask(&mut c, login("luigi", "pass123"))).is_empty());
}

#[test]
fn login_password_sbagliata_risponde_con_error() {
    let mut w = World::new();
    let mut c = Connection::new(1);
    w.ask(&mut c, register("peach", "corretta"));
    w.leave(&mut c);
    let mut c = Connection::new(2);
    let risposta = w.ask(&mut c, login("peach", "sbagliata"));
    assert!(matches!(risposta, Message::Error { .. }));
    assert_eq!(error(risposta), refusal("AUTH_FAILED", "credenziali non valide"));
}

#[test]
fn login_utente_inesistente_risponde_con_error() {
    let mut w = World::new();
    let mut c = Connection::new(1);
    let risposta = w.ask(&mut c, login("fantasma", "qualsiasi"));
    assert!(matches!(risposta, Message::Error { .. }));
    assert_eq!(error(risposta), refusal("AUTH_FAILED", "utente non trovato"));
}

#[test]
fn register_duplicato_risponde_con_error() {
    let mut w = World::new();
    let mut c = Connection::new(1);
    w.ask(&mut c, register("bowser", "secret"));
    w.leave(&mut c);
    let mut c = Connection::new(2);
    let risposta = w.ask(&mut c, register("bowser", "secret"));
    assert!(matches!(risposta, Message::Error { .. }));
    assert_eq!(error(risposta), refusal("REGISTER_FAILED", "utente esiste già"));
}

#[test]
fn start_e_end_trip_lifecycle() {
    let mut w = World::new();
    let mut c = Connection::new(1);
    let t = token(w.ask(&mut c, register("yoshi", "secret")));
    let id = trip_id(w.ask(&mut c, start(&t, 45.07, 7.69, 1_700_000_000)));
    assert!(id > 0);
    let end = Message::EndTrip { token: t.clone(), trip_id: id, ts: 0 };
    assert!(matches!(w.ask(&mut c, end.clone()), Message::Ack));
    assert_eq!(
        error(w.ask(&mut c, end)),
        refusal("BAD_REQUEST", "Failed to end trip: viaggio inesistente, non tuo o già chiuso")
    );
}

#[test]
fn start_trip_richiede_token_valido() {
    let mut w = World::new();
    let mut c = Connection::new(1);
    match w.ask(&mut c, start("fake", 0.0, 0.0, 0)) {
        Message::Error { code, .. } => assert_eq!(code, "UNAUTHORIZED"),
        altro => panic!("risposta inattesa: {altro:?}"),
    }
}

#[test]
fn every_request_needs_its_token() {
    let mut w = World::new();
    let mut a = Connection::new(1);
    let mut b = Connection::new(2);
    let t = token(w.ask(&mut a, register("mario", "secret")));
    token(w.ask(&mut b, register("luigi", "secret")));
    for bad in ["fake".to_string(), t] {
        let requests = [
            start(&bad, 1.0, 1.0, 1),
            position(&bad, 1, 1.0, 1.0, 1),
            Message::EndTrip { token: bad.clone(), trip_id: 1, ts: 1 },
            Message::Stats { token: bad.clone(), from_ts: 0, to_ts: 1 },
            Message::ChatToServer { token: bad.clone(), text: "x".into() },
        ];
        for m in requests {
            assert_eq!(error(w.ask(&mut b, m)), refusal("UNAUTHORIZED", "token non valido"));
        }
    }
    assert!(w.trips.is_empty() && w.shown.is_empty());
}

#[test]
fn one_session_at_a_time() {
    let mut w = World::new();
    let mut a = Connection::new(1);
    let t = token(w.ask(&mut a, register("mario", "secret")));
    assert_eq!(
        error(w.ask(&mut a, login("mario", "whatever"))),
        refusal("AUTH_FAILED", "già autenticato come mario")
    );
    let mut b = Connection::new(2);
    assert_eq!(
        error(w.ask(&mut b, login("mario", "secret"))),
        refusal("AUTH_FAILED", "utente già loggato da altra sessione")
    );
    assert_eq!(b.user(), None);
    assert!(matches!(
        w.ask(&mut a, Message::ChatToServer { token: t, text: "ciao".into() }),
        Message::Ack
    ));
    assert_eq!(w.shown, vec!["[chat] mario: ciao"]);
    w.leave(&mut a);
    token(w.ask(&mut b, login("mario", "secret")));
    assert_eq!(w.hub.online.get("mario"), Some(&2));
}

#[test]
fn switching_accounts_needs_success() {
    let mut w = World::new();
    let mut a = Connection::new(7);
    let t = token(w.ask(&mut a, register("mario", "secret")));
    error(w.ask(&mut a, login("luigi", "secret")));
    error(w.ask(&mut a, register("mario", "other")));
    assert_eq!(a.user(), Some("mario".to_string()));
    trip_id(w.ask(&mut a, start(&t, 1.0, 1.0, 1)));
    let u = token(w.ask(&mut a, register("luigi", "secret")));
    assert_eq!(a.user(), Some("luigi".to_string()));
    assert_eq!(w.hub.online.get("mario"), None);
    assert_eq!(w.hub.online.get("luigi"), Some(&7));
    assert!(w.hub.status.get("mario").is_none());
    assert_eq!(
        error(w.ask(&mut a, start(&t, 1.0, 1.0, 1))),
        refusal("UNAUTHORIZED", "token non valido")
    );
    trip_id(w.ask(&mut a, start(&u, 1.0, 1.0, 1)));
}

#[test]
fn bad_samples_are_refused() {
    let mut w = World::new();
    let mut c = Connection::new(1);
    let t = token(w.ask(&mut c, register("mario", "secret")));
    let place = refusal("BAD_REQUEST", "coordinate fuori range");
    let time = refusal("BAD_REQUEST", "timestamp non valido");
    for (lat, lon) in [(90.5, 0.0), (0.0, -180.5), (f64::NAN, 0.0)] {
        assert_eq!(error(w.ask(&mut c, start(&t, lat, lon, 1))), place);
        assert_eq!(error(w.ask(&mut c, position(&t, 1, lat, lon, 1))), place);
    }
    for ts in [0, -1, i64::MIN] {
        assert_eq!(error(w.ask(&mut c, start(&t, 1.0, 1.0, ts))), time);
        assert_eq!(error(w.ask(&mut c, position(&t, 1, 1.0, 1.0, ts))), time);
    }
    assert!(w.trips.is_empty());
}

#[test]
fn a_stop_is_told_to_the_hub_and_the_database() {
    let mut w = World::new();
    let mut c = Connection::new(1);
    let t = token(w.ask(&mut c, register("mario", "secret")));
    let id = trip_id(w.ask(&mut c, start(&t, 45.0, 7.0, 30)));
    assert_eq!(w.hub.status.get("mario"), Some(&UserStatus::Stationary));
    assert!(matches!(w.ask(&mut c, position(&t, id, 45.1, 7.0, 60)), Message::Ack));
    assert_eq!(w.hub.status.get("mario"), Some(&UserStatus::Moving));
    for k in 1..=8 {
        assert!(matches!(w.ask(&mut c, position(&t, id, 45.1, 7.0, 60 + 30 * k)), Message::Ack));
        let expected = if k < 6 { UserStatus::Moving } else { UserStatus::Stationary };
        assert_eq!(w.hub.status.get("mario"), Some(&expected));
    }
    let stops: Vec<bool> = w.samples.iter().map(|s| s.stopped).collect();
    assert_eq!(stops, vec![false, false, false, false, false, false, false, true]);
    match w.ask(&mut c, Message::Stats { token: t.clone(), from_ts: 60, to_ts: 300 }) {
        Message::StatsResult { username, movement_secs, pause_secs, total_secs, points, .. } => {
            assert_eq!(username, "mario");
            assert_eq!((points, total_secs, movement_secs, pause_secs), (7, 180, 0, 180));
        }
        other => panic!("{other:?}"),
    }
    match w.ask(&mut c, Message::Stats { token: t.clone(), from_ts: 0, to_ts: 60 }) {
        Message::StatsResult { distance_m, movement_secs, avg_speed_mps, .. } => {
            assert_eq!(movement_secs, 30);
            assert!((f(distance_m) - 11_100.0).abs() < 1.0);
            assert!((f(avg_speed_mps) - 370.0).abs() < 0.1);
        }
        other => panic!("{other:?}"),
    }
    assert_eq!(
        error(w.ask(&mut c, Message::Stats { token: t, from_ts: 2, to_ts: 1 })),
        refusal("BAD_REQUEST", "intervallo temporale non valido")
    );
}

#[test]
fn samples_need_an_open_trip() {
    let mut w = World::new();
    let mut a = Connection::new(1);
    let mut b = Connection::new(2);
    let t = token(w.ask(&mut a, register("mario", "secret")));
    let u = token(w.ask(&mut b, register("luigi", "secret")));
    let id = trip_id(w.ask(&mut a, start(&t, 45.0, 7.0, 1)));
    let none = refusal("BAD_REQUEST", "viaggio inesistente, non tuo o già chiuso");
    assert_eq!(error(w.ask(&mut b, position(&u, id, 45.0, 7.0, 2))), none);
    assert_eq!(error(w.ask(&mut a, position(&t, id + 1, 45.0, 7.0, 2))), none);
    // The samples of a trip that the hub has forgotten close it.
    georuggine::trips::drop_trip(&mut w.hub.trips, id);
    assert_eq!(
        error(w.ask(&mut a, position(&t, id, 45.0, 7.0, 2))),
        refusal(
            "TRIP_TERMINATED",
            "viaggio chiuso dal server (stato perso): apri un nuovo viaggio"
        )
    );
    assert_eq!(error(w.ask(&mut a, position(&t, id, 45.0, 7.0, 2))), none);
}

#[test]
fn database_failures_are_told() {
    let mut w = World::new();
    let mut c = Connection::new(1);
    let t = token(w.ask(&mut c, register("mario", "secret")));
    let id = trip_id(w.ask(&mut c, start(&t, 45.0, 7.0, 1)));
    assert_eq!(
        error(w.ask(&mut c, position(&t, id, 89.0, 7.0, 2))),
        refusal("UPDATE_TRIP_FAILED", "Failed to insert position: full")
    );
    assert_eq!(w.hub.status.get("mario"), Some(&UserStatus::Stationary));
    w.broken = true;
    assert_eq!(
        error(w.ask(&mut c, start(&t, 45.0, 7.0, 1))),
        refusal("START_TRIP_FAILED", "Failed to start trip: disk")
    );
    assert_eq!(
        error(w.ask(&mut c, position(&t, id, 45.0, 7.0, 2))),
        refusal("BAD_REQUEST", "disk")
    );
    assert_eq!(
        error(w.ask(&mut c, Message::Stats { token: t, from_ts: 0, to_ts: 1 })),
        refusal("BAD_REQUEST", "disk")
    );
    w.leave(&mut c);
    assert!(w.hub.status.get("mario").is_none());
}

#[test]
fn a_trip_may_vanish_while_it_is_measured() {
    let mut w = World::new();
    let mut c = Connection::new(1);
    let t = token(w.ask(&mut c, register("mario", "secret")));
    let id = trip_id(w.ask(&mut c, start(&t, 45.0, 7.0, 1)));
    c.step(&mut w.hub, Event::Frame(Frame::Text("x".into())));
    c.step(&mut w.hub, Event::Decoded(Some(position(&t, id, 45.0, 7.0, 2))));
    let a = c.step(&mut w.hub, Event::OpenChecked(Ok(true)));
    assert!(matches!(a, Action::Measure { .. }));
    georuggine::trips::drop_trip(&mut w.hub.trips, id);
    match c.step(&mut w.hub, Event::Measured(d(0.0))) {
        Action::Send(m) => assert_eq!(
            error(m),
            refusal("UPDATE_TRIP_FAILED", "Trip ID 1 not found in store")
        ),
        other => panic!("{other:?}"),
    }
}

#[test]
fn leaving_closes_what_was_left_open() {
    let mut w = World::new();
    let mut a = Connection::new(1);
    let mut b = Connection::new(2);
    let t = token(w.ask(&mut a, register("mario", "secret")));
    let u = token(w.ask(&mut b, register("luigi", "secret")));
    let first = trip_id(w.ask(&mut a, start(&t, 45.0, 7.0, 1)));
    let other = trip_id(w.ask(&mut b, start(&u, 45.0, 7.0, 1)));
    let second = trip_id(w.ask(&mut a, start(&t, 45.0, 7.0, 1)));
    w.leave(&mut a);
    assert_eq!(w.trip(first).unwrap().ended_at, Some(999));
    assert_eq!(w.trip(second).unwrap().ended_at, Some(999));
    assert_eq!(w.trip(other).unwrap().ended_at, None);
    assert!(w.hub.trips.last_seen(first).is_none());
    assert!(w.hub.trips.last_seen(second).is_none());
    assert!(w.hub.trips.last_seen(other).is_some());
    assert!(w.hub.online.get("mario").is_none() && w.hub.online.get("luigi").is_some());
    assert!(!georuggine::sessions::is_logged_in(&w.hub.auth, "mario"));
    assert!(georuggine::sessions::is_logged_in(&w.hub.auth, "luigi"));
}

#[test]
fn disconnecting_with_ones_own_token() {
    let mut w = World::new();
    let mut a = Connection::new(1);
    let t = token(w.ask(&mut a, register("mario", "secret")));
    let id = trip_id(w.ask(&mut a, start(&t, 45.0, 7.0, 1)));
    let (sent, end) = w.run(
        &mut a,
        Event::Frame(Frame::Text("x".into())),
        &mut Some(Message::Disconnect { token: t }),
    );
    assert!(matches!(sent[..], [Message::Ack]));
    assert!(matches!(end, End::Finished));
    assert_eq!(a.user(), None);
    assert_eq!(w.trip(id).unwrap().ended_at, Some(999));
    assert!(!georuggine::sessions::is_logged_in(&w.hub.auth, "mario"));
}

#[test]
fn disconnecting_with_a_foreign_token() {
    let mut w = World::new();
    let mut a = Connection::new(1);
    let mut b = Connection::new(2);
    let t = token(w.ask(&mut a, register("mario", "secret")));
    token(w.ask(&mut b, register("luigi", "secret")));
    let (sent, end) = w.run(
        &mut b,
        Event::Frame(Frame::Text("x".into())),
        &mut Some(Message::Disconnect { token: t.clone() }),
    );
    assert!(matches!(sent[..], [Message::Ack]));
    assert!(matches!(end, End::Finished));
    assert!(georuggine::sessions::is_logged_in(&w.hub.auth, "mario"));
    // The connection is over all the same, and with it the session of its user.
    assert!(!georuggine::sessions::is_logged_in(&w.hub.auth, "luigi"));
    assert!(matches!(
        w.ask(&mut a, Message::ChatToServer { token: t, text: "x".into() }),
        Message::Ack
    ));
}

#[test]
fn frames() {
    let mut w = World::new();
    let mut c = Connection::new(1);
    for frame in [Frame::Ping, Frame::Pong, Frame::Text("".into()), Frame::Binary(vec![])] {
        let (sent, end) = w.run(&mut c, Event::Frame(frame), &mut None);
        assert!(sent.is_empty() && matches!(end, End::Waiting));
    }
    let (mut sent, _) = w.run(&mut c, Event::Frame(Frame::Binary(vec![0xff])), &mut None);
    assert_eq!(
        error(sent.pop().unwrap()),
        refusal("BAD_REQUEST", "payload binario non UTF-8")
    );
    let (mut sent, _) = w.run(&mut c, Event::Frame(Frame::Text("{".into())), &mut None);
    assert_eq!(error(sent.pop().unwrap()), refusal("BAD_REQUEST", "messaggio non valido"));
    let bytes = "già".as_bytes().to_vec();
    match c.step(&mut w.hub, Event::Frame(Frame::Binary(bytes))) {
        Action::Decode(text) => assert_eq!(text, "già"),
        other => panic!("{other:?}"),
    }
    let mut c = Connection::new(2);
    let (sent, end) = w.run(&mut c, Event::Frame(Frame::Close), &mut None);
    assert!(sent.is_empty() && matches!(end, End::Finished));
    let mut c = Connection::new(3);
    let (_, end) = w.run(&mut c, Event::ReadFailed, &mut None);
    assert!(matches!(end, End::Finished));
}

#[test]
fn messages_of_the_server_are_refused() {
    let mut w = World::new();
    let mut c = Connection::new(1);
    let requests = [
        Message::Ack,
        Message::AuthOk { token: "t".into() },
        Message::TripStarted { trip_id: 1, lat: d(0.0), lon: d(0.0), ts: 1 },
        Message::Error { code: "c".into(), message: "m".into() },
        Message::ChatFromServer { from: None, text: "x".into() },
    ];
    for m in requests {
        assert_eq!(
            error(w.ask(&mut c, m)),
            refusal("BAD_REQUEST", "tipo messaggio non valido dal client")
        );
    }
}

#[test]
fn unacceptable_chat_is_refused() {
    let mut w = World::new();
    let mut c = Connection::new(1);
    let t = token(w.ask(&mut c, register("mario", "secret")));
    assert!(matches!(
        w.ask(&mut c, Message::ChatToServer { token: t.clone(), text: "è".repeat(20) }),
        Message::Ack
    ));
    w.shown.clear();
    let long = "x".repeat(21);
    assert_eq!(
        error(w.ask(&mut c, Message::ChatToServer { token: t, text: long })),
        refusal("BAD_REQUEST", "messaggio troppo lungo")
    );
    assert!(w.shown.is_empty());
}

#[test]
fn what_cannot_be_sent_ends_the_connection() {
    let mut w = World::new();
    let mut c = Connection::new(1);
    c.step(&mut w.hub, Event::Frame(Frame::Text("x".into())));
    assert!(matches!(c.step(&mut w.hub, Event::Decoded(None)), Action::Send(_)));
    assert!(matches!(c.step(&mut w.hub, Event::Sent(false)), Action::Finish));
    // An event that nobody asked for is given up on.
    let mut c = Connection::new(2);
    assert!(matches!(c.step(&mut w.hub, Event::ChatShown), Action::Abort));
}

#[test]
fn a_reply_that_cannot_be_sent_leaves_nothing_behind() {
    let mut w = World::new();
    let mut a = Connection::new(1);
    let mut b = Connection::new(2);
    let t = token(w.ask(&mut a, register("mario", "secret")));
    let u = token(w.ask(&mut b, register("luigi", "secret")));
    let first = trip_id(w.ask(&mut a, start(&t, 45.0, 7.0, 1)));
    let second = trip_id(w.ask(&mut a, start(&t, 45.0, 7.0, 1)));
    let other = trip_id(w.ask(&mut b, start(&u, 45.0, 7.0, 1)));
    w.mute = true;
    let (sent, end) = w.run(
        &mut a,
        Event::Frame(Frame::Text("x".into())),
        &mut Some(position(&t, first, 45.0, 7.0, 2)),
    );
    w.mute = false;
    assert!(sent.is_empty());
    assert!(matches!(end, End::Finished));
    // Both trips were closed as of one moment.
    assert_eq!(w.trip(first).unwrap().ended_at, Some(999));
    assert_eq!(w.trip(second).unwrap().ended_at, Some(999));
    assert_eq!(w.trip(other).unwrap().ended_at, None);
    assert!(w.hub.trips.last_seen(first).is_none() && w.hub.trips.last_seen(second).is_none());
    assert!(w.hub.trips.last_seen(other).is_some());
    assert!(w.hub.online.get("mario").is_none() && w.hub.status.get("mario").is_none());
    assert!(!georuggine::sessions::is_logged_in(&w.hub.auth, "mario"));
    assert!(georuggine::sessions::is_logged_in(&w.hub.auth, "luigi"));
    let mut c = Connection::new(3);
    token(w.ask(&mut c, login("mario", "secret")));
}

#[test]
fn a_second_login_is_refused_everywhere() {
    let mut w = World::new();
    let mut a = Connection::new(1);
    let mut b = Connection::new(2);
    let t = token(w.ask(&mut a, register("mario", "secret")));
    for c in [&mut a, &mut b] {
        let (code, _) = error(w.ask(c, login("mario", "secret")));
        assert_eq!(code, "AUTH_FAILED");
    }
    assert!(matches!(
        w.ask(&mut a, Message::ChatToServer { token: t, text: "x".into() }),
        Message::Ack
    ));
}

#[test]
fn samples_without_distances_end_the_connection() {
    let mut w = World::new();
    let mut c = Connection::new(1);
    let t = token(w.ask(&mut c, register("mario", "secret")));
    let row = |ts: i64| PositionRecord { trip_id: 1, ts, lat: d(0.0), lon: d(0.0), stopped: false };
    c.step(&mut w.hub, Event::Frame(Frame::Text("x".into())));
    c.step(&mut w.hub, Event::Decoded(Some(Message::Stats { token: t, from_ts: 0, to_ts: 9 })));
    let a = c.step(&mut w.hub, Event::RowsLoaded(Ok(vec![row(1), row(2)])));
    assert!(matches!(a, Action::Pace(points) if points.len() == 2));
    let a = c.step(&mut w.hub, Event::Paced(vec![]));
    assert!(matches!(a, Action::ListOpenTrips { user } if user == "mario"));
    // Neither can samples whose seconds do not fit be counted.
    let mut c = Connection::new(2);
    let t = token(w.ask(&mut c, register("luigi", "secret")));
    let all = Message::Stats { token: t, from_ts: i64::MIN, to_ts: i64::MAX };
    c.step(&mut w.hub, Event::Frame(Frame::Text("x".into())));
    c.step(&mut w.hub, Event::Decoded(Some(all)));
    c.step(&mut w.hub, Event::RowsLoaded(Ok(vec![row(i64::MIN), row(i64::MAX)])));
    let a = c.step(&mut w.hub, Event::Paced(vec![d(1.0)]));
    assert!(matches!(a, Action::ListOpenTrips { user } if user == "luigi"));
}
