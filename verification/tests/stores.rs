use georuggine::admin::{
    admin_line, announce, delivery_notice, relay, AdminAction, ChatBroadcast, Delivery,
};
use georuggine::cpu_log::{log_line, time_of_day};
use georuggine::credentials::{
    check_credentials, credentials_of, login_verdict, new_user, registration_verdict,
    save_register, AuthError, StoreOutcome,
};
use georuggine::double::{is_on_globe, negated, number, Double};
use georuggine::hub::Hub;
use georuggine::names::NameMap;
use georuggine::protocol::{validate_chat, Message};
use georuggine::sessions::{
    clear_sessions, get_user_by_token, insert_token, invalidate_token, invalidate_user_sessions,
    is_logged_in, try_insert_token, validate_token, AuthStore,
};
use georuggine::startup::{database_url, pool_plan, setting, web_base, PoolPlan, ADDR_DEFAULT};
use georuggine::stats::{
    complete_stats, compute_movement_stats, speed_divisor, trajectory_fits, trajectory_for_user,
    MovementStats, PositionRecord,
};
use georuggine::text::{
    find_white, is_white_space, join, padded_text, same_text, signed_text, trim, unsigned_text,
};
use georuggine::trips::{
    apply_transition, coords_equal, drop_trip, end_trip, initialize_trips, is_tracked,
    open_trip_ids_for, start_trip, take_sample, terminate_trip, trip_open_for, update_trip,
    CoordState, InsertAction, StatusTransition, TripRecord, TripsStore, UserStatus,
    STOP_THRESHOLD_SAMPLES,
};

fn d(x: f64) -> Double {
    Double { bits: x.to_bits() }
}

fn f(x: Double) -> f64 {
    f64::from_bits(x.bits)
}

fn haversine_m(lat1: f64, lon1: f64, lat2: f64, lon2: f64) -> f64 {
    let r = 6_371_000.0_f64;
    let phi1 = lat1.to_radians();
    let phi2 = lat2.to_radians();
    let d_phi = (lat2 - lat1).to_radians();
    let d_lambda = (lon2 - lon1).to_radians();
    let a = (d_phi / 2.0).sin().powi(2) + phi1.cos() * phi2.cos() * (d_lambda / 2.0).sin().powi(2);
    let c = 2.0 * a.sqrt().atan2((1.0 - a).sqrt());
    r * c
}

fn distances(points: &[PositionRecord]) -> Vec<Double> {
    points
        .windows(2)
        .map(|w| d(haversine_m(f(w[0].lat), f(w[0].lon), f(w[1].lat), f(w[1].lon))))
        .collect()
}

fn stats(username: &str, from_ts: i64, to_ts: i64, points: &[PositionRecord]) -> MovementStats {
    let ds = distances(points);
    let tally = compute_movement_stats(username, from_ts, to_ts, points, &ds);
    let mut distance = 0.0;
    for i in &tally.moving {
        distance += f(ds[*i]);
    }
    let mps = match speed_divisor(&tally) {
        Some(secs) => distance / secs as f64,
        None => 0.0,
    };
    complete_stats(tally, d(distance), d(mps), d(mps * 3.6))
}

fn sample(trip_id: i64, ts: i64, lat: f64, stopped: bool) -> PositionRecord {
    PositionRecord { trip_id, ts, lat: d(lat), lon: d(9.0), stopped }
}

fn register(username: &str, password: &str) -> Message {
    Message::Register { username: username.into(), password: password.into() }
}

fn login(username: &str, password: &str) -> Message {
    Message::Login { username: username.into(), password: password.into() }
}

#[test]
fn register_e_check_credentials_ok() {
    let user = save_register(&register("mario", "secret")).unwrap();
    assert_eq!(user.username, "mario");
    assert!(registration_verdict(StoreOutcome::Stored).is_ok());
    let hash = user.password_hash.as_str();
    assert!(check_credentials(&login("mario", "secret"), Some(hash)).is_ok());
    assert!(check_credentials(&login("mario", "wrong"), Some(hash)).is_err());
}

#[test]
fn save_register_duplicato_fallisce() {
    let mut users: Vec<String> = vec![];
    let mut save = |msg: &Message| {
        let user = save_register(msg)?;
        let outcome = if users.contains(&user.username) {
            StoreOutcome::Duplicate
        } else {
            users.push(user.username);
            StoreOutcome::Stored
        };
        registration_verdict(outcome)
    };
    let reg = register("luigi", "secret");
    save(&reg).unwrap();
    let again = save(&reg);
    assert!(again.is_err());
    assert_eq!(again.unwrap_err().explain(), "utente esiste già");
}

#[test]
fn trip_lifecycle() {
    let (trip, first) = start_trip(17, "mario", d(45.07), d(12.29), 0);
    assert_eq!(
        first,
        PositionRecord { trip_id: 17, ts: 0, lat: d(45.07), lon: d(12.29), stopped: false }
    );
    let row = Some(trip.clone());
    assert!(trip_open_for(&row, trip.id, "mario"));
    assert!(!trip_open_for(&row, trip.id, "altro"));

    let ended = end_trip(row, 17, "mario", 1).unwrap();
    assert_eq!(ended.ended_at, Some(1));
    let row = Some(ended);
    assert!(!trip_open_for(&row, 17, "mario"));
    assert!(end_trip(row, 17, "mario", 1).is_err());
}

#[test]
fn end_trip_di_altro_utente_fallisce() {
    let (trip, _) = start_trip(3, "mario", d(45.07), d(12.29), 0);
    let e = end_trip(Some(trip.clone()), 3, "luigi", 1).unwrap_err();
    assert_eq!(e, "viaggio inesistente, non tuo o già chiuso");
    assert!(end_trip(Some(trip), 4, "mario", 1).is_err());
    assert!(end_trip(None, 3, "mario", 1).is_err());
}

#[test]
fn statistiche_usano_stopped_e_distanza() {
    let points = vec![
        sample(1, 0, 45.000, false),
        sample(1, 60, 45.000, true),
        sample(1, 120, 45.001, false),
        sample(1, 180, 45.002, false),
    ];
    let stats = stats("mario", 0, 180, &points);
    assert_eq!(stats.points, 4);
    assert_eq!(stats.pause_secs, 60);
    assert_eq!(stats.movement_secs, 120);
    assert_eq!(stats.total_secs, 180);
    assert!(f(stats.distance_m) > 200.0 && f(stats.distance_m) < 230.0);
    assert!(f(stats.avg_speed_kmh) > 6.0 && f(stats.avg_speed_kmh) < 7.0);
}

#[test]
fn statistics_leave_gaps_and_other_trips_out() {
    let points = vec![
        sample(1, 0, 45.000, false),
        sample(1, 90, 45.001, false),
        sample(1, 181, 45.002, false),
        sample(1, 181, 45.003, false),
        sample(1, 180, 45.004, false),
        sample(2, 200, 45.005, false),
        sample(2, 230, 45.00501, false),
        sample(2, 260, 45.006, true),
    ];
    let ds = distances(&points);
    let t = compute_movement_stats("u", 5, 6, &points, &ds);
    assert_eq!((t.username.as_str(), t.from_ts, t.to_ts, t.points), ("u", 5, 6, 8));
    assert_eq!(t.moving, vec![0]);
    assert_eq!((t.total_secs, t.movement_secs, t.pause_secs), (150, 90, 60));
    let whole = compute_movement_stats("u", 5, 6, &points[..5], &ds[..4]);
    let rest = compute_movement_stats("u", 5, 6, &points[5..], &ds[5..]);
    assert_eq!(whole.total_secs + rest.total_secs, 150);
    assert_eq!(whole.movement_secs + rest.movement_secs, 90);
    let none = compute_movement_stats("u", 0, 0, &[], &[]);
    assert_eq!((none.total_secs, none.points, speed_divisor(&none)), (0, 0, None));
}

#[test]
fn trajectories_that_do_not_fit_are_seen() {
    assert!(trajectory_fits(&[]));
    assert!(trajectory_fits(&[sample(1, 0, 1.0, false), sample(1, i64::MAX, 1.0, false)]));
    assert!(!trajectory_fits(&[sample(1, -1, 1.0, false), sample(1, i64::MAX, 1.0, false)]));
    assert!(trajectory_fits(&[sample(1, -2, 1.0, false), sample(2, i64::MAX, 1.0, false)]));
}

#[test]
fn trajectory_is_the_interval_in_order() {
    let rows = vec![
        sample(2, 50, 1.0, false),
        sample(1, 70, 2.0, false),
        sample(1, 10, 3.0, false),
        sample(2, 20, 4.0, true),
        sample(1, 70, 5.0, false),
        sample(1, 9, 6.0, false),
        sample(1, 71, 7.0, false),
    ];
    let points = trajectory_for_user(&rows, 10, 70).unwrap();
    let lats: Vec<f64> = points.iter().map(|p| f(p.lat)).collect();
    assert_eq!(lats, vec![3.0, 2.0, 5.0, 4.0, 1.0]);
    assert_eq!(trajectory_for_user(&rows, 5, 4).unwrap_err(), "intervallo temporale non valido");
    assert!(trajectory_for_user(&rows, 4, 4).unwrap().is_empty());
}

#[test]
fn credentials_errors() {
    let hash = save_register(&register("mario", "secret")).unwrap().password_hash;
    assert_eq!(hash.len(), 60);
    assert!(hash.starts_with("$2b$10$"));
    let e = check_credentials(&Message::Ack, Some(&hash)).unwrap_err();
    assert_eq!(e.explain(), "messaggio non valido");
    let e = check_credentials(&login("mario", "secret"), None).unwrap_err();
    assert_eq!(e.explain(), "utente non trovato");
    let e = check_credentials(&login("mario", "Secret"), Some(&hash)).unwrap_err();
    assert_eq!(e.explain(), "credenziali non valide");
    let e = check_credentials(&login("mario", "secret"), Some("not a hash")).unwrap_err();
    assert!(matches!(e, AuthError::WrongPassword));
    assert!(check_credentials(&register("mario", "secret"), Some(&hash)).is_ok());
    let e = save_register(&login("mario", "secret")).unwrap_err();
    assert_eq!(e.explain(), "save_register: non è una variante Register");
    assert_eq!(
        credentials_of(&login("a", "b")).unwrap(),
        ("a".to_string(), "b".to_string())
    );
    let e = new_user("a", Err("no salt".into())).unwrap_err();
    assert_eq!(e.explain(), "no salt");
    assert_eq!(new_user("a", Ok("h".into())).unwrap().password_hash, "h");
    let e = registration_verdict(StoreOutcome::Failed("disk".into())).unwrap_err();
    assert_eq!(e.explain(), "disk");
    assert!(login_verdict(Some(true)).is_ok());
    assert!(matches!(login_verdict(Some(false)), Err(AuthError::WrongPassword)));
}

#[test]
fn a_known_hash_is_recognised() {
    let hash = "$2a$04$UuTkLRZZ6QofpDOlMz32MuuxEHA43WOemOYHPz6.SjsVsyO1tDU96";
    assert!(check_credentials(&login("x", "password"), Some(hash)).is_ok());
    assert!(check_credentials(&login("x", "passwore"), Some(hash)).is_err());
}

#[test]
fn one_session_per_user() {
    let mut s = AuthStore::new();
    assert!(!is_logged_in(&s, "mario"));
    assert!(try_insert_token(&mut s, "mario", "t1").is_ok());
    let e = try_insert_token(&mut s, "mario", "t2").unwrap_err();
    assert_eq!(e, "utente già loggato da altra sessione");
    assert_eq!(get_user_by_token(&s, "t1"), Some("mario".to_string()));
    assert_eq!(get_user_by_token(&s, "t2"), None);
    assert!(try_insert_token(&mut s, "luigi", "t3").is_ok());
    insert_token(&mut s, "mario", "t4");
    assert_eq!(get_user_by_token(&s, "t1"), None);
    assert_eq!(get_user_by_token(&s, "t4"), Some("mario".to_string()));
    assert_eq!(get_user_by_token(&s, "t3"), Some("luigi".to_string()));
    assert_eq!(invalidate_user_sessions(&mut s, "mario"), 1);
    assert_eq!(invalidate_user_sessions(&mut s, "mario"), 0);
    assert!(!is_logged_in(&s, "mario") && is_logged_in(&s, "luigi"));
    invalidate_token(&mut s, "absent");
    invalidate_token(&mut s, "t3");
    assert!(!is_logged_in(&s, "luigi"));
    insert_token(&mut s, "peach", "t5");
    clear_sessions(&mut s);
    assert!(!is_logged_in(&s, "peach"));
    assert!(!is_logged_in(&AuthStore::default(), "peach"));
}

#[test]
fn tokens_are_good_on_their_own_connection_only() {
    let mut s = AuthStore::new();
    insert_token(&mut s, "mario", "t");
    let mario = Some("mario".to_string());
    assert_eq!(validate_token(&s, "t", &mario), mario);
    assert_eq!(validate_token(&s, "t", &Some("luigi".to_string())), None);
    assert_eq!(validate_token(&s, "t", &None), None);
    assert_eq!(validate_token(&s, "u", &mario), None);
}

#[test]
fn name_maps_map() {
    let mut m: NameMap<u64> = NameMap::new();
    m.insert("a", 1);
    m.insert("b", 2);
    m.insert("a", 3);
    assert_eq!((m.get("a"), m.get("b"), m.get("c")), (Some(&3), Some(&2), None));
    let mut names = m.names();
    names.sort();
    assert_eq!(names, vec!["a", "b"]);
    m.remove("a");
    m.remove("c");
    assert!(!m.contains("a") && m.contains("b"));
    m.clear();
    assert!(m.names().is_empty());
}

#[test]
fn a_stop_is_recorded_once() {
    let mut c = CoordState { lat: d(45.0), lon: d(7.0), n: 1, inserted: false };
    for k in 1..12u32 {
        let (next, action, transition) = take_sample(c, d(45.1), d(7.1), d(4.9));
        if k < STOP_THRESHOLD_SAMPLES {
            assert_eq!(action, InsertAction::Insert { stopped: false });
            assert_eq!(transition, StatusTransition::Unchanged);
        } else if k == STOP_THRESHOLD_SAMPLES {
            assert_eq!(action, InsertAction::Insert { stopped: true });
            assert_eq!(transition, StatusTransition::ToStationary);
        } else {
            assert_eq!(action, InsertAction::Skip);
            assert_eq!(transition, StatusTransition::Unchanged);
        }
        assert_eq!((next.lat, next.lon), (d(45.0), d(7.0)));
        c = next;
    }
    let (next, action, transition) = take_sample(c, d(45.1), d(7.1), d(5.1));
    assert_eq!(next, CoordState { lat: d(45.1), lon: d(7.1), n: 1, inserted: false });
    assert_eq!(action, InsertAction::Insert { stopped: false });
    assert_eq!(transition, StatusTransition::ToMoving);
}

#[test]
fn five_metres_are_one_place() {
    for (x, same) in [
        (0.0, true),
        (-0.0, true),
        (5.0, true),
        (5.000000000000001, false),
        (f64::INFINITY, false),
        (f64::NAN, false),
    ] {
        assert_eq!(coords_equal(d(x)), same, "{x}");
    }
}

#[test]
fn trips_come_and_go() {
    let mut trips = TripsStore::default();
    let mut status: NameMap<UserStatus> = NameMap::new();
    let (lat, lon) = (d(45.0), d(7.0));
    let e = initialize_trips(&mut trips, &mut status, "mario", lat, lon, Err("x".into()));
    assert_eq!(e, Err("Failed to start trip: x".to_string()));
    assert!(status.get("mario").is_none());
    assert_eq!(initialize_trips(&mut trips, &mut status, "mario", lat, lon, Ok(8)), Ok(8));
    assert!(is_tracked(&trips, 8));
    assert_eq!(status.get("mario"), Some(&UserStatus::Stationary));
    let r = update_trip(&mut trips, 8, d(46.0), lon, d(1000.0));
    assert_eq!(r, Ok((InsertAction::Insert { stopped: false }, StatusTransition::ToMoving)));
    assert_eq!(trips.last_seen(8).unwrap().lat, d(46.0));
    apply_transition(&mut status, "mario", StatusTransition::ToMoving);
    assert_eq!(status.get("mario"), Some(&UserStatus::Moving));
    apply_transition(&mut status, "mario", StatusTransition::Unchanged);
    assert_eq!(status.get("mario"), Some(&UserStatus::Moving));
    apply_transition(&mut status, "mario", StatusTransition::ToStationary);
    assert_eq!(status.get("mario"), Some(&UserStatus::Stationary));
    let e = update_trip(&mut trips, -9, lat, lon, d(0.0)).unwrap_err();
    assert_eq!(e, "Trip ID -9 not found in store");
    let e = terminate_trip(&mut trips, 8, Err("y".into())).unwrap_err();
    assert_eq!(e, "Failed to end trip: y");
    assert!(is_tracked(&trips, 8));
    assert!(terminate_trip(&mut trips, 8, Ok(())).is_ok());
    assert!(!is_tracked(&trips, 8));
    drop_trip(&mut trips, 8);
}

#[test]
fn open_trips_are_listed() {
    let row = |id: i64, u: &str, ended_at: Option<i64>| TripRecord {
        id,
        username: u.into(),
        started_at: 1,
        ended_at,
    };
    let rows = vec![
        row(1, "a", None),
        row(2, "b", None),
        row(3, "a", Some(9)),
        row(4, "a", None),
    ];
    assert_eq!(open_trip_ids_for(&rows, "a"), vec![1, 4]);
    assert_eq!(open_trip_ids_for(&rows, "c"), Vec::<i64>::new());
}

#[test]
fn doubles_compare_as_numbers() {
    let xs = [
        f64::NEG_INFINITY,
        -1e300,
        -90.0,
        -1.0,
        -5e-324,
        -0.0,
        0.0,
        5e-324,
        f64::MIN_POSITIVE,
        1.0,
        1.0000000000000002,
        5.0,
        90.0,
        f64::MAX,
        f64::INFINITY,
        f64::NAN,
    ];
    for a in xs {
        for b in xs {
            assert_eq!(d(a).less_than(d(b)), a < b, "{a} {b}");
            assert_eq!(d(a).at_most(d(b)), a <= b, "{a} {b}");
        }
        assert_eq!(negated(d(a)).bits, (-a).to_bits());
        assert_eq!(number(a.to_bits()), d(a));
    }
}

#[test]
fn the_globe_has_edges() {
    for (lat, lon) in [(0.0, 0.0), (90.0, 180.0), (-90.0, -180.0), (45.07, 7.69), (-0.0, 1e-9)] {
        assert!(is_on_globe(d(lat), d(lon)));
    }
    for (lat, lon) in [
        (90.00000000000001, 0.0),
        (-91.0, 0.0),
        (0.0, 180.00000000000003),
        (0.0, -181.0),
        (f64::NAN, 0.0),
        (0.0, f64::NAN),
        (f64::INFINITY, 0.0),
        (0.0, f64::NEG_INFINITY),
    ] {
        assert!(!is_on_globe(d(lat), d(lon)));
    }
}

#[test]
fn white_space_is_that_of_unicode() {
    for n in 0..=0x10ffffu32 {
        if let Some(c) = char::from_u32(n) {
            assert_eq!(is_white_space(c), c.is_whitespace(), "{n:x}");
        }
    }
}

#[test]
fn text_is_trimmed_and_rendered() {
    for s in ["", " ", "a", "  a b\u{3000}\n", "\u{85}è già\t", "\u{200b}x "] {
        assert_eq!(trim(s), s.trim());
        assert_eq!(find_white(s).is_some(), s.contains(char::is_whitespace));
    }
    assert_eq!(find_white("èà x"), Some(2));
    for n in [0, 7, 10, 99, 100, 1_000_000_007, u64::MAX] {
        assert_eq!(unsigned_text(n), n.to_string());
        assert_eq!(padded_text(n), format!("{n:02}"));
    }
    for n in [0, -1, 42, i64::MIN, i64::MAX] {
        assert_eq!(signed_text(n), n.to_string());
    }
    assert_eq!(join("già ", "è"), "già è");
    assert!(same_text("è", "è") && !same_text("e", "è"));
}

#[test]
fn operator_lines() {
    let mut hub = Hub::new();
    let a = admin_line(&hub, " \t ");
    assert!(matches!(a, AdminAction::Nothing));
    assert_eq!(announce(&a), None);
    let a = admin_line(&hub, " /list ");
    assert_eq!(announce(&a), Some("(nessun utente connesso)".to_string()));
    hub.online.insert("mario", 5);
    let a = admin_line(&hub, "/list");
    assert_eq!(announce(&a), None);
    assert!(matches!(a, AdminAction::List(names) if names == vec!["mario"]));
    assert_eq!(announce(&admin_line(&hub, "@mario")), Some("usa: @user testo".to_string()));
    assert_eq!(announce(&admin_line(&hub, "@")), Some("usa: @user testo".to_string()));
    let a = admin_line(&hub, "@luigi ciao");
    assert_eq!(announce(&a), Some("utente 'luigi' non connesso".to_string()));
    let a = admin_line(&hub, "@ ciao");
    assert_eq!(announce(&a), Some("utente '' non connesso".to_string()));
    match admin_line(&hub, "  @mario \u{3000} ciao a te ") {
        AdminAction::Deliver { connection, user, message } => {
            assert_eq!((connection, user.as_str()), (5, "mario"));
            match message {
                Message::ChatFromServer { from, text } => {
                    assert_eq!(from, Some("SERVER".to_string()));
                    assert_eq!(text, "ciao a te");
                }
                other => panic!("{other:?}"),
            }
        }
        other => panic!("{other:?}"),
    }
    let a = admin_line(&hub, " a tutti ");
    assert_eq!(announce(&a), Some("→ broadcast inviato (1 client connessi)".to_string()));
    match a {
        AdminAction::Broadcast { chat, connected } => {
            assert_eq!((chat.from.as_str(), chat.text.as_str()), ("SERVER", "a tutti"));
            assert_eq!(connected, 1);
        }
        other => panic!("{other:?}"),
    }
}

#[test]
fn a_message_without_text_is_empty() {
    // A zero-width space is no white space, so it is a text.
    let hub = Hub::new();
    let a = admin_line(&hub, "@x \u{200b}");
    assert!(matches!(a, AdminAction::NotConnected(u) if u == "x"));
    // The trailing white space goes before the line is split, so a name alone
    // has no text at all.
    assert!(matches!(admin_line(&hub, "@x   "), AdminAction::Usage));
}

#[test]
fn chat_is_relayed_to_others() {
    let chat = ChatBroadcast { from: "SERVER".into(), text: "ciao".into() };
    assert!(relay(&None, &chat).is_none());
    assert!(relay(&Some("SERVER".into()), &chat).is_none());
    match relay(&Some("mario".into()), &chat) {
        Some(Message::ChatFromServer { from, text }) => {
            assert_eq!((from, text), (Some("SERVER".into()), "ciao".into()));
        }
        other => panic!("{other:?}"),
    }
}

#[test]
fn startup_choices() {
    assert_eq!(database_url(None), "sqlite://./georuggine.db");
    assert_eq!(database_url(Some("sqlite::memory:".into())), "sqlite::memory:");
    assert_eq!(setting(None, ADDR_DEFAULT), "127.0.0.1:7878");
    assert_eq!(
        pool_plan("sqlite::memory:"),
        PoolPlan { write_ahead_log: false, max_connections: 1 }
    );
    assert_eq!(
        pool_plan("sqlite://x.db"),
        PoolPlan { write_ahead_log: true, max_connections: 8 }
    );
    assert_eq!(
        [web_base(true, true), web_base(true, false), web_base(false, true), web_base(false, false)],
        ["web", "web", "../web", "web"]
    );
}

#[test]
fn log_lines() {
    let t = time_of_day(1_700_000_000);
    assert_eq!((t.hours, t.minutes, t.seconds), (22, 13, 20));
    assert_eq!(
        log_line(3661, "1.500", "0.250", "0.03", 8),
        "[3661] [01:01:01 UTC]  cpu_totale=1.500s  cpu_intervallo_2min=0.250s  cpu_pct=0.03%  cores=8\n"
    );
}

#[test]
fn what_is_recorded_as_a_stop_counts_as_a_pause() {
    // Six samples in one place, thirty seconds apart; the next one is the stop.
    let mut c = CoordState { lat: d(45.0), lon: d(9.0), n: 1, inserted: false };
    let mut points = vec![sample(1, 30, 45.0, false)];
    for k in 2..=7 {
        let (next, action, _) = take_sample(c, d(45.0), d(9.0), d(0.0));
        match action {
            InsertAction::Insert { stopped } => points.push(sample(1, 30 * k, 45.0, stopped)),
            InsertAction::Skip => panic!("sample {k} was not recorded"),
        }
        c = next;
    }
    assert_eq!(points.iter().filter(|p| p.stopped).count(), 1);
    assert!(points[6].stopped);
    // However far the stop is said to be, the stretch to it is a pause.
    let t = compute_movement_stats("u", 0, 300, &points[5..], &[d(1000.0)]);
    assert_eq!((t.pause_secs, t.movement_secs), (30, 0));
    let whole = stats("u", 0, 300, &points);
    assert_eq!((whole.pause_secs, whole.movement_secs, whole.total_secs), (180, 0, 180));
    assert_eq!(f(whole.avg_speed_mps), 0.0);
}

#[test]
fn joined_trips_keep_their_lengths() {
    let a = [sample(1, 0, 45.000, false), sample(1, 30, 45.001, false), sample(1, 60, 45.002, false)];
    let b = [sample(2, 61, 45.500, false), sample(2, 91, 45.503, false)];
    let both: Vec<PositionRecord> = a.iter().chain(b.iter()).copied().collect();
    let lengths = |points: &[PositionRecord]| -> Vec<Double> {
        let ds = distances(points);
        let t = compute_movement_stats("u", 0, 100, points, &ds);
        t.moving.iter().map(|i| ds[*i]).collect()
    };
    let mut parts = lengths(&a);
    parts.extend(lengths(&b));
    assert_eq!(parts.len(), 3);
    assert_eq!(lengths(&both), parts);
}

#[test]
fn chat_texts_are_limited_in_characters() {
    assert!(validate_chat("", 0).is_ok());
    assert!(validate_chat("più", 3).is_ok());
    assert_eq!(validate_chat("più", 2).unwrap_err(), "messaggio troppo lungo");
}

#[test]
fn deliveries_are_told_to_the_operator() {
    assert_eq!(delivery_notice("mario", &Delivery::Sent), "→ DM a 'mario' inviato");
    assert_eq!(delivery_notice("mario", &Delivery::NotEncoded("x".into())), "encode fallito: x");
    assert_eq!(
        delivery_notice("mario", &Delivery::NotSent("chiuso".into())),
        "invio DM a 'mario' fallito: chiuso"
    );
}
