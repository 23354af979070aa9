use pwmp::admission::{admission_decision, Admission};
use pwmp::config::{Config, LimitsConfig, RateLimitConfig};
use pwmp::decimal::Decimal;
use pwmp::error::Error;
use pwmp::mac::Mac;
use pwmp::message::Message;
use pwmp::multitype::SettingValue;
use pwmp::rate_limit::RateLimiter;
use pwmp::request::Request;
use pwmp::response::Response;
use pwmp::session::{
    apply_answer, complete_authorization, dispatch_request, greeting_mac, parse_request,
    serve_event, settings_response, AuthOutcome, DbAnswer, DbQuery, Dispatch, ServeStep, Session,
};
use pwmp::setting::SettingName;

#[test]
fn rate_limiter_window() {
    // One-second window, at most four hits.
    let mut limiter = RateLimiter::new(1, 4, 0);
    for _ in 0..4 {
        assert!(!limiter.hit(0), "hits within the limit are not limited");
    }
    assert!(limiter.hit(0), "the fifth hit in the window is limited");
    // After the window elapses, the next hit is admitted and counts as the
    // first of the new window.
    assert!(!limiter.hit(1));
    assert_eq!(limiter.current_hits(), 1);
}

#[test]
fn rate_limiter_partial_window_keeps_counting() {
    // Ten-tick window: hits at distinct instants inside one window still
    // accumulate.
    let mut limiter = RateLimiter::new(10, 2, 100);
    assert!(!limiter.hit(101));
    assert!(!limiter.hit(105));
    assert!(limiter.hit(109));
    assert!(!limiter.hit(110));
}

#[test]
fn greeting_accepts_only_hello() {
    let mac = Mac::new(0xAA, 0xBB, 0xCC, 0xDD, 0xEE, 0xFF);
    let hello = Message::Request(Request::Hello { mac: mac.clone() }).to_raw();
    assert_eq!(greeting_mac(&hello), Ok(mac));

    let ping = Message::Request(Request::Ping).to_raw();
    assert_eq!(greeting_mac(&ping), Err(Error::NotHello));

    let pong = Message::Response(Response::Pong).to_raw();
    assert_eq!(greeting_mac(&pong), Err(Error::NotRequest));

    assert_eq!(greeting_mac(&[0xFF, 0x01]), Err(Error::MessageParse));
}

#[test]
fn parse_request_errors() {
    let bye = Message::Request(Request::Bye).to_raw();
    assert_eq!(parse_request(&bye), Ok(Request::Bye));

    let resp = Message::Response(Response::Okay).to_raw();
    assert_eq!(parse_request(&resp), Err(Error::NotRequest));

    assert_eq!(parse_request(&[]), Err(Error::MessageParse));
}

#[test]
fn authorization_outcomes() {
    let mut s = Session::new();
    assert!(matches!(
        complete_authorization(&mut s, Some(7), false),
        AuthOutcome::Accept(7)
    ));
    assert_eq!(s.id(), 7);

    // An unauthorized device is told `Reject` unless the configuration
    // kicks it silently; the session stays unauthorized either way.
    let mut s2 = Session::new();
    assert!(matches!(
        complete_authorization(&mut s2, None, false),
        AuthOutcome::RejectReply
    ));
    let mut s3 = Session::new();
    assert!(matches!(
        complete_authorization(&mut s3, None, true),
        AuthOutcome::RejectSilent
    ));
}

fn authorized_session() -> Session {
    let mut s = Session::new();
    s.set_mac(Mac::new(1, 2, 3, 4, 5, 6));
    complete_authorization(&mut s, Some(3), false);
    s
}

#[test]
fn ping_pong_and_goodbye() {
    let s = authorized_session();
    assert!(matches!(
        dispatch_request(&s, Request::Ping),
        Dispatch::Reply(Response::Pong)
    ));
    assert!(matches!(
        dispatch_request(&s, Request::Bye),
        Dispatch::Goodbye
    ));
}

#[test]
fn second_hello_is_invalid() {
    let s = authorized_session();
    let again = Request::Hello {
        mac: Mac::new(1, 2, 3, 4, 5, 6),
    };
    assert!(matches!(dispatch_request(&s, again), Dispatch::Invalid));
}

#[test]
fn stats_before_results_is_invalid() {
    let mut s = authorized_session();
    let stats = Request::PostStats {
        battery: Decimal::new(3, 92),
        wifi_ssid: "net".to_string(),
        wifi_rssi: -60,
    };
    // Before any measurement: refused, never `Okay`.
    assert!(matches!(
        dispatch_request(&s, stats.clone()),
        Dispatch::Invalid
    ));

    // Accept one measurement.
    let post = Request::PostResults {
        temperature: Decimal::new(21, 5),
        humidity: 40,
        air_pressure: None,
    };
    let q = match dispatch_request(&s, post.clone()) {
        Dispatch::Query(q) => q,
        _ => panic!("a first measurement post must reach the collaborator"),
    };
    assert!(matches!(q, DbQuery::PostResults { node: 3, .. }));
    let reply = apply_answer(&mut s, &q, &DbAnswer::MeasurementId(11));
    assert_eq!(reply, Response::Okay);

    // Now stats are attached to the stored measurement.
    match dispatch_request(&s, stats) {
        Dispatch::Query(DbQuery::PostStats {
            measurement,
            wifi_rssi,
            ..
        }) => {
            assert_eq!(measurement, 11);
            assert_eq!(wifi_rssi, -60);
        }
        _ => panic!("stats after a measurement must reach the collaborator"),
    }

    // A second measurement post in the same session is refused.
    assert!(matches!(dispatch_request(&s, post), Dispatch::Invalid));
}

#[test]
fn notification_reaches_collaborator() {
    let s = authorized_session();
    match dispatch_request(&s, Request::SendNotification("low battery".to_string())) {
        Dispatch::Query(DbQuery::CreateNotification { node, message }) => {
            assert_eq!(node, 3);
            assert_eq!(message, "low battery".to_string());
        }
        _ => panic!("notifications must reach the collaborator"),
    }
}

#[test]
fn get_settings_substitutes_defaults() {
    // A store with `Ota` unset and `SleepTime` = 30.
    let names = vec![SettingName::Ota, SettingName::SleepTime];
    let stored = vec![None, Some(SettingValue::Number(30))];
    let reply = settings_response(&names, &stored);
    assert_eq!(
        reply,
        Response::Settings(vec![
            SettingValue::Boolean(false),
            SettingValue::Number(30),
        ])
    );
}

#[test]
fn get_settings_preserves_order_and_length() {
    let mut s = authorized_session();
    let names = vec![
        SettingName::SleepTime,
        SettingName::Sbop,
        SettingName::MuteNotifications,
    ];
    let q = match dispatch_request(&s, Request::GetSettings(names)) {
        Dispatch::Query(q) => q,
        _ => panic!("settings requests must reach the collaborator"),
    };
    let stored = vec![Some(SettingValue::Number(120)), None, None];
    match apply_answer(&mut s, &q, &DbAnswer::Values(stored)) {
        Response::Settings(values) => {
            assert_eq!(
                values,
                vec![
                    SettingValue::Number(120),
                    SettingValue::Boolean(true),
                    SettingValue::Boolean(false),
                ]
            );
        }
        _ => panic!("a settings request is answered with a settings list"),
    }
}

#[test]
fn serve_step_outcomes() {
    let s = authorized_session();
    let mut limiter = RateLimiter::new(1, 4, 0);

    // A ping is answered with a pong.
    let ping = Message::Request(Request::Ping).to_raw();
    assert!(matches!(
        serve_event(&s, &mut limiter, 0, &ping),
        ServeStep::Dispatched(Dispatch::Reply(Response::Pong))
    ));

    // Undecodable bytes fail the session before counting against the
    // window.
    assert!(matches!(
        serve_event(&s, &mut limiter, 0, &[0xFF]),
        ServeStep::Failed(Error::MessageParse)
    ));
    assert_eq!(limiter.current_hits(), 1);

    // A goodbye closes cleanly.
    let bye = Message::Request(Request::Bye).to_raw();
    assert!(matches!(
        serve_event(&s, &mut limiter, 0, &bye),
        ServeStep::CleanClose
    ));

    // Stats without a measurement terminate with an invalid dispatch.
    let stats = Message::Request(Request::PostStats {
        battery: Decimal::new(3, 92),
        wifi_ssid: "net".to_string(),
        wifi_rssi: -60,
    })
    .to_raw();
    assert!(matches!(
        serve_event(&s, &mut limiter, 0, &stats),
        ServeStep::Dispatched(Dispatch::Invalid)
    ));

    // The fifth counted request in the window is limited.
    assert!(matches!(
        serve_event(&s, &mut limiter, 0, &ping),
        ServeStep::Dispatched(Dispatch::Reply(Response::Pong))
    ));
    assert!(matches!(
        serve_event(&s, &mut limiter, 0, &ping),
        ServeStep::Limited
    ));
    // A new window serves again.
    assert!(matches!(
        serve_event(&s, &mut limiter, 1, &ping),
        ServeStep::Dispatched(Dispatch::Reply(Response::Pong))
    ));
}

#[test]
fn unauthorized_hello_scenario() {
    // A node greets with its MAC; the collaborator does not know it and the
    // configuration does not kick silently: the node is told `Reject` and
    // the session never gets an id.
    let mac = Mac::new(0xAA, 0xBB, 0xCC, 0xDD, 0xEE, 0xFF);
    let hello = Message::Request(Request::Hello { mac: mac.clone() }).to_raw();
    let mut s = Session::new();
    let got = greeting_mac(&hello).unwrap();
    assert_eq!(got, mac);
    s.set_mac(got);
    let outcome = complete_authorization(&mut s, None, false);
    assert!(matches!(outcome, AuthOutcome::RejectReply));
    let reject_frame = Message::Response(Response::Reject).to_raw();
    assert_eq!(
        Message::from_raw(&reject_frame),
        Some(Message::Response(Response::Reject))
    );
}

#[test]
fn admission_full_drops_before_handshake() {
    // With at most one concurrent session and one live, a second attempt is
    // dropped without consulting the limiter.
    let mut limiter = RateLimiter::new(1, 4, 0);
    assert_eq!(admission_decision(1, 1, &mut limiter, 0), Admission::Full);
    assert_eq!(limiter.current_hits(), 0);
    // With a free slot the attempt is admitted and counted.
    assert_eq!(admission_decision(0, 1, &mut limiter, 0), Admission::Accept);
    assert_eq!(limiter.current_hits(), 1);
}

#[test]
fn admission_rate_limit() {
    let mut limiter = RateLimiter::new(1, 1, 0);
    assert_eq!(admission_decision(0, 4, &mut limiter, 0), Admission::Accept);
    assert_eq!(
        admission_decision(0, 4, &mut limiter, 0),
        Admission::RateLimited
    );
    // A fresh window admits again.
    assert_eq!(admission_decision(0, 4, &mut limiter, 1), Admission::Accept);
}

#[test]
fn error_descriptions() {
    assert_eq!(Error::MessageParse.describe(), "Failed to parse message");
    assert_eq!(Error::NotHello.describe(), "Expected a `Hello` request");
    assert_eq!(
        Error::BadRequest.describe(),
        "Malformed or unprocessable request"
    );
    assert_eq!(Error::Quit.describe(), "Connection closed unexpectedly");
}

#[test]
fn config_defaults() {
    let config = Config::default();
    assert_eq!(config.server.host, "0.0.0.0".to_string());
    assert_eq!(config.server.port, 55300);
    let limits = LimitsConfig::default();
    assert_eq!(limits.max_devices, 10);
    assert_eq!(limits.max_settings, 10);
    let rates = RateLimitConfig::default();
    assert_eq!(rates.time_frame, 1);
    assert_eq!(rates.max_requests, 4);
    assert_eq!(rates.max_connections, 4);
    assert!(!config.kick_unauthorized_devices);
}

#[test]
fn setting_names_and_defaults() {
    assert_eq!(SettingName::BatteryIgnore.name(), "battery_ignore");
    assert_eq!(SettingName::Ota.name(), "ota");
    assert_eq!(SettingName::SleepTime.name(), "sleep_time");
    assert_eq!(SettingName::Sbop.name(), "sbop");
    assert_eq!(SettingName::MuteNotifications.name(), "mute_notifications");

    assert_eq!(
        SettingName::SleepTime.default_value(),
        SettingValue::Number(60)
    );
    assert_eq!(
        SettingName::Sbop.default_value(),
        SettingValue::Boolean(true)
    );
    assert_eq!(
        SettingName::Ota.default_value(),
        SettingValue::Boolean(false)
    );
}
