use pwmp::client::{
    check_ok, is_pong, notification_allowed, parse_response, settings_values, Error,
};
use pwmp::message::Message;
use pwmp::multitype::SettingValue;
use pwmp::request::Request;
use pwmp::response::Response;

#[test]
fn parse_response_errors() {
    let pong = Message::Response(Response::Pong).to_raw();
    assert_eq!(parse_response(&pong), Ok(Response::Pong));

    let req = Message::Request(Request::Ping).to_raw();
    assert_eq!(parse_response(&req), Err(Error::NotResponse));

    assert_eq!(parse_response(&[1, 2, 3]), Err(Error::MessageParse));
}

#[test]
fn acknowledgement_check() {
    assert_eq!(check_ok(&Response::Okay), Ok(()));
    assert_eq!(check_ok(&Response::Reject), Err(Error::Rejected));
    assert_eq!(check_ok(&Response::Pong), Err(Error::NotResponse));
    assert_eq!(
        check_ok(&Response::Settings(vec![])),
        Err(Error::NotResponse)
    );
}

#[test]
fn pong_check() {
    assert!(is_pong(&Response::Pong));
    assert!(!is_pong(&Response::Okay));
    assert!(!is_pong(&Response::Reject));
}

#[test]
fn settings_narrowing() {
    let values = vec![SettingValue::Number(1), SettingValue::Boolean(true)];
    assert_eq!(
        settings_values(Response::Settings(values.clone()), 2),
        Ok(values.clone())
    );
    assert_eq!(
        settings_values(Response::Settings(values), 3),
        Err(Error::MalformedResponse)
    );
    assert_eq!(
        settings_values(Response::Okay, 2),
        Err(Error::UnexpectedVariant)
    );
}

#[test]
fn notification_length_limit() {
    assert!(notification_allowed(""));
    assert!(notification_allowed(&"x".repeat(64)));
    assert!(!notification_allowed(&"x".repeat(65)));
    // The limit is in bytes, not characters.
    assert!(!notification_allowed(&"é".repeat(33)));
}

#[test]
fn authorized_ping_bye_scenario() {
    // The client side of a clean exchange: a ping is answered with a pong,
    // a goodbye ends the session with no further reply expected.
    let ping_frame = Message::Request(Request::Ping).to_raw();
    assert_eq!(
        Message::from_raw(&ping_frame).unwrap().to_request(),
        Some(Request::Ping)
    );
    let pong_frame = Message::Response(Response::Pong).to_raw();
    let reply = parse_response(&pong_frame).unwrap();
    assert!(is_pong(&reply));

    let bye_frame = Message::Request(Request::Bye).to_raw();
    assert_eq!(
        Message::from_raw(&bye_frame).unwrap().to_request(),
        Some(Request::Bye)
    );
}
