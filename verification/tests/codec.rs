use pwmp::decimal::Decimal;
use pwmp::mac::Mac;
use pwmp::message::Message;
use pwmp::multitype::SettingValue;
use pwmp::request::Request;
use pwmp::response::Response;
use pwmp::setting::SettingName;

fn round_trips(m: Message) {
    let raw = m.clone().to_raw();
    assert_eq!(Message::from_raw(&raw), Some(m));
}

#[test]
fn round_trip_every_request_shape() {
    round_trips(Message::Request(Request::Ping));
    round_trips(Message::Request(Request::Bye));
    round_trips(Message::Request(Request::Hello {
        mac: Mac::new(0xAA, 0xBB, 0xCC, 0xDD, 0xEE, 0xFF),
    }));
    round_trips(Message::Request(Request::PostResults {
        temperature: Decimal::new(-3, 7),
        humidity: 255,
        air_pressure: Some(1013),
    }));
    round_trips(Message::Request(Request::PostResults {
        temperature: Decimal::new(21, 50),
        humidity: 0,
        air_pressure: None,
    }));
    round_trips(Message::Request(Request::PostStats {
        battery: Decimal::new(3, 92),
        wifi_ssid: "home network".to_string(),
        wifi_rssi: -68,
    }));
    round_trips(Message::Request(Request::SendNotification(
        "battery low".to_string(),
    )));
    round_trips(Message::Request(Request::GetSettings(vec![
        SettingName::Ota,
        SettingName::SleepTime,
        SettingName::BatteryIgnore,
        SettingName::Sbop,
        SettingName::MuteNotifications,
    ])));
    round_trips(Message::Request(Request::GetSettings(vec![])));
}

#[test]
fn round_trip_every_response_shape() {
    round_trips(Message::Response(Response::Pong));
    round_trips(Message::Response(Response::Okay));
    round_trips(Message::Response(Response::Reject));
    round_trips(Message::Response(Response::Settings(vec![
        SettingValue::Number(30),
        SettingValue::Decimal(Decimal::new(-64, 92)),
        SettingValue::Text("étage ☂".to_string()),
        SettingValue::Boolean(true),
        SettingValue::Boolean(false),
    ])));
    round_trips(Message::Response(Response::Settings(vec![])));
}

#[test]
fn round_trip_unicode_text() {
    round_trips(Message::Request(Request::PostStats {
        battery: Decimal::new(4, 20),
        wifi_ssid: "διαδίκτυο 网络 🚀".to_string(),
        wifi_rssi: -1,
    }));
}

#[test]
fn decode_rejects_corrupt_buffers() {
    assert_eq!(Message::from_raw(&[]), None);
    // Unknown top-level tag.
    assert_eq!(Message::from_raw(&[9]), None);
    // A request frame with an unknown request tag.
    assert_eq!(Message::from_raw(&[1, 99]), None);
    // Truncated: a hello without its six octets.
    assert_eq!(Message::from_raw(&[1, 3, 1, 2, 3]), None);
    // Trailing garbage after a complete message.
    let mut raw = Message::Request(Request::Ping).to_raw();
    raw.push(0);
    assert_eq!(Message::from_raw(&raw), None);
    // A settings response whose length prefix overruns the buffer.
    let raw = Message::Response(Response::Settings(vec![SettingValue::Number(1)])).to_raw();
    assert_eq!(Message::from_raw(&raw[..raw.len() - 1]), None);
}

#[test]
fn message_narrowing() {
    let req = Message::Request(Request::Ping);
    let resp = Message::Response(Response::Pong);

    assert_eq!(req.request(), Some(&Request::Ping));
    assert_eq!(req.response(), None);
    assert_eq!(resp.response(), Some(&Response::Pong));
    assert_eq!(resp.request(), None);
    assert_eq!(req.clone().to_request(), Some(Request::Ping));
    assert_eq!(req.to_response(), None);
    assert_eq!(resp.clone().to_response(), Some(Response::Pong));
    assert_eq!(resp.to_request(), None);
}

#[test]
fn message_size_matches_encoding() {
    let m = Message::Request(Request::SendNotification("hi".to_string()));
    let size = m.size();
    assert_eq!(size, m.to_raw().len());
    // Tag, request tag, 8-byte length, two 3-byte characters.
    assert_eq!(size, 1 + 1 + 8 + 6);
}
