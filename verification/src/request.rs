//! Requests: the messages a node sends to ask the server to perform an
//! operation.

use vstd::prelude::*;
use crate::aliases::{AirPressure, BatteryVoltage, Humidity, Rssi, Temperature};
use crate::mac::Mac;
use crate::setting::SettingName;

verus! {

/// A request message used by nodes to ask the PWMP server to perform an
/// operation.
#[derive(Debug, Clone, PartialEq, Eq)]
pub enum Request {
    /// Used to check if the server is alive.
    Ping,
    /// Tell the server that the session is over and the node will
    /// disconnect.
    Bye,
    /// Ask the server to authorize the node using its MAC address.
    Hello { mac: Mac },
    /// Post measurement results to the database.
    PostResults { temperature: Temperature, humidity: Humidity, air_pressure: Option<AirPressure> },
    /// Post node statistics to the database.
    PostStats { battery: BatteryVoltage, wifi_ssid: String, wifi_rssi: Rssi },
    /// Store a notification in the database; these can be read by other
    /// applications.
    SendNotification(String),
    /// Retrieve the node's settings from the database, in request order.
    GetSettings(Vec<SettingName>),
}

/// The mathematical shape of a request: strings as character sequences,
/// lists as sequences.
pub enum RequestView {
    Ping,
    Bye,
    Hello { mac: Mac },
    PostResults { temperature: Temperature, humidity: Humidity, air_pressure: Option<AirPressure> },
    PostStats { battery: BatteryVoltage, wifi_ssid: Seq<char>, wifi_rssi: Rssi },
    SendNotification(Seq<char>),
    GetSettings(Seq<SettingName>),
}

impl View for Request {
    type V = RequestView;

    open spec fn view(&self) -> RequestView {
        match self {
            Request::Ping => RequestView::Ping,
            Request::Bye => RequestView::Bye,
            Request::Hello { mac } => RequestView::Hello { mac: *mac },
            Request::PostResults { temperature, humidity, air_pressure } => {
                RequestView::PostResults {
                    temperature: *temperature,
                    humidity: *humidity,
                    air_pressure: *air_pressure,
                }
            },
            Request::PostStats { battery, wifi_ssid, wifi_rssi } => {
                RequestView::PostStats {
                    battery: *battery,
                    wifi_ssid: wifi_ssid@,
                    wifi_rssi: *wifi_rssi,
                }
            },
            Request::SendNotification(text) => RequestView::SendNotification(text@),
            Request::GetSettings(names) => RequestView::GetSettings(names@),
        }
    }
}

} // verus!
