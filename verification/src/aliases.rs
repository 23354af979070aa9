//! Type aliases for the measurement values carried in messages.

use vstd::prelude::*;

verus! {

pub type Temperature = crate::decimal::Decimal;

pub type Humidity = u8;

pub type AirPressure = u16;

pub type BatteryVoltage = crate::decimal::Decimal;

pub type MeasurementId = u16;

pub type Rssi = i8;

} // verus!
