//! The closed set of node setting names, each with its settings-store key
//! and its hard-coded default value.

use vstd::prelude::*;
use crate::multitype::SettingValue;

verus! {

/// A node setting name.
#[derive(Debug, Clone, Copy, PartialEq, Eq, PartialOrd, Ord, Structural)]
pub enum SettingName {
    /// Whether to ignore the battery level.
    BatteryIgnore,
    /// Whether to allow OTA firmware updates.
    Ota,
    /// Time to sleep for after posting measurements.
    SleepTime,
    /// Software-based battery overdischarge protection.
    Sbop,
    /// Whether to mute all notifications.
    MuteNotifications,
}

/// The settings-store key of a setting name.
pub open spec fn name_text(n: SettingName) -> Seq<char> {
    match n {
        SettingName::BatteryIgnore => "battery_ignore"@,
        SettingName::Ota => "ota"@,
        SettingName::SleepTime => "sleep_time"@,
        SettingName::Sbop => "sbop"@,
        SettingName::MuteNotifications => "mute_notifications"@,
    }
}

/// The hard-coded default value of a setting name, substituted when the
/// settings store holds no value for it.
pub open spec fn default_value_of(n: SettingName) -> SettingValue {
    match n {
        SettingName::BatteryIgnore => SettingValue::Boolean(false),
        SettingName::Ota => SettingValue::Boolean(false),
        SettingName::SleepTime => SettingValue::Number(60),
        SettingName::Sbop => SettingValue::Boolean(true),
        SettingName::MuteNotifications => SettingValue::Boolean(false),
    }
}

impl SettingName {
    /// Convert the setting to its string representation.
    pub fn name(self) -> (r: &'static str)
        ensures
            r@ == name_text(self),
    {
        match self {
            SettingName::BatteryIgnore => "battery_ignore",
            SettingName::Ota => "ota",
            SettingName::SleepTime => "sleep_time",
            SettingName::Sbop => "sbop",
            SettingName::MuteNotifications => "mute_notifications",
        }
    }

    /// Returns the default value for the setting.
    pub fn default_value(self) -> (r: SettingValue)
        ensures
            r == default_value_of(self),
    {
        match self {
            SettingName::BatteryIgnore => SettingValue::Boolean(false),
            SettingName::Ota => SettingValue::Boolean(false),
            SettingName::SleepTime => SettingValue::Number(60),
            SettingName::Sbop => SettingValue::Boolean(true),
            SettingName::MuteNotifications => SettingValue::Boolean(false),
        }
    }
}

} // verus!
