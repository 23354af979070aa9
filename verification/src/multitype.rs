//! A tagged union over the data types a node setting value can take.

use vstd::prelude::*;
use crate::decimal::Decimal;

verus! {

/// A type that allows containing multiple data types.
/// Used to represent node setting values.
#[derive(Debug, Clone, PartialEq, Eq, PartialOrd, Ord)]
pub enum SettingValue {
    Number(u16),
    Decimal(Decimal),
    Text(String),
    Boolean(bool),
}

impl SettingValue {
    pub fn as_number(self) -> (r: Option<u16>)
        ensures
            self matches SettingValue::Number(v) ==> r == Some(v),
            self !is Number ==> r is None,
    {
        if let SettingValue::Number(v) = self {
            Some(v)
        } else {
            None
        }
    }

    pub fn as_decimal(self) -> (r: Option<Decimal>)
        ensures
            self matches SettingValue::Decimal(v) ==> r == Some(v),
            self !is Decimal ==> r is None,
    {
        if let SettingValue::Decimal(v) = self {
            Some(v)
        } else {
            None
        }
    }

    pub fn as_text(self) -> (r: Option<String>)
        ensures
            self matches SettingValue::Text(v) ==> r == Some(v),
            self !is Text ==> r is None,
    {
        if let SettingValue::Text(v) = self {
            Some(v)
        } else {
            None
        }
    }

    pub fn as_bool(self) -> (r: Option<bool>)
        ensures
            self matches SettingValue::Boolean(v) ==> r == Some(v),
            self !is Boolean ==> r is None,
    {
        if let SettingValue::Boolean(v) = self {
            Some(v)
        } else {
            None
        }
    }
}

impl From<u16> for SettingValue {
    fn from(value: u16) -> (r: Self) {
        SettingValue::Number(value)
    }
}

impl vstd::std_specs::convert::FromSpecImpl<u16> for SettingValue {
    open spec fn obeys_from_spec() -> bool {
        true
    }

    open spec fn from_spec(value: u16) -> Self {
        SettingValue::Number(value)
    }
}

impl From<Decimal> for SettingValue {
    fn from(value: Decimal) -> (r: Self) {
        SettingValue::Decimal(value)
    }
}

impl vstd::std_specs::convert::FromSpecImpl<Decimal> for SettingValue {
    open spec fn obeys_from_spec() -> bool {
        true
    }

    open spec fn from_spec(value: Decimal) -> Self {
        SettingValue::Decimal(value)
    }
}

impl From<bool> for SettingValue {
    fn from(value: bool) -> (r: Self) {
        SettingValue::Boolean(value)
    }
}

impl vstd::std_specs::convert::FromSpecImpl<bool> for SettingValue {
    open spec fn obeys_from_spec() -> bool {
        true
    }

    open spec fn from_spec(value: bool) -> Self {
        SettingValue::Boolean(value)
    }
}

} // verus!
