//! Responses: the messages the server sends back to a node.

use vstd::prelude::*;
use crate::multitype::SettingValue;
use crate::decimal::Decimal;

verus! {

/// A response message used by the PWMP server to respond to requests.
#[derive(Debug, Clone, PartialEq, Eq)]
pub enum Response {
    /// A response message to a ping.
    Pong,
    /// Indicates a successfully processed request.
    Okay,
    /// The server has rejected authentication; the node will be
    /// disconnected.
    Reject,
    /// List of setting values, in the same order and of the same length as
    /// the names of the settings request they answer.
    Settings(Vec<SettingValue>),
}

/// The mathematical shape of a setting value.
pub enum SettingValueView {
    Number(u16),
    Decimal(Decimal),
    Text(Seq<char>),
    Boolean(bool),
}

impl View for SettingValue {
    type V = SettingValueView;

    open spec fn view(&self) -> SettingValueView {
        match self {
            SettingValue::Number(v) => SettingValueView::Number(*v),
            SettingValue::Decimal(v) => SettingValueView::Decimal(*v),
            SettingValue::Text(v) => SettingValueView::Text(v@),
            SettingValue::Boolean(v) => SettingValueView::Boolean(*v),
        }
    }
}

/// The mathematical shape of a response.
pub enum ResponseView {
    Pong,
    Okay,
    Reject,
    Settings(Seq<SettingValueView>),
}

impl View for Response {
    type V = ResponseView;

    open spec fn view(&self) -> ResponseView {
        match self {
            Response::Pong => ResponseView::Pong,
            Response::Okay => ResponseView::Okay,
            Response::Reject => ResponseView::Reject,
            Response::Settings(values) => ResponseView::Settings(
                values@.map_values(|v: SettingValue| v@),
            ),
        }
    }
}

} // verus!
