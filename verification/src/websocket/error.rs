//! Errors of the WebSocket side.

use vstd::prelude::*;

verus! {

/// What went wrong with a WebSocket connection or a subscription.
#[derive(Debug)]
pub enum WsError {
    Ws(String),
    Connection(String),
    MessageSendFailed(String),
    MessageReceptionFailed(String),
    ReceiverLagged(),
    ChannelClosed(),
    InvalidData(String),
    NoIdInResponse(String),
    FailedParsing(),
    MissingSubscription(),
    EmptyList(String),
    NoWsResponse,
}

/// `prefix` followed by `detail`.
fn prefixed(prefix: &str, detail: &str) -> (r: String)
    ensures
        r@ == prefix@ + detail@,
{
    let mut out = prefix.to_string();
    out.append(detail);
    out
}

impl WsError {
    /// The message of the error (its `Display` text).
    pub fn message(&self) -> (r: String)
        ensures
            r@ == match self {
                WsError::Ws(m) => "Error in WS: "@ + m@,
                WsError::Connection(m) => "Connection Error: "@ + m@,
                WsError::MessageSendFailed(m) => "Message Sending Internal Message Failed: "@ + m@,
                WsError::MessageReceptionFailed(m) => "Error While Receiving Internal Message: "@ + m@,
                WsError::ReceiverLagged() => "Receiver Lagged!"@,
                WsError::ChannelClosed() => "Channel Closed!"@,
                WsError::InvalidData(m) => "Invalid Data: "@ + m@,
                WsError::NoIdInResponse(m) => "No ID in response: "@ + m@,
                WsError::FailedParsing() => "Failed to Parse Input Data!"@,
                WsError::MissingSubscription() => "Tried to Perform Action On Non-Existing Subscription!"@,
                WsError::EmptyList(m) => "Tried to Access Empty List: "@ + m@,
                WsError::NoWsResponse => "Failed to Receive Response from WS"@,
            },
    {
        match self {
            WsError::Ws(m) => prefixed("Error in WS: ", m.as_str()),
            WsError::Connection(m) => prefixed("Connection Error: ", m.as_str()),
            WsError::MessageSendFailed(m) => prefixed("Message Sending Internal Message Failed: ", m.as_str()),
            WsError::MessageReceptionFailed(m) => prefixed("Error While Receiving Internal Message: ", m.as_str()),
            WsError::ReceiverLagged() => "Receiver Lagged!".to_string(),
            WsError::ChannelClosed() => "Channel Closed!".to_string(),
            WsError::InvalidData(m) => prefixed("Invalid Data: ", m.as_str()),
            WsError::NoIdInResponse(m) => prefixed("No ID in response: ", m.as_str()),
            WsError::FailedParsing() => "Failed to Parse Input Data!".to_string(),
            WsError::MissingSubscription() => "Tried to Perform Action On Non-Existing Subscription!".to_string(),
            WsError::EmptyList(m) => prefixed("Tried to Access Empty List: ", m.as_str()),
            WsError::NoWsResponse => "Failed to Receive Response from WS".to_string(),
        }
    }
}

} // verus!
