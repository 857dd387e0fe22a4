//! The messages of the account and market-data streaming sessions.
use vstd::prelude::*;

verus! {

/// The account stream's keep-alive.
pub struct AccHeartbeat {
    pub action: String,
    pub auth_token: String,
}

/// A reply on the account stream.
pub struct Response {
    pub status: String,
    pub action: String,
    pub websocket_session_id: String,
    pub value: Option<Vec<String>>,
    pub request_id: u8,
}

/// The request that opens the account stream.
pub struct ConnectAccounts {
    pub action: String,
    pub account_ids: Vec<String>,
    pub auth_token: String,
}

/// A raw account-stream notification.
pub struct Payload {
    pub msg_type: String,
    pub data: String,
    pub timestamp: u32,
}

/// The type and channel of a market-data message.
pub struct Header {
    pub msg_type: String,
    pub channel: u64,
}

/// A request for a feed channel.
pub struct ChannelRequest {
    pub msg: Header,
    pub service: String,
    pub parameters: Parameters,
}

/// Subscribes to market-data events.
pub struct FeedSubscription {
    pub msg: Header,
    pub add: Vec<AddItem>,
}

/// A channel request as a client writes it.
pub struct ClientChannelRequest {
    pub msg_type: String,
    pub service: String,
    pub parameters: Parameters,
}

/// A feed subscription as a client writes it.
pub struct ClientFeedSubscription {
    pub msg: Header,
    pub add: Vec<AddItem>,
}

/// The parameters of a channel request.
pub struct Parameters {
    pub contract: String,
}

/// One subscription: a symbol and an event type.
pub struct AddItem {
    pub symbol: String,
    pub msg_type: String,
}

/// The feed's setup request.
pub struct FeedSetup {
    pub msg: Header,
    pub accept_aggregation_period: Option<i64>,
    pub accept_data_format: Option<String>,
    pub accept_event_fields: Option<AcceptEventFields>,
}

/// The event fields a feed setup accepts.
pub struct AcceptEventFields {
    pub quote: Option<Vec<String>>,
    pub candle: Option<Vec<String>>,
}

/// The request that opens the market-data stream.
pub struct ConnectMktData {
    pub msg: Header,
    pub keepalive_timeout: u64,
    pub accept_keepalive_timeout: u64,
    pub version: String,
}

/// The candle fields of a feed configuration.
pub struct Candle {
    pub candle: Option<Vec<String>>,
}

/// A message on the market-data stream.
pub struct FeedData {
    pub msg: Header,
    pub data: Option<String>,
    pub state: Option<String>,
    pub error: Option<String>,
    pub message: Option<String>,
    pub event_fields: Option<Candle>,
}

/// Authorizes the market-data stream.
pub struct Auth {
    pub msg: Header,
    pub token: String,
}

/// The market-data stream's authorization state.
pub struct AuthState {
    pub msg: Header,
    pub state: String,
    pub user_id: Option<String>,
}

/// Opens a feed channel, with its parameters as name and value pairs.
pub struct Channel {
    pub msg: Header,
    pub service: String,
    pub parameters: Vec<(String, String)>,
}

/// An error the stream reports.
pub struct StreamApiError {
    pub code: u64,
    pub message: String,
}

/// The outcome of a request to the stream.
pub enum WsRequest {
    Success,
    Error(StreamApiError),
}

/// An authorization message of the stream.
pub struct AuthMessage {
    pub uid: String,
    pub channel: i64,
    pub message_type: String,
    pub token: String,
}

/// A reply of the stream.
pub enum WsResponse {
    Payload(AuthMessage),
    Success,
    Error(StreamApiError),
}

} // verus!
