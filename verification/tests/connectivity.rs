use std::io::Write;

use options_trader::connectivity::errors::ApiError;
use options_trader::connectivity::sessions::{
    channel_number, handle_socket_messages, should_send_heartbeat, AccountReply, AccountSession,
    AuthReply, HeartbeatAction, MktdataReply, MktdataSession, SocketAction, SocketMessage,
};
use options_trader::connectivity::web_client::{
    add_custom_headers, dry_run_order_endpoint, endpoint_url, response_text, positions_endpoint, hosts_for, is_gzip, login_request, request_url, EndPoint, LoginRequest,
};
use options_trader::platform::positions::OptionType;
use options_trader::tt_api::mktdata::ApiQuoteToken;
use options_trader::tt_api::sessions::{FeedData, Header, Response};

const SEC: i64 = 1_000_000_000;

fn token() -> ApiQuoteToken {
    ApiQuoteToken {
        token: "quote-token".to_string(),
        streamer_url: None,
        websocket_url: None,
        dxlink_url: "wss://tasty-openapi-ws.dxfeed.com/realtime".to_string(),
        level: "api".to_string(),
    }
}

fn reply(status: &str, action: &str, id: &str) -> Response {
    Response {
        status: status.to_string(),
        action: action.to_string(),
        websocket_session_id: id.to_string(),
        value: None,
        request_id: 1,
    }
}

fn feed(msg_type: &str, state: Option<&str>) -> FeedData {
    FeedData {
        msg: Header { msg_type: msg_type.to_string(), channel: 0 },
        data: None,
        state: state.map(|s| s.to_string()),
        error: None,
        message: None,
        event_fields: None,
    }
}

#[test]
fn api_errors_map_to_http_statuses() {
    assert_eq!(ApiError::InvalidRequest.to_code(), 400);
    assert_eq!(ApiError::AuthorizationError.to_code(), 401);
    assert_eq!(ApiError::Forbidden.to_code(), 403);
    assert_eq!(ApiError::NotFound.to_code(), 404);
    assert_eq!(ApiError::TooManyRequests.to_code(), 429);
    assert_eq!(ApiError::ServerError("x".to_string()).to_code(), 500);
}

#[test]
fn api_errors_read_back_from_statuses() {
    assert!(matches!(ApiError::from_code(400, None), Some(ApiError::InvalidRequest)));
    assert!(matches!(ApiError::from_code(401, None), Some(ApiError::AuthorizationError)));
    assert!(matches!(ApiError::from_code(403, None), Some(ApiError::Forbidden)));
    assert!(matches!(ApiError::from_code(404, None), Some(ApiError::NotFound)));
    assert!(matches!(ApiError::from_code(429, None), Some(ApiError::TooManyRequests)));
    match ApiError::from_code(500, Some("abc-123".to_string())) {
        Some(ApiError::ServerError(id)) => assert_eq!(id, "abc-123"),
        _ => panic!("expected a server error"),
    }
    match ApiError::from_code(500, None) {
        Some(ApiError::ServerError(id)) => assert_eq!(id, "Unknown Error"),
        _ => panic!("expected a server error"),
    }
    assert!(ApiError::from_code(200, None).is_none());
    assert!(ApiError::from_code(502, Some("x".to_string())).is_none());
}

#[test]
fn api_error_round_trips_through_its_status() {
    let e = ApiError::ServerError("id-7".to_string());
    match ApiError::from_code(e.to_code(), Some("id-7".to_string())) {
        Some(ApiError::ServerError(id)) => assert_eq!(id, "id-7"),
        _ => panic!("expected a server error"),
    }
    let e = ApiError::TooManyRequests;
    assert!(matches!(ApiError::from_code(e.to_code(), None), Some(ApiError::TooManyRequests)));
}

#[test]
fn api_error_descriptions() {
    assert_eq!(
        ApiError::NotFound.description(),
        "Endpoint or resource not found. This may occur when attempting to fetch data that does not exist (a specific order, for example)."
    );
    assert_eq!(
        ApiError::ServerError("abc".to_string()).description(),
        "Indicates an issue with tastytrade's servers. Returns a support identifier (abc) that our team can use to track down the issue."
    );
    assert!(ApiError::InvalidRequest.description().starts_with("Invalid request."));
}

#[test]
fn endpoints_are_stored_as_one_and_two() {
    assert_eq!(i32::from(EndPoint::Sandbox), 1);
    assert_eq!(i32::from(EndPoint::Live), 2);
    assert_eq!(EndPoint::Live.to_i32(), 2);
    assert_eq!(EndPoint::from_code(1), EndPoint::Sandbox);
    assert_eq!(EndPoint::from_code(2), EndPoint::Live);
    assert_eq!(EndPoint::from_code(EndPoint::Live.to_i32()), EndPoint::Live);
    assert_eq!(EndPoint::default(), EndPoint::Sandbox);
}

#[test]
fn hosts_by_environment() {
    assert_eq!(
        hosts_for(EndPoint::Live),
        ("api.tastyworks.com".to_string(), "streamer.tastyworks.com".to_string())
    );
    assert_eq!(
        hosts_for(EndPoint::Sandbox),
        ("api.cert.tastyworks.com".to_string(), "streamer.cert.tastyworks.com".to_string())
    );
}

#[test]
fn login_uses_password_when_given() {
    match login_request("alice", "remember-tok", Some("secret".to_string())) {
        LoginRequest::Password(c) => {
            assert_eq!(c.username, "alice");
            assert_eq!(c.password, "secret");
            assert!(c.remember_me);
        }
        _ => panic!("expected a password login"),
    }
    match login_request("alice", "remember-tok", None) {
        LoginRequest::Token(t) => {
            assert_eq!(t.username, "alice");
            assert_eq!(t.remember, "remember-tok");
            assert!(t.remember_me);
        }
        _ => panic!("expected a token login"),
    }
}

#[test]
fn request_urls_and_headers() {
    assert_eq!(request_url("https://api.tastyworks.com", "sessions"), "https://api.tastyworks.com/sessions");
    let h = add_custom_headers(Some("tok"));
    assert_eq!(
        h,
        vec![
            ("Authorization".to_string(), "tok".to_string()),
            ("product".to_string(), "tasty-options-trader".to_string()),
            ("version".to_string(), "0.1".to_string()),
            ("Content-Type".to_string(), "application/json".to_string()),
        ]
    );
    assert_eq!(
        add_custom_headers(None),
        vec![("Content-Type".to_string(), "application/json".to_string())]
    );
    assert!(is_gzip(Some("gzip")));
    assert!(!is_gzip(Some("br")));
    assert!(!is_gzip(None));
}

#[test]
fn heartbeat_rule() {
    assert_eq!(should_send_heartbeat(30, false, 0, 0, 1000 * SEC), HeartbeatAction::Wait);
    assert_eq!(should_send_heartbeat(30, true, 0, 0, 24 * SEC), HeartbeatAction::Wait);
    assert_eq!(should_send_heartbeat(30, true, 0, 0, 25 * SEC), HeartbeatAction::Send);
    assert_eq!(should_send_heartbeat(30, true, 0, 0, 60 * SEC), HeartbeatAction::Send);
    assert_eq!(should_send_heartbeat(30, true, 0, 0, 60 * SEC + 1), HeartbeatAction::Restart);
}

#[test]
fn account_session_lifecycle() {
    let mut s = AccountSession::new("wss://streamer.tastyworks.com", 0);
    assert!(!s.is_alive());
    assert_eq!(s.heartbeat_interval(), 30);
    assert_eq!(s.url(), "wss://streamer.tastyworks.com/");
    let c = s.startup("5WT00001", "auth-token");
    assert_eq!(c.action, "connect");
    assert_eq!(c.account_ids, vec!["5WT00001".to_string()]);
    assert_eq!(c.auth_token, "auth-token");
    let hb = s.get_heart_beat_message();
    assert_eq!(hb.action, "heartbeat");
    assert_eq!(hb.auth_token, "auth-token");
    assert_eq!(s.heartbeat_due(100 * SEC), HeartbeatAction::Wait);
    assert_eq!(s.handle_response(Some(reply("ok", "connect", "ws-1")), 5 * SEC), AccountReply::Connected);
    assert!(s.is_alive());
    assert_eq!(s.token(), "ws-1");
    assert_eq!(s.heartbeat_due(26 * SEC), HeartbeatAction::Send);
    s.update_last_sent(26 * SEC);
    assert_eq!(s.last_sent(), 26 * SEC);
    assert_eq!(s.heartbeat_due(26 * SEC), HeartbeatAction::Wait);
    assert_eq!(
        s.handle_response(Some(reply("ok", "heartbeat", "")), 27 * SEC),
        AccountReply::HeartbeatAcknowledged
    );
    assert_eq!(s.last_received(), 27 * SEC);
    assert_eq!(s.handle_response(Some(reply("ok", "other", "")), 28 * SEC), AccountReply::Ignored);
    assert_eq!(s.handle_response(None, 28 * SEC), AccountReply::ForwardToApp);
    assert_eq!(s.handle_response(Some(reply("error", "connect", "")), 28 * SEC), AccountReply::Failed);
    assert_eq!(s.heartbeat_due(88 * SEC), HeartbeatAction::Restart);
}

#[test]
fn market_data_setup_and_authorization() {
    let s = MktdataSession::new(token(), 0);
    let setup = s.startup();
    assert_eq!(setup.msg.msg_type, "SETUP");
    assert_eq!(setup.msg.channel, 0);
    assert_eq!(setup.keepalive_timeout, 55);
    assert_eq!(setup.accept_keepalive_timeout, 55);
    assert_eq!(setup.version, "0.1");
    assert_eq!(s.url(), "wss://tasty-openapi-ws.dxfeed.com/realtime");
    assert_eq!(s.token(), "quote-token");
    match s.handle_auth(&feed("AUTH_STATE", Some("UNAUTHORIZED"))) {
        AuthReply::SendAuth(a) => {
            assert_eq!(a.msg.msg_type, "AUTH");
            assert_eq!(a.msg.channel, 0);
            assert_eq!(a.token, "quote-token");
        }
        _ => panic!("expected the token"),
    }
    match s.handle_auth(&feed("AUTH_STATE", Some("AUTHORIZED"))) {
        AuthReply::OpenChannel(c) => {
            assert_eq!(c.msg.msg_type, "CHANNEL_REQUEST");
            assert_eq!(c.msg.channel, 1);
            assert_eq!(c.service, "FEED");
            assert_eq!(c.parameters, vec![("contract".to_string(), "AUTO".to_string())]);
        }
        _ => panic!("expected a channel request"),
    }
    assert!(matches!(s.handle_auth(&feed("AUTH_STATE", Some("WHATEVER"))), AuthReply::Unknown));
    let hb = s.get_heart_beat_message();
    assert_eq!(hb.msg_type, "KEEPALIVE");
    assert_eq!(hb.channel, 0);
}

#[test]
fn subscriptions_wait_for_the_channel() {
    let mut s = MktdataSession::new(token(), 0);
    let events = ["Quote"];
    assert!(s.subscribe(Some("SPY"), &events, OptionType::Equity).is_none());
    assert!(s.subscribe(Some("QQQ"), &events, OptionType::Equity).is_none());
    assert!(matches!(s.handle_response(Some(feed("CHANNEL_OPENED", None)), 1), MktdataReply::ChannelOpened));
    assert!(s.is_alive());
    let both = ["Quote", "Greeks"];
    let sub = s.subscribe(None, &both, OptionType::EquityOption).unwrap();
    assert_eq!(sub.msg.msg_type, "FEED_SUBSCRIPTION");
    assert_eq!(sub.msg.channel, 1);
    let items: Vec<(String, String)> =
        sub.add.iter().map(|i| (i.symbol.clone(), i.msg_type.clone())).collect();
    assert_eq!(
        items,
        vec![
            ("SPY".to_string(), "Quote".to_string()),
            ("SPY".to_string(), "Greeks".to_string()),
            ("QQQ".to_string(), "Quote".to_string()),
            ("QQQ".to_string(), "Greeks".to_string()),
        ]
    );
    s.subscription_sent();
    assert!(s.subscribe(None, &events, OptionType::Equity).is_none());
    let sub = s.subscribe(Some("IWM"), &events, OptionType::Future).unwrap();
    assert_eq!(sub.add.len(), 1);
    assert_eq!(sub.add[0].symbol, "IWM");
}

#[test]
fn market_data_messages_dispatch() {
    let mut s = MktdataSession::new(token(), 0);
    assert!(matches!(s.handle_response(Some(feed("KEEPALIVE", None)), 7), MktdataReply::Heartbeat));
    assert_eq!(s.last_received(), 7);
    assert!(matches!(
        s.handle_response(Some(feed("AUTH_STATE", Some("UNAUTHORIZED"))), 8),
        MktdataReply::Auth(AuthReply::SendAuth(_))
    ));
    assert!(matches!(s.handle_response(Some(feed("FEED_DATA", None)), 9), MktdataReply::ForwardToApp));
    assert!(matches!(s.handle_response(Some(feed("FEED_CONFIG", None)), 9), MktdataReply::Ignored));
    assert!(matches!(s.handle_response(Some(feed("ERROR", None)), 9), MktdataReply::Ignored));
    assert!(matches!(s.handle_response(None, 9), MktdataReply::Ignored));
    assert!(!s.is_alive());
    assert_eq!(s.heartbeat_interval(), 55);
    assert_eq!(s.heartbeat_due(1000 * SEC), HeartbeatAction::Wait);
    s.update_last_sent(3);
    assert_eq!(s.last_sent(), 3);
    assert_eq!(channel_number(OptionType::Future), 1);
}

#[test]
fn socket_messages() {
    assert!(matches!(
        handle_socket_messages(SocketMessage::Text("hi".to_string())),
        SocketAction::Deliver(t) if t == "hi"
    ));
    assert!(matches!(handle_socket_messages(SocketMessage::Other), SocketAction::Ignore));
    assert!(matches!(handle_socket_messages(SocketMessage::Closed), SocketAction::Cancel));
}

#[test]
fn account_endpoints() {
    assert_eq!(positions_endpoint("5WT01"), "accounts/5WT01/positions");
    assert_eq!(dry_run_order_endpoint("5WT01"), "accounts/5WT01/orders/dry-run");
}

#[test]
fn stream_addresses_are_parsed_urls() {
    let s = AccountSession::try_new("WSS://Streamer.Tastyworks.com", 0).unwrap();
    assert_eq!(s.url(), "wss://streamer.tastyworks.com/");
    assert!(AccountSession::try_new("not a url", 0).is_none());
    let m = MktdataSession::new(token(), 0);
    assert_eq!(m.try_url(), Some("wss://tasty-openapi-ws.dxfeed.com/realtime".to_string()));
    let mut bad = token();
    bad.dxlink_url = "::nope".to_string();
    assert!(MktdataSession::new(bad, 0).try_url().is_none());
}

#[test]
fn endpoint_urls_must_parse() {
    assert_eq!(
        endpoint_url("https://api.tastyworks.com", "sessions"),
        Some("https://api.tastyworks.com/sessions".to_string())
    );
    assert_eq!(endpoint_url("api.tastyworks.com", "sessions"), None);
}

#[test]
fn gzip_bodies_are_decompressed() {
    let mut enc = flate2::write::GzEncoder::new(Vec::new(), flate2::Compression::default());
    enc.write_all(b"{\"data\":1}").unwrap();
    let body = enc.finish().unwrap();
    assert_eq!(response_text(Some("gzip"), &body), Some("{\"data\":1}".to_string()));
    assert_eq!(response_text(Some("br"), &body), None);
    assert_eq!(response_text(None, &body), None);
}

#[test]
fn api_error_descriptions_differ_by_status() {
    let errors = [
        ApiError::InvalidRequest,
        ApiError::AuthorizationError,
        ApiError::Forbidden,
        ApiError::NotFound,
        ApiError::TooManyRequests,
        ApiError::ServerError("x".to_string()),
    ];
    for a in errors.iter() {
        assert!(!a.description().is_empty());
        for b in errors.iter() {
            if a.to_code() != b.to_code() {
                assert_ne!(a.description(), b.description());
            }
        }
    }
    assert!(ApiError::ServerError("req-42".to_string()).description().contains("(req-42)"));
}

#[test]
fn heartbeat_with_a_long_interval() {
    let interval: u64 = 4_000_000_000_000;
    assert_eq!(should_send_heartbeat(interval, true, 0, 0, 0), HeartbeatAction::Wait);
    assert_eq!(should_send_heartbeat(interval, true, 0, 0, i64::MAX), HeartbeatAction::Wait);
    assert_eq!(should_send_heartbeat(interval, true, -i64::MAX, 0, i64::MAX), HeartbeatAction::Wait);
}
