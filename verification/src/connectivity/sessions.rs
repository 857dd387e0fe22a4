//! The account and market-data streaming sessions: what each does with a
//! reply from the stream, when a keep-alive is due, and which subscriptions go
//! out. Sending, receiving and the clock belong to the caller; times are
//! nanoseconds since the Unix epoch.
use vstd::prelude::*;
use vstd::string::*;

use crate::platform::positions::OptionType;
use crate::text::str_eq;
use crate::connectivity::web_client::{parse_url, url_serialization};
use crate::tt_api::mktdata::ApiQuoteToken;
use crate::tt_api::sessions::{
    AccHeartbeat, AddItem, Auth, Channel, ConnectAccounts, ConnectMktData, FeedData,
    FeedSubscription, Header, Response,
};

verus! {

broadcast use to_string_from_display_ensures_for_str;

/// Nanoseconds in a second.
pub const NANOS_PER_SEC: i128 = 1_000_000_000;

/// The latest instant a UTC time stamp can hold, in nanoseconds since the
/// epoch: the last nanosecond of 31 December 262142 (`chrono`'s
/// `NaiveDateTime::MAX`). A deadline past it cannot be formed.
pub const LATEST_INSTANT_NANOS: i128 = 8_210_266_876_799_999_999_999;

/// The keep-alive interval of the account stream, in seconds.
pub const ACCOUNT_HEARTBEAT_INTERVAL: u64 = 30;

/// The keep-alive interval of the market-data stream, in seconds.
pub const MKTDATA_HEARTBEAT_INTERVAL: u64 = 55;

/// What the keep-alive timer does on a tick.
#[derive(Debug, Clone, Copy, PartialEq, Eq, Structural)]
pub enum HeartbeatAction {
    /// Nothing is due.
    Wait,
    /// Send a keep-alive now.
    Send,
    /// The stream went silent: restart the connection.
    Restart,
}

/// The keep-alive rule: a session that is not connected sends nothing; one
/// that has heard nothing for two intervals is restarted; otherwise a
/// keep-alive goes out once five seconds short of an interval have passed
/// since the last one.
pub open spec fn heartbeat_action(
    is_alive: bool,
    interval: u64,
    last_received: i64,
    last_sent: i64,
    now: i64,
) -> HeartbeatAction {
    if !is_alive {
        HeartbeatAction::Wait
    } else if last_received + interval * 2 * NANOS_PER_SEC < now {
        HeartbeatAction::Restart
    } else if last_sent + (interval - 5) * NANOS_PER_SEC <= now {
        HeartbeatAction::Send
    } else {
        HeartbeatAction::Wait
    }
}

/// The deadlines the keep-alive rule looks at can be formed: a connected
/// session's silence deadline is a time stamp, and, where it has not passed,
/// the interval leaves room for the five-second margin and the next keep-alive
/// deadline is a time stamp too. Elsewhere forming them fails.
pub open spec fn heartbeat_deadlines_exist(
    is_alive: bool,
    interval: u64,
    last_received: i64,
    last_sent: i64,
    now: i64,
) -> bool {
    is_alive ==> {
        &&& last_received + interval * 2 * NANOS_PER_SEC <= LATEST_INSTANT_NANOS
        &&& last_received + interval * 2 * NANOS_PER_SEC >= now ==> {
            &&& 5 <= interval
            &&& last_sent + (interval - 5) * NANOS_PER_SEC <= LATEST_INSTANT_NANOS
        }
    }
}

/// Decides what the keep-alive timer does at `now`.
pub fn should_send_heartbeat(
    interval: u64,
    is_alive: bool,
    last_received: i64,
    last_sent: i64,
    now: i64,
) -> (a: HeartbeatAction)
    requires
        heartbeat_deadlines_exist(is_alive, interval, last_received, last_sent, now),
    ensures
        a == heartbeat_action(is_alive, interval, last_received, last_sent, now),
{
    if !is_alive {
        return HeartbeatAction::Wait;
    }
    let silent_until: i128 = last_received as i128 + (interval as i128) * 2 * NANOS_PER_SEC;
    if silent_until < now as i128 {
        HeartbeatAction::Restart
    } else if last_sent as i128 + ((interval - 5) as i128) * NANOS_PER_SEC <= now as i128 {
        HeartbeatAction::Send
    } else {
        HeartbeatAction::Wait
    }
}

/// What arrived on a stream's socket.
pub enum SocketMessage {
    /// A text frame.
    Text(String),
    /// Any other frame, or a read error.
    Other,
    /// The stream ended.
    Closed,
}

/// What to do with what arrived on the socket.
pub enum SocketAction {
    /// Hand the text to the session.
    Deliver(String),
    /// Nothing to do.
    Ignore,
    /// The stream is gone: cancel the connection.
    Cancel,
}

/// Text frames go to the session, other frames are ignored, and the end of
/// the stream cancels the connection.
pub fn handle_socket_messages(message: SocketMessage) -> (a: SocketAction)
    ensures
        match message {
            SocketMessage::Text(t) => a matches SocketAction::Deliver(d) && d@ == t@,
            SocketMessage::Other => a is Ignore,
            SocketMessage::Closed => a is Cancel,
        },
{
    match message {
        SocketMessage::Text(t) => SocketAction::Deliver(t),
        SocketMessage::Other => SocketAction::Ignore,
        SocketMessage::Closed => SocketAction::Cancel,
    }
}

// ---------------------------------------------------------------------------
// Account stream
// ---------------------------------------------------------------------------

/// The account stream's session.
pub struct AccountSession {
    url: String,
    auth_token: String,
    session_id: String,
    last_received: i64,
    last_sent: i64,
    is_alive: bool,
}

/// The state of the account session.
pub struct AccountSessionView {
    pub url: Seq<char>,
    pub auth_token: Seq<char>,
    pub session_id: Seq<char>,
    pub last_received: i64,
    pub last_sent: i64,
    pub is_alive: bool,
}

/// What the account session made of a reply.
#[derive(Debug, Clone, Copy, PartialEq, Eq, Structural)]
pub enum AccountReply {
    /// The stream confirmed the connection.
    Connected,
    /// The stream answered a keep-alive.
    HeartbeatAcknowledged,
    /// An accepted reply the session does nothing with.
    Ignored,
    /// The stream refused a request: the connection must be cancelled.
    Failed,
    /// Not a reply but an account notification: hand it to the application.
    ForwardToApp,
}

impl AccountSession {
    pub closed spec fn view(&self) -> AccountSessionView {
        AccountSessionView {
            url: self.url@,
            auth_token: self.auth_token@,
            session_id: self.session_id@,
            last_received: self.last_received,
            last_sent: self.last_sent,
            is_alive: self.is_alive,
        }
    }

    /// A session on `url`, not yet connected, with a 30-second keep-alive;
    /// the session keeps the parsed URL's serialization. `url` must parse
    /// (see `try_new`).
    pub fn new(url: &str, now: i64) -> (s: Self)
        requires
            url_serialization(url@) is Some,
        ensures
            s@ == (AccountSessionView {
                url: url_serialization(url@)->0,
                auth_token: Seq::empty(),
                session_id: Seq::empty(),
                last_received: now,
                last_sent: now,
                is_alive: false,
            }),
    {
        let parsed = match parse_url(url) {
            Some(u) => u,
            None => {
                proof {
                    assert(false);
                }
                String::new()
            },
        };
        AccountSession {
            url: parsed,
            auth_token: String::new(),
            session_id: String::new(),
            last_received: now,
            last_sent: now,
            is_alive: false,
        }
    }

    /// A session on `url` (see `new`); `None` exactly where `url` does not
    /// parse as a URL.
    pub fn try_new(url: &str, now: i64) -> (r: Option<Self>)
        ensures
            r is None <==> url_serialization(url@) is None,
            r matches Some(s) ==> s@ == (AccountSessionView {
                url: url_serialization(url@)->0,
                auth_token: Seq::empty(),
                session_id: Seq::empty(),
                last_received: now,
                last_sent: now,
                is_alive: false,
            }),
    {
        match parse_url(url) {
            None => None,
            Some(_) => Some(Self::new(url, now)),
        }
    }

    /// The request that connects the account to the stream; the session keeps
    /// the token for its keep-alives.
    pub fn startup(&mut self, account_id: &str, auth_token: &str) -> (c: ConnectAccounts)
        ensures
            c.action@ == "connect"@,
            c.account_ids@.len() == 1,
            c.account_ids@[0]@ == account_id@,
            c.auth_token@ == auth_token@,
            final(self)@ == (AccountSessionView { auth_token: auth_token@, ..old(self)@ }),
    {
        let mut ids: Vec<String> = Vec::new();
        ids.push(account_id.to_string());
        let connect = ConnectAccounts {
            action: "connect".to_string(),
            account_ids: ids,
            auth_token: auth_token.to_string(),
        };
        self.auth_token = auth_token.to_string();
        connect
    }

    /// The stream confirmed the connection under `websocket_session_id`.
    fn handle_connect(&mut self, websocket_session_id: String)
        ensures
            final(self)@ == (AccountSessionView {
                session_id: websocket_session_id@,
                is_alive: true,
                ..old(self)@
            }),
    {
        self.session_id = websocket_session_id;
        self.is_alive = true;
    }

    /// The stream's address.
    pub fn url(&self) -> (u: String)
        ensures
            u@ == self@.url,
    {
        self.url.clone()
    }

    /// The stream's session identifier.
    pub fn token(&self) -> (t: String)
        ensures
            t@ == self@.session_id,
    {
        self.session_id.clone()
    }

    /// Whether the stream confirmed the connection.
    pub fn is_alive(&self) -> (b: bool)
        ensures
            b == self@.is_alive,
    {
        self.is_alive
    }

    /// The keep-alive interval, in seconds.
    pub fn heartbeat_interval(&self) -> (i: u64)
        ensures
            i == ACCOUNT_HEARTBEAT_INTERVAL,
    {
        ACCOUNT_HEARTBEAT_INTERVAL
    }

    /// When the stream was last heard from.
    pub fn last_received(&self) -> (t: i64)
        ensures
            t == self@.last_received,
    {
        self.last_received
    }

    /// When a keep-alive last went out.
    pub fn last_sent(&self) -> (t: i64)
        ensures
            t == self@.last_sent,
    {
        self.last_sent
    }

    /// A keep-alive went out at `now`.
    pub fn update_last_sent(&mut self, now: i64)
        ensures
            final(self)@ == (AccountSessionView { last_sent: now, ..old(self)@ }),
    {
        self.last_sent = now;
    }

    /// The keep-alive message: a heartbeat action with the session's token.
    pub fn get_heart_beat_message(&self) -> (h: AccHeartbeat)
        ensures
            h.action@ == "heartbeat"@,
            h.auth_token@ == self@.auth_token,
    {
        AccHeartbeat { action: "heartbeat".to_string(), auth_token: self.auth_token.clone() }
    }

    /// The stream answered a keep-alive at `now`.
    pub fn handle_heartbeat(&mut self, now: i64)
        ensures
            final(self)@ == (AccountSessionView { last_received: now, ..old(self)@ }),
    {
        self.last_received = now;
    }

    /// What the keep-alive timer does at `now`.
    pub fn heartbeat_due(&self, now: i64) -> (a: HeartbeatAction)
        ensures
            a == heartbeat_action(
                self@.is_alive,
                ACCOUNT_HEARTBEAT_INTERVAL,
                self@.last_received,
                self@.last_sent,
                now,
            ),
    {
        should_send_heartbeat(
            ACCOUNT_HEARTBEAT_INTERVAL,
            self.is_alive,
            self.last_received,
            self.last_sent,
            now,
        )
    }

    /// Handles what arrived on the stream at `now`: `None` where it is not a
    /// reply (an account notification). An accepted connect reply connects the
    /// session, an accepted heartbeat reply refreshes it, a refused reply fails
    /// it.
    pub fn handle_response(&mut self, response: Option<Response>, now: i64) -> (a: AccountReply)
        ensures
            match response {
                None => a == AccountReply::ForwardToApp && final(self)@ == old(self)@,
                Some(r) => if r.status@ != "ok"@ {
                    a == AccountReply::Failed && final(self)@ == old(self)@
                } else if r.action@ == "connect"@ {
                    a == AccountReply::Connected && final(self)@ == (AccountSessionView {
                        session_id: r.websocket_session_id@,
                        is_alive: true,
                        ..old(self)@
                    })
                } else if r.action@ == "heartbeat"@ {
                    a == AccountReply::HeartbeatAcknowledged && final(self)@ == (
                    AccountSessionView { last_received: now, ..old(self)@ })
                } else {
                    a == AccountReply::Ignored && final(self)@ == old(self)@
                },
            },
    {
        match response {
            None => AccountReply::ForwardToApp,
            Some(r) => {
                if !str_eq(r.status.as_str(), "ok") {
                    AccountReply::Failed
                } else if str_eq(r.action.as_str(), "connect") {
                    self.handle_connect(r.websocket_session_id);
                    AccountReply::Connected
                } else if str_eq(r.action.as_str(), "heartbeat") {
                    self.handle_heartbeat(now);
                    AccountReply::HeartbeatAcknowledged
                } else {
                    AccountReply::Ignored
                }
            },
        }
    }
}

// ---------------------------------------------------------------------------
// Market-data stream
// ---------------------------------------------------------------------------

/// The market-data stream's session.
pub struct MktdataSession {
    api_quote_token: ApiQuoteToken,
    last_received: i64,
    last_sent: i64,
    waiting_on_subscription: Vec<String>,
    is_alive: bool,
}

/// The state of the market-data session.
pub struct MktdataSessionView {
    pub token: Seq<char>,
    pub dxlink_url: Seq<char>,
    pub last_received: i64,
    pub last_sent: i64,
    /// The symbols whose subscription has not gone out yet, in order.
    pub waiting: Seq<Seq<char>>,
    pub is_alive: bool,
}

/// The texts of strings.
pub open spec fn texts_of(v: Seq<String>) -> Seq<Seq<char>> {
    v.map_values(|x: String| x@)
}

/// The texts of string slices.
pub open spec fn strs_of(v: Seq<&str>) -> Seq<Seq<char>> {
    v.map_values(|x: &str| x@)
}

/// The symbol and event type of subscription items.
pub open spec fn items_of(v: Seq<AddItem>) -> Seq<(Seq<char>, Seq<char>)> {
    v.map_values(|x: AddItem| (x.symbol@, x.msg_type@))
}

/// The subscriptions of one symbol: one per event type, in order.
pub open spec fn symbol_items(symbol: Seq<char>, events: Seq<Seq<char>>) -> Seq<
    (Seq<char>, Seq<char>),
> {
    events.map_values(|e: Seq<char>| (symbol, e))
}

/// The subscriptions of symbols: for each symbol in order, one per event type.
pub open spec fn subscription_items(symbols: Seq<Seq<char>>, events: Seq<Seq<char>>) -> Seq<
    (Seq<char>, Seq<char>),
>
    decreases symbols.len(),
{
    if symbols.len() == 0 {
        Seq::empty()
    } else {
        subscription_items(symbols.drop_last(), events) + symbol_items(symbols.last(), events)
    }
}

/// The symbols waiting once `symbol` (if any) is queued.
pub open spec fn queued(waiting: Seq<Seq<char>>, symbol: Option<Seq<char>>) -> Seq<Seq<char>> {
    match symbol {
        Some(s) => waiting.push(s),
        None => waiting,
    }
}

/// The text of an optional string slice.
pub open spec fn opt_str(s: Option<&str>) -> Option<Seq<char>> {
    match s {
        Some(t) => Some(t@),
        None => None,
    }
}

/// The request a market-data session sends on an authorization state.
pub enum AuthReply {
    /// Not yet authorized: send the token.
    SendAuth(Auth),
    /// Authorized: open the feed channel.
    OpenChannel(Channel),
    /// A state the session does not know.
    Unknown,
}

/// `a` authorizes the stream with `token`.
pub open spec fn is_auth_request(a: Auth, token: Seq<char>) -> bool {
    &&& a.msg.msg_type@ == "AUTH"@
    &&& a.msg.channel == 0
    &&& a.token@ == token
}

/// `c` opens the feed channel (channel 1) with automatic contracts.
pub open spec fn is_feed_channel_request(c: Channel) -> bool {
    &&& c.msg.msg_type@ == "CHANNEL_REQUEST"@
    &&& c.msg.channel == 1
    &&& c.service@ == "FEED"@
    &&& c.parameters@.len() == 1
    &&& c.parameters@[0].0@ == "contract"@
    &&& c.parameters@[0].1@ == "AUTO"@
}

/// The reply to an authorization state: the token when unauthorized, the
/// feed channel when authorized, nothing known otherwise.
pub open spec fn auth_reply_for(r: AuthReply, state: Seq<char>, token: Seq<char>) -> bool {
    if state == "UNAUTHORIZED"@ {
        r matches AuthReply::SendAuth(a) && is_auth_request(a, token)
    } else if state == "AUTHORIZED"@ {
        r matches AuthReply::OpenChannel(c) && is_feed_channel_request(c)
    } else {
        r is Unknown
    }
}

/// What the market-data session made of a message.
pub enum MktdataReply {
    /// Not a message the session acts on.
    Ignored,
    /// The stream's keep-alive.
    Heartbeat,
    /// An authorization state, and the request to send in reply.
    Auth(AuthReply),
    /// The feed channel is open.
    ChannelOpened,
    /// Market data: hand it to the application.
    ForwardToApp,
}

impl MktdataSession {
    pub closed spec fn view(&self) -> MktdataSessionView {
        MktdataSessionView {
            token: self.api_quote_token.token@,
            dxlink_url: self.api_quote_token.dxlink_url@,
            last_received: self.last_received,
            last_sent: self.last_sent,
            waiting: texts_of(self.waiting_on_subscription@),
            is_alive: self.is_alive,
        }
    }

    /// A session with the broker's streaming token, not yet connected, with a
    /// 55-second keep-alive and nothing waiting.
    pub fn new(api_quote_token: ApiQuoteToken, now: i64) -> (s: Self)
        ensures
            s@ == (MktdataSessionView {
                token: api_quote_token.token@,
                dxlink_url: api_quote_token.dxlink_url@,
                last_received: now,
                last_sent: now,
                waiting: Seq::empty(),
                is_alive: false,
            }),
    {
        let s = MktdataSession {
            api_quote_token,
            last_received: now,
            last_sent: now,
            waiting_on_subscription: Vec::new(),
            is_alive: false,
        };
        assert(texts_of(s.waiting_on_subscription@) =~= Seq::<Seq<char>>::empty());
        s
    }

    /// The setup request that opens the stream, asking for the session's
    /// keep-alive interval both ways.
    pub fn startup(&self) -> (c: ConnectMktData)
        ensures
            c.msg.msg_type@ == "SETUP"@,
            c.msg.channel == 0,
            c.keepalive_timeout == MKTDATA_HEARTBEAT_INTERVAL,
            c.accept_keepalive_timeout == MKTDATA_HEARTBEAT_INTERVAL,
            c.version@ == "0.1"@,
    {
        ConnectMktData {
            msg: Header { msg_type: "SETUP".to_string(), channel: 0 },
            keepalive_timeout: MKTDATA_HEARTBEAT_INTERVAL,
            accept_keepalive_timeout: MKTDATA_HEARTBEAT_INTERVAL,
            version: "0.1".to_string(),
        }
    }

    /// The request to send on an authorization state.
    pub fn handle_auth(&self, payload: &FeedData) -> (r: AuthReply)
        requires
            payload.state is Some,
        ensures
            auth_reply_for(r, payload.state->0@, self@.token),
    {
        let state = match &payload.state {
            Some(s) => s.as_str(),
            None => {
                proof {
                    assert(false);
                }
                ""
            },
        };
        if str_eq(state, "UNAUTHORIZED") {
            AuthReply::SendAuth(
                Auth {
                    msg: Header { msg_type: "AUTH".to_string(), channel: 0 },
                    token: self.api_quote_token.token.clone(),
                },
            )
        } else if str_eq(state, "AUTHORIZED") {
            let mut parameters: Vec<(String, String)> = Vec::new();
            parameters.push(("contract".to_string(), "AUTO".to_string()));
            AuthReply::OpenChannel(
                Channel {
                    msg: Header { msg_type: "CHANNEL_REQUEST".to_string(), channel: 1 },
                    service: "FEED".to_string(),
                    parameters,
                },
            )
        } else {
            AuthReply::Unknown
        }
    }

    /// Appends the subscriptions of `symbol`, one per event type.
    fn push_symbol_items(out: &mut Vec<AddItem>, symbol: &String, event_type: &[&str])
        ensures
            items_of(final(out)@) == items_of(old(out)@) + symbol_items(
                symbol@,
                strs_of(event_type@),
            ),
    {
        let ghost start = items_of(out@);
        let ghost target = symbol_items(symbol@, strs_of(event_type@));
        let mut j: usize = 0;
        while j < event_type.len()
            invariant
                0 <= j <= event_type.len(),
                target == symbol_items(symbol@, strs_of(event_type@)),
                items_of(out@) == start + target.take(j as int),
            decreases event_type.len() - j,
        {
            let ghost before = items_of(out@);
            let e: &str = event_type[j];
            out.push(AddItem { symbol: symbol.clone(), msg_type: e.to_string() });
            proof {
                assert(items_of(out@) =~= before.push((symbol@, e@)));
                assert(target[j as int] == (symbol@, e@));
                assert(target.take(j + 1) =~= target.take(j as int).push(target[j as int]));
                assert(start + target.take(j + 1) =~= (start + target.take(j as int)).push(
                    target[j as int],
                ));
            }
            j = j + 1;
        }
        assert(target.take(event_type.len() as int) =~= target);
    }

    /// Queues `symbol` (if any) for subscription and, once the stream is
    /// connected, builds the subscription of every waiting symbol to every
    /// event type on the feed channel. `None` where nothing is to be sent: the
    /// stream is not connected yet or nothing is waiting. The waiting symbols
    /// stay queued until `subscription_sent`.
    pub fn subscribe(&mut self, symbol: Option<&str>, event_type: &[&str], option_type: OptionType) -> (r:
        Option<FeedSubscription>)
        ensures
            final(self)@ == (MktdataSessionView {
                waiting: queued(old(self)@.waiting, opt_str(symbol)),
                ..old(self)@
            }),
            r is Some <==> old(self)@.is_alive && queued(old(self)@.waiting, opt_str(symbol)).len()
                > 0,
            r matches Some(sub) ==> sub.msg.msg_type@ == "FEED_SUBSCRIPTION"@ && sub.msg.channel
                == 1 && items_of(sub.add@) == subscription_items(
                queued(old(self)@.waiting, opt_str(symbol)),
                strs_of(event_type@),
            ),
    {
        let ghost before = texts_of(self.waiting_on_subscription@);
        if let Some(symbol) = symbol {
            self.waiting_on_subscription.push(symbol.to_string());
            proof {
                assert(texts_of(self.waiting_on_subscription@) =~= before.push(symbol@));
            }
        }
        let ghost w = texts_of(self.waiting_on_subscription@);
        if !self.is_alive || self.waiting_on_subscription.len() == 0 {
            return None;
        }
        let mut subscriptions: Vec<AddItem> = Vec::new();
        let mut i: usize = 0;
        assert(items_of(subscriptions@) =~= Seq::<(Seq<char>, Seq<char>)>::empty());
        assert(w.take(0) =~= Seq::<Seq<char>>::empty());
        while i < self.waiting_on_subscription.len()
            invariant
                0 <= i <= self.waiting_on_subscription.len(),
                w == texts_of(self.waiting_on_subscription@),
                items_of(subscriptions@) == subscription_items(w.take(i as int), strs_of(event_type@)),
            decreases self.waiting_on_subscription.len() - i,
        {
            Self::push_symbol_items(&mut subscriptions, &self.waiting_on_subscription[i], event_type);
            proof {
                assert(w.take(i + 1).drop_last() =~= w.take(i as int));
                assert(w.take(i + 1).last() == self.waiting_on_subscription@[i as int]@);
            }
            i = i + 1;
        }
        assert(w.take(self.waiting_on_subscription.len() as int) =~= w);
        Some(
            FeedSubscription {
                msg: Header {
                    msg_type: "FEED_SUBSCRIPTION".to_string(),
                    channel: channel_number(option_type),
                },
                add: subscriptions,
            },
        )
    }

    /// The subscription went out: nothing is waiting any more.
    pub fn subscription_sent(&mut self)
        ensures
            final(self)@ == (MktdataSessionView { waiting: Seq::empty(), ..old(self)@ }),
    {
        self.waiting_on_subscription.clear();
        assert(texts_of(self.waiting_on_subscription@) =~= Seq::<Seq<char>>::empty());
    }

    /// The feed channel is open.
    fn handle_connect(&mut self)
        ensures
            final(self)@ == (MktdataSessionView { is_alive: true, ..old(self)@ }),
    {
        self.is_alive = true;
    }

    /// The stream's address: the parsed serialization of the token's address,
    /// which must parse (see `try_url`).
    pub fn url(&self) -> (u: String)
        requires
            url_serialization(self@.dxlink_url) is Some,
        ensures
            u@ == url_serialization(self@.dxlink_url)->0,
    {
        match parse_url(self.api_quote_token.dxlink_url.as_str()) {
            Some(u) => u,
            None => {
                proof {
                    assert(false);
                }
                String::new()
            },
        }
    }

    /// The stream's address (see `url`); `None` exactly where the token's
    /// address does not parse as a URL.
    pub fn try_url(&self) -> (r: Option<String>)
        ensures
            r is None <==> url_serialization(self@.dxlink_url) is None,
            r matches Some(u) ==> u@ == url_serialization(self@.dxlink_url)->0,
    {
        match parse_url(self.api_quote_token.dxlink_url.as_str()) {
            None => None,
            Some(_) => Some(self.url()),
        }
    }

    /// The streaming token.
    pub fn token(&self) -> (t: String)
        ensures
            t@ == self@.token,
    {
        self.api_quote_token.token.clone()
    }

    /// Whether the feed channel is open.
    pub fn is_alive(&self) -> (b: bool)
        ensures
            b == self@.is_alive,
    {
        self.is_alive
    }

    /// The keep-alive interval, in seconds.
    pub fn heartbeat_interval(&self) -> (i: u64)
        ensures
            i == MKTDATA_HEARTBEAT_INTERVAL,
    {
        MKTDATA_HEARTBEAT_INTERVAL
    }

    /// When the stream was last heard from.
    pub fn last_received(&self) -> (t: i64)
        ensures
            t == self@.last_received,
    {
        self.last_received
    }

    /// When a keep-alive last went out.
    pub fn last_sent(&self) -> (t: i64)
        ensures
            t == self@.last_sent,
    {
        self.last_sent
    }

    /// A keep-alive went out at `now`.
    pub fn update_last_sent(&mut self, now: i64)
        ensures
            final(self)@ == (MktdataSessionView { last_sent: now, ..old(self)@ }),
    {
        self.last_sent = now;
    }

    /// The keep-alive message: a keep-alive on the control channel.
    pub fn get_heart_beat_message(&self) -> (h: Header)
        ensures
            h.msg_type@ == "KEEPALIVE"@,
            h.channel == 0,
    {
        Header { msg_type: "KEEPALIVE".to_string(), channel: 0 }
    }

    /// The stream's keep-alive arrived at `now`.
    pub fn handle_heartbeat(&mut self, now: i64)
        ensures
            final(self)@ == (MktdataSessionView { last_received: now, ..old(self)@ }),
    {
        self.last_received = now;
    }

    /// What the keep-alive timer does at `now`.
    pub fn heartbeat_due(&self, now: i64) -> (a: HeartbeatAction)
        ensures
            a == heartbeat_action(
                self@.is_alive,
                MKTDATA_HEARTBEAT_INTERVAL,
                self@.last_received,
                self@.last_sent,
                now,
            ),
    {
        should_send_heartbeat(
            MKTDATA_HEARTBEAT_INTERVAL,
            self.is_alive,
            self.last_received,
            self.last_sent,
            now,
        )
    }

    /// Handles a message of the stream that arrived at `now` (`None` where
    /// it could not be read): keep-alives refresh the session, authorization
    /// states get their reply, an opened channel connects the session, and
    /// market data goes to the application. An authorization state always
    /// carries its state.
    pub fn handle_response(&mut self, payload: Option<FeedData>, now: i64) -> (r: MktdataReply)
        requires
            payload matches Some(p) ==> (p.msg.msg_type@ == "AUTH_STATE"@ ==> p.state is Some),
        ensures
            match payload {
                None => r is Ignored && final(self)@ == old(self)@,
                Some(p) => if p.msg.msg_type@ == "KEEPALIVE"@ {
                    r is Heartbeat && final(self)@ == (MktdataSessionView {
                        last_received: now,
                        ..old(self)@
                    })
                } else if p.msg.msg_type@ == "AUTH_STATE"@ {
                    (r matches MktdataReply::Auth(a) && auth_reply_for(
                        a,
                        p.state->0@,
                        old(self)@.token,
                    )) && final(self)@ == old(self)@
                } else if p.msg.msg_type@ == "CHANNEL_OPENED"@ {
                    r is ChannelOpened && final(self)@ == (MktdataSessionView {
                        is_alive: true,
                        ..old(self)@
                    })
                } else if p.msg.msg_type@ == "FEED_DATA"@ {
                    r is ForwardToApp && final(self)@ == old(self)@
                } else {
                    r is Ignored && final(self)@ == old(self)@
                },
            },
    {
        match payload {
            None => MktdataReply::Ignored,
            Some(p) => {
                let t = p.msg.msg_type.as_str();
                if str_eq(t, "KEEPALIVE") {
                    self.handle_heartbeat(now);
                    MktdataReply::Heartbeat
                } else if str_eq(t, "AUTH_STATE") {
                    MktdataReply::Auth(self.handle_auth(&p))
                } else if str_eq(t, "CHANNEL_OPENED") {
                    self.handle_connect();
                    MktdataReply::ChannelOpened
                } else if str_eq(t, "FEED_DATA") {
                    MktdataReply::ForwardToApp
                } else {
                    MktdataReply::Ignored
                }
            },
        }
    }
}

/// The feed channel a subscription for this kind of instrument goes on: the
/// one feed channel, whatever the instrument.
pub fn channel_number(option_type: OptionType) -> (c: u64)
    ensures
        c == 1,
{
    match option_type {
        OptionType::EquityOption | OptionType::FutureOption => 1,
        _ => 1,
    }
}

/// A session that is not connected sends no keep-alive and is never
/// restarted for silence.
pub proof fn lemma_no_heartbeat_while_disconnected(
    interval: u64,
    last_received: i64,
    last_sent: i64,
    now: i64,
)
    ensures
        heartbeat_action(false, interval, last_received, last_sent, now) == HeartbeatAction::Wait,
{
}

/// A keep-alive just sent is not due again at the same instant, unless the
/// stream has gone silent.
pub proof fn lemma_no_second_heartbeat_at_once(interval: u64, last_received: i64, now: i64)
    requires
        interval > 5,
    ensures
        heartbeat_action(true, interval, last_received, now, now) != HeartbeatAction::Send,
{
}

/// Hearing from the stream just now keeps a connected session from being
/// restarted.
pub proof fn lemma_fresh_stream_not_restarted(interval: u64, last_sent: i64, now: i64)
    ensures
        heartbeat_action(true, interval, now, last_sent, now) != HeartbeatAction::Restart,
{
}

/// A subscription covers every waiting symbol with every event type: it has
/// one item per pair, and each pair is among them.
pub proof fn lemma_subscription_covers_queue(symbols: Seq<Seq<char>>, events: Seq<Seq<char>>)
    ensures
        subscription_items(symbols, events).len() == symbols.len() * events.len(),
        forall|i: int, j: int|
            0 <= i < symbols.len() && 0 <= j < events.len() ==> subscription_items(
                symbols,
                events,
            ).contains((#[trigger] symbols[i], #[trigger] events[j])),
    decreases symbols.len(),
{
    if symbols.len() > 0 {
        let init = symbols.drop_last();
        lemma_subscription_covers_queue(init, events);
        let a = subscription_items(init, events);
        let b = symbol_items(symbols.last(), events);
        assert(subscription_items(symbols, events) == a + b);
        assert((a + b).len() == symbols.len() * events.len()) by (nonlinear_arith)
            requires
                a.len() == init.len() * events.len(),
                b.len() == events.len(),
                init.len() + 1 == symbols.len(),
                (a + b).len() == a.len() + b.len(),
        ;
        assert forall|i: int, j: int|
            0 <= i < symbols.len() && 0 <= j < events.len() implies (a + b).contains(
                (#[trigger] symbols[i], #[trigger] events[j]),
            ) by {
            if i < init.len() {
                assert(init[i] == symbols[i]);
                assert(a.contains((init[i], events[j])));
                let k = choose|k: int| 0 <= k < a.len() && a[k] == (init[i], events[j]);
                assert((a + b)[k] == a[k]);
            } else {
                assert(b[j] == (symbols[i], events[j]));
                assert((a + b)[a.len() + j] == b[j]);
            }
        }
    }
}

/// Symbols queued while the stream is not connected are all subscribed once
/// it is: the subscription then sent holds every queued symbol with every
/// event type.
pub proof fn lemma_queued_symbols_subscribed_after_connect(
    waiting: Seq<Seq<char>>,
    symbol: Option<Seq<char>>,
    events: Seq<Seq<char>>,
)
    ensures
        forall|i: int, j: int|
            0 <= i < queued(waiting, symbol).len() && 0 <= j < events.len() ==> subscription_items(
                queued(waiting, symbol),
                events,
            ).contains((#[trigger] queued(waiting, symbol)[i], #[trigger] events[j])),
        symbol matches Some(s) ==> queued(waiting, symbol).contains(s),
        forall|i: int| 0 <= i < waiting.len() ==> queued(waiting, symbol).contains(#[trigger] waiting[i]),
{
    lemma_subscription_covers_queue(queued(waiting, symbol), events);
    let q = queued(waiting, symbol);
    match symbol {
        Some(s) => {
            assert(q[waiting.len() as int] == s);
        },
        None => {},
    }
    assert forall|i: int| 0 <= i < waiting.len() implies q.contains(#[trigger] waiting[i]) by {
        assert(q[i] == waiting[i]);
    }
}


/// The keep-alive timing, in nanoseconds: a disconnected session only waits;
/// a connected one is restarted exactly when more than two intervals have
/// passed since it last heard from the stream, and otherwise sends a
/// keep-alive exactly when at least the interval less five seconds has passed
/// since the last one went out.
pub proof fn lemma_heartbeat_timing(interval: u64, last_received: i64, last_sent: i64, now: i64)
    ensures
        heartbeat_action(false, interval, last_received, last_sent, now) == HeartbeatAction::Wait,
        heartbeat_action(true, interval, last_received, last_sent, now) == HeartbeatAction::Restart
            <==> now - last_received > 2 * interval * 1_000_000_000,
        heartbeat_action(true, interval, last_received, last_sent, now) == HeartbeatAction::Send
            <==> (now - last_received <= 2 * interval * 1_000_000_000 && now - last_sent >= (
        interval - 5) * 1_000_000_000),
{
}

} // verus!
