use options_trader::decimal::{dec_eq, Dec};
use options_trader::platform::mktdata::{
    encode_path_segment, streamer_symbol_endpoint, MktData, STALE_AFTER_NANOS,
};
use options_trader::platform::positions::OptionType;
use options_trader::tt_api::mktdata::{FeedEvent, Greeks, Quote};

fn dec(m: i128, scale: u32) -> Dec {
    Dec { mantissa: m, scale }
}

fn quote(symbol: &str, bid: Dec, ask: Dec) -> Quote {
    Quote::new(symbol.to_string(), bid, ask).unwrap()
}

#[test]
fn quote_mid_is_half_the_sum() {
    let q = quote("SPY", dec(100, 0), dec(102, 0));
    assert!(dec_eq(&q.midprice(), &dec(101, 0)));
    let q = quote("SPY", dec(100, 0), dec(101, 0));
    assert!(dec_eq(&q.midprice(), &dec(1005, 1)));
}

#[test]
fn quote_mid_overflow_is_refused() {
    let max = Dec { mantissa: 0xFFFF_FFFF_FFFF_FFFF_FFFF_FFFF, scale: 0 };
    assert!(Quote::new("X".to_string(), max, max).is_none());
}

#[test]
fn stashed_subscription_is_found_by_symbol() {
    let mut md = MktData::new();
    md.stash_subscription("SPY", "SPY", "SPY", None, 10);
    md.stash_subscription("SPY   240315C00500000", "SPY", ".SPY240315C500", Some(dec(500, 0)), 11);
    let s = md.get_snapshot_by_symbol("SPY   240315C00500000").unwrap();
    assert_eq!(s.streamer_symbol, ".SPY240315C500");
    assert_eq!(s.underlying, "SPY");
    assert_eq!(s.last_update, 11);
    assert!(s.quote.is_none());
    assert!(md.get_snapshot_by_symbol("QQQ").is_none());
}

#[test]
fn first_snapshot_of_a_symbol_wins() {
    let mut md = MktData::new();
    md.stash_subscription("SPY", "SPY", "first", None, 1);
    md.stash_subscription("SPY", "SPY", "second", None, 2);
    assert_eq!(md.get_snapshot_by_symbol("SPY").unwrap().streamer_symbol, "first");
}

#[test]
fn quote_events_update_matching_snapshots_only() {
    let mut md = MktData::new();
    md.stash_subscription("SPY", "SPY", "SPY", None, 1);
    md.stash_subscription("QQQ", "QQQ", "QQQ", None, 1);
    let events = vec![
        FeedEvent::QuoteEvent(quote("SPY", dec(100, 0), dec(102, 0))),
        FeedEvent::QuoteEvent(quote("SPY", dec(104, 0), dec(106, 0))),
        FeedEvent::GreeksEvent(Greeks { event_symbol: "IWM".to_string() }),
    ];
    md.handle_msg(&events, 50);
    let spy = md.get_snapshot_by_symbol("SPY").unwrap();
    assert!(dec_eq(&spy.mid_price(), &dec(105, 0)));
    assert_eq!(spy.last_update, 50);
    let qqq = md.get_snapshot_by_symbol("QQQ").unwrap();
    assert!(qqq.quote.is_none());
    assert_eq!(qqq.last_update, 1);
    assert!(dec_eq(&qqq.mid_price(), &dec(0, 0)));
}

#[test]
fn greeks_events_stamp_their_snapshot() {
    let mut md = MktData::new();
    md.stash_subscription("SPY", "SPY", "SPY", None, 1);
    md.handle_msg(&vec![FeedEvent::GreeksEvent(Greeks { event_symbol: "SPY".to_string() })], 9);
    let spy = md.get_snapshot_by_symbol("SPY").unwrap();
    assert!(spy.greeks.is_some());
    assert!(spy.quote.is_none());
    assert_eq!(spy.last_update, 9);
}

#[test]
fn stale_snapshots_are_reported_and_restamped() {
    let mut md = MktData::new();
    md.stash_subscription("SPY", "SPY", "SPY-S", None, 0);
    md.stash_subscription("QQQ", "QQQ", "QQQ-S", None, 20_000_000_000);
    let now = STALE_AFTER_NANOS + 1;
    let stale = md.refresh_stale(now);
    assert_eq!(stale, vec!["SPY-S".to_string()]);
    assert_eq!(md.get_snapshot_by_symbol("SPY").unwrap().last_update, now);
    assert_eq!(md.get_snapshot_by_symbol("QQQ").unwrap().last_update, 20_000_000_000);
    assert!(md.refresh_stale(now).is_empty());
}

#[test]
fn exactly_thirty_seconds_is_not_stale() {
    let mut md = MktData::new();
    md.stash_subscription("SPY", "SPY", "SPY", None, 0);
    assert!(md.refresh_stale(STALE_AFTER_NANOS).is_empty());
}

#[test]
fn options_grouped_by_underlying_lowest_strike_first() {
    let mut md = MktData::new();
    md.stash_subscription("SPY", "SPY", "SPY", None, 0);
    md.stash_subscription("C510", "SPY", "C510", Some(dec(510, 0)), 0);
    md.stash_subscription("Q1", "QQQ", "Q1", Some(dec(400, 0)), 0);
    md.stash_subscription("C500", "SPY", "C500", Some(dec(5000, 1)), 0);
    md.stash_subscription("C505", "SPY", "C505", Some(dec(505, 0)), 0);
    let g = md.group_snapshots_by_underlying("SPY");
    let symbols: Vec<&str> = g.iter().map(|s| s.symbol.as_str()).collect();
    assert_eq!(symbols, vec!["C500", "C505", "C510"]);
}

#[test]
fn equal_strikes_keep_store_order() {
    let mut md = MktData::new();
    md.stash_subscription("A", "SPY", "A", Some(dec(500, 0)), 0);
    md.stash_subscription("B", "SPY", "B", Some(dec(5000, 1)), 0);
    let g = md.group_snapshots_by_underlying("SPY");
    assert_eq!(g[0].symbol, "A");
    assert_eq!(g[1].symbol, "B");
}

#[test]
fn plain_symbols_are_their_own_path_segment() {
    assert_eq!(encode_path_segment("SPY"), "SPY");
    assert_eq!(encode_path_segment("BRK.B"), "BRK.B");
}

#[test]
fn slashes_spaces_and_controls_are_percent_encoded() {
    assert_eq!(encode_path_segment("./ESH4 EW3H4"), ".%2FESH4%20EW3H4");
    assert_eq!(encode_path_segment("/ES"), "%2FES");
    assert_eq!(encode_path_segment("a\tb\u{7f}"), "a%09b%7F");
    assert_eq!(encode_path_segment("é"), "%C3%A9");
}

#[test]
fn streamer_symbol_endpoints_by_instrument_type() {
    assert_eq!(streamer_symbol_endpoint("SPY", OptionType::Equity), "instruments/equities/SPY");
    assert_eq!(streamer_symbol_endpoint("/ES", OptionType::Future), "instruments/futures/%2FES");
    assert_eq!(
        streamer_symbol_endpoint("SPY   240315C00500000", OptionType::EquityOption),
        "instruments/equity-options/SPY%20%20%20240315C00500000"
    );
    assert_eq!(
        streamer_symbol_endpoint("./ESH4 EW3H4 240315C5000", OptionType::FutureOption),
        "instruments/future-options/.%2FESH4%20EW3H4%20240315C5000"
    );
}

#[test]
fn feed_events_compare_by_kind() {
    let a = FeedEvent::QuoteEvent(quote("SPY", dec(1, 0), dec(3, 0)));
    let b = FeedEvent::QuoteEvent(quote("QQQ", dec(5, 0), dec(7, 0)));
    let g = FeedEvent::GreeksEvent(Greeks { event_symbol: "SPY".to_string() });
    assert!(a == b);
    assert!(a != g);
    assert!(g == FeedEvent::GreeksEvent(Greeks { event_symbol: "IWM".to_string() }));
}
