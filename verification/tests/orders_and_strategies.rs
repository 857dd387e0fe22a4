use options_trader::decimal::{dec_eq, Dec};
use options_trader::platform::mktdata::MktData;
use options_trader::platform::orders::{
    build_order, build_order_from_meta, calculate_midprice, can_price, checked_calculate_midprice,
    checked_get_midprice, get_action, OpenPlan, OrderType, Orders,
};
use options_trader::platform::positions::{
    Direction, OptionType, Position, PriceEffect, StrategyType,
};
use options_trader::strategy::generic::{CalendarSpread, CreditSpread, IronCondor};
use options_trader::strategy::monitor::{
    can_check_stops, check_stops, convert_api_data_into_strategies, get_underlying_instrument_type,
    liquidation_price_effect, subscribe_to_updates, track_position,
    try_convert_api_data_into_strategies, Strategy,
};
use options_trader::tt_api::mktdata::{FeedEvent, Quote};
use options_trader::tt_api::positions::Leg;
use options_trader::tt_api::sessions::Payload;

fn dec(m: i128, scale: u32) -> Dec {
    Dec { mantissa: m, scale }
}

fn broker_leg(symbol: &str, underlying: &str, direction: &str) -> Leg {
    Leg {
        instrument_type: Some("Equity Option".to_string()),
        multiplier: Some(100),
        realized_today: None,
        is_frozen: false,
        updated_at: None,
        average_daily_market_close_price: None,
        deliverable_type: None,
        underlying_symbol: Some(underlying.to_string()),
        mark_price: None,
        account_number: None,
        fixing_price: None,
        quantity: 1,
        realized_day_gain_date: None,
        expires_at: None,
        mark: None,
        realized_day_gain: None,
        realized_day_gain_effect: None,
        cost_effect: None,
        close_price: None,
        average_yearly_market_close_price: None,
        average_open_price: None,
        is_suppressed: false,
        created_at: None,
        symbol: symbol.to_string(),
        realized_today_date: None,
        order_id: None,
        realized_today_effect: None,
        quantity_direction: Some(direction.to_string()),
        restricted_quantity: None,
    }
}

fn call_credit_spread() -> Position {
    Position::new(vec![
        broker_leg("SPY   240315C00500000", "SPY", "Short"),
        broker_leg("SPY   240315C00510000", "SPY", "Long"),
    ])
}

fn put_credit_spread() -> Position {
    Position::new(vec![
        broker_leg("SPY   240315P00450000", "SPY", "Short"),
        broker_leg("SPY   240315P00440000", "SPY", "Long"),
    ])
}

fn iron_condor() -> Position {
    Position::new(vec![
        broker_leg("SPY   240315P00440000", "SPY", "Long"),
        broker_leg("SPY   240315C00520000", "SPY", "Long"),
        broker_leg("SPY   240315P00450000", "SPY", "Short"),
        broker_leg("SPY   240315C00510000", "SPY", "Short"),
    ])
}

fn with_underlying_quote(bid: i128, ask: i128) -> MktData {
    let mut md = MktData::new();
    md.stash_subscription("SPY", "SPY", "SPY", None, 0);
    let q = Quote::new("SPY".to_string(), dec(bid, 0), dec(ask, 0)).unwrap();
    md.handle_msg(&vec![FeedEvent::QuoteEvent(q)], 1);
    md
}

fn option_quote(md: &mut MktData, symbol: &str, strike: i128, bid: i128, ask: i128) {
    md.stash_subscription(symbol, "SPY", symbol, Some(dec(strike, 0)), 0);
    let q = Quote::new(symbol.to_string(), dec(bid, 2), dec(ask, 2)).unwrap();
    md.handle_msg(&vec![FeedEvent::QuoteEvent(q)], 1);
}

#[test]
fn order_type_texts() {
    assert_eq!(OrderType::Market.to_string(), "Market");
    assert_eq!(OrderType::Limit.to_string(), "Limit");
    assert_eq!(OrderType::Stop.to_string(), "Stop");
    assert_eq!(OrderType::StopLimit.to_string(), "StopLimit");
}

#[test]
fn closing_actions_reverse_the_direction() {
    assert_eq!(get_action(Direction::Long), "Sell to Close");
    assert_eq!(get_action(Direction::Short), "Buy to Close");
}

#[test]
fn closing_order_has_one_leg_per_position_leg() {
    let p = call_credit_spread();
    let o = build_order(&p, PriceEffect::Credit);
    assert_eq!(o.time_in_force, "DAY");
    assert_eq!(o.order_type, "Limit");
    assert_eq!(o.price_effect, "Credit");
    assert!(dec_eq(&o.price, &dec(0, 0)));
    assert_eq!(o.legs.len(), 2);
    assert_eq!(o.legs[0].symbol, "SPY   240315C00510000");
    assert_eq!(o.legs[0].action, "Sell to Close");
    assert_eq!(o.legs[1].action, "Buy to Close");
    assert_eq!(o.legs[0].instrument_type, "EquityOption ");
    assert_eq!(o.legs[0].quantity, 1);
}

#[test]
fn liquidation_orders_are_always_debits() {
    let p = call_credit_spread();
    let o = build_order_from_meta(&p, PriceEffect::Credit);
    assert_eq!(o.price_effect, "Debit");
}

#[test]
fn spread_midprice_is_first_plus_half_the_second() {
    let mut md = MktData::new();
    option_quote(&mut md, "C510", 510, 100, 120);
    option_quote(&mut md, "C500", 500, 300, 320);
    // sorted by strike: C500 (mid 3.10), C510 (mid 1.10): 3.10 + 1.10 / 2 = 3.65
    let m = calculate_midprice(StrategyType::CreditSpread, "SPY", &md);
    assert!(dec_eq(&m, &dec(365, 2)));
    let m = checked_calculate_midprice(StrategyType::CalendarSpread, "SPY", &md).unwrap();
    assert!(dec_eq(&m, &dec(365, 2)));
    let m = calculate_midprice(StrategyType::Other, "SPY", &md);
    assert!(dec_eq(&m, &dec(0, 0)));
}

#[test]
fn condor_midprice_combines_both_spreads() {
    let mut md = MktData::new();
    option_quote(&mut md, "P440", 440, 100, 100);
    option_quote(&mut md, "P450", 450, 200, 200);
    option_quote(&mut md, "C510", 510, 300, 300);
    option_quote(&mut md, "C520", 520, 400, 400);
    // call part: 1.00 + 2.00 / 2 = 2.00; put part: 3.00 + 4.00 / 2 = 5.00;
    // together: 2.00 + 5.00 / 2 = 4.50
    let m = calculate_midprice(StrategyType::IronCondor, "SPY", &md);
    assert!(dec_eq(&m, &dec(450, 2)));
}

#[test]
fn liquidation_midprice_is_sold_less_bought() {
    let p = call_credit_spread();
    let order = build_order(&p, PriceEffect::Debit);
    let mut md = MktData::new();
    option_quote(&mut md, "SPY   240315C00510000", 510, 100, 120);
    option_quote(&mut md, "SPY   240315C00500000", 500, 300, 320);
    // first leg (strike 510, mid 1.10) less second leg (strike 500, mid 3.10)
    let m = Orders::get_midprice(StrategyType::CreditSpread, "SPY", &md, &order);
    assert!(dec_eq(&m, &dec(-200, 2)));
    let m = checked_get_midprice(StrategyType::Other, &md, &order).unwrap();
    assert!(dec_eq(&m, &dec(0, 0)));
}

#[test]
fn condor_liquidation_midprice_adds_the_spreads() {
    let p = iron_condor();
    let order = build_order(&p, PriceEffect::Debit);
    let mut md = MktData::new();
    option_quote(&mut md, "SPY   240315C00520000", 520, 100, 100);
    option_quote(&mut md, "SPY   240315C00510000", 510, 300, 300);
    option_quote(&mut md, "SPY   240315P00450000", 450, 250, 250);
    option_quote(&mut md, "SPY   240315P00440000", 440, 50, 50);
    // (3.00 - 1.00) + (2.50 - 0.50) = 4.00
    let m = Orders::get_midprice(StrategyType::IronCondor, "SPY", &md, &order);
    assert!(dec_eq(&m, &dec(400, 2)));
}

#[test]
fn zero_midprice_places_no_order() {
    let o = build_order(&call_credit_spread(), PriceEffect::Debit);
    assert!(Orders::price_order(o, dec(0, 3)).is_none());
    let o = build_order(&call_credit_spread(), PriceEffect::Debit);
    let priced = Orders::price_order(o, dec(125, 2)).unwrap();
    assert!(dec_eq(&priced.price, &dec(125, 2)));
}

#[test]
fn recorded_order_blocks_a_second_one() {
    let p = call_credit_spread();
    let mut md = MktData::new();
    option_quote(&mut md, "C510", 510, 100, 120);
    option_quote(&mut md, "C500", 500, 300, 320);
    let mut orders = Orders::new();
    assert!(!orders.has_order_in_flight(&p));
    let plan = orders.plan_open_position(&p, PriceEffect::Debit, &md).unwrap();
    let order = match plan {
        OpenPlan::Place(o) => o,
        _ => panic!("expected an order to place"),
    };
    assert!(dec_eq(&order.price, &dec(365, 2)));
    orders.record_order(order);
    assert!(orders.has_order_in_flight(&p));
    assert!(matches!(
        orders.plan_open_position(&p, PriceEffect::Debit, &md),
        Some(OpenPlan::InFlight)
    ));
    assert!(matches!(
        orders.plan_liquidation(&p, PriceEffect::Debit, &md),
        Some(OpenPlan::InFlight)
    ));
    assert!(!orders.has_order_in_flight(&put_credit_spread()));
}

#[test]
fn order_notifications_are_recognised() {
    let p = Payload { msg_type: "Order".to_string(), data: String::new(), timestamp: 0 };
    assert!(Orders::handle_msg(&p));
    let p = Payload { msg_type: "AccountBalance".to_string(), data: String::new(), timestamp: 0 };
    assert!(!Orders::handle_msg(&p));
}

#[test]
fn call_credit_spread_exits_above_its_short_strike() {
    let s = CreditSpread::new(call_credit_spread());
    assert!(!s.should_exit(&with_underlying_quote(499, 501)));
    assert!(!s.should_exit(&with_underlying_quote(499, 501 + 0)));
    assert!(s.should_exit(&with_underlying_quote(500, 502)));
    assert!(!s.should_exit(&MktData::new()));
}

#[test]
fn put_credit_spread_exits_below_its_short_strike() {
    let s = CreditSpread::new(put_credit_spread());
    assert!(!s.should_exit(&with_underlying_quote(450, 452)));
    assert!(s.should_exit(&with_underlying_quote(448, 450)));
}

#[test]
fn zero_underlying_mid_never_exits() {
    let s = CreditSpread::new(put_credit_spread());
    assert!(!s.should_exit(&with_underlying_quote(0, 0)));
}

#[test]
fn iron_condor_exits_outside_its_short_strikes() {
    let s = IronCondor::new(iron_condor());
    assert!(!s.should_exit(&with_underlying_quote(479, 481)));
    assert!(s.should_exit(&with_underlying_quote(511, 513)));
    assert!(s.should_exit(&with_underlying_quote(440, 442)));
}

#[test]
fn calendar_spread_never_exits() {
    let p = Position::new(vec![
        broker_leg("SPY   240315P00450000", "SPY", "Short"),
        broker_leg("SPY   240419P00450000", "SPY", "Long"),
    ]);
    let s = CalendarSpread::new(p);
    assert!(!s.should_exit(&with_underlying_quote(100, 102)));
}

#[test]
fn spread_accessors() {
    let s = CreditSpread::new(call_credit_spread());
    assert_eq!(s.get_underlying(), "SPY");
    assert_eq!(
        s.get_symbols(),
        vec!["SPY   240315C00510000".to_string(), "SPY   240315C00500000".to_string()]
    );
    assert_eq!(s.get_option_type(), OptionType::EquityOption);
    assert_eq!(s.get_position().legs.len(), 2);
}

#[test]
fn positions_are_tracked_by_their_strategy() {
    assert!(matches!(track_position(call_credit_spread()), Strategy::Credit(_)));
    assert!(matches!(track_position(iron_condor()), Strategy::Condor(_)));
    let single = Position::new(vec![broker_leg("SPY   240315P00450000", "SPY", "Long")]);
    assert!(matches!(track_position(single), Strategy::NotTracked));
}

#[test]
fn stops_close_with_the_first_legs_effect() {
    assert_eq!(liquidation_price_effect(Direction::Short), PriceEffect::Credit);
    assert_eq!(liquidation_price_effect(Direction::Long), PriceEffect::Debit);
    let s = track_position(put_credit_spread());
    assert_eq!(check_stops(&s, &with_underlying_quote(448, 450)), Some(PriceEffect::Credit));
    assert_eq!(check_stops(&s, &with_underlying_quote(460, 462)), None);
    let c = track_position(call_credit_spread());
    assert_eq!(check_stops(&c, &with_underlying_quote(600, 602)), Some(PriceEffect::Debit));
}

#[test]
fn underlying_types_of_options() {
    assert_eq!(get_underlying_instrument_type(OptionType::EquityOption), OptionType::Equity);
    assert_eq!(get_underlying_instrument_type(OptionType::FutureOption), OptionType::Future);
}

#[test]
fn credit_spreads_subscribe_legs_then_underlying() {
    let strategies = vec![
        track_position(put_credit_spread()),
        track_position(iron_condor()),
    ];
    let feeds = subscribe_to_updates(&strategies);
    assert_eq!(feeds.len(), 3);
    assert_eq!(feeds[0].symbol, "SPY   240315P00450000");
    assert_eq!(feeds[1].symbol, "SPY   240315P00440000");
    assert_eq!(feeds[2].symbol, "SPY");
    assert_eq!(feeds[2].option_type, OptionType::Equity);
    assert!(feeds[2].strike_price.is_none());
    assert!(dec_eq(&feeds[0].strike_price.unwrap(), &dec(450, 0)));
    for f in &feeds {
        assert_eq!(f.event_type, "Quote");
        assert_eq!(f.underlying, "SPY");
    }
}

#[test]
fn account_legs_grouped_by_underlying_in_first_appearance_order() {
    let legs = vec![
        broker_leg("QQQ   240315P00400000", "QQQ", "Long"),
        broker_leg("SPY   240315C00500000", "SPY", "Short"),
        broker_leg("QQQ   240315P00410000", "QQQ", "Short"),
        broker_leg("SPY   240315C00510000", "SPY", "Long"),
    ];
    let strategies = convert_api_data_into_strategies(legs);
    assert_eq!(strategies.len(), 2);
    match &strategies[0] {
        Strategy::Credit(s) => assert_eq!(s.get_underlying(), "QQQ"),
        _ => panic!("expected a credit spread on QQQ"),
    }
    match &strategies[1] {
        Strategy::Credit(s) => assert_eq!(s.get_underlying(), "SPY"),
        _ => panic!("expected a credit spread on SPY"),
    }
}

#[test]
fn legs_without_underlying_cannot_be_grouped() {
    let mut leg = broker_leg("SPY   240315C00500000", "SPY", "Short");
    leg.underlying_symbol = None;
    assert!(try_convert_api_data_into_strategies(vec![leg]).is_none());
    assert!(try_convert_api_data_into_strategies(Vec::new()).unwrap().is_empty());
}

#[test]
fn pricing_needs_enough_strikes() {
    let mut md = MktData::new();
    option_quote(&mut md, "C510", 510, 100, 120);
    assert!(!can_price(StrategyType::CreditSpread, "SPY", &md));
    assert!(can_price(StrategyType::Other, "SPY", &md));
    option_quote(&mut md, "C500", 500, 300, 320);
    assert!(can_price(StrategyType::CreditSpread, "SPY", &md));
    assert!(!can_price(StrategyType::IronCondor, "SPY", &md));
    md.stash_subscription("NOSTRIKE", "SPY", "NOSTRIKE", None, 0);
    assert!(!can_price(StrategyType::CreditSpread, "SPY", &md));
}

#[test]
fn condor_stops_need_an_underlying_quote() {
    let s = track_position(iron_condor());
    assert!(can_check_stops(&s, &MktData::new()));
    let mut md = MktData::new();
    md.stash_subscription("SPY", "SPY", "SPY", None, 0);
    assert!(!can_check_stops(&s, &md));
    assert!(can_check_stops(&s, &with_underlying_quote(500, 502)));
    let c = track_position(call_credit_spread());
    assert!(can_check_stops(&c, &md));
}

#[test]
fn single_leg_and_other_strategies_price_at_zero_without_reading_snapshots() {
    let mut md = with_underlying_quote(100, 102);
    md.stash_subscription("SPY_A", "SPY", "SPY_A", None, 0);
    md.stash_subscription("SPY_B", "SPY", "SPY_B", None, 0);
    for st in [StrategyType::Other, StrategyType::Call, StrategyType::Put] {
        assert!(can_price(st, "SPY", &md));
        assert!(dec_eq(&calculate_midprice(st, "SPY", &md), &dec(0, 0)));
        assert!(dec_eq(&checked_calculate_midprice(st, "SPY", &md).unwrap(), &dec(0, 0)));
    }
    assert!(!can_price(StrategyType::CreditSpread, "SPY", &md));
    assert!(!can_price(StrategyType::IronCondor, "SPY", &md));
}
