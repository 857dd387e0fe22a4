use options_trader::calendar::{parse_yymmdd, ExpirationDate};
use options_trader::decimal::{dec_eq, dec_lt, dec_parse, Dec};
use options_trader::platform::positions::{
    parse_equity_option, parse_future_option, Direction, LegOutcome, OptionSide, OptionType,
    Position, PriceEffect, StrategyType,
};
use options_trader::tt_api::positions::Leg;

fn chars(s: &str) -> Vec<char> {
    s.chars().collect()
}

fn dec(m: i128, scale: u32) -> Dec {
    Dec { mantissa: m, scale }
}

fn broker_leg(instrument_type: &str, symbol: &str, underlying: &str, direction: &str) -> Leg {
    Leg {
        instrument_type: Some(instrument_type.to_string()),
        multiplier: Some(100),
        realized_today: None,
        is_frozen: false,
        updated_at: None,
        average_daily_market_close_price: None,
        deliverable_type: None,
        underlying_symbol: Some(underlying.to_string()),
        mark_price: None,
        account_number: None,
        fixing_price: None,
        quantity: 1,
        realized_day_gain_date: None,
        expires_at: None,
        mark: None,
        realized_day_gain: None,
        realized_day_gain_effect: None,
        cost_effect: None,
        close_price: None,
        average_yearly_market_close_price: None,
        average_open_price: None,
        is_suppressed: false,
        created_at: None,
        symbol: symbol.to_string(),
        realized_today_date: None,
        order_id: None,
        realized_today_effect: None,
        quantity_direction: Some(direction.to_string()),
        restricted_quantity: None,
    }
}

#[test]
fn direction_parse_reads_both_spellings() {
    assert_eq!(Direction::parse("Long"), Direction::Long);
    assert_eq!(Direction::parse("Short"), Direction::Short);
}

#[test]
fn option_side_parse_reads_call_and_put() {
    assert_eq!(OptionSide::parse('C'), OptionSide::Call);
    assert_eq!(OptionSide::parse('P'), OptionSide::Put);
}

#[test]
fn option_side_and_effect_texts() {
    assert_eq!(OptionSide::Call.to_string(), "Call");
    assert_eq!(OptionSide::Put.to_string(), "Put");
    assert_eq!(PriceEffect::Credit.to_string(), "Credit");
    assert_eq!(PriceEffect::Debit.to_string(), "Debit");
}

#[test]
fn option_type_from_broker_names() {
    assert_eq!(OptionType::get_symbol_type("Equity"), OptionType::Equity);
    assert_eq!(OptionType::get_symbol_type("Future"), OptionType::Future);
    assert_eq!(OptionType::get_symbol_type("Equity Option"), OptionType::EquityOption);
    assert_eq!(OptionType::get_symbol_type("Future Option"), OptionType::FutureOption);
}

#[test]
fn option_type_display_texts_keep_trailing_space() {
    assert_eq!(OptionType::Equity.to_string(), "Equity");
    assert_eq!(OptionType::Future.to_string(), "Future");
    assert_eq!(OptionType::EquityOption.to_string(), "EquityOption ");
    assert_eq!(OptionType::FutureOption.to_string(), "FutureOption ");
}

#[test]
fn yymmdd_dates_parse_with_century_pivot() {
    assert_eq!(
        parse_yymmdd(&chars("240315")),
        Some(ExpirationDate { year: 2024, month: 3, day: 15 })
    );
    assert_eq!(
        parse_yymmdd(&chars("991231")),
        Some(ExpirationDate { year: 1999, month: 12, day: 31 })
    );
    assert_eq!(
        parse_yymmdd(&chars("000229")),
        Some(ExpirationDate { year: 2000, month: 2, day: 29 })
    );
    assert_eq!(parse_yymmdd(&chars("230229")), None);
    assert_eq!(parse_yymmdd(&chars("241301")), None);
}

#[test]
fn decimals_compare_by_value() {
    assert!(dec_eq(&dec(10, 1), &dec(100, 2)));
    assert!(dec_lt(&dec(499, 0), &dec(5000, 1)));
    assert!(!dec_lt(&dec(5, 0), &dec(5, 0)));
    let parsed = dec_parse(&chars("4512.75")).unwrap();
    assert!(dec_eq(&parsed, &dec(451275, 2)));
    assert!(dec_parse(&chars("abc")).is_none());
}

#[test]
fn equity_option_symbol_parses() {
    match parse_equity_option("SPY   240315C00500000", "SPY", "Short", 2) {
        LegOutcome::Parsed(leg) => {
            assert_eq!(leg.symbol, "SPY   240315C00500000");
            assert_eq!(leg.underlying, "SPY");
            assert_eq!(leg.expiration_date, ExpirationDate { year: 2024, month: 3, day: 15 });
            assert_eq!(leg.side, OptionSide::Call);
            assert_eq!(leg.direction, Direction::Short);
            assert!(dec_eq(&leg.strike_price, &dec(500, 0)));
            assert_eq!(leg.quantity, 2);
            assert_eq!(leg.option_type, OptionType::EquityOption);
        }
        _ => panic!("expected a parsed leg"),
    }
}

#[test]
fn equity_option_fractional_strike() {
    match parse_equity_option("AAPL  240621P00187500", "AAPL", "Long", 1) {
        LegOutcome::Parsed(leg) => {
            assert_eq!(leg.side, OptionSide::Put);
            assert!(dec_eq(&leg.strike_price, &dec(1875, 1)));
        }
        _ => panic!("expected a parsed leg"),
    }
}

#[test]
fn equity_option_wrong_length_is_rejected() {
    assert!(matches!(
        parse_equity_option("SPY 240315C00500000", "SPY", "Short", 1),
        LegOutcome::Rejected
    ));
}

#[test]
fn equity_option_bad_date_is_rejected() {
    assert!(matches!(
        parse_equity_option("SPY   241345C00500000", "SPY", "Short", 1),
        LegOutcome::Rejected
    ));
}

#[test]
fn equity_option_bad_side_letter_cannot_be_read() {
    assert!(matches!(
        parse_equity_option("SPY   240315X00500000", "SPY", "Short", 1),
        LegOutcome::Panics
    ));
}

#[test]
fn future_option_symbol_parses() {
    match parse_future_option("./ESH4 EW3H4 240315C5000", "/ES", "Long", 1) {
        LegOutcome::Parsed(leg) => {
            assert_eq!(leg.expiration_date, ExpirationDate { year: 2024, month: 3, day: 15 });
            assert_eq!(leg.side, OptionSide::Call);
            assert_eq!(leg.direction, Direction::Long);
            assert!(dec_eq(&leg.strike_price, &dec(5000, 0)));
            assert_eq!(leg.option_type, OptionType::FutureOption);
            assert_eq!(leg.underlying, "/ES");
        }
        _ => panic!("expected a parsed leg"),
    }
}

#[test]
fn future_option_short_or_unprefixed_is_rejected() {
    assert!(matches!(
        parse_future_option("./ESH4 240315C5000", "/ES", "Long", 1),
        LegOutcome::Rejected
    ));
    assert!(matches!(
        parse_future_option("ESH4 EW3H4 240315C50000", "/ES", "Long", 1),
        LegOutcome::Rejected
    ));
}

#[test]
fn future_option_wrong_token_count_is_rejected() {
    assert!(matches!(
        parse_future_option("./ESH4 EW3H4 X 240315C5000", "/ES", "Long", 1),
        LegOutcome::Rejected
    ));
}

#[test]
fn credit_spread_position_sorted_highest_strike_first() {
    let legs = vec![
        broker_leg("Equity Option", "SPY   240315C00500000", "SPY", "Short"),
        broker_leg("Equity Option", "SPY   240315C00510000", "SPY", "Long"),
    ];
    let p = Position::new(legs);
    assert_eq!(p.strategy_type, StrategyType::CreditSpread);
    assert_eq!(p.legs.len(), 2);
    assert!(dec_eq(&p.legs[0].strike_price, &dec(510, 0)));
    assert!(dec_eq(&p.legs[1].strike_price, &dec(500, 0)));
    assert_eq!(p.legs[0].direction, Direction::Long);
}

#[test]
fn calendar_spread_same_strike_different_expiry() {
    let legs = vec![
        broker_leg("Equity Option", "SPY   240315P00450000", "SPY", "Short"),
        broker_leg("Equity Option", "SPY   240419P00450000", "SPY", "Long"),
    ];
    let p = Position::new(legs);
    assert_eq!(p.strategy_type, StrategyType::CalendarSpread);
}

#[test]
fn two_legs_other_when_neither_rule_holds() {
    let legs = vec![
        broker_leg("Equity Option", "SPY   240315P00450000", "SPY", "Short"),
        broker_leg("Equity Option", "SPY   240419P00440000", "SPY", "Long"),
    ];
    let p = Position::new(legs);
    assert_eq!(p.strategy_type, StrategyType::Other);
}

#[test]
fn single_legs_are_calls_or_puts() {
    let p = Position::new(vec![broker_leg("Equity Option", "SPY   240315P00450000", "SPY", "Long")]);
    assert_eq!(p.strategy_type, StrategyType::Put);
    let p = Position::new(vec![broker_leg("Equity Option", "SPY   240315C00450000", "SPY", "Long")]);
    assert_eq!(p.strategy_type, StrategyType::Call);
}

#[test]
fn four_legs_form_an_iron_condor_sorted_by_strike() {
    let legs = vec![
        broker_leg("Equity Option", "SPY   240315P00440000", "SPY", "Long"),
        broker_leg("Equity Option", "SPY   240315C00520000", "SPY", "Long"),
        broker_leg("Equity Option", "SPY   240315P00450000", "SPY", "Short"),
        broker_leg("Equity Option", "SPY   240315C00510000", "SPY", "Short"),
    ];
    let p = Position::new(legs);
    assert_eq!(p.strategy_type, StrategyType::IronCondor);
    let strikes: Vec<i128> = vec![520, 510, 450, 440];
    for (leg, k) in p.legs.iter().zip(strikes.iter()) {
        assert!(dec_eq(&leg.strike_price, &dec(*k, 0)));
    }
}

#[test]
fn rejected_symbols_are_left_out_of_the_position() {
    let legs = vec![
        broker_leg("Equity Option", "SPY   240315P00440000", "SPY", "Long"),
        broker_leg("Equity Option", "BAD", "SPY", "Long"),
        broker_leg("Equity Option", "SPY   240315P00450000", "SPY", "Short"),
    ];
    let p = Position::new(legs);
    assert_eq!(p.legs.len(), 2);
    assert_eq!(p.strategy_type, StrategyType::Other);
}

#[test]
fn try_new_refuses_unreadable_legs() {
    let mut leg = broker_leg("Equity Option", "SPY   240315P00440000", "SPY", "Long");
    leg.instrument_type = None;
    assert!(Position::try_new(vec![leg]).is_none());
    let leg = broker_leg("Bond", "SPY   240315P00440000", "SPY", "Long");
    assert!(Position::try_new(vec![leg]).is_none());
    let leg = broker_leg("Equity Option", "SPY   240315P00440000", "SPY", "Sideways");
    assert!(Position::try_new(vec![leg]).is_none());
}

#[test]
fn non_option_legs_are_skipped() {
    let legs = vec![
        broker_leg("Equity", "SPY", "SPY", "Long"),
        broker_leg("Equity Option", "SPY   240315P00450000", "SPY", "Short"),
        broker_leg("Equity Option", "SPY   240315P00440000", "SPY", "Long"),
    ];
    let p = Position::try_new(legs).unwrap();
    assert_eq!(p.legs.len(), 2);
    assert_eq!(p.strategy_type, StrategyType::Other);
}

#[test]
fn equity_option_whole_strike_parses_exactly() {
    match parse_equity_option("SPY   231215C00450000", "SPY", "Long", 1) {
        LegOutcome::Parsed(leg) => {
            assert_eq!(leg.expiration_date, ExpirationDate { year: 2023, month: 12, day: 15 });
            assert_eq!(leg.side, OptionSide::Call);
            assert_eq!(leg.strike_price.mantissa, 450);
            assert_eq!(leg.strike_price.scale, 0);
        }
        _ => panic!("expected a parsed leg"),
    }
}

#[test]
fn future_option_with_put_parses() {
    match parse_future_option("./ESZ3 EW4Z3 231222P4500", "/ES", "Short", 1) {
        LegOutcome::Parsed(leg) => {
            assert_eq!(leg.expiration_date, ExpirationDate { year: 2023, month: 12, day: 22 });
            assert_eq!(leg.side, OptionSide::Put);
            assert_eq!(leg.direction, Direction::Short);
            assert_eq!(leg.strike_price.mantissa, 4500);
            assert_eq!(leg.strike_price.scale, 0);
        }
        _ => panic!("expected a parsed leg"),
    }
}

#[test]
fn digit_strings_parse_at_scale_zero() {
    let d = dec_parse(&chars("00450000")).unwrap();
    assert_eq!((d.mantissa, d.scale), (450000, 0));
    let d = dec_parse(&chars("12345678901234567")).unwrap();
    assert_eq!((d.mantissa, d.scale), (12345678901234567, 0));
}
