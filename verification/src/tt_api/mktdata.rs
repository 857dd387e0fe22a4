//! Market-data messages of the streaming feed, as the logic reads them.
use vstd::prelude::*;

use crate::decimal::{dec_checked_add, dec_checked_div, decimal_checked_add, decimal_checked_div, Dec};

verus! {

/// The quote-streaming token and endpoints the broker hands out.
#[derive(Clone, Debug)]
pub struct ApiQuoteToken {
    pub token: String,
    pub streamer_url: Option<String>,
    pub websocket_url: Option<String>,
    pub dxlink_url: String,
    pub level: String,
}

/// The two-sided price of a quote and its mid-point.
pub open spec fn mid_of(bid: Dec, ask: Dec) -> Option<Dec> {
    match decimal_checked_add(bid, ask) {
        None => None,
        Some(sum) => decimal_checked_div(sum, Dec { mantissa: 2, scale: 0 }),
    }
}

/// A quote event: the symbol it is for, its bid and ask, and the mid-point of
/// the two, fixed when the quote is made.
#[derive(Clone, Debug)]
pub struct Quote {
    pub event_symbol: String,
    pub bid_price: Dec,
    pub ask_price: Dec,
    pub mid_price: Dec,
}

impl Quote {
    /// The quote's mid-point, `(bid + ask) / 2`.
    pub open spec fn spec_midprice(self) -> Dec {
        self.mid_price
    }

    /// The quote's well-formedness: its prices are decimals and its mid-point
    /// is theirs.
    pub open spec fn wf(self) -> bool {
        &&& self.bid_price.wf()
        &&& self.ask_price.wf()
        &&& self.mid_price.wf()
        &&& mid_of(self.bid_price, self.ask_price) == Some(self.mid_price)
    }

    /// Makes a quote; `None` where `(bid + ask) / 2` overflows the decimal range.
    pub fn new(event_symbol: String, bid_price: Dec, ask_price: Dec) -> (r: Option<Quote>)
        requires
            bid_price.wf(),
            ask_price.wf(),
        ensures
            r is Some <==> mid_of(bid_price, ask_price) is Some,
            r matches Some(q) ==> q.wf() && q.event_symbol@ == event_symbol@ && q.bid_price
                == bid_price && q.ask_price == ask_price && Some(q.spec_midprice()) == mid_of(
                bid_price,
                ask_price,
            ),
    {
        let sum = match dec_checked_add(&bid_price, &ask_price) {
            None => {
                return None;
            },
            Some(s) => s,
        };
        let two = Dec::from_u32(2);
        let mid = match dec_checked_div(&sum, &two) {
            None => {
                return None;
            },
            Some(m) => m,
        };
        Some(Quote { event_symbol, bid_price, ask_price, mid_price: mid })
    }

    /// The mid-point of the quote.
    pub fn midprice(&self) -> (m: Dec)
        requires
            self.wf(),
        ensures
            m == self.spec_midprice(),
            m.wf(),
    {
        self.mid_price
    }
}

/// The mathematical content of a quote.
pub struct QuoteView {
    pub event_symbol: Seq<char>,
    pub bid_price: Dec,
    pub ask_price: Dec,
    pub mid_price: Dec,
}

impl View for Quote {
    type V = QuoteView;

    open spec fn view(&self) -> QuoteView {
        QuoteView {
            event_symbol: self.event_symbol@,
            bid_price: self.bid_price,
            ask_price: self.ask_price,
            mid_price: self.mid_price,
        }
    }
}

impl Quote {
    /// A copy of the quote.
    pub fn copy(&self) -> (r: Quote)
        ensures
            r@ == self@,
    {
        Quote {
            event_symbol: self.event_symbol.clone(),
            bid_price: self.bid_price,
            ask_price: self.ask_price,
            mid_price: self.mid_price,
        }
    }
}

/// A greeks event, as the logic reads it: the symbol it is for.
#[derive(Clone, Debug)]
pub struct Greeks {
    pub event_symbol: String,
}

impl Greeks {
    /// A copy of the event.
    pub fn copy(&self) -> (r: Greeks)
        ensures
            r.event_symbol@ == self.event_symbol@,
    {
        Greeks { event_symbol: self.event_symbol.clone() }
    }
}

/// An event of the market-data feed.
#[derive(Clone, Debug)]
pub enum FeedEvent {
    QuoteEvent(Quote),
    GreeksEvent(Greeks),
}

impl FeedEvent {
    /// The symbol the event is for.
    pub open spec fn symbol(self) -> Seq<char> {
        match self {
            FeedEvent::QuoteEvent(q) => q.event_symbol@,
            FeedEvent::GreeksEvent(g) => g.event_symbol@,
        }
    }

    /// Quotes in the event are well formed.
    pub open spec fn wf(self) -> bool {
        self matches FeedEvent::QuoteEvent(q) ==> q.wf()
    }

    /// Two events are of the same kind: both quotes or both greeks.
    pub open spec fn same_kind(self, other: FeedEvent) -> bool {
        (self is QuoteEvent && other is QuoteEvent) || (self is GreeksEvent && other is GreeksEvent)
    }
}

impl PartialEq for FeedEvent {
    /// Events compare by kind only.
    fn eq(&self, other: &Self) -> (r: bool) {
        match (self, other) {
            (FeedEvent::QuoteEvent(_), FeedEvent::QuoteEvent(_)) => true,
            (FeedEvent::GreeksEvent(_), FeedEvent::GreeksEvent(_)) => true,
            _ => false,
        }
    }
}

impl vstd::std_specs::cmp::PartialEqSpecImpl for FeedEvent {
    open spec fn obeys_eq_spec() -> bool {
        true
    }

    open spec fn eq_spec(&self, other: &FeedEvent) -> bool {
        self.same_kind(*other)
    }
}

// The instrument descriptions the broker returns.

/// The type and channel of a feed message.
pub struct Message {
    pub message_type: String,
    pub channel: i32,
}

/// The product a future option belongs to.
pub struct FutureOptionProduct {
    pub root_symbol: Option<String>,
    pub exchange: Option<String>,
    pub settlement_delay_days: Option<i32>,
    pub code: Option<String>,
    pub supported: Option<bool>,
    pub market_sector: Option<String>,
    pub product_type: Option<String>,
    pub expiration_type: Option<String>,
    pub display_factor: Option<String>,
    pub product_subtype: Option<String>,
    pub cash_settled: Option<bool>,
}

/// A future option instrument.
pub struct FutureOption {
    pub future_option_product: Option<FutureOptionProduct>,
    pub multiplier: Option<String>,
    pub root_symbol: String,
    pub exchange: Option<String>,
    pub notional_value: Option<String>,
    pub active: Option<bool>,
    pub is_closing_only: Option<bool>,
    pub underlying_symbol: String,
    pub maturity_date: Option<String>,
    pub is_exercisable_weekly: Option<bool>,
    pub strike_factor: Option<String>,
    pub product_code: Option<String>,
    pub days_to_expiration: Option<i32>,
    pub option_root_symbol: Option<String>,
    pub expiration_date: Option<String>,
    pub expires_at: Option<String>,
    pub last_trade_time: Option<String>,
    pub strike_price: Option<String>,
    pub is_primary_deliverable: Option<bool>,
    pub option_type: Option<String>,
    pub symbol: String,
    pub is_vanilla: Option<bool>,
    pub streamer_symbol: Option<String>,
    pub display_factor: Option<String>,
    pub stops_trading_at: Option<String>,
    pub exercise_style: Option<String>,
    pub is_confirmed: Option<bool>,
    pub future_price_ratio: Option<String>,
    pub settlement_type: Option<String>,
    pub underlying_count: Option<String>,
}

/// An equity option instrument.
pub struct EquityOption {
    pub halted_at: Option<String>,
    pub instrument_type: String,
    pub root_symbol: String,
    pub active: Option<bool>,
    pub is_closing_only: Option<bool>,
    pub underlying_symbol: String,
    pub days_to_expiration: Option<i32>,
    pub expiration_date: Option<String>,
    pub expires_at: Option<String>,
    pub listed_market: Option<String>,
    pub strike_price: Option<String>,
    pub old_security_number: Option<String>,
    pub option_type: Option<String>,
    pub market_time_instrument_collection: Option<String>,
    pub symbol: Option<String>,
    pub streamer_symbol: Option<String>,
    pub expiration_type: Option<String>,
    pub shares_per_contract: Option<i32>,
    pub stops_trading_at: Option<String>,
    pub exercise_style: Option<String>,
    pub settlement_type: Option<String>,
    pub option_chain_type: Option<String>,
}

/// A tick size of an equity.
pub struct TickSizes {
    pub value: Option<String>,
    pub threshold: Option<String>,
    pub symbol: Option<String>,
}

/// The exchange-traded fund equivalent of a future.
pub struct FutureETFEquivalent {
    pub symbol: Option<String>,
    pub share_quantity: Option<i32>,
}

/// Exchange-specific data (none is read).
pub struct ExchangeData {}

/// A tick size of an equity's options.
pub struct OptionTickSizes {
    pub value: Option<String>,
    pub threshold: Option<String>,
    pub symbol: Option<String>,
}

/// The exchange-traded fund equivalent of a future, with an unsigned share count.
pub struct FutureEtfEquivalent {
    pub symbol: Option<String>,
    pub share_quantity: Option<u32>,
}

/// A tick size.
pub struct TickSize {
    pub value: Option<String>,
}

/// How a future product rolls.
pub struct Roll {
    pub name: Option<String>,
    pub active_count: Option<u32>,
    pub cash_settled: Option<bool>,
    pub business_days_offset: Option<u32>,
    pub first_notice: Option<bool>,
}

/// The product a future belongs to.
pub struct FutureProduct {
    pub root_symbol: Option<String>,
    pub code: Option<String>,
    pub description: Option<String>,
    pub clearing_code: Option<String>,
    pub clearing_exchange_code: Option<String>,
    pub clearport_code: Option<String>,
    pub legacy_code: Option<String>,
    pub exchange: Option<String>,
    pub legacy_exchange_code: Option<String>,
    pub product_type: Option<String>,
    pub listed_months: Option<Vec<String>>,
    pub active_months: Option<Vec<String>>,
    pub notional_multiplier: Option<String>,
    pub tick_size: Option<String>,
    pub display_factor: Option<String>,
    pub streamer_exchange_code: Option<String>,
    pub small_notional: Option<bool>,
    pub back_month_first_calendar_symbol: Option<bool>,
    pub first_notice: Option<bool>,
    pub cash_settled: Option<bool>,
    pub security_group: Option<String>,
    pub market_sector: Option<String>,
    pub supported: Option<bool>,
    pub roll: Option<Roll>,
}

/// A tick size of a future spread.
pub struct SpreadTickSize {
    pub value: Option<String>,
    pub symbol: Option<String>,
}

/// A future instrument.
pub struct Future {
    pub symbol: Option<String>,
    pub product_code: Option<String>,
    pub contract_size: Option<String>,
    pub tick_size: Option<String>,
    pub notional_multiplier: Option<String>,
    pub main_fraction: Option<String>,
    pub sub_fraction: Option<String>,
    pub display_factor: Option<String>,
    pub last_trade_date: Option<String>,
    pub expiration_date: Option<String>,
    pub closing_only_date: Option<String>,
    pub active: Option<bool>,
    pub active_month: Option<bool>,
    pub next_active_month: Option<bool>,
    pub is_closing_only: Option<bool>,
    pub stops_trading_at: Option<String>,
    pub expires_at: Option<String>,
    pub product_group: Option<String>,
    pub exchange: Option<String>,
    pub streamer_exchange_code: Option<String>,
    pub streamer_symbol: Option<String>,
    pub back_month_first_calendar_symbol: Option<bool>,
    pub is_tradeable: Option<bool>,
    pub future_etf_equivalent: Option<FutureEtfEquivalent>,
    pub future_product: Option<FutureProduct>,
    pub tick_sizes: Option<Vec<TickSize>>,
    pub option_tick_sizes: Option<Vec<TickSize>>,
    pub spread_tick_sizes: Option<Vec<SpreadTickSize>>,
}

/// The broker's response envelope.
pub struct Response<T> {
    pub data: T,
    pub context: String,
}

} // verus!
