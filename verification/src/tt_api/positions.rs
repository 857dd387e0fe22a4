//! The broker's account-positions response.
use vstd::prelude::*;

verus! {

/// The response to `accounts/{account}/positions`.
#[derive(Debug)]
pub struct AccountPositions {
    pub data: Positions,
    pub context: String,
}

/// The positions of an account.
#[derive(Clone, Debug)]
pub struct Positions {
    pub legs: Vec<Leg>,
}

/// One position leg as the broker reports it.
#[derive(Clone, Debug)]
pub struct Leg {
    pub instrument_type: Option<String>,
    pub multiplier: Option<i32>,
    pub realized_today: Option<String>,
    pub is_frozen: bool,
    pub updated_at: Option<String>,
    pub average_daily_market_close_price: Option<String>,
    pub deliverable_type: Option<String>,
    pub underlying_symbol: Option<String>,
    pub mark_price: Option<String>,
    pub account_number: Option<String>,
    pub fixing_price: Option<String>,
    pub quantity: i32,
    pub realized_day_gain_date: Option<String>,
    pub expires_at: Option<String>,
    pub mark: Option<Option<String>>,
    pub realized_day_gain: Option<String>,
    pub realized_day_gain_effect: Option<String>,
    pub cost_effect: Option<String>,
    pub close_price: Option<String>,
    pub average_yearly_market_close_price: Option<String>,
    pub average_open_price: Option<String>,
    pub is_suppressed: bool,
    pub created_at: Option<String>,
    pub symbol: String,
    pub realized_today_date: Option<String>,
    pub order_id: Option<String>,
    pub realized_today_effect: Option<String>,
    pub quantity_direction: Option<String>,
    pub restricted_quantity: Option<i32>,
}

/// The text of an optional string.
pub open spec fn opt_text(s: Option<String>) -> Option<Seq<char>> {
    match s {
        Some(t) => Some(t@),
        None => None,
    }
}

/// What the position logic reads of a leg.
pub struct LegView {
    pub instrument_type: Option<Seq<char>>,
    pub underlying_symbol: Option<Seq<char>>,
    pub quantity_direction: Option<Seq<char>>,
    pub quantity: i32,
    pub symbol: Seq<char>,
}

impl View for Leg {
    type V = LegView;

    open spec fn view(&self) -> LegView {
        LegView {
            instrument_type: opt_text(self.instrument_type),
            underlying_symbol: opt_text(self.underlying_symbol),
            quantity_direction: opt_text(self.quantity_direction),
            quantity: self.quantity,
            symbol: self.symbol@,
        }
    }
}

} // verus!
