//! Order messages of the broker API.
use vstd::prelude::*;

use crate::decimal::Dec;

verus! {

/// One leg of a placed order as the broker reports it.
#[derive(Debug)]
pub struct LegData {
    pub instrument_type: String,
    pub symbol: String,
    pub quantity: i32,
    pub remaining_quantity: i32,
    pub action: String,
    pub fills: Vec<String>,
}

/// A placed order as the broker reports it.
#[derive(Debug)]
pub struct OrderData {
    pub id: i32,
    pub account_number: String,
    pub time_in_force: String,
    pub order_type: String,
    pub size: i32,
    pub underlying_symbol: String,
    pub underlying_instrument_type: String,
    pub status: String,
    pub cancellable: bool,
    pub editable: bool,
    pub edited: bool,
    pub legs: Vec<LegData>,
}

/// An order to send.
#[derive(Debug)]
pub struct Order {
    pub time_in_force: String,
    pub order_type: String,
    pub price: Dec,
    pub price_effect: String,
    pub legs: Vec<Leg>,
}

/// One leg of an order to send.
#[derive(Debug)]
pub struct Leg {
    pub instrument_type: String,
    pub symbol: String,
    pub quantity: i32,
    pub action: String,
}

/// Routing rules of an order.
#[derive(Debug)]
pub struct Rules {
    pub route_after: String,
    pub cancel_at: String,
    pub conditions: Vec<Condition>,
}

/// A condition of an order's routing rules.
#[derive(Debug)]
pub struct Condition {
    pub action: String,
    pub symbol: String,
    pub instrument_type: String,
    pub indicator: String,
    pub comparator: String,
    pub threshold: u32,
    pub price_components: Vec<PriceComponent>,
}

/// A price component of a rule condition.
#[derive(Debug)]
pub struct PriceComponent {
    pub symbol: String,
    pub instrument_type: String,
    pub quantity: u32,
    pub quantity_direction: String,
}

/// Advanced order instructions.
#[derive(Debug, Default)]
pub struct AdvancedInstructions {
    pub strict_position_effect_validation: bool,
}

/// The mathematical content of an order leg.
pub struct OrderLegView {
    pub instrument_type: Seq<char>,
    pub symbol: Seq<char>,
    pub quantity: i32,
    pub action: Seq<char>,
}

impl View for Leg {
    type V = OrderLegView;

    open spec fn view(&self) -> OrderLegView {
        OrderLegView {
            instrument_type: self.instrument_type@,
            symbol: self.symbol@,
            quantity: self.quantity,
            action: self.action@,
        }
    }
}

/// The views of order legs.
pub open spec fn order_legs_view(legs: Seq<Leg>) -> Seq<OrderLegView> {
    legs.map_values(|l: Leg| l@)
}

/// The mathematical content of an order.
pub struct OrderView {
    pub time_in_force: Seq<char>,
    pub order_type: Seq<char>,
    pub price: Dec,
    pub price_effect: Seq<char>,
    pub legs: Seq<OrderLegView>,
}

impl View for Order {
    type V = OrderView;

    open spec fn view(&self) -> OrderView {
        OrderView {
            time_in_force: self.time_in_force@,
            order_type: self.order_type@,
            price: self.price,
            price_effect: self.price_effect@,
            legs: order_legs_view(self.legs@),
        }
    }
}

} // verus!
