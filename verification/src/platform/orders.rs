//! Orders: building a closing order for a position, pricing it at the
//! strategy's mid-point, and keeping track of the orders placed.
use vstd::prelude::*;
use vstd::string::*;

use crate::decimal::{
    dec_checked_add, dec_checked_div, dec_checked_sub, dec_eq, dec_same, decimal_checked_add,
    decimal_checked_div, decimal_checked_sub, Dec,
};
use crate::platform::mktdata::{
    all_wf, first_with_symbol, grouping_panics, lemma_grouped_snapshots_sorted, options_of,
    snapshots_view, sort_by_strike_asc, MktData, Snapshot, SnapshotView,
};
use crate::platform::positions::{
    option_legs_view, Direction, OptionLegView, Position, PositionView, PriceEffect,
    StrategyType,
};
use crate::strategy::generic::{dec_zero, leg_symbols, position_symbols, snapshot_mid};
use crate::tt_api::orders::{order_legs_view, Leg, Order, OrderLegView, OrderView};
use crate::tt_api::sessions::Payload;

verus! {

broadcast use to_string_from_display_ensures_for_str;

/// The kinds of order.
#[derive(Debug, Clone, Copy, PartialEq, Eq, Structural)]
pub enum OrderType {
    Market,
    Limit,
    Stop,
    StopLimit,
}

impl OrderType {
    /// The display text of the order type.
    pub open spec fn text(self) -> Seq<char> {
        match self {
            OrderType::Market => "Market"@,
            OrderType::Limit => "Limit"@,
            OrderType::Stop => "Stop"@,
            OrderType::StopLimit => "StopLimit"@,
        }
    }

    /// The display text of the order type.
    pub fn to_string(&self) -> (s: String)
        ensures
            s@ == self.text(),
    {
        match self {
            OrderType::Market => "Market".to_string(),
            OrderType::Limit => "Limit".to_string(),
            OrderType::Stop => "Stop".to_string(),
            OrderType::StopLimit => "StopLimit".to_string(),
        }
    }
}

/// The closing action for a leg held in `direction`.
pub open spec fn action_text(direction: Direction) -> Seq<char> {
    match direction {
        Direction::Long => "Sell to Close"@,
        Direction::Short => "Buy to Close"@,
    }
}

/// The closing action for a leg held in `direction`: long legs are sold,
/// short legs bought back.
pub fn get_action(direction: Direction) -> (s: String)
    ensures
        s@ == action_text(direction),
{
    match direction {
        Direction::Long => "Sell to Close".to_string(),
        Direction::Short => "Buy to Close".to_string(),
    }
}

/// The order leg that closes a position leg.
pub open spec fn closing_leg(l: OptionLegView) -> OrderLegView {
    OrderLegView {
        instrument_type: l.option_type.text(),
        symbol: l.symbol,
        quantity: l.quantity,
        action: action_text(l.direction),
    }
}

/// The order that closes a position: a day limit order, priced at zero until
/// priced, one closing leg per position leg.
pub open spec fn closing_order(p: PositionView, price_effect: PriceEffect) -> OrderView {
    OrderView {
        time_in_force: "DAY"@,
        order_type: "Limit"@,
        price: dec_zero(),
        price_effect: price_effect.text(),
        legs: p.legs.map_values(|l: OptionLegView| closing_leg(l)),
    }
}

/// Builds the order that closes `position`.
pub fn build_order(position: &Position, price_effect: PriceEffect) -> (o: Order)
    ensures
        o@ == closing_order(position@, price_effect),
{
    let mut legs: Vec<Leg> = Vec::new();
    let mut i: usize = 0;
    let ghost target = position@.legs.map_values(|l: OptionLegView| closing_leg(l));
    while i < position.legs.len()
        invariant
            0 <= i <= position.legs.len(),
            target == position@.legs.map_values(|l: OptionLegView| closing_leg(l)),
            order_legs_view(legs@) == target.take(i as int),
        decreases position.legs.len() - i,
    {
        let leg = &position.legs[i];
        let l = Leg {
            instrument_type: leg.option_type.to_string(),
            symbol: leg.symbol.clone(),
            quantity: leg.quantity,
            action: get_action(leg.direction),
        };
        let ghost before = order_legs_view(legs@);
        legs.push(l);
        proof {
            assert(option_legs_view(position.legs@)[i as int] == position.legs@[i as int]@);
            assert(order_legs_view(legs@) =~= before.push(l@));
            assert(target.take(i + 1) =~= target.take(i as int).push(target[i as int]));
        }
        i = i + 1;
    }
    assert(target.take(position.legs.len() as int) =~= target);
    Order {
        time_in_force: "DAY".to_string(),
        order_type: OrderType::Limit.to_string(),
        price: Dec::zero(),
        price_effect: price_effect.to_string(),
        legs,
    }
}

/// `a + b / 2`, as the mid-point of a spread is computed (the division binds
/// first); `None` where the arithmetic overflows.
pub open spec fn plus_half(a: Dec, b: Dec) -> Option<Dec> {
    match decimal_checked_div(b, Dec { mantissa: 2, scale: 0 }) {
        None => None,
        Some(h) => decimal_checked_add(a, h),
    }
}

/// The mid-point used to price a strategy's order, from the mid-points of its
/// option snapshots sorted by strike; `None` where the arithmetic overflows.
pub open spec fn strategy_midprice(st: StrategyType, mids: Seq<Dec>) -> Option<Dec> {
    if st == StrategyType::CreditSpread || st == StrategyType::CalendarSpread {
        plus_half(mids[0], mids[1])
    } else if st == StrategyType::IronCondor {
        match plus_half(mids[0], mids[1]) {
            None => None,
            Some(call_mid) => match plus_half(mids[2], mids[3]) {
                None => None,
                Some(put_mid) => plus_half(call_mid, put_mid),
            },
        }
    } else {
        Some(dec_zero())
    }
}

/// The number of option snapshots a strategy's mid-point reads.
pub open spec fn snapshots_needed(st: StrategyType) -> nat {
    if st == StrategyType::CreditSpread || st == StrategyType::CalendarSpread {
        2
    } else if st == StrategyType::IronCondor {
        4
    } else {
        0
    }
}

/// The mid-points of snapshots.
pub open spec fn mids_of(s: Seq<SnapshotView>) -> Seq<Dec> {
    s.map_values(|x: SnapshotView| snapshot_mid(x))
}

/// The option snapshots a strategy on `symbol` is priced from.
pub open spec fn pricing_snapshots(md: Seq<SnapshotView>, symbol: Seq<char>) -> Seq<SnapshotView> {
    sort_by_strike_asc(options_of(md, symbol))
}

/// Pricing a strategy on `symbol` can read what it needs: a strategy that
/// reads option snapshots needs them sortable and numerous enough; one that
/// reads none (a single call or put, or another strategy) needs nothing.
pub open spec fn pricing_defined(st: StrategyType, md: Seq<SnapshotView>, symbol: Seq<char>) -> bool {
    snapshots_needed(st) > 0 ==> {
        &&& !grouping_panics(md, symbol)
        &&& pricing_snapshots(md, symbol).len() >= snapshots_needed(st)
    }
}

/// The number of option snapshots a strategy's mid-point reads.
fn snapshots_needed_exec(st: StrategyType) -> (n: usize)
    ensures
        n == snapshots_needed(st),
{
    match st {
        StrategyType::CreditSpread | StrategyType::CalendarSpread => 2,
        StrategyType::IronCondor => 4,
        _ => 0,
    }
}

/// Whether a strategy on `symbol` can be priced from the store (see
/// `pricing_defined`); where it cannot, pricing would read a strike or a
/// snapshot that is not there.
pub fn can_price(strategy_type: StrategyType, symbol: &str, mktdata: &MktData) -> (r: bool)
    requires
        mktdata.wf(),
    ensures
        r == pricing_defined(strategy_type, mktdata.view(), symbol@),
{
    let ghost v = mktdata.view();
    let ghost pred = |x: SnapshotView| x.underlying == symbol@ && x.symbol != symbol@;
    let mut count: usize = 0;
    let mut missing = false;
    let mut i: usize = 0;
    proof {
        reveal(Seq::filter);
        assert(v.take(0).filter(pred) =~= Seq::<SnapshotView>::empty());
    }
    while i < mktdata.events.len()
        invariant
            0 <= i <= mktdata.events.len(),
            v == mktdata.view(),
            v.len() == mktdata.events.len(),
            pred == (|x: SnapshotView| x.underlying == symbol@ && x.symbol != symbol@),
            count == v.take(i as int).filter(pred).len(),
            count <= i,
            missing == exists|k: int|
                0 <= k < v.take(i as int).filter(pred).len() && (#[trigger] v.take(
                    i as int,
                ).filter(pred)[k]).strike_price is None,
        decreases mktdata.events.len() - i,
    {
        let e = &mktdata.events[i];
        let ghost prev = v.take(i as int).filter(pred);
        proof {
            reveal(Seq::filter);
            assert(v.take(i + 1).drop_last() =~= v.take(i as int));
            assert(v.take(i + 1).last() == v[i as int]);
            assert(v[i as int] == e@);
        }
        let is_option = crate::text::str_eq(e.underlying.as_str(), symbol)
            && !crate::text::str_eq(e.symbol.as_str(), symbol);
        if is_option {
            proof {
                let next = v.take(i + 1).filter(pred);
                assert(next == prev.push(e@));
                if e.strike_price.is_none() {
                    assert(next[prev.len() as int] == e@);
                } else {
                    assert forall|k: int| 0 <= k < next.len() && (#[trigger] next[k]).strike_price
                        is None implies k < prev.len() && prev[k].strike_price is None by {
                        if k < prev.len() {
                            assert(next[k] == prev[k]);
                        }
                    }
                    assert forall|k: int| 0 <= k < prev.len() && (#[trigger] prev[k]).strike_price
                        is None implies next[k].strike_price is None by {
                        assert(next[k] == prev[k]);
                    }
                }
                if missing {
                    let k = choose|k: int| 0 <= k < prev.len() && (#[trigger] prev[k]).strike_price is None;
                    assert(next[k] == prev[k]);
                }
            }
            count = count + 1;
            if e.strike_price.is_none() {
                missing = true;
            }
        } else {
            proof {
                assert(v.take(i + 1).filter(pred) == prev);
            }
        }
        i = i + 1;
    }
    proof {
        assert(v.take(mktdata.events.len() as int) =~= v);
        lemma_grouped_snapshots_sorted(v, symbol@);
        broadcast use vstd::seq_lib::group_to_multiset_ensures;
        assert(pricing_snapshots(v, symbol@).len() == options_of(v, symbol@).len()) by {
            assert(pricing_snapshots(v, symbol@).to_multiset().len() == options_of(
                v,
                symbol@,
            ).to_multiset().len());
        }
    }
    let needed = snapshots_needed_exec(strategy_type);
    needed == 0 || (!(count >= 2 && missing) && count >= needed)
}

/// `a + b / 2` with the decimal arithmetic of `rust_decimal`.
fn plus_half_exec(a: Dec, b: Dec) -> (r: Option<Dec>)
    requires
        a.wf(),
        b.wf(),
    ensures
        r == plus_half(a, b),
        r matches Some(d) ==> d.wf(),
{
    let two = Dec::from_u32(2);
    match dec_checked_div(&b, &two) {
        None => None,
        Some(h) => dec_checked_add(&a, &h),
    }
}

/// The mid-point of a strategy from its option snapshots sorted by strike;
/// `None` where the arithmetic overflows (where pricing cannot be done).
pub fn midprice_from_snapshots(strategy_type: StrategyType, snapshots: &Vec<Snapshot>) -> (r:
    Option<Dec>)
    requires
        all_wf(snapshots@),
        snapshots.len() >= snapshots_needed(strategy_type),
    ensures
        r == strategy_midprice(strategy_type, mids_of(snapshots_view(snapshots@))),
        r matches Some(d) ==> d.wf(),
{
    let ghost mids = mids_of(snapshots_view(snapshots@));
    proof {
        assert forall|i: int| 0 <= i < snapshots.len() implies #[trigger] mids[i]
            == snapshots@[i].spec_mid_price() && snapshots@[i].wf() by {
            assert(snapshots_view(snapshots@)[i] == snapshots@[i]@);
        }
    }
    match strategy_type {
        StrategyType::CreditSpread | StrategyType::CalendarSpread => {
            let m0 = snapshots[0].mid_price();
            let m1 = snapshots[1].mid_price();
            plus_half_exec(m0, m1)
        },
        StrategyType::IronCondor => {
            let m0 = snapshots[0].mid_price();
            let m1 = snapshots[1].mid_price();
            let m2 = snapshots[2].mid_price();
            let m3 = snapshots[3].mid_price();
            let call_mid = match plus_half_exec(m0, m1) {
                None => {
                    return None;
                },
                Some(m) => m,
            };
            let put_mid = match plus_half_exec(m2, m3) {
                None => {
                    return None;
                },
                Some(m) => m,
            };
            plus_half_exec(call_mid, put_mid)
        },
        _ => Some(Dec::zero()),
    }
}

/// The mid-point a strategy on `symbol` is priced at, from the store's option
/// snapshots on `symbol`.
pub fn calculate_midprice(strategy_type: StrategyType, symbol: &str, mktdata: &MktData) -> (r: Dec)
    requires
        mktdata.wf(),
        pricing_defined(strategy_type, mktdata.view(), symbol@),
        strategy_midprice(
            strategy_type,
            mids_of(pricing_snapshots(mktdata.view(), symbol@)),
        ) is Some,
    ensures
        Some(r) == strategy_midprice(
            strategy_type,
            mids_of(pricing_snapshots(mktdata.view(), symbol@)),
        ),
        snapshots_needed(strategy_type) == 0 ==> r == dec_zero(),
        r.wf(),
{
    if snapshots_needed_exec(strategy_type) == 0 {
        return Dec::zero();
    }
    let snapshots = mktdata.group_snapshots_by_underlying(symbol);
    midprice_from_snapshots(strategy_type, &snapshots).unwrap()
}

/// The mid-point a strategy on `symbol` is priced at, or `None` where its
/// arithmetic overflows (where `calculate_midprice` may not be called).
pub fn checked_calculate_midprice(strategy_type: StrategyType, symbol: &str, mktdata: &MktData) -> (r:
    Option<Dec>)
    requires
        mktdata.wf(),
        pricing_defined(strategy_type, mktdata.view(), symbol@),
    ensures
        r == strategy_midprice(strategy_type, mids_of(pricing_snapshots(mktdata.view(), symbol@))),
        snapshots_needed(strategy_type) == 0 ==> r == Some(dec_zero()),
        r matches Some(d) ==> d.wf(),
{
    if snapshots_needed_exec(strategy_type) == 0 {
        return Some(Dec::zero());
    }
    let snapshots = mktdata.group_snapshots_by_underlying(symbol);
    match midprice_from_snapshots(strategy_type, &snapshots) {
        None => None,
        Some(_) => Some(calculate_midprice(strategy_type, symbol, mktdata)),
    }
}

/// Some leg of some order has one of these symbols.
pub open spec fn in_flight(orders: Seq<OrderView>, symbols: Seq<Seq<char>>) -> bool {
    exists|i: int, j: int, k: int|
        0 <= i < orders.len() && 0 <= j < orders[i].legs.len() && 0 <= k < symbols.len()
            && #[trigger] orders[i].legs[j].symbol == #[trigger] symbols[k]
}

/// The views of orders.
pub open spec fn orders_view(s: Seq<Order>) -> Seq<OrderView> {
    s.map_values(|o: Order| o@)
}

/// What opening (closing out) a position comes to.
pub enum OpenPlan {
    /// An order for one of the position's symbols is already in flight.
    InFlight,
    /// The mid-point came out zero: no order is placed.
    NoMidprice,
    /// Place this order, priced at the mid-point.
    Place(Order),
}

/// The mathematical content of an `OpenPlan`.
pub enum OpenPlanView {
    InFlight,
    NoMidprice,
    Place(OrderView),
}

/// The view of a plan, if any.
pub open spec fn plan_view(r: Option<OpenPlan>) -> Option<OpenPlanView> {
    match r {
        None => None,
        Some(OpenPlan::InFlight) => Some(OpenPlanView::InFlight),
        Some(OpenPlan::NoMidprice) => Some(OpenPlanView::NoMidprice),
        Some(OpenPlan::Place(o)) => Some(OpenPlanView::Place(o@)),
    }
}

/// What closing out a position comes to: nothing while an order for one of
/// its symbols is in flight; otherwise the strategy's mid-point on the
/// underlying (`None` where its arithmetic overflows), and an order priced at
/// it unless it is zero.
pub open spec fn open_plan(
    orders: Seq<OrderView>,
    p: PositionView,
    st: StrategyType,
    price_effect: PriceEffect,
    md: Seq<SnapshotView>,
) -> Option<OpenPlanView> {
    if in_flight(orders, leg_symbols(p)) {
        Some(OpenPlanView::InFlight)
    } else {
        match strategy_midprice(st, mids_of(pricing_snapshots(md, p.legs[0].underlying))) {
            None => None,
            Some(mid) => {
                if dec_same(mid, dec_zero()) {
                    Some(OpenPlanView::NoMidprice)
                } else {
                    Some(
                        OpenPlanView::Place(
                            OrderView { price: mid, ..closing_order(p, price_effect) },
                        ),
                    )
                }
            },
        }
    }
}

/// The orders placed so far.
pub struct Orders {
    pub orders: Vec<Order>,
}

impl Orders {
    /// The orders placed, in order.
    pub open spec fn view(&self) -> Seq<OrderView> {
        orders_view(self.orders@)
    }

    /// No orders yet.
    pub fn new() -> (o: Orders)
        ensures
            o.view() == Seq::<OrderView>::empty(),
    {
        let o = Orders { orders: Vec::new() };
        assert(o.view() =~= Seq::<OrderView>::empty());
        o
    }

    /// Whether an order for one of the position's leg symbols is in flight.
    pub fn has_order_in_flight(&self, position: &Position) -> (r: bool)
        ensures
            r == in_flight(self.view(), leg_symbols(position@)),
    {
        let symbols = position_symbols(position);
        let ghost sv = symbols@.map_values(|s: String| s@);
        let mut i: usize = 0;
        while i < self.orders.len()
            invariant
                0 <= i <= self.orders.len(),
                sv == leg_symbols(position@),
                sv == symbols@.map_values(|s: String| s@),
                forall|a: int, b: int, c: int|
                    0 <= a < i && 0 <= b < self.view()[a].legs.len() && 0 <= c < sv.len() ==> #[trigger] self.view()[a].legs[b].symbol != #[trigger] sv[c],
            decreases self.orders.len() - i,
        {
            let order = &self.orders[i];
            let mut j: usize = 0;
            proof {
                assert(self.view()[i as int] == order@);
            }
            while j < order.legs.len()
                invariant
                    0 <= j <= order.legs.len(),
                    0 <= i < self.orders.len(),
                    self.view()[i as int] == order@,
                    sv == leg_symbols(position@),
                    sv == symbols@.map_values(|s: String| s@),
                    forall|b: int, c: int|
                        0 <= b < j && 0 <= c < sv.len() ==> #[trigger] order@.legs[b].symbol != #[trigger] sv[c],
                decreases order.legs.len() - j,
            {
                let mut k: usize = 0;
                while k < symbols.len()
                    invariant
                        0 <= k <= symbols.len(),
                        0 <= j < order.legs.len(),
                        0 <= i < self.orders.len(),
                        sv == leg_symbols(position@),
                        self.view()[i as int] == order@,
                        sv == symbols@.map_values(|s: String| s@),
                        forall|c: int| 0 <= c < k ==> order@.legs[j as int].symbol != #[trigger] sv[c],
                    decreases symbols.len() - k,
                {
                    proof {
                        assert(order@.legs[j as int] == order.legs@[j as int]@);
                    }
                    if crate::text::str_eq(symbols[k].as_str(), order.legs[j].symbol.as_str()) {
                        proof {
                            assert(self.view()[i as int].legs[j as int].symbol == sv[k as int]);
                            assert(self.view()[i as int].legs[j as int].symbol == leg_symbols(
                                position@,
                            )[k as int]);
                        }
                        return true;
                    }
                    k = k + 1;
                }
                j = j + 1;
            }
            i = i + 1;
        }
        false
    }

    /// Prices an order at the mid-point; `None` where the mid-point is zero.
    pub fn price_order(order: Order, midprice: Dec) -> (r: Option<Order>)
        requires
            midprice.wf(),
        ensures
            dec_same(midprice, dec_zero()) ==> r is None,
            !dec_same(midprice, dec_zero()) ==> (r matches Some(o) && o@ == (OrderView {
                price: midprice,
                ..order@
            })),
    {
        let zero = Dec::zero();
        if dec_eq(&midprice, &zero) {
            return None;
        }
        let mut order = order;
        order.price = midprice;
        Some(order)
    }

    /// Decides how to close out `position` with an order of `price_effect`:
    /// nothing while an order for its symbols is in flight, nothing when the
    /// mid-point is zero, otherwise the closing order priced at the mid-point
    /// of the strategy on its underlying. `None` where the mid-point's
    /// arithmetic overflows.
    pub fn plan_open_position(
        &self,
        position: &Position,
        price_effect: PriceEffect,
        mktdata: &MktData,
    ) -> (r: Option<OpenPlan>)
        requires
            mktdata.wf(),
            position@.legs.len() >= 1,
            !in_flight(self.view(), leg_symbols(position@)) ==> pricing_defined(
                position.strategy_type,
                mktdata.view(),
                position@.legs[0].underlying,
            ),
        ensures
            plan_view(r) == open_plan(
                self.view(),
                position@,
                position.strategy_type,
                price_effect,
                mktdata.view(),
            ),
    {
        if self.has_order_in_flight(position) {
            return Some(OpenPlan::InFlight);
        }
        let order = build_order(position, price_effect);
        proof {
            assert(option_legs_view(position.legs@)[0] == position.legs@[0]@);
        }
        let mid = match checked_calculate_midprice(
            position.strategy_type,
            position.legs[0].underlying.as_str(),
            mktdata,
        ) {
            None => {
                return None;
            },
            Some(m) => m,
        };
        match Self::price_order(order, mid) {
            None => Some(OpenPlan::NoMidprice),
            Some(o) => Some(OpenPlan::Place(o)),
        }
    }

    /// Whether a notification of the account stream is about an order (which
    /// is then logged); every other notification is skipped.
    pub fn handle_msg(payload: &Payload) -> (r: bool)
        ensures
            r == (payload.msg_type@ == "Order"@),
    {
        crate::text::str_eq(payload.msg_type.as_str(), "Order")
    }

    /// Records an order that was placed.
    pub fn record_order(&mut self, order: Order)
        ensures
            final(self).view() == old(self).view().push(order@),
    {
        let ghost before = self.view();
        self.orders.push(order);
        assert(self.view() =~= before.push(order@));
    }
}

/// The mid-point of the store's snapshot of `symbol` (zero without a quote).
pub open spec fn mid_of_symbol(md: Seq<SnapshotView>, symbol: Seq<char>) -> Dec {
    snapshot_mid(md[first_with_symbol(md, symbol)->0])
}

/// The store has a snapshot of `symbol`.
pub open spec fn has_snapshot(md: Seq<SnapshotView>, symbol: Seq<char>) -> bool {
    first_with_symbol(md, symbol) is Some
}

/// The sold leg's mid-point less the bought leg's; `None` where the
/// subtraction overflows.
pub open spec fn spread_mid(md: Seq<SnapshotView>, sold: Seq<char>, bought: Seq<char>) -> Option<
    Dec,
> {
    decimal_checked_sub(mid_of_symbol(md, sold), mid_of_symbol(md, bought))
}

/// Pricing a liquidation can read what it needs: the order has the legs the
/// strategy's rule reads and the store has a snapshot of each.
pub open spec fn liquidation_pricing_defined(
    st: StrategyType,
    md: Seq<SnapshotView>,
    legs: Seq<OrderLegView>,
) -> bool {
    if st == StrategyType::CreditSpread || st == StrategyType::CalendarSpread {
        &&& legs.len() >= 2
        &&& has_snapshot(md, legs[0].symbol)
        &&& has_snapshot(md, legs[1].symbol)
    } else if st == StrategyType::IronCondor {
        &&& legs.len() >= 4
        &&& has_snapshot(md, legs[0].symbol)
        &&& has_snapshot(md, legs[1].symbol)
        &&& has_snapshot(md, legs[2].symbol)
        &&& has_snapshot(md, legs[3].symbol)
    } else {
        true
    }
}

/// The mid-point a liquidation order is priced at, from the snapshots of its
/// legs' symbols: for a two-leg spread the first leg's mid-point less the
/// second's; for an iron condor the call spread (second leg less first) plus
/// the put spread (third leg less fourth); zero for other strategies. `None`
/// where the arithmetic overflows.
pub open spec fn liquidation_midprice(
    st: StrategyType,
    md: Seq<SnapshotView>,
    legs: Seq<OrderLegView>,
) -> Option<Dec> {
    if st == StrategyType::CreditSpread || st == StrategyType::CalendarSpread {
        spread_mid(md, legs[0].symbol, legs[1].symbol)
    } else if st == StrategyType::IronCondor {
        match spread_mid(md, legs[1].symbol, legs[0].symbol) {
            None => None,
            Some(call_spread) => match spread_mid(md, legs[2].symbol, legs[3].symbol) {
                None => None,
                Some(put_spread) => decimal_checked_add(call_spread, put_spread),
            },
        }
    } else {
        Some(dec_zero())
    }
}

/// The mid-point of the store's snapshot of `symbol`, which the store has.
fn mid_of(mktdata: &MktData, symbol: &str) -> (m: Dec)
    requires
        mktdata.wf(),
        has_snapshot(mktdata.view(), symbol@),
    ensures
        m == mid_of_symbol(mktdata.view(), symbol@),
        m.wf(),
{
    match mktdata.get_snapshot_by_symbol(symbol) {
        Some(snapshot) => snapshot.mid_price(),
        None => {
            proof {
                assert(false);
            }
            Dec::zero()
        },
    }
}

/// The sold leg's mid-point less the bought leg's.
fn spread_mid_exec(mktdata: &MktData, sold: &str, bought: &str) -> (r: Option<Dec>)
    requires
        mktdata.wf(),
        has_snapshot(mktdata.view(), sold@),
        has_snapshot(mktdata.view(), bought@),
    ensures
        r == spread_mid(mktdata.view(), sold@, bought@),
        r matches Some(d) ==> d.wf(),
{
    let a = mid_of(mktdata, sold);
    let b = mid_of(mktdata, bought);
    dec_checked_sub(&a, &b)
}

/// The mid-point a liquidation order is priced at (see
/// `liquidation_midprice`), or `None` where its arithmetic overflows.
pub fn checked_get_midprice(strategy_type: StrategyType, mktdata: &MktData, order: &Order) -> (r:
    Option<Dec>)
    requires
        mktdata.wf(),
        liquidation_pricing_defined(strategy_type, mktdata.view(), order@.legs),
    ensures
        r == liquidation_midprice(strategy_type, mktdata.view(), order@.legs),
        r matches Some(d) ==> d.wf(),
{
    let ghost legs = order@.legs;
    proof {
        assert forall|i: int| 0 <= i < order.legs.len() implies #[trigger] legs[i].symbol
            == order.legs@[i].symbol@ by {
            assert(legs[i] == order.legs@[i]@);
        }
    }
    match strategy_type {
        StrategyType::CreditSpread | StrategyType::CalendarSpread => {
            proof {
                assert(legs[0].symbol == order.legs@[0].symbol@);
                assert(legs[1].symbol == order.legs@[1].symbol@);
            }
            spread_mid_exec(mktdata, order.legs[0].symbol.as_str(), order.legs[1].symbol.as_str())
        },
        StrategyType::IronCondor => {
            proof {
                assert(legs[0].symbol == order.legs@[0].symbol@);
                assert(legs[1].symbol == order.legs@[1].symbol@);
                assert(legs[2].symbol == order.legs@[2].symbol@);
                assert(legs[3].symbol == order.legs@[3].symbol@);
            }
            let call_spread = match spread_mid_exec(
                mktdata,
                order.legs[1].symbol.as_str(),
                order.legs[0].symbol.as_str(),
            ) {
                None => {
                    return None;
                },
                Some(m) => m,
            };
            let put_spread = match spread_mid_exec(
                mktdata,
                order.legs[2].symbol.as_str(),
                order.legs[3].symbol.as_str(),
            ) {
                None => {
                    return None;
                },
                Some(m) => m,
            };
            dec_checked_add(&call_spread, &put_spread)
        },
        _ => Some(Dec::zero()),
    }
}

/// The order that closes `position`, as the liquidation built it: a day limit
/// order recorded as a debit whatever price effect is asked for.
pub fn build_order_from_meta(position: &Position, price_effect: PriceEffect) -> (o: Order)
    ensures
        o@ == closing_order(position@, PriceEffect::Debit),
{
    build_order(position, PriceEffect::Debit)
}

impl Orders {
    /// The mid-point a liquidation order is priced at (see
    /// `liquidation_midprice`); its arithmetic must not overflow (see
    /// `checked_get_midprice`).
    pub fn get_midprice(
        strategy_type: StrategyType,
        symbol: &str,
        mktdata: &MktData,
        order: &Order,
    ) -> (r: Dec)
        requires
            mktdata.wf(),
            liquidation_pricing_defined(strategy_type, mktdata.view(), order@.legs),
            liquidation_midprice(strategy_type, mktdata.view(), order@.legs) is Some,
        ensures
            Some(r) == liquidation_midprice(strategy_type, mktdata.view(), order@.legs),
            r.wf(),
    {
        checked_get_midprice(strategy_type, mktdata, order).unwrap()
    }

    /// Decides how to liquidate `position`: nothing while an order for its
    /// symbols is in flight, nothing when the mid-point is zero, otherwise the
    /// closing order (recorded as a debit) priced at the liquidation
    /// mid-point of its legs. `None` where the mid-point's arithmetic
    /// overflows.
    pub fn plan_liquidation(
        &self,
        position: &Position,
        price_effect: PriceEffect,
        mktdata: &MktData,
    ) -> (r: Option<OpenPlan>)
        requires
            mktdata.wf(),
            !in_flight(self.view(), leg_symbols(position@)) ==> liquidation_pricing_defined(
                position.strategy_type,
                mktdata.view(),
                closing_order(position@, PriceEffect::Debit).legs,
            ),
        ensures
            plan_view(r) == liquidation_plan(
                self.view(),
                position@,
                position.strategy_type,
                mktdata.view(),
            ),
    {
        if self.has_order_in_flight(position) {
            return Some(OpenPlan::InFlight);
        }
        let order = build_order_from_meta(position, price_effect);
        let mid = match checked_get_midprice(position.strategy_type, mktdata, &order) {
            None => {
                return None;
            },
            Some(m) => m,
        };
        match Self::price_order(order, mid) {
            None => Some(OpenPlan::NoMidprice),
            Some(o) => Some(OpenPlan::Place(o)),
        }
    }
}

/// What liquidating a position comes to: nothing while an order for one of
/// its symbols is in flight; otherwise its closing order (as a debit) and the
/// liquidation mid-point of that order's legs (`None` where the arithmetic
/// overflows), the order priced at it unless it is zero.
pub open spec fn liquidation_plan(
    orders: Seq<OrderView>,
    p: PositionView,
    st: StrategyType,
    md: Seq<SnapshotView>,
) -> Option<OpenPlanView> {
    if in_flight(orders, leg_symbols(p)) {
        Some(OpenPlanView::InFlight)
    } else {
        let order = closing_order(p, PriceEffect::Debit);
        match liquidation_midprice(st, md, order.legs) {
            None => None,
            Some(mid) => {
                if dec_same(mid, dec_zero()) {
                    Some(OpenPlanView::NoMidprice)
                } else {
                    Some(OpenPlanView::Place(OrderView { price: mid, ..order }))
                }
            },
        }
    }
}

/// Once a position's closing order is recorded, an order for the position is
/// in flight: planning to close or to liquidate it again places nothing.
pub proof fn lemma_recorded_order_blocks_duplicates(
    orders: Seq<OrderView>,
    p: PositionView,
    price_effect: PriceEffect,
    price: Dec,
    st: StrategyType,
    md: Seq<SnapshotView>,
)
    requires
        p.legs.len() >= 1,
    ensures
        in_flight(
            orders.push(OrderView { price, ..closing_order(p, price_effect) }),
            leg_symbols(p),
        ),
        open_plan(
            orders.push(OrderView { price, ..closing_order(p, price_effect) }),
            p,
            st,
            price_effect,
            md,
        ) == Some(OpenPlanView::InFlight),
        liquidation_plan(
            orders.push(OrderView { price, ..closing_order(p, price_effect) }),
            p,
            st,
            md,
        ) == Some(OpenPlanView::InFlight),
{
    let placed = OrderView { price, ..closing_order(p, price_effect) };
    let all = orders.push(placed);
    let syms = leg_symbols(p);
    let i = orders.len() as int;
    assert(all[i] == placed);
    assert(placed.legs[0] == closing_leg(p.legs[0]));
    assert(all[i].legs[0].symbol == syms[0]);
}

/// An order placed for other symbols leaves whether a position has an order in
/// flight as it was.
pub proof fn lemma_unrelated_order_keeps_in_flight(
    orders: Seq<OrderView>,
    placed: OrderView,
    p: PositionView,
)
    requires
        forall|j: int, k: int|
            0 <= j < placed.legs.len() && 0 <= k < leg_symbols(p).len() ==> placed.legs[j].symbol
                != leg_symbols(p)[k],
    ensures
        in_flight(orders.push(placed), leg_symbols(p)) == in_flight(orders, leg_symbols(p)),
{
    let all = orders.push(placed);
    let syms = leg_symbols(p);
    if in_flight(all, syms) {
        let (i, j, k) = choose|i: int, j: int, k: int|
            0 <= i < all.len() && 0 <= j < all[i].legs.len() && 0 <= k < syms.len()
                && #[trigger] all[i].legs[j].symbol == #[trigger] syms[k];
        if i < orders.len() {
            assert(all[i] == orders[i]);
            assert(orders[i].legs[j].symbol == syms[k]);
        } else {
            assert(all[i] == placed);
        }
    }
    if in_flight(orders, syms) {
        let (i, j, k) = choose|i: int, j: int, k: int|
            0 <= i < orders.len() && 0 <= j < orders[i].legs.len() && 0 <= k < syms.len()
                && #[trigger] orders[i].legs[j].symbol == #[trigger] syms[k];
        assert(all[i] == orders[i]);
        assert(all[i].legs[j].symbol == syms[k]);
    }
}


/// The closing order of a position mirrors its legs one for one: each order
/// leg closes the position leg at the same index, with its symbol, its
/// instrument type and its whole quantity, selling what is held long and
/// buying back what is held short; the order is a day limit order with the
/// requested price effect.
pub proof fn lemma_closing_order_mirrors_legs(p: PositionView, price_effect: PriceEffect)
    ensures
        closing_order(p, price_effect).legs.len() == p.legs.len(),
        closing_order(p, price_effect).time_in_force == "DAY"@,
        closing_order(p, price_effect).order_type == "Limit"@,
        closing_order(p, price_effect).price_effect == price_effect.text(),
        forall|i: int|
            0 <= i < p.legs.len() ==> {
                let o = #[trigger] closing_order(p, price_effect).legs[i];
                &&& o.quantity == p.legs[i].quantity
                &&& o.symbol == p.legs[i].symbol
                &&& o.instrument_type == p.legs[i].option_type.text()
                &&& (p.legs[i].direction == Direction::Long ==> o.action == "Sell to Close"@)
                &&& (p.legs[i].direction == Direction::Short ==> o.action == "Buy to Close"@)
            },
{
}

/// Liquidating a position never places an order at a zero price: while no
/// order for its symbols is in flight, a liquidation mid-point that is zero
/// gives `NoMidprice`, and any other gives the position's closing order (as
/// a debit) priced at that mid-point.
pub proof fn lemma_liquidation_places_only_nonzero_prices(
    orders: Seq<OrderView>,
    p: PositionView,
    st: StrategyType,
    md: Seq<SnapshotView>,
)
    ensures
        liquidation_plan(orders, p, st, md) matches Some(OpenPlanView::Place(o)) ==> {
            &&& !dec_same(o.price, Dec { mantissa: 0, scale: 0 })
            &&& !in_flight(orders, leg_symbols(p))
            &&& liquidation_midprice(st, md, closing_order(p, PriceEffect::Debit).legs) == Some(
                o.price,
            )
            &&& o == OrderView { price: o.price, ..closing_order(p, PriceEffect::Debit) }
        },
        !in_flight(orders, leg_symbols(p)) ==> {
            let mid = liquidation_midprice(st, md, closing_order(p, PriceEffect::Debit).legs);
            &&& (mid matches Some(m) && dec_same(m, Dec { mantissa: 0, scale: 0 }) ==> liquidation_plan(
                orders,
                p,
                st,
                md,
            ) == Some(OpenPlanView::NoMidprice))
            &&& (mid is None ==> liquidation_plan(orders, p, st, md) is None)
        },
{
}

/// Opening (closing out) a position never places an order at a zero price:
/// while no order for its symbols is in flight, a strategy mid-point that is
/// zero gives `NoMidprice`, and any other gives the position's closing order
/// priced at that mid-point.
pub proof fn lemma_open_places_only_nonzero_prices(
    orders: Seq<OrderView>,
    p: PositionView,
    st: StrategyType,
    price_effect: PriceEffect,
    md: Seq<SnapshotView>,
)
    ensures
        open_plan(orders, p, st, price_effect, md) matches Some(OpenPlanView::Place(o)) ==> {
            &&& !dec_same(o.price, Dec { mantissa: 0, scale: 0 })
            &&& !in_flight(orders, leg_symbols(p))
            &&& strategy_midprice(st, mids_of(pricing_snapshots(md, p.legs[0].underlying))) == Some(
                o.price,
            )
            &&& o == OrderView { price: o.price, ..closing_order(p, price_effect) }
        },
        !in_flight(orders, leg_symbols(p)) ==> {
            let mid = strategy_midprice(st, mids_of(pricing_snapshots(md, p.legs[0].underlying)));
            &&& (mid matches Some(m) && dec_same(m, Dec { mantissa: 0, scale: 0 }) ==> open_plan(
                orders,
                p,
                st,
                price_effect,
                md,
            ) == Some(OpenPlanView::NoMidprice))
            &&& (mid is None ==> open_plan(orders, p, st, price_effect, md) is None)
        },
{
}


/// The mid-point a strategy is priced at, from the mid-points of its option
/// snapshots sorted by strike, in `rust_decimal`'s arithmetic: for a two-leg
/// spread the first plus half the second; for an iron condor the same taken of
/// the first pair, of the second pair, and then of those two; zero for any
/// other strategy.
pub proof fn lemma_strategy_midprice_formula(st: StrategyType, mids: Seq<Dec>)
    requires
        mids.len() >= snapshots_needed(st),
    ensures
        (st == StrategyType::CreditSpread || st == StrategyType::CalendarSpread) ==> strategy_midprice(
            st,
            mids,
        ) == (match decimal_checked_div(mids[1], Dec { mantissa: 2, scale: 0 }) {
            None => None,
            Some(h) => decimal_checked_add(mids[0], h),
        }),
        st == StrategyType::IronCondor ==> strategy_midprice(st, mids) == (match decimal_checked_div(
            mids[1],
            Dec { mantissa: 2, scale: 0 },
        ) {
            None => None,
            Some(h1) => match decimal_checked_add(mids[0], h1) {
                None => None,
                Some(call_mid) => match decimal_checked_div(mids[3], Dec { mantissa: 2, scale: 0 }) {
                    None => None,
                    Some(h2) => match decimal_checked_add(mids[2], h2) {
                        None => None,
                        Some(put_mid) => match decimal_checked_div(
                            put_mid,
                            Dec { mantissa: 2, scale: 0 },
                        ) {
                            None => None,
                            Some(h3) => decimal_checked_add(call_mid, h3),
                        },
                    },
                },
            },
        }),
        (st == StrategyType::Call || st == StrategyType::Put || st == StrategyType::Other)
            ==> strategy_midprice(st, mids) == Some(Dec { mantissa: 0, scale: 0 }),
{
}

/// The mid-point a liquidation is priced at, from the store's snapshots of
/// the closing order's leg symbols (zero for a snapshot without a quote): for
/// a two-leg spread the first leg's less the second's; for an iron condor
/// the call spread (second leg less first) plus the put spread (third leg
/// less fourth); zero for any other strategy.
pub proof fn lemma_liquidation_midprice_formula(
    st: StrategyType,
    md: Seq<SnapshotView>,
    legs: Seq<OrderLegView>,
)
    ensures
        (st == StrategyType::CreditSpread || st == StrategyType::CalendarSpread)
            ==> liquidation_midprice(st, md, legs) == decimal_checked_sub(
            snapshot_mid(md[first_with_symbol(md, legs[0].symbol)->0]),
            snapshot_mid(md[first_with_symbol(md, legs[1].symbol)->0]),
        ),
        st == StrategyType::IronCondor ==> liquidation_midprice(st, md, legs) == (
        match decimal_checked_sub(
            snapshot_mid(md[first_with_symbol(md, legs[1].symbol)->0]),
            snapshot_mid(md[first_with_symbol(md, legs[0].symbol)->0]),
        ) {
            None => None,
            Some(call_spread) => match decimal_checked_sub(
                snapshot_mid(md[first_with_symbol(md, legs[2].symbol)->0]),
                snapshot_mid(md[first_with_symbol(md, legs[3].symbol)->0]),
            ) {
                None => None,
                Some(put_spread) => decimal_checked_add(call_spread, put_spread),
            },
        }),
        (st == StrategyType::Call || st == StrategyType::Put || st == StrategyType::Other)
            ==> liquidation_midprice(st, md, legs) == Some(Dec { mantissa: 0, scale: 0 }),
{
}


/// With no order recorded, nothing is in flight.
pub proof fn lemma_nothing_in_flight_without_orders(symbols: Seq<Seq<char>>)
    ensures
        !in_flight(Seq::<OrderView>::empty(), symbols),
{
}

} // verus!
