//! Turning the account's positions into tracked strategies, and what the
//! monitor does with them: the feeds to subscribe and the stops to act on.
use vstd::prelude::*;
use vstd::string::*;

use crate::decimal::{dec_eq, Dec};
use crate::platform::mktdata::MktData;
use crate::platform::positions::{
    lemma_position_legs_are_options, legs_view, legs_well_formed, option_legs_view, position_of,
    position_panics, Direction, OptionSide,
    OptionLegView, OptionType, Position, PositionView, PriceEffect, StrategyType,
};
use crate::strategy::generic::{
    condor_exit_defined, condor_should_exit, credit_exit_defined, credit_should_exit,
    CalendarSpread, CreditSpread, IronCondor,
};
use crate::text::str_eq;
use crate::tt_api::positions::{Leg, LegView};

verus! {

broadcast use to_string_from_display_ensures_for_str;

/// A position as the monitor tracks it.
pub enum Strategy {
    Calendar(CalendarSpread),
    Credit(CreditSpread),
    Condor(IronCondor),
    NotTracked,
}

/// The kind of a tracked strategy and its position.
pub enum StrategyView {
    Calendar(PositionView),
    Credit(PositionView),
    Condor(PositionView),
    NotTracked,
}

impl Strategy {
    pub open spec fn view(&self) -> StrategyView {
        match self {
            Strategy::Calendar(s) => StrategyView::Calendar(s.spec_position()),
            Strategy::Credit(s) => StrategyView::Credit(s.spec_position()),
            Strategy::Condor(s) => StrategyView::Condor(s.spec_position()),
            Strategy::NotTracked => StrategyView::NotTracked,
        }
    }

    /// The strategy's legs are well formed.
    pub open spec fn wf(&self) -> bool {
        match self {
            Strategy::Credit(s) => s.wf(),
            Strategy::Condor(s) => s.wf(),
            _ => true,
        }
    }
}

/// How a position is tracked: credit spreads, calendar spreads and iron
/// condors are; other positions are not.
pub open spec fn strategy_of_position(p: PositionView) -> StrategyView {
    match p.strategy_type {
        StrategyType::CreditSpread => StrategyView::Credit(p),
        StrategyType::CalendarSpread => StrategyView::Calendar(p),
        StrategyType::IronCondor => StrategyView::Condor(p),
        _ => StrategyView::NotTracked,
    }
}

/// Tracks a position by its strategy type.
pub fn track_position(position: Position) -> (s: Strategy)
    requires
        legs_well_formed(position@.legs),
    ensures
        s.view() == strategy_of_position(position@),
        s.wf(),
{
    match position.strategy_type {
        StrategyType::CreditSpread => Strategy::Credit(CreditSpread::new(position)),
        StrategyType::CalendarSpread => Strategy::Calendar(CalendarSpread::new(position)),
        StrategyType::IronCondor => Strategy::Condor(IronCondor::new(position)),
        _ => Strategy::NotTracked,
    }
}

/// The instrument an option's underlying is: equities for equity options,
/// futures for future options.
pub open spec fn underlying_type(t: OptionType) -> OptionType {
    if t == OptionType::EquityOption {
        OptionType::Equity
    } else {
        OptionType::Future
    }
}

/// The instrument type of an option's underlying (only options have one).
pub fn get_underlying_instrument_type(instrument_type: OptionType) -> (t: OptionType)
    requires
        instrument_type == OptionType::EquityOption || instrument_type == OptionType::FutureOption,
    ensures
        t == underlying_type(instrument_type),
{
    match instrument_type {
        OptionType::EquityOption => OptionType::Equity,
        _ => OptionType::Future,
    }
}

/// The price effect of the order that closes a position whose first leg is
/// held in `direction`: buying back a short leg is a credit-side close, selling
/// a long leg a debit-side close.
pub open spec fn liquidation_effect(direction: Direction) -> PriceEffect {
    match direction {
        Direction::Short => PriceEffect::Credit,
        Direction::Long => PriceEffect::Debit,
    }
}

/// Exec version of `liquidation_effect`.
pub fn liquidation_price_effect(direction: Direction) -> (e: PriceEffect)
    ensures
        e == liquidation_effect(direction),
{
    match direction {
        Direction::Short => PriceEffect::Credit,
        Direction::Long => PriceEffect::Debit,
    }
}

/// The stop rules can be evaluated for this strategy against the store.
pub open spec fn stop_defined(s: StrategyView, md: Seq<crate::platform::mktdata::SnapshotView>) -> bool {
    match s {
        StrategyView::Credit(p) => credit_exit_defined(p, md),
        StrategyView::Condor(p) => condor_exit_defined(p, md),
        _ => true,
    }
}

/// The stop a strategy hits, as the price effect of the closing order to
/// place: credit spreads and iron condors are closed once their exit rule
/// holds; calendar spreads and untracked positions never are.
pub open spec fn stop_effect(s: StrategyView, md: Seq<crate::platform::mktdata::SnapshotView>) -> Option<
    PriceEffect,
> {
    match s {
        StrategyView::Credit(p) => if credit_should_exit(p, md) {
            Some(liquidation_effect(p.legs[0].direction))
        } else {
            None
        },
        StrategyView::Condor(p) => if condor_should_exit(p, md) {
            Some(liquidation_effect(p.legs[0].direction))
        } else {
            None
        },
        _ => None,
    }
}

/// Checks a strategy's stop against the store: the price effect of the
/// closing order to place, if the stop is hit.
pub fn check_stops(strategy: &Strategy, mktdata: &MktData) -> (r: Option<PriceEffect>)
    requires
        strategy.wf(),
        mktdata.wf(),
        stop_defined(strategy.view(), mktdata.view()),
    ensures
        r == stop_effect(strategy.view(), mktdata.view()),
{
    match strategy {
        Strategy::Credit(s) => {
            if s.should_exit(mktdata) {
                let p = s.get_position();
                proof {
                    assert(option_legs_view(p.legs@)[0] == p.legs@[0]@);
                }
                Some(liquidation_price_effect(p.legs[0].direction))
            } else {
                None
            }
        },
        Strategy::Condor(s) => {
            if s.should_exit(mktdata) {
                let p = s.get_position();
                proof {
                    assert(option_legs_view(p.legs@)[0] == p.legs@[0]@);
                }
                Some(liquidation_price_effect(p.legs[0].direction))
            } else {
                None
            }
        },
        _ => None,
    }
}

/// A market-data subscription to make.
pub struct FeedRequest {
    pub symbol: String,
    pub underlying: String,
    pub event_type: String,
    pub option_type: OptionType,
    pub strike_price: Option<Dec>,
}

/// The mathematical content of a subscription request.
pub struct FeedRequestView {
    pub symbol: Seq<char>,
    pub underlying: Seq<char>,
    pub event_type: Seq<char>,
    pub option_type: OptionType,
    pub strike_price: Option<Dec>,
}

impl View for FeedRequest {
    type V = FeedRequestView;

    open spec fn view(&self) -> FeedRequestView {
        FeedRequestView {
            symbol: self.symbol@,
            underlying: self.underlying@,
            event_type: self.event_type@,
            option_type: self.option_type,
            strike_price: self.strike_price,
        }
    }
}

/// The quote subscriptions a tracked credit spread needs: one per leg (with
/// the leg's strike), then the underlying itself.
pub open spec fn position_feeds(p: PositionView) -> Seq<FeedRequestView> {
    p.legs.map_values(
        |l: OptionLegView|
            FeedRequestView {
                symbol: l.symbol,
                underlying: p.legs[0].underlying,
                event_type: "Quote"@,
                option_type: l.option_type,
                strike_price: Some(l.strike_price),
            },
    ).push(
        FeedRequestView {
            symbol: p.legs[0].underlying,
            underlying: p.legs[0].underlying,
            event_type: "Quote"@,
            option_type: underlying_type(p.legs[0].option_type),
            strike_price: None,
        },
    )
}

/// The subscriptions a strategy needs: those of its position for credit
/// spreads, none for the others.
pub open spec fn strategy_feeds(s: StrategyView) -> Seq<FeedRequestView> {
    match s {
        StrategyView::Credit(p) => position_feeds(p),
        _ => Seq::empty(),
    }
}

/// The subscriptions of a list of strategies, in order.
pub open spec fn all_feeds(s: Seq<StrategyView>) -> Seq<FeedRequestView>
    decreases s.len(),
{
    if s.len() == 0 {
        Seq::empty()
    } else {
        all_feeds(s.drop_last()) + strategy_feeds(s.last())
    }
}

/// The subscriptions can be listed: every credit spread has a leg whose type
/// is an option type.
pub open spec fn feeds_defined(s: Seq<StrategyView>) -> bool {
    forall|i: int|
        0 <= i < s.len() ==> (#[trigger] s[i] matches StrategyView::Credit(p) ==> p.legs.len() >= 1
            && (p.legs[0].option_type == OptionType::EquityOption || p.legs[0].option_type
            == OptionType::FutureOption))
}

/// The views of strategies.
pub open spec fn strategies_view(s: Seq<Strategy>) -> Seq<StrategyView> {
    s.map_values(|x: Strategy| x.view())
}

/// The feed requests' views.
pub open spec fn feeds_view(s: Seq<FeedRequest>) -> Seq<FeedRequestView> {
    s.map_values(|x: FeedRequest| x@)
}

/// Appends the subscriptions a credit spread needs.
fn push_position_feeds(out: &mut Vec<FeedRequest>, position: &Position)
    requires
        position@.legs.len() >= 1,
        position@.legs[0].option_type == OptionType::EquityOption || position@.legs[0].option_type
            == OptionType::FutureOption,
    ensures
        feeds_view(final(out)@) == feeds_view(old(out)@) + position_feeds(position@),
{
    let ghost start = feeds_view(out@);
    let ghost p = position@;
    proof {
        assert(option_legs_view(position.legs@)[0] == position.legs@[0]@);
    }
    let underlying = &position.legs[0].underlying;
    let ghost per_leg = p.legs.map_values(
        |l: OptionLegView|
            FeedRequestView {
                symbol: l.symbol,
                underlying: p.legs[0].underlying,
                event_type: "Quote"@,
                option_type: l.option_type,
                strike_price: Some(l.strike_price),
            },
    );
    let mut i: usize = 0;
    while i < position.legs.len()
        invariant
            0 <= i <= position.legs.len(),
            p == position@,
            underlying@ == p.legs[0].underlying,
            per_leg == p.legs.map_values(
                |l: OptionLegView|
                    FeedRequestView {
                        symbol: l.symbol,
                        underlying: p.legs[0].underlying,
                        event_type: "Quote"@,
                        option_type: l.option_type,
                        strike_price: Some(l.strike_price),
                    },
            ),
            feeds_view(out@) == start + per_leg.take(i as int),
        decreases position.legs.len() - i,
    {
        let leg = &position.legs[i];
        let r = FeedRequest {
            symbol: leg.symbol.clone(),
            underlying: underlying.clone(),
            event_type: "Quote".to_string(),
            option_type: leg.option_type,
            strike_price: Some(leg.strike_price),
        };
        let ghost before = feeds_view(out@);
        out.push(r);
        proof {
            assert(option_legs_view(position.legs@)[i as int] == position.legs@[i as int]@);
            assert(feeds_view(out@) =~= before.push(r@));
            assert(per_leg.take(i + 1) =~= per_leg.take(i as int).push(per_leg[i as int]));
            assert(start + per_leg.take(i + 1) =~= (start + per_leg.take(i as int)).push(
                per_leg[i as int],
            ));
        }
        i = i + 1;
    }
    let r = FeedRequest {
        symbol: underlying.clone(),
        underlying: underlying.clone(),
        event_type: "Quote".to_string(),
        option_type: get_underlying_instrument_type(position.legs[0].option_type),
        strike_price: None,
    };
    let ghost before = feeds_view(out@);
    out.push(r);
    proof {
        assert(feeds_view(out@) =~= before.push(r@));
        assert(per_leg.take(position.legs.len() as int) =~= per_leg);
        assert(start + position_feeds(p) =~= (start + per_leg).push(r@));
    }
}

/// The quote subscriptions the tracked strategies need, in order.
pub fn subscribe_to_updates(strategies: &Vec<Strategy>) -> (r: Vec<FeedRequest>)
    requires
        feeds_defined(strategies_view(strategies@)),
    ensures
        feeds_view(r@) == all_feeds(strategies_view(strategies@)),
{
    let ghost sv = strategies_view(strategies@);
    let mut out: Vec<FeedRequest> = Vec::new();
    let mut i: usize = 0;
    assert(feeds_view(out@) =~= Seq::<FeedRequestView>::empty());
    assert(sv.take(0) =~= Seq::<StrategyView>::empty());
    while i < strategies.len()
        invariant
            0 <= i <= strategies.len(),
            sv == strategies_view(strategies@),
            feeds_defined(sv),
            feeds_view(out@) == all_feeds(sv.take(i as int)),
        decreases strategies.len() - i,
    {
        proof {
            assert(sv.take(i + 1).drop_last() =~= sv.take(i as int));
            assert(sv.take(i + 1).last() == sv[i as int]);
            assert(sv[i as int] == strategies@[i as int].view());
        }
        match &strategies[i] {
            Strategy::Credit(s) => {
                push_position_feeds(&mut out, s.get_position());
            },
            _ => {
                assert(feeds_view(out@) =~= feeds_view(out@) + Seq::<FeedRequestView>::empty());
            },
        }
        i = i + 1;
    }
    assert(sv.take(strategies.len() as int) =~= sv);
    out
}

/// The legs on underlying `u`, in order.
pub open spec fn legs_on(legs: Seq<LegView>, u: Seq<char>) -> Seq<LegView> {
    legs.filter(|l: LegView| l.underlying_symbol == Some(u))
}

/// The underlyings of the legs, each once, in order of first appearance.
pub open spec fn underlyings_in_order(legs: Seq<LegView>) -> Seq<Seq<char>>
    decreases legs.len(),
{
    if legs.len() == 0 {
        Seq::empty()
    } else {
        let prev = underlyings_in_order(legs.drop_last());
        match legs.last().underlying_symbol {
            Some(u) => if prev.contains(u) {
                prev
            } else {
                prev.push(u)
            },
            None => prev,
        }
    }
}

/// Every leg names its underlying.
pub open spec fn every_leg_has_underlying(legs: Seq<LegView>) -> bool {
    forall|i: int| 0 <= i < legs.len() ==> (#[trigger] legs[i]).underlying_symbol is Some
}

/// Grouping the legs by underlying, and building each group's position,
/// cannot proceed: some leg has no underlying, or some group's position cannot
/// be built.
pub open spec fn grouping_fails(legs: Seq<LegView>) -> bool {
    ||| !every_leg_has_underlying(legs)
    ||| exists|k: int|
        0 <= k < underlyings_in_order(legs).len() && #[trigger] position_panics(
            legs_on(legs, underlyings_in_order(legs)[k]),
        )
}

/// The strategies the account's legs form: one per underlying, in order of
/// first appearance, each tracked by the strategy its legs form.
pub open spec fn strategies_of_legs(legs: Seq<LegView>) -> Seq<StrategyView> {
    underlyings_in_order(legs).map_values(
        |u: Seq<char>| strategy_of_position(position_of(legs_on(legs, u))),
    )
}

/// The texts of strings.
pub open spec fn texts(v: Seq<String>) -> Seq<Seq<char>> {
    v.map_values(|x: String| x@)
}

/// Appending a leg on another underlying leaves a group unchanged; one on the
/// same underlying extends it.
proof fn lemma_legs_on_push(legs: Seq<LegView>, l: LegView, u: Seq<char>)
    ensures
        legs_on(legs.push(l), u) == if l.underlying_symbol == Some(u) {
            legs_on(legs, u).push(l)
        } else {
            legs_on(legs, u)
        },
{
    reveal(Seq::filter);
    assert(legs.push(l).drop_last() =~= legs);
}

/// Each underlying is listed once.
proof fn lemma_underlyings_distinct(legs: Seq<LegView>)
    ensures
        underlyings_in_order(legs).no_duplicates(),
    decreases legs.len(),
{
    if legs.len() > 0 {
        lemma_underlyings_distinct(legs.drop_last());
        let prev = underlyings_in_order(legs.drop_last());
        match legs.last().underlying_symbol {
            Some(u) => {
                if !prev.contains(u) {
                    assert forall|a: int, b: int|
                        0 <= a < prev.push(u).len() && 0 <= b < prev.push(u).len() && a != b
                            implies prev.push(u)[a] != prev.push(u)[b] by {
                        if a < prev.len() && b < prev.len() {
                        } else if a < prev.len() {
                            assert(prev.push(u)[a] == prev[a]);
                        } else {
                            assert(prev.push(u)[b] == prev[b]);
                        }
                    }
                }
            },
            None => {},
        }
    }
}

/// An underlying that does not appear has no legs.
proof fn lemma_legs_on_absent(legs: Seq<LegView>, u: Seq<char>)
    requires
        !underlyings_in_order(legs).contains(u),
    ensures
        legs_on(legs, u) == Seq::<LegView>::empty(),
    decreases legs.len(),
{
    reveal(Seq::filter);
    if legs.len() > 0 {
        let prev = underlyings_in_order(legs.drop_last());
        if prev.contains(u) {
            let k = choose|k: int| 0 <= k < prev.len() && prev[k] == u;
            match legs.last().underlying_symbol {
                Some(v) => {
                    if !prev.contains(v) {
                        assert(prev.push(v)[k] == u);
                    }
                },
                None => {},
            }
            assert(false);
        }
        lemma_legs_on_absent(legs.drop_last(), u);
        match legs.last().underlying_symbol {
            Some(v) => {
                if v == u {
                    if !prev.contains(v) {
                        assert(prev.push(v)[prev.len() as int] == u);
                    }
                }
            },
            None => {},
        }
    }
}

/// Groups the legs by underlying, in order of first appearance; `None` where
/// some leg names no underlying.
fn group_by_underlying(legs: Vec<Leg>) -> (r: Option<(Vec<String>, Vec<Vec<Leg>>)>)
    ensures
        r is None <==> !every_leg_has_underlying(legs_view(legs@)),
        r matches Some((keys, groups)) ==> {
            &&& texts(keys@) == underlyings_in_order(legs_view(legs@))
            &&& groups.len() == keys.len()
            &&& forall|j: int|
                0 <= j < groups.len() ==> legs_view(#[trigger] groups@[j]@) == legs_on(
                    legs_view(legs@),
                    keys@[j]@,
                )
        },
{
    let ghost orig = legs_view(legs@);
    let n = legs.len();
    let mut rest = legs;
    let mut keys: Vec<String> = Vec::new();
    let mut groups: Vec<Vec<Leg>> = Vec::new();
    let mut i: usize = 0;
    proof {
        assert(orig.take(0) =~= Seq::<LegView>::empty());
        assert(legs_view(rest@) =~= orig.skip(0));
        assert(texts(keys@) =~= Seq::<Seq<char>>::empty());
    }
    while i < n
        invariant
            orig == legs_view(legs@),
            n == orig.len(),
            0 <= i <= n,
            rest.len() == n - i,
            legs_view(rest@) == orig.skip(i as int),
            every_leg_has_underlying(orig.take(i as int)),
            keys.len() == groups.len(),
            texts(keys@) == underlyings_in_order(orig.take(i as int)),
            forall|j: int|
                0 <= j < groups.len() ==> legs_view(#[trigger] groups@[j]@) == legs_on(
                    orig.take(i as int),
                    keys@[j]@,
                ),
        decreases n - i,
    {
        let ghost pre = orig.take(i as int);
        let ghost rest_before = legs_view(rest@);
        let leg = rest.remove(0);
        proof {
            assert(leg@ == rest_before[0]);
            assert(rest_before[0] == orig[i as int]);
            assert(legs_view(rest@) =~= rest_before.drop_first());
            assert(rest_before.drop_first() =~= orig.skip(i + 1));
            assert(orig.take(i + 1) =~= pre.push(leg@));
            assert(orig.take(i + 1).drop_last() =~= pre);
        }
        let u = match &leg.underlying_symbol {
            None => {
                proof {
                    assert(orig[i as int].underlying_symbol is None);
                    assert(!every_leg_has_underlying(orig));
                }
                return None;
            },
            Some(u) => u.clone(),
        };
        let mut found: Option<usize> = None;
        let mut j: usize = 0;
        while j < keys.len()
            invariant
                0 <= j <= keys.len(),
                found matches Some(k) ==> k < keys.len() && keys@[k as int]@ == u@,
                found is None ==> forall|k: int| 0 <= k < j ==> keys@[k]@ != u@,
            decreases keys.len() - j,
        {
            if found.is_none() && str_eq(keys[j].as_str(), u.as_str()) {
                found = Some(j);
            }
            j = j + 1;
        }
        let ghost keys_before = texts(keys@);
        let ghost groups_before = groups@;
        proof {
            assert forall|v: Seq<char>| #![auto] v != u@ implies legs_on(pre.push(leg@), v)
                == legs_on(pre, v) by {
                lemma_legs_on_push(pre, leg@, v);
            }
            lemma_legs_on_push(pre, leg@, u@);
        }
        match found {
            Some(k) => {
                let mut g = groups.remove(k);
                let ghost g_before = g@;
                g.push(leg);
                let ghost g_after = g@;
                groups.insert(k, g);
                proof {
                    assert(groups@.len() == groups_before.len());
                    assert(groups@[k as int]@ == g_after);
                    assert(forall|jj: int|
                        0 <= jj < groups.len() && jj != k ==> groups@[jj] == groups_before[jj]);
                    assert(g_before == groups_before[k as int]@);
                    assert(leg@.underlying_symbol == Some(u@));
                    assert(legs_view(g_after) =~= legs_view(g_before).push(leg@));
                    assert(keys_before[k as int] == u@);
                    assert(keys_before.contains(u@));
                    assert forall|jj: int| 0 <= jj < groups.len() implies legs_view(
                        #[trigger] groups@[jj]@,
                    ) == legs_on(orig.take(i + 1), keys@[jj]@) by {
                        if jj == k {
                            assert(legs_view(groups@[jj]@) =~= legs_view(groups_before[jj]@).push(
                                leg@,
                            ));
                        } else {
                            assert(groups@[jj] == groups_before[jj]);
                            assert(keys_before[jj] == keys@[jj]@);
                            lemma_underlyings_distinct(pre);
                            assert(keys_before[jj] != keys_before[k as int]);
                        }
                    }
                }
            },
            None => {
                proof {
                    assert(!keys_before.contains(u@)) by {
                        if keys_before.contains(u@) {
                            let k = choose|k: int| 0 <= k < keys_before.len() && keys_before[k] == u@;
                            assert(keys@[k]@ == keys_before[k]);
                        }
                    }
                    lemma_legs_on_absent(pre, u@);
                }
                let mut g: Vec<Leg> = Vec::new();
                g.push(leg);
                let ghost key_view = u@;
                keys.push(u);
                groups.push(g);
                proof {
                    assert(texts(keys@) =~= keys_before.push(key_view));
                    assert forall|jj: int| 0 <= jj < groups.len() implies legs_view(
                        #[trigger] groups@[jj]@,
                    ) == legs_on(orig.take(i + 1), keys@[jj]@) by {
                        if jj == groups.len() - 1 {
                            assert(legs_view(groups@[jj]@) =~= seq![leg@]);
                            assert(Seq::<LegView>::empty().push(leg@) =~= seq![leg@]);
                        } else {
                            assert(groups@[jj] == groups_before[jj]);
                            assert(keys_before[jj] == keys@[jj]@);
                            assert(keys_before[jj] != key_view);
                        }
                    }
                }
            },
        }
        proof {
            assert forall|q: int| 0 <= q < orig.take(i + 1).len() implies (#[trigger] orig.take(
                i + 1,
            )[q]).underlying_symbol is Some by {
                if q < i {
                    assert(orig.take(i + 1)[q] == pre[q]);
                }
            }
        }
        i = i + 1;
    }
    proof {
        assert(orig.take(n as int) =~= orig);
    }
    Some((keys, groups))
}

/// Every strategy of the list is well formed.
pub open spec fn all_strategies_wf(v: Seq<Strategy>) -> bool {
    forall|i: int| 0 <= i < v.len() ==> (#[trigger] v[i]).wf()
}

/// Turns the account's legs into tracked strategies: the legs are grouped by
/// underlying (in order of first appearance), each group becomes a position,
/// and each position is tracked by the strategy it forms. `None` exactly where
/// some leg names no underlying or some group's position cannot be built.
pub fn try_convert_api_data_into_strategies(legs: Vec<Leg>) -> (r: Option<Vec<Strategy>>)
    ensures
        r is None <==> grouping_fails(legs_view(legs@)),
        r matches Some(v) ==> strategies_view(v@) == strategies_of_legs(legs_view(legs@))
            && all_strategies_wf(v@) && feeds_defined(strategies_view(v@)),
{
    let ghost orig = legs_view(legs@);
    let (keys, groups) = match group_by_underlying(legs) {
        None => {
            return None;
        },
        Some(x) => x,
    };
    let ghost us = underlyings_in_order(orig);
    let m = keys.len();
    let mut rest = groups;
    let mut out: Vec<Strategy> = Vec::new();
    let mut j: usize = 0;
    proof {
        assert(us.len() == m) by {
            assert(texts(keys@).len() == keys@.len());
        }
        assert forall|q: int| 0 <= q < rest.len() implies legs_view(#[trigger] rest@[q]@)
            == legs_on(orig, us[q]) by {
            assert(texts(keys@)[q] == keys@[q]@);
        }
    }
    while j < m
        invariant
            orig == legs_view(legs@),
            us == underlyings_in_order(orig),
            every_leg_has_underlying(orig),
            us.len() == m,
            0 <= j <= m,
            rest.len() == m - j,
            forall|q: int|
                0 <= q < rest.len() ==> legs_view(#[trigger] rest@[q]@) == legs_on(
                    orig,
                    us[j + q],
                ),
            out.len() == j,
            forall|q: int|
                0 <= q < j ==> (#[trigger] out@[q]).view() == strategy_of_position(
                    position_of(legs_on(orig, us[q])),
                ),
            forall|q: int| 0 <= q < j ==> !position_panics(#[trigger] legs_on(orig, us[q])),
            all_strategies_wf(out@),
        decreases m - j,
    {
        let ghost rest_before = rest@;
        let g = rest.remove(0);
        proof {
            assert(legs_view(g@) == legs_on(orig, us[j as int])) by {
                assert(g == rest_before[0]);
            }
            assert forall|q: int| 0 <= q < rest.len() implies legs_view(#[trigger] rest@[q]@)
                == legs_on(orig, us[j + 1 + q]) by {
                assert(rest@[q] == rest_before[q + 1]);
            }
        }
        match Position::try_new(g) {
            None => {
                proof {
                    assert(position_panics(legs_on(orig, us[j as int])));
                    assert(grouping_fails(orig));
                }
                return None;
            },
            Some(p) => {
                let s = track_position(p);
                let ghost out_before = out@;
                out.push(s);
                proof {
                    assert(out@[j as int] == s);
                    assert forall|q: int| 0 <= q < j + 1 implies (#[trigger] out@[q]).view()
                        == strategy_of_position(position_of(legs_on(orig, us[q]))) by {
                        if q < j {
                            assert(out@[q] == out_before[q]);
                        }
                    }
                    assert forall|q: int| 0 <= q < out@.len() implies (#[trigger] out@[q]).wf() by {
                        if q < j {
                            assert(out@[q] == out_before[q]);
                        }
                    }
                }
            },
        }
        j = j + 1;
    }
    proof {
        assert(strategies_view(out@) =~= strategies_of_legs(orig));
        assert(!grouping_fails(orig)) by {
            assert forall|k: int| 0 <= k < us.len() implies !#[trigger] position_panics(
                legs_on(orig, us[k]),
            ) by {}
        }
        lemma_tracked_feeds_defined(orig);
    }
    Some(out)
}

/// Turns the account's legs into tracked strategies (see
/// `try_convert_api_data_into_strategies`), where every leg names its
/// underlying and every group's position can be built.
pub fn convert_api_data_into_strategies(legs: Vec<Leg>) -> (r: Vec<Strategy>)
    requires
        !grouping_fails(legs_view(legs@)),
    ensures
        strategies_view(r@) == strategies_of_legs(legs_view(legs@)),
        all_strategies_wf(r@),
        feeds_defined(strategies_view(r@)),
{
    match try_convert_api_data_into_strategies(legs) {
        Some(v) => v,
        None => {
            proof {
                assert(false);
            }
            Vec::new()
        },
    }
}

/// The underlying of every leg that names one is listed.
proof fn lemma_underlying_listed(legs: Seq<LegView>, i: int)
    requires
        0 <= i < legs.len(),
        legs[i].underlying_symbol is Some,
    ensures
        underlyings_in_order(legs).contains(legs[i].underlying_symbol->0),
    decreases legs.len(),
{
    let prev = underlyings_in_order(legs.drop_last());
    let u = legs[i].underlying_symbol->0;
    if i < legs.len() - 1 {
        lemma_underlying_listed(legs.drop_last(), i);
        assert(legs.drop_last()[i] == legs[i]);
        let k = choose|k: int| 0 <= k < prev.len() && prev[k] == u;
        match legs.last().underlying_symbol {
            Some(v) => {
                if !prev.contains(v) {
                    assert(prev.push(v)[k] == u);
                }
            },
            None => {},
        }
    } else {
        assert(legs.last() == legs[i]);
        if !prev.contains(u) {
            assert(prev.push(u)[prev.len() as int] == u);
        }
    }
}

/// Every listed underlying is some leg's.
proof fn lemma_listed_has_leg(legs: Seq<LegView>, k: int)
    requires
        0 <= k < underlyings_in_order(legs).len(),
    ensures
        exists|i: int|
            0 <= i < legs.len() && #[trigger] legs[i].underlying_symbol == Some(
                underlyings_in_order(legs)[k],
            ),
    decreases legs.len(),
{
    let prev = underlyings_in_order(legs.drop_last());
    let u = underlyings_in_order(legs)[k];
    if k < prev.len() {
        match legs.last().underlying_symbol {
            Some(v) => {
                if !prev.contains(v) {
                    assert(prev.push(v)[k] == prev[k]);
                }
            },
            None => {},
        }
        lemma_listed_has_leg(legs.drop_last(), k);
        let i = choose|i: int|
            0 <= i < legs.drop_last().len() && #[trigger] legs.drop_last()[i].underlying_symbol
                == Some(prev[k]);
        assert(legs[i] == legs.drop_last()[i]);
    } else {
        assert(legs[legs.len() - 1] == legs.last());
    }
}

/// The account's legs are split into strategies by underlying: each
/// underlying is listed once, every leg that names an underlying is among the
/// legs of that underlying's strategy, every strategy has legs, and the legs
/// of a strategy are all on its underlying.
pub proof fn lemma_groups_cover_legs(legs: Seq<LegView>)
    ensures
        underlyings_in_order(legs).no_duplicates(),
        forall|i: int|
            0 <= i < legs.len() && (#[trigger] legs[i]).underlying_symbol is Some
                ==> underlyings_in_order(legs).contains(legs[i].underlying_symbol->0) && legs_on(
                legs,
                legs[i].underlying_symbol->0,
            ).contains(legs[i]),
        forall|k: int|
            0 <= k < underlyings_in_order(legs).len() ==> #[trigger] legs_on(
                legs,
                underlyings_in_order(legs)[k],
            ).len() > 0,
        forall|u: Seq<char>, j: int|
            0 <= j < legs_on(legs, u).len() ==> (#[trigger] legs_on(legs, u)[j]).underlying_symbol
                == Some(u),
{
    lemma_underlyings_distinct(legs);
    assert forall|i: int|
        0 <= i < legs.len() && (#[trigger] legs[i]).underlying_symbol is Some
            implies underlyings_in_order(legs).contains(legs[i].underlying_symbol->0) && legs_on(
            legs,
            legs[i].underlying_symbol->0,
        ).contains(legs[i]) by {
        let u = legs[i].underlying_symbol->0;
        lemma_underlying_listed(legs, i);
        legs.lemma_filter_contains(|l: LegView| l.underlying_symbol == Some(u), i);
    }
    assert forall|k: int| 0 <= k < underlyings_in_order(legs).len() implies #[trigger] legs_on(
        legs,
        underlyings_in_order(legs)[k],
    ).len() > 0 by {
        let u = underlyings_in_order(legs)[k];
        lemma_listed_has_leg(legs, k);
        let i = choose|i: int|
            0 <= i < legs.len() && #[trigger] legs[i].underlying_symbol == Some(u);
        legs.lemma_filter_contains(|l: LegView| l.underlying_symbol == Some(u), i);
    }
    assert forall|u: Seq<char>, j: int| 0 <= j < legs_on(legs, u).len() implies (
    #[trigger] legs_on(legs, u)[j]).underlying_symbol == Some(u) by {
        legs.lemma_filter_pred(|l: LegView| l.underlying_symbol == Some(u), j);
    }
}

/// The strategies made from the account's legs can always be subscribed:
/// each credit spread has legs, the first an equity or future option.
pub proof fn lemma_tracked_feeds_defined(legs: Seq<LegView>)
    requires
        !grouping_fails(legs),
    ensures
        feeds_defined(strategies_of_legs(legs)),
{
    let us = underlyings_in_order(legs);
    let sv = strategies_of_legs(legs);
    assert forall|i: int| 0 <= i < sv.len() implies (#[trigger] sv[i] matches StrategyView::Credit(p)
        ==> p.legs.len() >= 1 && (p.legs[0].option_type == OptionType::EquityOption
        || p.legs[0].option_type == OptionType::FutureOption)) by {
        let g = legs_on(legs, us[i]);
        assert(!position_panics(g));
        lemma_position_legs_are_options(g);
        if position_of(g).strategy_type == StrategyType::CreditSpread {
            assert(position_of(g).legs.len() >= 2);
            assert(position_of(g).legs[0].option_type == OptionType::EquityOption
                || position_of(g).legs[0].option_type == OptionType::FutureOption);
        }
    }
}

/// Whether the stop rule can be evaluated for this strategy against the store
/// (see `stop_defined`); where it cannot, the rule would read a leg or a
/// quote that is not there.
pub fn can_check_stops(strategy: &Strategy, mktdata: &MktData) -> (r: bool)
    requires
        mktdata.wf(),
    ensures
        r == stop_defined(strategy.view(), mktdata.view()),
{
    match strategy {
        Strategy::Credit(s) => {
            let p = s.get_position();
            if p.legs.len() == 0 {
                return false;
            }
            proof {
                assert(option_legs_view(p.legs@)[0] == p.legs@[0]@);
            }
            match mktdata.get_snapshot_by_symbol(p.legs[0].underlying.as_str()) {
                None => true,
                Some(x) => {
                    let mid = x.mid_price();
                    if dec_eq(&mid, &Dec::zero()) {
                        true
                    } else {
                        p.legs[0].side != OptionSide::Neutral && (p.legs[0].side
                            != OptionSide::Call || p.legs.len() >= 2)
                    }
                },
            }
        },
        Strategy::Condor(s) => {
            let p = s.get_position();
            if p.legs.len() == 0 {
                return false;
            }
            proof {
                assert(option_legs_view(p.legs@)[0] == p.legs@[0]@);
            }
            match mktdata.get_snapshot_by_symbol(p.legs[0].underlying.as_str()) {
                None => true,
                Some(x) => {
                    if x.quote.is_none() {
                        false
                    } else {
                        let mid = x.mid_price();
                        dec_eq(&mid, &Dec::zero()) || p.legs.len() >= 3
                    }
                },
            }
        },
        _ => true,
    }
}


/// A tracked credit spread subscribes to a quote of each of its legs, in leg
/// order, each under the leg's own instrument type and with the leg's strike,
/// and last to a quote of the underlying, under the underlying's instrument
/// type (equities for equity options, futures otherwise) and with no strike.
pub proof fn lemma_credit_spread_feeds(p: PositionView)
    requires
        p.legs.len() >= 1,
    ensures
        all_feeds(seq![StrategyView::Credit(p)]) == strategy_feeds(StrategyView::Credit(p)),
        strategy_feeds(StrategyView::Credit(p)).len() == p.legs.len() + 1,
        forall|i: int|
            0 <= i < p.legs.len() ==> {
                let f = #[trigger] strategy_feeds(StrategyView::Credit(p))[i];
                &&& f.symbol == p.legs[i].symbol
                &&& f.option_type == p.legs[i].option_type
                &&& f.strike_price == Some(p.legs[i].strike_price)
                &&& f.underlying == p.legs[0].underlying
                &&& f.event_type == "Quote"@
            },
        ({
            let f = strategy_feeds(StrategyView::Credit(p))[p.legs.len() as int];
            &&& f.symbol == p.legs[0].underlying
            &&& f.underlying == p.legs[0].underlying
            &&& f.strike_price is None
            &&& f.event_type == "Quote"@
            &&& (p.legs[0].option_type == OptionType::EquityOption ==> f.option_type
                == OptionType::Equity)
            &&& (p.legs[0].option_type != OptionType::EquityOption ==> f.option_type
                == OptionType::Future)
        }),
{
    let one = seq![StrategyView::Credit(p)];
    assert(one.drop_last() =~= Seq::<StrategyView>::empty());
    assert(one.last() == StrategyView::Credit(p));
    assert(all_feeds(one.drop_last()) =~= Seq::<FeedRequestView>::empty());
    assert(all_feeds(one) =~= strategy_feeds(StrategyView::Credit(p)));
}

/// A stop is hit exactly when the strategy's exit rule holds (credit spreads
/// and iron condors only), and the closing order's price effect follows the
/// position's first leg: a credit when that leg is held short, a debit when
/// it is held long.
pub proof fn lemma_stop_effect_follows_first_leg(
    s: StrategyView,
    md: Seq<crate::platform::mktdata::SnapshotView>,
)
    ensures
        s matches StrategyView::Credit(p) ==> (stop_effect(s, md) is Some <==> credit_should_exit(
            p,
            md,
        )),
        s matches StrategyView::Condor(p) ==> (stop_effect(s, md) is Some <==> condor_should_exit(
            p,
            md,
        )),
        (s is Calendar || s is NotTracked) ==> stop_effect(s, md) is None,
        s matches StrategyView::Credit(p) ==> stop_effect(s, md) is Some ==> {
            &&& (stop_effect(s, md) == Some(PriceEffect::Credit) <==> p.legs[0].direction
                == Direction::Short)
            &&& (stop_effect(s, md) == Some(PriceEffect::Debit) <==> p.legs[0].direction
                == Direction::Long)
        },
        s matches StrategyView::Condor(p) ==> stop_effect(s, md) is Some ==> {
            &&& (stop_effect(s, md) == Some(PriceEffect::Credit) <==> p.legs[0].direction
                == Direction::Short)
            &&& (stop_effect(s, md) == Some(PriceEffect::Debit) <==> p.legs[0].direction
                == Direction::Long)
        },
{
}


/// Which positions are tracked, and as what: a credit spread, a calendar
/// spread or an iron condor is tracked as that strategy, holding the position
/// itself; any other position is not tracked.
pub proof fn lemma_tracking_by_strategy_type(p: PositionView)
    ensures
        strategy_of_position(p) == StrategyView::Credit(p) <==> p.strategy_type
            == StrategyType::CreditSpread,
        strategy_of_position(p) == StrategyView::Calendar(p) <==> p.strategy_type
            == StrategyType::CalendarSpread,
        strategy_of_position(p) == StrategyView::Condor(p) <==> p.strategy_type
            == StrategyType::IronCondor,
        strategy_of_position(p) is NotTracked <==> (p.strategy_type == StrategyType::Call
            || p.strategy_type == StrategyType::Put || p.strategy_type == StrategyType::Other),
{
}

} // verus!
