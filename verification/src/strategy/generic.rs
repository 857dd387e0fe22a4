//! The tracked strategies and their exit rules.
use vstd::prelude::*;

use crate::decimal::{dec_eq, dec_less, dec_lt, dec_same, Dec};
use crate::platform::mktdata::{first_with_symbol, MktData, SnapshotView};
use crate::platform::positions::{
    legs_well_formed, option_legs_view, Direction, OptionLegView, OptionSide, OptionType,
    Position, PositionView,
};

verus! {

/// The decimal zero.
pub open spec fn dec_zero() -> Dec {
    Dec { mantissa: 0, scale: 0 }
}

/// The mid-point of a snapshot's quote, or zero without one.
pub open spec fn snapshot_mid(x: SnapshotView) -> Dec {
    match x.quote {
        Some(q) => q.mid_price,
        None => dec_zero(),
    }
}

/// The snapshot of the position's underlying, if the store has one.
pub open spec fn underlying_snapshot(p: PositionView, md: Seq<SnapshotView>) -> Option<
    SnapshotView,
> {
    match first_with_symbol(md, p.legs[0].underlying) {
        Some(i) => Some(md[i]),
        None => None,
    }
}

/// The strike a credit spread is exited at: the second leg's for calls, the
/// first leg's for puts (legs are sorted by strike, highest first).
pub open spec fn credit_exit_strike(p: PositionView) -> Dec {
    if p.legs[0].side == OptionSide::Call {
        p.legs[1].strike_price
    } else {
        p.legs[0].strike_price
    }
}

/// A credit spread is exited once the underlying's mid-point (when known and
/// not zero) has crossed the exit strike: above it for calls, below it for puts.
pub open spec fn credit_should_exit(p: PositionView, md: Seq<SnapshotView>) -> bool {
    match underlying_snapshot(p, md) {
        None => false,
        Some(x) => {
            let mid = snapshot_mid(x);
            if dec_same(mid, dec_zero()) {
                false
            } else if p.legs[0].side == OptionSide::Call {
                dec_less(credit_exit_strike(p), mid)
            } else {
                dec_less(mid, credit_exit_strike(p))
            }
        },
    }
}

/// The exit rule of a credit spread can be evaluated: the position has a
/// leg, and where a non-zero mid-point is found the first leg is a call with a
/// second leg, or a put.
pub open spec fn credit_exit_defined(p: PositionView, md: Seq<SnapshotView>) -> bool {
    &&& p.legs.len() >= 1
    &&& (underlying_snapshot(p, md) is Some && !dec_same(
        snapshot_mid(underlying_snapshot(p, md)->0),
        dec_zero(),
    )) ==> p.legs[0].side != OptionSide::Neutral && (p.legs[0].side == OptionSide::Call
        ==> p.legs.len() >= 2)
}

/// An iron condor is exited once the underlying's mid-point (when known and
/// not zero) is above the call side's short strike (second leg) or below the
/// put side's short strike (third leg).
pub open spec fn condor_should_exit(p: PositionView, md: Seq<SnapshotView>) -> bool {
    match underlying_snapshot(p, md) {
        None => false,
        Some(x) => {
            let mid = snapshot_mid(x);
            if dec_same(mid, dec_zero()) {
                false
            } else {
                dec_less(p.legs[1].strike_price, mid) || dec_less(mid, p.legs[2].strike_price)
            }
        },
    }
}

/// The exit rule of an iron condor can be evaluated: the position has a leg,
/// a found underlying snapshot has a quote, and where its mid-point is not zero
/// the position has three legs.
pub open spec fn condor_exit_defined(p: PositionView, md: Seq<SnapshotView>) -> bool {
    &&& p.legs.len() >= 1
    &&& underlying_snapshot(p, md) is Some ==> underlying_snapshot(p, md)->0.quote is Some
    &&& (underlying_snapshot(p, md) is Some && !dec_same(
        snapshot_mid(underlying_snapshot(p, md)->0),
        dec_zero(),
    )) ==> p.legs.len() >= 3
}

/// The leg symbols of a position.
pub open spec fn leg_symbols(p: PositionView) -> Seq<Seq<char>> {
    p.legs.map_values(|l: OptionLegView| l.symbol)
}

/// Reads the underlying's snapshot and its mid-point.
fn underlying_mid(position: &Position, mktdata: &MktData) -> (r: Option<Dec>)
    requires
        mktdata.wf(),
        position.legs.len() >= 1,
    ensures
        r is Some <==> underlying_snapshot(position@, mktdata.view()) is Some,
        r matches Some(m) ==> m == snapshot_mid(underlying_snapshot(position@, mktdata.view())->0)
            && m.wf(),
{
    assert(option_legs_view(position.legs@)[0] == position.legs@[0]@);
    match mktdata.get_snapshot_by_symbol(position.legs[0].underlying.as_str()) {
        None => None,
        Some(snapshot) => Some(snapshot.mid_price()),
    }
}

/// A two-leg spread that collects a credit.
pub struct CreditSpread {
    position: Position,
}

impl CreditSpread {
    /// The position tracked.
    pub closed spec fn spec_position(&self) -> PositionView {
        self.position@
    }

    /// The legs' strikes are well formed.
    pub closed spec fn wf(&self) -> bool {
        legs_well_formed(self.position@.legs)
    }

    /// Tracks `position` as a credit spread.
    pub fn new(position: Position) -> (s: Self)
        ensures
            s.spec_position() == position@,
            s.wf() == legs_well_formed(position@.legs),
    {
        Self { position }
    }

    /// Whether the spread should be exited, by the underlying's snapshot.
    pub fn should_exit(&self, mktdata: &MktData) -> (r: bool)
        requires
            self.wf(),
            mktdata.wf(),
            credit_exit_defined(self.spec_position(), mktdata.view()),
        ensures
            r == credit_should_exit(self.spec_position(), mktdata.view()),
    {
        let mid = match underlying_mid(&self.position, mktdata) {
            None => {
                return false;
            },
            Some(m) => m,
        };
        let zero = Dec::zero();
        if dec_eq(&mid, &zero) {
            return false;
        }
        let legs = &self.position.legs;
        proof {
            assert(option_legs_view(legs@)[0] == legs@[0]@);
            assert(legs@[0].strike_price.wf()) by {
                assert(option_legs_view(legs@)[0].strike_price.wf());
            }
            if legs.len() >= 2 {
                assert(option_legs_view(legs@)[1] == legs@[1]@);
                assert(option_legs_view(legs@)[1].strike_price.wf());
            }
        }
        match legs[0].side {
            OptionSide::Call => dec_lt(&legs[1].strike_price, &mid),
            _ => dec_lt(&mid, &legs[0].strike_price),
        }
    }

    /// The underlying symbol.
    pub fn get_underlying(&self) -> (u: &str)
        requires
            self.spec_position().legs.len() >= 1,
        ensures
            u@ == self.spec_position().legs[0].underlying,
    {
        assert(option_legs_view(self.position.legs@)[0] == self.position.legs@[0]@);
        self.position.legs[0].underlying.as_str()
    }

    /// The leg symbols, in leg order.
    pub fn get_symbols(&self) -> (v: Vec<String>)
        ensures
            v@.map_values(|s: String| s@) == leg_symbols(self.spec_position()),
    {
        position_symbols(&self.position)
    }

    /// The instrument type of the first leg.
    pub fn get_option_type(&self) -> (t: OptionType)
        requires
            self.spec_position().legs.len() >= 1,
        ensures
            t == self.spec_position().legs[0].option_type,
    {
        assert(option_legs_view(self.position.legs@)[0] == self.position.legs@[0]@);
        self.position.legs[0].option_type
    }

    /// The position tracked.
    pub fn get_position(&self) -> (p: &Position)
        ensures
            p@ == self.spec_position(),
    {
        &self.position
    }
}

/// The leg symbols of a position, in leg order.
pub fn position_symbols(position: &Position) -> (v: Vec<String>)
    ensures
        v@.map_values(|s: String| s@) == leg_symbols(position@),
{
    let mut v: Vec<String> = Vec::new();
    let mut i: usize = 0;
    while i < position.legs.len()
        invariant
            0 <= i <= position.legs.len(),
            v@.map_values(|s: String| s@) == leg_symbols(position@).take(i as int),
        decreases position.legs.len() - i,
    {
        let ghost before = v@.map_values(|s: String| s@);
        v.push(position.legs[i].symbol.clone());
        proof {
            assert(option_legs_view(position.legs@)[i as int] == position.legs@[i as int]@);
            assert(v@.map_values(|s: String| s@) =~= before.push(position.legs@[i as int].symbol@));
            assert(leg_symbols(position@).take(i + 1) =~= leg_symbols(position@).take(i as int).push(
                leg_symbols(position@)[i as int],
            ));
        }
        i = i + 1;
    }
    assert(leg_symbols(position@).take(position.legs.len() as int) =~= leg_symbols(position@));
    v
}

/// A calendar spread: same strike, different expiries.
pub struct CalendarSpread {
    position: Position,
}

impl CalendarSpread {
    /// The position tracked.
    pub closed spec fn spec_position(&self) -> PositionView {
        self.position@
    }

    /// Tracks `position` as a calendar spread.
    pub fn new(position: Position) -> (s: Self)
        ensures
            s.spec_position() == position@,
    {
        Self { position }
    }

    /// Calendar spreads are never exited by this rule (their total theta starts
    /// and stays at zero, which is not negative).
    pub fn should_exit(&self, mktdata: &MktData) -> (r: bool)
        ensures
            r == false,
    {
        false
    }

    /// The underlying symbol.
    pub fn get_underlying(&self) -> (u: &str)
        requires
            self.spec_position().legs.len() >= 1,
        ensures
            u@ == self.spec_position().legs[0].underlying,
    {
        assert(option_legs_view(self.position.legs@)[0] == self.position.legs@[0]@);
        self.position.legs[0].underlying.as_str()
    }

    /// The leg symbols, in leg order.
    pub fn get_symbols(&self) -> (v: Vec<String>)
        ensures
            v@.map_values(|s: String| s@) == leg_symbols(self.spec_position()),
    {
        position_symbols(&self.position)
    }

    /// The instrument type of the first leg.
    pub fn get_option_type(&self) -> (t: OptionType)
        requires
            self.spec_position().legs.len() >= 1,
        ensures
            t == self.spec_position().legs[0].option_type,
    {
        assert(option_legs_view(self.position.legs@)[0] == self.position.legs@[0]@);
        self.position.legs[0].option_type
    }

    /// The position tracked.
    pub fn get_position(&self) -> (p: &Position)
        ensures
            p@ == self.spec_position(),
    {
        &self.position
    }
}

/// A four-leg iron condor.
pub struct IronCondor {
    position: Position,
}

impl IronCondor {
    /// The position tracked.
    pub closed spec fn spec_position(&self) -> PositionView {
        self.position@
    }

    /// The legs' strikes are well formed.
    pub closed spec fn wf(&self) -> bool {
        legs_well_formed(self.position@.legs)
    }

    /// Tracks `position` as an iron condor.
    pub fn new(position: Position) -> (s: Self)
        ensures
            s.spec_position() == position@,
            s.wf() == legs_well_formed(position@.legs),
    {
        Self { position }
    }

    /// Whether the condor should be exited, by the underlying's snapshot.
    pub fn should_exit(&self, mktdata: &MktData) -> (r: bool)
        requires
            self.wf(),
            mktdata.wf(),
            condor_exit_defined(self.spec_position(), mktdata.view()),
        ensures
            r == condor_should_exit(self.spec_position(), mktdata.view()),
    {
        let mid = match underlying_mid(&self.position, mktdata) {
            None => {
                return false;
            },
            Some(m) => m,
        };
        let zero = Dec::zero();
        if dec_eq(&mid, &zero) {
            return false;
        }
        let legs = &self.position.legs;
        proof {
            assert(option_legs_view(legs@)[1] == legs@[1]@);
            assert(option_legs_view(legs@)[2] == legs@[2]@);
            assert(option_legs_view(legs@)[1].strike_price.wf());
            assert(option_legs_view(legs@)[2].strike_price.wf());
        }
        let call_strike_price = legs[1].strike_price;
        let put_strike_price = legs[2].strike_price;
        dec_lt(&call_strike_price, &mid) || dec_lt(&mid, &put_strike_price)
    }

    /// The underlying symbol.
    pub fn get_underlying(&self) -> (u: &str)
        requires
            self.spec_position().legs.len() >= 1,
        ensures
            u@ == self.spec_position().legs[0].underlying,
    {
        assert(option_legs_view(self.position.legs@)[0] == self.position.legs@[0]@);
        self.position.legs[0].underlying.as_str()
    }

    /// The leg symbols, in leg order.
    pub fn get_symbols(&self) -> (v: Vec<String>)
        ensures
            v@.map_values(|s: String| s@) == leg_symbols(self.spec_position()),
    {
        position_symbols(&self.position)
    }

    /// The instrument type of the first leg.
    pub fn get_option_type(&self) -> (t: OptionType)
        requires
            self.spec_position().legs.len() >= 1,
        ensures
            t == self.spec_position().legs[0].option_type,
    {
        assert(option_legs_view(self.position.legs@)[0] == self.position.legs@[0]@);
        self.position.legs[0].option_type
    }

    /// The position tracked.
    pub fn get_position(&self) -> (p: &Position)
        ensures
            p@ == self.spec_position(),
    {
        &self.position
    }
}


/// With a known, non-zero underlying mid-point, a call credit spread whose
/// two legs are sorted by strike (highest first) is exited exactly when the
/// mid-point is above one of its strikes (that is, above the lower, short
/// strike); a put credit spread exactly when it is below one of its strikes
/// (below the higher, short strike). Without a snapshot of the underlying, or
/// at a zero mid-point, it is never exited.
pub proof fn lemma_credit_exit_crosses_a_strike(p: PositionView, md: Seq<SnapshotView>)
    requires
        p.legs.len() == 2,
        !dec_less(p.legs[0].strike_price, p.legs[1].strike_price),
    ensures
        underlying_snapshot(p, md) is None ==> !credit_should_exit(p, md),
        underlying_snapshot(p, md) matches Some(x) ==> {
            let m = snapshot_mid(x);
            &&& dec_same(m, dec_zero()) ==> !credit_should_exit(p, md)
            &&& (!dec_same(m, dec_zero()) && p.legs[0].side == OptionSide::Call) ==> (
            credit_should_exit(p, md) <==> exists|i: int|
                0 <= i < 2 && dec_less(#[trigger] p.legs[i].strike_price, m))
            &&& (!dec_same(m, dec_zero()) && p.legs[0].side != OptionSide::Call) ==> (
            credit_should_exit(p, md) <==> exists|i: int|
                0 <= i < 2 && dec_less(m, #[trigger] p.legs[i].strike_price))
        },
{
    if let Some(x) = underlying_snapshot(p, md) {
        let m = snapshot_mid(x);
        let hi = p.legs[0].strike_price;
        let lo = p.legs[1].strike_price;
        if dec_less(hi, m) {
            crate::decimal::lemma_dec_le_lt_trans(lo, hi, m);
        }
        if dec_less(m, lo) {
            crate::decimal::lemma_dec_lt_le_trans(m, lo, hi);
        }
    }
}

/// With a known, non-zero underlying mid-point, an iron condor held as one
/// (long outer call, short inner call, short inner put, long outer put) is
/// exited exactly when the mid-point has crossed one of its short strikes on
/// that strike's side: above the short call's or below the short put's.
pub proof fn lemma_condor_exit_crosses_a_short_strike(p: PositionView, md: Seq<SnapshotView>)
    requires
        p.legs.len() == 4,
        p.legs[0].direction == Direction::Long && p.legs[0].side == OptionSide::Call,
        p.legs[1].direction == Direction::Short && p.legs[1].side == OptionSide::Call,
        p.legs[2].direction == Direction::Short && p.legs[2].side == OptionSide::Put,
        p.legs[3].direction == Direction::Long && p.legs[3].side == OptionSide::Put,
    ensures
        underlying_snapshot(p, md) is None ==> !condor_should_exit(p, md),
        underlying_snapshot(p, md) matches Some(x) ==> {
            let m = snapshot_mid(x);
            &&& dec_same(m, dec_zero()) ==> !condor_should_exit(p, md)
            &&& !dec_same(m, dec_zero()) ==> (condor_should_exit(p, md) <==> exists|i: int|
                0 <= i < 4 && (#[trigger] p.legs[i]).direction == Direction::Short && ((
                p.legs[i].side == OptionSide::Call && dec_less(p.legs[i].strike_price, m)) || (
                p.legs[i].side == OptionSide::Put && dec_less(m, p.legs[i].strike_price))))
        },
{
    if let Some(x) = underlying_snapshot(p, md) {
        let m = snapshot_mid(x);
        if !dec_same(m, dec_zero()) {
            if condor_should_exit(p, md) {
                if dec_less(p.legs[1].strike_price, m) {
                    assert(p.legs[1].direction == Direction::Short);
                } else {
                    assert(p.legs[2].direction == Direction::Short);
                }
            }
        }
    }
}

} // verus!
