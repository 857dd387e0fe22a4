//! Option legs and positions: parsing the broker's option symbols and
//! classifying a position into a strategy.
use vstd::prelude::*;
use vstd::string::*;

use crate::calendar::{parse_yymmdd, yymmdd_date, ExpirationDate};
use crate::decimal::{
    dec_checked_div, dec_less, dec_lt, dec_parse, dec_same, dec_eq, decimal_of_text,
    decimal_quotient, lemma_dec_le_trans, Dec,
};
use crate::text::{
    boundary_at, byte_len, char_index_at, chars_of, copy_range, is_boundary, lemma_byte_len_take_mono,
    split_whitespace_chars, str_byte_len, split_ws, str_eq, tokens_view, trim_leading_zeros,
    trim_zeros,
};
use crate::tt_api::positions::{Leg, LegView};

verus! {

broadcast use to_string_from_display_ensures_for_str;

/// The kind of strategy a position forms.
#[derive(Debug, Clone, Copy, PartialEq, Eq, Structural)]
pub enum StrategyType {
    Call,
    Put,
    CreditSpread,
    IronCondor,
    CalendarSpread,
    Other,
}

/// Whether an option is a call or a put.
#[derive(Debug, Clone, Copy, PartialEq, Eq, Structural)]
pub enum OptionSide {
    Call,
    Put,
    Neutral,
}

/// Long or short.
#[derive(Debug, Clone, Copy, PartialEq, Eq, Structural)]
pub enum Direction {
    Long,
    Short,
}

impl Direction {
    /// The broker's spelling of a direction: `"Long"` or `"Short"`.
    pub open spec fn is_spelling(s: Seq<char>) -> bool {
        s == "Long"@ || s == "Short"@
    }

    /// Parses `"Long"` or `"Short"`; any other text is a broken feed (the
    /// caller must not pass it).
    pub fn parse(direction: &str) -> (d: Direction)
        requires
            Direction::is_spelling(direction@),
        ensures
            d == (if direction@ == "Long"@ {
                Direction::Long
            } else {
                Direction::Short
            }),
    {
        if str_eq(direction, "Long") {
            Direction::Long
        } else {
            Direction::Short
        }
    }
}

impl OptionSide {
    /// Parses the put/call letter of an option symbol: `'C'` or `'P'`.
    pub fn parse(option_type: char) -> (s: OptionSide)
        requires
            option_type == 'C' || option_type == 'P',
        ensures
            s == (if option_type == 'C' {
                OptionSide::Call
            } else {
                OptionSide::Put
            }),
    {
        if option_type == 'C' {
            OptionSide::Call
        } else {
            OptionSide::Put
        }
    }

    /// The display text of a call or a put (a neutral side has none).
    pub open spec fn text(self) -> Seq<char> {
        match self {
            OptionSide::Call => "Call"@,
            _ => "Put"@,
        }
    }

    /// `"Call"` or `"Put"`.
    pub fn to_string(&self) -> (s: String)
        requires
            *self != OptionSide::Neutral,
        ensures
            s@ == self.text(),
    {
        match self {
            OptionSide::Call => "Call".to_string(),
            _ => "Put".to_string(),
        }
    }
}

/// The instrument type of a leg or of an underlying.
#[derive(Debug, Clone, Copy, PartialEq, Eq, Structural)]
pub enum OptionType {
    Equity,
    EquityOption,
    Future,
    FutureOption,
}

impl OptionType {
    /// The display text, as it goes into an order leg's instrument type (the
    /// option kinds carry a trailing space).
    pub open spec fn text(self) -> Seq<char> {
        match self {
            OptionType::Equity => "Equity"@,
            OptionType::Future => "Future"@,
            OptionType::EquityOption => "EquityOption "@,
            OptionType::FutureOption => "FutureOption "@,
        }
    }

    /// The display text of the instrument type.
    pub fn to_string(&self) -> (s: String)
        ensures
            s@ == self.text(),
    {
        match self {
            OptionType::Equity => "Equity".to_string(),
            OptionType::Future => "Future".to_string(),
            OptionType::EquityOption => "EquityOption ".to_string(),
            OptionType::FutureOption => "FutureOption ".to_string(),
        }
    }

    /// The broker's names of the four instrument types.
    pub open spec fn is_known_name(s: Seq<char>) -> bool {
        s == "Equity"@ || s == "Future"@ || s == "Equity Option"@ || s == "Future Option"@
    }

    /// The instrument type the broker's name denotes.
    pub open spec fn of_name(s: Seq<char>) -> OptionType {
        if s == "Equity"@ {
            OptionType::Equity
        } else if s == "Future"@ {
            OptionType::Future
        } else if s == "Equity Option"@ {
            OptionType::EquityOption
        } else {
            OptionType::FutureOption
        }
    }

    /// Maps the broker's instrument-type name to an `OptionType`; other names
    /// are unsupported (the caller must not pass them).
    pub fn get_symbol_type(instrument_type: &str) -> (t: OptionType)
        requires
            OptionType::is_known_name(instrument_type@),
        ensures
            t == OptionType::of_name(instrument_type@),
    {
        if str_eq(instrument_type, "Equity") {
            OptionType::Equity
        } else if str_eq(instrument_type, "Future") {
            OptionType::Future
        } else if str_eq(instrument_type, "Equity Option") {
            OptionType::EquityOption
        } else {
            OptionType::FutureOption
        }
    }
}

/// Whether an order adds money to the account or takes it.
#[derive(Debug, Clone, Copy, PartialEq, Eq, Structural)]
pub enum PriceEffect {
    Credit,
    Debit,
}

impl PriceEffect {
    /// The display text of the price effect.
    pub open spec fn text(self) -> Seq<char> {
        match self {
            PriceEffect::Credit => "Credit"@,
            PriceEffect::Debit => "Debit"@,
        }
    }

    /// `"Credit"` or `"Debit"`.
    pub fn to_string(&self) -> (s: String)
        ensures
            s@ == self.text(),
    {
        match self {
            PriceEffect::Credit => "Credit".to_string(),
            PriceEffect::Debit => "Debit".to_string(),
        }
    }
}

/// One parsed option leg of a position.
#[derive(Debug)]
pub struct OptionLeg {
    pub symbol: String,
    pub underlying: String,
    pub expiration_date: ExpirationDate,
    pub direction: Direction,
    pub side: OptionSide,
    pub strike_price: Dec,
    pub quantity: i32,
    pub option_type: OptionType,
}

/// The mathematical content of an option leg.
pub struct OptionLegView {
    pub symbol: Seq<char>,
    pub underlying: Seq<char>,
    pub expiration_date: ExpirationDate,
    pub direction: Direction,
    pub side: OptionSide,
    pub strike_price: Dec,
    pub quantity: i32,
    pub option_type: OptionType,
}

impl View for OptionLeg {
    type V = OptionLegView;

    open spec fn view(&self) -> OptionLegView {
        OptionLegView {
            symbol: self.symbol@,
            underlying: self.underlying@,
            expiration_date: self.expiration_date,
            direction: self.direction,
            side: self.side,
            strike_price: self.strike_price,
            quantity: self.quantity,
            option_type: self.option_type,
        }
    }
}

/// The outcome of reading one leg: a parsed leg, a rejected symbol (an error
/// the position skips), or an input on which parsing cannot proceed at all.
pub enum LegParse {
    Parsed(OptionLegView),
    Rejected,
    Panics,
}

/// Exec counterpart of `LegParse`.
pub enum LegOutcome {
    Parsed(OptionLeg),
    Rejected,
    Panics,
}

impl LegOutcome {
    pub open spec fn view(self) -> LegParse {
        match self {
            LegOutcome::Parsed(l) => LegParse::Parsed(l@),
            LegOutcome::Rejected => LegParse::Rejected,
            LegOutcome::Panics => LegParse::Panics,
        }
    }
}

/// The divisor that turns an equity-option strike field into dollars.
pub open spec fn thousand() -> Dec {
    Dec { mantissa: 1000, scale: 0 }
}

/// The side a put/call letter denotes.
pub open spec fn side_of_letter(c: char) -> OptionSide {
    if c == 'C' {
        OptionSide::Call
    } else {
        OptionSide::Put
    }
}

/// The direction the broker's spelling denotes.
pub open spec fn direction_of(s: Seq<char>) -> Direction {
    if s == "Long"@ {
        Direction::Long
    } else {
        Direction::Short
    }
}

/// Reading an equity-option symbol (OCC layout, 21 bytes: root padded to six,
/// `yymmdd`, `C`/`P`, strike in thousandths over eight digits).
pub open spec fn equity_option_parse(
    symbol: Seq<char>,
    underlying: Seq<char>,
    direction: Seq<char>,
    quantity: i32,
) -> LegParse {
    if byte_len(symbol) != 21 {
        LegParse::Rejected
    } else if !is_boundary(symbol, 6) || !is_boundary(symbol, 12) {
        LegParse::Panics
    } else {
        match yymmdd_date(
            symbol.subrange(char_index_at(symbol, 6), char_index_at(symbol, 12)),
        ) {
            None => LegParse::Rejected,
            Some(date) => {
                if symbol.len() <= 12 || !(symbol[12] == 'C' || symbol[12] == 'P') {
                    LegParse::Panics
                } else if !is_boundary(symbol, 13) {
                    LegParse::Panics
                } else {
                    match decimal_of_text(
                        trim_leading_zeros(
                            symbol.subrange(char_index_at(symbol, 13), symbol.len() as int),
                        ),
                    ) {
                        None => LegParse::Rejected,
                        Some(raw) => match decimal_quotient(raw, thousand()) {
                            None => LegParse::Panics,
                            Some(strike) => {
                                if !Direction::is_spelling(direction) {
                                    LegParse::Panics
                                } else {
                                    LegParse::Parsed(
                                        OptionLegView {
                                            symbol,
                                            underlying,
                                            expiration_date: date,
                                            direction: direction_of(direction),
                                            side: side_of_letter(symbol[12]),
                                            strike_price: strike,
                                            quantity,
                                            option_type: OptionType::EquityOption,
                                        },
                                    )
                                }
                            },
                        },
                    }
                }
            },
        }
    }
}

/// `s` begins with `"./"`.
pub open spec fn starts_with_dot_slash(s: Seq<char>) -> bool {
    s.len() >= 2 && s[0] == '.' && s[1] == '/'
}

/// Reading a future-option symbol (`./ROOT OPTROOT yymmddCSTRIKE`).
pub open spec fn future_option_parse(
    symbol: Seq<char>,
    underlying: Seq<char>,
    direction: Seq<char>,
    quantity: i32,
) -> LegParse {
    if byte_len(symbol) < 20 || !starts_with_dot_slash(symbol) {
        LegParse::Rejected
    } else {
        let parts = split_ws(symbol.skip(1));
        if parts.len() != 3 {
            LegParse::Rejected
        } else {
            let p = parts[2];
            if !is_boundary(p, 6) {
                LegParse::Panics
            } else {
                match yymmdd_date(p.subrange(0, char_index_at(p, 6))) {
                    None => LegParse::Rejected,
                    Some(date) => {
                        if p.len() <= 6 || !(p[6] == 'C' || p[6] == 'P') {
                            LegParse::Panics
                        } else if !is_boundary(p, 7) {
                            LegParse::Panics
                        } else {
                            match decimal_of_text(p.subrange(char_index_at(p, 7), p.len() as int)) {
                                None => LegParse::Rejected,
                                Some(strike) => {
                                    if !Direction::is_spelling(direction) {
                                        LegParse::Panics
                                    } else {
                                        LegParse::Parsed(
                                            OptionLegView {
                                                symbol,
                                                underlying,
                                                expiration_date: date,
                                                direction: direction_of(direction),
                                                side: side_of_letter(p[6]),
                                                strike_price: strike,
                                                quantity,
                                                option_type: OptionType::FutureOption,
                                            },
                                        )
                                    }
                                },
                            }
                        }
                    },
                }
            }
        }
    }
}

/// Two boundaries at increasing byte offsets fall at increasing character indices.
proof fn lemma_boundary_order(s: Seq<char>, i: int, j: int)
    requires
        0 <= i <= s.len(),
        0 <= j <= s.len(),
        byte_len(s.take(i)) < byte_len(s.take(j)),
    ensures
        i < j,
{
    if j < i {
        lemma_byte_len_take_mono(s, j, i);
    }
}

/// Builds a parsed leg.
fn make_leg(
    symbol: &str,
    underlying: &str,
    date: ExpirationDate,
    direction: &str,
    side: OptionSide,
    strike: Dec,
    quantity: i32,
    option_type: OptionType,
) -> (l: OptionLeg)
    requires
        Direction::is_spelling(direction@),
    ensures
        l@ == (OptionLegView {
            symbol: symbol@,
            underlying: underlying@,
            expiration_date: date,
            direction: direction_of(direction@),
            side,
            strike_price: strike,
            quantity,
            option_type,
        }),
{
    OptionLeg {
        symbol: symbol.to_string(),
        underlying: underlying.to_string(),
        expiration_date: date,
        direction: Direction::parse(direction),
        side,
        strike_price: strike,
        quantity,
        option_type,
    }
}

/// Reads an equity-option leg; `Panics` stands for the inputs on which the
/// symbol's layout cannot be sliced, the put/call letter is missing, or the
/// direction is not one of the broker's spellings.
pub fn parse_equity_option(symbol: &str, underlying: &str, direction: &str, quantity: i32) -> (r:
    LegOutcome)
    ensures
        r.view() == equity_option_parse(symbol@, underlying@, direction@, quantity),
        r matches LegOutcome::Parsed(l) ==> l.strike_price.wf() && l.side != OptionSide::Neutral,
{
    if str_byte_len(symbol) != 21 {
        return LegOutcome::Rejected;
    }
    let chars = chars_of(symbol);
    let b6 = boundary_at(&chars, 6);
    let b12 = boundary_at(&chars, 12);
    if b6.is_none() || b12.is_none() {
        return LegOutcome::Panics;
    }
    let i6 = b6.unwrap();
    let i12 = b12.unwrap();
    proof {
        lemma_boundary_order(chars@, i6 as int, i12 as int);
    }
    let date_text = copy_range(&chars, i6, i12);
    let date = match parse_yymmdd(&date_text) {
        None => {
            return LegOutcome::Rejected;
        },
        Some(d) => d,
    };
    if chars.len() <= 12 || !(chars[12] == 'C' || chars[12] == 'P') {
        return LegOutcome::Panics;
    }
    let side = OptionSide::parse(chars[12]);
    let b13 = boundary_at(&chars, 13);
    if b13.is_none() {
        return LegOutcome::Panics;
    }
    let i13 = b13.unwrap();
    let strike_text = copy_range(&chars, i13, chars.len());
    let digits = trim_zeros(&strike_text);
    let raw = match dec_parse(&digits) {
        None => {
            return LegOutcome::Rejected;
        },
        Some(d) => d,
    };
    let divisor = Dec::from_u32(1000);
    let strike = match dec_checked_div(&raw, &divisor) {
        None => {
            return LegOutcome::Panics;
        },
        Some(d) => d,
    };
    if !(str_eq(direction, "Long") || str_eq(direction, "Short")) {
        return LegOutcome::Panics;
    }
    LegOutcome::Parsed(
        make_leg(
            symbol,
            underlying,
            date,
            direction,
            side,
            strike,
            quantity,
            OptionType::EquityOption,
        ),
    )
}

/// Reads a future-option leg; `Panics` stands for the inputs on which the
/// third token cannot be sliced, the put/call letter is missing, or the
/// direction is not one of the broker's spellings.
pub fn parse_future_option(symbol: &str, underlying: &str, direction: &str, quantity: i32) -> (r:
    LegOutcome)
    ensures
        r.view() == future_option_parse(symbol@, underlying@, direction@, quantity),
        r matches LegOutcome::Parsed(l) ==> l.strike_price.wf() && l.side != OptionSide::Neutral,
{
    let chars = chars_of(symbol);
    if str_byte_len(symbol) < 20 || !(chars.len() >= 2 && chars[0] == '.' && chars[1] == '/') {
        return LegOutcome::Rejected;
    }
    let rest = copy_range(&chars, 1, chars.len());
    proof {
        assert(rest@ =~= symbol@.skip(1));
    }
    let parts = split_whitespace_chars(&rest);
    if parts.len() != 3 {
        return LegOutcome::Rejected;
    }
    let p = &parts[2];
    proof {
        assert(tokens_view(parts@)[2] == p@);
    }
    let b6 = boundary_at(p, 6);
    if b6.is_none() {
        return LegOutcome::Panics;
    }
    let i6 = b6.unwrap();
    let date_text = copy_range(p, 0, i6);
    let date = match parse_yymmdd(&date_text) {
        None => {
            return LegOutcome::Rejected;
        },
        Some(d) => d,
    };
    if p.len() <= 6 || !(p[6] == 'C' || p[6] == 'P') {
        return LegOutcome::Panics;
    }
    let side = OptionSide::parse(p[6]);
    let b7 = boundary_at(p, 7);
    if b7.is_none() {
        return LegOutcome::Panics;
    }
    let i7 = b7.unwrap();
    let strike_text = copy_range(p, i7, p.len());
    let strike = match dec_parse(&strike_text) {
        None => {
            return LegOutcome::Rejected;
        },
        Some(d) => d,
    };
    if !(str_eq(direction, "Long") || str_eq(direction, "Short")) {
        return LegOutcome::Panics;
    }
    LegOutcome::Parsed(
        make_leg(
            symbol,
            underlying,
            date,
            direction,
            side,
            strike,
            quantity,
            OptionType::FutureOption,
        ),
    )
}

/// Reading one broker leg: its instrument type, underlying and direction must
/// be present and the type known; equity and future options are parsed, other
/// instruments rejected.
pub open spec fn leg_parse(l: LegView) -> LegParse {
    match l.instrument_type {
        None => LegParse::Panics,
        Some(it) => {
            if !OptionType::is_known_name(it) {
                LegParse::Panics
            } else if l.underlying_symbol is None || l.quantity_direction is None {
                LegParse::Panics
            } else {
                match OptionType::of_name(it) {
                    OptionType::EquityOption => equity_option_parse(
                        l.symbol,
                        l.underlying_symbol->0,
                        l.quantity_direction->0,
                        l.quantity,
                    ),
                    OptionType::FutureOption => future_option_parse(
                        l.symbol,
                        l.underlying_symbol->0,
                        l.quantity_direction->0,
                        l.quantity,
                    ),
                    _ => LegParse::Rejected,
                }
            }
        },
    }
}

/// The views of broker legs.
pub open spec fn legs_view(legs: Seq<Leg>) -> Seq<LegView> {
    legs.map_values(|l: Leg| l@)
}

/// The views of option legs.
pub open spec fn option_legs_view(legs: Seq<OptionLeg>) -> Seq<OptionLegView> {
    legs.map_values(|l: OptionLeg| l@)
}

/// The legs that parse, in input order.
pub open spec fn parsed_legs(legs: Seq<LegView>) -> Seq<OptionLegView>
    decreases legs.len(),
{
    if legs.len() == 0 {
        Seq::empty()
    } else {
        let rest = parsed_legs(legs.drop_last());
        match leg_parse(legs.last()) {
            LegParse::Parsed(l) => rest.push(l),
            _ => rest,
        }
    }
}

/// Some leg cannot be read at all.
pub open spec fn any_leg_panics(legs: Seq<LegView>) -> bool {
    exists|i: int| 0 <= i < legs.len() && #[trigger] leg_parse(legs[i]) is Panics
}

/// Every parsed leg has a call or put side and a well-formed strike.
pub open spec fn legs_well_formed(legs: Seq<OptionLegView>) -> bool {
    forall|i: int|
        0 <= i < legs.len() ==> (#[trigger] legs[i]).strike_price.wf() && legs[i].side
            != OptionSide::Neutral
}

/// The strategy of a two-leg position: same expiry is a credit spread, same
/// strike (numerically) a calendar spread.
pub open spec fn two_leg_strategy(a: OptionLegView, b: OptionLegView) -> StrategyType {
    if a.expiration_date == b.expiration_date {
        StrategyType::CreditSpread
    } else if dec_same(a.strike_price, b.strike_price) {
        StrategyType::CalendarSpread
    } else {
        StrategyType::Other
    }
}

/// The strategy a position forms, from the number of legs reported and the
/// legs parsed (in input order).
pub open spec fn strategy_of(n_legs: nat, parsed: Seq<OptionLegView>) -> StrategyType {
    if n_legs == 1 {
        if parsed[0].side == OptionSide::Call {
            StrategyType::Call
        } else {
            StrategyType::Put
        }
    } else if n_legs == 2 {
        two_leg_strategy(parsed[0], parsed[1])
    } else if n_legs == 4 {
        StrategyType::IronCondor
    } else {
        StrategyType::Other
    }
}

/// The classification needs a parsed leg it does not have.
pub open spec fn strategy_panics(n_legs: nat, parsed: Seq<OptionLegView>) -> bool {
    ||| n_legs == 1 && (parsed.len() < 1 || parsed[0].side == OptionSide::Neutral)
    ||| n_legs == 2 && parsed.len() < 2
}

/// Building a position from these broker legs cannot proceed.
pub open spec fn position_panics(legs: Seq<LegView>) -> bool {
    any_leg_panics(legs) || strategy_panics(legs.len(), parsed_legs(legs))
}

/// Inserts `x` into legs sorted by strike, highest first, after every leg
/// whose strike is at least `x`'s.
pub open spec fn insert_by_strike(sorted: Seq<OptionLegView>, x: OptionLegView) -> Seq<
    OptionLegView,
>
    decreases sorted.len(),
{
    if sorted.len() == 0 {
        seq![x]
    } else if dec_less(sorted.last().strike_price, x.strike_price) {
        insert_by_strike(sorted.drop_last(), x).push(sorted.last())
    } else {
        sorted.push(x)
    }
}

/// The stable sort of legs by strike, highest first.
pub open spec fn sort_by_strike_desc(legs: Seq<OptionLegView>) -> Seq<OptionLegView>
    decreases legs.len(),
{
    if legs.len() == 0 {
        legs
    } else {
        insert_by_strike(sort_by_strike_desc(legs.drop_last()), legs.last())
    }
}

/// A position: its legs, sorted by strike (highest first), and its strategy.
pub struct Position {
    pub legs: Vec<OptionLeg>,
    pub strategy_type: StrategyType,
}

/// The mathematical content of a position.
pub struct PositionView {
    pub legs: Seq<OptionLegView>,
    pub strategy_type: StrategyType,
}

impl View for Position {
    type V = PositionView;

    open spec fn view(&self) -> PositionView {
        PositionView { legs: option_legs_view(self.legs@), strategy_type: self.strategy_type }
    }
}

/// The position built from broker legs.
pub open spec fn position_of(legs: Seq<LegView>) -> PositionView {
    PositionView {
        legs: sort_by_strike_desc(parsed_legs(legs)),
        strategy_type: strategy_of(legs.len(), parsed_legs(legs)),
    }
}

/// Inserting keeps the legs well formed.
proof fn lemma_insert_wf(sorted: Seq<OptionLegView>, x: OptionLegView)
    requires
        legs_well_formed(sorted),
        x.strike_price.wf() && x.side != OptionSide::Neutral,
    ensures
        legs_well_formed(insert_by_strike(sorted, x)),
        insert_by_strike(sorted, x).len() == sorted.len() + 1,
    decreases sorted.len(),
{
    if sorted.len() > 0 && dec_less(sorted.last().strike_price, x.strike_price) {
        lemma_insert_wf(sorted.drop_last(), x);
        let r = insert_by_strike(sorted.drop_last(), x);
        assert forall|i: int| 0 <= i < r.push(sorted.last()).len() implies (#[trigger] r.push(
            sorted.last(),
        )[i]).strike_price.wf() && r.push(sorted.last())[i].side != OptionSide::Neutral by {
            if i < r.len() {
                assert(r.push(sorted.last())[i] == r[i]);
            } else {
                assert(sorted.last() == sorted[sorted.len() - 1]);
            }
        }
    } else if sorted.len() > 0 {
        assert forall|i: int| 0 <= i < sorted.push(x).len() implies (#[trigger] sorted.push(
            x,
        )[i]).strike_price.wf() && sorted.push(x)[i].side != OptionSide::Neutral by {
            if i < sorted.len() {
                assert(sorted.push(x)[i] == sorted[i]);
            }
        }
    }
}

impl Position {
    /// Inserts `x` into `out`, which holds legs sorted by strike, highest first.
    fn insert_leg(out: &mut Vec<OptionLeg>, x: OptionLeg)
        requires
            legs_well_formed(option_legs_view(old(out)@)),
            x.strike_price.wf(),
            x.side != OptionSide::Neutral,
        ensures
            option_legs_view(final(out)@) == insert_by_strike(option_legs_view(old(out)@), x@),
    {
        let mut tail: Vec<OptionLeg> = Vec::new();
        let ghost target = insert_by_strike(option_legs_view(out@), x@);
        while out.len() > 0 && dec_lt(&out[out.len() - 1].strike_price, &x.strike_price)
            invariant
                legs_well_formed(option_legs_view(out@)),
                x.strike_price.wf(),
                target == insert_by_strike(option_legs_view(out@), x@) + option_legs_view(
                    tail@,
                ),
            decreases out.len(),
        {
            let ghost before = option_legs_view(out@);
            let ghost tail_before = option_legs_view(tail@);
            let last = out.pop().unwrap();
            proof {
                assert(option_legs_view(out@) =~= before.drop_last());
                assert(before.last() == last@);
                assert(legs_well_formed(option_legs_view(out@))) by {
                    assert forall|i: int| 0 <= i < option_legs_view(out@).len() implies (
                    #[trigger] option_legs_view(out@)[i]).strike_price.wf()
                        && option_legs_view(out@)[i].side != OptionSide::Neutral by {
                        assert(option_legs_view(out@)[i] == before[i]);
                    }
                }
            }
            tail.insert(0, last);
            proof {
                assert(option_legs_view(tail@) =~= seq![last@] + tail_before);
                assert(insert_by_strike(before, x@) == insert_by_strike(before.drop_last(), x@).push(
                    before.last(),
                ));
                assert(insert_by_strike(before.drop_last(), x@).push(before.last()) + tail_before
                    =~= insert_by_strike(before.drop_last(), x@) + (seq![before.last()]
                    + tail_before));
            }
        }
        let ghost before = option_legs_view(out@);
        proof {
            if before.len() > 0 {
                assert(before.last() == before[before.len() - 1]);
            }
        }
        out.push(x);
        proof {
            assert(option_legs_view(out@) =~= insert_by_strike(before, x@));
        }
        while tail.len() > 0
            invariant
                target == option_legs_view(out@) + option_legs_view(tail@),
            decreases tail.len(),
        {
            let ghost o = option_legs_view(out@);
            let ghost t = option_legs_view(tail@);
            let first = tail.remove(0);
            out.push(first);
            proof {
                assert(option_legs_view(out@) =~= o.push(t[0]));
                assert(option_legs_view(tail@) =~= t.drop_first());
                assert(o + t =~= o.push(t[0]) + t.drop_first());
            }
        }
        assert(option_legs_view(tail@) =~= Seq::<OptionLegView>::empty());
        assert(target =~= option_legs_view(out@));
    }

    /// Sorts legs by strike, highest first, keeping equal strikes in order.
    fn sort_legs(legs: Vec<OptionLeg>) -> (r: Vec<OptionLeg>)
        requires
            legs_well_formed(option_legs_view(legs@)),
        ensures
            option_legs_view(r@) == sort_by_strike_desc(option_legs_view(legs@)),
            legs_well_formed(option_legs_view(r@)),
    {
        let ghost orig = option_legs_view(legs@);
        let mut src = legs;
        let mut out: Vec<OptionLeg> = Vec::new();
        let mut k: usize = 0;
        let n = src.len();
        assert(orig.take(0) =~= Seq::<OptionLegView>::empty());
        assert(option_legs_view(src@) =~= orig.skip(0));
        while k < n
            invariant
                n == orig.len(),
                0 <= k <= n,
                src.len() == n - k,
                option_legs_view(src@) == orig.skip(k as int),
                option_legs_view(out@) == sort_by_strike_desc(orig.take(k as int)),
                legs_well_formed(option_legs_view(out@)),
                legs_well_formed(orig),
            decreases n - k,
        {
            let ghost s_before = option_legs_view(src@);
            let x = src.remove(0);
            proof {
                assert(x@ == s_before[0]);
                assert(s_before[0] == orig[k as int]);
                assert(option_legs_view(src@) =~= s_before.drop_first());
                assert(s_before.drop_first() =~= orig.skip(k + 1));
                assert(orig.take(k + 1).drop_last() =~= orig.take(k as int));
                assert(orig.take(k + 1).last() == orig[k as int]);
                lemma_insert_wf(option_legs_view(out@), x@);
            }
            Self::insert_leg(&mut out, x);
            k = k + 1;
        }
        assert(orig.take(n as int) =~= orig);
        out
    }

    /// Reads every broker leg; `None` where some leg cannot be read at all.
    fn parse_complex_symbols(legs: &Vec<Leg>) -> (r: Option<Vec<OptionLeg>>)
        ensures
            r is None <==> any_leg_panics(legs_view(legs@)),
            r matches Some(v) ==> option_legs_view(v@) == parsed_legs(legs_view(legs@))
                && legs_well_formed(option_legs_view(v@)),
    {
        let ghost lv = legs_view(legs@);
        let mut out: Vec<OptionLeg> = Vec::new();
        let mut i: usize = 0;
        assert(lv.take(0) =~= Seq::<LegView>::empty());
        while i < legs.len()
            invariant
                lv == legs_view(legs@),
                0 <= i <= legs.len(),
                forall|j: int| 0 <= j < i ==> !(#[trigger] leg_parse(lv[j]) is Panics),
                option_legs_view(out@) == parsed_legs(lv.take(i as int)),
                legs_well_formed(option_legs_view(out@)),
            decreases legs.len() - i,
        {
            let ghost before = option_legs_view(out@);
            let outcome = Self::leg_outcome(&legs[i]);
            proof {
                assert(lv[i as int] == legs@[i as int]@);
                assert(lv.take(i + 1).drop_last() =~= lv.take(i as int));
                assert(lv.take(i + 1).last() == lv[i as int]);
            }
            match outcome {
                LegOutcome::Panics => {
                    return None;
                },
                LegOutcome::Rejected => {},
                LegOutcome::Parsed(l) => {
                    out.push(l);
                    proof {
                        assert(option_legs_view(out@) =~= before.push(l@));
                        assert forall|j: int| 0 <= j < option_legs_view(out@).len() implies (
                        #[trigger] option_legs_view(out@)[j]).strike_price.wf()
                            && option_legs_view(out@)[j].side != OptionSide::Neutral by {
                            if j < before.len() {
                                assert(option_legs_view(out@)[j] == before[j]);
                            }
                        }
                    }
                },
            }
            i = i + 1;
        }
        assert(lv.take(legs.len() as int) =~= lv);
        Some(out)
    }

    /// Reads one broker leg.
    fn leg_outcome(leg: &Leg) -> (r: LegOutcome)
        ensures
            r.view() == leg_parse(leg@),
            r matches LegOutcome::Parsed(l) ==> l.strike_price.wf() && l.side != OptionSide::Neutral,
    {
        let it = match &leg.instrument_type {
            None => {
                return LegOutcome::Panics;
            },
            Some(t) => t,
        };
        let known = str_eq(it.as_str(), "Equity") || str_eq(it.as_str(), "Future") || str_eq(
            it.as_str(),
            "Equity Option",
        ) || str_eq(it.as_str(), "Future Option");
        if !known {
            return LegOutcome::Panics;
        }
        let kind = OptionType::get_symbol_type(it.as_str());
        let underlying = match &leg.underlying_symbol {
            None => {
                return LegOutcome::Panics;
            },
            Some(u) => u,
        };
        let direction = match &leg.quantity_direction {
            None => {
                return LegOutcome::Panics;
            },
            Some(d) => d,
        };
        match kind {
            OptionType::EquityOption => parse_equity_option(
                leg.symbol.as_str(),
                underlying.as_str(),
                direction.as_str(),
                leg.quantity,
            ),
            OptionType::FutureOption => parse_future_option(
                leg.symbol.as_str(),
                underlying.as_str(),
                direction.as_str(),
                leg.quantity,
            ),
            _ => LegOutcome::Rejected,
        }
    }

    /// The strategy of a single leg: its side.
    fn single_leg_strategies(symbols: &Vec<OptionLeg>) -> (t: StrategyType)
        requires
            symbols.len() >= 1,
            symbols[0].side != OptionSide::Neutral,
        ensures
            t == (if symbols[0].side == OptionSide::Call {
                StrategyType::Call
            } else {
                StrategyType::Put
            }),
    {
        match symbols[0].side {
            OptionSide::Call => StrategyType::Call,
            _ => StrategyType::Put,
        }
    }

    /// The strategy of two legs: same expiry, or else same strike, or neither.
    fn double_leg_strategies(symbols: &Vec<OptionLeg>) -> (t: StrategyType)
        requires
            symbols.len() >= 2,
            symbols[0].strike_price.wf(),
            symbols[1].strike_price.wf(),
        ensures
            t == two_leg_strategy(symbols[0]@, symbols[1]@),
    {
        let leg1 = &symbols[0];
        let leg2 = &symbols[1];
        if leg1.expiration_date == leg2.expiration_date {
            return StrategyType::CreditSpread;
        }
        if dec_eq(&leg1.strike_price, &leg2.strike_price) {
            return StrategyType::CalendarSpread;
        }
        StrategyType::Other
    }

    /// The strategy from the number of broker legs and the parsed legs.
    fn determine_strategy(symbols: &Vec<OptionLeg>, n_legs: usize) -> (t: StrategyType)
        requires
            !strategy_panics(n_legs as nat, option_legs_view(symbols@)),
            legs_well_formed(option_legs_view(symbols@)),
        ensures
            t == strategy_of(n_legs as nat, option_legs_view(symbols@)),
    {
        proof {
            if symbols.len() > 0 {
                assert(option_legs_view(symbols@)[0] == symbols@[0]@);
            }
            if symbols.len() > 1 {
                assert(option_legs_view(symbols@)[1] == symbols@[1]@);
            }
        }
        if n_legs == 1 {
            Self::single_leg_strategies(symbols)
        } else if n_legs == 2 {
            Self::double_leg_strategies(symbols)
        } else if n_legs == 4 {
            StrategyType::IronCondor
        } else {
            StrategyType::Other
        }
    }

    /// Builds the position from broker legs; `None` exactly where some leg or
    /// the classification cannot be read (where `new` may not be called).
    pub fn try_new(legs: Vec<Leg>) -> (r: Option<Position>)
        ensures
            r is None <==> position_panics(legs_view(legs@)),
            r matches Some(p) ==> p@ == position_of(legs_view(legs@)) && legs_well_formed(p@.legs),
    {
        let symbols = match Self::parse_complex_symbols(&legs) {
            None => {
                return None;
            },
            Some(v) => v,
        };
        let n = legs.len();
        let ghost parsed = option_legs_view(symbols@);
        let strategy_ok = if n == 1 {
            symbols.len() >= 1 && symbols[0].side != OptionSide::Neutral
        } else if n == 2 {
            symbols.len() >= 2
        } else {
            true
        };
        proof {
            if symbols.len() > 0 {
                assert(parsed[0] == symbols@[0]@);
            }
        }
        if !strategy_ok {
            return None;
        }
        let strategy_type = Self::determine_strategy(&symbols, n);
        let sorted = Self::sort_legs(symbols);
        Some(Position { legs: sorted, strategy_type })
    }

    /// Builds the position from broker legs: the legs that parse, sorted by
    /// strike (highest first), and the strategy they form.
    pub fn new(legs: Vec<Leg>) -> (p: Position)
        requires
            !position_panics(legs_view(legs@)),
        ensures
            p@ == position_of(legs_view(legs@)),
            legs_well_formed(p@.legs),
    {
        match Self::try_new(legs) {
            Some(p) => p,
            None => {
                proof {
                    assert(false);
                }
                Position { legs: Vec::new(), strategy_type: StrategyType::Other }
            },
        }
    }
}

/// Legs ordered by strike, highest first.
pub open spec fn strikes_descending(s: Seq<OptionLegView>) -> bool {
    forall|i: int, j: int|
        0 <= i < j < s.len() ==> !dec_less(#[trigger] s[i].strike_price, #[trigger] s[j].strike_price)
}

/// Inserting into legs ordered by strike keeps them ordered, adds exactly the
/// new leg, and brings in nothing else.
proof fn lemma_insert_by_strike_sorted(sorted: Seq<OptionLegView>, x: OptionLegView)
    requires
        strikes_descending(sorted),
    ensures
        strikes_descending(insert_by_strike(sorted, x)),
        insert_by_strike(sorted, x).to_multiset() =~= sorted.to_multiset().insert(x),
        forall|i: int|
            0 <= i < insert_by_strike(sorted, x).len() ==> #[trigger] insert_by_strike(sorted, x)[i]
                == x || sorted.contains(insert_by_strike(sorted, x)[i]),
        insert_by_strike(sorted, x).len() == sorted.len() + 1,
    decreases sorted.len(),
{
    broadcast use vstd::seq_lib::group_to_multiset_ensures;
    broadcast use vstd::multiset::group_multiset_axioms;

    let r = insert_by_strike(sorted, x);
    if sorted.len() == 0 {
        assert(r =~= Seq::<OptionLegView>::empty().push(x));
    } else {
        let dl = sorted.drop_last();
        let last = sorted.last();
        assert(sorted =~= dl.push(last));
        assert(strikes_descending(dl)) by {
            assert forall|i: int, j: int| 0 <= i < j < dl.len() implies !dec_less(
                #[trigger] dl[i].strike_price,
                #[trigger] dl[j].strike_price,
            ) by {
                assert(dl[i] == sorted[i] && dl[j] == sorted[j]);
            }
        }
        if dec_less(last.strike_price, x.strike_price) {
            lemma_insert_by_strike_sorted(dl, x);
            let r1 = insert_by_strike(dl, x);
            assert(r == r1.push(last));
            assert forall|i: int| 0 <= i < r1.len() implies !dec_less(
                #[trigger] r1[i].strike_price,
                last.strike_price,
            ) by {
                if r1[i] != x {
                    assert(dl.contains(r1[i]));
                    let k = choose|k: int| 0 <= k < dl.len() && dl[k] == r1[i];
                    assert(sorted[k] == dl[k]);
                    assert(sorted[sorted.len() - 1] == last);
                }
            }
            assert forall|i: int, j: int| 0 <= i < j < r.len() implies !dec_less(
                #[trigger] r[i].strike_price,
                #[trigger] r[j].strike_price,
            ) by {
                assert(r[i] == r1[i]);
                if j < r1.len() {
                    assert(r[j] == r1[j]);
                } else {
                    assert(r[j] == last);
                }
            }
            assert forall|i: int| 0 <= i < r.len() implies #[trigger] r[i] == x || sorted.contains(
                r[i],
            ) by {
                if i < r1.len() {
                    assert(r[i] == r1[i]);
                    if r1[i] != x {
                        let k = choose|k: int| 0 <= k < dl.len() && dl[k] == r1[i];
                        assert(sorted[k] == dl[k]);
                    }
                } else {
                    assert(r[i] == last);
                    assert(sorted[sorted.len() - 1] == last);
                }
            }
        } else {
            assert(r == sorted.push(x));
            assert forall|i: int, j: int| 0 <= i < j < r.len() implies !dec_less(
                #[trigger] r[i].strike_price,
                #[trigger] r[j].strike_price,
            ) by {
                assert(r[i] == sorted[i]);
                if j < sorted.len() {
                    assert(r[j] == sorted[j]);
                } else {
                    assert(r[j] == x);
                    if i < sorted.len() - 1 {
                        assert(!dec_less(sorted[i].strike_price, sorted[sorted.len() - 1].strike_price));
                    }
                    lemma_dec_le_trans(x.strike_price, last.strike_price, sorted[i].strike_price);
                }
            }
            assert forall|i: int| 0 <= i < r.len() implies #[trigger] r[i] == x || sorted.contains(
                r[i],
            ) by {
                if i < sorted.len() {
                    assert(r[i] == sorted[i]);
                }
            }
        }
    }
}

/// A position's legs are exactly the legs that parse, ordered by strike from
/// highest to lowest.
pub proof fn lemma_position_legs_sorted(legs: Seq<LegView>)
    ensures
        strikes_descending(position_of(legs).legs),
        position_of(legs).legs.to_multiset() =~= parsed_legs(legs).to_multiset(),
{
    lemma_sort_by_strike_desc(parsed_legs(legs));
}

/// Sorting orders the legs by strike and keeps exactly the same legs.
proof fn lemma_sort_by_strike_desc(s: Seq<OptionLegView>)
    ensures
        strikes_descending(sort_by_strike_desc(s)),
        sort_by_strike_desc(s).to_multiset() =~= s.to_multiset(),
    decreases s.len(),
{
    broadcast use vstd::seq_lib::group_to_multiset_ensures;

    if s.len() > 0 {
        lemma_sort_by_strike_desc(s.drop_last());
        lemma_insert_by_strike_sorted(sort_by_strike_desc(s.drop_last()), s.last());
        assert(s =~= s.drop_last().push(s.last()));
    }
}

/// A leg that parses is an equity option or a future option.
proof fn lemma_leg_parse_is_option(l: LegView)
    ensures
        leg_parse(l) matches LegParse::Parsed(x) ==> (x.option_type == OptionType::EquityOption
            || x.option_type == OptionType::FutureOption),
{
    match l.instrument_type {
        None => {},
        Some(it) => {
            if OptionType::is_known_name(it) && l.underlying_symbol is Some
                && l.quantity_direction is Some {
                let sym = l.symbol;
                let u = l.underlying_symbol->0;
                let d = l.quantity_direction->0;
                assert(equity_option_parse(sym, u, d, l.quantity) matches LegParse::Parsed(x)
                    ==> x.option_type == OptionType::EquityOption);
                assert(future_option_parse(sym, u, d, l.quantity) matches LegParse::Parsed(x)
                    ==> x.option_type == OptionType::FutureOption);
            }
        },
    }
}

/// Every leg of a position is an equity option or a future option, and a
/// position classified as a credit spread has at least two legs.
pub proof fn lemma_position_legs_are_options(legs: Seq<LegView>)
    requires
        !position_panics(legs),
    ensures
        forall|i: int|
            0 <= i < position_of(legs).legs.len() ==> ((#[trigger] position_of(legs).legs[i]).option_type
                == OptionType::EquityOption || position_of(legs).legs[i].option_type
                == OptionType::FutureOption),
        position_of(legs).strategy_type == StrategyType::CreditSpread ==> position_of(legs).legs.len()
            >= 2,
{
    broadcast use vstd::seq_lib::group_to_multiset_ensures;

    lemma_parsed_legs_are_options(legs);
    lemma_position_legs_sorted(legs);
    let sorted = position_of(legs).legs;
    let parsed = parsed_legs(legs);
    assert(sorted.len() == parsed.len()) by {
        assert(sorted.to_multiset().len() == parsed.to_multiset().len());
    }
    assert forall|i: int| 0 <= i < sorted.len() implies ((#[trigger] sorted[i]).option_type
        == OptionType::EquityOption || sorted[i].option_type == OptionType::FutureOption) by {
        assert(sorted.contains(sorted[i]));
        assert(sorted.to_multiset().count(sorted[i]) > 0);
        assert(parsed.to_multiset().count(sorted[i]) > 0);
        assert(parsed.contains(sorted[i]));
        let k = choose|k: int| 0 <= k < parsed.len() && parsed[k] == sorted[i];
        assert(parsed[k].option_type == OptionType::EquityOption || parsed[k].option_type
            == OptionType::FutureOption);
    }
}

/// Every leg that parses is an equity option or a future option.
proof fn lemma_parsed_legs_are_options(legs: Seq<LegView>)
    ensures
        forall|i: int|
            0 <= i < parsed_legs(legs).len() ==> ((#[trigger] parsed_legs(legs)[i]).option_type
                == OptionType::EquityOption || parsed_legs(legs)[i].option_type
                == OptionType::FutureOption),
    decreases legs.len(),
{
    if legs.len() > 0 {
        lemma_parsed_legs_are_options(legs.drop_last());
        lemma_leg_parse_is_option(legs.last());
        let rest = parsed_legs(legs.drop_last());
        match leg_parse(legs.last()) {
            LegParse::Parsed(l) => {
                assert forall|i: int| 0 <= i < rest.push(l).len() implies ((#[trigger] rest.push(
                    l,
                )[i]).option_type == OptionType::EquityOption || rest.push(l)[i].option_type
                    == OptionType::FutureOption) by {
                    if i < rest.len() {
                        assert(rest.push(l)[i] == rest[i]);
                    }
                }
            },
            _ => {},
        }
    }
}


/// A parsed equity-option leg carries what it was read from: the symbol (21
/// bytes long), the underlying and the quantity as given, the equity-option
/// type, the side its put/call letter names and the direction the broker
/// spelled.
pub proof fn lemma_equity_leg_carries_inputs(
    symbol: Seq<char>,
    underlying: Seq<char>,
    direction: Seq<char>,
    quantity: i32,
)
    ensures
        equity_option_parse(symbol, underlying, direction, quantity) matches LegParse::Parsed(l)
            ==> {
            &&& byte_len(symbol) == 21
            &&& l.symbol == symbol
            &&& l.underlying == underlying
            &&& l.quantity == quantity
            &&& l.option_type == OptionType::EquityOption
            &&& symbol.len() > 12
            &&& (symbol[12] == 'C' ==> l.side == OptionSide::Call)
            &&& (symbol[12] == 'P' ==> l.side == OptionSide::Put)
            &&& (direction == "Long"@ ==> l.direction == Direction::Long)
            &&& (direction == "Short"@ ==> l.direction == Direction::Short)
            &&& (direction == "Long"@ || direction == "Short"@)
        },
{
    reveal_strlit("Long");
    reveal_strlit("Short");
    assert("Short"@[0] != "Long"@[0]);
}

/// A parsed future-option leg carries what it was read from: the symbol
/// (`./`-prefixed, at least 20 bytes), the underlying and the quantity as
/// given, the future-option type and the direction the broker spelled.
pub proof fn lemma_future_leg_carries_inputs(
    symbol: Seq<char>,
    underlying: Seq<char>,
    direction: Seq<char>,
    quantity: i32,
)
    ensures
        future_option_parse(symbol, underlying, direction, quantity) matches LegParse::Parsed(l)
            ==> {
            &&& byte_len(symbol) >= 20
            &&& symbol.len() >= 2 && symbol[0] == '.' && symbol[1] == '/'
            &&& l.symbol == symbol
            &&& l.underlying == underlying
            &&& l.quantity == quantity
            &&& l.option_type == OptionType::FutureOption
            &&& l.side != OptionSide::Neutral
            &&& (direction == "Long"@ ==> l.direction == Direction::Long)
            &&& (direction == "Short"@ ==> l.direction == Direction::Short)
            &&& (direction == "Long"@ || direction == "Short"@)
        },
{
    reveal_strlit("Long");
    reveal_strlit("Short");
    assert("Short"@[0] != "Long"@[0]);
}

/// How a position is classified, by the number of legs the broker reported:
/// one leg is a call or a put as that leg is; two legs of one expiry a credit
/// spread, of different expiries but one strike a calendar spread, otherwise
/// neither; four legs an iron condor; any other number neither.
pub proof fn lemma_position_classification(legs: Seq<LegView>)
    requires
        !position_panics(legs),
    ensures
        legs.len() == 1 ==> (position_of(legs).strategy_type == StrategyType::Call
            <==> parsed_legs(legs)[0].side == OptionSide::Call),
        legs.len() == 1 ==> (position_of(legs).strategy_type == StrategyType::Put
            <==> parsed_legs(legs)[0].side == OptionSide::Put),
        legs.len() == 2 ==> {
            let a = parsed_legs(legs)[0];
            let b = parsed_legs(legs)[1];
            &&& a.expiration_date == b.expiration_date ==> position_of(legs).strategy_type
                == StrategyType::CreditSpread
            &&& (a.expiration_date != b.expiration_date && dec_same(a.strike_price, b.strike_price))
                ==> position_of(legs).strategy_type == StrategyType::CalendarSpread
            &&& (a.expiration_date != b.expiration_date && !dec_same(
                a.strike_price,
                b.strike_price,
            )) ==> position_of(legs).strategy_type == StrategyType::Other
        },
        legs.len() == 4 ==> position_of(legs).strategy_type == StrategyType::IronCondor,
        (legs.len() != 1 && legs.len() != 2 && legs.len() != 4) ==> position_of(legs).strategy_type
            == StrategyType::Other,
{
}

} // verus!
