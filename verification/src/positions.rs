//! The option kinds and instrument kinds of the account's option legs, as
//! the position reader names them.
use vstd::prelude::*;
use vstd::string::*;

use crate::text::str_eq;

verus! {

broadcast use to_string_from_display_ensures_for_str;

/// A call or a put.
#[derive(Debug, Clone, Copy, PartialEq, Eq, Structural)]
pub enum OptionType {
    Call,
    Put,
}

impl OptionType {
    /// Reads the option letter of an option symbol: `C` for a call, `P` for a
    /// put (any other letter is a broken symbol; the caller must not pass it).
    pub fn parse(option_type: char) -> (t: OptionType)
        requires
            option_type == 'C' || option_type == 'P',
        ensures
            t == (if option_type == 'C' {
                OptionType::Call
            } else {
                OptionType::Put
            }),
    {
        if option_type == 'C' {
            OptionType::Call
        } else {
            OptionType::Put
        }
    }

    /// The display text of the option kind.
    pub open spec fn text(self) -> Seq<char> {
        match self {
            OptionType::Call => "Call"@,
            OptionType::Put => "Put"@,
        }
    }

    /// `"Call"` or `"Put"`.
    pub fn to_string(&self) -> (s: String)
        ensures
            s@ == self.text(),
    {
        match self {
            OptionType::Call => "Call".to_string(),
            OptionType::Put => "Put".to_string(),
        }
    }
}

/// Whether an option is on an equity or on a future.
#[derive(Debug, Clone, Copy, PartialEq, Eq, Structural)]
pub enum InstrumentType {
    Equity,
    Future,
}

impl InstrumentType {
    /// The broker's names of option instruments.
    pub open spec fn is_option_name(s: Seq<char>) -> bool {
        s == "Equity Option"@ || s == "Future Option"@
    }

    /// Maps the broker's option instrument name to the kind of underlying
    /// (other names are unsupported; the caller must not pass them).
    pub fn get_symbol_type(instrument_type: &str) -> (t: InstrumentType)
        requires
            InstrumentType::is_option_name(instrument_type@),
        ensures
            t == (if instrument_type@ == "Equity Option"@ {
                InstrumentType::Equity
            } else {
                InstrumentType::Future
            }),
    {
        if str_eq(instrument_type, "Equity Option") {
            InstrumentType::Equity
        } else {
            InstrumentType::Future
        }
    }
}

} // verus!
