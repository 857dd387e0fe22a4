//! The account-balance notification of the account stream.
use vstd::prelude::*;

verus! {

/// An account-balance notification.
pub struct AccountBalance {
    pub type_field: String,
    pub data: AccountData,
    pub timestamp: u64,
}

/// The balances of an account, as the broker reports them.
pub struct AccountData {
    pub account_number: String,
    pub cash_balance: String,
    pub long_equity_value: String,
    pub short_equity_value: String,
    pub long_derivative_value: String,
    pub short_derivative_value: String,
    pub long_futures_value: String,
    pub short_futures_value: String,
    pub long_futures_derivative_value: String,
    pub short_futures_derivative_value: String,
    pub long_margineable_value: String,
    pub short_margineable_value: String,
    pub margin_equity: String,
    pub equity_buying_power: String,
    pub derivative_buying_power: String,
    pub day_trading_buying_power: String,
    pub futures_margin_requirement: String,
    pub available_trading_funds: String,
    pub maintenance_requirement: String,
    pub maintenance_call_value: String,
    pub reg_t_call_value: String,
    pub day_trading_call_value: String,
    pub day_equity_call_value: String,
    pub net_liquidating_value: String,
    pub cash_available_to_withdraw: String,
    pub day_trade_excess: String,
    pub pending_cash: String,
    pub pending_cash_effect: String,
    pub long_cryptocurrency_value: String,
    pub short_cryptocurrency_value: String,
    pub cryptocurrency_margin_requirement: String,
    pub unsettled_cryptocurrency_fiat_amount: String,
    pub unsettled_cryptocurrency_fiat_effect: String,
    pub closed_loop_available_balance: String,
    pub equity_offering_margin_requirement: String,
    pub long_bond_value: String,
    pub bond_margin_requirement: String,
    pub used_derivative_buying_power: String,
    pub special_memorandum_account_value: String,
    pub special_memorandum_account_apex_adjustment: String,
    pub total_settle_balance: String,
    pub snapshot_date: String,
    pub reg_t_margin_requirement: String,
    pub futures_overnight_margin_requirement: String,
    pub futures_intraday_margin_requirement: String,
    pub maintenance_excess: String,
    pub pending_margin_interest: String,
    pub apex_starting_day_margin_equity: String,
    pub buying_power_adjustment: String,
    pub buying_power_adjustment_effect: String,
    pub effective_cryptocurrency_buying_power: String,
    pub updated_at: String,
}

} // verus!
