//! The account: what it does with notifications of the account stream.
use vstd::prelude::*;

use crate::text::str_eq;
use crate::tt_api::sessions::Payload;

verus! {

/// The account, as the platform follows it.
pub struct Account {}

/// The notification type that carries an account balance.
pub open spec fn is_balance_notification(msg_type: Seq<char>) -> bool {
    msg_type == "AccountBalance"@
}

impl Account {
    /// The account.
    pub fn new() -> (a: Account) {
        Account {}
    }

    /// Whether a notification carries an account balance (whose data is then
    /// read and logged); every other notification is skipped.
    pub fn handle_msg(payload: &Payload) -> (r: bool)
        ensures
            r == is_balance_notification(payload.msg_type@),
    {
        str_eq(payload.msg_type.as_str(), "AccountBalance")
    }
}

} // verus!
