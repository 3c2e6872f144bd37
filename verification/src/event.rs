//! The record that a transfer leaves.

use crate::keys::Address;
use crate::text::{append_decimal, append_hex_list, decimal_text, hex_list};
use vstd::prelude::*;
use vstd::string::StringExecFns;

verus! {

/// The record of one transfer.
#[derive(Debug, Clone, Copy, PartialEq, Eq)]
pub struct TransferEvent {
    /// The account that paid.
    pub from: Address,
    /// The account that was paid.
    pub to: Address,
    /// What moved.
    pub amount: i64,
}

/// The name under which a transfer is announced.
pub fn event_name() -> (name: &'static str)
    ensures
        name@ == "Transfer"@,
{
    "Transfer"
}

impl TransferEvent {
    /// What a transfer announces: both addresses as lists of hexadecimal
    /// bytes, and the amount in decimal.
    pub open spec fn text(self) -> Seq<char> {
        "from="@ + hex_list(self.from@) + " to="@ + hex_list(self.to@) + " amount="@
            + decimal_text(self.amount as int)
    }

    /// The payload of the event.
    pub fn payload(&self) -> (text: String)
        ensures
            text@ == self.text(),
    {
        let mut text = String::from_str("from=");
        append_hex_list(&mut text, self.from.as_slice());
        text.append(" to=");
        append_hex_list(&mut text, self.to.as_slice());
        text.append(" amount=");
        append_decimal(&mut text, self.amount);
        text
    }
}

} // verus!
