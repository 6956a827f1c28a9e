//! How the balance is shown where there is little room.

use vstd::prelude::*;
use vstd::string::StringExecFns;
use crate::text::{decimal_digits, decimal_text};

verus! {

/// The balance in short: from ten thousand on, the thousands and a `k`.
pub open spec fn short_balance(balance: u32) -> Seq<char> {
    if balance > 9999 {
        decimal_digits((balance / 1000) as nat) + "k"@
    } else {
        decimal_digits(balance as nat)
    }
}

/// Writes the balance in short.
pub fn tray_title(balance: u32) -> (text: String)
    ensures
        text@ == short_balance(balance),
{
    if balance > 9999 {
        let mut text = decimal_text((balance / 1000) as u128);
        text.append("k");
        text
    } else {
        decimal_text(balance as u128)
    }
}

/// Writes the line that explains the short balance.
pub fn tray_tooltip(balance: u32) -> (tooltip: String)
    ensures
        tooltip@ == short_balance(balance) + " - Augment Credits"@,
{
    let mut tooltip = tray_title(balance);
    tooltip.append(" - Augment Credits");
    tooltip
}

} // verus!
