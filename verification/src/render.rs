//! Diagnostic textual renderings of an account and of a balance snapshot.

use vstd::prelude::*;

use crate::account::Account;
use crate::balance::{compute_balance, spec_balance, AccountBalance};

verus! {

/// The decimal digit character for `d` (`d < 10`).
pub open spec fn digit_char(d: nat) -> char {
    if d == 0 {
        '0'
    } else if d == 1 {
        '1'
    } else if d == 2 {
        '2'
    } else if d == 3 {
        '3'
    } else if d == 4 {
        '4'
    } else if d == 5 {
        '5'
    } else if d == 6 {
        '6'
    } else if d == 7 {
        '7'
    } else if d == 8 {
        '8'
    } else {
        '9'
    }
}

/// The decimal representation of `n`, most significant digit first, without
/// leading zeros (`0` itself is `"0"`).
pub open spec fn dec_digits(n: nat) -> Seq<char>
    decreases n,
{
    if n < 10 {
        seq![digit_char(n)]
    } else {
        dec_digits(n / 10).push(digit_char(n % 10))
    }
}

/// Relies on `u64`'s `Display` implementation, through `format!`: it writes
/// exactly the decimal representation of `n`, most significant digit first,
/// without leading zeros.
#[verifier::external_body]
fn format_u64(n: u64) -> (r: String)
    ensures
        r@ == dec_digits(n as nat),
{
    format!("{}", n)
}

/// The diagnostic rendering of a balance snapshot:
/// `total=<t>, available=<a>, incoming=<i>, outgoing=<o>`.
pub open spec fn balance_rendering(b: AccountBalance) -> Seq<char> {
    "total="@ + dec_digits(b.total as nat) + ", available="@ + dec_digits(b.available as nat)
        + ", incoming="@ + dec_digits(b.incoming as nat) + ", outgoing="@ + dec_digits(
        b.outgoing as nat,
    )
}

impl AccountBalance {
    /// Renders the snapshot as
    /// `total=<t>, available=<a>, incoming=<i>, outgoing=<o>`.
    pub fn to_string(&self) -> (r: String)
        ensures
            r@ == balance_rendering(*self),
    {
        let mut s = String::from_str("total=");
        s.append(format_u64(self.total).as_str());
        s.append(", available=");
        s.append(format_u64(self.available).as_str());
        s.append(", incoming=");
        s.append(format_u64(self.incoming).as_str());
        s.append(", outgoing=");
        s.append(format_u64(self.outgoing).as_str());
        s
    }
}

/// The diagnostic rendering of an account: its id, alias, and the rendering
/// of its balance snapshot.
pub open spec fn account_rendering(a: Account) -> Seq<char> {
    "id="@ + a.id@ + ", alias="@ + a.alias@ + ", "@ + balance_rendering(
        spec_balance(a.book.external@, a.book.internal@, a.ledger@),
    )
}

impl Account {
    /// Renders the account for diagnostics: id, alias and balance snapshot.
    pub fn to_string(&self) -> (r: String)
        ensures
            r@ == account_rendering(*self),
    {
        let mut s = String::from_str("id=");
        s.append(self.id.as_str());
        s.append(", alias=");
        s.append(self.alias.as_str());
        s.append(", ");
        let b = compute_balance(&self.book, &self.ledger);
        s.append(b.to_string().as_str());
        s
    }
}

} // verus!
