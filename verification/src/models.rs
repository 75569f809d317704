//! Plain data carried across the ledger's boundary: monetary amounts,
//! transaction records and account snapshots.

use vstd::prelude::*;

verus! {

/// A signed fixed-point decimal with four fractional digits.
///
/// The value is stored as a raw count of ten-thousandths, so `raw == 15_000`
/// stands for `1.5`. The mathematical value of an `Amount` (its view) is that
/// raw count as an unbounded integer.
#[derive(Clone, Copy, Debug, PartialEq, Eq, Structural)]
pub struct Amount {
    /// The value in ten-thousandths.
    pub raw: i64,
}

impl View for Amount {
    type V = int;

    open spec fn view(&self) -> int {
        self.raw as int
    }
}

/// Multiplier that turns a mantissa with `scale` fractional digits into a raw
/// count of ten-thousandths.
pub open spec fn scale_factor(scale: u32) -> int {
    if scale == 0 {
        10000
    } else if scale == 1 {
        1000
    } else if scale == 2 {
        100
    } else if scale == 3 {
        10
    } else {
        1
    }
}

impl Amount {
    /// Builds the amount `mantissa / 10^scale`, for scales up to four digits.
    pub fn new(mantissa: i64, scale: u32) -> (r: Amount)
        requires
            scale <= 4,
            i64::MIN <= mantissa * scale_factor(scale) <= i64::MAX,
        ensures
            r@ == mantissa * scale_factor(scale),
    {
        let factor: i64 = if scale == 0 {
            10000
        } else if scale == 1 {
            1000
        } else if scale == 2 {
            100
        } else if scale == 3 {
            10
        } else {
            1
        };
        proof {
            assert(factor as int == scale_factor(scale));
        }
        Amount { raw: mantissa * factor }
    }
}

impl Default for Amount {
    /// The zero amount.
    fn default() -> (r: Amount)
        ensures
            r@ == 0,
    {
        Amount { raw: 0 }
    }
}

/// The five kinds of transaction the ledger understands.
#[derive(Clone, Copy, Debug, PartialEq, Eq, Structural)]
pub enum TransactionType {
    Deposit,
    Withdrawal,
    Dispute,
    Resolve,
    Chargeback,
}

/// One transaction record from the input stream.
///
/// The amount is required for deposits and withdrawals and ignored for the
/// three dispute-lifecycle kinds.
#[derive(Clone, Copy, Debug, PartialEq)]
pub struct Transaction {
    /// One of the five transaction kinds.
    pub transaction_type: TransactionType,
    /// Client identifier.
    pub client: u16,
    /// Transaction identifier.
    pub tx: u32,
    /// Amount: only required for deposits and withdrawals.
    pub amount: Option<Amount>,
}

/// A read-only snapshot of one client account.
#[derive(Clone, Copy, Debug, PartialEq, Eq, Structural)]
pub struct Account {
    /// Client identifier.
    pub client: u16,
    /// Funds free to withdraw or place under dispute.
    pub available: Amount,
    /// Funds frozen under active dispute.
    pub held: Amount,
    /// Sum of available and held funds.
    pub total: Amount,
    /// True once a chargeback has locked the account.
    pub locked: bool,
}

} // verus!
