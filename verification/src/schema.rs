//! The transaction data that the replay engine reads, modeled as plain values.
//!
//! The remote service's wire format carries timestamps and floating-point
//! amounts; by the time a transaction reaches the engine it has been reduced
//! to the fields the logic actually reads: the calendar month of its date and
//! its magnitude in integer minor units (cents).

use vstd::prelude::*;

verus! {

/// Largest transaction magnitude the engine accepts, in minor units.
/// Keeps every running balance comfortably inside `i64`.
pub const MAX_AMOUNT_MINOR: i64 = 100_000_000_000;

/// The transaction kinds the remote bookkeeping service distinguishes.
#[derive(Clone, Copy, PartialEq, Eq, Structural, Debug)]
pub enum TransactionType {
    Withdrawal,
    Deposit,
    Transfer,
    Reconciliation,
    OpeningBalance,
}

/// One transaction split, as the engine sees it.
///
/// `id` addresses the whole remote transaction (for update and delete);
/// `transaction_journal_id` addresses the split inside it (required by the
/// remote update schema). `amount` is a non-negative magnitude in minor
/// units; its sign on the balance is decided by `transaction_type`.
pub struct Transaction {
    pub id: usize,
    pub transaction_journal_id: usize,
    pub transaction_type: TransactionType,
    pub description: String,
    pub year: i32,
    pub month: u32,
    pub amount: i64,
    pub source_id: Option<usize>,
    pub destination_id: Option<usize>,
}

/// Mathematical image of a [`Transaction`]: every number an `int`, the
/// description a sequence of characters.
pub ghost struct TransactionModel {
    pub id: int,
    pub transaction_journal_id: int,
    pub transaction_type: TransactionType,
    pub description: Seq<char>,
    pub year: int,
    pub month: int,
    pub amount: int,
    pub source_id: Option<int>,
    pub destination_id: Option<int>,
}

impl View for Transaction {
    type V = TransactionModel;

    open spec fn view(&self) -> TransactionModel {
        TransactionModel {
            id: self.id as int,
            transaction_journal_id: self.transaction_journal_id as int,
            transaction_type: self.transaction_type,
            description: self.description@,
            year: self.year as int,
            month: self.month as int,
            amount: self.amount as int,
            source_id: match self.source_id {
                Some(s) => Some(s as int),
                None => None,
            },
            destination_id: match self.destination_id {
                Some(d) => Some(d as int),
                None => None,
            },
        }
    }
}

impl TransactionModel {
    /// A transaction the engine is willing to replay: a real calendar month,
    /// a year the date arithmetic supports, and a bounded magnitude.
    pub open spec fn wf(self) -> bool {
        &&& 1 <= self.month <= 12
        &&& 1 <= self.year <= 9999
        &&& 0 <= self.amount <= MAX_AMOUNT_MINOR
    }

    /// Dates are compared by calendar month alone: the engine only ever asks
    /// whether a transaction still belongs to the month being accumulated.
    pub open spec fn month_le(self, other: TransactionModel) -> bool {
        self.year < other.year || (self.year == other.year && self.month <= other.month)
    }
}

} // verus!
