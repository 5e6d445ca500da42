//! The ledger replay engine and the reconciliation resolver.
//!
//! `history_replay` walks one account's transactions in ascending month
//! order, accumulates a running balance in signed minor units, and closes a
//! month whenever a transaction from a later month arrives. At each close it
//! consults the expected-balance table; on a mismatch the resolver decides
//! the correcting mutation — update the month's previous correction in
//! place, or delete it and create a fresh one, or create one from nothing —
//! and adjusts the running balance. The engine performs no network calls: it
//! returns the month-end reports and the ordered mutations, and the caller
//! carries the mutations to the remote service, stopping at the first
//! failure exactly where the replay would have stopped.

use vstd::prelude::*;
use vstd::math::abs;
use crate::config::BankData;
use crate::dates::{month_end_model, month_end_stamp, MonthEndStamp, StampModel};
use crate::description::{
    format_reconciliation_description, has_reconciliation_prefix, is_reconciliation_description,
    reconciliation_description,
};
use crate::schema::{Transaction, TransactionModel, TransactionType, MAX_AMOUNT_MINOR};

verus! {

/// The fixed clearing account that created corrections draw from or pay
/// into.
pub const CLEARING_ACCOUNT_ID: usize = 1;

/// Largest transaction count one replay accepts; keeps the running balance
/// inside `i64` whatever the stream holds.
pub const MAX_TRANSACTIONS: usize = 10_000_000;

/// Every running balance of an admissible replay stays within this bound.
pub const BALANCE_LIMIT: i64 = 1_100_000_000_000_000_000;

/// Why a replay, or the run around it, stopped.
#[derive(Debug)]
pub enum ReplayError {
    /// The transaction stream was empty: no date anchors the month tracker.
    EmptyInput,
    /// Transactions could not be fetched or decoded.
    Fetch { detail: String },
    /// The remote service answered a mutation outside the 200..=299 range.
    RemoteMutation { status: u16, body: String },
}

/// The in-place amount change for an existing correction.
#[derive(Debug)]
pub struct TransactionUpdate {
    pub transaction_type: TransactionType,
    pub transaction_journal_id: usize,
    pub amount: i64,
}

/// Mathematical image of a [`TransactionUpdate`].
pub ghost struct TransactionUpdateModel {
    pub transaction_type: TransactionType,
    pub transaction_journal_id: int,
    pub amount: int,
}

impl View for TransactionUpdate {
    type V = TransactionUpdateModel;

    open spec fn view(&self) -> TransactionUpdateModel {
        TransactionUpdateModel {
            transaction_type: self.transaction_type,
            transaction_journal_id: self.transaction_journal_id as int,
            amount: self.amount as int,
        }
    }
}

/// A correction to be created from nothing.
#[derive(Debug)]
pub struct TransactionCreate {
    pub transaction_type: TransactionType,
    pub description: String,
    pub date: MonthEndStamp,
    pub amount: i64,
    pub source_id: Option<usize>,
    pub destination_id: Option<usize>,
}

/// Mathematical image of a [`TransactionCreate`].
pub ghost struct TransactionCreateModel {
    pub transaction_type: TransactionType,
    pub description: Seq<char>,
    pub date: StampModel,
    pub amount: int,
    pub source_id: Option<int>,
    pub destination_id: Option<int>,
}

impl View for TransactionCreate {
    type V = TransactionCreateModel;

    open spec fn view(&self) -> TransactionCreateModel {
        TransactionCreateModel {
            transaction_type: self.transaction_type,
            description: self.description@,
            date: self.date@,
            amount: self.amount as int,
            source_id: match self.source_id {
                Some(s) => Some(s as int),
                None => None,
            },
            destination_id: match self.destination_id {
                Some(d) => Some(d as int),
                None => None,
            },
        }
    }
}

/// One remote change the replay asks for, in execution order.
#[derive(Debug)]
pub enum Mutation {
    /// Rewrite the amount of the transaction with this id, in place.
    Update { transaction_id: usize, payload: TransactionUpdate },
    /// Remove the transaction with this id.
    Delete { transaction_id: usize },
    /// Create a fresh correction.
    Create { payload: TransactionCreate },
}

/// Mathematical image of a [`Mutation`].
pub ghost enum MutationModel {
    Update { transaction_id: int, payload: TransactionUpdateModel },
    Delete { transaction_id: int },
    Create { payload: TransactionCreateModel },
}

impl View for Mutation {
    type V = MutationModel;

    open spec fn view(&self) -> MutationModel {
        match self {
            Mutation::Update { transaction_id, payload } => MutationModel::Update {
                transaction_id: *transaction_id as int,
                payload: payload@,
            },
            Mutation::Delete { transaction_id } => MutationModel::Delete {
                transaction_id: *transaction_id as int,
            },
            Mutation::Create { payload } => MutationModel::Create { payload: payload@ },
        }
    }
}

/// The balance reported when a month closes (or, for the trailing month,
/// when the stream ends).
#[derive(Clone, Copy, PartialEq, Eq, Structural, Debug)]
pub struct MonthReport {
    pub year: i32,
    pub month: u32,
    pub balance: i64,
}

/// Mathematical image of a [`MonthReport`].
pub ghost struct ReportModel {
    pub year: int,
    pub month: int,
    pub balance: int,
}

impl View for MonthReport {
    type V = ReportModel;

    open spec fn view(&self) -> ReportModel {
        ReportModel {
            year: self.year as int,
            month: self.month as int,
            balance: self.balance as int,
        }
    }
}

/// Everything one replay decides: the final balance, the month-end reports
/// in order, and the remote mutations in the order they must be applied.
pub struct ReplayOutcome {
    pub final_balance: i64,
    pub reports: Vec<MonthReport>,
    pub mutations: Vec<Mutation>,
}

/// Mathematical image of a [`ReplayOutcome`].
pub ghost struct OutcomeModel {
    pub final_balance: int,
    pub reports: Seq<ReportModel>,
    pub mutations: Seq<MutationModel>,
}

impl View for ReplayOutcome {
    type V = OutcomeModel;

    open spec fn view(&self) -> OutcomeModel {
        OutcomeModel {
            final_balance: self.final_balance as int,
            reports: self.reports@.map_values(|r: MonthReport| r@),
            mutations: self.mutations@.map_values(|m: Mutation| m@),
        }
    }
}

/// The models of a transaction sequence.
pub open spec fn models(transactions: Seq<Transaction>) -> Seq<TransactionModel> {
    transactions.map_values(|t: Transaction| t@)
}

/// Every transaction of the stream is one the engine accepts.
pub open spec fn all_wf(ts: Seq<TransactionModel>) -> bool {
    forall|k: int| 0 <= k < ts.len() ==> (#[trigger] ts[k]).wf()
}

/// The stream is in non-decreasing month order.
pub open spec fn months_sorted(ts: Seq<TransactionModel>) -> bool {
    forall|a: int, b: int|
        0 <= a <= b < ts.len() ==> #[trigger] ts[a].month_le(ts[b])
}

// ------------------------------------------------------------------
// The mathematical model of one replay.
// ------------------------------------------------------------------

/// The signed effect of a transaction on the given account's balance.
/// Withdrawals and reconciliations subtract their magnitude, deposits and
/// opening balances add it; a transfer adds when the account is its
/// destination, subtracts when the account is its source, and otherwise
/// leaves the balance alone.
pub open spec fn signed_effect(account_id: int, t: TransactionModel) -> int {
    match t.transaction_type {
        TransactionType::OpeningBalance => t.amount,
        TransactionType::Deposit => t.amount,
        TransactionType::Withdrawal => -t.amount,
        TransactionType::Reconciliation => -t.amount,
        TransactionType::Transfer => if t.destination_id == Some(account_id) {
            t.amount
        } else if t.source_id == Some(account_id) {
            -t.amount
        } else {
            0
        },
    }
}

/// The transaction kind a signed correction value calls for: negative
/// values withdraw from the account, non-negative values deposit into it.
pub open spec fn implied_type(value: int) -> TransactionType {
    if value < 0 {
        TransactionType::Withdrawal
    } else {
        TransactionType::Deposit
    }
}

/// The signed value a prior correction contributes: a withdrawal's stored
/// magnitude stands for a negative effect.
pub open spec fn signed_prior_value(prior: TransactionModel) -> int {
    if prior.transaction_type == TransactionType::Withdrawal {
        -prior.amount
    } else {
        prior.amount
    }
}

/// The created correction for signed value `value` closing `(year, month)`.
pub open spec fn create_model(account_id: int, value: int, year: int, month: int) -> MutationModel {
    MutationModel::Create {
        payload: TransactionCreateModel {
            transaction_type: implied_type(value),
            description: reconciliation_description(year, month),
            date: month_end_model(year, month),
            amount: abs(value) as int,
            source_id: if value < 0 {
                Some(account_id)
            } else {
                Some(CLEARING_ACCOUNT_ID as int)
            },
            destination_id: if value < 0 {
                Some(CLEARING_ACCOUNT_ID as int)
            } else {
                Some(account_id)
            },
        },
    }
}

/// What the resolver decides when month `(year, month)` closed at
/// `running_balance` but `expected` was demanded: the adjusted balance and
/// the mutations, in order.
///
/// With no prior correction, one creation covers the difference. With a
/// prior correction whose kind matches the new target value's implied kind,
/// the correction is updated in place. When the kind would have to flip,
/// the prior correction is deleted and a fresh one is created for the whole
/// target value.
pub open spec fn resolve_model(
    account_id: int,
    prior: Option<TransactionModel>,
    expected: int,
    running_balance: int,
    year: int,
    month: int,
) -> (int, Seq<MutationModel>) {
    let diff = expected - running_balance;
    match prior {
        None => (running_balance + diff, seq![create_model(account_id, diff, year, month)]),
        Some(p) => {
            let target = signed_prior_value(p) + diff;
            if implied_type(target) == p.transaction_type {
                (
                    running_balance + diff,
                    seq![
                        MutationModel::Update {
                            transaction_id: p.id,
                            payload: TransactionUpdateModel {
                                transaction_type: p.transaction_type,
                                transaction_journal_id: p.transaction_journal_id,
                                amount: abs(target) as int,
                            },
                        },
                    ],
                )
            } else {
                (
                    running_balance + target,
                    seq![
                        MutationModel::Delete { transaction_id: p.id },
                        create_model(account_id, target, year, month),
                    ],
                )
            }
        },
    }
}

/// The replay engine's state between transactions.
pub ghost struct ReplayState {
    /// Running balance in signed minor units.
    pub balance: int,
    /// The month under accumulation.
    pub year: int,
    pub month: int,
    /// The last transaction of the current month whose description carries
    /// the reconciliation prefix, if any.
    pub reconciliation: Option<TransactionModel>,
}

/// The state the replay starts from: zero balance, the first transaction's
/// month, no known prior correction.
pub open spec fn init_state(first: TransactionModel) -> ReplayState {
    ReplayState { balance: 0, year: first.year, month: first.month, reconciliation: None }
}

/// One transaction's step: close the month if the transaction leaves it
/// (resolving any mismatch against the expected table and reporting the
/// closed month), then apply the transaction's effect and remember it as
/// the month's correction when its description carries the prefix.
pub open spec fn step_model(
    account_id: int,
    bank: Map<(int, int), int>,
    st: ReplayState,
    t: TransactionModel,
) -> (ReplayState, Seq<ReportModel>, Seq<MutationModel>) {
    let boundary = t.year != st.year || t.month != st.month;
    let closed = if boundary && bank.contains_key((st.year, st.month)) && bank[(st.year, st.month)]
        != st.balance {
        resolve_model(
            account_id,
            st.reconciliation,
            bank[(st.year, st.month)],
            st.balance,
            st.year,
            st.month,
        )
    } else {
        (st.balance, Seq::<MutationModel>::empty())
    };
    let crossed = if boundary {
        ReplayState {
            balance: closed.0,
            year: t.year,
            month: t.month,
            reconciliation: None,
        }
    } else {
        st
    };
    let reports = if boundary {
        seq![ReportModel { year: st.year, month: st.month, balance: closed.0 }]
    } else {
        Seq::<ReportModel>::empty()
    };
    let applied = ReplayState {
        balance: crossed.balance + signed_effect(account_id, t),
        reconciliation: if has_reconciliation_prefix(t.description) {
            Some(t)
        } else {
            crossed.reconciliation
        },
        ..crossed
    };
    (applied, reports, closed.1)
}

/// The replay of a whole stream from a given state: the final state, the
/// reports and the mutations, each in order.
pub open spec fn replay_seq(
    account_id: int,
    bank: Map<(int, int), int>,
    st: ReplayState,
    ts: Seq<TransactionModel>,
) -> (ReplayState, Seq<ReportModel>, Seq<MutationModel>)
    decreases ts.len(),
{
    if ts.len() == 0 {
        (st, Seq::<ReportModel>::empty(), Seq::<MutationModel>::empty())
    } else {
        let prefix = replay_seq(account_id, bank, st, ts.drop_last());
        let last = step_model(account_id, bank, prefix.0, ts.last());
        (last.0, prefix.1 + last.1, prefix.2 + last.2)
    }
}

/// What a whole replay returns for a non-empty stream: the final balance,
/// the reports with the trailing month appended (the month still in
/// progress is reported but never checked), and the mutations.
pub open spec fn replay_model(
    account_id: int,
    bank: Map<(int, int), int>,
    ts: Seq<TransactionModel>,
) -> OutcomeModel
    recommends
        ts.len() > 0,
{
    let full = replay_seq(account_id, bank, init_state(ts[0]), ts);
    OutcomeModel {
        final_balance: full.0.balance,
        reports: full.1.push(
            ReportModel { year: full.0.year, month: full.0.month, balance: full.0.balance },
        ),
        mutations: full.2,
    }
}

// ------------------------------------------------------------------
// Executable engine.
// ------------------------------------------------------------------

/// The magnitude of a signed minor-unit value.
fn abs_i64(value: i64) -> (magnitude: i64)
    requires
        value != i64::MIN,
    ensures
        magnitude == abs(value as int),
{
    if value < 0 {
        -value
    } else {
        value
    }
}

/// The kind, source and destination for a correction of the given signed
/// value: negative values withdraw from the account into the clearing
/// account, non-negative values deposit from the clearing account into it.
pub fn determine_transaction_props(account_id: usize, value: i64) -> (props: (
    TransactionType,
    Option<usize>,
    Option<usize>,
))
    ensures
        props.0 == implied_type(value as int),
        props.1 == (if value < 0 { Some(account_id) } else { Some(CLEARING_ACCOUNT_ID) }),
        props.2 == (if value < 0 { Some(CLEARING_ACCOUNT_ID) } else { Some(account_id) }),
{
    if value < 0 {
        (TransactionType::Withdrawal, Some(account_id), Some(CLEARING_ACCOUNT_ID))
    } else {
        (TransactionType::Deposit, Some(CLEARING_ACCOUNT_ID), Some(account_id))
    }
}

/// The signed effect of one transaction on the account's running balance.
pub fn transaction_effect(account_id: usize, transaction: &Transaction) -> (effect: i64)
    requires
        transaction@.wf(),
    ensures
        effect as int == signed_effect(account_id as int, transaction@),
        -MAX_AMOUNT_MINOR <= effect <= MAX_AMOUNT_MINOR,
{
    let amount = transaction.amount;
    match transaction.transaction_type {
        TransactionType::OpeningBalance => amount,
        TransactionType::Deposit => amount,
        TransactionType::Withdrawal => -amount,
        TransactionType::Reconciliation => -amount,
        TransactionType::Transfer => {
            let to_account = match transaction.destination_id {
                Some(d) => d == account_id,
                None => false,
            };
            let from_account = match transaction.source_id {
                Some(s) => s == account_id,
                None => false,
            };
            if to_account {
                amount
            } else if from_account {
                -amount
            } else {
                0
            }
        },
    }
}

/// Accepts exactly the statuses the remote service counts as success; any
/// other status becomes the mutation error, with the response body kept.
pub fn check_response(status: u16, body: String) -> (result: Result<(), ReplayError>)
    ensures
        match result {
            Ok(()) => 200 <= status <= 299,
            Err(e) => !(200 <= status <= 299) && match e {
                ReplayError::RemoteMutation { status: s, body: b } => s == status && b@ == body@,
                _ => false,
            },
        },
{
    if 200 <= status && status <= 299 {
        Ok(())
    } else {
        Err(ReplayError::RemoteMutation { status, body })
    }
}

/// Decides the correcting mutations for a month that closed at `*money`
/// when `expected` was demanded, and adjusts `*money` the way the remote
/// ledger will move once the mutations are applied.
///
/// Mirrors [`resolve_model`]: an in-place update when a prior correction's
/// kind survives, delete-and-recreate when the kind must flip (the remote
/// schema forbids changing a transaction's kind in place), plain creation
/// when no prior correction exists.
pub fn create_or_update_reconciliation(
    account_id: usize,
    reconciliation: Option<&Transaction>,
    expected: i64,
    money: &mut i64,
    year: i32,
    month: u32,
) -> (mutations: Vec<Mutation>)
    requires
        expected != *old(money),
        -MAX_AMOUNT_MINOR <= expected <= MAX_AMOUNT_MINOR,
        -BALANCE_LIMIT <= *old(money) <= BALANCE_LIMIT,
        1 <= month <= 12,
        1 <= year <= 9999,
        match reconciliation {
            Some(t) => t@.wf(),
            None => true,
        },
    ensures
        ({
            let prior = match reconciliation {
                Some(t) => Some(t@),
                None => None::<TransactionModel>,
            };
            let resolved = resolve_model(
                account_id as int,
                prior,
                expected as int,
                *old(money) as int,
                year as int,
                month as int,
            );
            &&& *final(money) == resolved.0
            &&& mutations@.map_values(|m: Mutation| m@) == resolved.1
        }),
{
    let mut mutations: Vec<Mutation> = Vec::new();
    let mut diff: i64 = expected - *money;

    if let Some(prior) = reconciliation {
        // Fold the prior correction's signed value into the target the
        // correction should now hold for the month to balance.
        let target_value: i64 = if prior.transaction_type == TransactionType::Withdrawal {
            -prior.amount + diff
        } else {
            prior.amount + diff
        };

        let props = determine_transaction_props(account_id, target_value);

        if props.0 == prior.transaction_type {
            // Same kind: rewrite the amount in place.
            let payload = TransactionUpdate {
                transaction_type: props.0,
                transaction_journal_id: prior.transaction_journal_id,
                amount: abs_i64(target_value),
            };
            mutations.push(Mutation::Update { transaction_id: prior.id, payload });
            *money = *money + diff;
            proof {
                assert(mutations@.map_values(|m: Mutation| m@) =~= resolve_model(
                    account_id as int,
                    Some(prior@),
                    expected as int,
                    *old(money) as int,
                    year as int,
                    month as int,
                ).1);
            }
            return mutations;
        }

        // The kind flips: the old correction must go, and the whole target
        // value becomes the new correction.
        mutations.push(Mutation::Delete { transaction_id: prior.id });
        diff = target_value;
    }

    let description = format_reconciliation_description(year, month);
    let props = determine_transaction_props(account_id, diff);
    let date = month_end_stamp(year, month);
    let payload = TransactionCreate {
        transaction_type: props.0,
        description,
        date,
        amount: abs_i64(diff),
        source_id: props.1,
        destination_id: props.2,
    };
    mutations.push(Mutation::Create { payload });
    *money = *money + diff;
    proof {
        let prior = match reconciliation {
            Some(t) => Some(t@),
            None => None::<TransactionModel>,
        };
        assert(mutations@.map_values(|m: Mutation| m@) =~= resolve_model(
            account_id as int,
            prior,
            expected as int,
            *old(money) as int,
            year as int,
            month as int,
        ).1);
    }
    mutations
}

/// Replays one account's transactions against the expected-balance table.
///
/// The stream must arrive in non-decreasing month order (the store adapter
/// sorts; the engine never does). Returns the final running balance, one
/// report per month that saw a transaction (the trailing month included),
/// and the correcting mutations in the order they must reach the remote
/// service. An empty stream is rejected: nothing anchors the month tracker.
pub fn history_replay(
    account_id: usize,
    transactions: &Vec<Transaction>,
    bank_data: &BankData,
) -> (result: Result<ReplayOutcome, ReplayError>)
    requires
        all_wf(models(transactions@)),
        months_sorted(models(transactions@)),
        transactions@.len() <= MAX_TRANSACTIONS,
        bank_data.wf(),
    ensures
        match result {
            Ok(outcome) => transactions@.len() > 0 && outcome@ == replay_model(
                account_id as int,
                bank_data@,
                models(transactions@),
            ),
            Err(e) => transactions@.len() == 0 && e is EmptyInput,
        },
{
    if transactions.len() == 0 {
        return Err(ReplayError::EmptyInput);
    }

    let ghost ts = models(transactions@);
    let ghost bank = bank_data@;
    let ghost st0 = init_state(ts[0]);

    let mut year: i32 = transactions[0].year;
    let mut month: u32 = transactions[0].month;
    let mut money: i64 = 0;
    let mut reconciliation_idx: Option<usize> = None;
    let mut reports: Vec<MonthReport> = Vec::new();
    let mut mutations: Vec<Mutation> = Vec::new();

    let n = transactions.len();
    let mut i: usize = 0;
    while i < n
        invariant
            ts == models(transactions@),
            bank == bank_data@,
            st0 == init_state(ts[0]),
            bank_data.wf(),
            all_wf(ts),
            n == transactions@.len(),
            0 < n <= MAX_TRANSACTIONS,
            i <= n,
            1 <= month <= 12,
            1 <= year <= 9999,
            match reconciliation_idx {
                Some(k) => k < i,
                None => true,
            },
            ({
                let walked = replay_seq(account_id as int, bank, st0, ts.take(i as int));
                &&& walked.0.balance == money as int
                &&& walked.0.year == year as int
                &&& walked.0.month == month as int
                &&& walked.0.reconciliation == match reconciliation_idx {
                    Some(k) => Some(ts[k as int]),
                    None => None::<TransactionModel>,
                }
                &&& walked.1 == reports@.map_values(|r: MonthReport| r@)
                &&& walked.2 == mutations@.map_values(|m: Mutation| m@)
            }),
            abs(money as int) <= 2 * MAX_AMOUNT_MINOR + (i as int) * MAX_AMOUNT_MINOR,
        decreases n - i,
    {
        let ghost walked_before = replay_seq(account_id as int, bank, st0, ts.take(i as int));
        let transaction = &transactions[i];
        proof {
            assert(ts[i as int] == transaction@);
            assert(ts[i as int].wf());
        }

        if year != transaction.year || month != transaction.month {
            // Month boundary: check the closed month against the table.
            if let Some(expected) = bank_data.lookup(year, month) {
                if expected != money {
                    let prior: Option<&Transaction> = match reconciliation_idx {
                        Some(k) => Some(&transactions[k]),
                        None => None,
                    };
                    proof {
                        assert((i as int) * MAX_AMOUNT_MINOR <= (MAX_TRANSACTIONS as int)
                            * MAX_AMOUNT_MINOR);
                    }
                    let mut resolved = create_or_update_reconciliation(
                        account_id,
                        prior,
                        expected,
                        &mut money,
                        year,
                        month,
                    );
                    mutations.append(&mut resolved);
                }
            }
            reports.push(MonthReport { year, month, balance: money });
            year = transaction.year;
            month = transaction.month;
            reconciliation_idx = None;
        }

        let effect = transaction_effect(account_id, transaction);
        money = money + effect;

        if is_reconciliation_description(transaction.description.as_str()) {
            reconciliation_idx = Some(i);
        }

        i = i + 1;
        proof {
            assert(ts.take(i as int).drop_last() =~= ts.take(i as int - 1));
            assert(ts.take(i as int).last() == ts[i as int - 1]);
            let walked = replay_seq(account_id as int, bank, st0, ts.take(i as int));
            let stepped = step_model(account_id as int, bank, walked_before.0, ts[i as int - 1]);
            assert(walked.0 == stepped.0);
            assert(walked.1 =~= reports@.map_values(|r: MonthReport| r@));
            assert(walked.2 =~= mutations@.map_values(|m: Mutation| m@));
        }
    }

    proof {
        assert(ts.take(i as int) =~= ts);
    }
    reports.push(MonthReport { year, month, balance: money });
    let outcome = ReplayOutcome { final_balance: money, reports, mutations };
    proof {
        assert(outcome@.reports =~= replay_model(account_id as int, bank, ts).reports);
    }
    Ok(outcome)
}

} // verus!
