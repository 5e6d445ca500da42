//! The laws the replay engine obeys, each proved against the spec model in
//! [`crate::replay`].

use vstd::prelude::*;
use crate::replay::{
    create_model, init_state, months_sorted, replay_model, replay_seq, resolve_model,
    signed_effect, signed_prior_value, implied_type, step_model, MutationModel, ReplayState,
};
use crate::schema::{TransactionModel, TransactionType};

verus! {

/// Sign correctness: a transfer into the account adds its magnitude, one
/// out of the account subtracts it, and one touching neither side leaves
/// the balance unchanged. The destination is consulted first, so a
/// transfer from the account to itself adds.
pub proof fn lemma_transfer_sign_correctness(account_id: int, t: TransactionModel)
    requires
        t.transaction_type == TransactionType::Transfer,
    ensures
        t.destination_id == Some(account_id) ==> signed_effect(account_id, t) == t.amount,
        t.destination_id != Some(account_id) && t.source_id == Some(account_id)
            ==> signed_effect(account_id, t) == -t.amount,
        t.destination_id != Some(account_id) && t.source_id != Some(account_id)
            ==> signed_effect(account_id, t) == 0,
{
}

/// Kind-flip replace law: when the prior correction's kind differs from the
/// kind the new target value implies, the resolver deletes the prior
/// correction and creates a fresh one for the whole target value — it never
/// updates in place.
pub proof fn lemma_kind_flip_never_updates_in_place(
    account_id: int,
    prior: TransactionModel,
    expected: int,
    running_balance: int,
    year: int,
    month: int,
)
    requires
        implied_type(signed_prior_value(prior) + (expected - running_balance))
            != prior.transaction_type,
    ensures
        ({
            let target = signed_prior_value(prior) + (expected - running_balance);
            let resolved = resolve_model(
                account_id,
                Some(prior),
                expected,
                running_balance,
                year,
                month,
            );
            &&& resolved.1.len() == 2
            &&& resolved.1[0] == (MutationModel::Delete { transaction_id: prior.id })
            &&& resolved.1[1] == create_model(account_id, target, year, month)
            &&& forall|k: int| 0 <= k < resolved.1.len() ==> !((#[trigger] resolved.1[k]) is Update)
            &&& resolved.0 == running_balance + target
        }),
{
}

/// What balance the resolver leaves behind: plain creation and in-place
/// update adjust the running balance exactly to the expected value. The
/// delete-and-recreate path lands on the expected value plus the prior
/// correction's signed value instead, because the deleted correction's
/// effect is still counted in the running balance being adjusted; the
/// remote ledger itself ends up at the expected value.
pub proof fn lemma_resolver_adjusted_balance(
    account_id: int,
    prior: Option<TransactionModel>,
    expected: int,
    running_balance: int,
    year: int,
    month: int,
)
    ensures
        ({
            let resolved = resolve_model(
                account_id,
                prior,
                expected,
                running_balance,
                year,
                month,
            );
            match prior {
                None => resolved.0 == expected,
                Some(p) => {
                    if implied_type(signed_prior_value(p) + (expected - running_balance))
                        == p.transaction_type {
                        resolved.0 == expected
                    } else {
                        resolved.0 == expected + signed_prior_value(p)
                    }
                },
            }
        }),
{
}

/// A created correction, once persisted into the stream as an ordinary
/// transaction, moves the account's balance by exactly the signed value it
/// was created for: a later replay over the persisted stream accumulates
/// the correction like any other entry and finds the month rebalanced.
pub proof fn lemma_persisted_correction_effect(
    account_id: int,
    value: int,
    year: int,
    month: int,
    t: TransactionModel,
)
    requires
        ({
            match create_model(account_id, value, year, month) {
                MutationModel::Create { payload } => {
                    &&& t.transaction_type == payload.transaction_type
                    &&& t.amount == payload.amount
                },
                _ => false,
            }
        }),
    ensures
        signed_effect(account_id, t) == value,
{
}

/// The literal sum of signed effects over a stream.
pub open spec fn sum_effects(account_id: int, ts: Seq<TransactionModel>) -> int
    decreases ts.len(),
{
    if ts.len() == 0 {
        0
    } else {
        sum_effects(account_id, ts.drop_last()) + signed_effect(account_id, ts.last())
    }
}

/// Every month boundary the replay crosses finds the running balance
/// already equal to the expected value, wherever the table names the
/// closed month.
pub open spec fn boundaries_balanced(
    account_id: int,
    bank: Map<(int, int), int>,
    st: ReplayState,
    ts: Seq<TransactionModel>,
) -> bool
    decreases ts.len(),
{
    if ts.len() == 0 {
        true
    } else {
        let pre = replay_seq(account_id, bank, st, ts.drop_last()).0;
        let t = ts.last();
        &&& boundaries_balanced(account_id, bank, st, ts.drop_last())
        &&& ((t.year != pre.year || t.month != pre.month) && bank.contains_key(
            (pre.year, pre.month),
        ) ==> bank[(pre.year, pre.month)] == pre.balance)
    }
}

/// Idempotence of balancing: a replay whose boundaries are all already
/// balanced issues no mutation at all, and its running balance is the
/// literal sum of signed effects over the stream.
pub proof fn lemma_balanced_replay_creates_nothing(
    account_id: int,
    bank: Map<(int, int), int>,
    st: ReplayState,
    ts: Seq<TransactionModel>,
)
    requires
        boundaries_balanced(account_id, bank, st, ts),
    ensures
        replay_seq(account_id, bank, st, ts).2 == Seq::<MutationModel>::empty(),
        replay_seq(account_id, bank, st, ts).0.balance == st.balance + sum_effects(
            account_id,
            ts,
        ),
    decreases ts.len(),
{
    if ts.len() > 0 {
        lemma_balanced_replay_creates_nothing(account_id, bank, st, ts.drop_last());
        assert(replay_seq(account_id, bank, st, ts).2 =~= Seq::<MutationModel>::empty());
    }
}

/// Idempotence of balancing, for a whole replay: when the first run's
/// corrections are already in the stream — so every checked boundary
/// matches its expected value — the second replay creates, updates and
/// deletes nothing, and reports the plain accumulated balance.
pub proof fn lemma_balanced_full_replay(
    account_id: int,
    bank: Map<(int, int), int>,
    ts: Seq<TransactionModel>,
)
    requires
        ts.len() > 0,
        boundaries_balanced(account_id, bank, init_state(ts[0]), ts),
    ensures
        replay_model(account_id, bank, ts).mutations == Seq::<MutationModel>::empty(),
        replay_model(account_id, bank, ts).final_balance == sum_effects(account_id, ts),
{
    lemma_balanced_replay_creates_nothing(account_id, bank, init_state(ts[0]), ts);
}

/// Some transaction of the stream falls in the given month.
pub open spec fn stream_has_month(ts: Seq<TransactionModel>, year: int, month: int) -> bool {
    exists|j: int|
        0 <= j < ts.len() && ((#[trigger] ts[j]).year == year && ts[j].month == month)
}

/// A month found in a stream's prefix is found in the stream.
proof fn lemma_month_in_extension(ts: Seq<TransactionModel>, year: int, month: int)
    requires
        ts.len() > 0,
        stream_has_month(ts.drop_last(), year, month),
    ensures
        stream_has_month(ts, year, month),
{
    let j = choose|j: int|
        0 <= j < ts.drop_last().len() && ((#[trigger] ts.drop_last()[j]).year == year
            && ts.drop_last()[j].month == month);
    assert(0 <= j < ts.len() && ts[j].year == year && ts[j].month == month);
}

/// Replay touches only months with activity: the tracked month, every
/// reported month, and the month named by every created correction are the
/// starting month or the month of some transaction of the stream.
proof fn lemma_replay_touches_active_months(
    account_id: int,
    bank: Map<(int, int), int>,
    st: ReplayState,
    ts: Seq<TransactionModel>,
)
    ensures
        ({
            let walked = replay_seq(account_id, bank, st, ts);
            &&& (walked.0.year == st.year && walked.0.month == st.month) || stream_has_month(
                ts,
                walked.0.year,
                walked.0.month,
            )
            &&& forall|k: int|
                0 <= k < walked.1.len() ==> ((#[trigger] walked.1[k]).year == st.year
                    && walked.1[k].month == st.month) || stream_has_month(
                    ts,
                    walked.1[k].year,
                    walked.1[k].month,
                )
            &&& forall|k: int|
                0 <= k < walked.2.len() ==> match #[trigger] walked.2[k] {
                    MutationModel::Create { payload } => (payload.date.year == st.year
                        && payload.date.month == st.month) || stream_has_month(
                        ts,
                        payload.date.year,
                        payload.date.month,
                    ),
                    _ => true,
                }
        }),
    decreases ts.len(),
{
    if ts.len() > 0 {
        let prefix = ts.drop_last();
        let t = ts.last();
        lemma_replay_touches_active_months(account_id, bank, st, prefix);
        let pre = replay_seq(account_id, bank, st, prefix);
        let walked = replay_seq(account_id, bank, st, ts);
        let stepped = step_model(account_id, bank, pre.0, t);

        // The pre-state's month is available in the full stream as well.
        if !(pre.0.year == st.year && pre.0.month == st.month) {
            lemma_month_in_extension(ts, pre.0.year, pre.0.month);
        }
        // The last transaction's own month is in the stream.
        assert(ts[ts.len() - 1].year == t.year && ts[ts.len() - 1].month == t.month);

        assert forall|k: int| 0 <= k < walked.1.len() implies ((#[trigger] walked.1[k]).year
            == st.year && walked.1[k].month == st.month) || stream_has_month(
            ts,
            walked.1[k].year,
            walked.1[k].month,
        ) by {
            if k < pre.1.len() {
                assert(walked.1[k] == pre.1[k]);
                if !(pre.1[k].year == st.year && pre.1[k].month == st.month) {
                    lemma_month_in_extension(ts, pre.1[k].year, pre.1[k].month);
                }
            } else {
                assert(walked.1[k] == stepped.1[k - pre.1.len()]);
            }
        }

        assert forall|k: int| 0 <= k < walked.2.len() implies match #[trigger] walked.2[k] {
            MutationModel::Create { payload } => (payload.date.year == st.year
                && payload.date.month == st.month) || stream_has_month(
                ts,
                payload.date.year,
                payload.date.month,
            ),
            _ => true,
        } by {
            if k < pre.2.len() {
                assert(walked.2[k] == pre.2[k]);
                match pre.2[k] {
                    MutationModel::Create { payload } => {
                        if !(payload.date.year == st.year && payload.date.month == st.month) {
                            lemma_month_in_extension(ts, payload.date.year, payload.date.month);
                        }
                    },
                    _ => {},
                }
            } else {
                assert(walked.2[k] == stepped.2[k - pre.2.len()]);
            }
        }
    }
}

/// Strict order on calendar months.
pub open spec fn month_pair_lt(y1: int, m1: int, y2: int, m2: int) -> bool {
    y1 < y2 || (y1 == y2 && m1 < m2)
}

/// Non-strict order on calendar months.
pub open spec fn month_pair_le(y1: int, m1: int, y2: int, m2: int) -> bool {
    y1 < y2 || (y1 == y2 && m1 <= m2)
}

/// On a month-sorted stream whose transactions all fall at or after the
/// tracked month, the replay's tracked month ends at the last transaction's
/// month, and the reported months climb strictly: every report lies before
/// the final tracked month, and no two reports share a month.
proof fn lemma_replay_months_advance(
    account_id: int,
    bank: Map<(int, int), int>,
    st: ReplayState,
    ts: Seq<TransactionModel>,
)
    requires
        months_sorted(ts),
        forall|j: int|
            0 <= j < ts.len() ==> month_pair_le(
                st.year,
                st.month,
                (#[trigger] ts[j]).year,
                ts[j].month,
            ),
    ensures
        ({
            let walked = replay_seq(account_id, bank, st, ts);
            &&& (if ts.len() > 0 {
                walked.0.year == ts.last().year && walked.0.month == ts.last().month
            } else {
                walked.0.year == st.year && walked.0.month == st.month
            })
            &&& forall|k: int|
                0 <= k < walked.1.len() ==> month_pair_lt(
                    (#[trigger] walked.1[k]).year,
                    walked.1[k].month,
                    walked.0.year,
                    walked.0.month,
                )
            &&& forall|k1: int, k2: int|
                0 <= k1 < k2 < walked.1.len() ==> month_pair_lt(
                    (#[trigger] walked.1[k1]).year,
                    walked.1[k1].month,
                    (#[trigger] walked.1[k2]).year,
                    walked.1[k2].month,
                )
        }),
    decreases ts.len(),
{
    if ts.len() > 0 {
        let prefix = ts.drop_last();
        let t = ts.last();
        assert(months_sorted(prefix)) by {
            assert forall|a: int, b: int| 0 <= a <= b < prefix.len() implies #[trigger] prefix[
                a
            ].month_le(prefix[b]) by {
                assert(ts[a].month_le(ts[b]));
            }
        }
        assert forall|j: int| 0 <= j < prefix.len() implies month_pair_le(
            st.year,
            st.month,
            (#[trigger] prefix[j]).year,
            prefix[j].month,
        ) by {
            assert(month_pair_le(st.year, st.month, ts[j].year, ts[j].month));
        }
        lemma_replay_months_advance(account_id, bank, st, prefix);

        let pre = replay_seq(account_id, bank, st, prefix);
        let walked = replay_seq(account_id, bank, st, ts);

        // The pre-state's tracked month does not lie after the last
        // transaction's month.
        if prefix.len() > 0 {
            assert(prefix.last() == ts[ts.len() - 2]);
            assert(ts[ts.len() - 2].month_le(ts[ts.len() - 1]));
        } else {
            assert(month_pair_le(st.year, st.month, ts[ts.len() - 1].year, ts[
                ts.len() - 1
            ].month));
        }
        assert(month_pair_le(pre.0.year, pre.0.month, t.year, t.month));

        let boundary = t.year != pre.0.year || t.month != pre.0.month;
        assert forall|k: int| 0 <= k < walked.1.len() implies month_pair_lt(
            (#[trigger] walked.1[k]).year,
            walked.1[k].month,
            walked.0.year,
            walked.0.month,
        ) by {
            if k < pre.1.len() {
                assert(walked.1[k] == pre.1[k]);
            } else {
                assert(walked.1[k].year == pre.0.year && walked.1[k].month == pre.0.month);
            }
        }
        assert forall|k1: int, k2: int| 0 <= k1 < k2 < walked.1.len() implies month_pair_lt(
            (#[trigger] walked.1[k1]).year,
            walked.1[k1].month,
            (#[trigger] walked.1[k2]).year,
            walked.1[k2].month,
        ) by {
            if k2 < pre.1.len() {
                assert(walked.1[k1] == pre.1[k1]);
                assert(walked.1[k2] == pre.1[k2]);
            } else {
                assert(walked.1[k1] == pre.1[k1]);
                assert(walked.1[k2].year == pre.0.year && walked.1[k2].month == pre.0.month);
                assert(month_pair_lt(pre.1[k1].year, pre.1[k1].month, pre.0.year, pre.0.month));
            }
        }
    }
}

/// Each month is closed at most once per replay: on a month-sorted stream
/// the reported months climb strictly, so no month is reported — and no
/// month has a correction decided — twice in one run.
pub proof fn lemma_each_month_closed_once(
    account_id: int,
    bank: Map<(int, int), int>,
    ts: Seq<TransactionModel>,
)
    requires
        ts.len() > 0,
        months_sorted(ts),
    ensures
        ({
            let outcome = replay_model(account_id, bank, ts);
            forall|k1: int, k2: int|
                0 <= k1 < k2 < outcome.reports.len() ==> month_pair_lt(
                    (#[trigger] outcome.reports[k1]).year,
                    outcome.reports[k1].month,
                    (#[trigger] outcome.reports[k2]).year,
                    outcome.reports[k2].month,
                )
        }),
{
    let st = init_state(ts[0]);
    assert forall|j: int| 0 <= j < ts.len() implies month_pair_le(
        st.year,
        st.month,
        (#[trigger] ts[j]).year,
        ts[j].month,
    ) by {
        assert(ts[0].month_le(ts[j]));
    }
    lemma_replay_months_advance(account_id, bank, st, ts);
    let walked = replay_seq(account_id, bank, st, ts);
    let outcome = replay_model(account_id, bank, ts);
    assert forall|k1: int, k2: int| 0 <= k1 < k2 < outcome.reports.len() implies month_pair_lt(
        (#[trigger] outcome.reports[k1]).year,
        outcome.reports[k1].month,
        (#[trigger] outcome.reports[k2]).year,
        outcome.reports[k2].month,
    ) by {
        assert(outcome.reports[k1] == walked.1[k1]);
        if k2 < walked.1.len() {
            assert(outcome.reports[k2] == walked.1[k2]);
        } else {
            assert(outcome.reports[k2].year == walked.0.year && outcome.reports[k2].month
                == walked.0.month);
        }
    }
}

/// Month-skip correctness: a whole replay reports months, and dates created
/// corrections into months, that saw at least one transaction. A month
/// without activity — even one the expected table names — is passed over in
/// silence.
pub proof fn lemma_untouched_months_stay_silent(
    account_id: int,
    bank: Map<(int, int), int>,
    ts: Seq<TransactionModel>,
)
    requires
        ts.len() > 0,
    ensures
        ({
            let outcome = replay_model(account_id, bank, ts);
            &&& forall|k: int|
                0 <= k < outcome.reports.len() ==> stream_has_month(
                    ts,
                    (#[trigger] outcome.reports[k]).year,
                    outcome.reports[k].month,
                )
            &&& forall|k: int|
                0 <= k < outcome.mutations.len() ==> match #[trigger] outcome.mutations[k] {
                    MutationModel::Create { payload } => stream_has_month(
                        ts,
                        payload.date.year,
                        payload.date.month,
                    ),
                    _ => true,
                }
        }),
{
    let st = init_state(ts[0]);
    lemma_replay_touches_active_months(account_id, bank, st, ts);
    assert(ts[0].year == st.year && ts[0].month == st.month);
    assert(stream_has_month(ts, st.year, st.month));
}

} // verus!
