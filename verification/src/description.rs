//! The description-prefix heuristic.
//!
//! A correcting transaction is recognised on a later replay by its
//! description alone: any description beginning with the literal
//! `"Reconciliation"` marks a previously created correction for the month
//! under accumulation. Corrections created here are tagged with that prefix
//! and the `(year, month)` being closed.

use vstd::prelude::*;
use vstd::string::StrSliceExecFns;

verus! {

/// The literal prefix that marks a transaction as a correction.
pub open spec fn reconciliation_prefix() -> Seq<char> {
    "Reconciliation"@
}

/// Whether a description begins with the reconciliation prefix.
pub open spec fn has_reconciliation_prefix(description: Seq<char>) -> bool {
    &&& description.len() >= reconciliation_prefix().len()
    &&& description.subrange(0, reconciliation_prefix().len() as int)
        == reconciliation_prefix()
}

/// The text a created correction carries for a given closed month; fixed by
/// the year and month alone.
pub uninterp spec fn reconciliation_description(year: int, month: int) -> Seq<char>;

/// Relies on std's `format!` (via the `Display` impls of `i32` and `u32`):
/// the text is the literal prefix `"Reconciliation"` followed by the year
/// and month, and depends on those two values alone.
#[verifier::external_body]
pub(crate) fn format_reconciliation_description(year: i32, month: u32) -> (description: String)
    ensures
        description@ == reconciliation_description(year as int, month as int),
        has_reconciliation_prefix(description@),
{
    format!("Reconciliation {year} - {month}")
}

/// Checks the heuristic: does the description start with the literal
/// `"Reconciliation"`?
pub fn is_reconciliation_description(description: &str) -> (tagged: bool)
    ensures
        tagged == has_reconciliation_prefix(description@),
{
    let prefix = "Reconciliation";
    proof {
        reveal_strlit("Reconciliation");
    }
    let prefix_len = prefix.unicode_len();
    if description.unicode_len() < prefix_len {
        assert(!has_reconciliation_prefix(description@));
        return false;
    }
    let mut i: usize = 0;
    while i < prefix_len
        invariant
            prefix@ == reconciliation_prefix(),
            prefix_len == prefix@.len(),
            i <= prefix_len,
            description@.len() >= prefix_len,
            forall|j: int| 0 <= j < i ==> description@[j] == prefix@[j],
        decreases prefix_len - i,
    {
        if description.get_char(i) != prefix.get_char(i) {
            assert(!has_reconciliation_prefix(description@)) by {
                if has_reconciliation_prefix(description@) {
                    assert(description@.subrange(0, prefix@.len() as int)[i as int]
                        == prefix@[i as int]);
                }
            }
            return false;
        }
        i += 1;
    }
    assert(description@.subrange(0, prefix@.len() as int) =~= prefix@);
    true
}

} // verus!
