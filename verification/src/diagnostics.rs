//! Per-column conversion records, and the strict-mode decision made from them.
//!
//! `from_pandas` records, for every column, the plan `plan_column` chose (corrected when a
//! column turns out to arrive in several Arrow chunks). Strict mode and `copy_report()` both
//! read these same records, so they can never disagree.

use vstd::prelude::*;
use crate::pandas_plan::{ColumnPlan, spec_plan};
use crate::dtype::opt_view;
use crate::format::{debug_quote, debug_quoted, decimal, push_decimal};

verus! {

/// A single column's conversion outcome.
#[derive(Debug, Clone)]
pub struct ColumnConversionRecord {
    pub column: String,
    pub dtype: String,
    pub zero_copy: bool,
    pub reason: Option<String>,
}

/// The reason recorded for a column that arrived as `chunks` Arrow chunks.
pub open spec fn chunked_reason(chunks: nat) -> Seq<char> {
    "column arrived as "@ + decimal(chunks)
        + " Arrow chunks (e.g. from a pd.concat of Arrow-backed frames) and was concatenated into one contiguous buffer via arrow::compute::concat, which is a copy, not a zero-copy borrow"@
}

impl ColumnConversionRecord {
    /// The record of a column converted as `plan` says.
    pub fn from_plan(column: String, dtype: String, plan: &ColumnPlan) -> (r: Self)
        ensures
            r.column == column,
            r.dtype == dtype,
            r.zero_copy == (plan is ZeroCopyBorrow),
            opt_view(r.reason) == plan.spec_reason(),
    {
        match plan {
            ColumnPlan::ZeroCopyBorrow => ColumnConversionRecord { column, dtype, zero_copy: true, reason: None },
            ColumnPlan::RequiresCopy { reason } => ColumnConversionRecord {
                column,
                dtype,
                zero_copy: false,
                reason: Some(reason.clone()),
            },
        }
    }

    /// Correct the record after the column's data arrived as `observed_batch_count` Arrow
    /// chunks: more than one chunk was concatenated into one buffer, which is a copy.
    pub fn note_chunked_import(&mut self, observed_batch_count: usize)
        ensures
            final(self).column == old(self).column,
            final(self).dtype == old(self).dtype,
            observed_batch_count > 1 ==> !final(self).zero_copy
                && opt_view(final(self).reason) == Some(chunked_reason(observed_batch_count as nat)),
            observed_batch_count <= 1 ==> *final(self) == *old(self),
    {
        if observed_batch_count > 1 {
            let mut reason = String::from_str("column arrived as ");
            push_decimal(&mut reason, observed_batch_count);
            reason.append(" Arrow chunks (e.g. from a pd.concat of Arrow-backed frames) and was concatenated into one contiguous buffer via arrow::compute::concat, which is a copy, not a zero-copy borrow");
            self.zero_copy = false;
            self.reason = Some(reason);
        }
    }
}

/// What strict mode reports about the first column that needed a copy.
#[derive(Debug, Clone)]
pub struct StrictModeViolation {
    pub column: String,
    pub dtype: String,
    pub reason: String,
}

pub const REASON_UNAVAILABLE: &'static str = "reason unavailable";

/// The message strict mode raises for a violation.
pub open spec fn strict_mode_message(column: Seq<char>, dtype: Seq<char>, reason: Seq<char>) -> Seq<char> {
    "column "@ + debug_quoted(column) + " (dtype="@ + dtype + ") requires a copy: "@ + reason
}

impl StrictModeViolation {
    /// The message `pydart.ZeroCopyRequiredError` carries: the column (quoted), its dtype, and
    /// the reason a copy was required.
    pub fn message(&self) -> (m: String)
        ensures
            m@ == strict_mode_message(self.column@, self.dtype@, self.reason@),
    {
        let mut m = String::from_str("column ");
        let quoted = debug_quote(self.column.as_str());
        m.append(quoted.as_str());
        m.append(" (dtype=");
        m.append(self.dtype.as_str());
        m.append(") requires a copy: ");
        m.append(self.reason.as_str());
        m
    }
}

/// The index of the first record that is not zero-copy, if any.
pub open spec fn first_copied(records: Seq<ColumnConversionRecord>) -> Option<int>
    decreases records.len(),
{
    if records.len() == 0 {
        None
    } else if !records[0].zero_copy {
        Some(0)
    } else {
        match first_copied(records.drop_first()) {
            Some(i) => Some(i + 1),
            None => None,
        }
    }
}

proof fn lemma_first_copied(records: Seq<ColumnConversionRecord>)
    ensures
        match first_copied(records) {
            Some(i) => 0 <= i < records.len() && !records[i].zero_copy
                && forall|j: int| 0 <= j < i ==> records[j].zero_copy,
            None => forall|j: int| 0 <= j < records.len() ==> records[j].zero_copy,
        },
    decreases records.len(),
{
    if records.len() > 0 {
        lemma_first_copied(records.drop_first());
        if records[0].zero_copy {
            assert forall|j: int| 1 <= j < records.len() implies records[j] == records.drop_first()[j - 1] by {}
        }
    }
}

/// Strict-mode check: if any column's conversion needed a copy, report the first such column
/// (its name, dtype, and recorded reason, or "reason unavailable").
///
/// Strict mode agrees with the copy report built from the same records: it passes exactly
/// when every record is zero-copy.
pub fn check_strict(records: &[ColumnConversionRecord]) -> (r: Result<(), StrictModeViolation>)
    ensures
        r is Ok <==> forall|j: int| 0 <= j < records@.len() ==> records@[j].zero_copy,
        match (r, first_copied(records@)) {
            (Ok(()), None) => true,
            (Err(v), Some(i)) => v.column@ == records@[i].column@ && v.dtype@ == records@[i].dtype@
                && v.reason@ == match records@[i].reason {
                    Some(reason) => reason@,
                    None => REASON_UNAVAILABLE@,
                },
            _ => false,
        },
{
    proof {
        lemma_first_copied(records@);
    }
    let mut i: usize = 0;
    while i < records.len()
        invariant
            i <= records@.len(),
            forall|j: int| 0 <= j < i ==> records@[j].zero_copy,
            match first_copied(records@) {
                Some(k) => 0 <= k < records@.len() && !records@[k].zero_copy
                    && forall|j: int| 0 <= j < k ==> records@[j].zero_copy,
                None => forall|j: int| 0 <= j < records@.len() ==> records@[j].zero_copy,
            },
        decreases records.len() - i,
    {
        if !records[i].zero_copy {
            let record = &records[i];
            let reason = match &record.reason {
                Some(reason) => reason.clone(),
                None => REASON_UNAVAILABLE.to_owned(),
            };
            return Err(StrictModeViolation { column: record.column.clone(), dtype: record.dtype.clone(), reason });
        }
        i = i + 1;
    }
    Ok(())
}

} // verus!
