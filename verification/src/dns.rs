//! DNS enrichment: what a single lookup attempt contributes to a resource.
//!
//! The lookup itself is made by the caller, through a resolver that caches
//! its answers. A failed lookup never aborts a trial: it only leaves the
//! resource without records.

use vstd::prelude::*;
use crate::model::DnsRecord;

verus! {

/// Number of answers that the resolver's cache is configured to hold.
pub const DNS_CACHE_SIZE: usize = 256;

/// How one lookup attempt ended.
#[derive(Clone, Debug, PartialEq, Eq)]
pub enum DnsOutcome {
    /// The resolver answered with these records.
    Records(Vec<DnsRecord>),
    /// The resolver reported that the name has no records.
    NoRecords,
    /// The lookup failed for any other reason.
    Failed,
}

/// The records that an outcome yields.
pub open spec fn records_of(outcome: DnsOutcome) -> Option<Vec<DnsRecord>> {
    match outcome {
        DnsOutcome::Records(records) => Some(records),
        _ => None,
    }
}

/// The records that a lookup contributes: those of an answer, and none for a
/// name without records or a failed lookup.
pub fn resolve(outcome: DnsOutcome) -> (records: Option<Vec<DnsRecord>>)
    ensures
        records == records_of(outcome),
{
    match outcome {
        DnsOutcome::Records(records) => Some(records),
        DnsOutcome::NoRecords => None,
        DnsOutcome::Failed => None,
    }
}

/// Whether an outcome is worth a warning: a name without records is an
/// ordinary answer, any other failure is reported.
pub fn is_failure(outcome: &DnsOutcome) -> (failed: bool)
    ensures
        failed == (*outcome is Failed),
{
    match outcome {
        DnsOutcome::Failed => true,
        _ => false,
    }
}

} // verus!
