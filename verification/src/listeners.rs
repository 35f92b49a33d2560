//! The two listeners of a page: the interceptor, which lets every paused
//! request go on and keeps a copy of it, and the recorder, which files every
//! response in the trial's table.
//!
//! Both run until the trial runner cancels them. Here is what each does with
//! one event; waiting for the next event is the caller's part.

use vstd::prelude::*;
use crate::model::CapturedRequest;
use crate::table::{after_record, collides, ResponseMeta, ResponseTable};

verus! {

/// A request that the browser paused before sending it.
#[derive(Clone, Debug, PartialEq, Eq)]
pub struct PausedRequest {
    /// The id under which the browser waits for the request to be continued.
    pub request_id: String,
    pub url: String,
    pub resource_type: String,
    /// The network-transaction id, where the browser assigned one.
    pub network_id: Option<String>,
}

/// What the interceptor does with one paused request.
#[derive(Clone, Debug, PartialEq, Eq)]
pub struct Interception {
    /// The request to continue. The crawl only observes: every request is
    /// let through, unchanged.
    pub continue_id: String,
    /// The copy that is buffered for the enrichment phase.
    pub forward: CapturedRequest,
}

/// The copy of a paused request that is kept for later correlation.
pub open spec fn captured(event: PausedRequest) -> CapturedRequest {
    CapturedRequest {
        url: event.url,
        resource_type: event.resource_type,
        network_id: event.network_id,
    }
}

/// Handles one paused request: the request is continued, whatever it is, and
/// a copy of it is forwarded. Whether continuing or forwarding then fails is
/// for the caller to log; neither keeps the next event from being handled.
pub fn intercept(event: PausedRequest) -> (step: Interception)
    ensures
        step.continue_id == event.request_id,
        step.forward == captured(event),
{
    Interception {
        continue_id: event.request_id,
        forward: CapturedRequest {
            url: event.url,
            resource_type: event.resource_type,
            network_id: event.network_id,
        },
    }
}

/// A response that the browser received.
#[derive(Clone, Debug, PartialEq, Eq)]
pub struct ReceivedResponse {
    /// The network-transaction id of the request that it answers.
    pub network_id: String,
    pub meta: ResponseMeta,
}

/// Handles one received response: it is recorded under its
/// network-transaction id. The result says whether it replaced an earlier
/// response with the same id, which is worth a warning.
pub fn record_response(table: &mut ResponseTable, event: ReceivedResponse) -> (duplicate: bool)
    ensures
        final(table)@ == after_record(old(table)@, event.network_id@, event.meta),
        duplicate == collides(old(table)@, event.network_id@),
{
    table.record(event.network_id, event.meta)
}

} // verus!
