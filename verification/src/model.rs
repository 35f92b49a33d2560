//! The data model: what one trial observed of one site, and the record that a
//! site accumulates over a measurement campaign.

use vstd::prelude::*;

verus! {

/// One DNS resource record, as plain values.
#[derive(Clone, Debug, PartialEq, Eq)]
pub struct DnsRecord {
    /// The name that the record answers for.
    pub name: String,
    /// The numeric record type (1 for an `A` record).
    pub record_type: u16,
    /// Time to live in seconds.
    pub ttl: u32,
    /// The record's data in presentation form, such as a dotted address.
    pub data: String,
}

/// One network request that a page made while it was observed.
#[derive(Clone, Debug, PartialEq, Eq)]
pub struct CapturedRequest {
    /// The request URL.
    pub url: String,
    /// The browser's classification of what is requested (script, image, ...).
    pub resource_type: String,
    /// The network-transaction id, where the browser assigned one.
    pub network_id: Option<String>,
}

/// One observed request together with what could be correlated to it.
#[derive(Clone, Debug, PartialEq, Eq)]
pub struct Resource {
    pub url: String,
    /// Absent where no host could be read out of the URL.
    pub hostname: Option<String>,
    pub resource_type: String,
    /// HTTP status code; absent where no response was recorded.
    pub code: Option<i64>,
    /// Payload size in bytes; absent exactly where `code` is.
    pub size: Option<u64>,
    /// Absent where there is no hostname or its lookup gave nothing.
    pub dns_records: Option<Vec<DnsRecord>>,
}

impl Resource {
    /// Status code and size come from one table lookup: a resource has both
    /// or neither.
    pub open spec fn well_formed(&self) -> bool {
        self.code.is_some() == self.size.is_some()
    }
}

/// One timed measurement pass over one site.
#[derive(Clone, Debug, PartialEq, Eq)]
pub struct Trial {
    /// Wall-clock time of assembly, in milliseconds since the Unix epoch.
    pub time: i64,
    /// The browser's version string.
    pub ver: String,
    /// The campaign's trial number.
    pub num: i32,
    pub resources: Vec<Resource>,
    /// False until the campaign that made the trial has run to its end.
    pub trial_success: bool,
}

impl Trial {
    /// This trial with its success flag set.
    pub open spec fn marked(self) -> Trial {
        Trial { trial_success: true, ..self }
    }
}

/// Everything recorded for one (hostname, category) pair.
#[derive(Clone, Debug, PartialEq, Eq)]
pub struct Site {
    pub hostname: String,
    pub category: String,
    /// Trials in the order in which they were appended.
    pub trials: Vec<Trial>,
}

impl Site {
    /// The pair that identifies the site.
    pub open spec fn key(&self) -> (Seq<char>, Seq<char>) {
        (self.hostname@, self.category@)
    }
}

/// The characters of an optional string.
pub open spec fn text_of(s: Option<String>) -> Option<Seq<char>> {
    match s {
        Some(t) => Some(t@),
        None => None,
    }
}

} // verus!
