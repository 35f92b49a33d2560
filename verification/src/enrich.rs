//! Enrichment: turning one captured request into a resource record.
//!
//! Each field that cannot be filled degrades to "absent"; no failure drops
//! the resource.

use vstd::prelude::*;
use crate::config::CampaignConfig;
use crate::dns::{is_failure, records_of, resolve, DnsOutcome};
use crate::model::{text_of, CapturedRequest, DnsRecord, Resource};
use crate::pool::{Pool, PoolStep, PoolView};
use crate::table::{collides, found_in, ResponseMeta, ResponseTable};

verus! {

/// The host that the `url` crate reads out of a URL string: `None` where the
/// string does not parse as an absolute URL or the URL has no host.
pub uninterp spec fn url_host(url: Seq<char>) -> Option<Seq<char>>;

/// `url::Url::parse` followed by `url::Url::host_str` on the parsed URL. The
/// result is the host in its serialized form, or `None` where parsing fails or
/// the URL has no host.
#[verifier::external_body]
fn parse_host(url: &str) -> (host: Option<String>)
    ensures
        text_of(host) == url_host(url@),
{
    match url::Url::parse(url) {
        Ok(parsed) => parsed.host_str().map(|h| h.to_string()),
        Err(_) => None,
    }
}

/// The hostname of a request URL, where it has one.
pub fn hostname_of(url: &String) -> (host: Option<String>)
    ensures
        text_of(host) == url_host(url@),
{
    parse_host(url.as_str())
}

/// The response that belongs to a request: the table's entry for its
/// network-transaction id, and nothing where the request has no id.
pub open spec fn correlated(
    table: Map<Seq<char>, ResponseMeta>,
    network_id: Option<Seq<char>>,
) -> Option<ResponseMeta> {
    match network_id {
        Some(id) => found_in(table, id),
        None => None,
    }
}

/// Looks up the response for a request's network-transaction id.
pub fn correlate(network_id: &Option<String>, table: &ResponseTable) -> (found: Option<
    ResponseMeta,
>)
    ensures
        found == correlated(table@, text_of(*network_id)),
{
    match network_id {
        Some(id) => table.lookup(id),
        None => None,
    }
}

/// Which fields of a resource had to be left absent, and why. Each flag that
/// is set is worth one warning.
#[derive(Clone, Copy, Debug, PartialEq, Eq)]
pub struct Degraded {
    /// No host could be read out of the URL.
    pub no_hostname: bool,
    /// The DNS lookup failed (a name without records does not count).
    pub dns_failed: bool,
    /// The request carried no network-transaction id.
    pub no_network_id: bool,
    /// The request had an id, but no response was recorded under it.
    pub no_response: bool,
}

/// The DNS records of a resource: those of the lookup, if there was a
/// hostname to look up.
pub open spec fn dns_records_for(hostname: Option<String>, dns: DnsOutcome) -> Option<
    Vec<DnsRecord>,
> {
    if hostname.is_some() {
        records_of(dns)
    } else {
        None
    }
}

/// The resource that a request is enriched to.
pub open spec fn enriched(
    request: CapturedRequest,
    hostname: Option<String>,
    dns: DnsOutcome,
    table: Map<Seq<char>, ResponseMeta>,
) -> Resource {
    let response = correlated(table, text_of(request.network_id));
    Resource {
        url: request.url,
        hostname: hostname,
        resource_type: request.resource_type,
        code: match response {
            Some(meta) => Some(meta.status),
            None => None,
        },
        size: match response {
            Some(meta) => Some(meta.size),
            None => None,
        },
        dns_records: dns_records_for(hostname, dns),
    }
}

/// The fields that enrichment leaves absent.
pub open spec fn degraded(
    request: CapturedRequest,
    hostname: Option<String>,
    dns: DnsOutcome,
    table: Map<Seq<char>, ResponseMeta>,
) -> Degraded {
    Degraded {
        no_hostname: hostname.is_none(),
        dns_failed: hostname.is_some() && dns is Failed,
        no_network_id: request.network_id.is_none(),
        no_response: request.network_id.is_some() && correlated(
            table,
            text_of(request.network_id),
        ).is_none(),
    }
}

/// Assembles the resource for one captured request from its hostname, the
/// outcome of the hostname's DNS lookup and the trial's response table.
///
/// `dns` is ignored where there is no hostname: nothing was looked up then.
/// Status code and size are both taken from the one response recorded under
/// the request's network-transaction id, so they are present or absent
/// together.
pub fn assemble(
    request: CapturedRequest,
    hostname: Option<String>,
    dns: DnsOutcome,
    table: &ResponseTable,
) -> (out: (Resource, Degraded))
    ensures
        out.0 == enriched(request, hostname, dns, table@),
        out.1 == degraded(request, hostname, dns, table@),
        out.0.well_formed(),
        out.0.code.is_some() == correlated(table@, text_of(request.network_id)).is_some(),
{
    let response = correlate(&request.network_id, table);
    let no_network_id = request.network_id.is_none();
    let no_hostname = hostname.is_none();
    let dns_failed = !no_hostname && is_failure(&dns);
    let dns_records = if no_hostname {
        None
    } else {
        resolve(dns)
    };
    let (code, size) = match response {
        Some(meta) => (Some(meta.status), Some(meta.size)),
        None => (None, None),
    };
    let notes = Degraded {
        no_hostname,
        dns_failed,
        no_network_id,
        no_response: !no_network_id && response.is_none(),
    };
    let resource = Resource {
        url: request.url,
        hostname,
        resource_type: request.resource_type,
        code,
        size,
        dns_records,
    };
    (resource, notes)
}

/// Status code and size of a resource are present together or absent
/// together, and they are present exactly where the request has a
/// network-transaction id under which the table holds a response.
pub proof fn lemma_code_and_size_go_together(
    request: CapturedRequest,
    hostname: Option<String>,
    dns: DnsOutcome,
    table: Map<Seq<char>, ResponseMeta>,
)
    ensures
        enriched(request, hostname, dns, table).well_formed(),
        enriched(request, hostname, dns, table).code.is_some() <==> (request.network_id matches Some(
            id,
        ) && collides(table, id@)),
        enriched(request, hostname, dns, table).code matches Some(code) ==> (request.network_id matches Some(
            id,
        ) && code == table[id@].status && enriched(request, hostname, dns, table).size == Some(
            table[id@].size,
        )),
{
}

/// The enrichment phase of one trial: every drained request is enriched, at
/// most as many at a time as there are tabs, and the resources are gathered
/// in the order in which they are delivered.
pub struct Enricher {
    pool: Pool,
    resources: Vec<Resource>,
}

impl Enricher {
    /// The launches of the phase.
    pub closed spec fn pool(&self) -> PoolView {
        self.pool@
    }

    /// The resources delivered so far.
    pub closed spec fn resources(&self) -> Seq<Resource> {
        self.resources@
    }

    /// What holds of every enricher: one resource was delivered for each
    /// request whose enrichment has ended.
    pub open spec fn well_formed(&self) -> bool {
        &&& self.pool().bounded()
        &&& self.resources().len() == self.pool().finished
    }

    /// An enricher for `count` requests.
    pub fn new(count: usize, config: &CampaignConfig) -> (enricher: Enricher)
        ensures
            enricher.well_formed(),
            enricher.resources() =~= Seq::<Resource>::empty(),
            enricher.pool() == (PoolView {
                limit: config.spec_tabs() as nat,
                total: count as nat,
                launched: 0,
                finished: 0,
            }),
    {
        Enricher { pool: Pool::new(count, config), resources: Vec::new() }
    }

    /// Decides what happens next: which request to enrich, to wait for a
    /// delivery, or that the phase is over.
    pub fn step(&mut self) -> (step: PoolStep)
        requires
            old(self).well_formed(),
        ensures
            final(self).well_formed(),
            step == old(self).pool().step(),
            final(self).pool() == old(self).pool().after_step(),
            final(self).resources() == old(self).resources(),
            step is Done ==> final(self).resources().len() == final(self).pool().total,
    {
        self.pool.step()
    }

    /// Takes in the resource of one request whose enrichment has ended. A
    /// resource that no running enrichment stands behind is turned away,
    /// which the result reports.
    pub fn deliver(&mut self, resource: Resource) -> (accepted: bool)
        requires
            old(self).well_formed(),
        ensures
            final(self).well_formed(),
            accepted == (old(self).pool().finished < old(self).pool().launched),
            final(self).pool() == old(self).pool().after_completion(),
            final(self).resources() == (if accepted {
                old(self).resources().push(resource)
            } else {
                old(self).resources()
            }),
    {
        if self.pool.complete() {
            self.resources.push(resource);
            true
        } else {
            false
        }
    }

    /// How many enrichments are under way: never more than there are tabs.
    pub fn active(&self) -> (count: usize)
        ensures
            count == self.pool().in_flight(),
            count <= self.pool().limit,
    {
        self.pool.in_flight()
    }

    /// The resources that were delivered, in delivery order.
    pub fn finish(self) -> (resources: Vec<Resource>)
        ensures
            resources@ == self.resources(),
    {
        self.resources
    }
}

} // verus!
