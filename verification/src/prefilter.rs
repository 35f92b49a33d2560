//! The hostname prefilter: which hostnames of an input resolve at all.
//!
//! Each hostname is probed once, as a fully qualified name. The hostnames of
//! a category are then split into those that exist and those that do not.

use vstd::prelude::*;
use vstd::string::*;

verus! {

/// How the probe of one hostname ended.
#[derive(Clone, Copy, Debug, PartialEq, Eq)]
pub enum ProbeOutcome {
    /// The name resolved to at least one address.
    Found,
    /// The resolver reported that the name has no records.
    NoRecords,
    /// The lookup failed for any other reason.
    Failed,
}

/// A hostname and whether it exists.
#[derive(Clone, Debug, PartialEq, Eq)]
pub struct Probed {
    pub hostname: String,
    pub exists: bool,
}

/// The hostnames of a category, split by existence. Each list keeps the
/// order in which the probes were handed in.
#[derive(Clone, Debug, PartialEq, Eq)]
pub struct Split {
    pub existing: Vec<String>,
    pub missing: Vec<String>,
}

/// The name that is looked up for a hostname: the hostname with the root
/// label's dot behind it, so that no search domain is tried.
pub fn probe_name(hostname: &String) -> (name: String)
    ensures
        name@ == hostname@ + "."@,
{
    hostname.clone().concat(".")
}

/// Whether a hostname counts as existing: only if its probe found it.
pub fn resolves(outcome: ProbeOutcome) -> (found: bool)
    ensures
        found == (outcome is Found),
{
    match outcome {
        ProbeOutcome::Found => true,
        _ => false,
    }
}

/// Whether a probe's outcome is worth a log line: a name without records is
/// the expected way not to exist, any other failure is reported.
pub fn is_reported(outcome: ProbeOutcome) -> (reported: bool)
    ensures
        reported == (outcome is Failed),
{
    match outcome {
        ProbeOutcome::Failed => true,
        _ => false,
    }
}

/// The hostnames among `probed` whose existence is `wanted`, in order.
pub open spec fn names_where(probed: Seq<Probed>, wanted: bool) -> Seq<String>
    decreases probed.len(),
{
    if probed.len() == 0 {
        Seq::empty()
    } else {
        let earlier = names_where(probed.drop_last(), wanted);
        if probed.last().exists == wanted {
            earlier.push(probed.last().hostname)
        } else {
            earlier
        }
    }
}

/// Splits the probed hostnames of a category into those that exist and those
/// that do not.
pub fn split(probed: &Vec<Probed>) -> (out: Split)
    ensures
        out.existing@ == names_where(probed@, true),
        out.missing@ == names_where(probed@, false),
        out.existing@.len() + out.missing@.len() == probed@.len(),
{
    let mut existing: Vec<String> = Vec::new();
    let mut missing: Vec<String> = Vec::new();
    let mut i: usize = 0;
    while i < probed.len()
        invariant
            i <= probed@.len(),
            existing@ == names_where(probed@.take(i as int), true),
            missing@ == names_where(probed@.take(i as int), false),
            existing@.len() + missing@.len() == i,
        decreases probed@.len() - i,
    {
        assert(probed@.take(i + 1).drop_last() =~= probed@.take(i as int));
        if probed[i].exists {
            existing.push(probed[i].hostname.clone());
        } else {
            missing.push(probed[i].hostname.clone());
        }
        i = i + 1;
    }
    assert(probed@.take(i as int) =~= probed@);
    Split { existing, missing }
}

/// Every probed hostname lands in exactly one of the two lists: in the
/// existing ones if it exists, in the missing ones if not.
pub proof fn lemma_split_is_a_partition(probed: Seq<Probed>)
    ensures
        names_where(probed, true).len() + names_where(probed, false).len() == probed.len(),
        forall|i: int|
            0 <= i < probed.len() ==> names_where(probed, (#[trigger] probed[i]).exists).contains(
                probed[i].hostname,
            ),
    decreases probed.len(),
{
    if probed.len() > 0 {
        let earlier = probed.drop_last();
        lemma_split_is_a_partition(earlier);
        assert forall|i: int| 0 <= i < probed.len() implies names_where(
            probed,
            (#[trigger] probed[i]).exists,
        ).contains(probed[i].hostname) by {
            let names = names_where(probed, probed[i].exists);
            if i < probed.len() - 1 {
                assert(earlier[i] == probed[i]);
                let before = names_where(earlier, probed[i].exists);
                let k = choose|k: int| 0 <= k < before.len() && before[k] == probed[i].hostname;
                assert(names[k] == probed[i].hostname);
            } else {
                assert(names[names.len() - 1] == probed[i].hostname);
            }
        }
    }
}

/// Nothing is made up: each name of either list is the hostname of a probe
/// with that existence.
pub proof fn lemma_split_names_were_probed(probed: Seq<Probed>, wanted: bool, k: int)
    requires
        0 <= k < names_where(probed, wanted).len(),
    ensures
        exists|i: int|
            0 <= i < probed.len() && (#[trigger] probed[i]).exists == wanted && probed[i].hostname
                == names_where(probed, wanted)[k],
    decreases probed.len(),
{
    let earlier = probed.drop_last();
    let before = names_where(earlier, wanted);
    if k < before.len() {
        lemma_split_names_were_probed(earlier, wanted, k);
        let i = choose|i: int|
            0 <= i < earlier.len() && (#[trigger] earlier[i]).exists == wanted
                && earlier[i].hostname == before[k];
        assert(probed[i] == earlier[i]);
    } else {
        let i = probed.len() - 1;
        assert(probed[i].exists == wanted && probed[i].hostname == names_where(probed, wanted)[k]);
    }
}

} // verus!
