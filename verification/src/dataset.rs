//! The dataset: one site per (hostname, category) pair, each with the trials
//! that were appended to it.
//!
//! This is the persistence contract in memory. A trial is appended to its
//! site, and the site is created when its first trial arrives; trials are
//! never overwritten or removed. At the end of a campaign every trial that
//! carries the campaign's number is marked successful.

use vstd::prelude::*;
use crate::campaign::Category;
use crate::model::{Site, Trial};

verus! {

/// A site as the contracts see it.
pub struct SiteView {
    pub hostname: Seq<char>,
    pub category: Seq<char>,
    pub trials: Seq<Trial>,
}

impl View for Site {
    type V = SiteView;

    open spec fn view(&self) -> SiteView {
        SiteView { hostname: self.hostname@, category: self.category@, trials: self.trials@ }
    }
}

impl SiteView {
    /// Whether this is the site of the given hostname and category.
    pub open spec fn is_for(&self, hostname: Seq<char>, category: Seq<char>) -> bool {
        self.hostname == hostname && self.category == category
    }

    /// This site with one more trial at the end.
    pub open spec fn with_trial(&self, trial: Trial) -> SiteView {
        SiteView { trials: self.trials.push(trial), ..*self }
    }

    /// This site with every trial of the given number marked successful and
    /// every other trial as it was.
    pub open spec fn with_marked(&self, num: i32) -> SiteView {
        SiteView {
            trials: Seq::new(
                self.trials.len(),
                |j: int|
                    if self.trials[j].num == num {
                        self.trials[j].marked()
                    } else {
                        self.trials[j]
                    },
            ),
            ..*self
        }
    }
}

/// No two sites share a hostname and a category.
pub open spec fn distinct_keys(sites: Seq<SiteView>) -> bool {
    forall|i: int, j: int|
        0 <= i < sites.len() && 0 <= j < sites.len() && i != j ==> !(#[trigger] sites[i]).is_for(
            (#[trigger] sites[j]).hostname,
            sites[j].category,
        )
}

/// Whether some site has the given hostname and category.
pub open spec fn has_site(sites: Seq<SiteView>, hostname: Seq<char>, category: Seq<char>) -> bool {
    exists|i: int| 0 <= i < sites.len() && (#[trigger] sites[i]).is_for(hostname, category)
}

/// The position of the site with the given hostname and category.
pub open spec fn site_index(sites: Seq<SiteView>, hostname: Seq<char>, category: Seq<char>) -> int
    recommends
        has_site(sites, hostname, category),
{
    choose|i: int| 0 <= i < sites.len() && (#[trigger] sites[i]).is_for(hostname, category)
}

/// Whether exactly one site has the given hostname and category.
pub open spec fn has_exactly_one(
    sites: Seq<SiteView>,
    hostname: Seq<char>,
    category: Seq<char>,
) -> bool {
    exists|i: int|
        0 <= i < sites.len() && (#[trigger] sites[i]).is_for(hostname, category) && forall|j: int|
            0 <= j < sites.len() && (#[trigger] sites[j]).is_for(hostname, category) ==> j == i
}

/// The sites after a trial was appended: it goes to the end of its site's
/// trials, and a site that does not exist yet is created at the end with
/// that one trial.
pub open spec fn appended(
    sites: Seq<SiteView>,
    hostname: Seq<char>,
    category: Seq<char>,
    trial: Trial,
) -> Seq<SiteView> {
    if has_site(sites, hostname, category) {
        let i = site_index(sites, hostname, category);
        sites.update(i, sites[i].with_trial(trial))
    } else {
        sites.push(SiteView { hostname: hostname, category: category, trials: seq![trial] })
    }
}

/// The sites after the success marking for trial number `num`.
pub open spec fn marked(sites: Seq<SiteView>, num: i32) -> Seq<SiteView> {
    Seq::new(sites.len(), |i: int| sites[i].with_marked(num))
}

/// The views of a sequence of sites.
pub open spec fn views(sites: Seq<Site>) -> Seq<SiteView> {
    Seq::new(sites.len(), |i: int| sites[i]@)
}

/// All sites of a measurement effort.
pub struct Dataset {
    sites: Vec<Site>,
}

impl View for Dataset {
    type V = Seq<SiteView>;

    closed spec fn view(&self) -> Seq<SiteView> {
        views(self.sites@)
    }
}

impl Dataset {
    /// What holds of every dataset: no two sites share a hostname and a
    /// category.
    pub open spec fn well_formed(&self) -> bool {
        distinct_keys(self@)
    }

    /// A dataset without sites.
    pub fn new() -> (dataset: Dataset)
        ensures
            dataset@ =~= Seq::<SiteView>::empty(),
            dataset.well_formed(),
    {
        Dataset { sites: Vec::new() }
    }

    /// How many sites there are.
    pub fn len(&self) -> (count: usize)
        ensures
            count == self@.len(),
    {
        self.sites.len()
    }

    /// The position of the site with the given hostname and category, if
    /// there is one. There is never more than one.
    pub fn find(&self, hostname: &String, category: &String) -> (found: Option<usize>)
        ensures
            found.is_some() == has_site(self@, hostname@, category@),
            found matches Some(i) ==> i < self@.len() && self@[i as int].is_for(
                hostname@,
                category@,
            ),
            self.well_formed() ==> (found matches Some(i) ==> i == site_index(
                self@,
                hostname@,
                category@,
            )),
    {
        let mut i: usize = 0;
        while i < self.sites.len()
            invariant
                i <= self.sites.len(),
                forall|k: int| 0 <= k < i ==> !(#[trigger] self@[k]).is_for(hostname@, category@),
            decreases self.sites.len() - i,
        {
            let site = &self.sites[i];
            if site.hostname == *hostname && site.category == *category {
                assert(self@[i as int].is_for(hostname@, category@));
                return Some(i);
            }
            i = i + 1;
        }
        None
    }

    /// The site at a position.
    pub fn site(&self, index: usize) -> (site: &Site)
        requires
            index < self@.len(),
        ensures
            site@ == self@[index as int],
    {
        &self.sites[index]
    }

    /// Appends a trial to the site of the given hostname and category. The
    /// site is created if it does not exist yet, which the result reports.
    /// Every other site, and every earlier trial, stays as it is.
    pub fn append_trial(&mut self, hostname: String, category: String, trial: Trial) -> (created:
        bool)
        requires
            old(self).well_formed(),
        ensures
            final(self).well_formed(),
            final(self)@ == appended(old(self)@, hostname@, category@, trial),
            created == !has_site(old(self)@, hostname@, category@),
            has_exactly_one(final(self)@, hostname@, category@),
    {
        proof {
            lemma_append_keeps_keys_distinct(self@, hostname@, category@, trial);
        }
        match self.find(&hostname, &category) {
            Some(i) => {
                let ghost before = self.sites@;
                self.sites[i].trials.push(trial);
                assert(views(self.sites@) =~= appended(views(before), hostname@, category@, trial));
                false
            },
            None => {
                let ghost before = self.sites@;
                let mut trials: Vec<Trial> = Vec::new();
                trials.push(trial);
                self.sites.push(Site { hostname, category, trials });
                assert(views(self.sites@) =~= appended(views(before), hostname@, category@, trial));
                true
            },
        }
    }

    /// Marks every trial with the given number as successful, in every site.
    /// Nothing else changes: no other trial, no other field, no site.
    pub fn mark_successful(&mut self, num: i32)
        requires
            old(self).well_formed(),
        ensures
            final(self).well_formed(),
            final(self)@ == marked(old(self)@, num),
    {
        let ghost before = self.sites@;
        let mut i: usize = 0;
        while i < self.sites.len()
            invariant
                i <= self.sites@.len(),
                self.sites@.len() == before.len(),
                forall|k: int| 0 <= k < i ==> (#[trigger] self.sites@[k])@ == before[k]@.with_marked(num),
                forall|k: int| i <= k < before.len() ==> #[trigger] self.sites@[k] == before[k],
            decreases self.sites@.len() - i,
        {
            let mut j: usize = 0;
            while j < self.sites[i].trials.len()
                invariant
                    i < self.sites@.len(),
                    self.sites@.len() == before.len(),
                    forall|k: int| 0 <= k < i ==> (#[trigger] self.sites@[k])@ == before[k]@.with_marked(num),
                    forall|k: int| i < k < before.len() ==> #[trigger] self.sites@[k] == before[k],
                    self.sites@[i as int].hostname == before[i as int].hostname,
                    self.sites@[i as int].category == before[i as int].category,
                    j <= self.sites@[i as int].trials@.len(),
                    self.sites@[i as int].trials@.len() == before[i as int].trials@.len(),
                    forall|t: int|
                        0 <= t < j ==> #[trigger] self.sites@[i as int].trials@[t]
                            == before[i as int]@.with_marked(num).trials[t],
                    forall|t: int|
                        j <= t < before[i as int].trials@.len()
                            ==> #[trigger] self.sites@[i as int].trials@[t]
                            == before[i as int].trials@[t],
                decreases self.sites@[i as int].trials@.len() - j,
            {
                if self.sites[i].trials[j].num == num {
                    self.sites[i].trials[j].trial_success = true;
                }
                j = j + 1;
            }
            assert(self.sites@[i as int]@.trials =~= before[i as int]@.with_marked(num).trials);
            i = i + 1;
        }
        proof {
            assert(views(self.sites@) =~= marked(views(before), num));
            lemma_marking_keeps_keys(views(before), num);
        }
    }
}

/// The success marking changes no key and no count: the same sites stand in
/// the same places, each with as many trials as before.
pub proof fn lemma_marking_keeps_keys(sites: Seq<SiteView>, num: i32)
    ensures
        marked(sites, num).len() == sites.len(),
        forall|i: int|
            0 <= i < sites.len() ==> (#[trigger] marked(sites, num)[i]).hostname
                == sites[i].hostname && marked(sites, num)[i].category == sites[i].category
                && marked(sites, num)[i].trials.len() == sites[i].trials.len(),
        distinct_keys(sites) ==> distinct_keys(marked(sites, num)),
{
    let after = marked(sites, num);
    if distinct_keys(sites) {
        assert forall|a: int, b: int|
            0 <= a < after.len() && 0 <= b < after.len() && a != b implies !(#[trigger] after[a]).is_for(
            (#[trigger] after[b]).hostname,
            after[b].category,
        ) by {
            assert(!sites[a].is_for(sites[b].hostname, sites[b].category));
        }
    }
}

/// The success marking sets the flag on every trial whose number is the
/// campaign's, and on no other: each trial with another number is exactly
/// as it was, and a marked trial differs from what it was in its flag alone.
pub proof fn lemma_marking_sets_exactly_the_matching_trials(
    sites: Seq<SiteView>,
    num: i32,
    i: int,
    j: int,
)
    requires
        0 <= i < sites.len(),
        0 <= j < sites[i].trials.len(),
    ensures
        ({
            let before = sites[i].trials[j];
            let after = marked(sites, num)[i].trials[j];
            &&& before.num == num ==> after.trial_success && after == before.marked()
            &&& before.num != num ==> after == before
            &&& after.num == before.num && after.time == before.time && after.ver == before.ver
                && after.resources == before.resources
        }),
{
}

/// One persisted trial: the site it belongs to, and the trial.
pub struct Persisted {
    pub hostname: Seq<char>,
    pub category: Seq<char>,
    pub trial: Trial,
}

/// The sites after a run has appended the given trials in the given order.
pub open spec fn appended_all(sites: Seq<SiteView>, run: Seq<Persisted>) -> Seq<SiteView>
    decreases run.len(),
{
    if run.len() == 0 {
        sites
    } else {
        appended(
            appended_all(sites, run.drop_last()),
            run.last().hostname,
            run.last().category,
            run.last().trial,
        )
    }
}

/// Appending leaves every site that is there in its place, under its key,
/// with its earlier trials as the beginning of its trials: trials are
/// pushed, never overwritten.
pub proof fn lemma_append_keeps_earlier_trials(
    sites: Seq<SiteView>,
    hostname: Seq<char>,
    category: Seq<char>,
    trial: Trial,
    i: int,
)
    requires
        0 <= i < sites.len(),
    ensures
        ({
            let after = appended(sites, hostname, category, trial);
            &&& i < after.len()
            &&& after[i].hostname == sites[i].hostname
            &&& after[i].category == sites[i].category
            &&& sites[i].trials.is_prefix_of(after[i].trials)
        }),
{
    let after = appended(sites, hostname, category, trial);
    assert(after[i].trials.len() >= sites[i].trials.len());
    assert(sites[i].trials =~= after[i].trials.subrange(0, sites[i].trials.len() as int));
}

/// However many trials a run appends, in whatever order they arrive, and
/// whatever became of the other sites' trials: afterwards no two sites share
/// a key, every site that was there before is still there, and each site
/// that a trial was appended to stands in the dataset exactly once.
pub proof fn lemma_one_site_per_key_after_run(sites: Seq<SiteView>, run: Seq<Persisted>)
    requires
        distinct_keys(sites),
    ensures
        distinct_keys(appended_all(sites, run)),
        forall|k: int|
            0 <= k < run.len() ==> has_exactly_one(
                appended_all(sites, run),
                (#[trigger] run[k]).hostname,
                run[k].category,
            ),
        forall|i: int|
            0 <= i < sites.len() ==> has_exactly_one(
                appended_all(sites, run),
                (#[trigger] sites[i]).hostname,
                sites[i].category,
            ),
    decreases run.len(),
{
    let after = appended_all(sites, run);
    if run.len() == 0 {
        assert forall|i: int| 0 <= i < sites.len() implies has_exactly_one(
            after,
            (#[trigger] sites[i]).hostname,
            sites[i].category,
        ) by {
            lemma_distinct_key_is_held_once(sites, i);
        }
    } else {
        let earlier = run.drop_last();
        let mid = appended_all(sites, earlier);
        let last = run.last();
        lemma_one_site_per_key_after_run(sites, earlier);
        lemma_append_keeps_keys_distinct(mid, last.hostname, last.category, last.trial);
        assert forall|k: int| 0 <= k < run.len() implies has_exactly_one(
            after,
            (#[trigger] run[k]).hostname,
            run[k].category,
        ) by {
            if k < run.len() - 1 {
                assert(earlier[k] == run[k]);
                lemma_append_keeps_held_keys(
                    mid,
                    last.hostname,
                    last.category,
                    last.trial,
                    run[k].hostname,
                    run[k].category,
                );
            }
        }
        assert forall|i: int| 0 <= i < sites.len() implies has_exactly_one(
            after,
            (#[trigger] sites[i]).hostname,
            sites[i].category,
        ) by {
            lemma_append_keeps_held_keys(
                mid,
                last.hostname,
                last.category,
                last.trial,
                sites[i].hostname,
                sites[i].category,
            );
        }
    }
}

/// Whether a run stored a trial for the site of the given hostname and
/// category.
pub open spec fn stored_for(run: Seq<Persisted>, hostname: Seq<char>, category: Seq<char>) -> bool {
    exists|k: int|
        0 <= k < run.len() && (#[trigger] run[k]).hostname == hostname && run[k].category
            == category
}

/// After a run that stored a trial for every hostname of its input, each
/// hostname of the input stands in exactly one site, under its category. The
/// order in which the trials arrived does not matter, nor what else the run
/// stored. (A site whose trial was given up stores nothing: it stands in the
/// dataset only if an earlier run put it there.)
pub proof fn lemma_run_covers_its_input(
    sites: Seq<SiteView>,
    input: Seq<Category>,
    run: Seq<Persisted>,
)
    requires
        distinct_keys(sites),
        forall|c: int, s: int|
            0 <= c < input.len() && 0 <= s < input[c].hostnames@.len() ==> stored_for(
                run,
                (#[trigger] input[c].hostnames@[s])@,
                input[c].name@,
            ),
    ensures
        distinct_keys(appended_all(sites, run)),
        forall|c: int, s: int|
            0 <= c < input.len() && 0 <= s < input[c].hostnames@.len() ==> has_exactly_one(
                appended_all(sites, run),
                (#[trigger] input[c].hostnames@[s])@,
                input[c].name@,
            ),
{
    lemma_one_site_per_key_after_run(sites, run);
    assert forall|c: int, s: int|
        0 <= c < input.len() && 0 <= s < input[c].hostnames@.len() implies has_exactly_one(
        appended_all(sites, run),
        (#[trigger] input[c].hostnames@[s])@,
        input[c].name@,
    ) by {
        let hostname = input[c].hostnames@[s]@;
        let category = input[c].name@;
        assert(stored_for(run, hostname, category));
        let k = choose|k: int|
            0 <= k < run.len() && (#[trigger] run[k]).hostname == hostname && run[k].category
                == category;
        assert(has_exactly_one(appended_all(sites, run), run[k].hostname, run[k].category));
    }
}

/// Where no two sites share a key, each site's key is held exactly once.
pub proof fn lemma_distinct_key_is_held_once(sites: Seq<SiteView>, i: int)
    requires
        distinct_keys(sites),
        0 <= i < sites.len(),
    ensures
        has_exactly_one(sites, sites[i].hostname, sites[i].category),
{
    assert(sites[i].is_for(sites[i].hostname, sites[i].category));
    assert forall|j: int| 0 <= j < sites.len() && (#[trigger] sites[j]).is_for(
        sites[i].hostname,
        sites[i].category,
    ) implies j == i by {
        if j != i {
            assert(!sites[j].is_for(sites[i].hostname, sites[i].category));
        }
    }
}

/// A key that is held exactly once is still held exactly once after a trial
/// was appended, to this site or to another.
pub proof fn lemma_append_keeps_held_keys(
    sites: Seq<SiteView>,
    hostname: Seq<char>,
    category: Seq<char>,
    trial: Trial,
    held_hostname: Seq<char>,
    held_category: Seq<char>,
)
    requires
        distinct_keys(sites),
        has_exactly_one(sites, held_hostname, held_category),
    ensures
        has_exactly_one(appended(sites, hostname, category, trial), held_hostname, held_category),
{
    let after = appended(sites, hostname, category, trial);
    lemma_append_keeps_keys_distinct(sites, hostname, category, trial);
    let i = choose|i: int|
        0 <= i < sites.len() && (#[trigger] sites[i]).is_for(held_hostname, held_category)
            && forall|j: int|
            0 <= j < sites.len() && (#[trigger] sites[j]).is_for(held_hostname, held_category) ==> j
                == i;
    lemma_append_keeps_earlier_trials(sites, hostname, category, trial, i);
    assert(after[i].is_for(held_hostname, held_category));
    assert(after[i].hostname == held_hostname && after[i].category == held_category);
    lemma_distinct_key_is_held_once(after, i);
}

/// Appending a trial never makes two sites share a key, and afterwards
/// exactly one site has the key that was appended to.
pub proof fn lemma_append_keeps_keys_distinct(
    sites: Seq<SiteView>,
    hostname: Seq<char>,
    category: Seq<char>,
    trial: Trial,
)
    requires
        distinct_keys(sites),
    ensures
        distinct_keys(appended(sites, hostname, category, trial)),
        has_exactly_one(appended(sites, hostname, category, trial), hostname, category),
        appended(sites, hostname, category, trial).len() >= sites.len(),
{
    let after = appended(sites, hostname, category, trial);
    if has_site(sites, hostname, category) {
        let i = site_index(sites, hostname, category);
        assert(after[i].is_for(hostname, category));
        assert forall|a: int, b: int|
            0 <= a < after.len() && 0 <= b < after.len() && a != b implies !(#[trigger] after[a]).is_for(
            (#[trigger] after[b]).hostname,
            after[b].category,
        ) by {
            assert(sites[a].hostname == after[a].hostname && sites[a].category == after[a].category);
            assert(sites[b].hostname == after[b].hostname && sites[b].category == after[b].category);
            assert(!sites[a].is_for(sites[b].hostname, sites[b].category));
        }
        assert forall|j: int| 0 <= j < after.len() && (#[trigger] after[j]).is_for(
            hostname,
            category,
        ) implies j == i by {
            if j != i {
                assert(!after[j].is_for(after[i].hostname, after[i].category));
            }
        }
    } else {
        let i = sites.len() as int;
        assert(after[i].is_for(hostname, category));
        assert forall|a: int, b: int|
            0 <= a < after.len() && 0 <= b < after.len() && a != b implies !(#[trigger] after[a]).is_for(
            (#[trigger] after[b]).hostname,
            after[b].category,
        ) by {
            if a < i && b < i {
                assert(!sites[a].is_for(sites[b].hostname, sites[b].category));
            } else if a < i {
                assert(!sites[a].is_for(hostname, category));
            } else {
                assert(!sites[b].is_for(hostname, category));
            }
        }
        assert forall|j: int| 0 <= j < after.len() && (#[trigger] after[j]).is_for(
            hostname,
            category,
        ) implies j == i by {
            if j < i {
                assert(!sites[j].is_for(hostname, category));
            }
        }
    }
}

} // verus!
