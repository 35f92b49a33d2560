//! The campaign orchestrator: which trial runner is launched when.
//!
//! Categories are run one after another. Within a category one runner is
//! launched per hostname, in order, with never more runners active than the
//! tab limit allows. Once every category is through, the run's trials are
//! marked successful, once. A site's failure is reported and changes
//! nothing: the campaign goes on as if the site had succeeded.

use vstd::prelude::*;
use crate::config::CampaignConfig;
use crate::pool::{Pool, PoolStep, PoolView};
use crate::runner::Failure;

verus! {

/// One category of the input with its hostnames, in input order.
#[derive(Clone, Debug, PartialEq, Eq)]
pub struct Category {
    pub name: String,
    pub hostnames: Vec<String>,
}

/// How one site's trial ended.
#[derive(Clone, Copy, Debug, PartialEq, Eq)]
pub enum SiteOutcome {
    /// The trial was stored.
    Completed,
    /// The runner gave the trial up.
    Failed(Failure),
    /// The runner's task ended without a result.
    Crashed,
}

/// What the orchestrator's caller does next.
#[derive(Clone, Copy, Debug, PartialEq, Eq)]
pub enum CampaignStep {
    /// Start a runner for hostname number `site` of category number
    /// `category`. Where `staggered` is set, pause for the stagger interval
    /// first.
    Launch { category: usize, site: usize, staggered: bool },
    /// Wait for a running trial to end and report its outcome.
    Wait,
    /// Every category is through: mark the trials with this number as
    /// successful, in the whole dataset.
    MarkSuccessful { trial: i32 },
    /// The campaign is over.
    Finished,
}

/// The state of a campaign.
pub struct CampaignView {
    pub trial: i32,
    /// The number of hostnames of each category.
    pub sizes: Seq<nat>,
    /// The category that is being run; the number of categories once all
    /// are through.
    pub current: nat,
    /// The launches within the current category.
    pub pool: PoolView,
    /// Whether the success marking has been handed out.
    pub marked: bool,
}

impl CampaignView {
    /// The number of hostnames of category `index`, and none beyond the last.
    pub open spec fn size_at(&self, index: nat) -> nat {
        if index < self.sizes.len() {
            self.sizes[index as int]
        } else {
            0
        }
    }

    /// What holds of every campaign.
    pub open spec fn well_formed(&self) -> bool {
        &&& self.current <= self.sizes.len() <= usize::MAX
        &&& forall|i: int| 0 <= i < self.sizes.len() ==> #[trigger] self.sizes[i] <= usize::MAX
        &&& self.pool.bounded()
        &&& self.pool.total == self.size_at(self.current)
    }

    /// The sites that are still to be launched, in the order of their launch.
    pub open spec fn to_launch(&self) -> Seq<(nat, nat)> {
        sites_from(self.sizes, self.current, self.pool.launched)
    }

    /// The state at the start of the category after the current one.
    pub open spec fn at_next_category(&self) -> CampaignView {
        CampaignView {
            current: self.current + 1,
            pool: PoolView {
                limit: self.pool.limit,
                total: self.size_at(self.current + 1),
                launched: 0,
                finished: 0,
            },
            ..*self
        }
    }

    /// What the caller is told to do in this state. Only the first launches
    /// of a category, as many as there are tabs, are staggered.
    pub open spec fn step(&self) -> CampaignStep
        decreases self.sizes.len() - self.current,
    {
        if self.current < self.sizes.len() {
            match self.pool.step() {
                PoolStep::Launch(site) => CampaignStep::Launch {
                    category: self.current as usize,
                    site: site,
                    staggered: site < self.pool.limit,
                },
                PoolStep::Wait => CampaignStep::Wait,
                PoolStep::Done => self.at_next_category().step(),
            }
        } else if !self.marked {
            CampaignStep::MarkSuccessful { trial: self.trial }
        } else {
            CampaignStep::Finished
        }
    }

    /// The state after the caller was told what to do.
    pub open spec fn after_step(&self) -> CampaignView
        decreases self.sizes.len() - self.current,
    {
        if self.current < self.sizes.len() {
            if self.pool.step() is Done {
                self.at_next_category().after_step()
            } else {
                CampaignView { pool: self.pool.after_step(), ..*self }
            }
        } else {
            CampaignView { marked: true, ..*self }
        }
    }

    /// The state after the outcome of a site's trial was reported: one
    /// runner fewer is active, whatever the outcome was.
    pub open spec fn after_outcome(&self) -> CampaignView {
        CampaignView { pool: self.pool.after_completion(), ..*self }
    }
}

/// The sites from hostname `site` of category `category` to the end of the
/// input, each as its category's number and its own, in input order.
pub open spec fn sites_from(sizes: Seq<nat>, category: nat, site: nat) -> Seq<(nat, nat)>
    decreases sizes.len() - category, sizes[category as int] - site,
{
    if category >= sizes.len() {
        Seq::empty()
    } else if site < sizes[category as int] {
        seq![(category, site)] + sites_from(sizes, category, site + 1)
    } else {
        sites_from(sizes, category + 1, 0)
    }
}

/// The sizes of the categories of an input.
pub open spec fn sizes_of(input: Seq<Category>) -> Seq<nat> {
    Seq::new(input.len(), |i: int| input[i].hostnames.len() as nat)
}

/// The orchestrator of one campaign run.
pub struct Campaign {
    config: CampaignConfig,
    input: Vec<Category>,
    current: usize,
    pool: Pool,
    marked: bool,
}

impl View for Campaign {
    type V = CampaignView;

    closed spec fn view(&self) -> CampaignView {
        CampaignView {
            trial: self.config.spec_trial(),
            sizes: sizes_of(self.input@),
            current: self.current as nat,
            pool: self.pool@,
            marked: self.marked,
        }
    }
}

impl Campaign {
    /// The input that the campaign runs over.
    pub closed spec fn input(&self) -> Seq<Category> {
        self.input@
    }

    /// What holds of every campaign: its state is well formed, and its
    /// limit is the configured tab limit.
    pub closed spec fn well_formed(&self) -> bool {
        &&& self@.well_formed()
        &&& self.pool@.limit == self.config.spec_tabs()
    }

    /// A campaign over `input`, before its first step.
    pub fn new(config: CampaignConfig, input: Vec<Category>) -> (campaign: Campaign)
        ensures
            campaign.well_formed(),
            campaign.input() == input@,
            campaign@ == (CampaignView {
                trial: config.spec_trial(),
                sizes: sizes_of(input@),
                current: 0,
                pool: PoolView {
                    limit: config.spec_tabs() as nat,
                    total: if input@.len() > 0 {
                        input@[0].hostnames@.len()
                    } else {
                        0
                    },
                    launched: 0,
                    finished: 0,
                },
                marked: false,
            }),
    {
        let total = if input.len() > 0 {
            input[0].hostnames.len()
        } else {
            0
        };
        let pool = Pool::new(total, &config);
        Campaign { config, input, current: 0, pool, marked: false }
    }

    /// Decides what happens next.
    pub fn step(&mut self) -> (step: CampaignStep)
        requires
            old(self).well_formed(),
        ensures
            final(self).well_formed(),
            final(self).input() == old(self).input(),
            step == old(self)@.step(),
            final(self)@ == old(self)@.after_step(),
            step matches CampaignStep::Launch { category, site, .. } ==> category
                < final(self).input().len() && site < final(self).input()[category as int].hostnames@.len(),
    {
        let ghost before = self@;
        while self.current < self.input.len()
            invariant
                self.well_formed(),
                self.input@ == old(self).input@,
                self.config == old(self).config,
                before == old(self)@,
                self@.step() == before.step(),
                self@.after_step() == before.after_step(),
            decreases self.input.len() - self.current,
        {
            let ghost here = self@;
            match self.pool.step() {
                PoolStep::Launch(site) => {
                    assert(self@ == here.after_step());
                    return CampaignStep::Launch {
                        category: self.current,
                        site,
                        staggered: site < self.pool.limit(),
                    };
                },
                PoolStep::Wait => {
                    assert(self@ == here.after_step());
                    return CampaignStep::Wait;
                },
                PoolStep::Done => {
                    self.current = self.current + 1;
                    let total = if self.current < self.input.len() {
                        self.input[self.current].hostnames.len()
                    } else {
                        0
                    };
                    self.pool = Pool::new(total, &self.config);
                    assert(self@ == here.at_next_category());
                },
            }
        }
        if !self.marked {
            self.marked = true;
            CampaignStep::MarkSuccessful { trial: self.config.trial() }
        } else {
            CampaignStep::Finished
        }
    }

    /// Takes in the outcome of one site's trial. Whatever it is, the slot is
    /// free again and the campaign goes on; the result says whether the
    /// outcome is worth an error message. An outcome that no running trial
    /// stands behind changes nothing.
    pub fn on_outcome(&mut self, outcome: SiteOutcome) -> (is_error: bool)
        requires
            old(self).well_formed(),
        ensures
            final(self).well_formed(),
            final(self).input() == old(self).input(),
            final(self)@ == old(self)@.after_outcome(),
            is_error == !(outcome is Completed),
    {
        self.pool.complete();
        match outcome {
            SiteOutcome::Completed => false,
            _ => true,
        }
    }

    /// The categories that the campaign runs over, in order.
    pub fn categories(&self) -> (input: &Vec<Category>)
        ensures
            input@ == self.input(),
    {
        &self.input
    }

    /// The hostname that a launch stands for.
    pub fn hostname(&self, category: usize, site: usize) -> (hostname: &String)
        requires
            category < self.input().len(),
            site < self.input()[category as int].hostnames@.len(),
        ensures
            *hostname == self.input()[category as int].hostnames@[site as int],
    {
        &self.input[category].hostnames[site]
    }

    /// The name of a category.
    pub fn category_name(&self, category: usize) -> (name: &String)
        requires
            category < self.input().len(),
        ensures
            *name == self.input()[category as int].name,
    {
        &self.input[category].name
    }

    /// How many trial runners are active.
    pub fn active(&self) -> (count: usize)
        ensures
            count == self@.pool.in_flight(),
            count <= self@.pool.limit,
    {
        self.pool.in_flight()
    }
}

/// Every step and every outcome leaves a campaign well formed. So the
/// number of active runners never exceeds the tab limit, in any category and
/// at any time.
pub proof fn lemma_campaign_stays_bounded(campaign: CampaignView)
    requires
        campaign.well_formed(),
    ensures
        campaign.after_step().well_formed(),
        campaign.after_outcome().well_formed(),
        campaign.after_step().pool.in_flight() <= campaign.pool.limit,
        campaign.after_outcome().pool.in_flight() <= campaign.pool.limit,
        campaign.after_step().pool.limit == campaign.pool.limit,
        campaign.after_step().sizes == campaign.sizes,
        campaign.after_step().current >= campaign.current,
    decreases campaign.sizes.len() - campaign.current,
{
    if campaign.current < campaign.sizes.len() && campaign.pool.step() is Done {
        lemma_campaign_stays_bounded(campaign.at_next_category());
    }
}

/// A launch names a hostname of the input, and within a category exactly the
/// launches with an index below the tab limit are staggered.
pub proof fn lemma_launch_is_within_input(campaign: CampaignView)
    requires
        campaign.well_formed(),
    ensures
        campaign.step() matches CampaignStep::Launch { category, site, staggered } ==> {
            &&& campaign.current <= category < campaign.sizes.len()
            &&& site < campaign.sizes[category as int]
            &&& staggered == (site < campaign.pool.limit)
            &&& campaign.after_step().pool.launched == site + 1
            &&& campaign.after_step().current == category
        },
    decreases campaign.sizes.len() - campaign.current,
{
    if campaign.current < campaign.sizes.len() && campaign.pool.step() is Done {
        lemma_launch_is_within_input(campaign.at_next_category());
    }
}

/// The success marking comes last and once. It is handed out only when every
/// category is through and no runner is active; after it, the campaign is
/// finished and stays so.
pub proof fn lemma_marking_ends_the_campaign(campaign: CampaignView)
    requires
        campaign.well_formed(),
        campaign.step() is MarkSuccessful,
    ensures
        campaign.step() == (CampaignStep::MarkSuccessful { trial: campaign.trial }),
        !campaign.marked,
        campaign.after_step().current == campaign.sizes.len(),
        campaign.after_step().pool.in_flight() == 0,
        campaign.after_step().marked,
        campaign.after_step().step() == CampaignStep::Finished,
        campaign.after_step().after_step() == campaign.after_step(),
    decreases campaign.sizes.len() - campaign.current,
{
    if campaign.current < campaign.sizes.len() {
        lemma_marking_ends_the_campaign(campaign.at_next_category());
    }
}

/// Every site of the input is launched, once, in input order, whatever the
/// outcomes of the sites before it: a launch takes the first of the sites
/// still to be launched, neither a wait nor an outcome changes what is to be
/// launched, and the success marking is handed out only when none is left.
pub proof fn lemma_every_site_is_launched_once(campaign: CampaignView)
    requires
        campaign.well_formed(),
    ensures
        campaign.after_outcome().to_launch() == campaign.to_launch(),
        match campaign.step() {
            CampaignStep::Launch { category, site, .. } => {
                &&& campaign.to_launch().len() > 0
                &&& campaign.to_launch()[0] == (category as nat, site as nat)
                &&& campaign.after_step().to_launch() == campaign.to_launch().drop_first()
            },
            CampaignStep::Wait => {
                &&& campaign.after_step().to_launch() == campaign.to_launch()
                &&& campaign.pool.in_flight() > 0
            },
            CampaignStep::MarkSuccessful { .. } => campaign.to_launch().len() == 0,
            CampaignStep::Finished => campaign.to_launch().len() == 0,
        },
    decreases campaign.sizes.len() - campaign.current,
{
    if campaign.current < campaign.sizes.len() {
        match campaign.pool.step() {
            PoolStep::Launch(site) => {
                let rest = sites_from(campaign.sizes, campaign.current, campaign.pool.launched + 1);
                assert(campaign.to_launch() == seq![(campaign.current, campaign.pool.launched)]
                    + rest);
                assert(campaign.to_launch().drop_first() =~= rest);
            },
            PoolStep::Wait => {},
            PoolStep::Done => {
                lemma_every_site_is_launched_once(campaign.at_next_category());
            },
        }
    }
}

/// At its start a campaign has every site of its input to launch.
pub proof fn lemma_new_campaign_launches_everything(campaign: CampaignView)
    requires
        campaign.current == 0,
        campaign.pool.launched == 0,
    ensures
        campaign.to_launch() == sites_from(campaign.sizes, 0, 0),
{
}

/// The sites from a position on are the rest of its category followed by
/// every site of the later categories; so `sites_from(sizes, 0, 0)` names
/// each hostname of the input exactly once.
pub proof fn lemma_sites_from_names_each_site_once(
    sizes: Seq<nat>,
    category: nat,
    site: nat,
    c: nat,
    s: nat,
)
    requires
        site <= sizes[category as int] || category >= sizes.len(),
    ensures
        sites_from(sizes, category, site).contains((c, s)) <==> (c < sizes.len() && s
            < sizes[c as int] && (c > category || (c == category && s >= site))),
        sites_from(sizes, category, site).no_duplicates(),
    decreases sizes.len() - category, sizes[category as int] - site,
{
    let all = sites_from(sizes, category, site);
    if category >= sizes.len() {
    } else if site < sizes[category as int] {
        let rest = sites_from(sizes, category, site + 1);
        lemma_sites_from_names_each_site_once(sizes, category, site + 1, c, s);
        assert(all == seq![(category, site)] + rest);
        if all.contains((c, s)) {
            let i = choose|i: int| 0 <= i < all.len() && all[i] == (c, s);
            if i > 0 {
                assert(rest[i - 1] == (c, s));
            }
        }
        if (c, s) == (category, site) {
            assert(all[0] == (c, s));
        }
        if rest.contains((c, s)) {
            let i = choose|i: int| 0 <= i < rest.len() && rest[i] == (c, s);
            assert(all[i + 1] == (c, s));
        }
        lemma_sites_from_names_each_site_once(sizes, category, site + 1, category, site);
        assert forall|i: int, j: int| 0 <= i < all.len() && 0 <= j < all.len() && i != j implies all[i]
            != all[j] by {
            if i > 0 && j > 0 {
                assert(rest[i - 1] != rest[j - 1]);
            } else if i == 0 {
                assert(all[j] == rest[j - 1]);
                assert(rest.contains(rest[j - 1]));
            } else {
                assert(all[i] == rest[i - 1]);
                assert(rest.contains(rest[i - 1]));
            }
        }
    } else {
        lemma_sites_from_names_each_site_once(sizes, category + 1, 0, c, s);
    }
}

} // verus!
