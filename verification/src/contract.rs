use vstd::prelude::*;

use crate::errors::Error;
use crate::ledger::{
    lemma_donations_for_prefix_step, lemma_total_for_le_total, lemma_total_for_nonneg,
    lemma_total_for_push, lemma_total_nonneg, lemma_total_prefix_le, lemma_total_prefix_step,
    lemma_total_push, spec_donations_for, spec_total, spec_total_for,
};
use crate::types::{
    campaign_views, donation_views, status_le, Campaign, CampaignCategory, CampaignModel,
    CampaignStatus, Donation, DonationModel, Identity,
};

verus! {

/// The whole stored state of the ledger: the admin identity (set once at
/// initialization), every campaign ever created in order of creation, and
/// the append-only log of every donation ever recorded.
pub struct ZakatContract {
    admin: Option<Identity>,
    campaigns: Vec<Campaign>,
    donations: Vec<Donation>,
}

/// The mathematical value of the stored state, which every contract in
/// this module speaks about.
#[verifier::ext_equal]
pub ghost struct ContractView {
    pub admin: Option<Identity>,
    pub campaigns: Seq<CampaignModel>,
    pub donations: Seq<DonationModel>,
}

impl View for ZakatContract {
    type V = ContractView;

    closed spec fn view(&self) -> ContractView {
        ContractView {
            admin: self.admin,
            campaigns: campaign_views(self.campaigns@),
            donations: donation_views(self.donations@),
        }
    }
}

/// A campaign id is stored exactly when it lies between 1 and the number of
/// campaigns created so far: ids are assigned consecutively and campaigns
/// are never deleted.
pub open spec fn contains_id(v: ContractView, id: int) -> bool {
    1 <= id <= v.campaigns.len()
}

/// The stored campaign with the given id.
pub open spec fn campaign_of(v: ContractView, id: int) -> CampaignModel {
    v.campaigns[id - 1]
}

/// What holds of every single stored campaign.
pub open spec fn campaign_inv(c: CampaignModel) -> bool {
    &&& c.target_amount > 0
    &&& c.current_amount >= 0
    &&& c.current_amount >= c.target_amount ==> c.status != CampaignStatus::Active
    &&& c.status == CampaignStatus::Completed ==> c.current_amount >= c.target_amount
}

/// What holds of every single recorded donation, in a state with `n`
/// campaigns.
pub open spec fn donation_inv(d: DonationModel, n: int) -> bool {
    &&& d.amount > 0
    &&& 1 <= d.campaign_id <= n
}

/// The invariant of the stored state. Constructors establish it and every
/// operation preserves it.
pub open spec fn state_inv(v: ContractView) -> bool {
    &&& v.campaigns.len() <= u32::MAX
    &&& forall|i: int|
        0 <= i < v.campaigns.len() ==> (#[trigger] v.campaigns[i]).id == i + 1
    &&& forall|i: int| 0 <= i < v.campaigns.len() ==> campaign_inv(#[trigger] v.campaigns[i])
    &&& forall|j: int|
        0 <= j < v.donations.len() ==> donation_inv(
            #[trigger] v.donations[j],
            v.campaigns.len() as int,
        )
    &&& spec_total(v.donations) <= i128::MAX
    &&& forall|i: int|
        0 <= i < v.campaigns.len() ==> (#[trigger] v.campaigns[i]).current_amount
            <= spec_total_for(v.donations, v.campaigns[i].id)
}

/// How one stored campaign may change under any single operation: every
/// field set at creation time is frozen, the status only moves forward,
/// the collected amount never falls except to zero on payout, and a
/// `Closed` campaign keeps its amount.
pub open spec fn campaign_evolves(a: CampaignModel, b: CampaignModel) -> bool {
    &&& b.id == a.id
    &&& b.title == a.title
    &&& b.description == a.description
    &&& b.category == a.category
    &&& b.target_amount == a.target_amount
    &&& b.recipient == a.recipient
    &&& b.created_at == a.created_at
    &&& status_le(a.status, b.status)
    &&& b.current_amount >= a.current_amount || b.current_amount == 0
    &&& a.status == CampaignStatus::Closed ==> b.current_amount == a.current_amount
}

/// How the whole state may change under any single operation: campaigns are
/// never deleted and only evolve legally, the donation log only grows by
/// appending, and the admin, once set, never changes.
pub open spec fn evolves(pre: ContractView, post: ContractView) -> bool {
    &&& pre.campaigns.len() <= post.campaigns.len()
    &&& forall|i: int|
        0 <= i < pre.campaigns.len() ==> campaign_evolves(
            pre.campaigns[i],
            #[trigger] post.campaigns[i],
        )
    &&& pre.donations.is_prefix_of(post.donations)
    &&& pre.admin is Some ==> post.admin == pre.admin
}

impl ZakatContract {
    /// The state invariant, as a predicate on the value itself.
    pub open spec fn wf(&self) -> bool {
        state_inv(self@)
    }

    /// An empty ledger: no admin yet, no campaigns, no donations.
    pub fn new() -> (c: ZakatContract)
        ensures
            c.wf(),
            c@ == (ContractView {
                admin: None::<Identity>,
                campaigns: Seq::<CampaignModel>::empty(),
                donations: Seq::<DonationModel>::empty(),
            }),
    {
        let c = ZakatContract { admin: None, campaigns: Vec::new(), donations: Vec::new() };
        proof {
            assert(c@ =~= ContractView {
                admin: None::<Identity>,
                campaigns: Seq::<CampaignModel>::empty(),
                donations: Seq::<DonationModel>::empty(),
            });
        }
        c
    }

    /// Sets the admin identity, exactly once: a second attempt fails with
    /// `AlreadyInitialized` and changes nothing.
    pub fn initialize(&mut self, admin: Identity) -> (r: Result<(), Error>)
        requires
            old(self).wf(),
        ensures
            final(self).wf(),
            evolves(old(self)@, final(self)@),
            old(self)@.admin is Some ==> r == Err::<(), Error>(Error::AlreadyInitialized)
                && final(self)@ == old(self)@,
            old(self)@.admin is None ==> r == Ok::<(), Error>(()) && final(self)@
                == (ContractView { admin: Some(admin), ..old(self)@ }),
    {
        if self.admin.is_some() {
            return Err(Error::AlreadyInitialized);
        }
        self.admin = Some(admin);
        Ok(())
    }

    /// The admin identity, if one has been set.
    pub fn get_admin(&self) -> (r: Option<Identity>)
        ensures
            r == self@.admin,
    {
        self.admin
    }

    /// Opens a new campaign. Only the admin may create one (`Unauthorized`
    /// otherwise, and also while no admin has been set), and the target
    /// must be positive (`InvalidArgument` otherwise). On success the new
    /// campaign gets the next consecutive id — a failed attempt consumes no
    /// id — and starts with nothing collected and status `Active`.
    pub fn create_campaign(
        &mut self,
        caller: Identity,
        title: String,
        description: String,
        category: CampaignCategory,
        target_amount: i128,
        recipient: Identity,
        now: u64,
    ) -> (r: Result<u32, Error>)
        requires
            old(self).wf(),
            old(self)@.campaigns.len() < u32::MAX,
        ensures
            final(self).wf(),
            evolves(old(self)@, final(self)@),
            ({
                let pre = old(self)@;
                if pre.admin != Some(caller) {
                    r == Err::<u32, Error>(Error::Unauthorized) && final(self)@ == pre
                } else if target_amount <= 0 {
                    r == Err::<u32, Error>(Error::InvalidArgument) && final(self)@ == pre
                } else {
                    &&& r == Ok::<u32, Error>((pre.campaigns.len() + 1) as u32)
                    &&& final(self)@ == (ContractView {
                        campaigns: pre.campaigns.push(
                            CampaignModel {
                                id: pre.campaigns.len() as int + 1,
                                title: title@,
                                description: description@,
                                category: category,
                                target_amount: target_amount as int,
                                current_amount: 0,
                                recipient: recipient,
                                status: CampaignStatus::Active,
                                created_at: now as int,
                            },
                        ),
                        ..pre
                    })
                }
            }),
    {
        let authorized = match &self.admin {
            Some(a) => *a == caller,
            None => false,
        };
        if !authorized {
            return Err(Error::Unauthorized);
        }
        if target_amount <= 0 {
            return Err(Error::InvalidArgument);
        }
        let ghost pre = self@;
        let n: usize = self.campaigns.len();
        let id: u32 = (n as u32) + 1;
        let camp = Campaign {
            id,
            title,
            description,
            category,
            target_amount,
            current_amount: 0,
            recipient,
            status: CampaignStatus::Active,
            created_at: now,
        };
        self.campaigns.push(camp);
        proof {
            let post = self@;
            assert(post.campaigns =~= pre.campaigns.push(camp@));
            assert forall|j: int| 0 <= j < pre.donations.len() implies (#[trigger] pre.donations[j]).amount
                >= 0 by {}
            lemma_total_for_nonneg(pre.donations, n as int + 1);
            assert(pre.donations.is_prefix_of(post.donations)) by {
                assert(post.donations.subrange(0, pre.donations.len() as int) =~= pre.donations);
            }
        }
        Ok(id)
    }

    /// Records a donation from `caller` to a campaign. The amount must be
    /// positive (`InvalidArgument` otherwise), the campaign must exist
    /// (`NotFound`) and must still be `Active` (`InvalidState`): once a
    /// campaign has reached its target or has been closed, no further
    /// donation is accepted. On success, atomically, the campaign's
    /// collected amount rises by exactly `amount`, the status becomes
    /// `Completed` as soon as the target is reached, and the donation is
    /// appended to the ledger.
    ///
    /// The caller must leave room for the new amount in the ledger-wide
    /// total; the cumulative total is what `get_total_donations` reports.
    pub fn donate(
        &mut self,
        caller: Identity,
        campaign_id: u32,
        amount: i128,
        is_anonymous: bool,
        now: u64,
    ) -> (r: Result<(), Error>)
        requires
            old(self).wf(),
            spec_total(old(self)@.donations) + amount <= i128::MAX,
        ensures
            final(self).wf(),
            evolves(old(self)@, final(self)@),
            ({
                let pre = old(self)@;
                if amount <= 0 {
                    r == Err::<(), Error>(Error::InvalidArgument) && final(self)@ == pre
                } else if !contains_id(pre, campaign_id as int) {
                    r == Err::<(), Error>(Error::NotFound) && final(self)@ == pre
                } else if campaign_of(pre, campaign_id as int).status != CampaignStatus::Active {
                    r == Err::<(), Error>(Error::InvalidState) && final(self)@ == pre
                } else {
                    let c = campaign_of(pre, campaign_id as int);
                    let updated = CampaignModel {
                        current_amount: c.current_amount + amount,
                        status: if c.current_amount + amount >= c.target_amount {
                            CampaignStatus::Completed
                        } else {
                            CampaignStatus::Active
                        },
                        ..c
                    };
                    &&& r == Ok::<(), Error>(())
                    &&& final(self)@ == (ContractView {
                        campaigns: pre.campaigns.update(campaign_id - 1, updated),
                        donations: pre.donations.push(
                            DonationModel {
                                campaign_id: campaign_id as int,
                                donor: caller,
                                amount: amount as int,
                                timestamp: now as int,
                                is_anonymous: is_anonymous,
                            },
                        ),
                        ..pre
                    })
                }
            }),
    {
        if amount <= 0 {
            return Err(Error::InvalidArgument);
        }
        if campaign_id == 0 || campaign_id as usize > self.campaigns.len() {
            return Err(Error::NotFound);
        }
        let k: usize = (campaign_id - 1) as usize;
        let cur: i128 = self.campaigns[k].current_amount;
        let tgt: i128 = self.campaigns[k].target_amount;
        if self.campaigns[k].status != CampaignStatus::Active {
            return Err(Error::InvalidState);
        }
        let ghost pre = self@;
        proof {
            assert forall|j: int| 0 <= j < pre.donations.len() implies (#[trigger] pre.donations[j]).amount
                >= 0 by {}
            lemma_total_for_le_total(pre.donations, campaign_id as int);
            assert(pre.campaigns[k as int] == self.campaigns@[k as int]@);
        }
        let new_amount: i128 = cur + amount;
        let mut camp = self.campaigns[k].clone();
        camp.current_amount = new_amount;
        if new_amount >= tgt {
            camp.status = CampaignStatus::Completed;
        }
        let ghost updated = camp@;
        self.campaigns[k] = camp;
        let don = Donation { campaign_id, donor: caller, amount, timestamp: now, is_anonymous };
        self.donations.push(don);
        proof {
            let post = self@;
            let dm = don@;
            assert(post.campaigns =~= pre.campaigns.update(k as int, updated));
            assert(post.donations =~= pre.donations.push(dm));
            lemma_total_push(pre.donations, dm);
            assert forall|i: int|
                0 <= i < post.campaigns.len() implies (#[trigger] post.campaigns[i]).current_amount
                    <= spec_total_for(post.donations, post.campaigns[i].id) by {
                lemma_total_for_push(pre.donations, dm, post.campaigns[i].id);
                if i != k as int {
                    assert(post.campaigns[i] == pre.campaigns[i]);
                }
            }
            assert(pre.donations.is_prefix_of(post.donations)) by {
                assert(post.donations.subrange(0, pre.donations.len() as int) =~= pre.donations);
            }
            assert(updated =~= (CampaignModel {
                current_amount: campaign_of(pre, campaign_id as int).current_amount + amount,
                status: if campaign_of(pre, campaign_id as int).current_amount + amount
                    >= campaign_of(pre, campaign_id as int).target_amount {
                    CampaignStatus::Completed
                } else {
                    CampaignStatus::Active
                },
                ..campaign_of(pre, campaign_id as int)
            }));
            assert(post =~= (ContractView {
                campaigns: pre.campaigns.update(campaign_id - 1, updated),
                donations: pre.donations.push(dm),
                ..pre
            }));
        }
        Ok(())
    }

    /// Forces a campaign's status to `Closed`, whatever its status and
    /// collected amount: funds already collected are kept and stay
    /// withdrawable. Only the campaign's recipient may close it
    /// (`Unauthorized` otherwise); an unknown id fails `NotFound`.
    /// Re-closing an already `Closed` campaign is accepted as a no-op: it
    /// reproduces the same terminal state.
    pub fn close_campaign(&mut self, caller: Identity, campaign_id: u32) -> (r: Result<
        (),
        Error,
    >)
        requires
            old(self).wf(),
        ensures
            final(self).wf(),
            evolves(old(self)@, final(self)@),
            ({
                let pre = old(self)@;
                if !contains_id(pre, campaign_id as int) {
                    r == Err::<(), Error>(Error::NotFound) && final(self)@ == pre
                } else if campaign_of(pre, campaign_id as int).recipient != caller {
                    r == Err::<(), Error>(Error::Unauthorized) && final(self)@ == pre
                } else {
                    &&& r == Ok::<(), Error>(())
                    &&& final(self)@ == (ContractView {
                        campaigns: pre.campaigns.update(
                            campaign_id - 1,
                            (CampaignModel {
                                status: CampaignStatus::Closed,
                                ..campaign_of(pre, campaign_id as int)
                            }),
                        ),
                        ..pre
                    })
                }
            }),
    {
        if campaign_id == 0 || campaign_id as usize > self.campaigns.len() {
            return Err(Error::NotFound);
        }
        let k: usize = (campaign_id - 1) as usize;
        if self.campaigns[k].recipient != caller {
            return Err(Error::Unauthorized);
        }
        let ghost pre = self@;
        let mut camp = self.campaigns[k].clone();
        camp.status = CampaignStatus::Closed;
        let ghost updated = camp@;
        self.campaigns[k] = camp;
        proof {
            let post = self@;
            assert(post.campaigns =~= pre.campaigns.update(k as int, updated));
            assert(post.donations =~= pre.donations);
            assert forall|i: int|
                0 <= i < post.campaigns.len() implies (#[trigger] post.campaigns[i]).current_amount
                    <= spec_total_for(post.donations, post.campaigns[i].id) by {
                if i != k as int {
                    assert(post.campaigns[i] == pre.campaigns[i]);
                }
            }
            assert(pre.donations.is_prefix_of(post.donations)) by {
                assert(post.donations.subrange(0, pre.donations.len() as int) =~= pre.donations);
            }
            assert(post =~= (ContractView {
                campaigns: pre.campaigns.update(
                    campaign_id - 1,
                    (CampaignModel {
                        status: CampaignStatus::Closed,
                        ..campaign_of(pre, campaign_id as int)
                    }),
                ),
                ..pre
            }));
        }
        Ok(())
    }

    /// Pays the collected funds out to the recipient. Only the recipient
    /// may withdraw (`Unauthorized`), the campaign must exist (`NotFound`)
    /// and must be exactly `Completed` (`InvalidState`), and there must be
    /// something to pay out (`InsufficientFunds`). On success the call
    /// returns exactly the collected amount, zeroes it, and closes the
    /// campaign.
    pub fn withdraw(&mut self, caller: Identity, campaign_id: u32) -> (r: Result<i128, Error>)
        requires
            old(self).wf(),
        ensures
            final(self).wf(),
            evolves(old(self)@, final(self)@),
            ({
                let pre = old(self)@;
                if !contains_id(pre, campaign_id as int) {
                    r == Err::<i128, Error>(Error::NotFound) && final(self)@ == pre
                } else if campaign_of(pre, campaign_id as int).recipient != caller {
                    r == Err::<i128, Error>(Error::Unauthorized) && final(self)@ == pre
                } else if campaign_of(pre, campaign_id as int).status != CampaignStatus::Completed {
                    r == Err::<i128, Error>(Error::InvalidState) && final(self)@ == pre
                } else if campaign_of(pre, campaign_id as int).current_amount == 0 {
                    r == Err::<i128, Error>(Error::InsufficientFunds) && final(self)@ == pre
                } else {
                    &&& r matches Ok(a) && a as int == campaign_of(
                        pre,
                        campaign_id as int,
                    ).current_amount
                    &&& final(self)@ == (ContractView {
                        campaigns: pre.campaigns.update(
                            campaign_id - 1,
                            (CampaignModel {
                                current_amount: 0,
                                status: CampaignStatus::Closed,
                                ..campaign_of(pre, campaign_id as int)
                            }),
                        ),
                        ..pre
                    })
                }
            }),
    {
        if campaign_id == 0 || campaign_id as usize > self.campaigns.len() {
            return Err(Error::NotFound);
        }
        let k: usize = (campaign_id - 1) as usize;
        if self.campaigns[k].recipient != caller {
            return Err(Error::Unauthorized);
        }
        if self.campaigns[k].status != CampaignStatus::Completed {
            return Err(Error::InvalidState);
        }
        let amount: i128 = self.campaigns[k].current_amount;
        if amount == 0 {
            return Err(Error::InsufficientFunds);
        }
        let ghost pre = self@;
        let mut camp = self.campaigns[k].clone();
        camp.current_amount = 0;
        camp.status = CampaignStatus::Closed;
        let ghost updated = camp@;
        self.campaigns[k] = camp;
        proof {
            let post = self@;
            assert(post.campaigns =~= pre.campaigns.update(k as int, updated));
            assert(post.donations =~= pre.donations);
            assert forall|j: int| 0 <= j < pre.donations.len() implies (#[trigger] pre.donations[j]).amount
                >= 0 by {}
            assert forall|i: int|
                0 <= i < post.campaigns.len() implies (#[trigger] post.campaigns[i]).current_amount
                    <= spec_total_for(post.donations, post.campaigns[i].id) by {
                if i == k as int {
                    lemma_total_for_nonneg(pre.donations, post.campaigns[i].id);
                } else {
                    assert(post.campaigns[i] == pre.campaigns[i]);
                }
            }
            assert(pre.donations.is_prefix_of(post.donations)) by {
                assert(post.donations.subrange(0, pre.donations.len() as int) =~= pre.donations);
            }
            assert(post =~= (ContractView {
                campaigns: pre.campaigns.update(
                    campaign_id - 1,
                    (CampaignModel {
                        current_amount: 0,
                        status: CampaignStatus::Closed,
                        ..campaign_of(pre, campaign_id as int)
                    }),
                ),
                ..pre
            }));
        }
        Ok(amount)
    }

    /// Every stored campaign, ascending by id (the order of creation).
    pub fn get_campaigns(&self) -> (r: Vec<Campaign>)
        ensures
            campaign_views(r@) == self@.campaigns,
    {
        let mut r: Vec<Campaign> = Vec::new();
        let mut i: usize = 0;
        while i < self.campaigns.len()
            invariant
                i <= self.campaigns.len(),
                r@.len() == i,
                forall|j: int| 0 <= j < i as int ==> #[trigger] r@[j] == self.campaigns@[j],
            decreases self.campaigns.len() - i,
        {
            r.push(self.campaigns[i].clone());
            i = i + 1;
        }
        proof {
            assert(r@ =~= self.campaigns@);
        }
        r
    }

    /// The stored campaign with the given id, or `NotFound`.
    pub fn get_campaign(&self, campaign_id: u32) -> (r: Result<Campaign, Error>)
        ensures
            contains_id(self@, campaign_id as int) ==> (r matches Ok(c) && c@ == campaign_of(
                self@,
                campaign_id as int,
            )),
            !contains_id(self@, campaign_id as int) ==> r == Err::<Campaign, Error>(
                Error::NotFound,
            ),
    {
        if campaign_id == 0 || campaign_id as usize > self.campaigns.len() {
            return Err(Error::NotFound);
        }
        let k: usize = (campaign_id - 1) as usize;
        Ok(self.campaigns[k].clone())
    }

    /// The donations recorded for one campaign, in insertion order. An id
    /// no campaign carries yields the empty list.
    pub fn get_campaign_donations(&self, campaign_id: u32) -> (r: Vec<Donation>)
        ensures
            donation_views(r@) == spec_donations_for(self@.donations, campaign_id as int),
    {
        let mut r: Vec<Donation> = Vec::new();
        let mut i: usize = 0;
        while i < self.donations.len()
            invariant
                i <= self.donations.len(),
                donation_views(r@) == spec_donations_for(
                    self@.donations.subrange(0, i as int),
                    campaign_id as int,
                ),
            decreases self.donations.len() - i,
        {
            let ghost prefix = donation_views(r@);
            let d = self.donations[i];
            proof {
                lemma_donations_for_prefix_step(self@.donations, i as int, campaign_id as int);
                assert(self@.donations[i as int] == d@);
            }
            if d.campaign_id == campaign_id {
                r.push(d);
                proof {
                    assert(donation_views(r@) =~= prefix.push(d@));
                }
            }
            i = i + 1;
        }
        proof {
            assert(self@.donations.subrange(0, self.donations.len() as int) =~= self@.donations);
        }
        r
    }

    /// The donations recorded for one campaign, in insertion order: the
    /// same query as `get_campaign_donations`, kept under both names.
    pub fn get_donations(&self, campaign_id: u32) -> (r: Vec<Donation>)
        ensures
            donation_views(r@) == spec_donations_for(self@.donations, campaign_id as int),
    {
        self.get_campaign_donations(campaign_id)
    }

    /// Every recorded donation across all campaigns, in insertion order.
    pub fn get_all_donations(&self) -> (r: Vec<Donation>)
        ensures
            donation_views(r@) == self@.donations,
    {
        let mut r: Vec<Donation> = Vec::new();
        let mut i: usize = 0;
        while i < self.donations.len()
            invariant
                i <= self.donations.len(),
                r@.len() == i,
                forall|j: int| 0 <= j < i as int ==> #[trigger] r@[j] == self.donations@[j],
            decreases self.donations.len() - i,
        {
            let d = self.donations[i];
            r.push(d);
            i = i + 1;
        }
        proof {
            assert(r@ =~= self.donations@);
        }
        r
    }

    /// The cumulative sum of every donation amount ever recorded, across
    /// all campaigns. This total is monotonic and auditable: it counts
    /// history, so a withdrawal does not lower it.
    pub fn get_total_donations(&self) -> (r: i128)
        requires
            self.wf(),
        ensures
            r as int == spec_total(self@.donations),
    {
        let mut total: i128 = 0;
        let mut i: usize = 0;
        while i < self.donations.len()
            invariant
                self.wf(),
                i <= self.donations.len(),
                total as int == spec_total(self@.donations.subrange(0, i as int)),
            decreases self.donations.len() - i,
        {
            proof {
                let dv = self@.donations;
                assert forall|j: int| 0 <= j < dv.len() implies (#[trigger] dv[j]).amount >= 0 by {}
                lemma_total_prefix_step(dv, i as int);
                lemma_total_prefix_le(dv, i as int + 1);
                assert forall|j: int|
                    0 <= j < dv.subrange(0, i as int).len() implies (#[trigger] dv.subrange(
                    0,
                    i as int,
                )[j]).amount >= 0 by {
                    assert(dv.subrange(0, i as int)[j] == dv[j]);
                }
                lemma_total_nonneg(dv.subrange(0, i as int));
                assert(dv[i as int] == self.donations@[i as int]@);
            }
            total = total + self.donations[i].amount;
            i = i + 1;
        }
        proof {
            assert(self@.donations.subrange(0, self.donations.len() as int) =~= self@.donations);
        }
        total
    }
}

/// Law: under `evolves` — which every mutating operation guarantees — a
/// campaign's status only ever moves forward: a `Closed` campaign stays
/// `Closed`, and a `Completed` campaign never returns to `Active`.
pub proof fn lemma_status_forward_only(a: CampaignModel, b: CampaignModel)
    requires
        campaign_evolves(a, b),
    ensures
        a.status == CampaignStatus::Closed ==> b.status == CampaignStatus::Closed,
        a.status == CampaignStatus::Completed ==> b.status != CampaignStatus::Active,
{
}

/// Law: under `evolves`, a `Closed` campaign is entirely frozen: no
/// operation changes any of its fields again.
pub proof fn lemma_closed_is_frozen(a: CampaignModel, b: CampaignModel)
    requires
        campaign_evolves(a, b),
        a.status == CampaignStatus::Closed,
    ensures
        b == a,
{
    assert(b =~= a);
}

/// Law: in every well-formed state the stored campaign ids are exactly
/// 1, 2, ... in storage order: a strictly increasing sequence starting at
/// 1, with no gaps and no reuse.
pub proof fn lemma_ids_sequential(v: ContractView)
    requires
        state_inv(v),
    ensures
        forall|i: int| 0 <= i < v.campaigns.len() ==> (#[trigger] v.campaigns[i]).id == i + 1,
        forall|i: int, j: int|
            #![trigger v.campaigns[i], v.campaigns[j]]
            0 <= i < j < v.campaigns.len() ==> v.campaigns[i].id < v.campaigns[j].id,
{
}

} // verus!
