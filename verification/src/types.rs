use vstd::prelude::*;

verus! {

/// A principal taking part in the system: the admin, a campaign recipient,
/// or a donor. The host that carries calls into the library is expected to
/// have verified, before any mutating call, that the caller actually
/// controls the identity it claims; the library itself only compares
/// identities against stored roles.
#[derive(Clone, Copy, Debug, PartialEq, Eq, Structural)]
pub struct Identity {
    pub id: u64,
}

/// The closed set of causes a campaign can collect for.
#[derive(Clone, Copy, Debug, PartialEq, Eq, Structural)]
pub enum CampaignCategory {
    Zakat,
    Pendidikan,
    Kesehatan,
    BencanaAlam,
    UMKM,
}

/// The lifecycle of a campaign. `Active` is the initial status, `Closed` is
/// terminal; the only legal moves are `Active -> Completed`,
/// `Active -> Closed` and `Completed -> Closed`.
#[derive(Clone, Copy, Debug, PartialEq, Eq, Structural)]
pub enum CampaignStatus {
    Active,
    Completed,
    Closed,
}

/// Position of a status along the lifecycle: later statuses rank higher.
pub open spec fn status_rank(s: CampaignStatus) -> int {
    match s {
        CampaignStatus::Active => 0,
        CampaignStatus::Completed => 1,
        CampaignStatus::Closed => 2,
    }
}

/// `b` is reachable from `a` by zero or more legal transitions: the
/// lifecycle only ever moves forward.
pub open spec fn status_le(a: CampaignStatus, b: CampaignStatus) -> bool {
    status_rank(a) <= status_rank(b)
}

/// A fundraising goal. Stored permanently once created; `current_amount`
/// and `status` are the only fields an operation ever changes.
pub struct Campaign {
    pub id: u32,
    pub title: String,
    pub description: String,
    pub category: CampaignCategory,
    pub target_amount: i128,
    pub current_amount: i128,
    pub recipient: Identity,
    pub status: CampaignStatus,
    pub created_at: u64,
}

/// The mathematical value of a stored campaign: integers are unbounded and
/// text is a sequence of characters.
#[verifier::ext_equal]
pub ghost struct CampaignModel {
    pub id: int,
    pub title: Seq<char>,
    pub description: Seq<char>,
    pub category: CampaignCategory,
    pub target_amount: int,
    pub current_amount: int,
    pub recipient: Identity,
    pub status: CampaignStatus,
    pub created_at: int,
}

impl View for Campaign {
    type V = CampaignModel;

    open spec fn view(&self) -> CampaignModel {
        CampaignModel {
            id: self.id as int,
            title: self.title@,
            description: self.description@,
            category: self.category,
            target_amount: self.target_amount as int,
            current_amount: self.current_amount as int,
            recipient: self.recipient,
            status: self.status,
            created_at: self.created_at as int,
        }
    }
}

impl Clone for Campaign {
    fn clone(&self) -> (r: Self)
        ensures
            r == *self,
    {
        Campaign {
            id: self.id,
            title: self.title.clone(),
            description: self.description.clone(),
            category: self.category,
            target_amount: self.target_amount,
            current_amount: self.current_amount,
            recipient: self.recipient,
            status: self.status,
            created_at: self.created_at,
        }
    }
}

/// One recorded contribution. Immutable once written: the ledger only ever
/// grows by appending. `is_anonymous` is a display hint carried along
/// unread; it grants no access and hides nothing from the ledger.
#[derive(Clone, Copy)]
pub struct Donation {
    pub campaign_id: u32,
    pub donor: Identity,
    pub amount: i128,
    pub timestamp: u64,
    pub is_anonymous: bool,
}

/// The mathematical value of a recorded donation.
#[verifier::ext_equal]
pub ghost struct DonationModel {
    pub campaign_id: int,
    pub donor: Identity,
    pub amount: int,
    pub timestamp: int,
    pub is_anonymous: bool,
}

impl View for Donation {
    type V = DonationModel;

    open spec fn view(&self) -> DonationModel {
        DonationModel {
            campaign_id: self.campaign_id as int,
            donor: self.donor,
            amount: self.amount as int,
            timestamp: self.timestamp as int,
            is_anonymous: self.is_anonymous,
        }
    }
}

/// The views of a sequence of stored campaigns, element by element.
pub open spec fn campaign_views(s: Seq<Campaign>) -> Seq<CampaignModel> {
    s.map_values(|c: Campaign| c@)
}

/// The views of a sequence of recorded donations, element by element.
pub open spec fn donation_views(s: Seq<Donation>) -> Seq<DonationModel> {
    s.map_values(|d: Donation| d@)
}

} // verus!
