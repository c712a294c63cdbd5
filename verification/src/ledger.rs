use vstd::prelude::*;

use crate::types::DonationModel;

verus! {

/// Sum of every recorded donation amount, over the whole ledger. This is
/// the cumulative, auditable total: it never decreases, because the ledger
/// only grows by appending and records are never edited.
pub open spec fn spec_total(s: Seq<DonationModel>) -> int
    decreases s.len(),
{
    if s.len() == 0 {
        0
    } else {
        spec_total(s.drop_last()) + s.last().amount
    }
}

/// Sum of the recorded donation amounts for one campaign.
pub open spec fn spec_total_for(s: Seq<DonationModel>, id: int) -> int
    decreases s.len(),
{
    if s.len() == 0 {
        0
    } else {
        spec_total_for(s.drop_last(), id) + if s.last().campaign_id == id {
            s.last().amount
        } else {
            0
        }
    }
}

/// The donations recorded for one campaign, in insertion order.
pub open spec fn spec_donations_for(s: Seq<DonationModel>, id: int) -> Seq<DonationModel>
    decreases s.len(),
{
    if s.len() == 0 {
        Seq::empty()
    } else if s.last().campaign_id == id {
        spec_donations_for(s.drop_last(), id).push(s.last())
    } else {
        spec_donations_for(s.drop_last(), id)
    }
}

/// Appending a donation raises the ledger total by exactly its amount.
pub proof fn lemma_total_push(s: Seq<DonationModel>, d: DonationModel)
    ensures
        spec_total(s.push(d)) == spec_total(s) + d.amount,
{
    assert(s.push(d).drop_last() =~= s);
}

/// Appending a donation raises one campaign's total by its amount and
/// leaves every other campaign's total unchanged.
pub proof fn lemma_total_for_push(s: Seq<DonationModel>, d: DonationModel, id: int)
    ensures
        spec_total_for(s.push(d), id) == spec_total_for(s, id) + if d.campaign_id == id {
            d.amount
        } else {
            0
        },
{
    assert(s.push(d).drop_last() =~= s);
}

/// A ledger of nonnegative amounts has a nonnegative total.
pub proof fn lemma_total_nonneg(s: Seq<DonationModel>)
    requires
        forall|j: int| 0 <= j < s.len() ==> (#[trigger] s[j]).amount >= 0,
    ensures
        spec_total(s) >= 0,
    decreases s.len(),
{
    if s.len() > 0 {
        assert forall|j: int| 0 <= j < s.drop_last().len() implies (#[trigger] s.drop_last()[j]).amount
            >= 0 by {
            assert(s.drop_last()[j] == s[j]);
        }
        lemma_total_nonneg(s.drop_last());
        assert(s.last() == s[s.len() - 1]);
    }
}

/// A ledger of nonnegative amounts gives every campaign a nonnegative total.
pub proof fn lemma_total_for_nonneg(s: Seq<DonationModel>, id: int)
    requires
        forall|j: int| 0 <= j < s.len() ==> (#[trigger] s[j]).amount >= 0,
    ensures
        spec_total_for(s, id) >= 0,
    decreases s.len(),
{
    if s.len() > 0 {
        assert forall|j: int| 0 <= j < s.drop_last().len() implies (#[trigger] s.drop_last()[j]).amount
            >= 0 by {
            assert(s.drop_last()[j] == s[j]);
        }
        lemma_total_for_nonneg(s.drop_last(), id);
        assert(s.last() == s[s.len() - 1]);
    }
}

/// One campaign's total never exceeds the ledger-wide total, as long as no
/// recorded amount is negative.
pub proof fn lemma_total_for_le_total(s: Seq<DonationModel>, id: int)
    requires
        forall|j: int| 0 <= j < s.len() ==> (#[trigger] s[j]).amount >= 0,
    ensures
        spec_total_for(s, id) <= spec_total(s),
    decreases s.len(),
{
    if s.len() > 0 {
        assert forall|j: int| 0 <= j < s.drop_last().len() implies (#[trigger] s.drop_last()[j]).amount
            >= 0 by {
            assert(s.drop_last()[j] == s[j]);
        }
        lemma_total_for_le_total(s.drop_last(), id);
        assert(s.last() == s[s.len() - 1]);
    }
}

/// Extending a prefix of the ledger by one record raises the prefix total
/// by that record's amount.
pub proof fn lemma_total_prefix_step(s: Seq<DonationModel>, i: int)
    requires
        0 <= i < s.len(),
    ensures
        spec_total(s.subrange(0, i + 1)) == spec_total(s.subrange(0, i)) + s[i].amount,
{
    assert(s.subrange(0, i + 1).drop_last() =~= s.subrange(0, i));
    assert(s.subrange(0, i + 1).last() == s[i]);
}

/// The total over a prefix of the ledger never exceeds the total over the
/// whole ledger, as long as no recorded amount is negative.
pub proof fn lemma_total_prefix_le(s: Seq<DonationModel>, i: int)
    requires
        0 <= i <= s.len(),
        forall|j: int| 0 <= j < s.len() ==> (#[trigger] s[j]).amount >= 0,
    ensures
        spec_total(s.subrange(0, i)) <= spec_total(s),
    decreases s.len() - i,
{
    if i == s.len() {
        assert(s.subrange(0, i) =~= s);
    } else {
        lemma_total_prefix_step(s, i);
        assert(s[i].amount >= 0);
        lemma_total_prefix_le(s, i + 1);
    }
}

/// Extending a prefix of the ledger by one record extends at most that
/// record's own campaign list.
pub proof fn lemma_donations_for_prefix_step(s: Seq<DonationModel>, i: int, id: int)
    requires
        0 <= i < s.len(),
    ensures
        spec_donations_for(s.subrange(0, i + 1), id) == if s[i].campaign_id == id {
            spec_donations_for(s.subrange(0, i), id).push(s[i])
        } else {
            spec_donations_for(s.subrange(0, i), id)
        },
{
    assert(s.subrange(0, i + 1).drop_last() =~= s.subrange(0, i));
    assert(s.subrange(0, i + 1).last() == s[i]);
}

} // verus!
