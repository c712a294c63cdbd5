use zakat::CampaignCategory;
use zakat::CampaignStatus;
use zakat::Error;
use zakat::Identity;
use zakat::ZakatContract;

fn fresh_campaign(target: i128) -> (ZakatContract, Identity, Identity, u32) {
    let mut contract = ZakatContract::new();
    let admin = Identity { id: 1 };
    let recipient = Identity { id: 2 };
    contract.initialize(admin).unwrap();
    let campaign_id = contract
        .create_campaign(
            admin,
            "Campaign".to_string(),
            "Description".to_string(),
            CampaignCategory::Zakat,
            target,
            recipient,
            100,
        )
        .unwrap();
    (contract, admin, recipient, campaign_id)
}

#[test]
fn test_new_campaign_starts_empty_and_active() {
    let (contract, _, recipient, id) = fresh_campaign(100);
    let campaign = contract.get_campaign(id).unwrap();
    assert_eq!(campaign.current_amount, 0);
    assert_eq!(campaign.status, CampaignStatus::Active);
    assert_eq!(campaign.target_amount, 100);
    assert_eq!(campaign.recipient, recipient);
    assert_eq!(campaign.created_at, 100);
}

#[test]
fn test_overfunded_lifecycle() {
    let (mut contract, _, recipient, id) = fresh_campaign(100);
    let donor = Identity { id: 3 };

    contract.donate(donor, id, 60, false, 101).unwrap();
    let campaign = contract.get_campaign(id).unwrap();
    assert_eq!(campaign.current_amount, 60);
    assert_eq!(campaign.status, CampaignStatus::Active);

    contract.donate(donor, id, 50, false, 102).unwrap();
    let campaign = contract.get_campaign(id).unwrap();
    assert_eq!(campaign.current_amount, 110);
    assert_eq!(campaign.status, CampaignStatus::Completed);

    let withdrawn = contract.withdraw(recipient, id).unwrap();
    assert_eq!(withdrawn, 110);
    let campaign = contract.get_campaign(id).unwrap();
    assert_eq!(campaign.current_amount, 0);
    assert_eq!(campaign.status, CampaignStatus::Closed);

    let again = contract.withdraw(recipient, id);
    assert_eq!(again, Err(Error::InvalidState));
}

#[test]
fn test_donate_zero_leaves_state_unchanged() {
    let (mut contract, _, _, id) = fresh_campaign(100);
    let donor = Identity { id: 3 };

    let attempt = contract.donate(donor, id, 0, false, 101);
    assert_eq!(attempt, Err(Error::InvalidArgument));

    let campaign = contract.get_campaign(id).unwrap();
    assert_eq!(campaign.current_amount, 0);
    assert_eq!(campaign.status, CampaignStatus::Active);
    assert_eq!(contract.get_all_donations().len(), 0);
    assert_eq!(contract.get_total_donations(), 0);
}

#[test]
fn test_negative_donation_rejected() {
    let (mut contract, _, _, id) = fresh_campaign(100);
    let donor = Identity { id: 3 };

    let attempt = contract.donate(donor, id, -5, false, 101);
    assert_eq!(attempt, Err(Error::InvalidArgument));
    assert_eq!(contract.get_campaign(id).unwrap().current_amount, 0);
}

#[test]
fn test_withdraw_by_non_recipient_leaves_state_unchanged() {
    let (mut contract, _, _, id) = fresh_campaign(100);
    let donor = Identity { id: 3 };
    let outsider = Identity { id: 9 };

    contract.donate(donor, id, 100, false, 101).unwrap();
    let attempt = contract.withdraw(outsider, id);
    assert_eq!(attempt, Err(Error::Unauthorized));

    let campaign = contract.get_campaign(id).unwrap();
    assert_eq!(campaign.current_amount, 100);
    assert_eq!(campaign.status, CampaignStatus::Completed);
}

#[test]
fn test_zero_target_consumes_no_id() {
    let mut contract = ZakatContract::new();
    let admin = Identity { id: 1 };
    let recipient = Identity { id: 2 };
    contract.initialize(admin).unwrap();

    let attempt = contract.create_campaign(
        admin,
        "Rejected".to_string(),
        "Zero target".to_string(),
        CampaignCategory::Zakat,
        0,
        recipient,
        100,
    );
    assert_eq!(attempt, Err(Error::InvalidArgument));
    assert_eq!(contract.get_campaigns().len(), 0);

    let id = contract
        .create_campaign(
            admin,
            "Accepted".to_string(),
            "Positive target".to_string(),
            CampaignCategory::Zakat,
            1,
            recipient,
            100,
        )
        .unwrap();
    assert_eq!(id, 1);
}

#[test]
fn test_close_keeps_collected_funds() {
    let (mut contract, _, recipient, id) = fresh_campaign(100);
    let donor = Identity { id: 3 };

    contract.donate(donor, id, 40, false, 101).unwrap();
    contract.close_campaign(recipient, id).unwrap();

    let campaign = contract.get_campaign(id).unwrap();
    assert_eq!(campaign.status, CampaignStatus::Closed);
    assert_eq!(campaign.current_amount, 40);

    let attempt = contract.donate(donor, id, 10, false, 102);
    assert_eq!(attempt, Err(Error::InvalidState));
}

#[test]
fn test_closed_campaign_is_terminal() {
    let (mut contract, _, recipient, id) = fresh_campaign(100);
    let donor = Identity { id: 3 };

    contract.close_campaign(recipient, id).unwrap();
    assert_eq!(contract.get_campaign(id).unwrap().status, CampaignStatus::Closed);

    let attempt = contract.donate(donor, id, 10, false, 101);
    assert_eq!(attempt, Err(Error::InvalidState));
    assert_eq!(contract.get_campaign(id).unwrap().status, CampaignStatus::Closed);

    let attempt = contract.withdraw(recipient, id);
    assert_eq!(attempt, Err(Error::InvalidState));
    assert_eq!(contract.get_campaign(id).unwrap().status, CampaignStatus::Closed);

    contract.close_campaign(recipient, id).unwrap();
    assert_eq!(contract.get_campaign(id).unwrap().status, CampaignStatus::Closed);
}

#[test]
fn test_completed_campaign_never_reverts_to_active() {
    let (mut contract, _, _, id) = fresh_campaign(100);
    let donor = Identity { id: 3 };

    contract.donate(donor, id, 100, false, 101).unwrap();
    assert_eq!(contract.get_campaign(id).unwrap().status, CampaignStatus::Completed);

    let attempt = contract.donate(donor, id, 10, false, 102);
    assert_eq!(attempt, Err(Error::InvalidState));
    assert_eq!(contract.get_campaign(id).unwrap().status, CampaignStatus::Completed);
    assert_eq!(contract.get_campaign(id).unwrap().current_amount, 100);
}

#[test]
fn test_second_initialize_fails() {
    let mut contract = ZakatContract::new();
    let admin = Identity { id: 1 };
    let other = Identity { id: 7 };

    contract.initialize(admin).unwrap();
    let attempt = contract.initialize(other);
    assert_eq!(attempt, Err(Error::AlreadyInitialized));
    assert_eq!(contract.get_admin(), Some(admin));
}

#[test]
fn test_create_requires_admin() {
    let mut contract = ZakatContract::new();
    let admin = Identity { id: 1 };
    let recipient = Identity { id: 2 };
    let outsider = Identity { id: 9 };

    let before_init = contract.create_campaign(
        admin,
        "Too early".to_string(),
        "No admin yet".to_string(),
        CampaignCategory::Zakat,
        100,
        recipient,
        100,
    );
    assert_eq!(before_init, Err(Error::Unauthorized));

    contract.initialize(admin).unwrap();
    let by_outsider = contract.create_campaign(
        outsider,
        "Not admin".to_string(),
        "Rejected".to_string(),
        CampaignCategory::Zakat,
        100,
        recipient,
        100,
    );
    assert_eq!(by_outsider, Err(Error::Unauthorized));
    assert_eq!(contract.get_campaigns().len(), 0);
}

#[test]
fn test_close_requires_recipient() {
    let (mut contract, admin, _, id) = fresh_campaign(100);

    let attempt = contract.close_campaign(admin, id);
    assert_eq!(attempt, Err(Error::Unauthorized));
    assert_eq!(contract.get_campaign(id).unwrap().status, CampaignStatus::Active);
}

#[test]
fn test_unknown_campaign_not_found() {
    let mut contract = ZakatContract::new();
    let admin = Identity { id: 1 };
    let donor = Identity { id: 3 };
    contract.initialize(admin).unwrap();

    assert!(matches!(contract.get_campaign(0), Err(Error::NotFound)));
    assert!(matches!(contract.get_campaign(1), Err(Error::NotFound)));
    assert_eq!(contract.donate(donor, 1, 10, false, 100), Err(Error::NotFound));
    assert_eq!(contract.close_campaign(admin, 1), Err(Error::NotFound));
    assert_eq!(contract.withdraw(admin, 1), Err(Error::NotFound));
}

#[test]
fn test_donation_record_fields() {
    let (mut contract, _, _, id) = fresh_campaign(100);
    let donor = Identity { id: 3 };

    contract.donate(donor, id, 25, true, 123).unwrap();

    let all = contract.get_all_donations();
    assert_eq!(all.len(), 1);
    assert_eq!(all[0].campaign_id, id);
    assert_eq!(all[0].donor, donor);
    assert_eq!(all[0].amount, 25);
    assert_eq!(all[0].timestamp, 123);
    assert_eq!(all[0].is_anonymous, true);
}

#[test]
fn test_get_donations_matches_campaign_donations() {
    let mut contract = ZakatContract::new();
    let admin = Identity { id: 1 };
    let recipient = Identity { id: 2 };
    let donor = Identity { id: 3 };
    contract.initialize(admin).unwrap();
    let id1 = contract
        .create_campaign(
            admin,
            "First".to_string(),
            "Description".to_string(),
            CampaignCategory::Zakat,
            100,
            recipient,
            100,
        )
        .unwrap();
    let id2 = contract
        .create_campaign(
            admin,
            "Second".to_string(),
            "Description".to_string(),
            CampaignCategory::UMKM,
            100,
            recipient,
            100,
        )
        .unwrap();

    contract.donate(donor, id1, 10, false, 101).unwrap();
    contract.donate(donor, id2, 20, false, 102).unwrap();
    contract.donate(donor, id1, 30, false, 103).unwrap();

    let direct = contract.get_campaign_donations(id1);
    let alias = contract.get_donations(id1);
    assert_eq!(direct.len(), 2);
    assert_eq!(alias.len(), 2);
    assert_eq!(direct[0].amount, 10);
    assert_eq!(direct[1].amount, 30);
    assert_eq!(alias[0].amount, 10);
    assert_eq!(alias[1].amount, 30);

    assert_eq!(contract.get_campaign_donations(99).len(), 0);
}

#[test]
fn test_total_donations_counts_history_after_withdraw() {
    let (mut contract, _, recipient, id) = fresh_campaign(50);
    let donor = Identity { id: 3 };

    contract.donate(donor, id, 50, false, 101).unwrap();
    let withdrawn = contract.withdraw(recipient, id).unwrap();
    assert_eq!(withdrawn, 50);

    assert_eq!(contract.get_campaign(id).unwrap().current_amount, 0);
    assert_eq!(contract.get_total_donations(), 50);
}
