use airvent_subscription::AirventError;
use airvent_subscription::EarnPoints;
use airvent_subscription::Identity;
use airvent_subscription::InitializeSubscription;
use airvent_subscription::SubscriptionLedger;
use airvent_subscription::Tier;
use airvent_subscription::UpgradeSubscription;
use airvent_subscription::UserState;

const JOINED: i64 = 1_700_000_000;

fn id(n: u64) -> Identity {
    Identity { id: n }
}

fn ledger_with_user() -> SubscriptionLedger {
    let mut l = SubscriptionLedger::new();
    let r = l.initialize_free_subscription(
        InitializeSubscription { user: id(1), authority: id(2), bump: 7 },
        JOINED,
    );
    assert_eq!(r, Ok(()));
    l
}

fn free_record(points: u64) -> UserState {
    UserState {
        owner: id(1),
        authority: id(2),
        tier: Tier::Free,
        offchain_points: points,
        hardware_id: Vec::new(),
        joined_at: JOINED,
        bump: 7,
    }
}

#[test]
fn create_stores_initial_record() {
    let l = ledger_with_user();
    let st = l.get_subscription(id(1)).unwrap();
    assert_eq!(st.owner, id(1));
    assert_eq!(st.authority, id(2));
    assert_eq!(st.tier, Tier::Free);
    assert_eq!(st.offchain_points, 0);
    assert!(st.hardware_id.is_empty());
    assert_eq!(st.joined_at, JOINED);
    assert_eq!(st.bump, 7);
}

#[test]
fn create_for_existing_owner_fails_and_never_overwrites() {
    let mut l = ledger_with_user();
    let r = l.earn_free_points(EarnPoints { owner: id(1), authority: id(2) }, 10);
    assert_eq!(r, Ok(()));
    let again = l.initialize_free_subscription(
        InitializeSubscription { user: id(1), authority: id(9), bump: 3 },
        JOINED + 50,
    );
    assert_eq!(again, Err(AirventError::RecordAlreadyExists));
    let st = l.get_subscription(id(1)).unwrap();
    assert_eq!(st.offchain_points, 10);
    assert_eq!(st.authority, id(2));
    assert_eq!(st.joined_at, JOINED);
    assert_eq!(st.bump, 7);
}

#[test]
fn earn_accumulates_accepted_deltas() {
    let mut l = ledger_with_user();
    assert_eq!(l.earn_free_points(EarnPoints { owner: id(1), authority: id(2) }, 300), Ok(()));
    assert_eq!(l.earn_free_points(EarnPoints { owner: id(1), authority: id(2) }, 300), Ok(()));
    assert_eq!(l.get_subscription(id(1)).unwrap().offchain_points, 600);
}

#[test]
fn earn_on_premium_fails_already_premium() {
    let mut l = ledger_with_user();
    let up = l.upgrade_to_premium(
        UpgradeSubscription { owner: id(1), user: id(1) },
        b"HW-1".to_vec(),
    );
    assert_eq!(up, Ok(()));
    let r = l.earn_free_points(EarnPoints { owner: id(1), authority: id(2) }, 5);
    assert_eq!(r, Err(AirventError::AlreadyPremium));
    let wrong_authority = l.earn_free_points(EarnPoints { owner: id(1), authority: id(9) }, 5);
    assert_eq!(wrong_authority, Err(AirventError::AlreadyPremium));
}

#[test]
fn earn_amount_zero_rejected() {
    let mut l = ledger_with_user();
    let r = l.earn_free_points(EarnPoints { owner: id(1), authority: id(2) }, 0);
    assert_eq!(r, Err(AirventError::InvalidPointsAmount));
    assert_eq!(l.get_subscription(id(1)).unwrap().offchain_points, 0);
}

#[test]
fn earn_amount_above_cap_rejected() {
    let mut l = ledger_with_user();
    let r = l.earn_free_points(EarnPoints { owner: id(1), authority: id(2) }, 1001);
    assert_eq!(r, Err(AirventError::InvalidPointsAmount));
    assert_eq!(l.get_subscription(id(1)).unwrap().offchain_points, 0);
}

#[test]
fn earn_amounts_at_bounds_succeed() {
    let mut l = ledger_with_user();
    assert_eq!(l.earn_free_points(EarnPoints { owner: id(1), authority: id(2) }, 1), Ok(()));
    assert_eq!(l.earn_free_points(EarnPoints { owner: id(1), authority: id(2) }, 1000), Ok(()));
    assert_eq!(l.get_subscription(id(1)).unwrap().offchain_points, 1001);
}

#[test]
fn earn_overflow_rejected_without_partial_credit() {
    let mut rec = free_record(u64::MAX - 100);
    let r = rec.earn(id(2), 200);
    assert_eq!(r, Err(AirventError::PointsOverflow));
    assert_eq!(rec.offchain_points, u64::MAX - 100);
    assert_eq!(rec.tier, Tier::Free);
    let exact = rec.earn(id(2), 100);
    assert_eq!(exact, Ok(()));
    assert_eq!(rec.offchain_points, u64::MAX);
}

#[test]
fn earn_checks_tier_before_amount_and_amount_before_authority() {
    let mut rec = free_record(0);
    let r = rec.earn(id(9), 0);
    assert_eq!(r, Err(AirventError::InvalidPointsAmount));
    let r = rec.earn(id(9), 50);
    assert_eq!(r, Err(AirventError::Unauthorized));
    rec.tier = Tier::Premium;
    rec.hardware_id = b"HW-1".to_vec();
    let r = rec.earn(id(9), 0);
    assert_eq!(r, Err(AirventError::AlreadyPremium));
}

#[test]
fn earn_by_other_identity_unauthorized() {
    let mut l = ledger_with_user();
    let r = l.earn_free_points(EarnPoints { owner: id(1), authority: id(9) }, 50);
    assert_eq!(r, Err(AirventError::Unauthorized));
    assert_eq!(l.get_subscription(id(1)).unwrap().offchain_points, 0);
}

#[test]
fn upgrade_by_other_identity_unauthorized() {
    let mut l = ledger_with_user();
    let r = l.upgrade_to_premium(
        UpgradeSubscription { owner: id(1), user: id(9) },
        b"HW-1".to_vec(),
    );
    assert_eq!(r, Err(AirventError::Unauthorized));
    assert_eq!(l.get_subscription(id(1)).unwrap().tier, Tier::Free);
}

#[test]
fn downgrade_by_other_identity_unauthorized() {
    let mut l = ledger_with_user();
    let up = l.upgrade_to_premium(
        UpgradeSubscription { owner: id(1), user: id(1) },
        b"HW-1".to_vec(),
    );
    assert_eq!(up, Ok(()));
    let r = l.downgrade_from_premium(UpgradeSubscription { owner: id(1), user: id(9) });
    assert_eq!(r, Err(AirventError::Unauthorized));
    assert_eq!(l.get_subscription(id(1)).unwrap().tier, Tier::Premium);
}

#[test]
fn upgrade_resets_points_and_links_hardware() {
    let mut l = ledger_with_user();
    assert_eq!(l.earn_free_points(EarnPoints { owner: id(1), authority: id(2) }, 500), Ok(()));
    let up = l.upgrade_to_premium(
        UpgradeSubscription { owner: id(1), user: id(1) },
        b"SER-42".to_vec(),
    );
    assert_eq!(up, Ok(()));
    let st = l.get_subscription(id(1)).unwrap();
    assert_eq!(st.tier, Tier::Premium);
    assert_eq!(st.offchain_points, 0);
    assert_eq!(st.hardware_id, b"SER-42".to_vec());
}

#[test]
fn upgrade_on_premium_fails_already_premium() {
    let mut l = ledger_with_user();
    let up = l.upgrade_to_premium(
        UpgradeSubscription { owner: id(1), user: id(1) },
        b"HW-1".to_vec(),
    );
    assert_eq!(up, Ok(()));
    let again = l.upgrade_to_premium(
        UpgradeSubscription { owner: id(1), user: id(1) },
        b"HW-2".to_vec(),
    );
    assert_eq!(again, Err(AirventError::AlreadyPremium));
    assert_eq!(l.get_subscription(id(1)).unwrap().hardware_id, b"HW-1".to_vec());
}

#[test]
fn serial_of_sixty_four_bytes_accepted() {
    let mut l = ledger_with_user();
    let serial = vec![b'S'; 64];
    let r = l.upgrade_to_premium(UpgradeSubscription { owner: id(1), user: id(1) }, serial.clone());
    assert_eq!(r, Ok(()));
    assert_eq!(l.get_subscription(id(1)).unwrap().hardware_id, serial);
}

#[test]
fn serial_of_sixty_five_bytes_rejected() {
    let mut l = ledger_with_user();
    let r = l.upgrade_to_premium(
        UpgradeSubscription { owner: id(1), user: id(1) },
        vec![b'S'; 65],
    );
    assert_eq!(r, Err(AirventError::InvalidHardwareSerial));
    assert_eq!(l.get_subscription(id(1)).unwrap().tier, Tier::Free);
}

#[test]
fn empty_serial_rejected() {
    let mut l = ledger_with_user();
    let r = l.upgrade_to_premium(UpgradeSubscription { owner: id(1), user: id(1) }, Vec::new());
    assert_eq!(r, Err(AirventError::InvalidHardwareSerial));
    assert_eq!(l.get_subscription(id(1)).unwrap().tier, Tier::Free);
}

#[test]
fn downgrade_clears_hardware_and_keeps_points_at_zero() {
    let mut l = ledger_with_user();
    assert_eq!(l.earn_free_points(EarnPoints { owner: id(1), authority: id(2) }, 999), Ok(()));
    let up = l.upgrade_to_premium(
        UpgradeSubscription { owner: id(1), user: id(1) },
        b"HW-1".to_vec(),
    );
    assert_eq!(up, Ok(()));
    let down = l.downgrade_from_premium(UpgradeSubscription { owner: id(1), user: id(1) });
    assert_eq!(down, Ok(()));
    let st = l.get_subscription(id(1)).unwrap();
    assert_eq!(st.tier, Tier::Free);
    assert!(st.hardware_id.is_empty());
    assert_eq!(st.offchain_points, 0);
}

#[test]
fn downgrade_on_free_record_fails_not_premium() {
    let mut l = ledger_with_user();
    let r = l.downgrade_from_premium(UpgradeSubscription { owner: id(1), user: id(1) });
    assert_eq!(r, Err(AirventError::NotPremium));
}

#[test]
fn operations_on_missing_record_fail_not_found() {
    let mut l = SubscriptionLedger::new();
    assert!(l.get_subscription(id(1)).is_none());
    let earn = l.earn_free_points(EarnPoints { owner: id(1), authority: id(2) }, 10);
    assert_eq!(earn, Err(AirventError::RecordNotFound));
    let up = l.upgrade_to_premium(
        UpgradeSubscription { owner: id(1), user: id(1) },
        b"HW-1".to_vec(),
    );
    assert_eq!(up, Err(AirventError::RecordNotFound));
    let down = l.downgrade_from_premium(UpgradeSubscription { owner: id(1), user: id(1) });
    assert_eq!(down, Err(AirventError::RecordNotFound));
}

#[test]
fn records_of_distinct_owners_are_independent() {
    let mut l = ledger_with_user();
    let r = l.initialize_free_subscription(
        InitializeSubscription { user: id(3), authority: id(2), bump: 9 },
        JOINED + 5,
    );
    assert_eq!(r, Ok(()));
    assert_eq!(l.earn_free_points(EarnPoints { owner: id(3), authority: id(2) }, 40), Ok(()));
    assert_eq!(l.get_subscription(id(1)).unwrap().offchain_points, 0);
    assert_eq!(l.get_subscription(id(3)).unwrap().offchain_points, 40);
    let up = l.upgrade_to_premium(
        UpgradeSubscription { owner: id(3), user: id(3) },
        b"HW-3".to_vec(),
    );
    assert_eq!(up, Ok(()));
    assert_eq!(l.get_subscription(id(1)).unwrap().tier, Tier::Free);
    assert_eq!(l.get_subscription(id(3)).unwrap().tier, Tier::Premium);
}

#[test]
fn end_to_end_scenario() {
    let mut l = SubscriptionLedger::new();
    let u = id(10);
    let a = id(20);
    let create = l.initialize_free_subscription(
        InitializeSubscription { user: u, authority: a, bump: 1 },
        JOINED,
    );
    assert_eq!(create, Ok(()));
    assert_eq!(l.earn_free_points(EarnPoints { owner: u, authority: a }, 300), Ok(()));
    assert_eq!(l.earn_free_points(EarnPoints { owner: u, authority: a }, 300), Ok(()));
    assert_eq!(l.get_subscription(u).unwrap().offchain_points, 600);
    let up = l.upgrade_to_premium(UpgradeSubscription { owner: u, user: u }, b"HW-1".to_vec());
    assert_eq!(up, Ok(()));
    let st = l.get_subscription(u).unwrap();
    assert_eq!(st.tier, Tier::Premium);
    assert_eq!(st.offchain_points, 0);
    assert_eq!(st.hardware_id, b"HW-1".to_vec());
    let earn = l.earn_free_points(EarnPoints { owner: u, authority: a }, 100);
    assert_eq!(earn, Err(AirventError::AlreadyPremium));
    let down = l.downgrade_from_premium(UpgradeSubscription { owner: u, user: u });
    assert_eq!(down, Ok(()));
    let st = l.get_subscription(u).unwrap();
    assert_eq!(st.tier, Tier::Free);
    assert!(st.hardware_id.is_empty());
}

#[test]
fn record_level_checks_follow_documented_order_for_upgrade() {
    let mut rec = free_record(0);
    let r = rec.upgrade(id(9), Vec::new());
    assert_eq!(r, Err(AirventError::InvalidHardwareSerial));
    let r = rec.upgrade(id(9), b"HW-1".to_vec());
    assert_eq!(r, Err(AirventError::Unauthorized));
    let r = rec.upgrade(id(1), b"HW-1".to_vec());
    assert_eq!(r, Ok(()));
    let r = rec.upgrade(id(9), Vec::new());
    assert_eq!(r, Err(AirventError::AlreadyPremium));
    let r = rec.downgrade(id(9));
    assert_eq!(r, Err(AirventError::Unauthorized));
    let r = rec.downgrade(id(1));
    assert_eq!(r, Ok(()));
    assert_eq!(rec.tier, Tier::Free);
    assert!(rec.hardware_id.is_empty());
}
