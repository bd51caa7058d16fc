use telco_quota::{QuotaBucket, QuotaType, TelcoError, UserAccount};

const GIB: u64 = 1024 * 1024 * 1024;
const MIB: u64 = 1024 * 1024;
const FAR_FUTURE: u64 = u64::MAX;

fn bucket(name: &str, remaining: u64, category: QuotaType, expiry: u64) -> QuotaBucket {
    QuotaBucket { name: name.to_string(), remaining_bytes: remaining, category, expiry }
}

fn account(buckets: Vec<QuotaBucket>) -> UserAccount {
    let balance: u64 = buckets.iter().map(|b| b.remaining_bytes).sum();
    UserAccount {
        id: "acct".to_string(),
        is_active: true,
        biometric_locked: false,
        buckets,
        last_traffic_bytes: 0,
        data_balance_bytes: balance,
        current_latency_ms: 46,
    }
}

#[test]
fn consume_success_keeps_balance_invariant() {
    let a = account(vec![bucket("g", 10 * GIB, QuotaType::General, FAR_FUTURE)]);
    let b = a.consume_data_at(MIB, QuotaType::General, 100).unwrap();
    assert_eq!(b.data_balance_bytes, 10 * GIB - MIB);
    let sum: u64 = b.buckets.iter().map(|x| x.remaining_bytes).sum();
    assert_eq!(b.data_balance_bytes, sum);
    assert_eq!(b.buckets.len(), 1);
    assert_eq!(b.buckets[0].remaining_bytes, 10 * GIB - MIB);
}

#[test]
fn consume_spreads_over_buckets_in_storage_order() {
    let a = account(vec![
        bucket("g1", 100, QuotaType::General, FAR_FUTURE),
        bucket("g2", 100, QuotaType::General, FAR_FUTURE),
    ]);
    let b = a.consume_data_at(150, QuotaType::General, 100).unwrap();
    assert_eq!(b.buckets[0].remaining_bytes, 0);
    assert_eq!(b.buckets[1].remaining_bytes, 50);
    assert_eq!(b.data_balance_bytes, 50);
}

#[test]
fn consume_insufficient_leaves_account_unchanged() {
    let a = account(vec![bucket("g", 100, QuotaType::General, FAR_FUTURE)]);
    let r = a.consume_data_at(101, QuotaType::General, 100);
    assert!(matches!(r, Err(TelcoError::InsufficientBalance)));
    assert_eq!(a.buckets[0].remaining_bytes, 100);
    assert_eq!(a.data_balance_bytes, 100);
}

#[test]
fn consume_inactive_account_fails() {
    let mut a = account(vec![bucket("g", 100, QuotaType::General, FAR_FUTURE)]);
    a.is_active = false;
    let r = a.consume_data_at(1, QuotaType::General, 100);
    assert!(matches!(r, Err(TelcoError::AccountInactive)));
}

#[test]
fn category_priority_drains_video_before_general() {
    let a = account(vec![
        bucket("general", GIB, QuotaType::General, FAR_FUTURE),
        bucket("video", GIB, QuotaType::Video, FAR_FUTURE),
    ]);
    let b = a.consume_data_at(GIB, QuotaType::Video, 100).unwrap();
    assert_eq!(b.buckets[1].remaining_bytes, 0, "video bucket drains first");
    assert_eq!(b.buckets[0].remaining_bytes, GIB, "general untouched while video suffices");
    let c = b.consume_data_at(MIB, QuotaType::Video, 100).unwrap();
    assert_eq!(c.buckets[0].remaining_bytes, GIB - MIB, "general drains once video is exhausted");
}

#[test]
fn general_request_never_touches_other_categories() {
    let a = account(vec![
        bucket("video", GIB, QuotaType::Video, FAR_FUTURE),
        bucket("general", GIB, QuotaType::General, FAR_FUTURE),
    ]);
    let b = a.consume_data_at(GIB, QuotaType::General, 100).unwrap();
    assert_eq!(b.buckets[0].remaining_bytes, GIB);
    assert_eq!(b.buckets[1].remaining_bytes, 0);
    let r = b.consume_data_at(1, QuotaType::General, 100);
    assert!(matches!(r, Err(TelcoError::InsufficientBalance)));
}

#[test]
fn expired_bucket_is_never_deducted() {
    let a = account(vec![bucket("old-video", GIB, QuotaType::Video, 50)]);
    let r = a.consume_data_at(1, QuotaType::Video, 100);
    assert!(matches!(r, Err(TelcoError::InsufficientBalance)));
    assert_eq!(a.buckets[0].remaining_bytes, GIB, "expired quota stays, unusable");
}

#[test]
fn bucket_expiring_exactly_now_is_inert() {
    let a = account(vec![bucket("edge", 100, QuotaType::General, 100)]);
    let r = a.consume_data_at(1, QuotaType::General, 100);
    assert!(matches!(r, Err(TelcoError::InsufficientBalance)));
}

#[test]
fn empty_bucket_is_skipped_without_effect() {
    let a = account(vec![
        bucket("spent", 0, QuotaType::General, FAR_FUTURE),
        bucket("fresh", 10, QuotaType::General, FAR_FUTURE),
    ]);
    let b = a.consume_data_at(10, QuotaType::General, 100).unwrap();
    assert_eq!(b.buckets[0].remaining_bytes, 0);
    assert_eq!(b.buckets[1].remaining_bytes, 0);
    assert_eq!(b.data_balance_bytes, 0);
}

#[test]
fn social_request_falls_back_to_general() {
    let a = account(vec![
        bucket("social", 60, QuotaType::Social, FAR_FUTURE),
        bucket("general", 50, QuotaType::General, FAR_FUTURE),
    ]);
    let b = a.consume_data_at(100, QuotaType::Social, 100).unwrap();
    assert_eq!(b.buckets[0].remaining_bytes, 0);
    assert_eq!(b.buckets[1].remaining_bytes, 10);
}

#[test]
fn consume_data_uses_wall_clock() {
    // Real time is far from both extremes: a far-future bucket is eligible,
    // an epoch-expired one is not.
    let a = account(vec![bucket("g", 100, QuotaType::General, FAR_FUTURE)]);
    let b = a.consume_data(40, QuotaType::General).unwrap();
    assert_eq!(b.data_balance_bytes, 60);
    let old = account(vec![bucket("old", 100, QuotaType::General, 1)]);
    assert!(matches!(old.consume_data(1, QuotaType::General), Err(TelcoError::InsufficientBalance)));
}
