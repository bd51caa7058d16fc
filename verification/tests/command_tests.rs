use telco_quota::command::parse_topping_command;
use telco_quota::{QuotaType, TelcoError, TelcoSimulator, UserAccount, TelcoLiveUpdateHandler};

const GIB: u64 = 1024 * 1024 * 1024;
const MIB: u64 = 1024 * 1024;

struct Noop;

impl TelcoLiveUpdateHandler for Noop {
    fn on_account_updated(&self, _account: UserAccount) {}
}

fn fresh() -> TelcoSimulator<Noop> {
    TelcoSimulator::new("acct".to_string())
}

#[test]
fn parses_youtube_as_video() {
    let p = parse_topping_command("YouTube 2GB").unwrap();
    assert_eq!(p.category, QuotaType::Video);
    assert_eq!(p.amount, 2);
    assert!(p.is_gb);
    assert_eq!(p.name, "2 GB Topping");
}

#[test]
fn parses_case_insensitively_with_flexible_blanks() {
    let p = parse_topping_command("yOuTuBe \t 03mb").unwrap();
    assert_eq!(p.category, QuotaType::Video);
    assert_eq!(p.amount, 3);
    assert!(!p.is_gb);
    assert_eq!(p.name, "3 MB Topping", "leading zeros are normalized away");
}

#[test]
fn parses_social_and_general() {
    let p = parse_topping_command("please social 500 MB thanks").unwrap();
    assert_eq!(p.category, QuotaType::Social);
    assert_eq!(p.amount, 500);
    assert!(!p.is_gb);
    assert_eq!(p.name, "500 MB Topping");

    let p = parse_topping_command("General 10GB").unwrap();
    assert_eq!(p.category, QuotaType::General);
    assert_eq!(p.amount, 10);
    assert!(p.is_gb);
}

#[test]
fn takes_the_leftmost_complete_match() {
    // The first "General" is not followed by digits; the later one is.
    let p = parse_topping_command("General plan: General 2GB").unwrap();
    assert_eq!(p.category, QuotaType::General);
    assert_eq!(p.amount, 2);
}

#[test]
fn rejects_text_without_a_command() {
    assert!(parse_topping_command("").is_none());
    assert!(parse_topping_command("status").is_none());
    assert!(parse_topping_command("YouTube").is_none());
    assert!(parse_topping_command("YouTube GB").is_none());
    assert!(parse_topping_command("YouTube2GB").is_none(), "a blank after the keyword is required");
    assert!(parse_topping_command("YouTube 2 TB").is_none());
    assert!(parse_topping_command("Video 2GB").is_none(), "the keyword is YouTube, not Video");
}

#[test]
fn rejects_amounts_beyond_u64() {
    assert!(parse_topping_command("General 99999999999999999999 GB").is_none());
}

#[test]
fn zero_amount_parses_to_zero_bucket() {
    let p = parse_topping_command("Social 000 MB").unwrap();
    assert_eq!(p.amount, 0);
    assert_eq!(p.name, "0 MB Topping");
}

#[test]
fn buying_toppings_appends_buckets_and_updates_balance() {
    let mut sim = fresh();
    sim.parse_and_buy_topping("YouTube 2GB".to_string()).unwrap();
    sim.parse_and_buy_topping("YouTube 1GB".to_string()).unwrap();
    let a = sim.get_account_info().unwrap();
    assert_eq!(a.buckets.len(), 2, "duplicate allotments coexist as separate buckets");
    assert_eq!(a.buckets[0].name, "2 GB Topping");
    assert_eq!(a.buckets[0].remaining_bytes, 2 * GIB);
    assert_eq!(a.buckets[0].category, QuotaType::Video);
    assert_eq!(a.buckets[1].remaining_bytes, GIB);
    assert_eq!(a.data_balance_bytes, 3 * GIB);
}

#[test]
fn bought_topping_expires_thirty_days_out() {
    let mut sim = fresh();
    let before = std::time::SystemTime::now()
        .duration_since(std::time::UNIX_EPOCH)
        .unwrap()
        .as_secs();
    sim.parse_and_buy_topping("General 1MB".to_string()).unwrap();
    let after = std::time::SystemTime::now()
        .duration_since(std::time::UNIX_EPOCH)
        .unwrap()
        .as_secs();
    let a = sim.get_account_info().unwrap();
    let expiry = a.buckets[0].expiry;
    assert!(expiry >= before + 86400 * 30);
    assert!(expiry <= after + 86400 * 30);
}

#[test]
fn buying_rejects_byte_amounts_that_overflow() {
    let mut sim = fresh();
    let r = sim.parse_and_buy_topping("General 18446744073709551615 GB".to_string());
    match r {
        Err(TelcoError::InvalidCommand(m)) => assert_eq!(m, "Amount too large."),
        other => panic!("expected InvalidCommand, got {:?}", other),
    }
    let a = sim.get_account_info().unwrap();
    assert_eq!(a.buckets.len(), 0);
    assert_eq!(a.data_balance_bytes, 0);
}

#[test]
fn buying_rejects_when_the_balance_would_overflow() {
    let mut sim = fresh();
    sim.parse_and_buy_topping("General 17179869183 GB".to_string()).unwrap();
    let a = sim.get_account_info().unwrap();
    assert_eq!(a.data_balance_bytes, 17179869183 * GIB);
    let r = sim.parse_and_buy_topping("General 2 GB".to_string());
    assert!(matches!(r, Err(TelcoError::InvalidCommand(_))));
    let a = sim.get_account_info().unwrap();
    assert_eq!(a.buckets.len(), 1, "rejected before mutation");
}
