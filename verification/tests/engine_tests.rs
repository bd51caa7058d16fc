use std::sync::atomic::{AtomicU32, Ordering};
use std::sync::Arc;

use telco_quota::{CommandReply, QuotaType, TelcoError, TelcoLiveUpdateHandler, TelcoSimulator, UserAccount};

const GIB: u64 = 1024 * 1024 * 1024;
const MIB: u64 = 1024 * 1024;

struct Noop;

impl TelcoLiveUpdateHandler for Noop {
    fn on_account_updated(&self, _account: UserAccount) {}
}

struct Counting {
    calls: Arc<AtomicU32>,
    last_balance: Arc<AtomicU32>,
}

impl TelcoLiveUpdateHandler for Counting {
    fn on_account_updated(&self, account: UserAccount) {
        self.calls.fetch_add(1, Ordering::SeqCst);
        self.last_balance.store((account.data_balance_bytes / MIB) as u32, Ordering::SeqCst);
    }
}

fn fresh() -> TelcoSimulator<Noop> {
    TelcoSimulator::new("acct".to_string())
}

fn reply_text(r: CommandReply) -> String {
    match r {
        CommandReply::Text(s) => s,
        CommandReply::StatusRequested => panic!("expected finished text"),
    }
}

#[test]
fn new_engine_starts_active_unlocked_and_empty() {
    let sim = fresh();
    let a = sim.get_account_info().unwrap();
    assert_eq!(a.id, "acct");
    assert!(a.is_active);
    assert!(!a.biometric_locked);
    assert_eq!(a.buckets.len(), 0);
    assert_eq!(a.data_balance_bytes, 0);
    assert_eq!(a.last_traffic_bytes, 0);
    assert_eq!(a.current_latency_ms, 46);
    assert_eq!(sim.pending_persistence(), 0);
}

#[test]
fn register_handler_delivers_baseline_once() {
    let calls = Arc::new(AtomicU32::new(0));
    let last = Arc::new(AtomicU32::new(u32::MAX));
    let mut sim: TelcoSimulator<Counting> = TelcoSimulator::new("acct".to_string());
    sim.set_update_handler(Counting { calls: calls.clone(), last_balance: last.clone() });
    assert_eq!(calls.load(Ordering::SeqCst), 1);
    assert_eq!(last.load(Ordering::SeqCst), 0);
    assert_eq!(sim.pending_persistence(), 0, "registration persists nothing");
}

#[test]
fn unlock_is_idempotent_and_notifies_each_call() {
    let calls = Arc::new(AtomicU32::new(0));
    let last = Arc::new(AtomicU32::new(0));
    let mut sim: TelcoSimulator<Counting> = TelcoSimulator::new("acct".to_string());
    sim.set_update_handler(Counting { calls: calls.clone(), last_balance: last.clone() });
    let before = sim.get_account_info().unwrap();
    assert!(!before.biometric_locked);

    sim.unlock_with_biometrics();
    assert_eq!(calls.load(Ordering::SeqCst), 2, "unlock notifies once");
    let after = sim.get_account_info().unwrap();
    assert_eq!(after.id, before.id);
    assert_eq!(after.is_active, before.is_active);
    assert_eq!(after.biometric_locked, before.biometric_locked);
    assert_eq!(after.buckets.len(), before.buckets.len());
    assert_eq!(after.data_balance_bytes, before.data_balance_bytes);
    assert_eq!(after.last_traffic_bytes, before.last_traffic_bytes);
    assert_eq!(after.current_latency_ms, before.current_latency_ms);

    sim.unlock_with_biometrics();
    assert_eq!(calls.load(Ordering::SeqCst), 3, "second unlock still notifies once");
    assert_eq!(sim.pending_persistence(), 2);
}

#[test]
fn scenario_topup_consume_lock_unlock_retry() {
    let mut sim = fresh();
    let reply = reply_text(sim.handle_command("General 10GB".to_string()));
    assert_eq!(reply, "Liquid Bubble growing...");
    let a = sim.get_account_info().unwrap();
    assert_eq!(a.data_balance_bytes, 10 * GIB);

    sim.simulate_usage(MIB, QuotaType::General).unwrap();
    let a = sim.get_account_info().unwrap();
    assert_eq!(a.data_balance_bytes, 10 * GIB - MIB);

    // Simulate an external lock by restoring a locked snapshot.
    let mut locked = a;
    locked.biometric_locked = true;
    let mut sim: TelcoSimulator<Noop> = TelcoSimulator::from_account(locked);
    let r = sim.simulate_usage(MIB, QuotaType::General);
    assert!(matches!(r, Err(TelcoError::Locked)));
    assert!(matches!(sim.get_account_info(), Err(TelcoError::Locked)));

    sim.unlock_with_biometrics();
    sim.simulate_usage(MIB, QuotaType::General).unwrap();
    let a = sim.get_account_info().unwrap();
    assert_eq!(a.data_balance_bytes, 10 * GIB - 2 * MIB);
}

#[test]
fn full_queue_drops_snapshot_but_accounting_succeeds() {
    let mut sim = fresh();
    assert!(sim.parse_and_buy_topping("General 1GB".to_string()).is_ok());
    for _ in 0..999 {
        sim.unlock_with_biometrics();
    }
    assert_eq!(sim.pending_persistence(), 1000, "queue at capacity");

    sim.simulate_usage(MIB, QuotaType::General).unwrap();
    let a = sim.get_account_info().unwrap();
    assert_eq!(a.data_balance_bytes, GIB - MIB, "in-memory result correct despite drop");
    assert_eq!(sim.pending_persistence(), 1000, "overflowing snapshot was dropped");
}

#[test]
fn queue_drains_in_fifo_order_with_usage_events() {
    let mut sim = fresh();
    sim.parse_and_buy_topping("Social 2MB".to_string()).unwrap();
    sim.simulate_usage(MIB, QuotaType::Social).unwrap();

    let first = sim.pop_pending().unwrap();
    assert!(first.usage.is_none(), "topping message carries no usage event");
    assert_eq!(first.account.data_balance_bytes, 2 * MIB);

    let second = sim.pop_pending().unwrap();
    let (bytes, category, _ts) = second.usage.expect("consumption records a usage event");
    assert_eq!(bytes, MIB);
    assert_eq!(category, QuotaType::Social);
    assert_eq!(second.account.data_balance_bytes, MIB);

    assert!(sim.pop_pending().is_none());
}

#[test]
fn locked_engine_only_answers_unlock_required() {
    let mut locked_account = TelcoSimulator::<Noop>::new("acct".to_string()).get_account_info().unwrap();
    locked_account.biometric_locked = true;
    let mut sim: TelcoSimulator<Noop> = TelcoSimulator::from_account(locked_account);
    let reply = reply_text(sim.handle_command("status".to_string()));
    assert_eq!(reply, "Unlock required.");
    let reply = reply_text(sim.handle_command("General 1GB".to_string()));
    assert_eq!(reply, "Unlock required.");
    let a = sim.get_account_info();
    assert!(matches!(a, Err(TelcoError::Locked)));
}

#[test]
fn status_command_is_recognized_with_case_and_blanks() {
    let mut sim = fresh();
    assert!(matches!(sim.handle_command("status".to_string()), CommandReply::StatusRequested));
    assert!(matches!(sim.handle_command("  STATUS \t".to_string()), CommandReply::StatusRequested));
    assert!(matches!(sim.handle_command("Status".to_string()), CommandReply::StatusRequested));
    let reply = reply_text(sim.handle_command("status now".to_string()));
    assert_eq!(reply, "Error: Invalid command: Try 'YouTube 2GB'");
}

#[test]
fn malformed_command_reports_error_text() {
    let mut sim = fresh();
    let reply = reply_text(sim.handle_command("buy me data".to_string()));
    assert_eq!(reply, "Error: Invalid command: Try 'YouTube 2GB'");
    let a = sim.get_account_info().unwrap();
    assert_eq!(a.buckets.len(), 0);
}

#[test]
fn consume_without_quota_reports_insufficient_balance() {
    let mut sim = fresh();
    let r = sim.simulate_usage(1, QuotaType::General);
    assert!(matches!(r, Err(TelcoError::InsufficientBalance)));
    assert_eq!(sim.pending_persistence(), 0, "failed consumption persists nothing");
}
