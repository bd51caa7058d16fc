//! The engine: one account's state, the bounded write-behind persistence
//! queue, and the live-update observer, driven by the public operations —
//! unlock, snapshot, consume, topping purchase, free-text command. Every
//! mutation commits the new state, then hands the committed snapshot to the
//! observer and to the persistence queue; a full queue drops the snapshot
//! rather than block.

use vstd::prelude::*;

use crate::command::{
    dec_value, is_status_command, parse_topping_command, spec_parse_command, status_requested,
    topping_name,
};
use crate::deduct::consume_result_post;
use crate::ext::unix_now_secs;
use crate::model::{
    account_wf, lemma_sum_push, AccountV, BucketV, QuotaBucket, QuotaType, TelcoError, UserAccount,
};
use crate::persist::{PersistenceMsg, PersistenceMsgV, PersistenceQueue, QUEUE_CAPACITY};

verus! {

/// How long a purchased topping lasts.
pub const THIRTY_DAYS_SECS: u64 = 86400 * 30;

/// The single registered observer of account updates. The engine calls
/// `on_account_updated` with the committed snapshot after every mutation,
/// and once on registration as a baseline.
pub trait TelcoLiveUpdateHandler: Send + Sync {
    fn on_account_updated(&self, account: UserAccount);
}

/// Mathematical image of the engine: the account, the pending persistence
/// messages in enqueue order, the snapshots delivered to the observer in
/// delivery order, and whether an observer is registered.
#[verifier::ext_equal]
pub ghost struct EngineV {
    pub account: AccountV,
    pub queue: Seq<PersistenceMsgV>,
    pub notified: Seq<AccountV>,
    pub has_handler: bool,
}

/// The engine for one account.
pub struct TelcoSimulator<H: TelcoLiveUpdateHandler> {
    account: UserAccount,
    persistence_queue: PersistenceQueue,
    update_handler: Option<H>,
    notified: Ghost<Seq<AccountV>>,
}

impl<H: TelcoLiveUpdateHandler> View for TelcoSimulator<H> {
    type V = EngineV;

    closed spec fn view(&self) -> EngineV {
        EngineV {
            account: self.account@,
            queue: self.persistence_queue@,
            notified: self.notified@,
            has_handler: self.update_handler is Some,
        }
    }
}

/// What the non-blocking enqueue leaves in the queue: the message appended
/// when there is room, the queue unchanged — the message dropped — when it
/// is full.
pub open spec fn queue_after(q: Seq<PersistenceMsgV>, m: PersistenceMsgV) -> Seq<PersistenceMsgV> {
    if q.len() < QUEUE_CAPACITY {
        q.push(m)
    } else {
        q
    }
}

/// The notification log after a mutation: the committed snapshot is
/// delivered — at most once — exactly when an observer is registered.
pub open spec fn notified_after(n: Seq<AccountV>, has_handler: bool, a: AccountV) -> Seq<
    AccountV,
> {
    if has_handler {
        n.push(a)
    } else {
        n
    }
}

/// The account after an unlock: the lock cleared, everything else as it
/// was.
pub open spec fn spec_unlock(a: AccountV) -> AccountV {
    AccountV { biometric_locked: false, ..a }
}

/// Unlocking is idempotent: a second unlock changes nothing, and on an
/// already-unlocked account the observable state is left exactly as it was.
pub proof fn lemma_unlock_idempotent(a: AccountV)
    ensures
        spec_unlock(spec_unlock(a)) == spec_unlock(a),
        !a.biometric_locked ==> spec_unlock(a) == a,
{
    assert(spec_unlock(spec_unlock(a)) =~= spec_unlock(a));
    if !a.biometric_locked {
        assert(spec_unlock(a) =~= a);
    }
}

/// The expiry a topping bought at time `now` gets: thirty days out,
/// saturating at the largest representable time.
pub open spec fn expiry_at(now: u64) -> u64 {
    if now + THIRTY_DAYS_SECS <= u64::MAX {
        (now + THIRTY_DAYS_SECS) as u64
    } else {
        u64::MAX
    }
}

/// What `simulate_usage` does, given the time it read: rejected outright
/// when locked; otherwise the deduction engine decides, a success commits
/// the new account and offers `{snapshot, usage event}` to the queue, and
/// any failure leaves the engine untouched.
pub open spec fn simulate_usage_post(
    pre: EngineV,
    post: EngineV,
    bytes: u64,
    category: QuotaType,
    now: u64,
    r: Result<(), TelcoError>,
) -> bool {
    if pre.account.biometric_locked {
        &&& r matches Err(TelcoError::Locked)
        &&& post == pre
    } else {
        match r {
            Ok(u) => {
                &&& consume_result_post(pre.account, bytes, category, now, Ok(post.account))
                &&& post.queue == queue_after(
                    pre.queue,
                    PersistenceMsgV { account: post.account, usage: Some((bytes, category, now)) },
                )
                &&& post.notified == notified_after(pre.notified, pre.has_handler, post.account)
                &&& post.has_handler == pre.has_handler
            },
            Err(e) => {
                &&& !(e matches TelcoError::Locked)
                &&& consume_result_post(pre.account, bytes, category, now, Err(e))
                &&& post == pre
            },
        }
    }
}

/// What a topping purchase does, given the time it read. No match in the
/// text, or an amount the arithmetic cannot hold, rejects the command and
/// leaves the engine untouched; otherwise the new bucket is appended, the
/// balance grows by its bytes, and the snapshot is offered to the queue.
pub open spec fn buy_topping_post(
    pre: EngineV,
    post: EngineV,
    cmd: Seq<char>,
    now: u64,
    r: Result<(), TelcoError>,
) -> bool {
    match spec_parse_command(cmd) {
        None => {
            &&& r matches Err(TelcoError::InvalidCommand(m)) && m@ == "Try 'YouTube 2GB'"@
            &&& post == pre
        },
        Some(p) => {
            let value = dec_value(p.1);
            let mult: int = if p.2 {
                0x40000000int
            } else {
                0x100000int
            };
            if value > u64::MAX {
                &&& r matches Err(TelcoError::InvalidCommand(m)) && m@ == "Try 'YouTube 2GB'"@
                &&& post == pre
            } else if value * mult > u64::MAX || pre.account.data_balance_bytes + value * mult
                > u64::MAX {
                &&& r matches Err(TelcoError::InvalidCommand(m)) && m@ == "Amount too large."@
                &&& post == pre
            } else {
                let bytes = (value * mult) as u64;
                let bucket = BucketV {
                    name: topping_name(p.1, p.2),
                    remaining_bytes: bytes,
                    category: p.0,
                    expiry: expiry_at(now),
                };
                &&& r matches Ok(u)
                &&& post.account == (AccountV {
                    buckets: pre.account.buckets.push(bucket),
                    data_balance_bytes: (pre.account.data_balance_bytes + bytes) as u64,
                    ..pre.account
                })
                &&& post.queue == queue_after(
                    pre.queue,
                    PersistenceMsgV { account: post.account, usage: None },
                )
                &&& post.notified == notified_after(pre.notified, pre.has_handler, post.account)
                &&& post.has_handler == pre.has_handler
            }
        },
    }
}

/// The reply to a free-text command: either finished text, or the request
/// to assemble the status insight from the balance and the persisted usage
/// history.
pub enum CommandReply {
    Text(String),
    StatusRequested,
}

/// What `handle_command` replies, given the time it read: a lock demands
/// unlocking first; the word "status" asks for the insight; anything else
/// is a topping purchase, answered with its confirmation or its error.
pub open spec fn handle_command_post(
    pre: EngineV,
    post: EngineV,
    cmd: Seq<char>,
    now: u64,
    r: CommandReply,
) -> bool {
    if pre.account.biometric_locked {
        &&& post == pre
        &&& r matches CommandReply::Text(s) && s@ == "Unlock required."@
    } else if is_status_command(cmd) {
        &&& post == pre
        &&& r is StatusRequested
    } else {
        exists|outcome: Result<(), TelcoError>|
            {
                &&& #[trigger] buy_topping_post(pre, post, cmd, now, outcome)
                &&& match outcome {
                    Ok(u) => r matches CommandReply::Text(s) && s@ == "Liquid Bubble growing..."@,
                    Err(e) => r matches CommandReply::Text(s) && s@ == "Error: "@
                        + e.spec_message(),
                }
            }
    }
}

impl<H: TelcoLiveUpdateHandler> TelcoSimulator<H> {
    /// The engine's internal invariant: the account balance is derived from
    /// its buckets, and the queue respects its capacity.
    pub closed spec fn wf(&self) -> bool {
        &&& account_wf(self.account)
        &&& self.persistence_queue.wf()
    }


    /// A fresh engine: an active, unlocked account with no buckets and an
    /// empty persistence queue.
    pub fn new(id: String) -> (r: Self)
        ensures
            r.wf(),
            !r@.has_handler,
            r@.queue == Seq::<PersistenceMsgV>::empty(),
            r@.notified == Seq::<AccountV>::empty(),
            r@.account == (AccountV {
                id: id@,
                is_active: true,
                biometric_locked: false,
                buckets: Seq::<BucketV>::empty(),
                last_traffic_bytes: 0,
                data_balance_bytes: 0,
                current_latency_ms: 46,
            }),
    {
        let account = UserAccount {
            id,
            is_active: true,
            biometric_locked: false,
            buckets: Vec::new(),
            last_traffic_bytes: 0,
            data_balance_bytes: 0,
            current_latency_ms: 46,
        };
        let r = TelcoSimulator {
            account,
            persistence_queue: PersistenceQueue::new(),
            update_handler: None,
            notified: Ghost(Seq::empty()),
        };
        proof {
            assert(r@.account.buckets =~= Seq::<BucketV>::empty());
            assert(r@.account =~= (AccountV {
                id: r@.account.id,
                is_active: true,
                biometric_locked: false,
                buckets: Seq::<BucketV>::empty(),
                last_traffic_bytes: 0,
                data_balance_bytes: 0,
                current_latency_ms: 46,
            }));
        }
        r
    }

    /// An engine over an account restored from storage.
    pub fn from_account(account: UserAccount) -> (r: Self)
        requires
            account_wf(account),
        ensures
            r.wf(),
            !r@.has_handler,
            r@.account == account@,
            r@.queue == Seq::<PersistenceMsgV>::empty(),
            r@.notified == Seq::<AccountV>::empty(),
    {
        TelcoSimulator {
            account,
            persistence_queue: PersistenceQueue::new(),
            update_handler: None,
            notified: Ghost(Seq::empty()),
        }
    }

    /// Registers the observer — replacing any previous one — and delivers
    /// the current snapshot once as a baseline. No persistence message is
    /// produced: nothing changed.
    pub fn set_update_handler(&mut self, handler: H)
        requires
            old(self).wf(),
        ensures
            final(self).wf(),
            final(self)@.has_handler,
            final(self)@.account == old(self)@.account,
            final(self)@.queue == old(self)@.queue,
            final(self)@.notified == old(self)@.notified.push(old(self)@.account),
    {
        self.update_handler = Some(handler);
        let snapshot = self.account.clone();
        match &self.update_handler {
            Some(h) => {
                h.on_account_updated(snapshot);
                self.notified = Ghost(self.notified@.push(old(self)@.account));
            },
            None => (),
        }
    }

    /// Delivers the committed snapshot to the observer, then offers it —
    /// with the usage event, if any — to the bounded persistence queue,
    /// dropping it when the queue is full.
    fn notify_and_persist(&mut self, account: UserAccount, usage: Option<(u64, QuotaType, u64)>)
        requires
            old(self).wf(),
        ensures
            final(self).wf(),
            final(self)@.account == old(self)@.account,
            final(self)@.has_handler == old(self)@.has_handler,
            final(self)@.queue == queue_after(
                old(self)@.queue,
                PersistenceMsgV { account: account@, usage },
            ),
            final(self)@.notified == notified_after(
                old(self)@.notified,
                old(self)@.has_handler,
                account@,
            ),
    {
        match &self.update_handler {
            Some(h) => {
                h.on_account_updated(account.clone());
                self.notified = Ghost(self.notified@.push(account@));
            },
            None => (),
        }
        let _ = self.persistence_queue.try_send(PersistenceMsg { account, usage });
    }

    /// Clears the biometric lock unconditionally — unlocking when already
    /// unlocked is a no-op on the account — and notifies and persists the
    /// resulting snapshot.
    pub fn unlock_with_biometrics(&mut self)
        requires
            old(self).wf(),
        ensures
            final(self).wf(),
            final(self)@.has_handler == old(self)@.has_handler,
            final(self)@.account == spec_unlock(old(self)@.account),
            final(self)@.queue == queue_after(
                old(self)@.queue,
                PersistenceMsgV { account: spec_unlock(old(self)@.account), usage: None },
            ),
            final(self)@.notified == notified_after(
                old(self)@.notified,
                old(self)@.has_handler,
                spec_unlock(old(self)@.account),
            ),
    {
        self.account.biometric_locked = false;
        proof {
            assert(self.account@ =~= spec_unlock(old(self)@.account));
        }
        let snapshot = self.account.clone();
        self.notify_and_persist(snapshot, None);
    }

    /// The current snapshot, refused while the device is locked.
    pub fn get_account_info(&self) -> (r: Result<UserAccount, TelcoError>)
        ensures
            match r {
                Ok(a) => !self@.account.biometric_locked && a@ == self@.account,
                Err(e) => self@.account.biometric_locked && e matches TelcoError::Locked,
            },
    {
        if self.account.biometric_locked {
            return Err(TelcoError::Locked);
        }
        Ok(self.account.clone())
    }

    /// The number of persistence messages waiting for the storage worker.
    pub fn pending_persistence(&self) -> (r: usize)
        ensures
            r == self@.queue.len(),
    {
        self.persistence_queue.len()
    }

    /// Hands the storage worker the oldest pending message, oldest first.
    pub fn pop_pending(&mut self) -> (r: Option<PersistenceMsg>)
        requires
            old(self).wf(),
        ensures
            final(self).wf(),
            final(self)@.has_handler == old(self)@.has_handler,
            final(self)@.notified == old(self)@.notified,
            final(self)@.account == old(self)@.account,
            old(self)@.queue.len() == 0 ==> r is None && final(self)@.queue == old(self)@.queue,
            old(self)@.queue.len() > 0 ==> {
                &&& r matches Some(m)
                &&& r matches Some(m) ==> m@ == old(self)@.queue[0] && final(self)@.queue == old(
                    self,
                )@.queue.drop_first()
            },
    {
        self.persistence_queue.pop_front()
    }

    /// Consumes `bytes` of `category` at the current time: refused while
    /// locked; otherwise the deduction engine decides, and a success
    /// commits, notifies, and enqueues the snapshot with its usage event.
    pub fn simulate_usage(&mut self, bytes: u64, category: QuotaType) -> (r: Result<
        (),
        TelcoError,
    >)
        requires
            old(self).wf(),
        ensures
            final(self).wf(),
            exists|now: u64|
                #[trigger] simulate_usage_post(old(self)@, final(self)@, bytes, category, now, r),
    {
        if self.account.biometric_locked {
            let r: Result<(), TelcoError> = Err(TelcoError::Locked);
            proof {
                assert(simulate_usage_post(old(self)@, self@, bytes, category, 0, r));
            }
            return r;
        }
        let now = unix_now_secs();
        match self.account.consume_data_at(bytes, category, now) {
            Ok(new_account) => {
                self.account = new_account;
                let snapshot = self.account.clone();
                self.notify_and_persist(snapshot, Some((bytes, category, now)));
                let r: Result<(), TelcoError> = Ok(());
                proof {
                    assert(simulate_usage_post(old(self)@, self@, bytes, category, now, r));
                }
                r
            },
            Err(e) => {
                proof {
                    assert(self@ =~= old(self)@);
                }
                let r: Result<(), TelcoError> = Err(e);
                proof {
                    assert(simulate_usage_post(old(self)@, self@, bytes, category, now, r));
                }
                r
            },
        }
    }

    /// Parses a topping purchase out of the command text, appends the new
    /// bucket with a thirty-day expiry, recomputes the balance, and
    /// notifies and persists the snapshot. Text without a purchase, and
    /// amounts beyond what the arithmetic holds, are rejected untouched.
    pub fn parse_and_buy_topping(&mut self, command: String) -> (r: Result<(), TelcoError>)
        requires
            old(self).wf(),
        ensures
            final(self).wf(),
            exists|now: u64|
                #[trigger] buy_topping_post(old(self)@, final(self)@, command@, now, r),
    {
        let parsed = match parse_topping_command(command.as_str()) {
            Some(p) => p,
            None => {
                let r: Result<(), TelcoError> = Err(
                    TelcoError::InvalidCommand(String::from_str("Try 'YouTube 2GB'")),
                );
                proof {
                    assert(buy_topping_post(old(self)@, self@, command@, 0, r));
                }
                return r;
            },
        };
        let now = unix_now_secs();
        let mult: u64 = if parsed.is_gb {
            1024 * 1024 * 1024
        } else {
            1024 * 1024
        };
        let bytes = match parsed.amount.checked_mul(mult) {
            Some(b) => b,
            None => {
                let r: Result<(), TelcoError> = Err(
                    TelcoError::InvalidCommand(String::from_str("Amount too large.")),
                );
                proof {
                    assert(buy_topping_post(old(self)@, self@, command@, now, r));
                }
                return r;
            },
        };
        let new_balance = match self.account.data_balance_bytes.checked_add(bytes) {
            Some(b) => b,
            None => {
                let r: Result<(), TelcoError> = Err(
                    TelcoError::InvalidCommand(String::from_str("Amount too large.")),
                );
                proof {
                    assert(buy_topping_post(old(self)@, self@, command@, now, r));
                }
                return r;
            },
        };
        let expiry = now.saturating_add(THIRTY_DAYS_SECS);
        let bucket = QuotaBucket {
            name: parsed.name,
            remaining_bytes: bytes,
            category: parsed.category,
            expiry,
        };
        let ghost pre_buckets = self.account@.buckets;
        self.account.buckets.push(bucket);
        self.account.data_balance_bytes = new_balance;
        proof {
            assert(self.account@.buckets =~= pre_buckets.push(
                BucketV {
                    name: topping_name(spec_parse_command(command@)->Some_0.1, parsed.is_gb),
                    remaining_bytes: bytes,
                    category: parsed.category,
                    expiry: expiry_at(now),
                },
            ));
            lemma_sum_push(pre_buckets, self.account@.buckets.last(), 0);
        }
        let snapshot = self.account.clone();
        self.notify_and_persist(snapshot, None);
        let r: Result<(), TelcoError> = Ok(());
        proof {
            assert(buy_topping_post(old(self)@, self@, command@, now, r));
        }
        r
    }

    /// Answers free text: "Unlock required." while locked, the status
    /// insight on "status", otherwise a topping purchase with its
    /// confirmation or error text.
    pub fn handle_command(&mut self, command: String) -> (r: CommandReply)
        requires
            old(self).wf(),
        ensures
            final(self).wf(),
            exists|now: u64|
                #[trigger] handle_command_post(old(self)@, final(self)@, command@, now, r),
    {
        if self.account.biometric_locked {
            let r = CommandReply::Text(String::from_str("Unlock required."));
            proof {
                assert(handle_command_post(old(self)@, self@, command@, 0, r));
            }
            return r;
        }
        if status_requested(command.as_str()) {
            let r = CommandReply::StatusRequested;
            proof {
                assert(handle_command_post(old(self)@, self@, command@, 0, r));
            }
            return r;
        }
        let ghost cmd = command@;
        let outcome = self.parse_and_buy_topping(command);
        let ghost now_w = choose|now: u64|
            buy_topping_post(old(self)@, self@, cmd, now, outcome);
        match outcome {
            Ok(u) => {
                let r = CommandReply::Text(String::from_str("Liquid Bubble growing..."));
                proof {
                    assert(handle_command_post(old(self)@, self@, cmd, now_w, r));
                }
                r
            },
            Err(e) => {
                let text = String::from_str("Error: ").concat(e.message().as_str());
                let r = CommandReply::Text(text);
                proof {
                    assert(handle_command_post(old(self)@, self@, cmd, now_w, r));
                }
                r
            },
        }
    }
}

} // verus!
