//! Write-behind persistence, modelled: the bounded FIFO queue between the
//! accounting path and the storage worker, the textual encoding of
//! categories used by the stored rows, and the decoding of stored rows back
//! into an account. The queue's policy is non-blocking enqueue with
//! drop-on-full: persistence is best-effort and never slows accounting.

use vstd::prelude::*;

use crate::model::{
    account_wf, checked_sum_remaining, sum_remaining, AccountV, BucketV, QuotaBucket, QuotaType,
    UserAccount,
};

verus! {

/// How many snapshots may wait for the storage worker at once.
pub const QUEUE_CAPACITY: usize = 1000;

/// One message to the storage worker: the committed snapshot, and — for a
/// successful consumption — the usage event `(bytes, category, timestamp)`.
pub struct PersistenceMsg {
    pub account: UserAccount,
    pub usage: Option<(u64, QuotaType, u64)>,
}

/// Mathematical image of a `PersistenceMsg`.
#[verifier::ext_equal]
pub ghost struct PersistenceMsgV {
    pub account: AccountV,
    pub usage: Option<(u64, QuotaType, u64)>,
}

impl View for PersistenceMsg {
    type V = PersistenceMsgV;

    open spec fn view(&self) -> PersistenceMsgV {
        PersistenceMsgV { account: self.account@, usage: self.usage }
    }
}

/// The bounded queue feeding the storage worker, in enqueue order: index 0
/// is the oldest pending message.
pub struct PersistenceQueue {
    msgs: Vec<PersistenceMsg>,
}

impl View for PersistenceQueue {
    type V = Seq<PersistenceMsgV>;

    closed spec fn view(&self) -> Seq<PersistenceMsgV> {
        self.msgs.deep_view()
    }
}

impl DeepView for PersistenceMsg {
    type V = PersistenceMsgV;

    open spec fn deep_view(&self) -> PersistenceMsgV {
        self.view()
    }
}

impl PersistenceQueue {
    /// The queue never holds more than its capacity.
    pub open spec fn wf(&self) -> bool {
        self@.len() <= QUEUE_CAPACITY
    }

    pub fn new() -> (r: Self)
        ensures
            r@ == Seq::<PersistenceMsgV>::empty(),
            r.wf(),
    {
        let r = PersistenceQueue { msgs: Vec::new() };
        proof {
            assert(r@ =~= Seq::<PersistenceMsgV>::empty());
        }
        r
    }

    pub fn len(&self) -> (r: usize)
        ensures
            r == self@.len(),
    {
        self.msgs.len()
    }

    /// Non-blocking enqueue: appends when there is room, drops the message
    /// — returning `false` — when the queue is at capacity.
    pub fn try_send(&mut self, msg: PersistenceMsg) -> (accepted: bool)
        requires
            old(self).wf(),
        ensures
            old(self)@.len() < QUEUE_CAPACITY ==> accepted && final(self)@ == old(self)@.push(
                msg@,
            ),
            old(self)@.len() >= QUEUE_CAPACITY ==> !accepted && final(self)@ == old(self)@,
            final(self).wf(),
    {
        if self.msgs.len() < QUEUE_CAPACITY {
            let ghost pre = self@;
            self.msgs.push(msg);
            proof {
                assert(self@ =~= pre.push(msg@));
            }
            true
        } else {
            false
        }
    }

    /// The worker's dequeue: removes and returns the oldest message, `None`
    /// on an empty queue.
    pub fn pop_front(&mut self) -> (r: Option<PersistenceMsg>)
        requires
            old(self).wf(),
        ensures
            old(self)@.len() == 0 ==> r is None && final(self)@ == old(self)@,
            old(self)@.len() > 0 ==> {
                &&& r matches Some(m)
                &&& r matches Some(m) ==> m@ == old(self)@[0] && final(self)@ == old(
                    self,
                )@.drop_first()
            },
            final(self).wf(),
            final(self)@.len() <= old(self)@.len(),
    {
        if self.msgs.len() == 0 {
            None
        } else {
            let ghost pre = self@;
            let m = self.msgs.remove(0);
            proof {
                assert(self@ =~= pre.drop_first());
            }
            Some(m)
        }
    }
}

/// The stored name of each category, as written to the bucket and usage
/// rows.
pub open spec fn spec_category_name(c: QuotaType) -> Seq<char> {
    match c {
        QuotaType::General => "General"@,
        QuotaType::Social => "Social"@,
        QuotaType::Video => "Video"@,
    }
}

/// Encodes a category for storage.
pub fn category_name(c: QuotaType) -> (r: &'static str)
    ensures
        r@ == spec_category_name(c),
{
    match c {
        QuotaType::General => "General",
        QuotaType::Social => "Social",
        QuotaType::Video => "Video",
    }
}

/// Decodes a stored category name; anything unrecognized falls back to
/// `General`.
pub open spec fn spec_category_from_name(s: Seq<char>) -> QuotaType {
    if s == "Video"@ {
        QuotaType::Video
    } else if s == "Social"@ {
        QuotaType::Social
    } else {
        QuotaType::General
    }
}

pub fn category_from_name(s: &String) -> (r: QuotaType)
    ensures
        r == spec_category_from_name(s@),
{
    let video = String::from_str("Video");
    let social = String::from_str("Social");
    if *s == video {
        QuotaType::Video
    } else if *s == social {
        QuotaType::Social
    } else {
        QuotaType::General
    }
}

/// Encoding then decoding a category gives the category back: stored rows
/// cannot silently change class.
pub proof fn lemma_category_round_trip(c: QuotaType)
    ensures
        spec_category_from_name(spec_category_name(c)) == c,
{
    reveal_strlit("General");
    reveal_strlit("Social");
    reveal_strlit("Video");
    assert("General"@.len() == 7);
    assert("Social"@.len() == 6);
    assert("Video"@.len() == 5);
}

/// The bucket list a set of stored rows `(name, remaining, category,
/// expiry)` stands for.
pub open spec fn decoded_buckets(rows: Seq<(String, u64, String, u64)>) -> Seq<BucketV> {
    Seq::new(
        rows.len(),
        |i: int|
            BucketV {
                name: rows[i].0@,
                remaining_bytes: rows[i].1,
                category: spec_category_from_name(rows[i].2@),
                expiry: rows[i].3,
            },
    )
}

/// Rebuilds the account from its stored rows: flags from the account row
/// (defaults for a missing row), buckets decoded in storage order, and the
/// balance recomputed from the decoded buckets. Rows whose byte totals do
/// not fit a `u64` are distrusted wholesale: the buckets fall back to the
/// default empty state.
pub fn load_account_internal(
    id: String,
    account_row: Option<(bool, bool, u64)>,
    bucket_rows: Vec<(String, u64, String, u64)>,
) -> (r: UserAccount)
    ensures
        account_wf(r),
        r@.id == id@,
        r@.current_latency_ms == 46,
        match account_row {
            Some(t) => r@.is_active == t.0 && r@.biometric_locked == t.1 && r@.last_traffic_bytes
                == t.2,
            None => r@.is_active && !r@.biometric_locked && r@.last_traffic_bytes == 0,
        },
        sum_remaining(decoded_buckets(bucket_rows@)) <= u64::MAX ==> r@.buckets == decoded_buckets(
            bucket_rows@,
        ) && r@.data_balance_bytes == sum_remaining(decoded_buckets(bucket_rows@)),
        sum_remaining(decoded_buckets(bucket_rows@)) > u64::MAX ==> r@.buckets.len() == 0
            && r@.data_balance_bytes == 0,
{
    let (is_active, biometric_locked, last_traffic_bytes) = match account_row {
        Some(t) => t,
        None => (true, false, 0),
    };
    let mut buckets: Vec<QuotaBucket> = Vec::new();
    let mut i: usize = 0;
    while i < bucket_rows.len()
        invariant
            i <= bucket_rows.len(),
            buckets.deep_view() =~= decoded_buckets(bucket_rows@).take(i as int),
        decreases bucket_rows.len() - i,
    {
        let row = &bucket_rows[i];
        let b = QuotaBucket {
            name: row.0.clone(),
            remaining_bytes: row.1,
            category: category_from_name(&row.2),
            expiry: row.3,
        };
        proof {
            assert(b@ == decoded_buckets(bucket_rows@)[i as int]);
        }
        buckets.push(b);
        proof {
            assert(decoded_buckets(bucket_rows@).take(i + 1) =~= decoded_buckets(
                bucket_rows@,
            ).take(i as int).push(decoded_buckets(bucket_rows@)[i as int]));
            assert(buckets.deep_view() =~= decoded_buckets(bucket_rows@).take(i + 1));
        }
        i += 1;
    }
    proof {
        assert(buckets.deep_view() =~= decoded_buckets(bucket_rows@));
    }
    match checked_sum_remaining(&buckets) {
        Some(total) => UserAccount {
            id,
            is_active,
            biometric_locked,
            buckets,
            last_traffic_bytes,
            data_balance_bytes: total,
            current_latency_ms: 46,
        },
        None => {
            let r = UserAccount {
                id,
                is_active,
                biometric_locked,
                buckets: Vec::new(),
                last_traffic_bytes,
                data_balance_bytes: 0,
                current_latency_ms: 46,
            };
            proof {
                assert(r@.buckets =~= Seq::<BucketV>::empty());
            }
            r
        },
    }
}

} // verus!
