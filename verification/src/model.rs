use vstd::prelude::*;

verus! {

/// Resource classes a quota bucket can carry. `General` is the fallback
/// pool drained when a category-specific request cannot be fully served.
#[derive(Clone, Copy, Debug, PartialEq, Eq, Structural)]
pub enum QuotaType {
    General,
    Social,
    Video,
}

/// A capped, categorized, time-bounded pool of consumable bytes.
/// A bucket whose `expiry` is not in the future is inert: it stays
/// visible in the account but is never deducted from.
#[derive(Debug)]
pub struct QuotaBucket {
    pub name: String,
    pub remaining_bytes: u64,
    pub category: QuotaType,
    pub expiry: u64,
}

/// The authoritative in-memory state of one account.
/// `data_balance_bytes` is derived: it always equals the sum of
/// `remaining_bytes` over `buckets` (see `account_wf`).
#[derive(Debug)]
pub struct UserAccount {
    pub id: String,
    pub is_active: bool,
    pub biometric_locked: bool,
    pub buckets: Vec<QuotaBucket>,
    pub last_traffic_bytes: u64,
    pub data_balance_bytes: u64,
    pub current_latency_ms: u32,
}

/// One successful consumption, as persisted in the usage history.
#[derive(Debug)]
pub struct UsageRecord {
    pub timestamp: u64,
    pub amount: u64,
    pub category: String,
}

/// Errors surfaced by the accounting path.
#[derive(Debug)]
pub enum TelcoError {
    InsufficientBalance,
    AccountInactive,
    Locked,
    InvalidCommand(String),
    DatabaseError(String),
    InternalError,
}

/// Mathematical image of a `QuotaBucket`.
#[verifier::ext_equal]
pub ghost struct BucketV {
    pub name: Seq<char>,
    pub remaining_bytes: u64,
    pub category: QuotaType,
    pub expiry: u64,
}

/// Mathematical image of a `UserAccount`.
#[verifier::ext_equal]
pub ghost struct AccountV {
    pub id: Seq<char>,
    pub is_active: bool,
    pub biometric_locked: bool,
    pub buckets: Seq<BucketV>,
    pub last_traffic_bytes: u64,
    pub data_balance_bytes: u64,
    pub current_latency_ms: u32,
}

impl View for QuotaBucket {
    type V = BucketV;

    open spec fn view(&self) -> BucketV {
        BucketV {
            name: self.name@,
            remaining_bytes: self.remaining_bytes,
            category: self.category,
            expiry: self.expiry,
        }
    }
}

impl DeepView for QuotaBucket {
    type V = BucketV;

    open spec fn deep_view(&self) -> BucketV {
        self.view()
    }
}

impl View for UserAccount {
    type V = AccountV;

    open spec fn view(&self) -> AccountV {
        AccountV {
            id: self.id@,
            is_active: self.is_active,
            biometric_locked: self.biometric_locked,
            buckets: self.buckets.deep_view(),
            last_traffic_bytes: self.last_traffic_bytes,
            data_balance_bytes: self.data_balance_bytes,
            current_latency_ms: self.current_latency_ms,
        }
    }
}

/// Mathematical image of a `UsageRecord`.
#[verifier::ext_equal]
pub ghost struct UsageRecordV {
    pub timestamp: u64,
    pub amount: u64,
    pub category: Seq<char>,
}

impl View for UsageRecord {
    type V = UsageRecordV;

    open spec fn view(&self) -> UsageRecordV {
        UsageRecordV { timestamp: self.timestamp, amount: self.amount, category: self.category@ }
    }
}

impl DeepView for UsageRecord {
    type V = UsageRecordV;

    open spec fn deep_view(&self) -> UsageRecordV {
        self.view()
    }
}

/// Sum of the remaining bytes over the buckets from index `i` on.
pub open spec fn sum_from(s: Seq<BucketV>, i: int) -> int
    decreases s.len() - i,
{
    if i < 0 || i >= s.len() {
        0
    } else {
        s[i].remaining_bytes + sum_from(s, i + 1)
    }
}

/// Sum of the remaining bytes over a sequence of buckets.
pub open spec fn sum_remaining(s: Seq<BucketV>) -> int {
    sum_from(s, 0)
}

pub proof fn lemma_sum_from_nonneg(s: Seq<BucketV>, i: int)
    ensures
        sum_from(s, i) >= 0,
    decreases s.len() - i,
{
    if 0 <= i < s.len() {
        lemma_sum_from_nonneg(s, i + 1);
    }
}

/// Appending a bucket adds its remaining bytes to the total.
pub proof fn lemma_sum_push(s: Seq<BucketV>, b: BucketV, i: int)
    requires
        0 <= i <= s.len(),
    ensures
        sum_from(s.push(b), i) == sum_from(s, i) + b.remaining_bytes,
    decreases s.len() - i,
{
    if i < s.len() {
        lemma_sum_push(s, b, i + 1);
        assert(s.push(b)[i] == s[i]);
    } else {
        assert(s.push(b)[i] == b);
        assert(sum_from(s.push(b), i + 1) == 0);
        assert(sum_from(s, i) == 0);
    }
}

/// Adds up the buckets' remaining bytes, reporting an overflowing total
/// rather than misstating it.
pub fn checked_sum_remaining(buckets: &Vec<QuotaBucket>) -> (r: Option<u64>)
    ensures
        match r {
            Some(t) => t == sum_remaining(buckets.deep_view()),
            None => sum_remaining(buckets.deep_view()) > u64::MAX,
        },
{
    let ghost s = buckets.deep_view();
    let mut acc: u64 = 0;
    let mut i: usize = 0;
    while i < buckets.len()
        invariant
            i <= buckets.len(),
            s == buckets.deep_view(),
            acc + sum_from(s, i as int) == sum_remaining(s),
        decreases buckets.len() - i,
    {
        proof {
            lemma_sum_from_nonneg(s, i + 1);
        }
        match acc.checked_add(buckets[i].remaining_bytes) {
            Some(next) => {
                acc = next;
            },
            None => {
                return None;
            },
        }
        i += 1;
    }
    Some(acc)
}

/// Invariant I1 of the account: the stored balance is exactly the sum of
/// the buckets' remaining bytes (which in particular bounds that sum by
/// `u64::MAX`).
pub open spec fn account_v_wf(a: AccountV) -> bool {
    a.data_balance_bytes == sum_remaining(a.buckets)
}

/// Well-formedness of an executable account value.
pub open spec fn account_wf(a: UserAccount) -> bool {
    account_v_wf(a@)
}

impl Clone for QuotaBucket {
    fn clone(&self) -> (r: Self)
        ensures
            r@ == self@,
    {
        QuotaBucket {
            name: self.name.clone(),
            remaining_bytes: self.remaining_bytes,
            category: self.category,
            expiry: self.expiry,
        }
    }
}

impl Clone for UsageRecord {
    fn clone(&self) -> (r: Self)
        ensures
            r@ == self@,
    {
        UsageRecord {
            timestamp: self.timestamp,
            amount: self.amount,
            category: self.category.clone(),
        }
    }
}

/// Clones the bucket list element by element, preserving the view.
pub fn clone_buckets(buckets: &Vec<QuotaBucket>) -> (r: Vec<QuotaBucket>)
    ensures
        r.deep_view() == buckets.deep_view(),
{
    let mut out: Vec<QuotaBucket> = Vec::new();
    let mut i: usize = 0;
    while i < buckets.len()
        invariant
            i <= buckets.len(),
            out.deep_view() =~= buckets.deep_view().take(i as int),
        decreases buckets.len() - i,
    {
        out.push(buckets[i].clone());
        proof {
            assert(buckets.deep_view().take(i + 1) =~= buckets.deep_view().take(i as int).push(
                buckets.deep_view()[i as int],
            ));
            assert(out.deep_view() =~= buckets.deep_view().take(i + 1));
        }
        i += 1;
    }
    proof {
        assert(out.deep_view() =~= buckets.deep_view());
    }
    out
}

impl Clone for UserAccount {
    fn clone(&self) -> (r: Self)
        ensures
            r@ == self@,
    {
        UserAccount {
            id: self.id.clone(),
            is_active: self.is_active,
            biometric_locked: self.biometric_locked,
            buckets: clone_buckets(&self.buckets),
            last_traffic_bytes: self.last_traffic_bytes,
            data_balance_bytes: self.data_balance_bytes,
            current_latency_ms: self.current_latency_ms,
        }
    }
}

impl TelcoError {
    /// Human-readable description, mirroring the messages the errors carry
    /// when shown to a user.
    pub fn message(&self) -> (r: String)
        ensures
            r@ == self.spec_message(),
    {
        match self {
            TelcoError::InsufficientBalance => String::from_str(
                "Insufficient balance for this transaction.",
            ),
            TelcoError::AccountInactive => String::from_str("Account is inactive."),
            TelcoError::Locked => String::from_str("Device is locked via biometrics."),
            TelcoError::InvalidCommand(s) => String::from_str("Invalid command: ").concat(
                s.as_str(),
            ),
            TelcoError::DatabaseError(s) => String::from_str("Database error: ").concat(s.as_str()),
            TelcoError::InternalError => String::from_str("Internal error"),
        }
    }

    /// The characters `message` returns for each error.
    pub open spec fn spec_message(&self) -> Seq<char> {
        match self {
            TelcoError::InsufficientBalance => "Insufficient balance for this transaction."@,
            TelcoError::AccountInactive => "Account is inactive."@,
            TelcoError::Locked => "Device is locked via biometrics."@,
            TelcoError::InvalidCommand(s) => "Invalid command: "@ + s@,
            TelcoError::DatabaseError(s) => "Database error: "@ + s@,
            TelcoError::InternalError => "Internal error"@,
        }
    }
}

} // verus!
