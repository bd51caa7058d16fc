//! The quota deduction engine: a pure function from an account and a
//! consumption request to the next account state. Category-specific buckets
//! are drained first, with `General` as the fallback pool; expired buckets
//! are skipped; a request either fully succeeds or leaves the account
//! untouched.

use vstd::prelude::*;
use vstd::math::{max, min};

use crate::model::{
    account_wf, lemma_sum_from_nonneg, sum_from, sum_remaining, AccountV, BucketV, QuotaBucket,
    QuotaType, TelcoError, UserAccount,
};
use crate::model::clone_buckets;
use crate::ext::unix_now_secs;

verus! {

/// A bucket may serve a deduction for `class` only if it is of that class
/// and has not yet expired at time `now`.
pub open spec fn bucket_eligible(b: BucketV, class: QuotaType, now: u64) -> bool {
    b.category == class && b.expiry > now
}

/// One deduction pass over the buckets from index `i` on, in storage order:
/// each eligible bucket gives up the smaller of its remaining bytes and the
/// bytes still needed. Returns the updated buckets and the unmet need.
pub open spec fn drain_from(
    s: Seq<BucketV>,
    i: int,
    class: QuotaType,
    now: u64,
    need: int,
) -> (Seq<BucketV>, int)
    decreases s.len() - i,
{
    if i < 0 || i >= s.len() {
        (s, need)
    } else if bucket_eligible(s[i], class, now) {
        let d = min(s[i].remaining_bytes as int, need);
        let b2 = BucketV { remaining_bytes: (s[i].remaining_bytes - d) as u64, ..s[i] };
        drain_from(s.update(i, b2), i + 1, class, now, need - d)
    } else {
        drain_from(s, i + 1, class, now, need)
    }
}

/// Bytes available for `class` in the buckets from index `i` on: the sum of
/// the remaining bytes of its eligible buckets.
pub open spec fn class_available_from(s: Seq<BucketV>, i: int, class: QuotaType, now: u64) -> int
    decreases s.len() - i,
{
    if i < 0 || i >= s.len() {
        0
    } else {
        (if bucket_eligible(s[i], class, now) {
            s[i].remaining_bytes as int
        } else {
            0
        }) + class_available_from(s, i + 1, class, now)
    }
}

/// Bytes available for `class` over the whole bucket list.
pub open spec fn class_available(s: Seq<BucketV>, class: QuotaType, now: u64) -> int {
    class_available_from(s, 0, class, now)
}

/// Everything a request for `category` may draw on: its own class, plus the
/// `General` fallback pool for non-`General` requests.
pub open spec fn total_available(s: Seq<BucketV>, category: QuotaType, now: u64) -> int {
    if category == QuotaType::General {
        class_available(s, QuotaType::General, now)
    } else {
        class_available(s, category, now) + class_available(s, QuotaType::General, now)
    }
}

/// The full deduction: one pass for the requested category, then — for
/// non-`General` requests — a fallback pass over the `General` pool.
pub open spec fn spec_consume_buckets(
    s: Seq<BucketV>,
    category: QuotaType,
    now: u64,
    need: int,
) -> (Seq<BucketV>, int) {
    let first = drain_from(s, 0, category, now, need);
    if category == QuotaType::General {
        first
    } else {
        drain_from(first.0, 0, QuotaType::General, now, first.1)
    }
}

/// The bucket list after a deduction of `need` bytes of `category`.
pub open spec fn drained_buckets(s: Seq<BucketV>, category: QuotaType, now: u64, need: int) -> Seq<
    BucketV,
> {
    spec_consume_buckets(s, category, now, need).0
}

/// The part of `need` that no eligible bucket could cover.
pub open spec fn unmet_need(s: Seq<BucketV>, category: QuotaType, now: u64, need: int) -> int {
    spec_consume_buckets(s, category, now, need).1
}

/// `sum_from(s, i)` depends only on the elements from `i` on.
pub proof fn lemma_sum_from_agree(s: Seq<BucketV>, t: Seq<BucketV>, i: int)
    requires
        s.len() == t.len(),
        forall|j: int| i <= j < s.len() ==> s[j] == t[j],
    ensures
        sum_from(s, i) == sum_from(t, i),
    decreases s.len() - i,
{
    if 0 <= i < s.len() {
        lemma_sum_from_agree(s, t, i + 1);
    }
}

pub proof fn lemma_avail_from_nonneg(s: Seq<BucketV>, i: int, class: QuotaType, now: u64)
    ensures
        class_available_from(s, i, class, now) >= 0,
    decreases s.len() - i,
{
    if 0 <= i < s.len() {
        lemma_avail_from_nonneg(s, i + 1, class, now);
    }
}

/// Availability for a class is unchanged by edits that keep every bucket's
/// category and expiry, and the remaining bytes of that class's eligible
/// buckets.
pub proof fn lemma_avail_from_agree(
    s: Seq<BucketV>,
    t: Seq<BucketV>,
    i: int,
    class: QuotaType,
    now: u64,
)
    requires
        s.len() == t.len(),
        forall|j: int|
            i <= j < s.len() ==> (#[trigger] t[j]).category == s[j].category && t[j].expiry
                == s[j].expiry,
        forall|j: int|
            i <= j < s.len() && bucket_eligible(s[j], class, now) ==> (#[trigger] t[j])
                .remaining_bytes == s[j].remaining_bytes,
    ensures
        class_available_from(s, i, class, now) == class_available_from(t, i, class, now),
    decreases s.len() - i,
{
    if 0 <= i < s.len() {
        lemma_avail_from_agree(s, t, i + 1, class, now);
        assert(bucket_eligible(s[i], class, now) == bucket_eligible(t[i], class, now));
    }
}

/// Draining with nothing left to deduct changes nothing.
pub proof fn lemma_drain_from_zero(s: Seq<BucketV>, i: int, class: QuotaType, now: u64)
    ensures
        drain_from(s, i, class, now, 0) == (s, 0int),
    decreases s.len() - i,
{
    if 0 <= i < s.len() {
        if bucket_eligible(s[i], class, now) {
            let b2 = BucketV { remaining_bytes: (s[i].remaining_bytes - 0) as u64, ..s[i] };
            assert(b2 == s[i]);
            assert(s.update(i, b2) =~= s);
            lemma_drain_from_zero(s, i + 1, class, now);
        } else {
            lemma_drain_from_zero(s, i + 1, class, now);
        }
    }
}

/// What one deduction pass does, in full: lengths and identities are kept,
/// remaining bytes never grow, untouched classes and the already-visited
/// prefix are unchanged, the unmet need is exactly what availability could
/// not cover, and the sum of remaining bytes drops by what was deducted.
pub proof fn lemma_drain_from_props(s: Seq<BucketV>, i: int, class: QuotaType, now: u64, need: int)
    requires
        0 <= i <= s.len(),
        need >= 0,
    ensures
        ({
            let (t, rem) = drain_from(s, i, class, now, need);
            &&& t.len() == s.len()
            &&& 0 <= rem <= need
            &&& rem == max(0, need - class_available_from(s, i, class, now))
            &&& forall|j: int| 0 <= j < i ==> t[j] == s[j]
            &&& forall|j: int|
                0 <= j < s.len() ==> (#[trigger] t[j]).name == s[j].name && t[j].category
                    == s[j].category && t[j].expiry == s[j].expiry && t[j].remaining_bytes
                    <= s[j].remaining_bytes
            &&& forall|j: int|
                i <= j < s.len() && !bucket_eligible(s[j], class, now) ==> (#[trigger] t[j]) == s[j]
            &&& sum_from(t, i) == sum_from(s, i) - (need - rem)
        }),
    decreases s.len() - i,
{
    lemma_avail_from_nonneg(s, i, class, now);
    if i < s.len() {
        lemma_avail_from_nonneg(s, i + 1, class, now);
        if bucket_eligible(s[i], class, now) {
            let d = min(s[i].remaining_bytes as int, need);
            let b2 = BucketV { remaining_bytes: (s[i].remaining_bytes - d) as u64, ..s[i] };
            let s2 = s.update(i, b2);
            lemma_drain_from_props(s2, i + 1, class, now, need - d);
            lemma_avail_from_agree(s, s2, i + 1, class, now);
            lemma_sum_from_agree(s, s2, i + 1);
            let (t, rem) = drain_from(s, i, class, now, need);
            assert(t == drain_from(s2, i + 1, class, now, need - d).0);
            assert(t[i] == b2);
            assert(sum_from(t, i) == t[i].remaining_bytes + sum_from(t, i + 1));
        } else {
            lemma_drain_from_props(s, i + 1, class, now, need);
            let (t, rem) = drain_from(s, i, class, now, need);
            assert(sum_from(t, i) == t[i].remaining_bytes + sum_from(t, i + 1));
        }
    }
}

/// The two-pass deduction, summarized: identities kept, per-bucket capacity
/// only ever shrinks, expired buckets and foreign classes are untouched, the
/// unmet need is what the total availability could not cover, and the total
/// remaining bytes drop by exactly what was deducted.
pub proof fn lemma_consume_buckets(s: Seq<BucketV>, category: QuotaType, now: u64, need: int)
    requires
        need >= 0,
    ensures
        ({
            let t = drained_buckets(s, category, now, need);
            let rem = unmet_need(s, category, now, need);
            &&& t.len() == s.len()
            &&& 0 <= rem <= need
            &&& rem == max(0, need - total_available(s, category, now))
            &&& forall|j: int|
                0 <= j < s.len() ==> (#[trigger] t[j]).name == s[j].name && t[j].category
                    == s[j].category && t[j].expiry == s[j].expiry && t[j].remaining_bytes
                    <= s[j].remaining_bytes
            &&& forall|j: int|
                0 <= j < s.len() && s[j].expiry <= now ==> (#[trigger] t[j]) == s[j]
            &&& forall|j: int|
                0 <= j < s.len() && s[j].category != category && s[j].category != QuotaType::General
                    ==> (#[trigger] t[j]) == s[j]
            &&& sum_remaining(t) == sum_remaining(s) - (need - rem)
        }),
{
    let first = drain_from(s, 0, category, now, need);
    lemma_drain_from_props(s, 0, category, now, need);
    lemma_avail_from_nonneg(s, 0, category, now);
    lemma_avail_from_nonneg(s, 0, QuotaType::General, now);
    if category == QuotaType::General {
    } else {
        let s1 = first.0;
        let n1 = first.1;
        lemma_drain_from_props(s1, 0, QuotaType::General, now, n1);
        lemma_avail_from_nonneg(s1, 0, QuotaType::General, now);
        // The first pass leaves every `General` bucket untouched, so the
        // fallback pool's availability is unchanged.
        assert forall|j: int|
            0 <= j < s.len() && bucket_eligible(s[j], QuotaType::General, now) implies (
        #[trigger] s1[j]).remaining_bytes == s[j].remaining_bytes by {
            assert(!bucket_eligible(s[j], category, now));
        }
        lemma_avail_from_agree(s, s1, 0, QuotaType::General, now);
    }
}

/// I1 and I3 for the deduction algorithm: when the unmet need is zero, the
/// new bucket list accounts for every requested byte, and its total equals
/// the old total minus the request.
pub proof fn lemma_consume_balance(s: Seq<BucketV>, category: QuotaType, now: u64, need: int)
    requires
        need >= 0,
        unmet_need(s, category, now, need) == 0,
    ensures
        sum_remaining(drained_buckets(s, category, now, need)) == sum_remaining(s) - need,
        sum_remaining(s) >= need,
{
    lemma_consume_buckets(s, category, now, need);
    lemma_sum_from_nonneg(drained_buckets(s, category, now, need), 0);
}

/// I2: no bucket's capacity ever grows, and no deduction exceeds what the
/// bucket held; names, categories and expiries are all kept.
pub proof fn lemma_consume_caps(s: Seq<BucketV>, category: QuotaType, now: u64, need: int)
    requires
        need >= 0,
    ensures
        drained_buckets(s, category, now, need).len() == s.len(),
        forall|j: int|
            0 <= j < s.len() ==> {
                let t = #[trigger] drained_buckets(s, category, now, need)[j];
                &&& t.name == s[j].name
                &&& t.category == s[j].category
                &&& t.expiry == s[j].expiry
                &&& t.remaining_bytes <= s[j].remaining_bytes
            },
{
    lemma_consume_buckets(s, category, now, need);
}

/// Category priority: when the requested class alone can cover the need,
/// every bucket of another class — the `General` fallback included — is left
/// exactly as it was.
pub proof fn lemma_category_priority(s: Seq<BucketV>, category: QuotaType, now: u64, need: int)
    requires
        0 <= need <= class_available(s, category, now),
    ensures
        forall|j: int|
            0 <= j < s.len() && s[j].category != category ==> #[trigger] drained_buckets(
                s,
                category,
                now,
                need,
            )[j] == s[j],
        unmet_need(s, category, now, need) == 0,
{
    let first = drain_from(s, 0, category, now, need);
    lemma_drain_from_props(s, 0, category, now, need);
    if category == QuotaType::General {
    } else {
        assert(first.1 == 0);
        lemma_drain_from_zero(first.0, 0, QuotaType::General, now);
        assert(drained_buckets(s, category, now, need) == first.0);
    }
}

/// Expired buckets are inert: whatever the request, a bucket whose expiry is
/// not in the future keeps its bytes, even when it is the only bucket of its
/// category.
pub proof fn lemma_expired_skipped(s: Seq<BucketV>, category: QuotaType, now: u64, need: int)
    requires
        need >= 0,
    ensures
        forall|j: int|
            0 <= j < s.len() && s[j].expiry <= now ==> #[trigger] drained_buckets(
                s,
                category,
                now,
                need,
            )[j] == s[j],
{
    lemma_consume_buckets(s, category, now, need);
}

/// Relation between an account, a consumption request, a time, and the
/// request's outcome. On an inactive account the request fails with
/// `AccountInactive`; when the eligible availability cannot cover the amount
/// it fails with `InsufficientBalance`; otherwise it succeeds with the
/// drained buckets, the balance recomputed from them, and every other field
/// unchanged.
pub open spec fn consume_result_post(
    a: AccountV,
    amount: u64,
    category: QuotaType,
    now: u64,
    r: Result<AccountV, TelcoError>,
) -> bool {
    if !a.is_active {
        r matches Err(e) && e matches TelcoError::AccountInactive
    } else if unmet_need(a.buckets, category, now, amount as int) > 0 {
        r matches Err(e) && e matches TelcoError::InsufficientBalance
    } else {
        &&& r matches Ok(b)
        &&& r matches Ok(b) ==> {
            &&& b.buckets == drained_buckets(a.buckets, category, now, amount as int)
            &&& b.data_balance_bytes == sum_remaining(b.buckets)
            &&& b.data_balance_bytes == a.data_balance_bytes - amount
            &&& b.id == a.id
            &&& b.is_active == a.is_active
            &&& b.biometric_locked == a.biometric_locked
            &&& b.last_traffic_bytes == a.last_traffic_bytes
            &&& b.current_latency_ms == a.current_latency_ms
        }
    }
}

/// `consume_result_post`, lifted to executable values.
pub open spec fn consume_post(
    a: UserAccount,
    amount: u64,
    category: QuotaType,
    now: u64,
    r: Result<UserAccount, TelcoError>,
) -> bool {
    consume_result_post(
        a@,
        amount,
        category,
        now,
        match r {
            Ok(b) => Ok(b@),
            Err(e) => Err(e),
        },
    )
}

/// One executable deduction pass for `class` at time `now`, deducting up to
/// `need` bytes in storage order; returns the bytes still needed.
fn drain_pass(buckets: &mut Vec<QuotaBucket>, class: QuotaType, now: u64, need: u64) -> (rem: u64)
    ensures
        final(buckets).deep_view() == drain_from(
            old(buckets).deep_view(),
            0,
            class,
            now,
            need as int,
        ).0,
        rem as int == drain_from(old(buckets).deep_view(), 0, class, now, need as int).1,
{
    let ghost orig = buckets.deep_view();
    let ghost need0 = need;
    let mut need = need;
    let mut i: usize = 0;
    while i < buckets.len()
        invariant
            i <= buckets.len(),
            buckets.deep_view().len() == orig.len(),
            drain_from(orig, 0, class, now, need0 as int) == drain_from(
                buckets.deep_view(),
                i as int,
                class,
                now,
                need as int,
            ),
        decreases buckets.len() - i,
    {
        let ghost pre = buckets.deep_view();
        let eligible = match (buckets[i].category, class) {
            (QuotaType::General, QuotaType::General) => true,
            (QuotaType::Social, QuotaType::Social) => true,
            (QuotaType::Video, QuotaType::Video) => true,
            _ => false,
        } && buckets[i].expiry > now;
        if eligible {
            let cur = buckets[i].remaining_bytes;
            let d = if cur < need {
                cur
            } else {
                need
            };
            let b = &mut buckets[i];
            b.remaining_bytes = cur - d;
            need = need - d;
            proof {
                assert(buckets.deep_view() =~= pre.update(
                    i as int,
                    BucketV { remaining_bytes: (pre[i as int].remaining_bytes - d) as u64, ..pre[i as int] },
                ));
            }
        }
        i += 1;
    }
    need
}

impl UserAccount {
    /// The deduction engine at an explicit time `now`: pure with respect to
    /// `self`, returning either the fully updated account or an error that
    /// leaves the caller's state untouched.
    pub fn consume_data_at(&self, amount: u64, category: QuotaType, now: u64) -> (r: Result<
        UserAccount,
        TelcoError,
    >)
        requires
            account_wf(*self),
        ensures
            consume_post(*self, amount, category, now, r),
            r matches Ok(b) ==> account_wf(b),
    {
        if !self.is_active {
            return Err(TelcoError::AccountInactive);
        }
        let mut new_buckets = clone_buckets(&self.buckets);
        let mut remaining = drain_pass(&mut new_buckets, category, now, amount);
        let is_general = match category {
            QuotaType::General => true,
            _ => false,
        };
        if !is_general {
            remaining = drain_pass(&mut new_buckets, QuotaType::General, now, remaining);
            proof {
                lemma_drain_from_props(self@.buckets, 0, category, now, amount as int);
            }
        }
        proof {
            assert(new_buckets.deep_view() == drained_buckets(
                self@.buckets,
                category,
                now,
                amount as int,
            ));
            assert(remaining as int == unmet_need(self@.buckets, category, now, amount as int));
        }
        if remaining > 0 {
            return Err(TelcoError::InsufficientBalance);
        }
        proof {
            lemma_consume_balance(self@.buckets, category, now, amount as int);
        }
        let total = self.data_balance_bytes - amount;
        Ok(
            UserAccount {
                id: self.id.clone(),
                is_active: self.is_active,
                biometric_locked: self.biometric_locked,
                buckets: new_buckets,
                last_traffic_bytes: self.last_traffic_bytes,
                data_balance_bytes: total,
                current_latency_ms: self.current_latency_ms,
            },
        )
    }
}

impl UserAccount {
    /// The deduction engine against the current wall clock: what
    /// `consume_data_at` does for the time the clock read.
    pub fn consume_data(&self, amount: u64, category: QuotaType) -> (r: Result<
        UserAccount,
        TelcoError,
    >)
        requires
            account_wf(*self),
        ensures
            exists|now: u64| #[trigger] consume_post(*self, amount, category, now, r),
            r matches Ok(b) ==> account_wf(b),
    {
        let now = unix_now_secs();
        let r = self.consume_data_at(amount, category, now);
        proof {
            assert(consume_post(*self, amount, category, now, r));
        }
        r
    }
}

} // verus!