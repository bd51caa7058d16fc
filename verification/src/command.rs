//! The free-text command surface: recognizing the "status" command, and
//! parsing topping purchases of the shape "<Category> <amount> <unit>" —
//! e.g. "YouTube 2GB" — anywhere in the input, case-insensitively. The
//! grammar is: one of the keywords YouTube / Social / General, at least one
//! blank, a run of decimal digits, optional blanks, and GB or MB; the
//! leftmost occurrence wins.

use vstd::prelude::*;

use crate::model::QuotaType;

verus! {

/// The blank characters accepted between the parts of a command.
pub open spec fn is_space_char(c: char) -> bool {
    c == ' ' || c == '\t' || c == '\n' || c == '\r' || c == '\u{b}' || c == '\u{c}'
}

pub open spec fn is_digit_char(c: char) -> bool {
    48 <= c as int <= 57
}

/// Case-insensitive match of one character against a letter given in both
/// cases.
pub open spec fn ci_eq(c: char, lo: char, up: char) -> bool {
    c == lo || c == up
}

pub open spec fn youtube_at(s: Seq<char>, i: int) -> bool {
    &&& i + 7 <= s.len()
    &&& ci_eq(s[i], 'y', 'Y')
    &&& ci_eq(s[i + 1], 'o', 'O')
    &&& ci_eq(s[i + 2], 'u', 'U')
    &&& ci_eq(s[i + 3], 't', 'T')
    &&& ci_eq(s[i + 4], 'u', 'U')
    &&& ci_eq(s[i + 5], 'b', 'B')
    &&& ci_eq(s[i + 6], 'e', 'E')
}

pub open spec fn social_at(s: Seq<char>, i: int) -> bool {
    &&& i + 6 <= s.len()
    &&& ci_eq(s[i], 's', 'S')
    &&& ci_eq(s[i + 1], 'o', 'O')
    &&& ci_eq(s[i + 2], 'c', 'C')
    &&& ci_eq(s[i + 3], 'i', 'I')
    &&& ci_eq(s[i + 4], 'a', 'A')
    &&& ci_eq(s[i + 5], 'l', 'L')
}

pub open spec fn general_at(s: Seq<char>, i: int) -> bool {
    &&& i + 7 <= s.len()
    &&& ci_eq(s[i], 'g', 'G')
    &&& ci_eq(s[i + 1], 'e', 'E')
    &&& ci_eq(s[i + 2], 'n', 'N')
    &&& ci_eq(s[i + 3], 'e', 'E')
    &&& ci_eq(s[i + 4], 'r', 'R')
    &&& ci_eq(s[i + 5], 'a', 'A')
    &&& ci_eq(s[i + 6], 'l', 'L')
}

/// Which category keyword, if any, starts at position `i`, and its length.
/// The keywords start with distinct letters, so at most one can match.
pub open spec fn keyword_at(s: Seq<char>, i: int) -> Option<(QuotaType, int)> {
    if youtube_at(s, i) {
        Some((QuotaType::Video, 7))
    } else if social_at(s, i) {
        Some((QuotaType::Social, 6))
    } else if general_at(s, i) {
        Some((QuotaType::General, 7))
    } else {
        None
    }
}

/// End of the run of blanks starting at `i`.
pub open spec fn space_run_end(s: Seq<char>, i: int) -> int
    decreases s.len() - i,
{
    if 0 <= i < s.len() && is_space_char(s[i]) {
        space_run_end(s, i + 1)
    } else {
        i
    }
}

/// End of the run of digits starting at `i`.
pub open spec fn digit_run_end(s: Seq<char>, i: int) -> int
    decreases s.len() - i,
{
    if 0 <= i < s.len() && is_digit_char(s[i]) {
        digit_run_end(s, i + 1)
    } else {
        i
    }
}

/// The unit at position `i`: `Some(true)` for GB, `Some(false)` for MB.
pub open spec fn unit_at(s: Seq<char>, i: int) -> Option<bool> {
    if i + 2 <= s.len() && ci_eq(s[i], 'g', 'G') && ci_eq(s[i + 1], 'b', 'B') {
        Some(true)
    } else if i + 2 <= s.len() && ci_eq(s[i], 'm', 'M') && ci_eq(s[i + 1], 'b', 'B') {
        Some(false)
    } else {
        None
    }
}

/// A full topping command starting at position `i`: keyword, at least one
/// blank, at least one digit, optional blanks, unit. Yields the category,
/// the digit characters, and whether the unit is GB.
pub open spec fn parse_at(s: Seq<char>, i: int) -> Option<(QuotaType, Seq<char>, bool)> {
    match keyword_at(s, i) {
        None => None,
        Some((cat, klen)) => {
            let q = space_run_end(s, i + klen);
            if q == i + klen {
                None
            } else {
                let d = digit_run_end(s, q);
                if d == q {
                    None
                } else {
                    match unit_at(s, space_run_end(s, d)) {
                        None => None,
                        Some(gb) => Some((cat, s.subrange(q, d), gb)),
                    }
                }
            }
        },
    }
}

/// The leftmost topping command at or after position `i`.
pub open spec fn match_from(s: Seq<char>, i: int) -> Option<(QuotaType, Seq<char>, bool)>
    decreases s.len() - i,
{
    if i >= s.len() {
        None
    } else if parse_at(s, i) is Some {
        parse_at(s, i)
    } else {
        match_from(s, i + 1)
    }
}

/// The leftmost topping command in the input, if any.
pub open spec fn spec_parse_command(s: Seq<char>) -> Option<(QuotaType, Seq<char>, bool)> {
    match_from(s, 0)
}

/// Decimal value of a run of digit characters.
pub open spec fn dec_value(digits: Seq<char>) -> int
    decreases digits.len(),
{
    if digits.len() == 0 {
        0
    } else {
        dec_value(digits.drop_last()) * 10 + (digits.last() as int - 48)
    }
}

/// The digit characters with redundant leading zeros removed (one digit
/// always stays).
pub open spec fn strip_zeros(digits: Seq<char>) -> Seq<char>
    decreases digits.len(),
{
    if digits.len() <= 1 {
        digits
    } else if digits[0] == '0' {
        strip_zeros(digits.drop_first())
    } else {
        digits
    }
}

/// The bucket label a parsed topping gets: the normalized amount, the unit
/// in upper case, and the word "Topping".
pub open spec fn topping_name(digits: Seq<char>, is_gb: bool) -> Seq<char> {
    strip_zeros(digits) + (if is_gb {
        " GB Topping"@
    } else {
        " MB Topping"@
    })
}

/// Whether the input, ignoring surrounding blanks and letter case, is the
/// word "status".
pub open spec fn is_status_command(s: Seq<char>) -> bool {
    let a = space_run_end(s, 0);
    let b = rspace_start(s, s.len() as int);
    &&& b - a == 6
    &&& ci_eq(s[a], 's', 'S')
    &&& ci_eq(s[a + 1], 't', 'T')
    &&& ci_eq(s[a + 2], 'a', 'A')
    &&& ci_eq(s[a + 3], 't', 'T')
    &&& ci_eq(s[a + 4], 'u', 'U')
    &&& ci_eq(s[a + 5], 's', 'S')
}

/// Start of the run of blanks that ends at position `i` (exclusive).
pub open spec fn rspace_start(s: Seq<char>, i: int) -> int
    decreases i,
{
    if 0 < i <= s.len() && is_space_char(s[i - 1]) {
        rspace_start(s, i - 1)
    } else {
        i
    }
}

pub proof fn lemma_dec_value_nonneg(digits: Seq<char>)
    requires
        forall|j: int| 0 <= j < digits.len() ==> is_digit_char(#[trigger] digits[j]),
    ensures
        dec_value(digits) >= 0,
    decreases digits.len(),
{
    if digits.len() > 0 {
        lemma_dec_value_nonneg(digits.drop_last());
    }
}

/// A prefix of a digit run never exceeds the whole run's value.
pub proof fn lemma_dec_value_prefix(digits: Seq<char>, k: int)
    requires
        0 <= k <= digits.len(),
        forall|j: int| 0 <= j < digits.len() ==> is_digit_char(#[trigger] digits[j]),
    ensures
        dec_value(digits.take(k)) <= dec_value(digits),
    decreases digits.len() - k,
{
    if k < digits.len() {
        lemma_dec_value_prefix(digits, k + 1);
        let t = digits.take(k + 1);
        assert(t.drop_last() =~= digits.take(k));
        lemma_dec_value_nonneg(digits.take(k));
        assert(dec_value(t) == dec_value(digits.take(k)) * 10 + (digits[k] as int - 48));
    } else {
        assert(digits.take(k) =~= digits);
    }
}

/// An executable parsed topping: category, amount, unit, and the bucket
/// label it will carry.
pub struct ParsedTopping {
    pub category: QuotaType,
    pub amount: u64,
    pub is_gb: bool,
    pub name: String,
}

fn is_space(c: char) -> (r: bool)
    ensures
        r == is_space_char(c),
{
    c == ' ' || c == '\t' || c == '\n' || c == '\r' || c == '\u{b}' || c == '\u{c}'
}

fn is_digit(c: char) -> (r: bool)
    ensures
        r == is_digit_char(c),
{
    let u = c as u32;
    48 <= u && u <= 57
}

fn ci(c: char, lo: char, up: char) -> (r: bool)
    ensures
        r == ci_eq(c, lo, up),
{
    c == lo || c == up
}

/// Scans past blanks from `from`.
fn space_end(s: &str, from: usize, len: usize) -> (e: usize)
    requires
        from <= len,
        len == s@.len(),
    ensures
        e == space_run_end(s@, from as int),
        from <= e <= len,
{
    let mut e = from;
    while e < len
        invariant
            from <= e <= len,
            len == s@.len(),
            space_run_end(s@, from as int) == space_run_end(s@, e as int),
        decreases len - e,
    {
        let c = s.get_char(e);
        if !is_space(c) {
            return e;
        }
        e += 1;
    }
    e
}

/// Scans past digits from `from`.
fn digit_end(s: &str, from: usize, len: usize) -> (e: usize)
    requires
        from <= len,
        len == s@.len(),
    ensures
        e == digit_run_end(s@, from as int),
        from <= e <= len,
{
    let mut e = from;
    while e < len
        invariant
            from <= e <= len,
            len == s@.len(),
            digit_run_end(s@, from as int) == digit_run_end(s@, e as int),
        decreases len - e,
    {
        let c = s.get_char(e);
        if !is_digit(c) {
            return e;
        }
        e += 1;
    }
    e
}

/// The category keyword starting at `i`, if any, with its length.
fn keyword_check(s: &str, i: usize, len: usize) -> (r: Option<(QuotaType, usize)>)
    requires
        i <= len,
        len == s@.len(),
    ensures
        match r {
            Some(p) => keyword_at(s@, i as int) == Some((p.0, p.1 as int)) && i + p.1 <= len,
            None => keyword_at(s@, i as int) is None,
        },
{
    if len >= 7 && i <= len - 7 && ci(s.get_char(i), 'y', 'Y') && ci(s.get_char(i + 1), 'o', 'O') && ci(
        s.get_char(i + 2),
        'u',
        'U',
    ) && ci(s.get_char(i + 3), 't', 'T') && ci(s.get_char(i + 4), 'u', 'U') && ci(
        s.get_char(i + 5),
        'b',
        'B',
    ) && ci(s.get_char(i + 6), 'e', 'E') {
        Some((QuotaType::Video, 7))
    } else if len >= 6 && i <= len - 6 && ci(s.get_char(i), 's', 'S') && ci(s.get_char(i + 1), 'o', 'O') && ci(
        s.get_char(i + 2),
        'c',
        'C',
    ) && ci(s.get_char(i + 3), 'i', 'I') && ci(s.get_char(i + 4), 'a', 'A') && ci(
        s.get_char(i + 5),
        'l',
        'L',
    ) {
        Some((QuotaType::Social, 6))
    } else if len >= 7 && i <= len - 7 && ci(s.get_char(i), 'g', 'G') && ci(s.get_char(i + 1), 'e', 'E') && ci(
        s.get_char(i + 2),
        'n',
        'N',
    ) && ci(s.get_char(i + 3), 'e', 'E') && ci(s.get_char(i + 4), 'r', 'R') && ci(
        s.get_char(i + 5),
        'a',
        'A',
    ) && ci(s.get_char(i + 6), 'l', 'L') {
        Some((QuotaType::General, 7))
    } else {
        None
    }
}

/// The unit starting at `u`, if any: `true` for GB, `false` for MB.
fn unit_check(s: &str, u: usize, len: usize) -> (r: Option<bool>)
    requires
        u <= len,
        len == s@.len(),
    ensures
        match r {
            Some(gb) => unit_at(s@, u as int) == Some(gb),
            None => unit_at(s@, u as int) is None,
        },
{
    if len >= 2 && u <= len - 2 && ci(s.get_char(u), 'g', 'G') && ci(s.get_char(u + 1), 'b', 'B') {
        Some(true)
    } else if len >= 2 && u <= len - 2 && ci(s.get_char(u), 'm', 'M') && ci(s.get_char(u + 1), 'b', 'B') {
        Some(false)
    } else {
        None
    }
}

/// The decimal value of the digits in `[q, d)`, or `None` when it does not
/// fit a `u64`.
fn parse_digits(s: &str, q: usize, d: usize, len: usize) -> (r: Option<u64>)
    requires
        q <= d <= len,
        len == s@.len(),
        forall|j: int| q <= j < d ==> is_digit_char(#[trigger] s@[j]),
    ensures
        match r {
            Some(v) => v as int == dec_value(s@.subrange(q as int, d as int)),
            None => dec_value(s@.subrange(q as int, d as int)) > u64::MAX,
        },
{
    let ghost digits = s@.subrange(q as int, d as int);
    let mut acc: u64 = 0;
    let mut j = q;
    while j < d
        invariant
            q <= j <= d <= len,
            len == s@.len(),
            digits == s@.subrange(q as int, d as int),
            forall|k: int| q <= k < d ==> is_digit_char(#[trigger] s@[k]),
            acc as int == dec_value(digits.take(j - q)),
        decreases d - j,
    {
        let c = s.get_char(j);
        let dv = (c as u32) - 48;
        let step = match acc.checked_mul(10) {
            Some(t) => t.checked_add(dv as u64),
            None => None,
        };
        proof {
            let t = digits.take(j - q + 1);
            assert(t.drop_last() =~= digits.take(j - q));
            assert(t.last() == s@[j as int]);
            assert(dec_value(t) == dec_value(digits.take(j - q)) * 10 + (s@[j as int] as int - 48));
        }
        match step {
            Some(next) => {
                acc = next;
            },
            None => {
                proof {
                    assert(forall|k: int|
                        0 <= k < digits.len() ==> is_digit_char(#[trigger] digits[k]));
                    lemma_dec_value_prefix(digits, j - q + 1);
                    assert(dec_value(digits.take(j - q + 1)) > u64::MAX);
                }
                return None;
            },
        }
        j += 1;
    }
    proof {
        assert(digits.take(j - q) =~= digits);
    }
    Some(acc)
}

/// Leading zeros of `strip_zeros` can be removed one at a time.
proof fn lemma_strip_zeros_step(digits: Seq<char>)
    requires
        digits.len() > 1,
        digits[0] == '0',
    ensures
        strip_zeros(digits) == strip_zeros(digits.drop_first()),
{
}

/// The start of the normalized digit run: the first position that is not a
/// redundant leading zero.
fn strip_start(s: &str, q: usize, d: usize, len: usize) -> (z: usize)
    requires
        q < d <= len,
        len == s@.len(),
    ensures
        q <= z < d,
        s@.subrange(z as int, d as int) == strip_zeros(s@.subrange(q as int, d as int)),
{
    let mut z = q;
    while z < d - 1
        invariant
            q <= z < d <= len,
            len == s@.len(),
            strip_zeros(s@.subrange(q as int, d as int)) == strip_zeros(
                s@.subrange(z as int, d as int),
            ),
        decreases d - z,
    {
        let c = s.get_char(z);
        if c != '0' {
            proof {
                let cur = s@.subrange(z as int, d as int);
                assert(cur[0] == s@[z as int]);
                assert(strip_zeros(cur) == cur);
            }
            return z;
        }
        proof {
            let cur = s@.subrange(z as int, d as int);
            assert(cur.drop_first() =~= s@.subrange(z + 1, d as int));
            lemma_strip_zeros_step(cur);
        }
        z += 1;
    }
    proof {
        let cur = s@.subrange(z as int, d as int);
        assert(cur.len() == 1);
        assert(strip_zeros(cur) == cur);
    }
    z
}

/// Parses the leftmost topping command in the input. Returns `None` when no
/// command matches the grammar, and also when the written amount does not
/// fit a `u64`.
pub fn parse_topping_command(s: &str) -> (r: Option<ParsedTopping>)
    ensures
        match spec_parse_command(s@) {
            None => r is None,
            Some(p) => {
                if dec_value(p.1) <= u64::MAX {
                    &&& r matches Some(t)
                    &&& r matches Some(t) ==> t.category == p.0 && t.amount as int == dec_value(p.1)
                        && t.is_gb == p.2 && t.name@ == topping_name(p.1, p.2)
                } else {
                    r is None
                }
            },
        },
{
    let len = s.unicode_len();
    let mut i: usize = 0;
    while i < len
        invariant
            i <= len,
            len == s@.len(),
            match_from(s@, 0) == match_from(s@, i as int),
        decreases len - i,
    {
        match try_parse_at(s, i, len) {
            Some(t) => {
                return t;
            },
            None => {
                proof {
                    assert(match_from(s@, i as int) == match_from(s@, i + 1));
                }
            },
        }
        i += 1;
    }
    None
}

/// One attempt at position `i`: `Some(outcome)` when the grammar matches at
/// `i` (the outcome is `None` exactly when the amount overflows), `None`
/// when the grammar does not match at `i`.
fn try_parse_at(s: &str, i: usize, len: usize) -> (r: Option<Option<ParsedTopping>>)
    requires
        i < len,
        len == s@.len(),
    ensures
        match r {
            None => parse_at(s@, i as int) is None,
            Some(outcome) => {
                &&& parse_at(s@, i as int) is Some
                &&& parse_at(s@, i as int) matches Some(p) ==> {
                    if dec_value(p.1) <= u64::MAX {
                        &&& outcome matches Some(t)
                        &&& outcome matches Some(t) ==> t.category == p.0 && t.amount as int
                            == dec_value(p.1) && t.is_gb == p.2 && t.name@ == topping_name(
                            p.1,
                            p.2,
                        )
                    } else {
                        outcome is None
                    }
                }
            },
        },
{
    let (category, klen) = match keyword_check(s, i, len) {
        Some(p) => p,
        None => {
            return None;
        },
    };
    let q = space_end(s, i + klen, len);
    if q == i + klen {
        return None;
    }
    let d = digit_end(s, q, len);
    if d == q {
        return None;
    }
    proof {
        assert(forall|j: int| q <= j < d ==> is_digit_char(#[trigger] s@[j])) by {
            assert forall|j: int| q <= j < d implies is_digit_char(#[trigger] s@[j]) by {
                lemma_digit_run_digits(s@, q as int, j);
            }
        }
    }
    let u = space_end(s, d, len);
    let gb = match unit_check(s, u, len) {
        Some(gb) => gb,
        None => {
            return None;
        },
    };
    let amount = match parse_digits(s, q, d, len) {
        Some(v) => v,
        None => {
            return Some(None);
        },
    };
    let z = strip_start(s, q, d, len);
    let digits_str = s.substring_char(z, d);
    let name = String::from_str(digits_str).concat(
        if gb {
            " GB Topping"
        } else {
            " MB Topping"
        },
    );
    Some(
        Some(
            ParsedTopping {
                category,
                amount,
                is_gb: gb,
                name,
            },
        ),
    )
}

/// Every position strictly inside a digit run holds a digit.
proof fn lemma_digit_run_digits(s: Seq<char>, i: int, j: int)
    requires
        0 <= i <= j < digit_run_end(s, i),
    ensures
        is_digit_char(s[j]),
    decreases j - i,
{
    if i < j {
        lemma_digit_run_digits(s, i + 1, j);
    }
}

/// Scans back past trailing blanks, down from `upto`.
fn rspace(s: &str, upto: usize, len: usize) -> (b: usize)
    requires
        upto <= len,
        len == s@.len(),
    ensures
        b == rspace_start(s@, upto as int),
        b <= upto,
{
    let mut b = upto;
    while b > 0
        invariant
            b <= upto <= len,
            len == s@.len(),
            rspace_start(s@, upto as int) == rspace_start(s@, b as int),
        decreases b,
    {
        let c = s.get_char(b - 1);
        if !is_space(c) {
            return b;
        }
        b = b - 1;
    }
    b
}

/// Whether the input is the "status" command: the word "status", any letter
/// case, surrounded by nothing but blanks.
pub fn status_requested(s: &str) -> (r: bool)
    ensures
        r == is_status_command(s@),
{
    let len = s.unicode_len();
    let a = space_end(s, 0, len);
    let b = rspace(s, len, len);
    if b < a || b - a != 6 {
        return false;
    }
    ci(s.get_char(a), 's', 'S') && ci(s.get_char(a + 1), 't', 'T') && ci(
        s.get_char(a + 2),
        'a',
        'A',
    ) && ci(s.get_char(a + 3), 't', 'T') && ci(s.get_char(a + 4), 'u', 'U') && ci(
        s.get_char(a + 5),
        's',
        'S',
    )
}

} // verus!
