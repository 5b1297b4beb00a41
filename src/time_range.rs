//! Relative time tokens such as `1h`, `24h`, `7d` or `5m`: a leading integer
//! amount and a trailing unit character.
use vstd::prelude::*;
use crate::text::{int_text, nat_text, digit_char};

verus! {

/// Milliseconds in one hour, the window used for a token that cannot be read.
pub const DEFAULT_WINDOW_MS: i128 = 3_600_000;

/// Milliseconds per unit: `h` hours, `d` days, `m` minutes.
pub open spec fn unit_ms(c: char) -> Option<int> {
    if c == 'h' {
        Some(3_600_000)
    } else if c == 'd' {
        Some(86_400_000)
    } else if c == 'm' {
        Some(60_000)
    } else {
        None
    }
}

pub open spec fn is_digit(c: char) -> bool {
    '0' <= c && c <= '9'
}

/// One or more ASCII digits.
pub open spec fn all_digits(s: Seq<char>) -> bool {
    s.len() > 0 && forall|i: int| 0 <= i < s.len() ==> is_digit(#[trigger] s[i])
}

/// The value of a run of ASCII digits.
pub open spec fn digits_value(s: Seq<char>) -> int
    decreases s.len(),
{
    if s.len() == 0 {
        0
    } else {
        digits_value(s.drop_last()) * 10 + (s.last() as int - '0' as int)
    }
}

/// The integer that `s` spells: an optional `+` or `-` sign, then one or more
/// ASCII digits, with a value in the range of `i64`.
pub open spec fn amount_of(s: Seq<char>) -> Option<int> {
    let v = if s.len() > 0 && s[0] == '-' && all_digits(s.skip(1)) {
        Some(-digits_value(s.skip(1)))
    } else if s.len() > 0 && s[0] == '+' && all_digits(s.skip(1)) {
        Some(digits_value(s.skip(1)))
    } else if all_digits(s) {
        Some(digits_value(s))
    } else {
        None
    };
    match v {
        Some(x) => if i64::MIN <= x <= i64::MAX { Some(x) } else { None },
        None => None,
    }
}

/// Whether the token has a known unit and a readable amount.
pub open spec fn token_valid(token: Seq<char>) -> bool {
    token.len() > 0 && unit_ms(token.last()) is Some && amount_of(token.drop_last()) is Some
}

/// The span of a time token in milliseconds; one hour where the token cannot
/// be read.
pub open spec fn duration_ms(token: Seq<char>) -> int {
    if token_valid(token) {
        amount_of(token.drop_last()).unwrap() * unit_ms(token.last()).unwrap()
    } else {
        3_600_000
    }
}

/// The timestamp, in epoch milliseconds, at which a window ending at `now_ms`
/// begins.
pub open spec fn window_start(token: Seq<char>, now_ms: int) -> int {
    now_ms - duration_ms(token)
}

proof fn lemma_digits_value_grows(s: Seq<char>)
    requires
        s.len() > 0,
        is_digit(s.last()),
    ensures
        digits_value(s) >= digits_value(s.drop_last()) * 10,
        digits_value(s) <= digits_value(s.drop_last()) * 10 + 9,
{
}

proof fn lemma_digits_value_nonneg(s: Seq<char>)
    requires
        forall|i: int| 0 <= i < s.len() ==> is_digit(#[trigger] s[i]),
    ensures
        digits_value(s) >= 0,
    decreases s.len(),
{
    if s.len() > 0 {
        let t = s.drop_last();
        assert forall|i: int| 0 <= i < t.len() implies is_digit(#[trigger] t[i]) by {
            assert(t[i] == s[i]);
        }
        lemma_digits_value_nonneg(t);
        assert(is_digit(s[s.len() - 1]));
    }
}

/// Reads the digits of `s` from index `start` on; `None` where one of them is
/// not a digit, where there are none, or where the value exceeds `limit`.
fn read_digits(s: &str, start: usize, limit: i128) -> (r: Option<i128>)
    requires
        start <= s@.len(),
        0 <= limit <= i64::MAX + 1,
    ensures
        match r {
            Some(v) => all_digits(s@.skip(start as int)) && v == digits_value(s@.skip(start as int)) && 0 <= v <= limit,
            None => !all_digits(s@.skip(start as int)) || digits_value(s@.skip(start as int)) > limit,
        },
{
    let n = s.unicode_len();
    if start == n {
        return None;
    }
    let mut v: i128 = 0;
    let mut over = false;
    let mut i: usize = start;
    proof {
        assert(s@.subrange(start as int, start as int) =~= Seq::<char>::empty());
    }
    while i < n
        invariant
            n == s@.len(),
            start < n,
            start <= i <= n,
            0 <= limit <= i64::MAX + 1,
            forall|j: int| start <= j < i ==> is_digit(#[trigger] s@[j]),
            !over ==> v == digits_value(s@.subrange(start as int, i as int)) && 0 <= v <= limit,
            over ==> digits_value(s@.subrange(start as int, i as int)) > limit,
        decreases n - i,
    {
        let c = s.get_char(i);
        if !('0' <= c && c <= '9') {
            proof {
                let k = (i - start) as int;
                assert(s@.skip(start as int)[k] == c);
            }
            return None;
        }
        let ghost pre = s@.subrange(start as int, i as int);
        let ghost next = s@.subrange(start as int, i + 1);
        proof {
            assert(next.drop_last() =~= pre);
            assert(next.last() == c);
            lemma_digits_value_grows(next);
            assert forall|j: int| 0 <= j < pre.len() implies is_digit(#[trigger] pre[j]) by {
                assert(pre[j] == s@[start + j]);
            }
            lemma_digits_value_nonneg(pre);
        }
        if !over {
            let d = (c as u32 - '0' as u32) as i128;
            let w = v * 10 + d;
            if w > limit {
                over = true;
            } else {
                v = w;
            }
        }
        i = i + 1;
    }
    proof {
        assert(s@.subrange(start as int, n as int) =~= s@.skip(start as int));
        assert forall|j: int| 0 <= j < s@.skip(start as int).len() implies is_digit(#[trigger] s@.skip(start as int)[j]) by {
            assert(s@.skip(start as int)[j] == s@[start + j]);
        }
    }
    if over {
        None
    } else {
        Some(v)
    }
}

/// Reads the amount of a time token as `i64` parsing would: an optional sign,
/// then digits, within the range of `i64`.
pub fn parse_amount(s: &str) -> (r: Option<i64>)
    ensures
        match r {
            Some(v) => amount_of(s@) == Some(v as int),
            None => amount_of(s@) is None,
        },
{
    let n = s.unicode_len();
    if n > 0 && s.get_char(0) == '-' {
        match read_digits(s, 1, 9_223_372_036_854_775_808) {
            Some(v) => {
                proof {
                    assert(!all_digits(s@));
                }
                Some((0 - v) as i64)
            },
            None => {
                proof {
                    assert(!all_digits(s@));
                }
                None
            },
        }
    } else if n > 0 && s.get_char(0) == '+' {
        match read_digits(s, 1, 9_223_372_036_854_775_807) {
            Some(v) => Some(v as i64),
            None => {
                proof {
                    assert(!all_digits(s@));
                }
                None
            },
        }
    } else {
        proof {
            assert(s@.skip(0) =~= s@);
        }
        match read_digits(s, 0, 9_223_372_036_854_775_807) {
            Some(v) => Some(v as i64),
            None => None,
        }
    }
}

/// The span of a time token in milliseconds: the amount times the unit's
/// length, or one hour where the unit is unknown or the amount unreadable.
pub fn duration_of(token: &str) -> (r: i128)
    ensures
        r == duration_ms(token@),
{
    let n = token.unicode_len();
    if n == 0 {
        return DEFAULT_WINDOW_MS;
    }
    let unit = token.get_char(n - 1);
    let per: i128 = if unit == 'h' {
        3_600_000
    } else if unit == 'd' {
        86_400_000
    } else if unit == 'm' {
        60_000
    } else {
        return DEFAULT_WINDOW_MS;
    };
    let head = token.substring_char(0, n - 1);
    proof {
        assert(head@ =~= token@.drop_last());
    }
    match parse_amount(head) {
        Some(a) => {
            assert((a as i128) * per <= 9_223_372_036_854_775_807i128 * 86_400_000) by (nonlinear_arith)
                requires
                    a <= 9_223_372_036_854_775_807i128,
                    0 < per <= 86_400_000,
            ;
            assert((a as i128) * per >= -9_223_372_036_854_775_808i128 * 86_400_000) by (nonlinear_arith)
                requires
                    a >= -9_223_372_036_854_775_808i128,
                    0 < per <= 86_400_000,
            ;
            (a as i128) * per
        },
        None => DEFAULT_WINDOW_MS,
    }
}

/// The epoch-millisecond lower bound of the window that `token` names and
/// that ends at `now_ms`.
pub fn window_start_at(token: &str, now_ms: i64) -> (r: i128)
    ensures
        r == window_start(token@, now_ms as int),
{
    (now_ms as i128) - duration_of(token)
}

/// A token whose unit is not `h`, `d` or `m`, or whose amount is not an
/// integer, spans one hour.
pub proof fn lemma_unreadable_token_spans_one_hour(token: Seq<char>)
    requires
        token.len() == 0 || unit_ms(token.last()) is None || amount_of(token.drop_last()) is None,
    ensures
        duration_ms(token) == 3_600_000,
{
}

/// A token made of an amount and a known unit spans that many units.
pub proof fn lemma_token_spans_amount_units(token: Seq<char>, amount: int, unit: char)
    requires
        token.len() > 0,
        token.last() == unit,
        unit_ms(unit) is Some,
        amount_of(token.drop_last()) == Some(amount),
    ensures
        duration_ms(token) == amount * unit_ms(unit).unwrap(),
{
}

proof fn lemma_nat_text_reads_back(k: nat)
    ensures
        nat_text(k).len() > 0,
        forall|i: int| 0 <= i < nat_text(k).len() ==> is_digit(#[trigger] nat_text(k)[i]),
        digits_value(nat_text(k)) == k,
    decreases k,
{
    if k < 10 {
        let t = nat_text(k);
        assert(t.drop_last() =~= Seq::<char>::empty());
        assert(is_digit(t[0]));
        assert(t.last() as int - '0' as int == k);
        assert(digits_value(t) == digits_value(t.drop_last()) * 10 + (t.last() as int - '0' as int));
    } else {
        lemma_nat_text_reads_back(k / 10);
        let t = nat_text(k);
        let d = digit_char((k % 10) as nat);
        assert(t == nat_text(k / 10).push(d));
        assert(t.drop_last() =~= nat_text(k / 10));
        assert(is_digit(d));
        assert(d as int - '0' as int == k % 10);
        assert(digits_value(t) == digits_value(t.drop_last()) * 10 + (t.last() as int - '0' as int));
        assert((k / 10) * 10 + k % 10 == k);
        assert forall|i: int| 0 <= i < t.len() implies is_digit(#[trigger] t[i]) by {
            if i < t.len() - 1 {
                assert(t[i] == nat_text(k / 10)[i]);
            }
        }
    }
}

proof fn lemma_int_text_reads_back(n: int)
    requires
        i64::MIN <= n <= i64::MAX,
    ensures
        amount_of(int_text(n)) == Some(n),
{
    if n >= 0 {
        let t = nat_text(n as nat);
        lemma_nat_text_reads_back(n as nat);
        assert(is_digit(t[0]));
        assert(all_digits(t));
    } else {
        let t = nat_text((-n) as nat);
        lemma_nat_text_reads_back((-n) as nat);
        let s = seq!['-'] + t;
        assert(s.skip(1) =~= t);
        assert(all_digits(t));
    }
}

/// A token made of the decimal text of any `i64` amount and a known unit
/// spans that amount of units, and its window ends that long before now.
pub proof fn lemma_written_token_spans_amount(amount: i64, unit: char, now_ms: int)
    requires
        unit_ms(unit) is Some,
    ensures
        duration_ms(int_text(amount as int).push(unit)) == amount * unit_ms(unit).unwrap(),
        window_start(int_text(amount as int).push(unit), now_ms) == now_ms - amount * unit_ms(unit).unwrap(),
{
    let token = int_text(amount as int).push(unit);
    lemma_int_text_reads_back(amount as int);
    assert(token.drop_last() =~= int_text(amount as int));
    assert(token.last() == unit);
}

/// Relies on chrono::Utc::now and DateTime::timestamp_millis: the current
/// time in epoch milliseconds. Nothing is known of the value.
#[verifier::external_body]
pub(crate) fn now_millis() -> (r: i64) {
    chrono::Utc::now().timestamp_millis()
}

} // verus!
