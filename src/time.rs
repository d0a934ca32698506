//! Points in time (UTC, to the nanosecond), their text form in the record
//! store, and elapsed time between them.
use vstd::prelude::*;
use crate::text::{is_digit, digit_value, decimal_value, digit_char, digit_to_char};

verus! {

pub const NANOS_PER_DAY: u64 = 86_400_000_000_000;

/// A moment of the proleptic Gregorian calendar, in UTC.
#[derive(Clone, Copy, Debug, PartialEq, Eq, Hash, Structural)]
pub struct Timestamp {
    pub year: i32,
    pub month: u32,
    pub day: u32,
    pub hour: u32,
    pub minute: u32,
    pub second: u32,
    pub nanosecond: u32,
}

pub open spec fn is_leap(y: int) -> bool {
    (y % 4 == 0 && y % 100 != 0) || y % 400 == 0
}

pub open spec fn days_in_month(y: int, m: int) -> int {
    if m == 2 {
        if is_leap(y) {
            29
        } else {
            28
        }
    } else if m == 4 || m == 6 || m == 9 || m == 11 {
        30
    } else {
        31
    }
}

/// Days of the year before the first of month `m`.
pub open spec fn days_before_month(y: int, m: int) -> int {
    let base: int = if m == 1 {
        0
    } else if m == 2 {
        31
    } else if m == 3 {
        59
    } else if m == 4 {
        90
    } else if m == 5 {
        120
    } else if m == 6 {
        151
    } else if m == 7 {
        181
    } else if m == 8 {
        212
    } else if m == 9 {
        243
    } else if m == 10 {
        273
    } else if m == 11 {
        304
    } else {
        334
    };
    if m > 2 && is_leap(y) {
        base + 1
    } else {
        base
    }
}

/// The day number of a date, 1 January of year 1 being day 1.
pub open spec fn days_from_ce(y: int, m: int, d: int) -> int {
    let p = y - 1;
    365 * p + p / 4 - p / 100 + p / 400 + days_before_month(y, m) + d
}

/// Relies on `chrono::NaiveDate::from_ymd_opt` and `Datelike::num_days_from_ce`,
/// documented as the count of days of the proleptic Gregorian calendar with
/// 1 January of year 1 as day 1.
#[verifier::external_body]
fn day_number(year: i32, month: u32, day: u32) -> (r: Option<i32>)
    requires
        0 <= year <= 9999,
        1 <= month <= 12,
        1 <= day <= days_in_month(year as int, month as int),
    ensures
        r == Some(days_from_ce(year as int, month as int, day as int) as i32),
{
    match chrono::NaiveDate::from_ymd_opt(year, month, day) {
        Some(d) => Some(chrono::Datelike::num_days_from_ce(&d)),
        None => None,
    }
}

pub open spec fn pow10(n: nat) -> nat
    decreases n,
{
    if n == 0 {
        1
    } else {
        10 * pow10((n - 1) as nat)
    }
}

/// The last `n` decimal digits of `v`, zero-padded.
pub open spec fn digits_fixed(v: nat, n: nat) -> Seq<char>
    decreases n,
{
    if n == 0 {
        Seq::empty()
    } else {
        digits_fixed(v / 10, (n - 1) as nat).push(digit_char(v % 10))
    }
}

/// The fraction of a second as it is written: nothing for a whole second,
/// else a point and three, six or nine digits, the fewest that are exact.
pub open spec fn fraction_text(ns: nat) -> Seq<char> {
    if ns == 0 {
        Seq::empty()
    } else if ns % 1_000_000 == 0 {
        seq!['.'] + digits_fixed(ns / 1_000_000, 3)
    } else if ns % 1000 == 0 {
        seq!['.'] + digits_fixed(ns / 1000, 6)
    } else {
        seq!['.'] + digits_fixed(ns, 9)
    }
}

/// The text form of a timestamp, `YYYY-MM-DD HH:MM:SS[.fff] UTC`.
pub open spec fn timestamp_text(t: Timestamp) -> Seq<char> {
    digits_fixed(t.year as nat, 4) + seq!['-'] + digits_fixed(t.month as nat, 2) + seq!['-']
        + digits_fixed(t.day as nat, 2) + seq![' '] + digits_fixed(t.hour as nat, 2) + seq![':']
        + digits_fixed(t.minute as nat, 2) + seq![':'] + digits_fixed(t.second as nat, 2)
        + fraction_text(t.nanosecond as nat) + seq![' ', 'U', 'T', 'C']
}

/// The timestamp written as `s`, if `s` is the text form of one.
pub open spec fn timestamp_of_text(s: Seq<char>) -> Option<Timestamp> {
    if exists|t: Timestamp| t.wf() && timestamp_text(t) == s {
        Some(choose|t: Timestamp| t.wf() && timestamp_text(t) == s)
    } else {
        None
    }
}

/// Nanoseconds from the start of the calendar's day 0 to `t`.
pub open spec fn instant(t: Timestamp) -> int {
    ((days_from_ce(t.year as int, t.month as int, t.day as int) * 86400 + t.hour * 3600 + t.minute
        * 60 + t.second) * 1_000_000_000 + t.nanosecond) as int
}

/// A key that orders timestamps by their fields, most significant first.
pub open spec fn order_key(t: Timestamp) -> int {
    (((((t.year * 12 + t.month) * 32 + t.day) * 24 + t.hour) * 60 + t.minute) * 60 + t.second)
        * 1_000_000_000 + t.nanosecond
}

impl Timestamp {
    /// A valid date and time of day, with a four-digit year.
    pub open spec fn wf(&self) -> bool {
        &&& 0 <= self.year <= 9999
        &&& 1 <= self.month <= 12
        &&& 1 <= self.day <= days_in_month(self.year as int, self.month as int)
        &&& self.hour < 24
        &&& self.minute < 60
        &&& self.second < 60
        &&& self.nanosecond < 1_000_000_000
    }

    /// The timestamp of these fields, where they make a valid one.
    pub fn new(
        year: i32,
        month: u32,
        day: u32,
        hour: u32,
        minute: u32,
        second: u32,
        nanosecond: u32,
    ) -> (r: Option<Timestamp>)
        ensures
            ({
                let t = Timestamp { year, month, day, hour, minute, second, nanosecond };
                if t.wf() {
                    r == Some(t)
                } else {
                    r is None
                }
            }),
    {
        let t = Timestamp { year, month, day, hour, minute, second, nanosecond };
        if t.check() {
            Some(t)
        } else {
            None
        }
    }

    /// Whether the fields make a valid timestamp.
    pub fn check(&self) -> (r: bool)
        ensures
            r == self.wf(),
    {
        if !(0 <= self.year && self.year <= 9999 && 1 <= self.month && self.month <= 12) {
            return false;
        }
        let y = self.year;
        let leap = (y % 4 == 0 && y % 100 != 0) || y % 400 == 0;
        let dim: u32 = if self.month == 2 {
            if leap {
                29
            } else {
                28
            }
        } else if self.month == 4 || self.month == 6 || self.month == 9 || self.month == 11 {
            30
        } else {
            31
        };
        1 <= self.day && self.day <= dim && self.hour < 24 && self.minute < 60 && self.second < 60
            && self.nanosecond < 1_000_000_000
    }

    /// Whether `self` comes after `other`.
    pub fn is_after(&self, other: &Timestamp) -> (r: bool)
        requires
            self.wf(),
            other.wf(),
        ensures
            r == (order_key(*self) > order_key(*other)),
    {
        if self.year != other.year {
            proof { lemma_order_first(*self, *other); }
            return self.year > other.year;
        }
        if self.month != other.month {
            proof { lemma_order_first(*self, *other); }
            return self.month > other.month;
        }
        if self.day != other.day {
            proof { lemma_order_first(*self, *other); }
            return self.day > other.day;
        }
        if self.hour != other.hour {
            proof { lemma_order_first(*self, *other); }
            return self.hour > other.hour;
        }
        if self.minute != other.minute {
            proof { lemma_order_first(*self, *other); }
            return self.minute > other.minute;
        }
        if self.second != other.second {
            proof { lemma_order_first(*self, *other); }
            return self.second > other.second;
        }
        self.nanosecond > other.nanosecond
    }

    /// Nanoseconds from the start of the calendar to this moment.
    pub fn nanos(&self) -> (r: i128)
        requires
            self.wf(),
        ensures
            r == instant(*self),
            -400_000_000_000_000_000_000 <= r <= 400_000_000_000_000_000_000,
    {
        proof {
            lemma_day_bounds(self.year as int, self.month as int, self.day as int);
        }
        let dn = match day_number(self.year, self.month, self.day) {
            Some(n) => n,
            None => 0,
        };
        let secs: i128 = dn as i128 * 86400 + self.hour as i128 * 3600 + self.minute as i128 * 60
            + self.second as i128;
        secs * 1_000_000_000 + self.nanosecond as i128
    }

    /// Whether at least `days` whole days have passed from `self` to `now`.
    pub fn is_older_than(&self, now: &Timestamp, days: u32) -> (r: bool)
        requires
            self.wf(),
            now.wf(),
        ensures
            r == (instant(*now) - instant(*self) >= days * NANOS_PER_DAY),
    {
        let a = self.nanos();
        let b = now.nanos();
        let window: i128 = days as i128 * 86_400_000_000_000i128;
        let elapsed: i128 = b - a;
        elapsed >= window
    }

    /// The text form of the timestamp, as the record store holds it.
    pub fn to_text(&self) -> (r: Vec<char>)
        requires
            self.wf(),
        ensures
            r@ == timestamp_text(*self),
    {
        let mut out: Vec<char> = Vec::new();
        push_fixed(&mut out, self.year as u32, 4);
        out.push('-');
        push_fixed(&mut out, self.month, 2);
        out.push('-');
        push_fixed(&mut out, self.day, 2);
        out.push(' ');
        push_fixed(&mut out, self.hour, 2);
        out.push(':');
        push_fixed(&mut out, self.minute, 2);
        out.push(':');
        push_fixed(&mut out, self.second, 2);
        let ns = self.nanosecond;
        if ns != 0 {
            out.push('.');
            if ns % 1_000_000 == 0 {
                push_fixed(&mut out, ns / 1_000_000, 3);
            } else if ns % 1000 == 0 {
                push_fixed(&mut out, ns / 1000, 6);
            } else {
                push_fixed(&mut out, ns, 9);
            }
        }
        out.push(' ');
        out.push('U');
        out.push('T');
        out.push('C');
        proof {
            assert(out@ =~= timestamp_text(*self));
        }
        out
    }

    /// The timestamp whose text form is `s`.
    pub fn from_text(s: &Vec<char>) -> (r: Option<Timestamp>)
        ensures
            r == timestamp_of_text(s@),
    {
        let r = Timestamp::read_fields(s);
        match r {
            Some(t) => {
                if !t.check() {
                    proof { lemma_text_unique_none(s@, t); }
                    return None;
                }
                let w = t.to_text();
                if vec_equal(&w, s) {
                    proof { lemma_text_unique(t); }
                    Some(t)
                } else {
                    proof { lemma_text_unique_none(s@, t); }
                    None
                }
            }
            None => {
                proof {
                    if exists|t: Timestamp| t.wf() && timestamp_text(t) == s@ {
                        let t = choose|t: Timestamp| t.wf() && timestamp_text(t) == s@;
                        lemma_read_text(t);
                    }
                }
                None
            }
        }
    }

    /// The fields read from the fixed positions of a text form.
    fn read_fields(s: &Vec<char>) -> (r: Option<Timestamp>)
        ensures
            r == read_spec(s@),
    {
        let n = s.len();
        assert(pow10(3) == 1000) by { reveal_with_fuel(pow10, 10); }
        assert(pow10(6) == 1000000) by { reveal_with_fuel(pow10, 10); }
        if !(n == 23 || n == 27 || n == 30 || n == 33) {
            return None;
        }
        let year = match read_fixed(s, 0, 4) {
            Some(v) => v,
            None => return None,
        };
        let month = match read_fixed(s, 5, 2) {
            Some(v) => v,
            None => return None,
        };
        let day = match read_fixed(s, 8, 2) {
            Some(v) => v,
            None => return None,
        };
        let hour = match read_fixed(s, 11, 2) {
            Some(v) => v,
            None => return None,
        };
        let minute = match read_fixed(s, 14, 2) {
            Some(v) => v,
            None => return None,
        };
        let second = match read_fixed(s, 17, 2) {
            Some(v) => v,
            None => return None,
        };
        let nanosecond: u32 = if n == 23 {
            0
        } else if n == 27 {
            match read_fixed(s, 20, 3) {
                Some(v) => v * 1_000_000,
                None => return None,
            }
        } else if n == 30 {
            match read_fixed(s, 20, 6) {
                Some(v) => v * 1000,
                None => return None,
            }
        } else {
            match read_fixed(s, 20, 9) {
                Some(v) => v,
                None => return None,
            }
        };
        Some(Timestamp { year: year as i32, month, day, hour, minute, second, nanosecond })
    }
}

/// The value of the `n` digits of `s` from `start`, where they are all digits.
pub open spec fn fixed_value(s: Seq<char>, start: int, n: int) -> Option<nat> {
    let d = s.subrange(start, start + n);
    if all_digits_in(d) {
        Some(decimal_value(d))
    } else {
        None
    }
}

pub open spec fn all_digits_in(d: Seq<char>) -> bool {
    forall|i: int| 0 <= i < d.len() ==> is_digit(#[trigger] d[i])
}

/// What `read_fields` gives.
pub open spec fn read_spec(s: Seq<char>) -> Option<Timestamp> {
    let n = s.len();
    let frac = if n == 23 {
        Some(0nat)
    } else if n == 27 {
        match fixed_value(s, 20, 3) {
            Some(v) => Some(v * 1_000_000),
            None => None,
        }
    } else if n == 30 {
        match fixed_value(s, 20, 6) {
            Some(v) => Some(v * 1000),
            None => None,
        }
    } else {
        fixed_value(s, 20, 9)
    };
    if !(n == 23 || n == 27 || n == 30 || n == 33) {
        None
    } else {
        match (
            fixed_value(s, 0, 4),
            fixed_value(s, 5, 2),
            fixed_value(s, 8, 2),
            fixed_value(s, 11, 2),
            fixed_value(s, 14, 2),
            fixed_value(s, 17, 2),
            frac,
        ) {
            (Some(y), Some(mo), Some(d), Some(h), Some(mi), Some(se), Some(ns)) => Some(
                Timestamp {
                    year: y as i32,
                    month: mo as u32,
                    day: d as u32,
                    hour: h as u32,
                    minute: mi as u32,
                    second: se as u32,
                    nanosecond: ns as u32,
                },
            ),
            _ => None,
        }
    }
}

proof fn lemma_decimal_bound(d: Seq<char>)
    requires
        all_digits_in(d),
    ensures
        decimal_value(d) < pow10(d.len()),
    decreases d.len(),
{
    if d.len() > 0 {
        assert forall|i: int| 0 <= i < d.drop_last().len() implies is_digit(
            #[trigger] d.drop_last()[i],
        ) by {
            assert(d.drop_last()[i] == d[i]);
        }
        lemma_decimal_bound(d.drop_last());
        assert(is_digit(d[d.len() - 1]));
        assert(digit_value(d.last()) <= 9);
        let a = decimal_value(d.drop_last());
        let p = pow10((d.len() - 1) as nat);
        assert(a * 10 + 9 < 10 * p) by (nonlinear_arith)
            requires
                a < p,
        ;
    }
}

/// Reads `n` digits of `s` from `start`.
fn read_fixed(s: &Vec<char>, start: usize, n: usize) -> (r: Option<u32>)
    requires
        n <= 9,
        start + n <= s.len(),
    ensures
        match fixed_value(s@, start as int, n as int) {
            Some(v) => r == Some(v as u32) && v < pow10(n as nat),
            None => r is None,
        },
{
    let ghost d = s@.subrange(start as int, start + n);
    let mut v: u32 = 0;
    let mut i: usize = 0;
    assert(pow10(9) == 1_000_000_000) by { reveal_with_fuel(pow10, 10); }
    while i < n
        invariant
            i <= n <= 9,
            start + n <= s.len(),
            d == s@.subrange(start as int, start + n),
            all_digits_in(d.take(i as int)),
            v == decimal_value(d.take(i as int)),
            pow10(9) == 1_000_000_000,
        decreases n - i,
    {
        let c = s[start + i];
        assert(d[i as int] == c);
        if !('0' <= c && c <= '9') {
            assert(!all_digits_in(d));
            return None;
        }
        proof {
            lemma_decimal_bound(d.take(i as int));
            lemma_pow10_mono(i as nat, 8);
            assert(d.take(i + 1).drop_last() == d.take(i as int));
        }
        v = v * 10 + (c as u32 - 48);
        i = i + 1;
        assert forall|j: int| 0 <= j < d.take(i as int).len() implies is_digit(
            #[trigger] d.take(i as int)[j],
        ) by {
            if j < i - 1 {
                assert(d.take(i as int)[j] == d.take(i - 1)[j]);
            }
        }
    }
    assert(d.take(n as int) == d);
    proof {
        lemma_decimal_bound(d);
    }
    Some(v)
}

pub proof fn lemma_pow10_mono(a: nat, b: nat)
    requires
        a <= b,
    ensures
        pow10(a) <= pow10(b),
    decreases b,
{
    if a < b {
        lemma_pow10_mono(a, (b - 1) as nat);
    }
}

/// Appends the last `n` digits of `v`, zero-padded.
fn push_fixed(out: &mut Vec<char>, v: u32, n: u32)
    ensures
        final(out)@ == old(out)@ + digits_fixed(v as nat, n as nat),
    decreases n,
{
    if n > 0 {
        push_fixed(out, v / 10, n - 1);
        let c = digit_to_char(v % 10);
        out.push(c);
    }
}

fn vec_equal(a: &Vec<char>, b: &Vec<char>) -> (r: bool)
    ensures
        r == (a@ == b@),
{
    if a.len() != b.len() {
        return false;
    }
    let mut i: usize = 0;
    while i < a.len()
        invariant
            i <= a.len() == b.len(),
            forall|j: int| 0 <= j < i ==> a@[j] == b@[j],
        decreases a.len() - i,
    {
        if a[i] != b[i] {
            return false;
        }
        i = i + 1;
    }
    assert(a@ =~= b@);
    true
}

proof fn lemma_digits_fixed(v: nat, n: nat)
    ensures
        digits_fixed(v, n).len() == n,
        all_digits_in(digits_fixed(v, n)),
        decimal_value(digits_fixed(v, n)) == v % pow10(n),
    decreases n,
{
    if n > 0 {
        lemma_digits_fixed(v / 10, (n - 1) as nat);
        let d = digits_fixed(v, n);
        assert(d.drop_last() == digits_fixed(v / 10, (n - 1) as nat));
        assert forall|i: int| 0 <= i < d.len() implies is_digit(#[trigger] d[i]) by {
            if i < n - 1 {
                assert(d[i] == d.drop_last()[i]);
            }
        }
        let p = pow10((n - 1) as nat);
        assert(p > 0) by {
            lemma_pow10_pos((n - 1) as nat);
        }
        assert(((v / 10) % p) * 10 + v % 10 == v % (10 * p)) by {
            lemma_mod_split(v, p);
        }
    }
}

pub proof fn lemma_pow10_pos(n: nat)
    ensures
        pow10(n) > 0,
    decreases n,
{
    if n > 0 {
        lemma_pow10_pos((n - 1) as nat);
    }
}

proof fn lemma_mod_split(v: nat, p: nat)
    requires
        p > 0,
    ensures
        ((v / 10) % p) * 10 + v % 10 == v % (10 * p),
{
    vstd::arithmetic::div_mod::lemma_mod_breakdown(v as int, 10, p as int);
    assert(10 * ((v / 10) % p) == ((v / 10) % p) * 10) by (nonlinear_arith);
}

/// Comparing `x * base + r` by its two parts.
pub proof fn lemma_lex(x1: int, r1: int, x2: int, r2: int, base: int)
    requires
        0 <= r1 < base,
        0 <= r2 < base,
    ensures
        (x1 * base + r1 > x2 * base + r2) <==> (x1 > x2 || (x1 == x2 && r1 > r2)),
        (x1 * base + r1 == x2 * base + r2) <==> (x1 == x2 && r1 == r2),
{
    if x1 > x2 {
        assert(x1 * base >= x2 * base + base) by (nonlinear_arith)
            requires
                x1 >= x2 + 1,
                base > 0,
        ;
    } else if x1 < x2 {
        assert(x2 * base >= x1 * base + base) by (nonlinear_arith)
            requires
                x2 >= x1 + 1,
                base > 0,
        ;
    }
}

/// The day number of a four-digit-year date is small.
proof fn lemma_day_bounds(y: int, m: int, d: int)
    requires
        0 <= y <= 9999,
        1 <= m <= 12,
        1 <= d <= 31,
    ensures
        -400 <= days_from_ce(y, m, d) <= 4_000_000,
{
    let p = y - 1;
    assert(-1 <= p / 4 <= 2500);
    assert(-1 <= p / 100 <= 100);
    assert(-1 <= p / 400 <= 25);
}

/// Reading the text form of a valid timestamp gives it back.
proof fn lemma_read_text(t: Timestamp)
    requires
        t.wf(),
    ensures
        read_spec(timestamp_text(t)) == Some(t),
{
    let s = timestamp_text(t);
    lemma_digits_fixed(t.year as nat, 4);
    lemma_digits_fixed(t.month as nat, 2);
    lemma_digits_fixed(t.day as nat, 2);
    lemma_digits_fixed(t.hour as nat, 2);
    lemma_digits_fixed(t.minute as nat, 2);
    lemma_digits_fixed(t.second as nat, 2);
    assert(pow10(2) == 100) by { reveal_with_fuel(pow10, 10); }
    assert(pow10(3) == 1000) by { reveal_with_fuel(pow10, 10); }
    assert(pow10(4) == 10000) by { reveal_with_fuel(pow10, 10); }
    assert(pow10(6) == 1000000) by { reveal_with_fuel(pow10, 10); }
    assert(pow10(9) == 1000000000) by { reveal_with_fuel(pow10, 10); }
    let ns = t.nanosecond as nat;
    assert(s.subrange(0, 4) =~= digits_fixed(t.year as nat, 4));
    assert(s.subrange(5, 7) =~= digits_fixed(t.month as nat, 2));
    assert(s.subrange(8, 10) =~= digits_fixed(t.day as nat, 2));
    assert(s.subrange(11, 13) =~= digits_fixed(t.hour as nat, 2));
    assert(s.subrange(14, 16) =~= digits_fixed(t.minute as nat, 2));
    assert(s.subrange(17, 19) =~= digits_fixed(t.second as nat, 2));
    if ns == 0 {
        assert(s.len() == 23);
    } else if ns % 1_000_000 == 0 {
        lemma_digits_fixed(ns / 1_000_000, 3);
        assert(s.subrange(20, 23) =~= digits_fixed(ns / 1_000_000, 3));
        assert(s.len() == 27);
    } else if ns % 1000 == 0 {
        lemma_digits_fixed(ns / 1000, 6);
        assert(s.subrange(20, 26) =~= digits_fixed(ns / 1000, 6));
        assert(s.len() == 30);
    } else {
        lemma_digits_fixed(ns, 9);
        assert(s.subrange(20, 29) =~= digits_fixed(ns, 9));
        assert(s.len() == 33);
    }
}

/// The text form tells valid timestamps apart.
pub proof fn lemma_text_unique(t: Timestamp)
    requires
        t.wf(),
    ensures
        timestamp_of_text(timestamp_text(t)) == Some(t),
{
    let s = timestamp_text(t);
    assert(exists|u: Timestamp| u.wf() && timestamp_text(u) == s);
    let u = choose|u: Timestamp| u.wf() && timestamp_text(u) == s;
    lemma_read_text(t);
    lemma_read_text(u);
}

proof fn lemma_text_unique_none(s: Seq<char>, t: Timestamp)
    requires
        read_spec(s) == Some(t),
        !(t.wf() && timestamp_text(t) == s),
    ensures
        timestamp_of_text(s) is None,
{
    if exists|u: Timestamp| u.wf() && timestamp_text(u) == s {
        let u = choose|u: Timestamp| u.wf() && timestamp_text(u) == s;
        lemma_read_text(u);
    }
}

proof fn lemma_order_first(a: Timestamp, b: Timestamp)
    requires
        a.wf(),
        b.wf(),
    ensures
        a.year != b.year ==> (order_key(a) > order_key(b) <==> a.year > b.year),
        a.year == b.year && a.month != b.month ==> (order_key(a) > order_key(b) <==> a.month
            > b.month),
        a.year == b.year && a.month == b.month && a.day != b.day ==> (order_key(a) > order_key(b)
            <==> a.day > b.day),
        a.year == b.year && a.month == b.month && a.day == b.day && a.hour != b.hour ==> (
        order_key(a) > order_key(b) <==> a.hour > b.hour),
        a.year == b.year && a.month == b.month && a.day == b.day && a.hour == b.hour && a.minute
            != b.minute ==> (order_key(a) > order_key(b) <==> a.minute > b.minute),
        a.year == b.year && a.month == b.month && a.day == b.day && a.hour == b.hour && a.minute
            == b.minute && a.second != b.second ==> (order_key(a) > order_key(b) <==> a.second
            > b.second),
{
    let na = a.year * 12 + a.month;
    let nb = b.year * 12 + b.month;
    lemma_lex(a.year as int, a.month - 1, b.year as int, b.month - 1, 12);
    assert(na == (a.year as int) * 12 + (a.month - 1) + 1);
    assert(nb == (b.year as int) * 12 + (b.month - 1) + 1);
    let da = na * 32 + a.day;
    let db = nb * 32 + b.day;
    lemma_lex(na, a.day as int, nb, b.day as int, 32);
    let ha = da * 24 + a.hour;
    let hb = db * 24 + b.hour;
    lemma_lex(da, a.hour as int, db, b.hour as int, 24);
    let ma = ha * 60 + a.minute;
    let mb = hb * 60 + b.minute;
    lemma_lex(ha, a.minute as int, hb, b.minute as int, 60);
    let sa = ma * 60 + a.second;
    let sb = mb * 60 + b.second;
    lemma_lex(ma, a.second as int, mb, b.second as int, 60);
    lemma_lex(sa, a.nanosecond as int, sb, b.nanosecond as int, 1_000_000_000);
    assert(order_key(a) == sa * 1_000_000_000 + a.nanosecond);
    assert(order_key(b) == sb * 1_000_000_000 + b.nanosecond);
}

} // verus!
