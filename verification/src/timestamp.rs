//! Calendar timestamps with second precision, held as plain field values,
//! and their textual encoding `YYYY-MM-DDTHH:MM:SS` used by the history
//! storage layer. Formatting and parsing are exact inverses of each other.

use vstd::prelude::*;
use vstd::arithmetic::div_mod::lemma_fundamental_div_mod;
use vstd::arithmetic::div_mod::lemma_fundamental_div_mod_converse;

verus! {

/// A wall-clock timestamp, second precision.
#[derive(Clone, Copy, PartialEq, Eq, Structural, Debug)]
pub struct Timestamp {
    pub year: u16,
    pub month: u8,
    pub day: u8,
    pub hour: u8,
    pub minute: u8,
    pub second: u8,
}

pub open spec fn is_leap_year(year: int) -> bool {
    year % 4 == 0 && (year % 100 != 0 || year % 400 == 0)
}

/// The number of days of `month` in `year`, for months 1 through 12.
pub open spec fn days_in_month(year: int, month: int) -> int {
    if month == 2 {
        if is_leap_year(year) {
            29
        } else {
            28
        }
    } else if month == 4 || month == 6 || month == 9 || month == 11 {
        30
    } else {
        31
    }
}

impl Timestamp {
    /// A calendar-valid timestamp that fits the four-digit year encoding.
    pub open spec fn well_formed(&self) -> bool {
        &&& self.year <= 9999
        &&& 1 <= self.month <= 12
        &&& 1 <= self.day <= days_in_month(self.year as int, self.month as int)
        &&& self.hour <= 23
        &&& self.minute <= 59
        &&& self.second <= 59
    }

    /// Decides whether this timestamp is well formed.
    pub fn check_well_formed(&self) -> (r: bool)
        ensures
            r == self.well_formed(),
    {
        self.year <= 9999 && 1 <= self.month && self.month <= 12 && 1 <= self.day && self.hour
            <= 23 && self.minute <= 59 && self.second <= 59 && self.day <= days_in_month_of(
            self.year,
            self.month,
        )
    }
}

/// The ASCII byte of the decimal digit `d`.
pub open spec fn digit(d: int) -> u8 {
    (48 + d) as u8
}

/// The 19-byte encoding `YYYY-MM-DDTHH:MM:SS` of `t`.
pub open spec fn timestamp_bytes(t: Timestamp) -> Seq<u8> {
    let y = t.year as int;
    let mo = t.month as int;
    let d = t.day as int;
    let h = t.hour as int;
    let mi = t.minute as int;
    let s = t.second as int;
    seq![
        digit(y / 1000),
        digit((y / 100) % 10),
        digit((y / 10) % 10),
        digit(y % 10),
        45u8,
        digit(mo / 10),
        digit(mo % 10),
        45u8,
        digit(d / 10),
        digit(d % 10),
        84u8,
        digit(h / 10),
        digit(h % 10),
        58u8,
        digit(mi / 10),
        digit(mi % 10),
        58u8,
        digit(s / 10),
        digit(s % 10),
    ]
}

/// Writing a two-digit number `10 * a + b` puts digit `a` before digit `b`;
/// reading them back recovers `a` and `b`.
proof fn lemma_compose2(a: int, b: int)
    requires
        0 <= a < 10,
        0 <= b < 10,
    ensures
        (10 * a + b) / 10 == a,
        (10 * a + b) % 10 == b,
{
    lemma_fundamental_div_mod_converse(10 * a + b, 10, a, b);
}

/// Reading the four digits of `1000 * a + 100 * b + 10 * c + d` recovers
/// `a`, `b`, `c` and `d`.
proof fn lemma_compose4(a: int, b: int, c: int, d: int)
    requires
        0 <= a < 10,
        0 <= b < 10,
        0 <= c < 10,
        0 <= d < 10,
    ensures
        (1000 * a + 100 * b + 10 * c + d) / 1000 == a,
        ((1000 * a + 100 * b + 10 * c + d) / 100) % 10 == b,
        ((1000 * a + 100 * b + 10 * c + d) / 10) % 10 == c,
        (1000 * a + 100 * b + 10 * c + d) % 10 == d,
{
    let n = 1000 * a + 100 * b + 10 * c + d;
    lemma_fundamental_div_mod_converse(n, 1000, a, 100 * b + 10 * c + d);
    lemma_fundamental_div_mod_converse(n, 100, 10 * a + b, 10 * c + d);
    lemma_compose2(a, b);
    lemma_fundamental_div_mod_converse(n, 10, 100 * a + 10 * b + c, d);
    lemma_fundamental_div_mod_converse(100 * a + 10 * b + c, 10, 10 * a + b, c);
}

/// A two-digit number is the composition of its two digits.
proof fn lemma_decompose2(n: int)
    requires
        0 <= n < 100,
    ensures
        n == 10 * (n / 10) + n % 10,
        0 <= n / 10 < 10,
        0 <= n % 10 < 10,
{
    lemma_fundamental_div_mod(n, 10);
}

/// A four-digit number is the composition of its four digits.
proof fn lemma_decompose4(n: int)
    requires
        0 <= n < 10000,
    ensures
        n == 1000 * (n / 1000) + 100 * ((n / 100) % 10) + 10 * ((n / 10) % 10) + n % 10,
        0 <= n / 1000 < 10,
        0 <= (n / 100) % 10 < 10,
        0 <= (n / 10) % 10 < 10,
        0 <= n % 10 < 10,
{
    lemma_fundamental_div_mod(n, 1000);
    let a = n / 1000;
    let r = n % 1000;
    lemma_fundamental_div_mod(r, 100);
    let b = r / 100;
    let r2 = r % 100;
    lemma_fundamental_div_mod(r2, 10);
    let c = r2 / 10;
    let d = r2 % 10;
    lemma_compose4(a, b, c, d);
}

/// The encoding of a well-formed timestamp determines every field: each
/// byte is the fixed separator or a decimal digit, and the fields are the
/// compositions of their digits.
proof fn lemma_bytes_determine_fields(t: Timestamp, s: Seq<u8>)
    requires
        t.well_formed(),
        timestamp_bytes(t) == s,
    ensures
        s.len() == 19,
        s[4] == 45 && s[7] == 45 && s[10] == 84 && s[13] == 58 && s[16] == 58,
        48 <= s[0] <= 57 && 48 <= s[1] <= 57 && 48 <= s[2] <= 57 && 48 <= s[3] <= 57,
        48 <= s[5] <= 57 && 48 <= s[6] <= 57 && 48 <= s[8] <= 57 && 48 <= s[9] <= 57,
        48 <= s[11] <= 57 && 48 <= s[12] <= 57 && 48 <= s[14] <= 57 && 48 <= s[15] <= 57,
        48 <= s[17] <= 57 && 48 <= s[18] <= 57,
        t.year as int == 1000 * (s[0] - 48) + 100 * (s[1] - 48) + 10 * (s[2] - 48) + (s[3] - 48),
        t.month as int == 10 * (s[5] - 48) + (s[6] - 48),
        t.day as int == 10 * (s[8] - 48) + (s[9] - 48),
        t.hour as int == 10 * (s[11] - 48) + (s[12] - 48),
        t.minute as int == 10 * (s[14] - 48) + (s[15] - 48),
        t.second as int == 10 * (s[17] - 48) + (s[18] - 48),
{
    lemma_decompose4(t.year as int);
    lemma_decompose2(t.month as int);
    lemma_decompose2(t.day as int);
    lemma_decompose2(t.hour as int);
    lemma_decompose2(t.minute as int);
    lemma_decompose2(t.second as int);
}

/// Appends the two decimal digits of `n` to `v`.
fn push_two_digits(v: &mut Vec<u8>, n: u8)
    requires
        n < 100,
    ensures
        final(v)@ == old(v)@ + seq![digit(n as int / 10), digit(n as int % 10)],
{
    v.push(48 + n / 10);
    v.push(48 + n % 10);
    proof {
        assert(v@ =~= old(v)@ + seq![digit(n as int / 10), digit(n as int % 10)]);
    }
}

/// Appends the four decimal digits of `n` to `v`.
fn push_four_digits(v: &mut Vec<u8>, n: u16)
    requires
        n < 10000,
    ensures
        final(v)@ == old(v)@ + seq![
            digit(n as int / 1000),
            digit((n as int / 100) % 10),
            digit((n as int / 10) % 10),
            digit(n as int % 10),
        ],
{
    v.push((48 + n / 1000) as u8);
    v.push((48 + (n / 100) % 10) as u8);
    v.push((48 + (n / 10) % 10) as u8);
    v.push((48 + n % 10) as u8);
    proof {
        assert(v@ =~= old(v)@ + seq![
            digit(n as int / 1000),
            digit((n as int / 100) % 10),
            digit((n as int / 10) % 10),
            digit(n as int % 10),
        ]);
    }
}

/// Encodes `t` as the 19 ASCII bytes `YYYY-MM-DDTHH:MM:SS`.
pub fn format_timestamp(t: &Timestamp) -> (v: Vec<u8>)
    requires
        t.well_formed(),
    ensures
        v@ == timestamp_bytes(*t),
{
    let mut v: Vec<u8> = Vec::new();
    push_four_digits(&mut v, t.year);
    v.push(45);
    push_two_digits(&mut v, t.month);
    v.push(45);
    push_two_digits(&mut v, t.day);
    v.push(84);
    push_two_digits(&mut v, t.hour);
    v.push(58);
    push_two_digits(&mut v, t.minute);
    v.push(58);
    push_two_digits(&mut v, t.second);
    proof {
        assert(v@ =~= timestamp_bytes(*t));
    }
    v
}

/// The number of days of `month` in `year`.
pub fn days_in_month_of(year: u16, month: u8) -> (d: u8)
    requires
        1 <= month <= 12,
    ensures
        d as int == days_in_month(year as int, month as int),
{
    if month == 2 {
        if year % 4 == 0 && (year % 100 != 0 || year % 400 == 0) {
            29
        } else {
            28
        }
    } else if month == 4 || month == 6 || month == 9 || month == 11 {
        30
    } else {
        31
    }
}

/// The timestamp that `s` encodes: the unique well-formed timestamp whose
/// encoding is `s`, or `None` when `s` encodes no well-formed timestamp.
pub open spec fn decoded_timestamp(s: Seq<u8>) -> Option<Timestamp> {
    if exists|t: Timestamp| t.well_formed() && #[trigger] timestamp_bytes(t) == s {
        Some(choose|t: Timestamp| t.well_formed() && #[trigger] timestamp_bytes(t) == s)
    } else {
        None
    }
}

/// Decodes a 19-byte `YYYY-MM-DDTHH:MM:SS` encoding. Returns the timestamp
/// exactly when `s` is the encoding of a well-formed timestamp, and `None`
/// on any other input.
pub fn parse_timestamp(s: &[u8]) -> (r: Option<Timestamp>)
    ensures
        r == decoded_timestamp(s@),
        r is Some ==> r->Some_0.well_formed() && timestamp_bytes(r->Some_0) == s@,
{
    if s.len() != 19 {
        proof {
            assert forall|t: Timestamp|
                t.well_formed() && #[trigger] timestamp_bytes(t) == s@ implies false by {
                lemma_bytes_determine_fields(t, s@);
            }
        }
        return None;
    }
    let c0 = s[0];
    let c1 = s[1];
    let c2 = s[2];
    let c3 = s[3];
    let c5 = s[5];
    let c6 = s[6];
    let c8 = s[8];
    let c9 = s[9];
    let c11 = s[11];
    let c12 = s[12];
    let c14 = s[14];
    let c15 = s[15];
    let c17 = s[17];
    let c18 = s[18];
    let shape_ok = s[4] == 45 && s[7] == 45 && s[10] == 84 && s[13] == 58 && s[16] == 58;
    let digits_ok = is_digit(c0) && is_digit(c1) && is_digit(c2) && is_digit(c3) && is_digit(c5)
        && is_digit(c6) && is_digit(c8) && is_digit(c9) && is_digit(c11) && is_digit(c12)
        && is_digit(c14) && is_digit(c15) && is_digit(c17) && is_digit(c18);
    if !shape_ok || !digits_ok {
        proof {
            assert forall|t: Timestamp|
                t.well_formed() && #[trigger] timestamp_bytes(t) == s@ implies false by {
                lemma_bytes_determine_fields(t, s@);
            }
        }
        return None;
    }
    let year: u16 = (c0 - 48) as u16 * 1000 + (c1 - 48) as u16 * 100 + (c2 - 48) as u16 * 10 + (c3
        - 48) as u16;
    let month: u8 = (c5 - 48) * 10 + (c6 - 48);
    let day: u8 = (c8 - 48) * 10 + (c9 - 48);
    let hour: u8 = (c11 - 48) * 10 + (c12 - 48);
    let minute: u8 = (c14 - 48) * 10 + (c15 - 48);
    let second: u8 = (c17 - 48) * 10 + (c18 - 48);
    let valid = 1 <= month && month <= 12 && 1 <= day && hour <= 23 && minute <= 59 && second <= 59
        && day <= days_in_month_of(year, month);
    if !valid {
        proof {
            assert forall|t: Timestamp|
                t.well_formed() && #[trigger] timestamp_bytes(t) == s@ implies false by {
                lemma_bytes_determine_fields(t, s@);
            }
        }
        return None;
    }
    let t = Timestamp { year, month, day, hour, minute, second };
    proof {
        lemma_compose4((c0 - 48) as int, (c1 - 48) as int, (c2 - 48) as int, (c3 - 48) as int);
        lemma_compose2((c5 - 48) as int, (c6 - 48) as int);
        lemma_compose2((c8 - 48) as int, (c9 - 48) as int);
        lemma_compose2((c11 - 48) as int, (c12 - 48) as int);
        lemma_compose2((c14 - 48) as int, (c15 - 48) as int);
        lemma_compose2((c17 - 48) as int, (c18 - 48) as int);
        assert(timestamp_bytes(t) =~= s@);
        assert forall|u: Timestamp|
            u.well_formed() && #[trigger] timestamp_bytes(u) == s@ implies u == t by {
            lemma_bytes_determine_fields(u, s@);
        }
        assert(decoded_timestamp(s@) == Some(t));
    }
    Some(t)
}

/// True when `b` is an ASCII decimal digit.
fn is_digit(b: u8) -> (r: bool)
    ensures
        r == (48 <= b <= 57),
{
    48 <= b && b <= 57
}

/// Law: decoding the encoding of any well-formed timestamp gives it back
/// unchanged — the codec round-trips exactly, to the second.
pub proof fn lemma_timestamp_round_trip(t: Timestamp)
    requires
        t.well_formed(),
    ensures
        decoded_timestamp(timestamp_bytes(t)) == Some(t),
{
    let s = timestamp_bytes(t);
    assert(t.well_formed() && timestamp_bytes(t) == s);
    let u = choose|u: Timestamp| u.well_formed() && #[trigger] timestamp_bytes(u) == s;
    lemma_bytes_determine_fields(t, s);
    lemma_bytes_determine_fields(u, s);
    assert(u == t);
}

} // verus!
